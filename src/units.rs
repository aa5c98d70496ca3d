use vstd::prelude::*;

use crate::parse::{parse_minf_key, stat_value};
use crate::text::{chars_of, parse_unsigned, unsigned_of};

verus! {

/// Bytes in one kibibyte, the unit in which memory statistics count.
pub const KIB: u128 = 1024;

/// The text that `byte_unit` writes for a byte count in the decimal unit
/// (B, KB, MB, GB, ...) that suits it.
pub uninterp spec fn byte_text(bytes: nat) -> Seq<char>;

/// Relies on byte_unit's `Byte::from_bytes`, `Byte::get_appropriate_unit(false)`
/// and the `Display` of `AdjustedByte`: the text depends on the byte count
/// alone.
#[verifier::external_body]
fn appropriate_unit_text(bytes: u128) -> (r: String)
    ensures
        r@ == byte_text(bytes as nat),
{
    byte_unit::Byte::from_bytes(bytes).get_appropriate_unit(false).to_string()
}

/// The text of `kb` kibibytes; a negative amount has none.
pub open spec fn kb_text(kb: int) -> Option<Seq<char>> {
    if kb < 0 {
        None
    } else {
        Some(byte_text((kb * KIB) as nat))
    }
}

/// Writes an amount of kibibytes in the decimal byte unit that suits it
/// ("0 B", "3.92 GB"); a negative amount has no text.
pub fn kb_to_gb(kb: i64) -> (r: Option<String>)
    ensures
        r is Some <==> kb_text(kb as int) is Some,
        r is Some ==> r->0@ == kb_text(kb as int)->0,
{
    if kb < 0 {
        return None;
    }
    let bytes = kb as u128 * KIB;
    Some(appropriate_unit_text(bytes))
}

/// The amount of kibibytes that statistics `t` give for `key`: its value read
/// as an unsigned number (an optional `+`, then decimal digits), where that
/// fits in an `i64`.
pub open spec fn stat_kb(t: Seq<char>, key: Seq<char>) -> Option<int> {
    match stat_value(t, key) {
        None => None,
        Some(v) => match unsigned_of(v) {
            Some(n) => if n <= i64::MAX {
                Some(n as int)
            } else {
                None
            },
            None => None,
        },
    }
}

/// Reads the amount of kibibytes that memory statistics give for `key`.
pub fn minf_get_kb(meminfo: &str, key: &str) -> (r: Option<i64>)
    ensures
        r is Some <==> stat_kb(meminfo@, key@) is Some,
        r is Some ==> r->0 == stat_kb(meminfo@, key@)->0,
        r is Some ==> r->0 >= 0,
{
    let v = parse_minf_key(meminfo, key)?;
    let cs = chars_of(v.as_str());
    assert(cs@.subrange(0, cs@.len() as int) =~= cs@);
    let n = parse_unsigned(&cs, 0, cs.len())?;
    if n > i64::MAX as u64 {
        return None;
    }
    Some(n as i64)
}

/// The text of the memory that statistics `t` give for `key`.
pub open spec fn stat_text(t: Seq<char>, key: Seq<char>) -> Option<Seq<char>> {
    match stat_kb(t, key) {
        None => None,
        Some(kb) => Some(byte_text((kb * KIB) as nat)),
    }
}

/// Reads the amount that memory statistics give for `key` and writes it in
/// the byte unit that suits it.
pub fn minf_get_gb(meminfo: &str, key: &str) -> (r: Option<String>)
    ensures
        r is Some <==> stat_text(meminfo@, key@) is Some,
        r is Some ==> r->0@ == stat_text(meminfo@, key@)->0,
{
    let kb = minf_get_kb(meminfo, key)?;
    kb_to_gb(kb)
}

/// The text of the memory in use, `total_kb - available_kb` kibibytes; none
/// where more is available than there is in total.
pub open spec fn used_text(total_kb: int, available_kb: int) -> Option<Seq<char>> {
    if available_kb > total_kb {
        None
    } else {
        Some(byte_text(((total_kb - available_kb) * KIB) as nat))
    }
}

/// Writes the memory in use, from the total and the available amounts.
pub fn used_mem(total_kb: i64, available_kb: i64) -> (r: Option<String>)
    requires
        total_kb >= 0,
        available_kb >= 0,
    ensures
        r is Some <==> used_text(total_kb as int, available_kb as int) is Some,
        r is Some ==> r->0@ == used_text(total_kb as int, available_kb as int)->0,
{
    if available_kb > total_kb {
        return None;
    }
    kb_to_gb(total_kb - available_kb)
}

/// Memory in use is never negative: where no more is available than there is
/// in total, it is the text of the difference, which is at least zero; where
/// more is available, there is none.
pub proof fn lemma_used_is_difference(total_kb: int, available_kb: int)
    requires
        total_kb >= 0,
        available_kb >= 0,
    ensures
        available_kb <= total_kb ==> total_kb - available_kb >= 0 && used_text(
            total_kb,
            available_kb,
        ) == kb_text(total_kb - available_kb),
        available_kb > total_kb ==> used_text(total_kb, available_kb) is None,
{
}

} // verus!
