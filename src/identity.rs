use vstd::prelude::*;
use vstd::utf8::{decode_utf8, valid_utf8};

verus! {

/// Kind of host identity to obtain.
#[derive(PartialEq, Eq, Structural)]
pub enum Type {
    Username,
    HostName,
    KernelVersion,
}

/// The index of the first zero byte of `b` at or after `i`, or its length.
pub open spec fn terminator_from(b: Seq<u8>, i: int) -> int
    decreases b.len() - i,
{
    if i < 0 || i >= b.len() {
        b.len() as int
    } else if b[i] == 0 {
        i
    } else {
        terminator_from(b, i + 1)
    }
}

/// The bytes of a fixed-size identity field before its first terminator (all
/// of them where it has none).
pub open spec fn field_bytes(b: Seq<u8>) -> Seq<u8> {
    b.subrange(0, terminator_from(b, 0))
}

/// The text of an identity field: its bytes before the terminator, where
/// they are valid UTF-8.
pub open spec fn identity_text(b: Seq<u8>) -> Option<Seq<char>> {
    if valid_utf8(field_bytes(b)) {
        Some(decode_utf8(field_bytes(b)))
    } else {
        None
    }
}

/// Relies on std's `String::from_utf8`: it succeeds exactly on valid UTF-8,
/// and the string then holds the characters that the bytes encode.
#[verifier::external_body]
fn utf8_string(bytes: Vec<u8>) -> (r: Option<String>)
    ensures
        r is Some <==> valid_utf8(bytes@),
        r is Some ==> r->0@ == decode_utf8(bytes@),
{
    String::from_utf8(bytes).ok()
}

proof fn lemma_terminator_bounds(b: Seq<u8>, i: int)
    requires
        0 <= i <= b.len(),
    ensures
        i <= terminator_from(b, i) <= b.len(),
        forall|j: int| i <= j < terminator_from(b, i) ==> b[j] != 0,
        terminator_from(b, i) < b.len() ==> b[terminator_from(b, i)] == 0,
    decreases b.len() - i,
{
    if i < b.len() && b[i] != 0 {
        lemma_terminator_bounds(b, i + 1);
    }
}

/// Decodes a raw identity field as text, stopping at the first zero byte;
/// `None` where the bytes before it are not valid UTF-8.
pub fn decode_identity(raw: &[u8]) -> (r: Option<String>)
    ensures
        r is Some <==> identity_text(raw@) is Some,
        r is Some ==> r->0@ == identity_text(raw@)->0,
{
    let n = raw.len();
    let mut out: Vec<u8> = Vec::new();
    let mut i: usize = 0;
    while i < n && raw[i] != 0
        invariant
            n == raw@.len(),
            i <= n,
            terminator_from(raw@, 0) == terminator_from(raw@, i as int),
            out@ == raw@.subrange(0, i as int),
        decreases n - i,
    {
        out.push(raw[i]);
        i = i + 1;
    }
    assert(out@ == field_bytes(raw@));
    utf8_string(out)
}

/// An identity field that holds `field`, then a terminator, then any padding,
/// decodes from exactly the bytes of `field`.
pub proof fn lemma_field_ends_at_terminator(field: Seq<u8>, padding: Seq<u8>)
    requires
        forall|j: int| 0 <= j < field.len() ==> field[j] != 0,
    ensures
        field_bytes(field + seq![0u8] + padding) == field,
        identity_text(field + seq![0u8] + padding) == (if valid_utf8(field) {
            Some(decode_utf8(field))
        } else {
            None
        }),
{
    let b = field + seq![0u8] + padding;
    lemma_terminator_bounds(b, 0);
    let t = terminator_from(b, 0);
    if t < field.len() {
        assert(b[t] == field[t]);
    }
    if t > field.len() {
        assert(b[field.len() as int] == 0);
    }
    assert(b.subrange(0, field.len() as int) =~= field);
}

} // verus!
