use vstd::prelude::*;

use crate::text::{chars_of, dec, decimal_text, is_whitespace, is_ws, parse_unsigned, unsigned_of};

verus! {

/// Time since the system started, split into days, hours and minutes.
///
/// `hours` counts every hour since start (it is not the hour within the day),
/// and `minutes` the minutes within the hour.
pub struct Uptime {
    pub formatted: String,
    pub seconds: u32,
    pub minutes: u32,
    pub hours: u32,
    pub days: u32,
}

/// `n` followed by the singular or the plural name of its unit.
pub open spec fn count_text(n: nat, one: Seq<char>, many: Seq<char>) -> Seq<char> {
    dec(n) + if n == 1 {
        one
    } else {
        many
    }
}

/// The clauses joined by ", ".
pub open spec fn join_clauses(parts: Seq<Seq<char>>) -> Seq<char>
    decreases parts.len(),
{
    if parts.len() == 0 {
        Seq::empty()
    } else if parts.len() == 1 {
        parts[0]
    } else {
        join_clauses(parts.drop_last()) + ", "@ + parts.last()
    }
}

/// The non-zero clauses among days, hours and minutes, in that order.
pub open spec fn uptime_clauses(s: nat) -> Seq<Seq<char>> {
    let d = s / 86400;
    let h = s / 3600;
    let m = s % 3600 / 60;
    (if d > 0 {
        seq![count_text(d, " day"@, " days"@)]
    } else {
        Seq::empty()
    }) + (if h > 0 {
        seq![count_text(h, " hour"@, " hours"@)]
    } else {
        Seq::empty()
    }) + (if m > 0 {
        seq![count_text(m, " minute"@, " minutes"@)]
    } else {
        Seq::empty()
    })
}

/// How `s` seconds of uptime are written: the clauses joined, or the seconds
/// where every clause is zero.
pub open spec fn uptime_text(s: nat) -> Seq<char> {
    let parts = uptime_clauses(s);
    if parts.len() == 0 {
        count_text(s, " second"@, " seconds"@)
    } else {
        join_clauses(parts)
    }
}

/// `u` is the uptime of `s` seconds.
pub open spec fn describes(u: Uptime, s: nat) -> bool {
    &&& u.seconds == s
    &&& u.days == s / 86400
    &&& u.hours == s / 3600
    &&& u.minutes == s % 3600 / 60
    &&& u.formatted@ == uptime_text(s)
}

/// Appends `n` with its unit name as the next clause after `parts`.
fn push_clause(
    out: &mut String,
    Ghost(parts): Ghost<Seq<Seq<char>>>,
    first: bool,
    n: u32,
    one: &str,
    many: &str,
)
    requires
        old(out)@ == join_clauses(parts),
        first == (parts.len() == 0),
    ensures
        final(out)@ == join_clauses(parts.push(count_text(n as nat, one@, many@))),
{
    let ghost clause = count_text(n as nat, one@, many@);
    assert(parts.push(clause).drop_last() =~= parts);
    if !first {
        out.append(", ");
    }
    let digits = decimal_text(n as u64);
    out.append(digits.as_str());
    if n == 1 {
        out.append(one);
    } else {
        out.append(many);
    }
    proof {
        if parts.len() == 0 {
            assert(final(out)@ =~= clause);
        } else {
            assert(final(out)@ =~= join_clauses(parts) + ", "@ + clause);
        }
    }
}

/// Splits `seconds` of uptime into days, hours and minutes and writes it out
/// ("1 day, 25 hours", "1 minute", "0 seconds").
pub fn uptime_from_seconds(seconds: u32) -> (r: Uptime)
    ensures
        describes(r, seconds as nat),
{
    let days = seconds / 86400;
    let hours = seconds / 3600;
    let minutes = seconds % 3600 / 60;
    let ghost s = seconds as nat;
    let ghost dc = if days > 0 {
        seq![count_text(days as nat, " day"@, " days"@)]
    } else {
        Seq::<Seq<char>>::empty()
    };
    let ghost hc = if hours > 0 {
        seq![count_text(hours as nat, " hour"@, " hours"@)]
    } else {
        Seq::<Seq<char>>::empty()
    };
    let ghost mc = if minutes > 0 {
        seq![count_text(minutes as nat, " minute"@, " minutes"@)]
    } else {
        Seq::<Seq<char>>::empty()
    };
    let mut out = String::new();
    assert(out@ =~= join_clauses(Seq::empty()));
    if days > 0 {
        push_clause(&mut out, Ghost(Seq::empty()), true, days, " day", " days");
        assert(Seq::<Seq<char>>::empty().push(dc[0]) =~= dc);
    } else {
        assert(Seq::<Seq<char>>::empty() =~= dc);
    }
    if hours > 0 {
        push_clause(&mut out, Ghost(dc), days == 0, hours, " hour", " hours");
        assert(dc.push(hc[0]) =~= dc + hc);
    } else {
        assert(dc =~= dc + hc);
    }
    if minutes > 0 {
        push_clause(&mut out, Ghost(dc + hc), days == 0 && hours == 0, minutes, " minute", " minutes");
        assert((dc + hc).push(mc[0]) =~= dc + hc + mc);
    } else {
        assert(dc + hc =~= dc + hc + mc);
    }
    assert(uptime_clauses(s) == dc + hc + mc);
    if days == 0 && hours == 0 && minutes == 0 {
        let digits = decimal_text(seconds as u64);
        out = digits;
        if seconds == 1 {
            out.append(" second");
        } else {
            out.append(" seconds");
        }
    }
    Uptime { formatted: out, seconds, minutes, hours, days }
}

/// The end of the integer part of the first token of `t`, searching from
/// `i`: the first dot or whitespace, or the end of `t`.
pub open spec fn integer_end(t: Seq<char>, i: int) -> int
    decreases t.len() - i,
{
    if i < 0 || i >= t.len() {
        t.len() as int
    } else if t[i] == '.' || is_ws(t[i]) {
        i
    } else {
        integer_end(t, i + 1)
    }
}

/// The seconds that an uptime counter's text gives: the integer part of its
/// first token, or zero where that is not an unsigned number (an optional
/// `+`, then decimal digits) that fits in a `u32`.
pub open spec fn uptime_seconds_of(t: Seq<char>) -> nat {
    match unsigned_of(t.subrange(0, integer_end(t, 0))) {
        Some(n) => if n <= u32::MAX {
            n
        } else {
            0
        },
        None => 0,
    }
}

/// Reads the elapsed seconds from the uptime counter's text
/// ("12345.67 8900.11" gives 12345); text that does not start with a number
/// gives zero.
pub fn parse_uptime_seconds(text: &str) -> (r: u32)
    ensures
        r == uptime_seconds_of(text@),
{
    let t = chars_of(text);
    let n = t.len();
    let mut e: usize = 0;
    while e < n && !(t[e] == '.' || is_whitespace(t[e]))
        invariant
            e <= n,
            n == t@.len(),
            integer_end(t@, 0) == integer_end(t@, e as int),
        decreases n - e,
    {
        e = e + 1;
    }
    match parse_unsigned(&t, 0, e) {
        Some(v) => if v <= u32::MAX as u64 {
            v as u32
        } else {
            0
        },
        None => 0,
    }
}

/// The uptime that the counter's text gives.
pub fn get_uptime(text: &str) -> (r: Uptime)
    ensures
        describes(r, uptime_seconds_of(text@)),
{
    uptime_from_seconds(parse_uptime_seconds(text))
}

} // verus!
