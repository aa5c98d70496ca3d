use vstd::prelude::*;

use crate::text::{chars_of, is_whitespace, is_ws};

verus! {

/// `p` occurs in `t` starting at index `i`.
pub open spec fn matches_at(t: Seq<char>, p: Seq<char>, i: int) -> bool {
    0 <= i && i + p.len() <= t.len() && t.subrange(i, i + p.len()) == p
}

/// The first index at or after `i` where `p` occurs in `t`.
pub open spec fn first_match_from(t: Seq<char>, p: Seq<char>, i: int) -> Option<int>
    decreases t.len() - i,
{
    if i < 0 || i >= t.len() || i + p.len() > t.len() {
        None
    } else if matches_at(t, p, i) {
        Some(i)
    } else {
        first_match_from(t, p, i + 1)
    }
}

/// The index of the first newline at or after `i`, or the length of `t`.
pub open spec fn line_end(t: Seq<char>, i: int) -> int
    decreases t.len() - i,
{
    if i < 0 || i >= t.len() {
        t.len() as int
    } else if t[i] == '\n' {
        i
    } else {
        line_end(t, i + 1)
    }
}

/// `s` with every double quote removed.
pub open spec fn strip_quotes(s: Seq<char>) -> Seq<char>
    decreases s.len(),
{
    if s.len() == 0 {
        s
    } else if s.last() == '"' {
        strip_quotes(s.drop_last())
    } else {
        strip_quotes(s.drop_last()).push(s.last())
    }
}

/// The value of `key` in release metadata: the text after the first
/// occurrence of `key=`, up to the end of that line, with its double quotes
/// removed. Absent where `key=` does not occur or nothing follows it on the line.
pub open spec fn release_value(t: Seq<char>, key: Seq<char>) -> Option<Seq<char>> {
    let p = key.push('=');
    match first_match_from(t, p, 0) {
        None => None,
        Some(i) => {
            let a = i + p.len();
            let v = t.subrange(a, line_end(t, a));
            if v.len() == 0 {
                None
            } else {
                Some(strip_quotes(v))
            }
        },
    }
}

/// A line end lies between its start and the end of the text, at a newline
/// or at the end, with no newline before it.
pub proof fn lemma_line_end_bounds(t: Seq<char>, i: int)
    requires
        0 <= i,
    ensures
        i <= line_end(t, i) || i > t.len(),
        line_end(t, i) <= t.len(),
        line_end(t, i) < t.len() ==> t[line_end(t, i)] == '\n',
        forall|j: int| i <= j < line_end(t, i) ==> t[j] != '\n',
    decreases t.len() - i,
{
    if i < t.len() && t[i] != '\n' {
        lemma_line_end_bounds(t, i + 1);
    }
}

/// The start of the first line, at or after the line start `i`, that begins
/// with `k`. Lines end at each newline; text after a final newline is no line.
pub open spec fn line_with_prefix_from(t: Seq<char>, k: Seq<char>, i: int) -> Option<int>
    decreases t.len() - i,
{
    if i < 0 || i >= t.len() {
        None
    } else {
        let e = line_end(t, i);
        if i + k.len() <= e && t.subrange(i, i + k.len()) == k {
            Some(i)
        } else if e >= t.len() {
            None
        } else {
            proof {
                lemma_line_end_bounds(t, i);
            }
            line_with_prefix_from(t, k, e + 1)
        }
    }
}

/// The first index in `i..e` that does not hold whitespace, or `e`.
pub open spec fn skip_ws(t: Seq<char>, i: int, e: int) -> int
    decreases e - i,
{
    if i >= e {
        i
    } else if is_ws(t[i]) {
        skip_ws(t, i + 1, e)
    } else {
        i
    }
}

/// The first index in `i..e` that holds whitespace, or `e`.
pub open spec fn skip_word(t: Seq<char>, i: int, e: int) -> int
    decreases e - i,
{
    if i >= e {
        i
    } else if !is_ws(t[i]) {
        skip_word(t, i + 1, e)
    } else {
        i
    }
}

/// The second whitespace-separated token of `t[i..e]`.
pub open spec fn second_token(t: Seq<char>, i: int, e: int) -> Option<Seq<char>> {
    let a = skip_ws(t, i, e);
    let b = skip_word(t, a, e);
    let c = skip_ws(t, b, e);
    let d = skip_word(t, c, e);
    if c < e {
        Some(t.subrange(c, d))
    } else {
        None
    }
}

/// The value of `key` in tabular statistics: the second token of the first
/// line that begins with `key`.
pub open spec fn stat_value(t: Seq<char>, key: Seq<char>) -> Option<Seq<char>> {
    match line_with_prefix_from(t, key, 0) {
        None => None,
        Some(i) => second_token(t, i, line_end(t, i)),
    }
}

/// Whether `key` followed by `=` occurs in `t` at `i`.
fn key_eq_at(t: &Vec<char>, key: &Vec<char>, i: usize) -> (r: bool)
    requires
        i + key@.len() + 1 <= t@.len(),
    ensures
        r == matches_at(t@, key@.push('='), i as int),
{
    let ghost p = key@.push('=');
    let tl = t.len();
    let n = key.len();
    let mut j: usize = 0;
    while j < n
        invariant
            n == key@.len(),
            tl == t@.len(),
            p == key@.push('='),
            i + n + 1 <= t@.len(),
            j <= n,
            forall|m: int| 0 <= m < j ==> t@[i + m] == key@[m],
        decreases n - j,
    {
        if t[i + j] != key[j] {
            assert(t@.subrange(i as int, i + p.len())[j as int] == t@[i + j]);
            assert(p[j as int] == key@[j as int]);
            return false;
        }
        j = j + 1;
    }
    if t[i + n] != '=' {
        assert(t@.subrange(i as int, i + p.len())[n as int] == t@[i + n]);
        return false;
    }
    assert(t@.subrange(i as int, i + p.len()) =~= p);
    true
}

/// Finds the end of the line that holds index `i`.
fn find_line_end(t: &Vec<char>, i: usize) -> (r: usize)
    requires
        i <= t@.len(),
    ensures
        r == line_end(t@, i as int),
{
    let mut j = i;
    while j < t.len() && t[j] != '\n'
        invariant
            i <= j <= t@.len(),
            line_end(t@, i as int) == line_end(t@, j as int),
        decreases t@.len() - j,
    {
        j = j + 1;
    }
    j
}

/// The value that starts at `a` in release metadata: the rest of the line,
/// without double quotes, or `None` where the line ends at `a`.
fn value_at(os_release: &str, t: &Vec<char>, a: usize) -> (r: Option<String>)
    requires
        t@ == os_release@,
        a <= t@.len(),
    ensures
        ({
            let v = t@.subrange(a as int, line_end(t@, a as int));
            &&& r is Some <==> v.len() > 0
            &&& r is Some ==> r->0@ == strip_quotes(v)
        }),
{
    let n = t.len();
    let e = find_line_end(t, a);
    proof {
        lemma_line_end_bounds(t@, a as int);
    }
    if e == a {
        return None;
    }
    let mut out = String::new();
    let mut j = a;
    assert(t@.subrange(a as int, a as int) =~= Seq::<char>::empty());
    while j < e
        invariant
            a <= j <= e <= n,
            n == t@.len(),
            t@ == os_release@,
            out@ == strip_quotes(t@.subrange(a as int, j as int)),
        decreases e - j,
    {
        let ghost before = t@.subrange(a as int, j as int);
        assert(t@.subrange(a as int, j + 1).drop_last() =~= before);
        if t[j] != '"' {
            out.append(os_release.substring_char(j, j + 1));
            assert(out@ =~= strip_quotes(before).push(t@[j as int]));
        }
        j = j + 1;
    }
    Some(out)
}

/// Looks up `key` in release metadata (`KEY=value` lines, values possibly
/// in double quotes).
pub fn parse_osr_key(os_release: &str, key: &str) -> (r: Option<String>)
    ensures
        r is Some <==> release_value(os_release@, key@) is Some,
        r is Some ==> r->0@ == release_value(os_release@, key@)->0,
{
    let t = chars_of(os_release);
    let k = chars_of(key);
    let ghost p = k@.push('=');
    let n = t.len();
    if k.len() >= n {
        return None;
    }
    let last = n - k.len();
    let mut i: usize = 0;
    while i < last
        invariant
            n == t@.len(),
            last + k@.len() == n,
            i <= last,
            t@ == os_release@,
            k@ == key@,
            p == key@.push('='),
            first_match_from(t@, p, 0) == first_match_from(t@, p, i as int),
        decreases last - i,
    {
        if key_eq_at(&t, &k, i) {
            return value_at(os_release, &t, i + k.len() + 1);
        }
        i = i + 1;
    }
    None
}

/// Moves from `i` past whitespace, up to `e`.
fn skip_spaces(t: &Vec<char>, i: usize, e: usize) -> (r: usize)
    requires
        i <= e <= t@.len(),
    ensures
        r == skip_ws(t@, i as int, e as int),
        i <= r <= e,
{
    let mut j = i;
    while j < e && is_whitespace(t[j])
        invariant
            i <= j <= e <= t@.len(),
            skip_ws(t@, i as int, e as int) == skip_ws(t@, j as int, e as int),
        decreases e - j,
    {
        j = j + 1;
    }
    j
}

/// Moves from `i` past characters other than whitespace, up to `e`.
fn skip_token(t: &Vec<char>, i: usize, e: usize) -> (r: usize)
    requires
        i <= e <= t@.len(),
    ensures
        r == skip_word(t@, i as int, e as int),
        i <= r <= e,
{
    let mut j = i;
    while j < e && !is_whitespace(t[j])
        invariant
            i <= j <= e <= t@.len(),
            skip_word(t@, i as int, e as int) == skip_word(t@, j as int, e as int),
        decreases e - j,
    {
        j = j + 1;
    }
    j
}

/// Looks up `key` in tabular statistics (`Label: value unit` lines): the
/// second token of the first line that begins with `key`.
pub fn parse_minf_key(meminfo: &str, key: &str) -> (r: Option<String>)
    ensures
        r is Some <==> stat_value(meminfo@, key@) is Some,
        r is Some ==> r->0@ == stat_value(meminfo@, key@)->0,
{
    let t = chars_of(meminfo);
    let k = chars_of(key);
    let n = t.len();
    let kl = k.len();
    let mut i: usize = 0;
    loop
        invariant
            n == t@.len(),
            kl == k@.len(),
            t@ == meminfo@,
            k@ == key@,
            i <= n,
            line_with_prefix_from(t@, k@, 0) == line_with_prefix_from(t@, k@, i as int),
        decreases n - i,
    {
        if i >= n {
            return None;
        }
        let e = find_line_end(&t, i);
        proof {
            lemma_line_end_bounds(t@, i as int);
        }
        let mut prefixed = kl <= e - i;
        if prefixed {
            let mut j: usize = 0;
            while j < kl
                invariant
                    i + kl <= e <= n,
                    n == t@.len(),
                    kl == k@.len(),
                    j <= kl,
                    prefixed ==> forall|m: int| 0 <= m < j ==> t@[i + m] == k@[m],
                    !prefixed ==> t@.subrange(i as int, i + kl) != k@,
                decreases kl - j,
            {
                if t[i + j] != k[j] {
                    assert(t@.subrange(i as int, i + kl)[j as int] != k@[j as int]);
                    prefixed = false;
                }
                j = j + 1;
            }
            if prefixed {
                assert(t@.subrange(i as int, i + kl) =~= k@);
            }
        }
        if prefixed {
            let a = skip_spaces(&t, i, e);
            let b = skip_token(&t, a, e);
            let c = skip_spaces(&t, b, e);
            let d = skip_token(&t, c, e);
            if c < e {
                return Some(meminfo.substring_char(c, d).to_owned());
            } else {
                return None;
            }
        }
        if e >= n {
            return None;
        }
        i = e + 1;
    }
}

} // verus!
