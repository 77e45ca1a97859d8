//! Character-level string helpers: whitespace, trimming, conversion
//! between strings and character vectors.

use vstd::prelude::*;

verus! {

/// The characters of `s`, in order.
pub fn chars_of(s: &str) -> (v: Vec<char>)
    ensures
        v@ == s@,
{
    let mut v: Vec<char> = Vec::new();
    for c in it: s.chars()
        invariant
            v@ == it.seq().take(it.index() as int),
    {
        v.push(c);
    }
    v
}

/// `c` has the Unicode `White_Space` property (the characters that
/// `char::is_whitespace` and `str::trim` treat as whitespace).
pub open spec fn is_white_space(c: char) -> bool {
    let v = c as u32;
    ||| 0x9 <= v <= 0xD
    ||| v == 0x20
    ||| v == 0x85
    ||| v == 0xA0
    ||| v == 0x1680
    ||| 0x2000 <= v <= 0x200A
    ||| v == 0x2028
    ||| v == 0x2029
    ||| v == 0x202F
    ||| v == 0x205F
    ||| v == 0x3000
}

/// Whether `c` is Unicode whitespace.
pub fn white_space(c: char) -> (b: bool)
    ensures
        b == is_white_space(c),
        '!' <= c <= '~' ==> !b,
        c == ' ' || '\t' <= c <= '\r' ==> b,
{
    let v = c as u32;
    (0x9 <= v && v <= 0xD) || v == 0x20 || v == 0x85 || v == 0xA0 || v == 0x1680 || (0x2000 <= v
        && v <= 0x200A) || v == 0x2028 || v == 0x2029 || v == 0x202F || v == 0x205F || v == 0x3000
}

/// Among ASCII characters, exactly space, tab, line feed, vertical tab, form
/// feed and carriage return are whitespace; no visible ASCII character (such
/// as `=` or `:`) is.
pub proof fn lemma_ascii_white_space(c: char)
    ensures
        (c as u32) < 0x80 ==> (is_white_space(c) <==> (c == ' ' || '\t' <= c <= '\r')),
        '!' <= c <= '~' ==> !is_white_space(c),
{
}

/// `s` without its leading whitespace.
pub open spec fn trim_start(s: Seq<char>) -> Seq<char>
    decreases s.len(),
{
    if s.len() > 0 && is_white_space(s[0]) {
        trim_start(s.drop_first())
    } else {
        s
    }
}

/// `s` without its trailing whitespace.
pub open spec fn trim_end(s: Seq<char>) -> Seq<char>
    decreases s.len(),
{
    if s.len() > 0 && is_white_space(s.last()) {
        trim_end(s.drop_last())
    } else {
        s
    }
}

/// `s` without leading and trailing whitespace, as `str::trim` gives it.
pub open spec fn trim(s: Seq<char>) -> Seq<char> {
    trim_end(trim_start(s))
}

/// Trimming drops a whitespace-only prefix and a whitespace-only suffix and
/// keeps the rest unchanged: what remains is a contiguous part of `s` that
/// neither starts nor ends with whitespace.
pub proof fn lemma_trim_characterized(s: Seq<char>)
    ensures
        exists|a: int, b: int|
            {
                &&& 0 <= a <= b <= s.len()
                &&& trim(s) == s.subrange(a, b)
                &&& forall|i: int| 0 <= i < a ==> is_white_space(#[trigger] s[i])
                &&& forall|i: int| b <= i < s.len() ==> is_white_space(#[trigger] s[i])
                &&& a < b ==> !is_white_space(s[a]) && !is_white_space(s[b - 1])
            },
{
    let a = lemma_trim_start_skips(s);
    let t = s.skip(a);
    let b = lemma_trim_end_takes(t);
    assert(trim(s) == t.take(b));
    assert(t.take(b) =~= s.subrange(a, a + b));
    assert forall|i: int| a + b <= i < s.len() implies is_white_space(#[trigger] s[i]) by {
        assert(s[i] == t[i - a]);
    }
    if 0 < b {
        assert(s[a] == t[0]);
        assert(s[a + b - 1] == t[b - 1]);
    }
    assert({
        &&& 0 <= a <= a + b <= s.len()
        &&& trim(s) == s.subrange(a, a + b)
        &&& forall|i: int| 0 <= i < a ==> is_white_space(#[trigger] s[i])
        &&& forall|i: int| a + b <= i < s.len() ==> is_white_space(#[trigger] s[i])
        &&& a < a + b ==> !is_white_space(s[a]) && !is_white_space(s[a + b - 1])
    });
}

/// A text whose last character is not whitespace keeps that character, and
/// one whose first is not whitespace keeps that one, when trimmed.
pub proof fn lemma_trim_keeps_ends(s: Seq<char>)
    requires
        s.len() > 0,
    ensures
        !is_white_space(s.last()) ==> trim(s).len() > 0 && trim(s).last() == s.last(),
        !is_white_space(s[0]) ==> trim(s).len() > 0 && trim(s)[0] == s[0],
{
    lemma_trim_characterized(s);
    let (a, b) = choose|a: int, b: int|
        {
            &&& 0 <= a <= b <= s.len()
            &&& trim(s) == s.subrange(a, b)
            &&& forall|i: int| 0 <= i < a ==> is_white_space(#[trigger] s[i])
            &&& forall|i: int| b <= i < s.len() ==> is_white_space(#[trigger] s[i])
            &&& a < b ==> !is_white_space(s[a]) && !is_white_space(s[b - 1])
        };
    if !is_white_space(s.last()) {
        assert(!(b <= s.len() - 1));
        if a == b {
            assert(is_white_space(s[s.len() - 1]));
        }
    }
    if !is_white_space(s[0]) {
        assert(!(0 < a));
        if a == b {
            assert(is_white_space(s[0]));
        }
    }
}

/// `trim_start(s)` is `s` without a whitespace-only prefix of length `a`,
/// and what follows that prefix does not start with whitespace.
proof fn lemma_trim_start_skips(s: Seq<char>) -> (a: int)
    ensures
        0 <= a <= s.len(),
        trim_start(s) == s.skip(a),
        forall|i: int| 0 <= i < a ==> is_white_space(#[trigger] s[i]),
        a < s.len() ==> !is_white_space(s[a]),
    decreases s.len(),
{
    if s.len() > 0 && is_white_space(s[0]) {
        let r = lemma_trim_start_skips(s.drop_first());
        assert(s.drop_first().skip(r) =~= s.skip(r + 1));
        assert forall|i: int| 0 <= i < r + 1 implies is_white_space(#[trigger] s[i]) by {
            if i > 0 {
                assert(s[i] == s.drop_first()[i - 1]);
            }
        }
        if r + 1 < s.len() {
            assert(s[r + 1] == s.drop_first()[r]);
        }
        r + 1
    } else {
        assert(s.skip(0) =~= s);
        0
    }
}

/// `trim_end(t)` is the first `b` characters of `t`; everything after them
/// is whitespace and the last kept one is not.
proof fn lemma_trim_end_takes(t: Seq<char>) -> (b: int)
    ensures
        0 <= b <= t.len(),
        trim_end(t) == t.take(b),
        forall|i: int| b <= i < t.len() ==> is_white_space(#[trigger] t[i]),
        0 < b ==> !is_white_space(t[b - 1]),
    decreases t.len(),
{
    if t.len() > 0 && is_white_space(t.last()) {
        let r = lemma_trim_end_takes(t.drop_last());
        assert(t.drop_last().take(r) =~= t.take(r));
        assert forall|i: int| r <= i < t.len() implies is_white_space(#[trigger] t[i]) by {
            if i < t.len() - 1 {
                assert(t[i] == t.drop_last()[i]);
            }
        }
        if 0 < r {
            assert(t[r - 1] == t.drop_last()[r - 1]);
        }
        r
    } else {
        assert(t.take(t.len() as int) =~= t);
        t.len() as int
    }
}

/// The trimmed part of `v[lo..hi]`, as the bounds of a sub-range.
pub fn trim_bounds(v: &Vec<char>, lo: usize, hi: usize) -> (r: (usize, usize))
    requires
        lo <= hi <= v.len(),
    ensures
        lo <= r.0 <= r.1 <= hi,
        v@.subrange(r.0 as int, r.1 as int) == trim(v@.subrange(lo as int, hi as int)),
{
    let mut a = lo;
    while a < hi && white_space(v[a])
        invariant
            lo <= a <= hi <= v.len(),
            trim_start(v@.subrange(lo as int, hi as int)) == trim_start(
                v@.subrange(a as int, hi as int),
            ),
        decreases hi - a,
    {
        assert(v@.subrange(a as int, hi as int).drop_first() =~= v@.subrange(a + 1, hi as int));
        a = a + 1;
    }
    assert(trim_start(v@.subrange(a as int, hi as int)) == v@.subrange(a as int, hi as int));
    let mut b = hi;
    while b > a && white_space(v[b - 1])
        invariant
            lo <= a <= b <= hi <= v.len(),
            trim(v@.subrange(lo as int, hi as int)) == trim_end(v@.subrange(a as int, b as int)),
        decreases b - a,
    {
        assert(v@.subrange(a as int, b as int).drop_last() =~= v@.subrange(a as int, b - 1));
        b = b - 1;
    }
    (a, b)
}

/// The string made of the characters of `v`, in order, built by std's
/// `String::from_iter`; the contract claims the string holds exactly those
/// characters.
#[verifier::external_body]
fn string_from_chars(v: &[char]) -> (s: String)
    ensures
        s@ == v@,
{
    String::from_iter(v.iter())
}

/// `v[lo..hi]` with leading and trailing whitespace removed, as a string.
pub fn trimmed_string(v: &Vec<char>, lo: usize, hi: usize) -> (s: String)
    requires
        lo <= hi <= v.len(),
    ensures
        s@ == trim(v@.subrange(lo as int, hi as int)),
{
    let (a, b) = trim_bounds(v, lo, hi);
    let mut part: Vec<char> = Vec::new();
    let mut k = a;
    while k < b
        invariant
            a <= k <= b <= v.len(),
            part@ == v@.subrange(a as int, k as int),
        decreases b - k,
    {
        part.push(v[k]);
        assert(v@.subrange(a as int, k + 1) =~= v@.subrange(a as int, k as int).push(v@[k as int]));
        k = k + 1;
    }
    string_from_chars(part.as_slice())
}

} // verus!
