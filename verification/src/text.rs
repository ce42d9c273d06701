//! Verified text utilities shared by the parsers: character vectors,
//! prefix and equality tests, substring search, whitespace trimming,
//! line splitting and decimal rendering.

use vstd::prelude::*;
use vstd::string::StrSliceExecFns;

verus! {

/// Relies on `String::push`: appends the given character to the end of
/// the string.
#[verifier::external_body]
pub(crate) fn push_char(s: &mut String, c: char)
    ensures
        final(s)@ == old(s)@.push(c),
{
    s.push(c);
}

/// The characters of a string, as a vector for O(1) indexing.
pub fn to_char_vec(s: &str) -> (r: Vec<char>)
    ensures
        r@ == s@,
{
    let n: usize = s.unicode_len();
    let mut v: Vec<char> = Vec::new();
    let mut i: usize = 0;
    while i < n
        invariant
            i <= n,
            n == s@.len(),
            v@ == s@.take(i as int),
        decreases n - i,
    {
        v.push(s.get_char(i));
        proof {
            assert(s@.take(i + 1) =~= s@.take(i as int).push(s@[i as int]));
        }
        i = i + 1;
    }
    proof {
        assert(s@.take(n as int) =~= s@);
    }
    v
}

/// A contiguous range of a character vector, as a `String`.
pub fn chars_range_to_string(v: &Vec<char>, from: usize, to: usize) -> (r: String)
    requires
        from <= to <= v@.len(),
    ensures
        r@ == v@.subrange(from as int, to as int),
{
    let mut s = String::new();
    let mut i: usize = from;
    while i < to
        invariant
            from <= i <= to <= v@.len(),
            s@ == v@.subrange(from as int, i as int),
        decreases to - i,
    {
        push_char(&mut s, v[i]);
        proof {
            assert(v@.subrange(from as int, i + 1) =~= v@.subrange(from as int, i as int).push(
                v@[i as int],
            ));
        }
        i = i + 1;
    }
    s
}

/// Character-for-character equality of two string slices.
pub fn str_eq(a: &str, b: &str) -> (r: bool)
    ensures
        r == (a@ == b@),
{
    let n: usize = a.unicode_len();
    let m: usize = b.unicode_len();
    if n != m {
        return false;
    }
    let mut i: usize = 0;
    while i < n
        invariant
            i <= n,
            n == a@.len() == b@.len(),
            forall|k: int| 0 <= k < i ==> a@[k] == b@[k],
        decreases n - i,
    {
        if a.get_char(i) != b.get_char(i) {
            return false;
        }
        i = i + 1;
    }
    proof {
        assert(a@ =~= b@);
    }
    true
}

/// Whether the characters starting at `from` begin with the literal `lit`.
pub fn chars_starts_with(v: &Vec<char>, lit: &str) -> (r: bool)
    ensures
        r == (v@.len() >= lit@.len() && v@.subrange(0, lit@.len() as int) == lit@),
{
    let m: usize = lit.unicode_len();
    if v.len() < m {
        return false;
    }
    let mut i: usize = 0;
    while i < m
        invariant
            i <= m,
            m == lit@.len() <= v@.len(),
            forall|k: int| 0 <= k < i ==> v@[k] == lit@[k],
        decreases m - i,
    {
        if v[i] != lit.get_char(i) {
            proof {
                assert(v@.subrange(0, m as int)[i as int] != lit@[i as int]);
            }
            return false;
        }
        i = i + 1;
    }
    proof {
        assert(v@.subrange(0, m as int) =~= lit@);
    }
    true
}

/// `pat` occurs in `s` starting at position `i`.
pub open spec fn spec_match_at(s: Seq<char>, pat: Seq<char>, i: int) -> bool {
    0 <= i && i + pat.len() <= s.len() && s.subrange(i, i + pat.len() as int) == pat
}

/// `pat` occurs somewhere in `s`.
pub open spec fn spec_contains(s: Seq<char>, pat: Seq<char>) -> bool {
    exists|i: int| spec_match_at(s, pat, i)
}

fn chars_match_at(v: &Vec<char>, lit: &str, at: usize) -> (r: bool)
    requires
        at + lit@.len() <= v@.len(),
    ensures
        r == spec_match_at(v@, lit@, at as int),
{
    let m: usize = lit.unicode_len();
    let n: usize = v.len();
    let mut i: usize = 0;
    while i < m
        invariant
            i <= m,
            m == lit@.len(),
            n == v@.len(),
            at + m <= n,
            forall|k: int| 0 <= k < i ==> v@[at + k] == lit@[k],
        decreases m - i,
    {
        if v[at + i] != lit.get_char(i) {
            proof {
                assert(v@.subrange(at as int, at + m)[i as int] != lit@[i as int]);
            }
            return false;
        }
        i = i + 1;
    }
    proof {
        assert(v@.subrange(at as int, at + m) =~= lit@);
    }
    true
}

/// Whether the literal `lit` occurs anywhere in the characters of `v`.
pub fn chars_contains(v: &Vec<char>, lit: &str) -> (r: bool)
    ensures
        r == spec_contains(v@, lit@),
{
    let m: usize = lit.unicode_len();
    let n: usize = v.len();
    if m > n {
        proof {
            assert(forall|t: int| !spec_match_at(v@, lit@, t));
        }
        return false;
    }
    if m == 0 {
        proof {
            assert(v@.subrange(0, 0) =~= lit@);
            assert(spec_match_at(v@, lit@, 0));
        }
        return true;
    }
    let mut i: usize = 0;
    while i <= n - m
        invariant
            i <= n - m + 1,
            1 <= m <= n,
            m == lit@.len(),
            n == v@.len(),
            forall|t: int| 0 <= t < i ==> !spec_match_at(v@, lit@, t),
        decreases n - i,
    {
        if chars_match_at(v, lit, i) {
            return true;
        }
        i = i + 1;
    }
    proof {
        assert(forall|t: int| i <= t ==> !spec_match_at(v@, lit@, t));
    }
    false
}

/// The whitespace that trimming removes at either end of a settings value.
pub open spec fn is_space(c: char) -> bool {
    c == ' ' || c == '\t' || c == '\r'
}

pub open spec fn spec_trim_start(s: Seq<char>) -> Seq<char>
    decreases s.len(),
{
    if s.len() > 0 && is_space(s[0]) {
        spec_trim_start(s.skip(1))
    } else {
        s
    }
}

pub open spec fn spec_trim_end(s: Seq<char>) -> Seq<char>
    decreases s.len(),
{
    if s.len() > 0 && is_space(s[s.len() - 1]) {
        spec_trim_end(s.take(s.len() - 1))
    } else {
        s
    }
}

/// `s` with leading and trailing whitespace removed.
pub open spec fn spec_trim(s: Seq<char>) -> Seq<char> {
    spec_trim_end(spec_trim_start(s))
}

proof fn lemma_trim_start_at(s: Seq<char>, k: int)
    requires
        0 <= k <= s.len(),
        forall|j: int| 0 <= j < k ==> is_space(s[j]),
        k == s.len() || !is_space(s[k]),
    ensures
        spec_trim_start(s) == s.skip(k),
    decreases k,
{
    if k == 0 {
        assert(s.skip(0) =~= s);
    } else {
        lemma_trim_start_at(s.skip(1), k - 1);
        assert(s.skip(1).skip(k - 1) =~= s.skip(k));
    }
}

proof fn lemma_trim_end_at(s: Seq<char>, k: int)
    requires
        0 <= k <= s.len(),
        forall|j: int| k <= j < s.len() ==> is_space(s[j]),
        k == 0 || !is_space(s[k - 1]),
    ensures
        spec_trim_end(s) == s.take(k),
    decreases s.len() - k,
{
    if k == s.len() {
        assert(s.take(k) =~= s);
    } else {
        lemma_trim_end_at(s.take(s.len() - 1), k);
        assert(s.take(s.len() - 1).take(k) =~= s.take(k));
    }
}

/// The characters of `v` from `from` onwards, trimmed of surrounding
/// whitespace, as a `String`.
pub fn trim_from(v: &Vec<char>, from: usize) -> (r: String)
    requires
        from <= v@.len(),
    ensures
        r@ == spec_trim(v@.skip(from as int)),
{
    let n: usize = v.len();
    let mut a: usize = from;
    while a < n && is_space_char(v[a])
        invariant
            from <= a <= n,
            n == v@.len(),
            forall|j: int| from <= j < a ==> is_space(v@[j]),
        decreases n - a,
    {
        a = a + 1;
    }
    let mut b: usize = n;
    while b > a && is_space_char(v[b - 1])
        invariant
            a <= b <= n,
            n == v@.len(),
            forall|j: int| b <= j < n ==> is_space(v@[j]),
        decreases b,
    {
        b = b - 1;
    }
    proof {
        let s = v@.skip(from as int);
        lemma_trim_start_at(s, a - from);
        assert(s.skip(a - from) =~= v@.skip(a as int));
        let t = v@.skip(a as int);
        lemma_trim_end_at(t, b - a);
        assert(t.take(b - a) =~= v@.subrange(a as int, b as int));
    }
    chars_range_to_string(v, a, b)
}

fn is_space_char(c: char) -> (r: bool)
    ensures
        r == is_space(c),
{
    c == ' ' || c == '\t' || c == '\r'
}

/// The lines of `s` when every newline character ends a line, the
/// fragment after the last newline included: `cur` is the part of the
/// current line already read.
pub open spec fn spec_lines_from(s: Seq<char>, cur: Seq<char>) -> Seq<Seq<char>>
    decreases s.len(),
{
    if s.len() == 0 {
        seq![cur]
    } else if s[0] == '\n' {
        seq![cur] + spec_lines_from(s.skip(1), Seq::empty())
    } else {
        spec_lines_from(s.skip(1), cur.push(s[0]))
    }
}

/// The lines of `s`, split at newline characters.
pub open spec fn spec_lines(s: Seq<char>) -> Seq<Seq<char>> {
    spec_lines_from(s, Seq::empty())
}

/// Splits the characters of `v` into lines at newline characters.
pub fn split_lines(v: &Vec<char>) -> (r: Vec<Vec<char>>)
    ensures
        r@.map_values(|l: Vec<char>| l@) == spec_lines(v@),
{
    let mut out: Vec<Vec<char>> = Vec::new();
    let mut cur: Vec<char> = Vec::new();
    let mut i: usize = 0;
    proof {
        assert(v@.skip(0) =~= v@);
        assert(out@.map_values(|l: Vec<char>| l@) + spec_lines_from(v@, Seq::<char>::empty())
            =~= spec_lines_from(v@, Seq::<char>::empty()));
    }
    while i < v.len()
        invariant
            i <= v@.len(),
            spec_lines(v@) == out@.map_values(|l: Vec<char>| l@) + spec_lines_from(
                v@.skip(i as int),
                cur@,
            ),
        decreases v@.len() - i,
    {
        let ghost prev_out = out@;
        let ghost prev_cur = cur@;
        let c = v[i];
        proof {
            assert(v@.skip(i as int)[0] == v@[i as int]);
            assert(v@.skip(i as int).skip(1) =~= v@.skip(i + 1));
        }
        if c == '\n' {
            out.push(cur);
            cur = Vec::new();
            proof {
                assert(spec_lines_from(v@.skip(i as int), prev_cur) == seq![prev_cur]
                    + spec_lines_from(v@.skip(i + 1), Seq::<char>::empty()));
                assert(prev_out.map_values(|l: Vec<char>| l@) + (seq![prev_cur]
                    + spec_lines_from(v@.skip(i + 1), Seq::<char>::empty())) =~= out@.map_values(
                    |l: Vec<char>| l@,
                ) + spec_lines_from(v@.skip(i + 1), Seq::<char>::empty()));
            }
        } else {
            cur.push(c);
            proof {
                assert(spec_lines_from(v@.skip(i as int), prev_cur) == spec_lines_from(
                    v@.skip(i + 1),
                    prev_cur.push(v@[i as int]),
                ));
            }
        }
        i = i + 1;
    }
    proof {
        assert(v@.skip(v@.len() as int) =~= Seq::<char>::empty());
        assert(spec_lines_from(Seq::<char>::empty(), cur@) == seq![cur@]);
    }
    let ghost prev_out = out@;
    let ghost last = cur@;
    out.push(cur);
    proof {
        assert(prev_out.map_values(|l: Vec<char>| l@) + seq![last] =~= out@.map_values(
            |l: Vec<char>| l@,
        ));
    }
    out
}

/// The decimal digits of `n`, most significant first.
pub open spec fn spec_decimal(n: nat) -> Seq<char>
    decreases n,
{
    if n < 10 {
        seq![spec_digit_char(n)]
    } else {
        spec_decimal(n / 10).push(spec_digit_char(n % 10))
    }
}

/// The character for one decimal digit.
pub open spec fn spec_digit_char(d: nat) -> char {
    ((d + 48) as u8) as char
}

/// Renders `n` in decimal.
pub fn u64_to_string(n: u64) -> (r: String)
    ensures
        r@ == spec_decimal(n as nat),
    decreases n,
{
    if n < 10 {
        let mut s = String::new();
        push_char(&mut s, digit_char(n));
        proof {
            assert(s@ =~= spec_decimal(n as nat));
        }
        s
    } else {
        let mut s = u64_to_string(n / 10);
        push_char(&mut s, digit_char(n % 10));
        s
    }
}

pub(crate) fn digit_char(d: u64) -> (c: char)
    requires
        d < 10,
    ensures
        c == spec_digit_char(d as nat),
{
    ((d as u8) + 48) as char
}

} // verus!
