//! Character-level helpers shared by the scanners.

use vstd::prelude::*;

verus! {

/// The character classes that the scanners recognise.
#[derive(Clone, Copy, Debug, PartialEq, Eq, Structural)]
pub enum CharClass {
    /// `A` to `Z`.
    Upper,
    /// `0` to `9`.
    Digit,
    /// `0` to `9` and `a` to `f`.
    LowerHex,
}

pub open spec fn in_class(c: char, k: CharClass) -> bool {
    match k {
        CharClass::Upper => 'A' <= c <= 'Z',
        CharClass::Digit => '0' <= c <= '9',
        CharClass::LowerHex => ('0' <= c <= '9') || ('a' <= c <= 'f'),
    }
}

/// Length of the longest run of characters of class `k` that starts at `i`.
pub open spec fn run_len(s: Seq<char>, i: int, k: CharClass) -> nat
    decreases s.len() - i,
{
    if 0 <= i < s.len() && in_class(s[i], k) {
        1 + run_len(s, i + 1, k)
    } else {
        0
    }
}

pub proof fn lemma_run_len_bound(s: Seq<char>, i: int, k: CharClass)
    requires
        0 <= i <= s.len(),
    ensures
        i + run_len(s, i, k) <= s.len(),
        forall|j: int| i <= j < i + run_len(s, i, k) ==> in_class(#[trigger] s[j], k),
    decreases s.len() - i,
{
    if i < s.len() && in_class(s[i], k) {
        lemma_run_len_bound(s, i + 1, k);
    }
}

pub fn is_in_class(c: char, k: CharClass) -> (r: bool)
    ensures
        r == in_class(c, k),
{
    match k {
        CharClass::Upper => 'A' <= c && c <= 'Z',
        CharClass::Digit => '0' <= c && c <= '9',
        CharClass::LowerHex => ('0' <= c && c <= '9') || ('a' <= c && c <= 'f'),
    }
}

/// Length of the run of class `k` in `v` from `i`.
pub fn scan_run(v: &Vec<char>, i: usize, k: CharClass) -> (r: usize)
    requires
        i <= v.len(),
    ensures
        r == run_len(v@, i as int, k),
        i + r <= v.len(),
{
    let mut j: usize = i;
    while j < v.len() && is_in_class(v[j], k)
        invariant
            i <= j <= v.len(),
            run_len(v@, i as int, k) == (j - i) + run_len(v@, j as int, k),
        decreases v.len() - j,
    {
        j = j + 1;
    }
    j - i
}

/// The first `c` at or after `i`, or `s.len()` where there is none.
pub open spec fn next_of(s: Seq<char>, i: int, c: char) -> int
    decreases s.len() - i,
{
    if 0 <= i < s.len() {
        if s[i] == c {
            i
        } else {
            next_of(s, i + 1, c)
        }
    } else {
        s.len() as int
    }
}

pub proof fn lemma_next_of(s: Seq<char>, i: int, c: char)
    requires
        0 <= i <= s.len(),
    ensures
        i <= next_of(s, i, c) <= s.len(),
        next_of(s, i, c) < s.len() ==> s[next_of(s, i, c)] == c,
        forall|k: int| i <= k < next_of(s, i, c) ==> s[k] != c,
    decreases s.len() - i,
{
    if i < s.len() && s[i] != c {
        lemma_next_of(s, i + 1, c);
    }
}

/// Position of the first `c` in `v` at or after `i`, or `v.len()`.
pub fn find_char(v: &Vec<char>, i: usize, c: char) -> (r: usize)
    requires
        i <= v.len(),
    ensures
        r == next_of(v@, i as int, c),
{
    let mut j: usize = i;
    while j < v.len() && v[j] != c
        invariant
            i <= j <= v.len(),
            next_of(v@, i as int, c) == next_of(v@, j as int, c),
        decreases v.len() - j,
    {
        j = j + 1;
    }
    j
}

/// The characters of `s`, in order.
pub fn chars_of(s: &str) -> (r: Vec<char>)
    ensures
        r@ == s@,
{
    let mut r: Vec<char> = Vec::new();
    for c in it: s.chars()
        invariant
            it.seq() == s@,
            r@ == it.seq().take(it.index() as int),
    {
        r.push(c);
    }
    r
}


/// `pat` stands in `s` at `i`.
pub open spec fn occurs_at(s: Seq<char>, pat: Seq<char>, i: int) -> bool {
    0 <= i && i + pat.len() <= s.len() && s.subrange(i, i + pat.len()) == pat
}

/// `s` from `i` on, with each occurrence of `pat`, taken left to right
/// without overlap, replaced by `rep`. An empty `pat` replaces nothing.
pub open spec fn replaced_from(s: Seq<char>, pat: Seq<char>, rep: Seq<char>, i: int) -> Seq<char>
    decreases s.len() - i,
{
    if 0 <= i < s.len() {
        if pat.len() > 0 && occurs_at(s, pat, i) {
            rep + replaced_from(s, pat, rep, i + pat.len())
        } else {
            seq![s[i]] + replaced_from(s, pat, rep, i + 1)
        }
    } else {
        Seq::empty()
    }
}

/// `s` with every occurrence of `pat` replaced by `rep`; `s` itself where
/// `pat` is empty (unlike `str::replace`, which then puts `rep` between
/// every two characters).
pub open spec fn replaced(s: Seq<char>, pat: Seq<char>, rep: Seq<char>) -> Seq<char> {
    replaced_from(s, pat, rep, 0)
}

fn occurs_in(v: &Vec<char>, p: &Vec<char>, i: usize) -> (r: bool)
    requires
        i <= v.len(),
    ensures
        r == occurs_at(v@, p@, i as int),
{
    if p.len() > v.len() - i {
        return false;
    }
    let mut k: usize = 0;
    while k < p.len()
        invariant
            i + p.len() <= v.len(),
            k <= p.len(),
            forall|m: int| 0 <= m < k ==> v@[i + m] == p@[m],
        decreases p.len() - k,
    {
        if v[i + k] != p[k] {
            assert(v@.subrange(i as int, i + p.len())[k as int] != p@[k as int]);
            return false;
        }
        k = k + 1;
    }
    assert(v@.subrange(i as int, i + p.len()) =~= p@);
    true
}

/// `s` with every occurrence of `pat`, left to right and without overlap,
/// replaced by `rep`. An empty `pat` leaves `s` as it is.
pub fn replace_all(s: &str, pat: &str, rep: &str) -> (r: String)
    ensures
        r@ == replaced(s@, pat@, rep@),
{
    let v = chars_of(s);
    let p = chars_of(pat);
    let mut r = String::new();
    let mut i: usize = 0;
    while i < v.len()
        invariant
            v@ == s@,
            p@ == pat@,
            i <= v.len(),
            r@ + replaced_from(v@, p@, rep@, i as int) == replaced(v@, p@, rep@),
        decreases v.len() - i,
    {
        if p.len() > 0 && occurs_in(&v, &p, i) {
            let ghost before = r@;
            r.append(rep);
            assert(before + replaced_from(v@, p@, rep@, i as int) == r@ + replaced_from(
                v@,
                p@,
                rep@,
                i + p@.len(),
            ));
            i = i + p.len();
        } else {
            let ghost before = r@;
            r.append(s.substring_char(i, i + 1));
            assert(s@.subrange(i as int, i + 1) =~= seq![v@[i as int]]);
            assert(before + replaced_from(v@, p@, rep@, i as int) == r@ + replaced_from(
                v@,
                p@,
                rep@,
                i + 1,
            ));
            i = i + 1;
        }
    }
    r
}

/// The characters that Unicode gives the `White_Space` property.
pub open spec fn is_white(c: char) -> bool {
    ||| '\t' <= c <= '\r'
    ||| c == ' '
    ||| c == '\u{85}'
    ||| c == '\u{A0}'
    ||| c == '\u{1680}'
    ||| '\u{2000}' <= c <= '\u{200A}'
    ||| c == '\u{2028}'
    ||| c == '\u{2029}'
    ||| c == '\u{202F}'
    ||| c == '\u{205F}'
    ||| c == '\u{3000}'
}

pub fn is_white_char(c: char) -> (r: bool)
    ensures
        r == is_white(c),
{
    ('\t' <= c && c <= '\r') || c == ' ' || c == '\u{85}' || c == '\u{A0}' || c == '\u{1680}'
        || ('\u{2000}' <= c && c <= '\u{200A}') || c == '\u{2028}' || c == '\u{2029}' || c
        == '\u{202F}' || c == '\u{205F}' || c == '\u{3000}'
}

/// What `strip` marks to be removed at either end of a string.
#[derive(Clone, Copy, Debug, PartialEq, Eq, Structural)]
pub enum Strip {
    /// Unicode white space.
    White,
    /// The double quote.
    Quote,
}

pub open spec fn stripped_char(c: char, k: Strip) -> bool {
    match k {
        Strip::White => is_white(c),
        Strip::Quote => c == '"',
    }
}

/// `s` without the leading characters that `k` marks.
pub open spec fn strip_front(s: Seq<char>, k: Strip) -> Seq<char>
    decreases s.len(),
{
    if s.len() > 0 && stripped_char(s[0], k) {
        strip_front(s.drop_first(), k)
    } else {
        s
    }
}

/// `s` without the trailing characters that `k` marks.
pub open spec fn strip_back(s: Seq<char>, k: Strip) -> Seq<char>
    decreases s.len(),
{
    if s.len() > 0 && stripped_char(s.last(), k) {
        strip_back(s.drop_last(), k)
    } else {
        s
    }
}

/// `s` without the characters that `k` marks at either end.
pub open spec fn stripped(s: Seq<char>, k: Strip) -> Seq<char> {
    strip_back(strip_front(s, k), k)
}

fn is_stripped(c: char, k: Strip) -> (r: bool)
    ensures
        r == stripped_char(c, k),
{
    match k {
        Strip::White => is_white_char(c),
        Strip::Quote => c == '"',
    }
}

/// `s` without the characters that `k` marks at either end.
pub fn strip(s: &str, k: Strip) -> (r: String)
    ensures
        r@ == stripped(s@, k),
{
    let v = chars_of(s);
    let mut a: usize = 0;
    assert(v@.skip(0) =~= v@);
    while a < v.len() && is_stripped(v[a], k)
        invariant
            v@ == s@,
            a <= v.len(),
            strip_front(v@, k) == strip_front(v@.skip(a as int), k),
        decreases v.len() - a,
    {
        assert(v@.skip(a as int).drop_first() =~= v@.skip(a + 1));
        a = a + 1;
    }
    assert(v@.skip(a as int) =~= v@.subrange(a as int, v@.len() as int));
    let mut b: usize = v.len();
    while b > a && is_stripped(v[b - 1], k)
        invariant
            v@ == s@,
            a <= b <= v.len(),
            strip_front(v@, k) == v@.subrange(a as int, v@.len() as int),
            stripped(v@, k) == strip_back(v@.subrange(a as int, b as int), k),
        decreases b,
    {
        assert(v@.subrange(a as int, b as int).drop_last() =~= v@.subrange(a as int, b - 1));
        b = b - 1;
    }
    s.substring_char(a, b).to_owned()
}

} // verus!
