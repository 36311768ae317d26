//! Recognition of issue keys such as `PROJ-1234` in free text.

use vstd::prelude::*;
use crate::text::{CharClass, run_len, lemma_run_len_bound, scan_run, chars_of, in_class};

verus! {

/// Length of the issue key that starts at `i`, or 0 where none starts there.
///
/// A key is two to six capital letters, a hyphen and one or more decimal
/// digits: the capitals from `i` must run straight to the hyphen (a key may
/// start inside a longer run of capitals, as `CDEFGH-12` in `ABCDEFGH-12`),
/// and the digits are taken as far as they go.
pub open spec fn key_len_at(s: Seq<char>, i: int) -> nat {
    let u = run_len(s, i, CharClass::Upper);
    let d = run_len(s, i + u + 1, CharClass::Digit);
    if 2 <= u <= 6 && 0 <= i && i + u < s.len() && s[i + u] == '-' && d >= 1 {
        u + 1 + d
    } else {
        0
    }
}

/// The keys found by scanning `s` from `i`, leftmost first, without overlap.
pub open spec fn keys_from(s: Seq<char>, i: int) -> Seq<Seq<char>>
    decreases s.len() - i
    via keys_from_decreases
{
    if 0 <= i < s.len() {
        let l = key_len_at(s, i);
        if l > 0 {
            seq![s.subrange(i, i + l)] + keys_from(s, i + l)
        } else {
            keys_from(s, i + 1)
        }
    } else {
        Seq::empty()
    }
}

#[via_fn]
proof fn keys_from_decreases(s: Seq<char>, i: int) {
    if 0 <= i < s.len() {
        lemma_key_at_in_bounds(s, i);
    }
}

/// The issue keys of `s`, in the order in which they occur.
pub open spec fn issue_keys(s: Seq<char>) -> Seq<Seq<char>> {
    keys_from(s, 0)
}

/// `k` is an issue key as a whole: capitals, a hyphen, digits.
pub open spec fn is_issue_key(k: Seq<char>) -> bool {
    exists|u: int|
        2 <= u <= 6 && u + 1 < k.len() && k[u] == '-'
        && (forall|j: int| 0 <= j < u ==> in_class(#[trigger] k[j], CharClass::Upper))
        && (forall|j: int| u < j < k.len() ==> in_class(#[trigger] k[j], CharClass::Digit))
}

pub proof fn lemma_key_at_in_bounds(s: Seq<char>, i: int)
    requires
        0 <= i < s.len(),
    ensures
        i + key_len_at(s, i) <= s.len(),
        key_len_at(s, i) > 0 ==> is_issue_key(s.subrange(i, i + key_len_at(s, i))),
{
    lemma_run_len_bound(s, i, CharClass::Upper);
    let u = run_len(s, i, CharClass::Upper);
    if 2 <= u <= 6 && i + u < s.len() && s[i + u] == '-' {
        lemma_run_len_bound(s, i + u + 1, CharClass::Digit);
        if key_len_at(s, i) > 0 {
            let k = s.subrange(i, i + key_len_at(s, i));
            assert(forall|j: int| 0 <= j < u ==> k[j] == s[i + j]);
            assert(forall|j: int| u < j < k.len() ==> k[j] == s[i + j]);
            assert(k[u as int] == '-');
        }
    }
}

/// Every key that the scan returns is an issue key as a whole.
pub proof fn lemma_keys_are_issue_keys(s: Seq<char>)
    ensures
        forall|n: int| 0 <= n < issue_keys(s).len() ==> is_issue_key(#[trigger] issue_keys(s)[n]),
{
    lemma_keys_from_are_issue_keys(s, 0);
}

proof fn lemma_keys_from_are_issue_keys(s: Seq<char>, i: int)
    requires
        0 <= i,
    ensures
        forall|n: int| 0 <= n < keys_from(s, i).len() ==> is_issue_key(#[trigger] keys_from(s, i)[n]),
    decreases s.len() - i,
{
    if i < s.len() {
        lemma_key_at_in_bounds(s, i);
        let l = key_len_at(s, i);
        if l > 0 {
            lemma_keys_from_are_issue_keys(s, i + l);
            let rest = keys_from(s, i + l);
            assert forall|n: int| 0 <= n < keys_from(s, i).len() implies is_issue_key(
                #[trigger] keys_from(s, i)[n],
            ) by {
                assert(keys_from(s, i) == seq![s.subrange(i, i + l)] + rest);
                if n > 0 {
                    assert(keys_from(s, i)[n] == rest[n - 1]);
                }
            }
        } else {
            lemma_keys_from_are_issue_keys(s, i + 1);
            assert(keys_from(s, i) == keys_from(s, i + 1));
        }
    }
}

/// Length of the issue key that starts at `i` in `v`, or 0.
pub fn key_len_in(v: &Vec<char>, i: usize) -> (r: usize)
    requires
        i < v.len(),
    ensures
        r == key_len_at(v@, i as int),
        i + r <= v.len(),
{
    proof {
        lemma_key_at_in_bounds(v@, i as int);
    }
    let u = scan_run(v, i, CharClass::Upper);
    if 2 <= u && u <= 6 && i + u < v.len() && v[i + u] == '-' {
        let d = scan_run(v, i + u + 1, CharClass::Digit);
        if d >= 1 {
            return u + 1 + d;
        }
    }
    0
}

/// The issue keys of `text`, leftmost first and without overlap, each as
/// often as it occurs.
pub fn extract_issue_keys(text: &str) -> (r: Vec<String>)
    ensures
        r@.map_values(|k: String| k@) == issue_keys(text@),
{
    let v = chars_of(text);
    let mut r: Vec<String> = Vec::new();
    let mut i: usize = 0;
    while i < v.len()
        invariant
            v@ == text@,
            i <= v.len(),
            r@.map_values(|k: String| k@) + keys_from(v@, i as int) == issue_keys(v@),
        decreases v.len() - i,
    {
        let l = key_len_in(&v, i);
        if l > 0 {
            let key = text.substring_char(i, i + l).to_owned();
            let ghost before = r@.map_values(|k: String| k@);
            r.push(key);
            assert(r@.map_values(|k: String| k@) == before + seq![key@]);
            assert(before + keys_from(v@, i as int) == (before + seq![key@]) + keys_from(
                v@,
                (i + l) as int,
            ));
            i = i + l;
        } else {
            i = i + 1;
        }
    }
    r
}

} // verus!
