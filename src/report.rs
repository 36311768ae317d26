//! Parsing of the text that the version-control tool prints for a push and
//! for a listing of commit hashes.

use vstd::prelude::*;
use crate::text::{
    CharClass, Strip, run_len, lemma_run_len_bound, scan_run, chars_of, next_of, lemma_next_of,
    find_char, stripped, strip,
};

verus! {

/// Where the record opened by the tab at `i` ends: the next tab.
pub open spec fn field_end(s: Seq<char>, i: int) -> int {
    next_of(s, i + 1, '\t')
}

/// Where the old hash of a record opened at `i` ends.
pub open spec fn from_end(s: Seq<char>, i: int) -> int {
    field_end(s, i) + 1 + run_len(s, field_end(s, i) + 1, CharClass::LowerHex)
}

/// Length of the new hash of a record opened at `i`: at most twenty digits.
pub open spec fn to_len(s: Seq<char>, i: int) -> int {
    let b = run_len(s, from_end(s, i) + 2, CharClass::LowerHex);
    if b > 20 {
        20
    } else {
        b as int
    }
}

/// A tab at `i` opens an updated-ref record: a tab, a non-empty field, a tab,
/// then `from..to` with two runs of six to twenty lower-case hex digits.
pub open spec fn range_at(s: Seq<char>, i: int) -> bool {
    let j = field_end(s, i);
    let a = run_len(s, j + 1, CharClass::LowerHex);
    let p = from_end(s, i);
    &&& 0 <= i < s.len()
    &&& s[i] == '\t'
    &&& i + 1 < j < s.len()
    &&& 6 <= a <= 20
    &&& p + 1 < s.len()
    &&& s[p] == '.'
    &&& s[p + 1] == '.'
    &&& to_len(s, i) >= 6
}

/// The (old hash, new hash) pair of the record opened at `i`.
pub open spec fn range_pair(s: Seq<char>, i: int) -> (Seq<char>, Seq<char>) {
    let p = from_end(s, i);
    (s.subrange(field_end(s, i) + 1, p), s.subrange(p + 2, p + 2 + to_len(s, i)))
}

/// Where the record opened at `i` ends: after its new hash.
pub open spec fn range_end(s: Seq<char>, i: int) -> int {
    from_end(s, i) + 2 + to_len(s, i)
}

pub proof fn lemma_range_bounds(s: Seq<char>, i: int)
    requires
        range_at(s, i),
    ensures
        i < field_end(s, i) < from_end(s, i) < range_end(s, i) <= s.len(),
{
    lemma_next_of(s, i + 1, '\t');
    let j = field_end(s, i);
    lemma_run_len_bound(s, j + 1, CharClass::LowerHex);
    lemma_run_len_bound(s, from_end(s, i) + 2, CharClass::LowerHex);
}

/// The ranges found by scanning `s` from `i`, leftmost first.
pub open spec fn ranges_from(s: Seq<char>, i: int) -> Seq<(Seq<char>, Seq<char>)>
    decreases s.len() - i
    via ranges_from_decreases
{
    if 0 <= i < s.len() {
        if range_at(s, i) {
            seq![range_pair(s, i)] + ranges_from(s, range_end(s, i))
        } else {
            ranges_from(s, i + 1)
        }
    } else {
        Seq::empty()
    }
}

#[via_fn]
proof fn ranges_from_decreases(s: Seq<char>, i: int) {
    if 0 <= i < s.len() && range_at(s, i) {
        lemma_range_bounds(s, i);
    }
}

/// The (old hash, new hash) pairs of a push report, in report order.
pub open spec fn push_ranges(s: Seq<char>) -> Seq<(Seq<char>, Seq<char>)> {
    ranges_from(s, 0)
}

/// Where the record opened at `i` ends, or 0 where no record opens there.
fn range_end_in(v: &Vec<char>, i: usize) -> (r: usize)
    requires
        i < v.len(),
    ensures
        r > 0 <==> range_at(v@, i as int),
        r > 0 ==> r == range_end(v@, i as int),
{
    proof {
        lemma_next_of(v@, i + 1, '\t');
    }
    if v[i] != '\t' {
        return 0;
    }
    let j = find_char(v, i + 1, '\t');
    if !(i + 1 < j && j < v.len()) {
        return 0;
    }
    let a = scan_run(v, j + 1, CharClass::LowerHex);
    let p = j + 1 + a;
    if !(6 <= a && a <= 20 && p < v.len() - 1 && v[p] == '.' && v[p + 1] == '.') {
        return 0;
    }
    let b = scan_run(v, p + 2, CharClass::LowerHex);
    let t = if b > 20 {
        20
    } else {
        b
    };
    if t < 6 {
        return 0;
    }
    p + 2 + t
}

/// The (old hash, new hash) pairs of every updated ref that `report` shows,
/// in the order in which they stand; other lines give nothing.
pub fn parse_push_report(report: &str) -> (r: Vec<(String, String)>)
    ensures
        r@.map_values(|p: (String, String)| (p.0@, p.1@)) == push_ranges(report@),
{
    let v = chars_of(report);
    let mut r: Vec<(String, String)> = Vec::new();
    let mut i: usize = 0;
    while i < v.len()
        invariant
            v@ == report@,
            i <= v.len(),
            r@.map_values(|p: (String, String)| (p.0@, p.1@)) + ranges_from(v@, i as int)
                == push_ranges(v@),
        decreases v.len() - i,
    {
        let e = range_end_in(&v, i);
        if e > 0 {
            proof {
                lemma_range_bounds(v@, i as int);
            }
            let j = find_char(&v, i + 1, '\t');
            let a = scan_run(&v, j + 1, CharClass::LowerHex);
            let p = j + 1 + a;
            let from = report.substring_char(j + 1, p).to_owned();
            let to = report.substring_char(p + 2, e).to_owned();
            let ghost before = r@.map_values(|p: (String, String)| (p.0@, p.1@));
            r.push((from, to));
            assert(r@.map_values(|p: (String, String)| (p.0@, p.1@)) == before + seq![
                range_pair(v@, i as int),
            ]);
            assert(before + ranges_from(v@, i as int) == (before + seq![range_pair(v@, i as int)])
                + ranges_from(v@, e as int));
            i = e;
        } else {
            i = i + 1;
        }
    }
    r
}

/// The line that starts at `i`: up to the next line feed, without the
/// carriage return that stands before that line feed.
pub open spec fn line_at(s: Seq<char>, i: int) -> Seq<char> {
    let e = next_of(s, i, '\n');
    if e < s.len() && e > i && s[e - 1] == '\r' {
        s.subrange(i, e - 1)
    } else {
        s.subrange(i, e)
    }
}

/// The hashes listed in `s` from `i` on: one per line, without the double
/// quotes that wrap it.
pub open spec fn hashes_from(s: Seq<char>, i: int) -> Seq<Seq<char>>
    decreases s.len() + 1 - i
    via hashes_from_decreases
{
    if 0 <= i < s.len() {
        seq![stripped(line_at(s, i), Strip::Quote)] + hashes_from(s, next_of(s, i, '\n') + 1)
    } else {
        Seq::empty()
    }
}

#[via_fn]
proof fn hashes_from_decreases(s: Seq<char>, i: int) {
    if 0 <= i < s.len() {
        lemma_next_of(s, i, '\n');
    }
}

/// The hashes of a commit listing, one per line, in listing order.
pub open spec fn listed_hashes(s: Seq<char>) -> Seq<Seq<char>> {
    hashes_from(s, 0)
}

/// The hashes that `listing` gives one per line, each without the double
/// quotes around it, in the order in which they stand.
pub fn parse_hash_list(listing: &str) -> (r: Vec<String>)
    ensures
        r@.map_values(|h: String| h@) == listed_hashes(listing@),
{
    let v = chars_of(listing);
    let mut r: Vec<String> = Vec::new();
    let mut i: usize = 0;
    while i < v.len()
        invariant
            v@ == listing@,
            i <= v.len(),
            r@.map_values(|h: String| h@) + hashes_from(v@, i as int) == listed_hashes(v@),
        decreases v.len() - i,
    {
        proof {
            lemma_next_of(v@, i as int, '\n');
        }
        let e = find_char(&v, i, '\n');
        let end = if e < v.len() && e > i && v[e - 1] == '\r' {
            e - 1
        } else {
            e
        };
        let h = strip(listing.substring_char(i, end), Strip::Quote);
        let ghost before = r@.map_values(|h: String| h@);
        r.push(h);
        assert(r@.map_values(|h: String| h@) == before + seq![h@]);
        assert(before + hashes_from(v@, i as int) == (before + seq![h@]) + hashes_from(
            v@,
            e + 1,
        ));
        i = if e < v.len() {
            e + 1
        } else {
            e
        };
    }
    r
}

} // verus!
