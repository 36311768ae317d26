//! Properties of the comments that a push produces.

use vstd::prelude::*;
use crate::text::occurs_at;
use crate::keys::issue_keys;
use crate::report::listed_hashes;
use crate::comment::{
    comment_body, commit_payloads, commits_payloads, push_payloads, short_hash,
};

verus! {

/// `t` stands somewhere in `s`.
pub open spec fn contains(s: Seq<char>, t: Seq<char>) -> bool {
    exists|i: int| occurs_at(s, t, i)
}

/// The comments for commits `a` then `b` are those for `a`, then those for `b`:
/// no comment of a later commit goes out before one of an earlier commit.
pub proof fn lemma_commit_order(
    a: Seq<(Seq<char>, Seq<char>)>,
    b: Seq<(Seq<char>, Seq<char>)>,
    root: Seq<char>,
)
    ensures
        commits_payloads(a + b, root) == commits_payloads(a, root) + commits_payloads(b, root),
    decreases b.len(),
{
    if b.len() == 0 {
        assert(a + b =~= a);
        assert(commits_payloads(a, root) + commits_payloads(b, root) =~= commits_payloads(a, root));
    } else {
        lemma_commit_order(a, b.drop_last(), root);
        assert((a + b).drop_last() =~= a + b.drop_last());
        assert((a + b).last() == b.last());
        assert(commits_payloads(a + b, root) =~= commits_payloads(a, root) + commits_payloads(
            b,
            root,
        ));
    }
}

/// A range of two commits, `first` introduced before `second`: every comment
/// for `first` goes out before any comment for `second`.
pub proof fn lemma_two_commits_in_order(
    first: (Seq<char>, Seq<char>),
    second: (Seq<char>, Seq<char>),
    root: Seq<char>,
)
    ensures
        push_payloads(seq![seq![first, second]], root) == commit_payloads(
            first.0,
            first.1,
            root,
        ) + commit_payloads(second.0, second.1, root),
{
    reveal_with_fuel(commits_payloads, 3);
    reveal_with_fuel(push_payloads, 2);
    let cs = seq![first, second];
    assert(cs.drop_last() =~= seq![first]);
    assert(seq![first].drop_last() =~= Seq::<(Seq<char>, Seq<char>)>::empty());
    let rs = seq![cs];
    assert(rs.drop_last() =~= Seq::<Seq<(Seq<char>, Seq<char>)>>::empty());
    assert(push_payloads(rs, root) =~= commit_payloads(first.0, first.1, root) + commit_payloads(
        second.0,
        second.1,
        root,
    ));
}

/// The comments for ranges `a` then `b` are those for `a`, then those for `b`.
pub proof fn lemma_range_order(
    a: Seq<Seq<(Seq<char>, Seq<char>)>>,
    b: Seq<Seq<(Seq<char>, Seq<char>)>>,
    root: Seq<char>,
)
    ensures
        push_payloads(a + b, root) == push_payloads(a, root) + push_payloads(b, root),
    decreases b.len(),
{
    if b.len() == 0 {
        assert(a + b =~= a);
        assert(push_payloads(a, root) + push_payloads(b, root) =~= push_payloads(a, root));
    } else {
        lemma_range_order(a, b.drop_last(), root);
        assert((a + b).drop_last() =~= a + b.drop_last());
        assert((a + b).last() == b.last());
        assert(push_payloads(a + b, root) =~= push_payloads(a, root) + push_payloads(b, root));
    }
}

/// An empty listing names no commit, and a range without commits adds no
/// comment to a push, wherever it stands among the others.
pub proof fn lemma_empty_range_adds_nothing(
    before: Seq<Seq<(Seq<char>, Seq<char>)>>,
    after: Seq<Seq<(Seq<char>, Seq<char>)>>,
    root: Seq<char>,
)
    ensures
        listed_hashes(Seq::empty()) == Seq::<Seq<char>>::empty(),
        push_payloads(before + seq![Seq::empty()] + after, root) == push_payloads(
            before + after,
            root,
        ),
{
    reveal_with_fuel(push_payloads, 2);
    let mid = seq![Seq::<(Seq<char>, Seq<char>)>::empty()];
    lemma_range_order(before, mid, root);
    lemma_range_order(before + mid, after, root);
    lemma_range_order(before, after, root);
    assert(mid.drop_last() =~= Seq::<Seq<(Seq<char>, Seq<char>)>>::empty());
    assert(push_payloads(mid, root) =~= Seq::<(Seq<char>, Seq<char>)>::empty());
    assert(push_payloads(before, root) + push_payloads(mid, root) =~= push_payloads(before, root));
}

proof fn lemma_body_shows_commit(
    hash: Seq<char>,
    link: Seq<char>,
    message: Seq<char>,
    key: Seq<char>,
)
    requires
        hash.len() >= 7,
    ensures
        contains(comment_body(hash, link, message, key), short_hash(hash)),
        contains(comment_body(hash, link, message, key), link),
{
    let b = comment_body(hash, link, message, key);
    assert(b.subrange(8, 15) =~= short_hash(hash));
    assert(occurs_at(b, short_hash(hash), 8));
    assert(b.subrange(16, 16 + link.len() as int) =~= link);
    assert(occurs_at(b, link, 16));
}

/// A push of two ranges, each bringing one commit whose message names one
/// issue key, the two keys distinct: exactly two comments go out, one to each
/// key, each showing its commit's short hash and permalink.
pub proof fn lemma_two_ranges_two_comments(
    c1: (Seq<char>, Seq<char>),
    c2: (Seq<char>, Seq<char>),
    root: Seq<char>,
)
    requires
        c1.0.len() >= 7,
        c2.0.len() >= 7,
        issue_keys(c1.1).len() == 1,
        issue_keys(c2.1).len() == 1,
        issue_keys(c1.1)[0] != issue_keys(c2.1)[0],
    ensures
        ({
            let p = push_payloads(seq![seq![c1], seq![c2]], root);
            &&& p.len() == 2
            &&& p[0].0 == issue_keys(c1.1)[0]
            &&& p[1].0 == issue_keys(c2.1)[0]
            &&& p[0].0 != p[1].0
            &&& contains(p[0].1, short_hash(c1.0))
            &&& contains(p[0].1, root + c1.0)
            &&& contains(p[1].1, short_hash(c2.0))
            &&& contains(p[1].1, root + c2.0)
        }),
{
    reveal_with_fuel(commits_payloads, 2);
    reveal_with_fuel(push_payloads, 3);
    let r1 = seq![c1];
    let r2 = seq![c2];
    assert(r1.drop_last() =~= Seq::<(Seq<char>, Seq<char>)>::empty());
    assert(r2.drop_last() =~= Seq::<(Seq<char>, Seq<char>)>::empty());
    let rs = seq![r1, r2];
    assert(rs.drop_last() =~= seq![r1]);
    assert(seq![r1].drop_last() =~= Seq::<Seq<(Seq<char>, Seq<char>)>>::empty());
    let k1 = issue_keys(c1.1)[0];
    let k2 = issue_keys(c2.1)[0];
    let p1 = commit_payloads(c1.0, c1.1, root);
    let p2 = commit_payloads(c2.0, c2.1, root);
    assert(commits_payloads(r1, root) =~= p1);
    assert(commits_payloads(r2, root) =~= p2);
    let p = push_payloads(rs, root);
    assert(p =~= p1 + p2);
    lemma_body_shows_commit(c1.0, root + c1.0, c1.1, k1);
    lemma_body_shows_commit(c2.0, root + c2.0, c2.1, k2);
    assert(p[0] == p1[0]);
    assert(p[1] == p2[0]);
}

} // verus!
