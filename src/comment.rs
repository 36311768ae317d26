//! The comments posted for pushed commits, and the order in which they go out.

use vstd::prelude::*;
use crate::text::{replaced, replace_all};
use crate::keys::{issue_keys, extract_issue_keys};
use crate::commit::permalink;

verus! {

/// A pushed commit: its full hash and its message.
pub struct CommitRecord {
    pub hash: String,
    pub message: String,
}

impl View for CommitRecord {
    type V = (Seq<char>, Seq<char>);

    open spec fn view(&self) -> (Seq<char>, Seq<char>) {
        (self.hash@, self.message@)
    }
}

/// A comment to post: the issue it goes to and its text.
pub struct CommentPayload {
    pub issue: String,
    pub body: String,
}

impl View for CommentPayload {
    type V = (Seq<char>, Seq<char>);

    open spec fn view(&self) -> (Seq<char>, Seq<char>) {
        (self.issue@, self.body@)
    }
}

pub open spec fn records_view(cs: Seq<CommitRecord>) -> Seq<(Seq<char>, Seq<char>)> {
    cs.map_values(|c: CommitRecord| c@)
}

pub open spec fn ranges_view(rs: Seq<Vec<CommitRecord>>) -> Seq<Seq<(Seq<char>, Seq<char>)>> {
    rs.map_values(|cs: Vec<CommitRecord>| records_view(cs@))
}

pub open spec fn payloads_view(ps: Seq<CommentPayload>) -> Seq<(Seq<char>, Seq<char>)> {
    ps.map_values(|p: CommentPayload| p@)
}

/// The first seven characters of a commit hash.
pub open spec fn short_hash(hash: Seq<char>) -> Seq<char> {
    hash.take(7)
}

/// `[Commit <short hash>|<link>]: <message>`, where every occurrence of the
/// issue key `key` is taken out of the message.
pub open spec fn comment_body(
    hash: Seq<char>,
    link: Seq<char>,
    message: Seq<char>,
    key: Seq<char>,
) -> Seq<char> {
    seq!['[', 'C', 'o', 'm', 'm', 'i', 't', ' '] + short_hash(hash) + seq!['|'] + link + seq![
        ']',
        ':',
        ' ',
    ] + replaced(message, key, Seq::empty())
}

/// One (issue, body) pair for each issue key of the message, in the order
/// in which the keys occur.
pub open spec fn commit_payloads(hash: Seq<char>, message: Seq<char>, root: Seq<char>) -> Seq<
    (Seq<char>, Seq<char>),
> {
    issue_keys(message).map_values(
        |k: Seq<char>| (k, comment_body(hash, root + hash, message, k)),
    )
}

/// The comments for a list of (hash, message) commits, commit after commit.
pub open spec fn commits_payloads(cs: Seq<(Seq<char>, Seq<char>)>, root: Seq<char>) -> Seq<
    (Seq<char>, Seq<char>),
>
    decreases cs.len(),
{
    if cs.len() == 0 {
        Seq::empty()
    } else {
        commits_payloads(cs.drop_last(), root) + commit_payloads(cs.last().0, cs.last().1, root)
    }
}

/// The comments for a push: range after range, each range commit after commit.
pub open spec fn push_payloads(rs: Seq<Seq<(Seq<char>, Seq<char>)>>, root: Seq<char>) -> Seq<
    (Seq<char>, Seq<char>),
>
    decreases rs.len(),
{
    if rs.len() == 0 {
        Seq::empty()
    } else {
        push_payloads(rs.drop_last(), root) + commits_payloads(rs.last(), root)
    }
}

/// Every hash of the list has at least seven characters.
pub open spec fn hashes_long_enough(cs: Seq<(Seq<char>, Seq<char>)>) -> bool {
    forall|i: int| 0 <= i < cs.len() ==> (#[trigger] cs[i]).0.len() >= 7
}

/// The body of the comment for commit `hash`, shown at `link`, that goes to
/// the issue `key`.
pub fn compose_comment(hash: &str, link: &str, message: &str, key: &str) -> (r: String)
    requires
        hash@.len() >= 7,
    ensures
        r@ == comment_body(hash@, link@, message@, key@),
{
    proof {
        reveal_strlit("[Commit ");
        reveal_strlit("|");
        reveal_strlit("]: ");
        reveal_strlit("");
    }
    let mut r = String::new();
    r.append("[Commit ");
    r.append(hash.substring_char(0, 7));
    r.append("|");
    r.append(link);
    r.append("]: ");
    let rest = replace_all(message, key, "");
    r.append(rest.as_str());
    assert(""@ =~= Seq::<char>::empty());
    assert(r@ =~= comment_body(hash@, link@, message@, key@));
    r
}

/// The comments for one commit: one for each issue key in its message, in
/// the order of the keys, each linking to the commit under `root`.
pub fn comments_for_commit(commit: &CommitRecord, root: &str) -> (r: Vec<CommentPayload>)
    requires
        commit.hash@.len() >= 7,
    ensures
        payloads_view(r@) == commit_payloads(commit.hash@, commit.message@, root@),
{
    let keys = extract_issue_keys(commit.message.as_str());
    let link = permalink(root, commit.hash.as_str());
    let ghost want = commit_payloads(commit.hash@, commit.message@, root@);
    let mut r: Vec<CommentPayload> = Vec::new();
    let mut k: usize = 0;
    while k < keys.len()
        invariant
            commit.hash@.len() >= 7,
            link@ == root@ + commit.hash@,
            keys@.map_values(|s: String| s@) == issue_keys(commit.message@),
            want == commit_payloads(commit.hash@, commit.message@, root@),
            want.len() == keys.len(),
            k <= keys.len(),
            payloads_view(r@) =~= want.take(k as int),
        decreases keys.len() - k,
    {
        let body = compose_comment(
            commit.hash.as_str(),
            link.as_str(),
            commit.message.as_str(),
            keys[k].as_str(),
        );
        let p = CommentPayload { issue: keys[k].clone(), body };
        proof {
            assert(keys@.map_values(|s: String| s@)[k as int] == keys@[k as int]@);
            assert(p@ == want[k as int]);
        }
        let ghost before = r@;
        r.push(p);
        assert(r@ == before.push(p));
        assert(payloads_view(r@) =~= payloads_view(before).push(p@));
        k = k + 1;
        assert(payloads_view(r@) =~= want.take(k as int));
    }
    assert(want.take(k as int) =~= want);
    r
}


pub proof fn lemma_payloads_view_concat(a: Seq<CommentPayload>, b: Seq<CommentPayload>)
    ensures
        payloads_view(a + b) == payloads_view(a) + payloads_view(b),
{
    assert(payloads_view(a + b) =~= payloads_view(a) + payloads_view(b));
}

/// The comments for the commits of one range, commit after commit, in the
/// order in which the range lists them.
pub fn plan_commits(commits: &Vec<CommitRecord>, root: &str) -> (r: Vec<CommentPayload>)
    requires
        hashes_long_enough(records_view(commits@)),
    ensures
        payloads_view(r@) == commits_payloads(records_view(commits@), root@),
{
    let mut r: Vec<CommentPayload> = Vec::new();
    let mut i: usize = 0;
    while i < commits.len()
        invariant
            hashes_long_enough(records_view(commits@)),
            i <= commits.len(),
            payloads_view(r@) == commits_payloads(records_view(commits@.take(i as int)), root@),
        decreases commits.len() - i,
    {
        assert(records_view(commits@)[i as int].0.len() >= 7);
        let mut ps = comments_for_commit(&commits[i], root);
        let ghost before = r@;
        let ghost mine = ps@;
        r.append(&mut ps);
        proof {
            lemma_payloads_view_concat(before, mine);
            let cs = records_view(commits@.take(i + 1));
            assert(cs.drop_last() =~= records_view(commits@.take(i as int)));
            assert(cs.last() == commits@[i as int]@);
        }
        i = i + 1;
    }
    assert(commits@.take(i as int) =~= commits@);
    r
}

/// Every hash of every range has at least seven characters.
pub open spec fn ranges_long_enough(rs: Seq<Seq<(Seq<char>, Seq<char>)>>) -> bool {
    forall|i: int| 0 <= i < rs.len() ==> hashes_long_enough(#[trigger] rs[i])
}

/// The comments for a whole push: range after range in report order, each
/// range commit after commit, each commit key after key.
pub fn plan_push(ranges: &Vec<Vec<CommitRecord>>, root: &str) -> (r: Vec<CommentPayload>)
    requires
        ranges_long_enough(ranges_view(ranges@)),
    ensures
        payloads_view(r@) == push_payloads(ranges_view(ranges@), root@),
{
    let mut r: Vec<CommentPayload> = Vec::new();
    let mut i: usize = 0;
    while i < ranges.len()
        invariant
            ranges_long_enough(ranges_view(ranges@)),
            i <= ranges.len(),
            payloads_view(r@) == push_payloads(ranges_view(ranges@.take(i as int)), root@),
        decreases ranges.len() - i,
    {
        assert(hashes_long_enough(ranges_view(ranges@)[i as int]));
        let mut ps = plan_commits(&ranges[i], root);
        let ghost before = r@;
        let ghost mine = ps@;
        r.append(&mut ps);
        proof {
            lemma_payloads_view_concat(before, mine);
            let rs = ranges_view(ranges@.take(i + 1));
            assert(rs.drop_last() =~= ranges_view(ranges@.take(i as int)));
            assert(rs.last() == records_view(ranges@[i as int]@));
        }
        i = i + 1;
    }
    assert(ranges@.take(i as int) =~= ranges@);
    r
}

} // verus!
