use jira_push::comment::{
    comments_for_commit, compose_comment, plan_commits, plan_push, CommentPayload, CommitRecord,
};
use jira_push::tracker::{authorization_value, basic_auth_value, comment_endpoint, credentials_text};

fn record(hash: &str, message: &str) -> CommitRecord {
    CommitRecord { hash: hash.to_string(), message: message.to_string() }
}

fn issues(ps: &[CommentPayload]) -> Vec<String> {
    ps.iter().map(|p| p.issue.clone()).collect()
}

const ROOT: &str = "https://github.com/u/r/commit/";

#[test]
fn compose_removes_key_and_shortens_hash() {
    let body = compose_comment(
        "a1b2c3d4e5f6",
        "https://github.com/u/r/commit/a1b2c3d4e5f6",
        "Fix login bug PROJ-42",
        "PROJ-42",
    );
    assert_eq!(body, "[Commit a1b2c3d|https://github.com/u/r/commit/a1b2c3d4e5f6]: Fix login bug ");
}

#[test]
fn compose_removes_every_occurrence_from_message_only() {
    let body = compose_comment("0123456789", "http://x/PROJ-1", "PROJ-1 and PROJ-1x", "PROJ-1");
    assert_eq!(body, "[Commit 0123456|http://x/PROJ-1]:  and x");
}

#[test]
fn one_comment_per_key_occurrence() {
    let ps = comments_for_commit(&record("a1b2c3d4e5f6", "AB-1 then CD-2 then AB-1"), ROOT);
    assert_eq!(issues(&ps), vec!["AB-1", "CD-2", "AB-1"]);
    assert_eq!(
        ps[1].body,
        "[Commit a1b2c3d|https://github.com/u/r/commit/a1b2c3d4e5f6]: AB-1 then  then AB-1"
    );
    assert_eq!(
        ps[0].body,
        "[Commit a1b2c3d|https://github.com/u/r/commit/a1b2c3d4e5f6]:  then CD-2 then "
    );
}

#[test]
fn commit_without_keys_gives_no_comment() {
    assert!(comments_for_commit(&record("a1b2c3d4e5f6", "tidy up"), ROOT).is_empty());
}

#[test]
fn empty_range_gives_no_comment() {
    assert!(plan_commits(&vec![], ROOT).is_empty());
    let ranges = vec![vec![], vec![record("1111111aaa", "XY-1")], vec![]];
    assert_eq!(issues(&plan_push(&ranges, ROOT)), vec!["XY-1"]);
    assert!(plan_push(&vec![vec![]], ROOT).is_empty());
}

#[test]
fn two_ranges_give_two_comments() {
    let ranges = vec![
        vec![record("1111111aaaa", "Fix AB-1")],
        vec![record("2222222bbbb", "Fix CD-2")],
    ];
    let ps = plan_push(&ranges, ROOT);
    assert_eq!(issues(&ps), vec!["AB-1", "CD-2"]);
    assert!(ps[0].body.contains("1111111") && ps[0].body.contains(&format!("{}1111111aaaa", ROOT)));
    assert!(ps[1].body.contains("2222222") && ps[1].body.contains(&format!("{}2222222bbbb", ROOT)));
    assert!(!ps[0].body.contains("2222222"));
}

#[test]
fn earlier_commit_goes_first() {
    let ranges = vec![vec![
        record("aaaaaaa1", "first AB-1 AB-2"),
        record("bbbbbbb2", "second AB-3"),
    ]];
    let ps = plan_push(&ranges, ROOT);
    assert_eq!(issues(&ps), vec!["AB-1", "AB-2", "AB-3"]);
    assert!(ps[0].body.starts_with("[Commit aaaaaaa|"));
    assert!(ps[2].body.starts_with("[Commit bbbbbbb|"));
}

#[test]
fn authorization_header_value() {
    assert_eq!(credentials_text("user", "token"), "user:token");
    assert_eq!(authorization_value("user", "token"), "Basic dXNlcjp0b2tlbg==");
    assert_eq!(authorization_value("é", "x"), "Basic w6k6eA==");
    assert_eq!(basic_auth_value("abc"), "Basic abc");
}

#[test]
fn endpoint_for_issue() {
    assert_eq!(
        comment_endpoint("me.atlassian.net", "PROJ-42"),
        "https://me.atlassian.net/rest/api/2/issue/PROJ-42/comment"
    );
}
