use jira_push::keys::extract_issue_keys;
use jira_push::report::{parse_hash_list, parse_push_report};
use jira_push::commit::{commit_url_root, normalize_message, permalink};
use jira_push::text::{replace_all, strip, Strip};
use regex::Regex;

fn keys(text: &str) -> Vec<String> {
    extract_issue_keys(text)
}

fn regex_keys(text: &str) -> Vec<String> {
    let re = Regex::new(r"[A-Z]{2,6}-[0-9]+").unwrap();
    re.find_iter(text).map(|m| m.as_str().to_string()).collect()
}

#[test]
fn keys_in_example_sentence() {
    assert_eq!(keys("see PROJ-12 and also AB-9999x"), vec!["PROJ-12", "AB-9999"]);
}

#[test]
fn keys_none_in_plain_text() {
    assert!(keys("").is_empty());
    assert!(keys("no keys here, proj-12, A-1, PROJ-").is_empty());
}

#[test]
fn keys_long_capital_run_starts_late() {
    assert_eq!(keys("ABCDEFGH-12"), vec!["CDEFGH-12"]);
}

#[test]
fn keys_duplicates_are_kept() {
    assert_eq!(keys("PROJ-1 fixes PROJ-1 again"), vec!["PROJ-1", "PROJ-1"]);
}

#[test]
fn keys_agree_with_pattern_matcher() {
    let samples = [
        "see PROJ-12 and also AB-9999x",
        "ABCDEFGH-12 XY-3-4 QQ--5 ZZ-7ZZ-8",
        "Merge AB-1,CD-22;EF-333\nGHIJKL-0 MNOPQRS-9",
        "é AB-12é CD-٣4 éXY-5",
        "A-1 AB- -12 AB12 ab-12",
    ];
    for s in samples.iter() {
        assert_eq!(keys(s), regex_keys(s), "on {:?}", s);
    }
}

fn pairs(report: &str) -> Vec<(String, String)> {
    parse_push_report(report)
}

#[test]
fn report_single_update() {
    let report = "To github.com:me/repo.git\n \trefs/heads/main\tabc123..def456\nDone\n";
    assert_eq!(pairs(report), vec![("abc123".to_string(), "def456".to_string())]);
}

#[test]
fn report_unrelated_lines_give_nothing() {
    let report = "To origin\n=\trefs/heads/main:refs/heads/main\t[up to date]\n!\trefs/heads/x:refs/heads/x\t[rejected] (non-fast-forward)\nDone\n";
    assert!(pairs(report).is_empty());
    assert!(pairs("").is_empty());
}

#[test]
fn report_two_updates_in_order() {
    let report = " \trefs/heads/a:refs/heads/a\t1111111..2222222\n \trefs/heads/b:refs/heads/b\taaaaaaa..bbbbbbb\n";
    assert_eq!(
        pairs(report),
        vec![
            ("1111111".to_string(), "2222222".to_string()),
            ("aaaaaaa".to_string(), "bbbbbbb".to_string()),
        ]
    );
}

#[test]
fn report_hash_bounds() {
    // the new hash is cut at twenty digits; a short or too long old hash gives nothing
    let long = "0123456789abcdef0123456789abcdef01234567";
    let report = format!(" \trefs/heads/a\tabcdef..{}\n", long);
    assert_eq!(pairs(&report), vec![("abcdef".to_string(), long[..20].to_string())]);
    assert!(pairs(" \trefs/heads/a\tabcde..abcdef1\n").is_empty());
    assert!(pairs(&format!(" \trefs/heads/a\t{}..abcdef1\n", long)).is_empty());
}

#[test]
fn report_agrees_with_pattern_matcher() {
    let re = Regex::new(r"\t[^\t]+\t([0-9a-f]{6,20})\.\.([0-9a-f]{6,20})").unwrap();
    let samples = [
        " \trefs/heads/main\tabc123..def456\n",
        "\t\tabc123..def456\t\trefs\tx\t0000000..fffffff",
        "\tA\tB\tabc123..def456 \tq\tabcdef..abcde\n+\tr:r\t1234567...89abcde (forced update)",
        "\tr\n\tabcdef0..1234567",
    ];
    for s in samples.iter() {
        let expected: Vec<(String, String)> = re
            .captures_iter(s)
            .map(|c| (c[1].to_string(), c[2].to_string()))
            .collect();
        assert_eq!(pairs(s), expected, "on {:?}", s);
    }
}

#[test]
fn hash_list_lines_without_quotes() {
    let listing = "\"1111111aaaa\"\n\"2222222bbbb\"\r\n";
    assert_eq!(parse_hash_list(listing), vec!["1111111aaaa", "2222222bbbb"]);
}

#[test]
fn hash_list_of_empty_range_is_empty() {
    assert!(parse_hash_list("").is_empty());
}

#[test]
fn hash_list_agrees_with_lines() {
    let listing = "\"a\"\n\nb\r\n\"\"c\"\"\nlast\r";
    let expected: Vec<String> = listing.lines().map(|l| l.trim_matches('"').to_string()).collect();
    assert_eq!(parse_hash_list(listing), expected);
}

#[test]
fn message_is_trimmed_and_unquoted() {
    assert_eq!(normalize_message("\"Fix login bug PROJ-42\n\"\n"), "Fix login bug PROJ-42");
    assert_eq!(normalize_message("  \u{3000}plain\t"), "plain");
    assert_eq!(normalize_message(""), "");
    assert_eq!(normalize_message("\"\"\n"), "");
}

#[test]
fn url_root_from_ssh_remote() {
    assert_eq!(
        commit_url_root("git@github.com:user/repo.git\n"),
        "https://github.com/user/repo/commit/"
    );
}

#[test]
fn url_root_from_https_remote_keeps_scheme() {
    assert_eq!(
        commit_url_root("https://github.com/user/repo.git\n"),
        "https://github.com/user/repo/commit/"
    );
    assert_eq!(
        commit_url_root("https://example.org/user/repo.git"),
        "https://example.org/user/repo/commit/"
    );
}

#[test]
fn url_root_drops_only_a_trailing_git() {
    assert_eq!(
        commit_url_root("git@github.com:me/me.github.io.git"),
        "https://github.com/me/me.github.io/commit/"
    );
    assert_eq!(
        commit_url_root("https://me.github.io/repo"),
        "https://me.github.io/repo/commit/"
    );
}

#[test]
fn url_root_from_other_ssh_users_and_hosts() {
    assert_eq!(
        commit_url_root("alice@host.example:team/repo.git"),
        "https://host.example/team/repo/commit/"
    );
    assert_eq!(commit_url_root("host.example:repo"), "https://host.example/repo/commit/");
    assert_eq!(commit_url_root(""), "/commit/");
}

#[test]
fn permalink_appends_hash() {
    assert_eq!(
        permalink("https://github.com/u/r/commit/", "a1b2c3d4e5f6"),
        "https://github.com/u/r/commit/a1b2c3d4e5f6"
    );
}

#[test]
fn replace_all_examples() {
    assert_eq!(replace_all("aaaa", "aa", "b"), "bb");
    assert_eq!(replace_all("abcabc", "bc", ""), "aa");
    assert_eq!(replace_all("abc", "", "x"), "abc");
    assert_eq!(replace_all("", "a", "x"), "");
    assert_eq!(replace_all("aaa", "aa", "x"), "xa");
}

#[test]
fn strip_examples() {
    assert_eq!(strip("\"\"q\"", Strip::Quote), "q");
    assert_eq!(strip(" \n x y \r", Strip::White), "x y");
    assert_eq!(strip("   ", Strip::White), "");
}
