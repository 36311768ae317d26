//! What is derived from a commit: its message as shown, and its permalink.

use vstd::prelude::*;
use crate::text::{Strip, stripped, strip, next_of, lemma_next_of, find_char, chars_of};

verus! {

/// A commit message as the history tool prints it, without the white space
/// and the double quotes around it.
pub open spec fn normalized_message(raw: Seq<char>) -> Seq<char> {
    stripped(stripped(stripped(raw, Strip::White), Strip::Quote), Strip::White)
}

/// `s` without a trailing `.git`, where it has one.
pub open spec fn without_git_suffix(s: Seq<char>) -> Seq<char> {
    if s.len() >= 4 && s.subrange(s.len() - 4, s.len() as int) == seq!['.', 'g', 'i', 't'] {
        s.subrange(0, s.len() - 4)
    } else {
        s
    }
}

/// The position of the first colon of `s`, or `s.len()`.
pub open spec fn first_colon(s: Seq<char>) -> int {
    next_of(s, 0, ':')
}

/// `s` is in the SSH shape `[user@]host:path`: it has a colon, and no `//`
/// follows that first colon as it would a URL scheme.
pub open spec fn is_ssh_shape(s: Seq<char>) -> bool {
    let c = first_colon(s);
    c < s.len() && !(c + 2 < s.len() && s[c + 1] == '/' && s[c + 2] == '/')
}

/// Where the host of an SSH-shaped remote starts: after the user and its `@`,
/// where an `@` stands before the first colon.
pub open spec fn host_start(s: Seq<char>) -> int {
    if next_of(s, 0, '@') < first_colon(s) {
        next_of(s, 0, '@') + 1
    } else {
        0
    }
}

/// The web address of a remote: `[user@]host:path` becomes `https://host/path`;
/// a URL with a scheme, or any other shape, stays as it is.
pub open spec fn web_address(s: Seq<char>) -> Seq<char> {
    if is_ssh_shape(s) {
        "https://"@ + s.subrange(host_start(s), first_colon(s)) + "/"@ + s.subrange(
            first_colon(s) + 1,
            s.len() as int,
        )
    } else {
        s
    }
}

/// The web root under which the commits of a remote are shown: the remote
/// without surrounding white space and without a trailing `.git`, as a web
/// address, followed by `/commit/`. `git@host:path.git` becomes
/// `https://host/path/commit/`.
pub open spec fn url_root(remote: Seq<char>) -> Seq<char> {
    web_address(without_git_suffix(stripped(remote, Strip::White))) + "/commit/"@
}

/// The message of a commit from the raw text that the history tool printed.
pub fn normalize_message(raw: &str) -> (r: String)
    ensures
        r@ == normalized_message(raw@),
{
    let a = strip(raw, Strip::White);
    let b = strip(a.as_str(), Strip::Quote);
    strip(b.as_str(), Strip::White)
}

/// `s` without a trailing `.git`.
pub fn strip_git_suffix(s: &str) -> (r: String)
    ensures
        r@ == without_git_suffix(s@),
{
    let v = chars_of(s);
    let n = v.len();
    if n >= 4 && v[n - 4] == '.' && v[n - 3] == 'g' && v[n - 2] == 'i' && v[n - 1] == 't' {
        assert(s@.subrange(n - 4, n as int) =~= seq!['.', 'g', 'i', 't']);
        s.substring_char(0, n - 4).to_owned()
    } else {
        proof {
            if n >= 4 {
                let t = s@.subrange(n - 4, n as int);
                if t == seq!['.', 'g', 'i', 't'] {
                    assert(t[0] == v@[n - 4]);
                    assert(t[1] == v@[n - 3]);
                    assert(t[2] == v@[n - 2]);
                    assert(t[3] == v@[n - 1]);
                }
            }
        }
        s.to_owned()
    }
}

/// The web address of the remote `s`: `[user@]host:path` becomes
/// `https://host/path`; other shapes are kept.
pub fn to_web_address(s: &str) -> (r: String)
    ensures
        r@ == web_address(s@),
{
    let v = chars_of(s);
    proof {
        lemma_next_of(v@, 0, ':');
        lemma_next_of(v@, 0, '@');
    }
    let c = find_char(&v, 0, ':');
    if c < v.len() && !(2 < v.len() - c && v[c + 1] == '/' && v[c + 2] == '/') {
        let a = find_char(&v, 0, '@');
        let h = if a < c {
            a + 1
        } else {
            0
        };
        let mut r = "https://".to_owned();
        r.append(s.substring_char(h, c));
        r.append("/");
        r.append(s.substring_char(c + 1, v.len()));
        r
    } else {
        s.to_owned()
    }
}

/// The commit web root for the remote URL `remote`.
pub fn commit_url_root(remote: &str) -> (r: String)
    ensures
        r@ == url_root(remote@),
{
    let t = strip(remote, Strip::White);
    let u = strip_git_suffix(t.as_str());
    let mut r = to_web_address(u.as_str());
    r.append("/commit/");
    r
}

/// The permalink of the commit `hash` under the web root `root`.
pub fn permalink(root: &str, hash: &str) -> (r: String)
    ensures
        r@ == root@ + hash@,
{
    let mut r = root.to_owned();
    r.append(hash);
    r
}

} // verus!
