//! What a comment request to the issue tracker is made of.

use vstd::prelude::*;

verus! {

/// The standard, padded base64 encoding of the UTF-8 bytes of `text`.
pub uninterp spec fn base64_of(text: Seq<char>) -> Seq<char>;

/// Relies on `base64::encode`: the standard alphabet with padding, applied to
/// the UTF-8 bytes of `text`; the result depends on those bytes alone, and no
/// bytes give no characters.
#[verifier::external_body]
fn encode_base64(text: &str) -> (r: String)
    ensures
        r@ == base64_of(text@),
        text@.len() == 0 ==> r@.len() == 0,
{
    base64::encode(text)
}

/// `username:token`, the credentials of Basic authentication.
pub open spec fn credentials(username: Seq<char>, token: Seq<char>) -> Seq<char> {
    username + ":"@ + token
}

/// The value of the `Authorization` header for the given encoded credentials.
pub open spec fn basic_auth(encoded: Seq<char>) -> Seq<char> {
    "Basic "@ + encoded
}

/// The address to which the comments of `issue` are posted on `host`.
pub open spec fn endpoint(host: Seq<char>, issue: Seq<char>) -> Seq<char> {
    "https://"@ + host + "/rest/api/2/issue/"@ + issue + "/comment"@
}

/// `username:token`.
pub fn credentials_text(username: &str, token: &str) -> (r: String)
    ensures
        r@ == credentials(username@, token@),
{
    let mut r = username.to_owned();
    r.append(":");
    r.append(token);
    r
}

/// `Basic <encoded>`, from credentials already encoded.
pub fn basic_auth_value(encoded: &str) -> (r: String)
    ensures
        r@ == basic_auth(encoded@),
{
    let mut r = "Basic ".to_owned();
    r.append(encoded);
    r
}

/// The `Authorization` header value for `username` and the API `token`.
pub fn authorization_value(username: &str, token: &str) -> (r: String)
    ensures
        r@ == basic_auth(base64_of(credentials(username@, token@))),
{
    let c = credentials_text(username, token);
    let e = encode_base64(c.as_str());
    basic_auth_value(e.as_str())
}

/// The address to which a comment on `issue` is posted on `host`.
pub fn comment_endpoint(host: &str, issue: &str) -> (r: String)
    ensures
        r@ == endpoint(host@, issue@),
{
    let mut r = "https://".to_owned();
    r.append(host);
    r.append("/rest/api/2/issue/");
    r.append(issue);
    r.append("/comment");
    r
}

} // verus!
