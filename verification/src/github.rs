//! Request lines against the remote hosting service: the release-listing
//! URL, the merged-change search URL, and the bearer credential.

use vstd::prelude::*;
use vstd::string::StringExecFns;
use crate::fetch::PER_PAGE;
use crate::text::{dec_str, push_dec};

verus! {

/// Percent-encoding of a string as `urlencoding::encode` produces it.
pub uninterp spec fn encoded_of(s: Seq<char>) -> Seq<char>;

/// Relies on `urlencoding::encode`: percent-encodes every byte except
/// ASCII alphanumerics and `-`, `_`, `.`, `~`. The result depends on the
/// string alone, and an empty string stays empty.
#[verifier::external_body]
fn url_encode(s: &str) -> (r: String)
    ensures
        r@ == encoded_of(s@),
        s@.len() == 0 ==> r@.len() == 0,
{
    urlencoding::encode(s).into_owned()
}

/// The release-listing URL for one page.
pub open spec fn releases_page_url_spec(owner: Seq<char>, repo: Seq<char>, page: u32) -> Seq<char> {
    "https://api.github.com/repos/"@ + owner + "/"@ + repo + "/releases?per_page="@ + dec_str(
        PER_PAGE as nat,
    ) + "&page="@ + dec_str(page as nat)
}

/// Builds the release-listing URL for one page.
pub fn releases_page_url(owner: &str, repo: &str, page: u32) -> (r: String)
    ensures
        r@ == releases_page_url_spec(owner@, repo@, page),
{
    let mut s = String::from_str("https://api.github.com/repos/");
    s.append(owner);
    s.append("/");
    s.append(repo);
    s.append("/releases?per_page=");
    push_dec(&mut s, PER_PAGE as u64);
    s.append("&page=");
    push_dec(&mut s, page as u64);
    s
}

/// The search expression for change requests merged at or after `since`.
pub open spec fn search_query_spec(owner: Seq<char>, repo: Seq<char>, since: Seq<char>) -> Seq<
    char,
> {
    "repo:"@ + owner + "/"@ + repo + " is:pr is:merged merged:>="@ + since
}

/// Builds the search expression for change requests merged at or after `since`.
pub fn search_query(owner: &str, repo: &str, since: &str) -> (r: String)
    ensures
        r@ == search_query_spec(owner@, repo@, since@),
{
    let mut s = String::from_str("repo:");
    s.append(owner);
    s.append("/");
    s.append(repo);
    s.append(" is:pr is:merged merged:>=");
    s.append(since);
    s
}

/// The search URL: the encoded query, newest first, at most ten results.
pub open spec fn search_url_spec(owner: Seq<char>, repo: Seq<char>, since: Seq<char>) -> Seq<
    char,
> {
    "https://api.github.com/search/issues?q="@ + encoded_of(
        search_query_spec(owner, repo, since),
    ) + "&per_page=10&sort=created&order=desc"@
}

/// Builds the search URL for change requests merged at or after `since`.
pub fn search_url(owner: &str, repo: &str, since: &str) -> (r: String)
    ensures
        r@ == search_url_spec(owner@, repo@, since@),
{
    let q = search_query(owner, repo, since);
    let enc = url_encode(q.as_str());
    let mut s = String::from_str("https://api.github.com/search/issues?q=");
    s.append(enc.as_str());
    s.append("&per_page=10&sort=created&order=desc");
    s
}

/// The value of the authorization header for a configured token.
pub open spec fn bearer_of(token: Seq<char>) -> Seq<char> {
    "Bearer "@ + token
}

/// The authorization header to attach: the bearer credential exactly when
/// a token is configured, nothing otherwise.
pub fn auth_header_value(token: &Option<String>) -> (r: Option<String>)
    ensures
        r is Some <==> token is Some,
        r matches Some(h) ==> h@ == bearer_of(token->0@),
{
    match token {
        Some(t) => {
            let mut s = String::from_str("Bearer ");
            s.append(t.as_str());
            Some(s)
        },
        None => None,
    }
}

} // verus!
