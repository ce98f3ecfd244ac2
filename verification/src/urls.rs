//! URL parsing and reference resolution, through the `url` crate.
//!
//! Resolving a form's `action` or a link's `href` against a page's URL
//! follows the full reference-resolution algorithm, which the `url` crate
//! implements.  Its results are functions of the input strings alone;
//! they are named here and every caller's contract speaks of the names.

use vstd::prelude::*;
use vstd::string::*;

verus! {

/// What parsing `s` as an absolute URL and re-serializing it yields;
/// `None` exactly when `s` does not parse.
pub uninterp spec fn url_normalize(s: Seq<char>) -> Option<Seq<char>>;

/// What resolving the reference `rel` against the base URL `base` yields,
/// re-serialized; `None` when the base does not parse or the reference
/// cannot be resolved against it.
pub uninterp spec fn url_join(base: Seq<char>, rel: Seq<char>) -> Option<Seq<char>>;

/// The host of the URL `s`; `None` when `s` does not parse or has no
/// host.
pub uninterp spec fn url_host(s: Seq<char>) -> Option<Seq<char>>;

/// The scheme of the URL `s`; `None` when `s` does not parse.
pub uninterp spec fn url_scheme(s: Seq<char>) -> Option<Seq<char>>;

/// Relies on `url::Url::parse` and `Url::as_str`: the URL in serialized
/// normal form, or `None` exactly when the text does not parse as an
/// absolute URL.
#[verifier::external_body]
pub fn normalize_url(s: &str) -> (r: Option<String>)
    ensures
        match r {
            Some(t) => url_normalize(s@) == Some(t@),
            None => url_normalize(s@) is None,
        },
{
    match url::Url::parse(s) {
        Ok(u) => Some(String::from(u.as_str())),
        Err(_) => None,
    }
}

/// Relies on `url::Url::join` (on the parsed base) and `Url::as_str`:
/// the reference resolved against the base, or `None` when either step
/// fails.
#[verifier::external_body]
pub fn join_url(base: &str, rel: &str) -> (r: Option<String>)
    ensures
        match r {
            Some(t) => url_join(base@, rel@) == Some(t@),
            None => url_join(base@, rel@) is None,
        },
{
    match url::Url::parse(base) {
        Ok(b) => match b.join(rel) {
            Ok(u) => Some(String::from(u.as_str())),
            Err(_) => None,
        },
        Err(_) => None,
    }
}

/// Relies on `url::Url::host_str`: the URL's host text, if it has one.
#[verifier::external_body]
pub fn url_host_of(s: &str) -> (r: Option<String>)
    ensures
        match r {
            Some(t) => url_host(s@) == Some(t@),
            None => url_host(s@) is None,
        },
{
    match url::Url::parse(s) {
        Ok(u) => match u.host_str() {
            Some(h) => Some(String::from(h)),
            None => None,
        },
        Err(_) => None,
    }
}

/// Relies on `url::Url::scheme`: the URL's scheme.
#[verifier::external_body]
pub fn url_scheme_of(s: &str) -> (r: Option<String>)
    ensures
        match r {
            Some(t) => url_scheme(s@) == Some(t@),
            None => url_scheme(s@) is None,
        },
{
    match url::Url::parse(s) {
        Ok(u) => Some(String::from(u.scheme())),
        Err(_) => None,
    }
}


} // verus!
