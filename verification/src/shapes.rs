//! The shapes of crawl steps.
//!
//! A [`Request`] is the loosely-typed inbound form of a step; a
//! [`NextRequest`] is the stricter, validated form a handler emits.  Both
//! carry the [`CrawlParameters`] that keep one logical crawl's identity
//! and session across process boundaries.

use vstd::prelude::*;
use vstd::string::*;
use crate::cookies::{Cookie, CookieStore};
use crate::ops::Operation;

verus! {

/// Parameters carried unchanged through every step of one crawl.
#[derive(Debug)]
pub struct CrawlParameters {
    /// The crawl's stable identifier; assigned once, at the first step.
    pub crawl_id: Option<String>,
    /// The user agent announced while crawling.
    pub user_agent: String,
    /// The session's cookie jar.
    pub cookies: CookieStore,
}

/// A loosely-typed inbound crawl step.
#[derive(Debug)]
pub struct Request {
    /// The operation tag, still unparsed.
    pub operation: String,
    /// The URL to work on, if the step carries one.
    pub url: Option<String>,
    /// The crawl's parameters.
    pub crawl: CrawlParameters,
}

/// A validated crawl step to be scheduled.
#[derive(Debug)]
pub struct NextRequest {
    /// The operation to perform.
    pub operation: Operation,
    /// The URL to work on, if any.
    pub url: Option<String>,
    /// The crawl's parameters.
    pub crawl: CrawlParameters,
}

/// What a handled step returns: the steps to schedule next.
#[derive(Debug)]
pub struct Response {
    /// The next steps, in emission order.
    pub next_requests: Vec<NextRequest>,
}

/// The view of an optional string.
pub open spec fn opt_str_view(o: Option<String>) -> Option<Seq<char>> {
    match o {
        Some(s) => Some(s@),
        None => None,
    }
}

/// A crawl's parameters as plain values.
pub open spec fn crawl_view(c: CrawlParameters) -> (Option<Seq<char>>, Seq<char>, Seq<Cookie>) {
    (opt_str_view(c.crawl_id), c.user_agent@, c.cookies.cookies@)
}

/// A next step as plain values.
pub open spec fn nr_view(n: NextRequest) -> (
    Operation,
    Option<Seq<char>>,
    (Option<Seq<char>>, Seq<char>, Seq<Cookie>),
) {
    (n.operation, opt_str_view(n.url), crawl_view(n.crawl))
}

impl CrawlParameters {
    /// The jar is well-formed.
    pub open spec fn wf(&self) -> bool {
        self.cookies.wf()
    }

    /// The crawl id this step runs under: the one already assigned, or —
    /// at the first step of a crawl — the invocation's request id.
    pub fn effective_crawl_id(&self, request_id: &str) -> (r: String)
        ensures
            match self.crawl_id {
                Some(id) => r@ == id@,
                None => r@ == request_id@,
            },
    {
        match &self.crawl_id {
            Some(id) => id.clone(),
            None => String::from_str(request_id),
        }
    }
}

impl Clone for CrawlParameters {
    /// Clones keep the crawl's identity, agent and cookies.
    fn clone(&self) -> (r: Self)
        ensures
            crawl_view(r) == crawl_view(*self),
    {
        CrawlParameters {
            crawl_id: match &self.crawl_id {
                Some(id) => Some(id.clone()),
                None => None,
            },
            user_agent: self.user_agent.clone(),
            cookies: self.cookies.clone(),
        }
    }
}

} // verus!
