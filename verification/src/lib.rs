//! Verified core of a stateless, resumable crawler for a legacy ASP.NET
//! contracting portal.
//!
//! Each invocation of the surrounding program receives a batch of crawl
//! steps, advances each one, and emits follow-up steps.  The logic that
//! decides what to fetch, how to fill the portal's forms, how fetched
//! bodies are archived and deduplicated, and how a batch's outcomes are
//! aggregated lives here, with contracts checked by Verus.  Network and
//! storage I/O stay outside; they hand this crate plain values.

pub mod archive;
pub mod cookies;
pub mod dates;
pub mod dispatch;
pub mod errors;
pub mod form;
pub mod html;
pub mod ops;
pub mod shapes;
pub mod strutil;
pub mod urls;
pub mod webs;

use vstd::prelude::*;

verus! {

/// User agent announced by the crawler when none is configured.
pub fn default_user_agent() -> (r: String)
    ensures
        r@ == "Mozilla/5.0 (compatible; GovScout/0.1; +https://github.com/dacut/govscout-backend)"@,
{
    String::from_str("Mozilla/5.0 (compatible; GovScout/0.1; +https://github.com/dacut/govscout-backend)")
}

} // verus!
