//! Failures the crawler core can report.
//!
//! Every fallible function of this crate returns one of these variants, and
//! its contract says exactly on which inputs each variant comes.

use vstd::prelude::*;

verus! {

/// An HTTP response carried a status code outside the accepted range
/// (2xx through 3xx).
#[derive(Debug)]
pub struct HttpStatusError {
    /// The numeric status code that was returned.
    pub status: u16,
    /// The URL that was requested.
    pub url: String,
}

/// One failure of a crawl step.
#[derive(Debug)]
pub enum CrawlError {
    /// The network transport failed before any status code was seen.
    Transport { detail: String },
    /// The server answered with a status outside the success range.
    HttpStatus { error: HttpStatusError },
    /// The page held no form with the wanted `name` attribute.
    FormNotFound { name: String },
    /// Some other expected page structure was missing, or a URL did not
    /// resolve.
    ElementNotFound { detail: String },
    /// A credential could not be retrieved, or came back empty.
    SecretRetrieval { name: String },
    /// The blob store or the metadata store failed for any reason other
    /// than a confirmed not-found probe.
    ArchiveStore { detail: String },
    /// An inbound operation tag did not parse.
    OperationParse { tag: String },
    /// The operation is recognised but deliberately unimplemented.
    NotImplemented,
    /// More than one concurrent step failed; only the count survives.
    AggregateFailure { count: usize },
}

impl CrawlError {
    /// A short human-readable description, for logs outside the core:
    /// a fixed phrase per variant, carrying the failing name, URL or
    /// detail where there is one.
    pub fn message(&self) -> (r: String)
        ensures
            match self {
                CrawlError::Transport { detail } => r@ == "transport failure: "@ + detail@,
                CrawlError::HttpStatus { error } => r@ == "http status error for "@
                    + error.url@,
                CrawlError::FormNotFound { name } => r@ == "form not found: "@ + name@,
                CrawlError::ElementNotFound { detail } => r@ == "element not found: "@
                    + detail@,
                CrawlError::SecretRetrieval { name } => r@ == "secret retrieval failed: "@
                    + name@,
                CrawlError::ArchiveStore { detail } => r@ == "archive store failure: "@
                    + detail@,
                CrawlError::OperationParse { tag } => r@ == "invalid operation: "@ + tag@,
                CrawlError::NotImplemented => r@ == "operation not implemented"@,
                CrawlError::AggregateFailure { .. } => r@ == "multiple errors"@,
            },
    {
        match self {
            CrawlError::Transport { detail } => {
                String::from_str("transport failure: ").concat(detail.as_str())
            },
            CrawlError::HttpStatus { error } => {
                String::from_str("http status error for ").concat(error.url.as_str())
            },
            CrawlError::FormNotFound { name } => {
                String::from_str("form not found: ").concat(name.as_str())
            },
            CrawlError::ElementNotFound { detail } => {
                String::from_str("element not found: ").concat(detail.as_str())
            },
            CrawlError::SecretRetrieval { name } => {
                String::from_str("secret retrieval failed: ").concat(name.as_str())
            },
            CrawlError::ArchiveStore { detail } => {
                String::from_str("archive store failure: ").concat(detail.as_str())
            },
            CrawlError::OperationParse { tag } => {
                String::from_str("invalid operation: ").concat(tag.as_str())
            },
            CrawlError::NotImplemented => String::from_str("operation not implemented"),
            CrawlError::AggregateFailure { .. } => String::from_str("multiple errors"),
        }
    }
}

} // verus!
