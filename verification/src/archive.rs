//! Content-addressed archival of fetched responses.
//!
//! A fetched body is archived in two parts: a blob stored under a key
//! derived from the body's own SHA-256 digest — so byte-identical bodies
//! share one stored blob, however many fetches produced them — and one
//! per-fetch metadata record that is never deduplicated.  The store probe,
//! upload and record write are I/O and happen outside; this module
//! computes the digests and the key, decides what a probe's outcome
//! requires, and assembles the record.

use vstd::prelude::*;
use vstd::string::*;
use crate::errors::CrawlError;
use crate::strutil::{dec_str, dec_str_pad9, digit_char, u32_to_padded9, u64_to_string};

verus! {

/// The SHA-256 digest of `data`: a function of the bytes alone.
pub uninterp spec fn sha256_of(data: Seq<u8>) -> Seq<u8>;

/// The MD5 digest of `data`: a function of the bytes alone.
pub uninterp spec fn md5_of(data: Seq<u8>) -> Seq<u8>;

/// The standard padded base64 text of `data`: a function of the bytes
/// alone.
pub uninterp spec fn base64_of(data: Seq<u8>) -> Seq<char>;

/// One lowercase hexadecimal digit.
pub open spec fn hex_digit_char(d: int) -> char {
    if d < 10 {
        digit_char(d)
    } else if d == 10 {
        'a'
    } else if d == 11 {
        'b'
    } else if d == 12 {
        'c'
    } else if d == 13 {
        'd'
    } else if d == 14 {
        'e'
    } else {
        'f'
    }
}

/// One byte as two lowercase hexadecimal digits.
pub open spec fn byte_hex(b: u8) -> Seq<char> {
    seq![hex_digit_char(b as int / 16), hex_digit_char(b as int % 16)]
}

/// `data` written as lowercase hexadecimal, two digits per byte.
pub open spec fn hex_of(data: Seq<u8>) -> Seq<char>
    decreases data.len(),
{
    if data.len() == 0 {
        Seq::empty()
    } else {
        hex_of(data.drop_last()) + byte_hex(data.last())
    }
}

/// Relies on `sha2::Sha256` (through the `Digest` trait): the 32-byte
/// SHA-256 digest of the input.
#[verifier::external_body]
fn sha256_digest(data: &[u8]) -> (r: Vec<u8>)
    ensures
        r@ == sha256_of(data@),
        r@.len() == 32,
{
    let digest = <sha2::Sha256 as sha2::Digest>::digest(data);
    digest.as_slice().to_vec()
}

/// Relies on `md5::compute`: the 16-byte MD5 digest of the input.
#[verifier::external_body]
fn md5_digest(data: &[u8]) -> (r: Vec<u8>)
    ensures
        r@ == md5_of(data@),
        r@.len() == 16,
{
    md5::compute(data).0.to_vec()
}

/// Relies on `hex::encode`: two lowercase hex digits per input byte.
#[verifier::external_body]
fn hex_encode(data: &[u8]) -> (r: String)
    ensures
        r@ == hex_of(data@),
{
    hex::encode(data)
}

/// Relies on base64's `STANDARD` engine (`Engine::encode`): the padded
/// base64 text of the input.
#[verifier::external_body]
fn base64_encode(data: &[u8]) -> (r: String)
    ensures
        r@ == base64_of(data@),
{
    base64::Engine::encode(&base64::engine::general_purpose::STANDARD, data)
}

/// The digests a fetched body is archived with.
#[derive(Debug)]
pub struct ContentDigests {
    /// The body's SHA-256 digest, in lowercase hex.
    pub sha256_hex: String,
    /// The body's SHA-256 digest, in base64, attached to the upload as a
    /// checksum.
    pub sha256_base64: String,
    /// The body's MD5 digest, in base64, the upload's integrity check.
    pub md5_base64: String,
}

/// The blob key and digests of one body.
#[derive(Debug)]
pub struct ArchivePlan {
    /// The digests of the body.
    pub digests: ContentDigests,
    /// Where the blob lives: the configured prefix, then the hex SHA-256.
    pub key: String,
}

/// Digest a body once and derive its blob key: the configured prefix
/// followed by the body's hex SHA-256.  Equal bodies always yield equal
/// keys, whatever URL or crawl fetched them.
pub fn plan_archive(body: &[u8], prefix: &str) -> (r: ArchivePlan)
    ensures
        r.digests.sha256_hex@ == hex_of(sha256_of(body@)),
        r.digests.sha256_base64@ == base64_of(sha256_of(body@)),
        r.digests.md5_base64@ == base64_of(md5_of(body@)),
        r.key@ == prefix@ + hex_of(sha256_of(body@)),
{
    let sha = sha256_digest(body);
    let md5v = md5_digest(body);
    let sha256_hex = hex_encode(sha.as_slice());
    let sha256_base64 = base64_encode(sha.as_slice());
    let md5_base64 = base64_encode(md5v.as_slice());
    let mut key = String::from_str(prefix);
    key.append(sha256_hex.as_str());
    ArchivePlan { digests: ContentDigests { sha256_hex, sha256_base64, md5_base64 }, key }
}

/// What probing the blob store for the body's key reported.
#[derive(Debug)]
pub enum ProbeOutcome {
    /// An object already lives at the key; this is its integrity tag.
    Found { etag: String },
    /// The store answered, specifically, that no object lives there.
    NotFound,
    /// The probe failed for any other reason.
    Failed { detail: String },
}

/// What the archiver must do with the body's blob.
#[derive(Debug)]
pub enum ArchiveAction {
    /// The blob is already stored: keep its tag, upload nothing.
    ReuseExisting { etag: String },
    /// No blob at the key yet: upload the body.
    UploadNew,
}

/// Decide what a probe's outcome requires: a found blob is reused and not
/// re-uploaded; a confirmed not-found means upload; any other probe error
/// is fatal and aborts the fetch.
pub fn decide_archive(probe: ProbeOutcome) -> (r: Result<ArchiveAction, CrawlError>)
    ensures
        match probe {
            ProbeOutcome::Found { etag } => r matches Ok(a) && a == (ArchiveAction::ReuseExisting {
                etag,
            }),
            ProbeOutcome::NotFound => r matches Ok(a) && a is UploadNew,
            ProbeOutcome::Failed { detail } => r matches Err(e) && e
                == (CrawlError::ArchiveStore { detail }),
        },
{
    match probe {
        ProbeOutcome::Found { etag } => Ok(ArchiveAction::ReuseExisting { etag }),
        ProbeOutcome::NotFound => Ok(ArchiveAction::UploadNew),
        ProbeOutcome::Failed { detail } => Err(CrawlError::ArchiveStore { detail }),
    }
}

/// A record's timestamp: seconds, a dot, nanoseconds padded to nine
/// digits, so records sort chronologically as text.
pub open spec fn timestamp_str(secs: u64, nanos: u32) -> Seq<char> {
    dec_str(secs as nat) + "."@ + dec_str_pad9(nanos as nat)
}

/// Format a record timestamp.
pub fn format_timestamp(secs: u64, nanos: u32) -> (r: String)
    requires
        nanos < 1000000000,
    ensures
        r@ == timestamp_str(secs, nanos),
{
    let mut s = u64_to_string(secs);
    s.append(".");
    let frac = u32_to_padded9(nanos);
    s.append(frac.as_str());
    proof {
        reveal_strlit(".");
    }
    s
}

/// One fetch's metadata record: written once per fetch, never
/// deduplicated, even when the blob itself is shared.
#[derive(Debug)]
pub struct ArchivedResponseRecord {
    /// The crawl the fetch belongs to.
    pub crawl_id: String,
    /// The fetch's own time-ordered unique identifier.
    pub request_id: String,
    /// The URL the fetch asked for.
    pub original_url: String,
    /// The URL the response came from, after redirects.
    pub final_url: String,
    /// When the record was made, as seconds.nanoseconds.
    pub timestamp: String,
    /// The request method.
    pub method: String,
    /// The response's numeric status code.
    pub status_code: u16,
    /// The response's content type, if it carried one.
    pub content_type: Option<String>,
    /// The response's content language, if it carried one.
    pub content_language: Option<String>,
    /// How many body bytes were read.
    pub content_length: usize,
    /// The stored blob's integrity tag.
    pub etag: String,
    /// The body's MD5 digest, base64.
    pub md5_base64: String,
    /// The body's SHA-256 digest, hex.
    pub sha256_hex: String,
    /// The bucket the blob lives in.
    pub blob_bucket: String,
    /// The key the blob lives under, possibly shared between records.
    pub blob_key: String,
}

/// Assemble the per-fetch metadata record.
pub fn build_record(
    crawl_id: &str,
    request_id: &str,
    original_url: &str,
    final_url: &str,
    secs: u64,
    nanos: u32,
    method: &str,
    status_code: u16,
    content_type: Option<String>,
    content_language: Option<String>,
    content_length: usize,
    etag: &str,
    digests: &ContentDigests,
    blob_bucket: &str,
    blob_key: &str,
) -> (r: ArchivedResponseRecord)
    requires
        nanos < 1000000000,
    ensures
        r.crawl_id@ == crawl_id@,
        r.request_id@ == request_id@,
        r.original_url@ == original_url@,
        r.final_url@ == final_url@,
        r.timestamp@ == timestamp_str(secs, nanos),
        r.method@ == method@,
        r.status_code == status_code,
        crate::shapes::opt_str_view(r.content_type) == crate::shapes::opt_str_view(content_type),
        crate::shapes::opt_str_view(r.content_language) == crate::shapes::opt_str_view(
            content_language,
        ),
        r.content_length == content_length,
        r.etag@ == etag@,
        r.md5_base64@ == digests.md5_base64@,
        r.sha256_hex@ == digests.sha256_hex@,
        r.blob_bucket@ == blob_bucket@,
        r.blob_key@ == blob_key@,
{
    ArchivedResponseRecord {
        crawl_id: String::from_str(crawl_id),
        request_id: String::from_str(request_id),
        original_url: String::from_str(original_url),
        final_url: String::from_str(final_url),
        timestamp: format_timestamp(secs, nanos),
        method: String::from_str(method),
        status_code,
        content_type,
        content_language,
        content_length,
        etag: String::from_str(etag),
        md5_base64: digests.md5_base64.clone(),
        sha256_hex: digests.sha256_hex.clone(),
        blob_bucket: String::from_str(blob_bucket),
        blob_key: String::from_str(blob_key),
    }
}

/// Law: archival deduplicates by content, not by URL or crawl.  Two
/// byte-identical bodies derive the same blob key under the same prefix,
/// so the second fetch's probe finds the first fetch's blob and
/// [`decide_archive`] reuses it instead of uploading again — while each
/// fetch still gets its own metadata record, built unconditionally.
pub proof fn lemma_archive_dedup(prefix: Seq<char>, first: Seq<u8>, second: Seq<u8>)
    requires
        first == second,
    ensures
        prefix + hex_of(sha256_of(first)) == prefix + hex_of(sha256_of(second)),
{
}

/// Whether a status code counts as a success for a fetch: the 2xx and
/// 3xx ranges.
pub open spec fn status_is_success(status: u16) -> bool {
    200 <= status < 400
}

/// Turn a status outside the success range into the fetch's error.
pub fn check_status(status: u16, url: &str) -> (r: Result<(), CrawlError>)
    ensures
        status_is_success(status) ==> r is Ok,
        !status_is_success(status) ==> (r matches Err(e) && e matches CrawlError::HttpStatus {
            error,
        } && error.status == status && error.url@ == url@),
{
    if status >= 200 && status < 400 {
        Ok(())
    } else {
        Err(
            CrawlError::HttpStatus {
                error: crate::errors::HttpStatusError { status, url: String::from_str(url) },
            },
        )
    }
}

} // verus!
