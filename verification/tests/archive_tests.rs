//! Archival digests, keys, decisions, and records.

use govscout::archive::{
    check_status, decide_archive, format_timestamp, plan_archive, ArchiveAction, ProbeOutcome,
};
use govscout::errors::CrawlError;

#[test]
fn digests_and_key_of_a_known_body() {
    let plan = plan_archive(b"abc", "crawl/");
    assert_eq!(
        plan.digests.sha256_hex.as_str(),
        "ba7816bf8f01cfea414140de5dae2223b00361a396177a9cb410ff61f20015ad"
    );
    assert_eq!(
        plan.digests.sha256_base64.as_str(),
        "ungWv48Bz+pBQUDeXa4iI7ADYaOWF3qctBD/YfIAFa0="
    );
    assert_eq!(plan.digests.md5_base64.as_str(), "kAFQmDzST7DWlj99KOF/cg==");
    assert_eq!(
        plan.key.as_str(),
        "crawl/ba7816bf8f01cfea414140de5dae2223b00361a396177a9cb410ff61f20015ad"
    );
}

#[test]
fn archive_dedup_same_body_same_key() {
    // Two fetches of byte-identical bodies, regardless of URL or crawl,
    // derive the same blob key; the second probe finds the first blob and
    // no second upload happens.
    let first = plan_archive(b"<html>same body</html>", "prefix/");
    let second = plan_archive(b"<html>same body</html>", "prefix/");
    assert_eq!(first.key, second.key);

    let upload = decide_archive(ProbeOutcome::NotFound).unwrap();
    assert!(matches!(upload, ArchiveAction::UploadNew));
    let reuse = decide_archive(ProbeOutcome::Found { etag: "\"e1\"".to_string() }).unwrap();
    assert!(matches!(reuse, ArchiveAction::ReuseExisting { etag } if etag.as_str() == "\"e1\""));

    let other = plan_archive(b"<html>other body</html>", "prefix/");
    assert_ne!(first.key, other.key);
}

#[test]
fn probe_failure_aborts_the_fetch() {
    let r = decide_archive(ProbeOutcome::Failed { detail: "access denied".to_string() });
    assert!(matches!(r, Err(CrawlError::ArchiveStore { detail }) if detail.as_str() == "access denied"));
}

#[test]
fn timestamps_sort_chronologically_as_text() {
    assert_eq!(format_timestamp(12, 345).as_str(), "12.000000345");
    assert_eq!(format_timestamp(0, 0).as_str(), "0.000000000");
    assert_eq!(format_timestamp(1700000000, 999999999).as_str(), "1700000000.999999999");
    let a = format_timestamp(100, 500000000);
    let b = format_timestamp(100, 600000000);
    assert!(a.as_str() < b.as_str());
}

#[test]
fn status_ranges() {
    assert!(check_status(200, "https://h.example.gov/").is_ok());
    assert!(check_status(302, "https://h.example.gov/").is_ok());
    assert!(check_status(399, "https://h.example.gov/").is_ok());
    for status in [199u16, 400, 404, 500] {
        let r = check_status(status, "https://h.example.gov/x");
        match r {
            Err(CrawlError::HttpStatus { error }) => {
                assert_eq!(error.status, status);
                assert_eq!(error.url.as_str(), "https://h.example.gov/x");
            },
            _ => panic!("status {status} accepted"),
        }
    }
}

#[test]
fn record_carries_fetch_metadata() {
    let plan = plan_archive(b"body", "p/");
    let record = govscout::archive::build_record(
        "crawl-1",
        "0192aaaa-bbbb-7ccc-8ddd-eeeeffff0000",
        "https://h.example.gov/a",
        "https://h.example.gov/b",
        1700000000,
        42,
        "GET",
        200,
        Some("text/html".to_string()),
        None,
        4,
        "\"etag\"",
        &plan.digests,
        "bucket",
        plan.key.as_str(),
    );
    assert_eq!(record.crawl_id.as_str(), "crawl-1");
    assert_eq!(record.request_id.as_str(), "0192aaaa-bbbb-7ccc-8ddd-eeeeffff0000");
    assert_eq!(record.original_url.as_str(), "https://h.example.gov/a");
    assert_eq!(record.final_url.as_str(), "https://h.example.gov/b");
    assert_eq!(record.timestamp.as_str(), "1700000000.000000042");
    assert_eq!(record.method.as_str(), "GET");
    assert_eq!(record.status_code, 200);
    assert_eq!(record.content_type.as_deref(), Some("text/html"));
    assert!(record.content_language.is_none());
    assert_eq!(record.content_length, 4);
    assert_eq!(record.etag.as_str(), "\"etag\"");
    assert_eq!(record.sha256_hex, plan.digests.sha256_hex);
    assert_eq!(record.md5_base64, plan.digests.md5_base64);
    assert_eq!(record.blob_bucket.as_str(), "bucket");
    assert_eq!(record.blob_key, plan.key);
}
