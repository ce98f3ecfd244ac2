//! Operation tag parsing and serialization.

use govscout::errors::CrawlError;
use govscout::ops::{Operation, WebsOperation};

#[test]
fn ser_operation() {
    let op = Operation::Webs(WebsOperation::StartCrawl);
    assert_eq!(op.tag_string().as_str(), "Webs:StartCrawl");
}

#[test]
fn tag_strings_of_all_operations() {
    assert_eq!(
        Operation::Webs(WebsOperation::FetchOpportunityListingPage).tag_string().as_str(),
        "Webs:FetchOpportunityListingPage"
    );
    assert_eq!(
        Operation::Webs(WebsOperation::FetchOpportunityDetailPage).tag_string().as_str(),
        "Webs:FetchOpportunityDetailPage"
    );
}

#[test]
fn operation_tag_round_trip() {
    let ops = vec![
        Operation::Webs(WebsOperation::StartCrawl),
        Operation::Webs(WebsOperation::FetchOpportunityListingPage),
        Operation::Webs(WebsOperation::FetchOpportunityDetailPage),
    ];
    for op in ops {
        let tag = op.tag_string();
        let parsed = Operation::parse_tag(tag.as_str()).unwrap();
        assert_eq!(parsed, op);
    }
}

#[test]
fn parse_rejects_other_shapes() {
    let bad = vec![
        "",
        "Webs",
        "StartCrawl",
        "webs:StartCrawl",
        "Webs:startCrawl",
        "Webs:Unknown",
        "Nope:StartCrawl",
        "Webs:StartCrawl:More",
        ":StartCrawl",
        "Webs:",
    ];
    for tag in bad {
        let r = Operation::parse_tag(tag);
        assert!(matches!(r, Err(CrawlError::OperationParse { .. })), "accepted {tag}");
    }
}

#[test]
fn subsystem_and_operation_names() {
    let op = Operation::Webs(WebsOperation::FetchOpportunityListingPage);
    assert_eq!(op.subsystem(), "Webs");
    assert_eq!(op.operation(), "FetchOpportunityListingPage");
    assert_eq!(WebsOperation::StartCrawl.operation(), "StartCrawl");
}
