//! Batch aggregation and outbound batching.

use govscout::cookies::CookieStore;
use govscout::default_user_agent;
use govscout::dispatch::{aggregate_outcomes, chunk_next_requests, outbound_entry};
use govscout::errors::CrawlError;
use govscout::ops::{Operation, WebsOperation};
use govscout::shapes::{CrawlParameters, NextRequest, Response};

fn step(i: usize) -> NextRequest {
    NextRequest {
        operation: Operation::Webs(WebsOperation::FetchOpportunityDetailPage),
        url: Some(format!("https://h.example.gov/Bid_Detail.aspx?id={i}")),
        crawl: CrawlParameters {
            crawl_id: Some("c".to_string()),
            user_agent: default_user_agent(),
            cookies: CookieStore::new(),
        },
    }
}

fn ok_outcome(reqs: Vec<NextRequest>) -> Result<Response, CrawlError> {
    Ok(Response { next_requests: reqs })
}

#[test]
fn one_failure_surfaces_that_error_and_schedules_nothing() {
    let outcomes = vec![
        ok_outcome(vec![step(0), step(1)]),
        Err(CrawlError::FormNotFound { name: "Form1".to_string() }),
        ok_outcome(vec![step(2)]),
    ];
    let r = aggregate_outcomes(outcomes);
    match r {
        Err(CrawlError::FormNotFound { name }) => assert_eq!(name.as_str(), "Form1"),
        _ => panic!("expected the single step failure"),
    }
}

#[test]
fn several_failures_collapse_to_a_count() {
    let outcomes = vec![
        Err(CrawlError::NotImplemented),
        ok_outcome(vec![step(0)]),
        Err(CrawlError::Transport { detail: "dns".to_string() }),
    ];
    let r = aggregate_outcomes(outcomes);
    assert!(matches!(r, Err(CrawlError::AggregateFailure { count: 2 })));
}

#[test]
fn success_collects_all_steps_in_order() {
    let outcomes = vec![
        ok_outcome(vec![step(0), step(1)]),
        ok_outcome(vec![]),
        ok_outcome(vec![step(2)]),
    ];
    let collected = aggregate_outcomes(outcomes).unwrap();
    assert_eq!(collected.len(), 3);
    for (i, nr) in collected.iter().enumerate() {
        assert_eq!(
            nr.url.as_deref(),
            Some(format!("https://h.example.gov/Bid_Detail.aspx?id={i}").as_str())
        );
    }
}

#[test]
fn twenty_three_steps_make_three_batches() {
    let outcomes = vec![ok_outcome((0..23).map(step).collect())];
    let collected = aggregate_outcomes(outcomes).unwrap();
    assert_eq!(collected.len(), 23);
    let batches = chunk_next_requests(collected);
    assert_eq!(batches.len(), 3);
    assert_eq!(batches[0].len(), 10);
    assert_eq!(batches[1].len(), 10);
    assert_eq!(batches[2].len(), 3);
    // Nothing lost or reordered.
    let mut i = 0usize;
    for batch in &batches {
        for nr in batch {
            assert_eq!(
                nr.url.as_deref(),
                Some(format!("https://h.example.gov/Bid_Detail.aspx?id={i}").as_str())
            );
            i += 1;
        }
    }
}

#[test]
fn empty_and_exact_batches() {
    assert_eq!(chunk_next_requests(vec![]).len(), 0);
    let batches = chunk_next_requests((0..10).map(step).collect());
    assert_eq!(batches.len(), 1);
    assert_eq!(batches[0].len(), 10);
}

#[test]
fn error_messages_name_the_failure() {
    assert_eq!(
        CrawlError::FormNotFound { name: "Form1".to_string() }.message().as_str(),
        "form not found: Form1"
    );
    assert_eq!(
        CrawlError::Transport { detail: "dns".to_string() }.message().as_str(),
        "transport failure: dns"
    );
    assert_eq!(CrawlError::NotImplemented.message().as_str(), "operation not implemented");
    assert_eq!(CrawlError::AggregateFailure { count: 3 }.message().as_str(), "multiple errors");
}

#[test]
fn entries_carry_routing_attributes_and_trace_id() {
    let e = outbound_entry(step(7), &Some("Root=1-abc".to_string()));
    assert_eq!(e.subsystem.as_str(), "Webs");
    assert_eq!(e.operation.as_str(), "FetchOpportunityDetailPage");
    assert_eq!(e.trace_header.as_deref(), Some("Root=1-abc"));
    assert_eq!(e.body.url.as_deref(), Some("https://h.example.gov/Bid_Detail.aspx?id=7"));

    let e = outbound_entry(step(8), &None);
    assert!(e.trace_header.is_none());
}
