//! Aggregation and batching of a dispatched batch of crawl steps.
//!
//! The surrounding program runs one task per inbound step and hands the
//! outcomes back here.  Aggregation either collects every emitted next
//! step, or surfaces the single underlying error, or — when several steps
//! failed at once — a generic aggregate failure that keeps only the count.
//! Collected steps are then cut into outbound groups of at most ten.

use vstd::prelude::*;
use vstd::string::*;
use crate::errors::CrawlError;
use crate::ops::{op_name, subsystem_name, Operation};
use crate::shapes::{NextRequest, Response};

verus! {

/// How many entries one outbound group may hold.
pub const MAX_BATCH_SIZE: usize = 10;

/// How many of the outcomes failed.
pub open spec fn error_count(s: Seq<Result<Response, CrawlError>>) -> nat
    decreases s.len(),
{
    if s.len() == 0 {
        0
    } else {
        error_count(s.drop_last()) + if s.last() is Err {
            1nat
        } else {
            0nat
        }
    }
}

/// The next steps of the successful outcomes, in outcome order.
pub open spec fn oks_concat(s: Seq<Result<Response, CrawlError>>) -> Seq<NextRequest>
    decreases s.len(),
{
    if s.len() == 0 {
        Seq::empty()
    } else {
        oks_concat(s.drop_last()) + match s.last() {
            Ok(resp) => resp.next_requests@,
            Err(_) => Seq::empty(),
        }
    }
}

/// The error of the last failed outcome; when exactly one outcome failed,
/// this is that one's error.
pub open spec fn last_error(s: Seq<Result<Response, CrawlError>>) -> CrawlError
    decreases s.len(),
{
    if s.len() == 0 {
        CrawlError::NotImplemented
    } else {
        match s.last() {
            Err(e) => e,
            Ok(_) => last_error(s.drop_last()),
        }
    }
}

/// Aggregate a batch's outcomes.
///
/// With no failure, every emitted next step is collected in order.  With
/// exactly one failure, that error is the batch's failure and nothing is
/// scheduled.  With more than one, the failure is a generic aggregate
/// error that keeps only the count.
pub fn aggregate_outcomes(outcomes: Vec<Result<Response, CrawlError>>) -> (r: Result<
    Vec<NextRequest>,
    CrawlError,
>)
    ensures
        error_count(outcomes@) == 0 ==> (r matches Ok(v) && v@ == oks_concat(outcomes@)),
        error_count(outcomes@) == 1 ==> (r matches Err(e) && e == last_error(outcomes@)),
        error_count(outcomes@) >= 2 ==> (r matches Err(e) && e == (CrawlError::AggregateFailure {
            count: error_count(outcomes@) as usize,
        })),
{
    let ghost orig = outcomes@;
    let mut outcomes = outcomes;
    let mut next: Vec<NextRequest> = Vec::new();
    let mut err_count: usize = 0;
    let mut last_err: Option<CrawlError> = None;
    let n = outcomes.len();
    let mut k: usize = 0;
    proof {
        assert(orig.subrange(0, 0) =~= Seq::<Result<Response, CrawlError>>::empty());
        assert(orig.subrange(0, n as int) =~= orig);
    }
    while k < n
        invariant
            k <= n,
            n == orig.len(),
            outcomes@ == orig.subrange(k as int, n as int),
            err_count == error_count(orig.subrange(0, k as int)),
            err_count <= k,
            next@ == oks_concat(orig.subrange(0, k as int)),
            match last_err {
                Some(e) => err_count > 0 && e == last_error(orig.subrange(0, k as int)),
                None => err_count == 0,
            },
        decreases n - k,
    {
        let ghost pre = orig.subrange(0, k as int);
        let ghost ext = orig.subrange(0, k as int + 1);
        proof {
            assert(ext.drop_last() =~= pre);
            assert(ext.last() == orig[k as int]);
        }
        let outcome = outcomes.remove(0);
        proof {
            assert(outcome == orig[k as int]);
            assert(outcomes@ =~= orig.subrange(k as int + 1, n as int));
        }
        match outcome {
            Ok(resp) => {
                let mut emitted = resp.next_requests;
                next.append(&mut emitted);
            },
            Err(e) => {
                err_count = err_count + 1;
                last_err = Some(e);
            },
        }
        k = k + 1;
    }
    proof {
        assert(orig.subrange(0, n as int) =~= orig);
    }
    if err_count == 0 {
        Ok(next)
    } else if err_count == 1 {
        match last_err {
            Some(e) => Err(e),
            None => Err(CrawlError::AggregateFailure { count: 1 }),
        }
    } else {
        Err(CrawlError::AggregateFailure { count: err_count })
    }
}

/// The concatenation of a list of chunks.
pub open spec fn chunks_concat(s: Seq<Vec<NextRequest>>) -> Seq<NextRequest>
    decreases s.len(),
{
    if s.len() == 0 {
        Seq::empty()
    } else {
        chunks_concat(s.drop_last()) + s.last()@
    }
}

/// Cut the collected next steps into outbound groups: every group holds
/// at most ten, every group but the last exactly ten, nothing is lost or
/// reordered, and the group count is the least possible.
pub fn chunk_next_requests(reqs: Vec<NextRequest>) -> (r: Vec<Vec<NextRequest>>)
    ensures
        chunks_concat(r@) == reqs@,
        forall|i: int| 0 <= i < r@.len() ==> 0 < #[trigger] r@[i]@.len() <= MAX_BATCH_SIZE,
        forall|i: int| 0 <= i < r@.len() - 1 ==> #[trigger] r@[i]@.len() == MAX_BATCH_SIZE,
        r@.len() == (reqs@.len() + MAX_BATCH_SIZE - 1) / (MAX_BATCH_SIZE as int),
{
    let ghost orig = reqs@;
    let mut reqs = reqs;
    let mut out: Vec<Vec<NextRequest>> = Vec::new();
    let mut cur: Vec<NextRequest> = Vec::new();
    let n = reqs.len();
    let mut k: usize = 0;
    proof {
        assert(orig.subrange(0, 0) =~= Seq::<NextRequest>::empty());
        assert(chunks_concat(out@) + cur@ =~= orig.subrange(0, 0));
        assert(orig.subrange(0, n as int) =~= orig);
    }
    while k < n
        invariant
            k <= n,
            n == orig.len(),
            reqs@ == orig.subrange(k as int, n as int),
            chunks_concat(out@) + cur@ == orig.subrange(0, k as int),
            cur@.len() < MAX_BATCH_SIZE,
            forall|i: int| 0 <= i < out@.len() ==> #[trigger] out@[i]@.len() == MAX_BATCH_SIZE,
            k == out@.len() * (MAX_BATCH_SIZE as int) + cur@.len(),
        decreases n - k,
    {
        let nr = reqs.remove(0);
        proof {
            assert(nr == orig[k as int]);
            assert(reqs@ =~= orig.subrange(k as int + 1, n as int));
        }
        cur.push(nr);
        proof {
            assert(orig.subrange(0, k as int + 1) =~= orig.subrange(0, k as int) + seq![
                orig[k as int],
            ]);
            assert(chunks_concat(out@) + cur@ =~= orig.subrange(0, k as int + 1));
        }
        if cur.len() == MAX_BATCH_SIZE {
            let ghost out0 = out@;
            let ghost cur0 = cur@;
            out.push(cur);
            cur = Vec::new();
            proof {
                assert(out@.drop_last() =~= out0);
                assert(chunks_concat(out@) =~= chunks_concat(out0) + cur0);
                assert(chunks_concat(out@) + cur@ =~= chunks_concat(out@));
            }
        }
        k = k + 1;
    }
    if cur.len() > 0 {
        let ghost out0 = out@;
        let ghost cur0 = cur@;
        out.push(cur);
        proof {
            assert(out@.drop_last() =~= out0);
            assert(chunks_concat(out@) =~= chunks_concat(out0) + cur0);
        }
    } else {
        proof {
            assert(chunks_concat(out@) + cur@ =~= chunks_concat(out@));
        }
    }
    out
}

/// One outbound queue entry: a next step with its routing attributes and
/// the propagated trace-correlation id, if the invocation carried one.
#[derive(Debug)]
pub struct OutboundEntry {
    /// The step itself, to be written as the entry's body.
    pub body: NextRequest,
    /// Routing attribute: the step's subsystem.
    pub subsystem: String,
    /// Routing attribute: the step's operation name.
    pub operation: String,
    /// The inbound invocation's trace-correlation id, if present.
    pub trace_header: Option<String>,
}

/// Attach routing attributes and the trace id to one next step.
pub fn outbound_entry(body: NextRequest, trace_id: &Option<String>) -> (r: OutboundEntry)
    ensures
        r.body == body,
        r.subsystem@ == subsystem_name(body.operation),
        r.operation@ == op_name(body.operation),
        crate::shapes::opt_str_view(r.trace_header) == crate::shapes::opt_str_view(*trace_id),
{
    let subsystem = String::from_str(body.operation.subsystem());
    let operation = String::from_str(body.operation.operation());
    let trace_header = match trace_id {
        Some(t) => Some(t.clone()),
        None => None,
    };
    OutboundEntry { body, subsystem, operation, trace_header }
}

} // verus!
