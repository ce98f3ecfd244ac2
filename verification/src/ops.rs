//! Operation tags.
//!
//! An operation is written on the wire as `SUBSYSTEM:NAME` — case-sensitive,
//! one colon.  Any other shape is a parse failure, never silently ignored.

use vstd::prelude::*;
use vstd::string::*;
use crate::errors::CrawlError;
use crate::strutil::{find_char, slice_between, str_eq};

verus! {

/// Operations of the contracting-portal subsystem.
#[derive(Clone, Copy, Debug, PartialEq, Eq, Structural)]
pub enum WebsOperation {
    /// Start a crawl by logging in.
    StartCrawl,
    /// Fetch pages of contracting opportunities.
    FetchOpportunityListingPage,
    /// Fetch one opportunity's detail page.
    FetchOpportunityDetailPage,
}

/// Every operation the crawler can perform, tagged by subsystem.
#[derive(Clone, Copy, Debug, PartialEq, Eq, Structural)]
pub enum Operation {
    /// An operation of the portal subsystem.
    Webs(WebsOperation),
}

/// The name half of a portal operation's tag.
pub open spec fn webs_op_name(op: WebsOperation) -> Seq<char> {
    match op {
        WebsOperation::StartCrawl => "StartCrawl"@,
        WebsOperation::FetchOpportunityListingPage => "FetchOpportunityListingPage"@,
        WebsOperation::FetchOpportunityDetailPage => "FetchOpportunityDetailPage"@,
    }
}

/// The subsystem half of an operation's tag.
pub open spec fn subsystem_name(op: Operation) -> Seq<char> {
    match op {
        Operation::Webs(_) => "Webs"@,
    }
}

/// The name half of an operation's tag.
pub open spec fn op_name(op: Operation) -> Seq<char> {
    match op {
        Operation::Webs(w) => webs_op_name(w),
    }
}

/// The full wire tag of an operation.
pub open spec fn op_tag(op: Operation) -> Seq<char> {
    subsystem_name(op) + seq![':'] + op_name(op)
}

/// What parsing a portal operation name yields.
pub open spec fn parse_webs_name_spec(s: Seq<char>) -> Option<WebsOperation> {
    if s == webs_op_name(WebsOperation::StartCrawl) {
        Some(WebsOperation::StartCrawl)
    } else if s == webs_op_name(WebsOperation::FetchOpportunityListingPage) {
        Some(WebsOperation::FetchOpportunityListingPage)
    } else if s == webs_op_name(WebsOperation::FetchOpportunityDetailPage) {
        Some(WebsOperation::FetchOpportunityDetailPage)
    } else {
        None
    }
}

/// What parsing a full operation tag yields: exactly the three known tags
/// parse, and nothing else.
pub open spec fn parse_operation_spec(s: Seq<char>) -> Option<Operation> {
    if s == op_tag(Operation::Webs(WebsOperation::StartCrawl)) {
        Some(Operation::Webs(WebsOperation::StartCrawl))
    } else if s == op_tag(Operation::Webs(WebsOperation::FetchOpportunityListingPage)) {
        Some(Operation::Webs(WebsOperation::FetchOpportunityListingPage))
    } else if s == op_tag(Operation::Webs(WebsOperation::FetchOpportunityDetailPage)) {
        Some(Operation::Webs(WebsOperation::FetchOpportunityDetailPage))
    } else {
        None
    }
}

/// Shape facts about a tag: four subsystem characters, a colon, the name.
proof fn lemma_tag_shape(op: Operation)
    ensures
        op_tag(op).len() >= 15,
        op_tag(op)[4] == ':',
        forall|j: int| 0 <= j < 4 ==> op_tag(op)[j] != ':',
        op_tag(op).subrange(0, 4) == "Webs"@,
        op_tag(op).subrange(5, op_tag(op).len() as int) == op_name(op),
{
    reveal_strlit("Webs");
    reveal_strlit("StartCrawl");
    reveal_strlit("FetchOpportunityListingPage");
    reveal_strlit("FetchOpportunityDetailPage");
    assert(op_tag(op).subrange(0, 4) =~= "Webs"@);
    assert(op_tag(op).subrange(5, op_tag(op).len() as int) =~= op_name(op));
    match op {
        Operation::Webs(w) => match w {
            WebsOperation::StartCrawl => {
                assert(forall|j: int| 0 <= j < 4 ==> op_tag(op)[j] == "Webs"@[j]);
            },
            WebsOperation::FetchOpportunityListingPage => {
                assert(forall|j: int| 0 <= j < 4 ==> op_tag(op)[j] == "Webs"@[j]);
            },
            WebsOperation::FetchOpportunityDetailPage => {
                assert(forall|j: int| 0 <= j < 4 ==> op_tag(op)[j] == "Webs"@[j]);
            },
        },
    }
}

/// The three known tags are pairwise distinct (their name halves have
/// different lengths).
proof fn lemma_tags_distinct()
    ensures
        op_tag(Operation::Webs(WebsOperation::StartCrawl)) != op_tag(
            Operation::Webs(WebsOperation::FetchOpportunityListingPage),
        ),
        op_tag(Operation::Webs(WebsOperation::StartCrawl)) != op_tag(
            Operation::Webs(WebsOperation::FetchOpportunityDetailPage),
        ),
        op_tag(Operation::Webs(WebsOperation::FetchOpportunityListingPage)) != op_tag(
            Operation::Webs(WebsOperation::FetchOpportunityDetailPage),
        ),
{
    reveal_strlit("Webs");
    reveal_strlit("StartCrawl");
    reveal_strlit("FetchOpportunityListingPage");
    reveal_strlit("FetchOpportunityDetailPage");
    assert(op_tag(Operation::Webs(WebsOperation::StartCrawl)).len() == 15);
    assert(op_tag(Operation::Webs(WebsOperation::FetchOpportunityListingPage)).len() == 32);
    assert(op_tag(Operation::Webs(WebsOperation::FetchOpportunityDetailPage)).len() == 31);
}

/// In a tag, the first colon sits right after the subsystem name, and what
/// follows it is the operation name.
proof fn lemma_first_colon_tag(s: Seq<char>, op: Operation, colon: int)
    requires
        s == op_tag(op),
        0 <= colon < s.len(),
        s[colon] == ':',
        forall|j: int| 0 <= j < colon ==> s[j] != ':',
    ensures
        colon == 4,
        s.subrange(0, colon) == "Webs"@,
        s.subrange(colon + 1, s.len() as int) == op_name(op),
{
    lemma_tag_shape(op);
    if colon < 4 {
        assert(s[colon] != ':');
        assert(false);
    }
    if colon > 4 {
        assert(s[4] == ':');
        assert(false);
    }
}

/// Any tag parses back to the operation it was written from.
///
/// Law: serialising an operation and parsing the result is the identity.
pub proof fn lemma_operation_tag_roundtrip(op: Operation)
    ensures
        parse_operation_spec(op_tag(op)) == Some(op),
{
    lemma_tags_distinct();
}

impl WebsOperation {
    /// Parse the name half of a portal operation tag.
    pub fn parse_name(s: &str) -> (r: Result<WebsOperation, CrawlError>)
        ensures
            match r {
                Ok(op) => parse_webs_name_spec(s@) == Some(op),
                Err(e) => {
                    &&& parse_webs_name_spec(s@) is None
                    &&& e matches CrawlError::OperationParse { tag } && tag@ == s@
                },
            },
    {
        if str_eq(s, "StartCrawl") {
            Ok(WebsOperation::StartCrawl)
        } else if str_eq(s, "FetchOpportunityListingPage") {
            Ok(WebsOperation::FetchOpportunityListingPage)
        } else if str_eq(s, "FetchOpportunityDetailPage") {
            Ok(WebsOperation::FetchOpportunityDetailPage)
        } else {
            Err(CrawlError::OperationParse { tag: String::from_str(s) })
        }
    }

    /// The operation's name within its subsystem.
    pub fn operation(&self) -> (r: &'static str)
        ensures
            r@ == webs_op_name(*self),
    {
        match self {
            WebsOperation::StartCrawl => "StartCrawl",
            WebsOperation::FetchOpportunityListingPage => "FetchOpportunityListingPage",
            WebsOperation::FetchOpportunityDetailPage => "FetchOpportunityDetailPage",
        }
    }
}

impl Operation {
    /// The subsystem half of the operation's tag.
    pub fn subsystem(&self) -> (r: &'static str)
        ensures
            r@ == subsystem_name(*self),
    {
        match self {
            Operation::Webs(_) => "Webs",
        }
    }

    /// The operation's name within its subsystem.
    pub fn operation(&self) -> (r: &'static str)
        ensures
            r@ == op_name(*self),
    {
        match self {
            Operation::Webs(w) => w.operation(),
        }
    }

    /// The full wire tag, `Subsystem:Name`.
    pub fn tag_string(&self) -> (r: String)
        ensures
            r@ == op_tag(*self),
    {
        let r = match self {
            Operation::Webs(w) => match w {
                WebsOperation::StartCrawl => String::from_str("Webs:StartCrawl"),
                WebsOperation::FetchOpportunityListingPage => String::from_str(
                    "Webs:FetchOpportunityListingPage",
                ),
                WebsOperation::FetchOpportunityDetailPage => String::from_str(
                    "Webs:FetchOpportunityDetailPage",
                ),
            },
        };
        proof {
            reveal_strlit("Webs");
            reveal_strlit("StartCrawl");
            reveal_strlit("FetchOpportunityListingPage");
            reveal_strlit("FetchOpportunityDetailPage");
            reveal_strlit("Webs:StartCrawl");
            reveal_strlit("Webs:FetchOpportunityListingPage");
            reveal_strlit("Webs:FetchOpportunityDetailPage");
            assert(r@ =~= op_tag(*self));
        }
        r
    }

    /// Parse a full operation tag.
    ///
    /// Exactly the known `Subsystem:Name` tags parse; every other string is
    /// an [`CrawlError::OperationParse`] failure.
    pub fn parse_tag(s: &str) -> (r: Result<Operation, CrawlError>)
        ensures
            match r {
                Ok(op) => parse_operation_spec(s@) == Some(op) && s@ == op_tag(op),
                Err(e) => {
                    &&& parse_operation_spec(s@) is None
                    &&& e matches CrawlError::OperationParse { tag } && tag@ == s@
                },
            },
    {
        proof {
            lemma_tag_shape(Operation::Webs(WebsOperation::StartCrawl));
            lemma_tag_shape(Operation::Webs(WebsOperation::FetchOpportunityListingPage));
            lemma_tag_shape(Operation::Webs(WebsOperation::FetchOpportunityDetailPage));
            lemma_tags_distinct();
        }
        let n = s.unicode_len();
        let colon = match find_char(s, ':', 0) {
            Some(i) => i,
            None => {
                return Err(CrawlError::OperationParse { tag: String::from_str(s) });
            },
        };
        let sub = slice_between(s, 0, colon);
        let name = slice_between(s, colon + 1, n);
        proof {
            if s@ == op_tag(Operation::Webs(WebsOperation::StartCrawl)) {
                lemma_first_colon_tag(
                    s@,
                    Operation::Webs(WebsOperation::StartCrawl),
                    colon as int,
                );
            }
            if s@ == op_tag(Operation::Webs(WebsOperation::FetchOpportunityListingPage)) {
                lemma_first_colon_tag(
                    s@,
                    Operation::Webs(WebsOperation::FetchOpportunityListingPage),
                    colon as int,
                );
            }
            if s@ == op_tag(Operation::Webs(WebsOperation::FetchOpportunityDetailPage)) {
                lemma_first_colon_tag(
                    s@,
                    Operation::Webs(WebsOperation::FetchOpportunityDetailPage),
                    colon as int,
                );
            }
        }
        if !str_eq(sub.as_str(), "Webs") {
            return Err(CrawlError::OperationParse { tag: String::from_str(s) });
        }
        match WebsOperation::parse_name(name.as_str()) {
            Ok(w) => {
                proof {
                    let op = Operation::Webs(w);
                    reveal_strlit("Webs");
                    assert(s@ =~= sub@ + seq![':'] + name@);
                    assert(s@ =~= op_tag(op));
                }
                Ok(Operation::Webs(w))
            },
            Err(_) => Err(CrawlError::OperationParse { tag: String::from_str(s) }),
        }
    }
}

} // verus!
