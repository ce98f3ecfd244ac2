//! The contracting portal's operations.
//!
//! Each operation consumes one crawl step and decides what to fetch or
//! submit next.  The fetches themselves happen outside; the functions
//! here make every decision in between: which URL a step works on, how
//! the login and search forms are filled, which opportunity rows and
//! pager postback events a listing page yields, and what follow-up steps
//! come out.

use vstd::prelude::*;
use vstd::string::*;
use crate::cookies::CookieStore;
use crate::errors::CrawlError;
use crate::form::{find_form, form_fields, form_method_spec, form_url_spec, is_method_token, Form};
use crate::html::{
    get_attr, has_class, is_desc, is_descendant, node_attr, node_has_class, HtmlDocument,
    HtmlNode,
};
use crate::ops::{Operation, WebsOperation};
use crate::shapes::{crawl_view, nr_view, opt_str_view, CrawlParameters, NextRequest};
use crate::strutil::{ends_with, replace_spec, replace_all, slice_between, split_on, split_spec, starts_with, str_eq};
use crate::urls::{
    join_url, normalize_url, url_host, url_host_of, url_join, url_normalize, url_scheme,
    url_scheme_of,
};

verus! {

/// The two hidden values a postback pagination link encodes.
#[derive(Debug)]
pub struct FormEvent {
    /// The control that triggered the postback.
    pub target: String,
    /// The control's argument, frequently empty.
    pub argument: String,
}

/// A list of form events as plain values.
pub open spec fn events_view(s: Seq<FormEvent>) -> Seq<(Seq<char>, Seq<char>)> {
    s.map_values(|e: FormEvent| (e.target@, e.argument@))
}

impl FormEvent {
    /// Inject the event into the two hidden postback fields of a form.
    pub fn set_form_fields(&self, form: &mut Form)
        requires
            old(form).wf(),
        ensures
            final(form).wf(),
            final(form).fields_view() == old(form).fields_view().insert(
                "__EVENTTARGET"@,
                self.target@,
            ).insert("__EVENTARGUMENT"@, self.argument@),
            final(form).id == old(form).id,
            final(form).method == old(form).method,
            final(form).url == old(form).url,
    {
        form.set("__EVENTTARGET", self.target.as_str());
        form.set("__EVENTARGUMENT", self.argument.as_str());
    }
}

/// Reject the one operation that is deliberately unimplemented: a step
/// asking for an opportunity detail page must fail loudly, never succeed
/// silently.
pub fn check_operation_supported(op: Operation) -> (r: Result<(), CrawlError>)
    ensures
        match r {
            Ok(_) => op != Operation::Webs(WebsOperation::FetchOpportunityDetailPage),
            Err(e) => e is NotImplemented && op == Operation::Webs(
                WebsOperation::FetchOpportunityDetailPage,
            ),
        },
{
    match op {
        Operation::Webs(WebsOperation::FetchOpportunityDetailPage) => Err(
            CrawlError::NotImplemented,
        ),
        _ => Ok(()),
    }
}

/// The URL a step works on: the step's own, or the given default.
pub open spec fn requested_url(url: Option<Seq<char>>, default: Seq<char>) -> Seq<char> {
    match url {
        Some(u) => u,
        None => default,
    }
}

/// The URL the login step fetches: the step's URL, or the portal's login
/// page; it must parse as an absolute URL.
pub fn login_url(url: &Option<String>) -> (r: Result<String, CrawlError>)
    ensures
        ({
            let want = requested_url(opt_str_view(*url), "https://pr-webs-vendor.des.wa.gov/LoginPage.aspx"@);
            match r {
                Ok(u) => url_normalize(want) == Some(u@),
                Err(e) => url_normalize(want) is None && e matches CrawlError::Transport { .. },
            }
        }),
{
    let want = match url {
        Some(u) => u.clone(),
        None => String::from_str("https://pr-webs-vendor.des.wa.gov/LoginPage.aspx"),
    };
    match normalize_url(want.as_str()) {
        Some(u) => Ok(u),
        None => Err(CrawlError::Transport { detail: want }),
    }
}

/// The URL the listing step starts from: the step's URL, or the portal's
/// home page; it must parse as an absolute URL.
pub fn home_url(url: &Option<String>) -> (r: Result<String, CrawlError>)
    ensures
        ({
            let want = requested_url(opt_str_view(*url), "https://pr-webs-vendor.des.wa.gov/Home.aspx"@);
            match r {
                Ok(u) => url_normalize(want) == Some(u@),
                Err(e) => url_normalize(want) is None && e matches CrawlError::Transport { .. },
            }
        }),
{
    let want = match url {
        Some(u) => u.clone(),
        None => String::from_str("https://pr-webs-vendor.des.wa.gov/Home.aspx"),
    };
    match normalize_url(want.as_str()) {
        Some(u) => Ok(u),
        None => Err(CrawlError::Transport { detail: want }),
    }
}

/// A retrieved secret is usable only when present and non-empty.
pub fn validate_secret(name: &str, value: Option<String>) -> (r: Result<String, CrawlError>)
    ensures
        match r {
            Ok(s) => opt_str_view(value) == Some(s@) && s@.len() > 0,
            Err(e) => {
                &&& match value {
                    Some(v) => v@.len() == 0,
                    None => true,
                }
                &&& e matches CrawlError::SecretRetrieval { name: n } && n@ == name@
            },
        },
{
    match value {
        Some(v) => {
            if v.as_str().unicode_len() > 0 {
                Ok(v)
            } else {
                Err(CrawlError::SecretRetrieval { name: String::from_str(name) })
            }
        },
        None => Err(CrawlError::SecretRetrieval { name: String::from_str(name) }),
    }
}

/// What a correctly prepared login form looks like: the page's `Form1`
/// with the credential fields overwritten.
pub open spec fn login_form_ok(
    doc: Seq<HtmlNode>,
    f: int,
    base: Seq<char>,
    username: Seq<char>,
    password: Seq<char>,
    form: Form,
) -> bool {
    &&& form.method@ == form_method_spec(doc[f])
    &&& Some(form.url@) == form_url_spec(doc[f], base)
    &&& form.fields_view() == form_fields(doc, f, node_attr(doc[f], "id"@)).insert(
        "txtEmail"@,
        username,
    ).insert("txtPassword"@, password)
}

/// Fill the login page's form with the portal credentials.
pub fn prepare_login_form(
    doc: &HtmlDocument,
    page_url: &str,
    username: &str,
    password: &str,
) -> (r: Result<Form, CrawlError>)
    requires
        doc.wf(),
    ensures
        match r {
            Ok(form) => find_form(doc.nodes@, "Form1"@) matches Some(f) && login_form_ok(
                doc.nodes@,
                f,
                page_url@,
                username@,
                password@,
                form,
            ) && form.wf(),
            Err(e) => match find_form(doc.nodes@, "Form1"@) {
                None => e matches CrawlError::FormNotFound { .. },
                Some(f) => (form_url_spec(doc.nodes@[f], page_url@) is None
                    || !is_method_token(form_method_spec(doc.nodes@[f]))) && e matches
                    CrawlError::ElementNotFound { .. },
            },
        },
{
    let mut form = match Form::from_form_name(doc, page_url, "Form1") {
        Ok(form) => form,
        Err(e) => {
            return Err(e);
        },
    };
    form.set("txtEmail", username);
    form.set("txtPassword", password);
    Ok(form)
}

/// What a correctly prepared search form looks like: the listing page's
/// `Form1` asking for every commodity code and every county.
pub open spec fn search_form_ok(doc: Seq<HtmlNode>, f: int, base: Seq<char>, form: Form) -> bool {
    &&& form.method@ == form_method_spec(doc[f])
    &&& Some(form.url@) == form_url_spec(doc[f], base)
    &&& form.fields_view() == form_fields(doc, f, node_attr(doc[f], "id"@)).insert(
        "radCommCodes"@,
        "1"@,
    ).insert("radCounties"@, "1"@)
}

/// Fill the search page's form to search all commodity codes and all
/// counties.
pub fn prepare_search_form(doc: &HtmlDocument, page_url: &str) -> (r: Result<Form, CrawlError>)
    requires
        doc.wf(),
    ensures
        match r {
            Ok(form) => find_form(doc.nodes@, "Form1"@) matches Some(f) && search_form_ok(
                doc.nodes@,
                f,
                page_url@,
                form,
            ) && form.wf(),
            Err(e) => match find_form(doc.nodes@, "Form1"@) {
                None => e matches CrawlError::FormNotFound { .. },
                Some(f) => (form_url_spec(doc.nodes@[f], page_url@) is None
                    || !is_method_token(form_method_spec(doc.nodes@[f]))) && e matches
                    CrawlError::ElementNotFound { .. },
            },
        },
{
    let mut form = match Form::from_form_name(doc, page_url, "Form1") {
        Ok(form) => form,
        Err(e) => {
            return Err(e);
        },
    };
    form.set("radCommCodes", "1");
    form.set("radCounties", "1");
    Ok(form)
}

/// Whether node `j` is the home page's search-navigation link.
pub open spec fn is_search_link(doc: Seq<HtmlNode>, j: int) -> bool {
    doc[j].tag@ == "a"@ && node_attr(doc[j], "id"@) == Some("leftnav_hypSearch"@) && has_class(
        doc[j],
        "leftnav-hyperlink"@,
    )
}

/// The first search-navigation link at or after `j`, if any.
pub open spec fn find_search_link_from(doc: Seq<HtmlNode>, j: int) -> Option<int>
    decreases doc.len() - j,
    when 0 <= j <= doc.len()
{
    if j >= doc.len() {
        None
    } else if is_search_link(doc, j) {
        Some(j)
    } else {
        find_search_link_from(doc, j + 1)
    }
}

/// The search URL the home page denotes: the navigation link's `href`
/// resolved against the page's URL; with no usable link, the well-known
/// search path.
pub open spec fn search_url_spec(doc: Seq<HtmlNode>, base: Seq<char>) -> Option<Seq<char>> {
    match find_search_link_from(doc, 0) {
        Some(j) => match node_attr(doc[j], "href"@) {
            Some(h) => url_join(base, h),
            None => url_join(base, "/Search_Bid.aspx"@),
        },
        None => url_join(base, "/Search_Bid.aspx"@),
    }
}

/// Find the "Search Opportunities" URL on the home page, falling back to
/// the portal's well-known search path when the link is missing.
pub fn find_search_url(doc: &HtmlDocument, base_url: &str) -> (r: Result<String, CrawlError>)
    requires
        doc.wf(),
    ensures
        match r {
            Ok(u) => search_url_spec(doc.nodes@, base_url@) == Some(u@),
            Err(e) => search_url_spec(doc.nodes@, base_url@) is None && e matches
                CrawlError::ElementNotFound { .. },
        },
{
    let found = find_search_link_index(doc);
    let href: Option<String> = match found {
        Some(j) => get_attr(&doc.nodes[j], "href"),
        None => None,
    };
    let target = match &href {
        Some(h) => join_url(base_url, h.as_str()),
        None => join_url(base_url, "/Search_Bid.aspx"),
    };
    match target {
        Some(u) => Ok(u),
        None => Err(
            CrawlError::ElementNotFound { detail: String::from_str("search link") },
        ),
    }
}

/// Find the home page's search-navigation link, if it is present.
fn find_search_link_index(doc: &HtmlDocument) -> (r: Option<usize>)
    requires
        doc.wf(),
    ensures
        match r {
            Some(j) => j < doc.nodes@.len() && find_search_link_from(doc.nodes@, 0) == Some(
                j as int,
            ),
            None => find_search_link_from(doc.nodes@, 0) is None,
        },
{
    let n = doc.nodes.len();
    let mut i: usize = 0;
    while i < n
        invariant
            i <= n,
            n == doc.nodes@.len(),
            find_search_link_from(doc.nodes@, 0) == find_search_link_from(doc.nodes@, i as int),
        decreases n - i,
    {
        let node = &doc.nodes[i];
        let hit = str_eq(node.tag.as_str(), "a") && (match get_attr(node, "id") {
            Some(v) => str_eq(v.as_str(), "leftnav_hypSearch"),
            None => false,
        }) && node_has_class(node, "leftnav-hyperlink");
        proof {
            assert(hit == is_search_link(doc.nodes@, i as int));
        }
        if hit {
            return Some(i);
        }
        i = i + 1;
    }
    None
}

/// The home page URL the crawl moves to after login: the login URL's own
/// scheme and host when it has them, else the portal's default, with the
/// home path appended.
pub open spec fn home_url_after_login(login: Seq<char>) -> Seq<char> {
    match (url_scheme(login), url_host(login)) {
        (Some(s), Some(h)) => s + "://"@ + h + "/Home.aspx"@,
        _ => "https://pr-webs-vendor.des.wa.gov/Home.aspx"@,
    }
}

/// The single follow-up step a successful login emits: fetch the first
/// opportunity listing page, under the crawl's id and the authenticated
/// cookie jar.
pub fn start_crawl_next(
    login_url: &str,
    crawl_id: String,
    user_agent: String,
    cookies: CookieStore,
) -> (r: NextRequest)
    ensures
        r.operation == Operation::Webs(WebsOperation::FetchOpportunityListingPage),
        opt_str_view(r.url) == Some(home_url_after_login(login_url@)),
        crawl_view(r.crawl) == (Some(crawl_id@), user_agent@, cookies.cookies@),
{
    let scheme = url_scheme_of(login_url);
    let host = url_host_of(login_url);
    let url: String = match (scheme, host) {
        (Some(s), Some(h)) => {
            let mut u = s;
            u.append("://");
            u.append(h.as_str());
            u.append("/Home.aspx");
            proof {
                reveal_strlit("://");
                reveal_strlit("/Home.aspx");
            }
            u
        },
        _ => String::from_str("https://pr-webs-vendor.des.wa.gov/Home.aspx"),
    };
    NextRequest {
        operation: Operation::Webs(WebsOperation::FetchOpportunityListingPage),
        url: Some(url),
        crawl: CrawlParameters { crawl_id: Some(crawl_id), user_agent, cookies },
    }
}

/// Whether a split part is a single-quoted literal.
pub open spec fn quoted(s: Seq<char>) -> bool {
    s.len() >= 2 && s[0] == '\'' && s.last() == '\''
}

/// A quoted part without its quotes.
pub open spec fn unquote(s: Seq<char>) -> Seq<char> {
    s.subrange(1, s.len() - 1)
}

/// The postback event a pager link's `href` encodes, if it has exactly
/// the expected shape: the literal `javascript:__doPostBack(` prefix and
/// `)` suffix around two single-quoted literals separated by one comma,
/// with any entity-encoded apostrophes decoded first.
pub open spec fn pager_event_of(href: Seq<char>) -> Option<(Seq<char>, Seq<char>)> {
    let pre = "javascript:__doPostBack("@;
    if !(pre.len() < href.len() && href.subrange(0, pre.len() as int) == pre && href.last()
        == ')') {
        None
    } else {
        let inner = href.subrange(pre.len() as int, href.len() - 1);
        let dec = replace_spec(inner, "&#39;"@, "'"@);
        let parts = split_spec(dec, ',');
        if parts.len() != 2 {
            None
        } else if quoted(parts[0]) && quoted(parts[1]) {
            Some((unquote(parts[0]), unquote(parts[1])))
        } else {
            None
        }
    }
}

/// Parse one pager link's `href` into its postback event, if it has the
/// expected shape.
pub fn parse_pager_href(href: &str) -> (r: Option<FormEvent>)
    ensures
        match r {
            Some(ev) => pager_event_of(href@) == Some((ev.target@, ev.argument@)),
            None => pager_event_of(href@) is None,
        },
{
    proof {
        reveal_strlit("javascript:__doPostBack(");
        reveal_strlit(")");
        reveal_strlit("&#39;");
        reveal_strlit("'");
    }
    let n = href.unicode_len();
    let plen = "javascript:__doPostBack(".unicode_len();
    if !(starts_with(href, "javascript:__doPostBack(") && ends_with(href, ")") && n > plen) {
        proof {
            if n >= 1 {
                assert(href@.subrange(n as int - 1, n as int) =~= seq![href@[n as int - 1]]);
                if href@[n as int - 1] == ')' {
                    assert(href@.subrange(n as int - 1, n as int) =~= ")"@);
                }
            }
        }
        return None;
    }
    proof {
        assert(href@.subrange(n as int - 1, n as int) =~= seq![href@[n as int - 1]]);
        assert(")"@[0] == ')');
        assert(href@[n as int - 1] == ')');
        assert(href@.last() == ')');
    }
    let inner = slice_between(href, plen, n - 1);
    let dec = replace_all(inner.as_str(), "&#39;", "'");
    let parts = split_on(dec.as_str(), ',');
    if parts.len() != 2 {
        return None;
    }
    proof {
        assert(parts.deep_view()[0] == parts@[0]@);
        assert(parts.deep_view()[1] == parts@[1]@);
    }
    let a = &parts[0];
    let b = &parts[1];
    let alen = a.as_str().unicode_len();
    let blen = b.as_str().unicode_len();
    if !(alen >= 2 && a.as_str().get_char(0) == '\'' && a.as_str().get_char(alen - 1) == '\'') {
        return None;
    }
    if !(blen >= 2 && b.as_str().get_char(0) == '\'' && b.as_str().get_char(blen - 1) == '\'') {
        return None;
    }
    let target = slice_between(a.as_str(), 1, alen - 1);
    let argument = slice_between(b.as_str(), 1, blen - 1);
    Some(FormEvent { target, argument })
}

/// Whether node `t` is a pager row.
pub open spec fn is_pager_row(doc: Seq<HtmlNode>, t: int) -> bool {
    doc[t].tag@ == "tr"@ && has_class(doc[t], "Grid3Pager"@)
}

/// What link node `j` contributes to pager row `t`: its decoded postback
/// event, when it is an anchor inside the row whose `href` has the
/// postback shape.  Links of any other shape are skipped, not fatal.
pub open spec fn link_contribution(doc: Seq<HtmlNode>, t: int, j: int) -> Seq<
    (Seq<char>, Seq<char>),
> {
    if is_desc(doc, t, j) && doc[j].tag@ == "a"@ {
        match node_attr(doc[j], "href"@) {
            Some(h) => match pager_event_of(h) {
                Some(ev) => seq![ev],
                None => Seq::empty(),
            },
            None => Seq::empty(),
        }
    } else {
        Seq::empty()
    }
}

/// The events of pager row `t` among the first `j` nodes, in document
/// order.
pub open spec fn row_events_upto(doc: Seq<HtmlNode>, t: int, j: int) -> Seq<
    (Seq<char>, Seq<char>),
>
    decreases j,
    when j >= 0
{
    if j <= 0 {
        Seq::empty()
    } else {
        row_events_upto(doc, t, j - 1) + link_contribution(doc, t, j - 1)
    }
}

/// The pager events of the first `k` nodes' pager rows, in document
/// order, row by row.
pub open spec fn pager_events_upto(doc: Seq<HtmlNode>, k: int) -> Seq<(Seq<char>, Seq<char>)>
    decreases k,
    when k >= 0
{
    if k <= 0 {
        Seq::empty()
    } else {
        pager_events_upto(doc, k - 1) + if is_pager_row(doc, k - 1) {
            row_events_upto(doc, k - 1, doc.len() as int)
        } else {
            Seq::empty()
        }
    }
}

/// Every postback pagination event a listing page encodes, in document
/// order.
pub open spec fn pager_events(doc: Seq<HtmlNode>) -> Seq<(Seq<char>, Seq<char>)> {
    pager_events_upto(doc, doc.len() as int)
}

/// Discover the page's postback pagination events: within each pager
/// row, every anchor whose `href` has the postback shape, in document
/// order.
pub fn find_pager_events(doc: &HtmlDocument) -> (r: Vec<FormEvent>)
    requires
        doc.wf(),
    ensures
        events_view(r@) == pager_events(doc.nodes@),
{
    let n = doc.nodes.len();
    let mut out: Vec<FormEvent> = Vec::new();
    let mut k: usize = 0;
    proof {
        assert(events_view(out@) =~= pager_events_upto(doc.nodes@, 0));
    }
    while k < n
        invariant
            k <= n,
            n == doc.nodes@.len(),
            doc.wf(),
            events_view(out@) == pager_events_upto(doc.nodes@, k as int),
        decreases n - k,
    {
        let row = &doc.nodes[k];
        let is_row = str_eq(row.tag.as_str(), "tr") && node_has_class(row, "Grid3Pager");
        proof {
            reveal_strlit("tr");
            assert(is_row == is_pager_row(doc.nodes@, k as int));
        }
        if is_row {
            let mut j: usize = 0;
            while j < n
                invariant
                    j <= n,
                    k < n,
                    n == doc.nodes@.len(),
                    doc.wf(),
                    is_pager_row(doc.nodes@, k as int),
                    events_view(out@) == pager_events_upto(doc.nodes@, k as int)
                        + row_events_upto(doc.nodes@, k as int, j as int),
                decreases n - j,
            {
                let link = &doc.nodes[j];
                let is_link = is_descendant(doc, k, j) && str_eq(link.tag.as_str(), "a");
                proof {
                    reveal_strlit("a");
                }
                if is_link {
                    match get_attr(link, "href") {
                        Some(h) => {
                            proof {
                                reveal_strlit("href");
                            }
                            match parse_pager_href(h.as_str()) {
                                Some(ev) => {
                                    let ghost out0 = out@;
                                    out.push(ev);
                                    proof {
                                        assert(out@.drop_last() =~= out0);
                                        assert(events_view(out@) =~= events_view(out0)
                                            + link_contribution(
                                            doc.nodes@,
                                            k as int,
                                            j as int,
                                        ));
                                    }
                                },
                                None => {},
                            }
                        },
                        None => {},
                    }
                }
                proof {
                    assert(events_view(out@) =~= pager_events_upto(doc.nodes@, k as int)
                        + row_events_upto(doc.nodes@, k as int, j as int + 1));
                }
                j = j + 1;
            }
        }
        proof {
            assert(events_view(out@) =~= pager_events_upto(doc.nodes@, k as int + 1));
        }
        k = k + 1;
    }
    out
}

/// Whether node `t` is an opportunity row: a `tr` carrying either of the
/// two listing row styles.
pub open spec fn is_opp_row(doc: Seq<HtmlNode>, t: int) -> bool {
    doc[t].tag@ == "tr"@ && (has_class(doc[t], "Grid3File1"@) || has_class(
        doc[t],
        "Grid3File2"@,
    ))
}

/// Whether node `j` is an opportunity row's detail link.
pub open spec fn is_opp_link(doc: Seq<HtmlNode>, t: int, j: int) -> bool {
    is_desc(doc, t, j) && doc[j].tag@ == "a"@ && has_class(doc[j], "ctext-hyperlink"@)
}

/// The first detail link of row `t` at or after `j`, if any.
pub open spec fn opp_link_from(doc: Seq<HtmlNode>, t: int, j: int) -> Option<int>
    decreases doc.len() - j,
    when 0 <= j <= doc.len()
{
    if j >= doc.len() {
        None
    } else if is_opp_link(doc, t, j) {
        Some(j)
    } else {
        opp_link_from(doc, t, j + 1)
    }
}

/// The detail URL an opportunity row yields: its first detail link's
/// `href` resolved against the page's URL.  A row without a usable link,
/// or whose URL does not resolve, is skipped.
pub open spec fn row_opp_url(doc: Seq<HtmlNode>, t: int, page: Seq<char>) -> Option<Seq<char>> {
    match opp_link_from(doc, t, 0) {
        Some(j) => match node_attr(doc[j], "href"@) {
            Some(h) => url_join(page, h),
            None => None,
        },
        None => None,
    }
}

/// The detail URLs of the first `k` nodes' opportunity rows, in document
/// order.
pub open spec fn opp_urls_upto(doc: Seq<HtmlNode>, page: Seq<char>, k: int) -> Seq<Seq<char>>
    decreases k,
    when k >= 0
{
    if k <= 0 {
        Seq::empty()
    } else {
        opp_urls_upto(doc, page, k - 1) + if is_opp_row(doc, k - 1) {
            match row_opp_url(doc, k - 1, page) {
                Some(u) => seq![u],
                None => Seq::empty(),
            }
        } else {
            Seq::empty()
        }
    }
}

/// Every opportunity detail URL a listing page yields, in document order.
pub open spec fn opp_urls(doc: Seq<HtmlNode>, page: Seq<char>) -> Seq<Seq<char>> {
    opp_urls_upto(doc, page, doc.len() as int)
}

/// Find row `t`'s first detail link.
fn find_opp_link(doc: &HtmlDocument, t: usize) -> (r: Option<usize>)
    requires
        doc.wf(),
        t < doc.nodes@.len(),
    ensures
        match r {
            Some(j) => j < doc.nodes@.len() && opp_link_from(doc.nodes@, t as int, 0) == Some(
                j as int,
            ),
            None => opp_link_from(doc.nodes@, t as int, 0) is None,
        },
{
    let n = doc.nodes.len();
    let mut j: usize = 0;
    while j < n
        invariant
            j <= n,
            t < n,
            n == doc.nodes@.len(),
            doc.wf(),
            opp_link_from(doc.nodes@, t as int, 0) == opp_link_from(
                doc.nodes@,
                t as int,
                j as int,
            ),
        decreases n - j,
    {
        let link = &doc.nodes[j];
        let hit = is_descendant(doc, t, j) && str_eq(link.tag.as_str(), "a") && node_has_class(
            link,
            "ctext-hyperlink",
        );
        proof {
            reveal_strlit("a");
            assert(hit == is_opp_link(doc.nodes@, t as int, j as int));
        }
        if hit {
            return Some(j);
        }
        j = j + 1;
    }
    None
}

/// Extract the page's opportunity rows and append one detail-page step
/// per opportunity, in document order, each carrying the crawl's
/// parameters unchanged.  No URL is deduplicated here: content-addressed
/// archival is the real dedup boundary.
pub fn parse_opportunity_listing_page(
    doc: &HtmlDocument,
    page_url: &str,
    crawl: &CrawlParameters,
    next_requests: &mut Vec<NextRequest>,
)
    requires
        doc.wf(),
    ensures
        final(next_requests)@.len() == old(next_requests)@.len() + opp_urls(
            doc.nodes@,
            page_url@,
        ).len(),
        final(next_requests)@.subrange(0, old(next_requests)@.len() as int) == old(
            next_requests,
        )@,
        forall|i: int|
            0 <= i < opp_urls(doc.nodes@, page_url@).len() ==> nr_view(
                #[trigger] final(next_requests)@[old(next_requests)@.len() + i],
            ) == (
                Operation::Webs(WebsOperation::FetchOpportunityDetailPage),
                Some(opp_urls(doc.nodes@, page_url@)[i]),
                crawl_view(*crawl),
            ),
{
    let ghost base = next_requests@.len() as int;
    let ghost pv = page_url@;
    let n = doc.nodes.len();
    let mut k: usize = 0;
    while k < n
        invariant
            k <= n,
            n == doc.nodes@.len(),
            doc.wf(),
            next_requests@.len() == base + opp_urls_upto(doc.nodes@, pv, k as int).len(),
            next_requests@.subrange(0, base) == old(next_requests)@,
            pv == page_url@,
            base == old(next_requests)@.len(),
            forall|i: int|
                0 <= i < opp_urls_upto(doc.nodes@, pv, k as int).len() ==> nr_view(
                    #[trigger] next_requests@[base + i],
                ) == (
                    Operation::Webs(WebsOperation::FetchOpportunityDetailPage),
                    Some(opp_urls_upto(doc.nodes@, pv, k as int)[i]),
                    crawl_view(*crawl),
                ),
        decreases n - k,
    {
        let row = &doc.nodes[k];
        let is_row = str_eq(row.tag.as_str(), "tr") && (node_has_class(row, "Grid3File1")
            || node_has_class(row, "Grid3File2"));
        proof {
            reveal_strlit("tr");
            assert(is_row == is_opp_row(doc.nodes@, k as int));
        }
        if is_row {
            match find_opp_link(doc, k) {
                Some(j) => {
                    match get_attr(&doc.nodes[j], "href") {
                        Some(h) => {
                            proof {
                                reveal_strlit("href");
                            }
                            match join_url(page_url, h.as_str()) {
                                Some(u) => {
                                    let ghost nr0 = next_requests@;
                                    next_requests.push(
                                        NextRequest {
                                            operation: Operation::Webs(
                                                WebsOperation::FetchOpportunityDetailPage,
                                            ),
                                            url: Some(u),
                                            crawl: crawl.clone(),
                                        },
                                    );
                                    proof {
                                        assert(next_requests@.drop_last() =~= nr0);
                                        assert(next_requests@.subrange(0, base)
                                            =~= nr0.subrange(0, base));
                                    }
                                },
                                None => {},
                            }
                        },
                        None => {},
                    }
                },
                None => {},
            }
        }
        proof {
            let up1 = opp_urls_upto(doc.nodes@, pv, k as int + 1);
            let up0 = opp_urls_upto(doc.nodes@, pv, k as int);
            assert(next_requests@.len() == base + up1.len());
            assert forall|i: int| 0 <= i < up1.len() implies nr_view(
                #[trigger] next_requests@[base + i],
            ) == (
                Operation::Webs(WebsOperation::FetchOpportunityDetailPage),
                Some(up1[i]),
                crawl_view(*crawl),
            ) by {
                if i < up0.len() {
                    assert(up1[i] == up0[i]);
                }
            }
        }
        k = k + 1;
    }
    proof {
        assert(next_requests@.subrange(0, base) =~= old(next_requests)@);
    }
}

} // verus!
