//! Listing-page extraction, pager discovery, and step decisions.

use govscout::cookies::CookieStore;
use govscout::errors::CrawlError;
use govscout::form::Form;
use govscout::html::HtmlDocument;
use govscout::ops::{Operation, WebsOperation};
use govscout::shapes::{CrawlParameters, NextRequest};
use govscout::webs::{
    check_operation_supported, find_pager_events, find_search_url, home_url, login_url,
    parse_opportunity_listing_page, parse_pager_href, prepare_login_form, prepare_search_form,
    start_crawl_next, validate_secret, FormEvent,
};
use govscout::default_user_agent;

fn attrs(pairs: &[(&str, &str)]) -> Vec<(String, String)> {
    pairs.iter().map(|(k, v)| (k.to_string(), v.to_string())).collect()
}

fn element(doc: &mut HtmlDocument, tag: &str, pairs: &[(&str, &str)], parent: Option<usize>) -> usize {
    doc.add_node(tag.to_string(), attrs(pairs), String::new(), parent)
}

fn crawl_params() -> CrawlParameters {
    CrawlParameters {
        crawl_id: Some("test".to_string()),
        user_agent: default_user_agent(),
        cookies: CookieStore::new(),
    }
}

/// A listing page: one hundred opportunity rows with detail links, and a
/// pager row with two postback links plus a decoration to be skipped.
fn listing_page() -> HtmlDocument {
    let mut doc = HtmlDocument::new();
    let html = element(&mut doc, "html", &[], None);
    let body = element(&mut doc, "body", &[], Some(html));
    let form = element(&mut doc, "form", &[("name", "Form1"), ("id", "Form1")], Some(body));
    let table = element(&mut doc, "table", &[], Some(form));
    for i in 0..100usize {
        let class = if i % 2 == 0 { "Grid3File1" } else { "Grid3File2" };
        let tr = element(&mut doc, "tr", &[("class", class)], Some(table));
        let td = element(&mut doc, "td", &[], Some(tr));
        let href = format!("Bid_Detail.aspx?id={i}");
        element(
            &mut doc,
            "a",
            &[("class", "ctext-hyperlink"), ("href", href.as_str())],
            Some(td),
        );
    }
    let pager = element(&mut doc, "tr", &[("class", "Grid3Pager")], Some(table));
    let td = element(&mut doc, "td", &[], Some(pager));
    element(&mut doc, "span", &[], Some(td));
    element(
        &mut doc,
        "a",
        &[("href", "javascript:__doPostBack(&#39;DataGrid1$_ctl104$_ctl1&#39;,&#39;&#39;)")],
        Some(td),
    );
    element(
        &mut doc,
        "a",
        &[("href", "javascript:__doPostBack(&#39;DataGrid1$_ctl104$_ctl2&#39;,&#39;&#39;)")],
        Some(td),
    );
    // A decoration that is not a postback link: skipped, not fatal.
    element(&mut doc, "a", &[("href", "Help.aspx")], Some(td));
    doc
}

#[test]
fn page1() {
    let doc = listing_page();
    let url = "https://pr-webs-vendor.des.wa.gov/Search_Bid.aspx";
    let crawl = crawl_params();
    let mut next_requests: Vec<NextRequest> = vec![];

    parse_opportunity_listing_page(&doc, url, &crawl, &mut next_requests);
    assert_eq!(next_requests.len(), 100);

    let form_events = find_pager_events(&doc);
    assert_eq!(form_events.len(), 2);

    assert_eq!(form_events[0].target.as_str(), "DataGrid1$_ctl104$_ctl1");
    assert_eq!(form_events[0].argument.as_str(), "");
    assert_eq!(form_events[1].target.as_str(), "DataGrid1$_ctl104$_ctl2");
    assert_eq!(form_events[1].argument.as_str(), "");
}

#[test]
fn opportunity_urls_resolve_in_document_order() {
    let doc = listing_page();
    let url = "https://pr-webs-vendor.des.wa.gov/Search_Bid.aspx";
    let crawl = crawl_params();
    let mut next_requests: Vec<NextRequest> = vec![];
    parse_opportunity_listing_page(&doc, url, &crawl, &mut next_requests);
    assert_eq!(
        next_requests[0].url.as_deref(),
        Some("https://pr-webs-vendor.des.wa.gov/Bid_Detail.aspx?id=0")
    );
    assert_eq!(
        next_requests[99].url.as_deref(),
        Some("https://pr-webs-vendor.des.wa.gov/Bid_Detail.aspx?id=99")
    );
    for nr in &next_requests {
        assert!(matches!(
            nr.operation,
            Operation::Webs(WebsOperation::FetchOpportunityDetailPage)
        ));
        assert_eq!(nr.crawl.crawl_id.as_deref(), Some("test"));
    }
}

#[test]
fn test_find_search_url() {
    let mut doc = HtmlDocument::new();
    let html = element(&mut doc, "html", &[], None);
    let body = element(&mut doc, "body", &[], Some(html));
    element(
        &mut doc,
        "a",
        &[
            ("id", "leftnav_hypSearch"),
            ("class", "leftnav-hyperlink"),
            ("href", "Search_Bid.aspx"),
        ],
        Some(body),
    );
    let search_url = find_search_url(&doc, "https://www.example.com/").unwrap();
    assert_eq!(search_url.as_str(), "https://www.example.com/Search_Bid.aspx");
}

#[test]
fn find_search_url_falls_back_to_default_path() {
    let mut doc = HtmlDocument::new();
    element(&mut doc, "html", &[], None);
    let search_url = find_search_url(&doc, "https://www.example.com/Home.aspx").unwrap();
    assert_eq!(search_url.as_str(), "https://www.example.com/Search_Bid.aspx");
}

#[test]
fn pager_href_shapes() {
    let ev = parse_pager_href("javascript:__doPostBack('Target1','Arg')").unwrap();
    assert_eq!(ev.target.as_str(), "Target1");
    assert_eq!(ev.argument.as_str(), "Arg");

    assert!(parse_pager_href("Help.aspx").is_none());
    assert!(parse_pager_href("javascript:__doPostBack('OnlyOne')").is_none());
    assert!(parse_pager_href("javascript:__doPostBack('A','B','C')").is_none());
    assert!(parse_pager_href("javascript:__doPostBack(A,B)").is_none());
    assert!(parse_pager_href("javascript:__doPostBack('A','B'").is_none());
}

#[test]
fn form_event_sets_postback_fields() {
    let mut doc = HtmlDocument::new();
    let html = element(&mut doc, "html", &[], None);
    let form = element(&mut doc, "form", &[("name", "Form1")], Some(html));
    element(
        &mut doc,
        "input",
        &[("type", "hidden"), ("name", "__EVENTTARGET"), ("value", "")],
        Some(form),
    );
    element(
        &mut doc,
        "input",
        &[("type", "hidden"), ("name", "__EVENTARGUMENT"), ("value", "")],
        Some(form),
    );
    let mut form = Form::from_form_name(&doc, "https://h.example.com/", "Form1").unwrap();
    let ev = FormEvent { target: "DataGrid1$_ctl104$_ctl2".to_string(), argument: String::new() };
    ev.set_form_fields(&mut form);
    assert_eq!(form.get("__EVENTTARGET").unwrap().as_str(), "DataGrid1$_ctl104$_ctl2");
    assert_eq!(form.get("__EVENTARGUMENT").unwrap().as_str(), "");
}

#[test]
fn prepare_search_form_selects_all_codes_and_counties() {
    let mut doc = HtmlDocument::new();
    let html = element(&mut doc, "html", &[], None);
    let form = element(
        &mut doc,
        "form",
        &[("name", "Form1"), ("action", "Search_Bid.aspx")],
        Some(html),
    );
    element(&mut doc, "input", &[("name", "radCommCodes"), ("value", "0")], Some(form));
    element(&mut doc, "input", &[("name", "radCounties"), ("value", "0")], Some(form));
    let form = prepare_search_form(&doc, "https://h.example.com/Search_Bid.aspx").unwrap();
    assert_eq!(form.get("radCommCodes").unwrap().as_str(), "1");
    assert_eq!(form.get("radCounties").unwrap().as_str(), "1");
}

#[test]
fn prepare_login_form_fills_credentials() {
    let mut doc = HtmlDocument::new();
    let html = element(&mut doc, "html", &[], None);
    let form = element(
        &mut doc,
        "form",
        &[("name", "Form1"), ("action", "LoginPage.aspx")],
        Some(html),
    );
    element(&mut doc, "input", &[("name", "txtEmail")], Some(form));
    element(&mut doc, "input", &[("name", "txtPassword")], Some(form));
    let form =
        prepare_login_form(&doc, "https://h.example.com/LoginPage.aspx", "user@example.com", "pw")
            .unwrap();
    assert_eq!(form.get("txtEmail").unwrap().as_str(), "user@example.com");
    assert_eq!(form.get("txtPassword").unwrap().as_str(), "pw");
}

#[test]
fn default_urls_and_validation() {
    assert_eq!(
        login_url(&None).unwrap().as_str(),
        "https://pr-webs-vendor.des.wa.gov/LoginPage.aspx"
    );
    assert_eq!(home_url(&None).unwrap().as_str(), "https://pr-webs-vendor.des.wa.gov/Home.aspx");
    assert_eq!(
        login_url(&Some("https://test.example.com/LoginPage.aspx".to_string()))
            .unwrap()
            .as_str(),
        "https://test.example.com/LoginPage.aspx"
    );
    assert!(matches!(
        login_url(&Some("not a url".to_string())),
        Err(CrawlError::Transport { .. })
    ));
}

#[test]
fn urls_are_normalized() {
    // The URL really goes through the parser: scheme and host come back
    // case-folded.
    assert_eq!(
        login_url(&Some("HTTPS://TEST.Example.com/LoginPage.aspx".to_string()))
            .unwrap()
            .as_str(),
        "https://test.example.com/LoginPage.aspx"
    );
}

#[test]
fn secret_validation() {
    assert_eq!(validate_secret("Webs/Username", Some("u".to_string())).unwrap().as_str(), "u");
    assert!(matches!(
        validate_secret("Webs/Username", Some(String::new())),
        Err(CrawlError::SecretRetrieval { .. })
    ));
    assert!(matches!(
        validate_secret("Webs/Password", None),
        Err(CrawlError::SecretRetrieval { .. })
    ));
}

#[test]
fn detail_page_operation_is_not_implemented() {
    assert!(matches!(
        check_operation_supported(Operation::Webs(WebsOperation::FetchOpportunityDetailPage)),
        Err(CrawlError::NotImplemented)
    ));
    assert!(check_operation_supported(Operation::Webs(WebsOperation::StartCrawl)).is_ok());
}

#[test]
fn login_emits_one_listing_step() {
    let jar = CookieStore::new();
    let next = start_crawl_next(
        "https://test.example.com/LoginPage.aspx",
        "crawl-1".to_string(),
        default_user_agent(),
        jar,
    );
    assert!(matches!(
        next.operation,
        Operation::Webs(WebsOperation::FetchOpportunityListingPage)
    ));
    assert_eq!(next.url.as_deref(), Some("https://test.example.com/Home.aspx"));
    assert_eq!(next.crawl.crawl_id.as_deref(), Some("crawl-1"));
}
