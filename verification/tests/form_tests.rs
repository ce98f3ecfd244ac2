//! Form discovery and field collection.

use govscout::errors::CrawlError;
use govscout::form::Form;
use govscout::html::HtmlDocument;

fn attrs(pairs: &[(&str, &str)]) -> Vec<(String, String)> {
    pairs.iter().map(|(k, v)| (k.to_string(), v.to_string())).collect()
}

fn element(doc: &mut HtmlDocument, tag: &str, pairs: &[(&str, &str)], parent: Option<usize>) -> usize {
    doc.add_node(tag.to_string(), attrs(pairs), String::new(), parent)
}

/// The login page: `Form1` with the portal's hidden postback fields, the
/// credential fields, and an image-type submit input.
fn login_page() -> HtmlDocument {
    let mut doc = HtmlDocument::new();
    let html = element(&mut doc, "html", &[], None);
    let body = element(&mut doc, "body", &[], Some(html));
    let form = element(
        &mut doc,
        "form",
        &[("name", "Form1"), ("method", "post"), ("action", "LoginPage.aspx")],
        Some(body),
    );
    element(
        &mut doc,
        "input",
        &[("type", "hidden"), ("name", "__EVENTTARGET"), ("value", "EventTarget")],
        Some(form),
    );
    element(
        &mut doc,
        "input",
        &[("type", "hidden"), ("name", "__EVENTARGUMENT"), ("value", "EventArgument")],
        Some(form),
    );
    element(
        &mut doc,
        "input",
        &[("type", "hidden"), ("name", "__VIEWSTATE"), ("value", "ViewState")],
        Some(form),
    );
    element(
        &mut doc,
        "input",
        &[("type", "hidden"), ("name", "__VIEWSTATEGENERATOR"), ("value", "ViewStateGenerator")],
        Some(form),
    );
    element(
        &mut doc,
        "input",
        &[("type", "hidden"), ("name", "__EVENTVALIDATION"), ("value", "EventValidation")],
        Some(form),
    );
    let table = element(&mut doc, "table", &[], Some(form));
    let tr = element(&mut doc, "tr", &[], Some(table));
    let td = element(&mut doc, "td", &[], Some(tr));
    element(&mut doc, "input", &[("type", "text"), ("name", "txtEmail")], Some(td));
    element(&mut doc, "input", &[("type", "password"), ("name", "txtPassword")], Some(td));
    element(
        &mut doc,
        "input",
        &[("type", "image"), ("name", "Image1"), ("width", "63"), ("height", "15")],
        Some(td),
    );
    doc
}

#[test]
fn webs_parse() {
    let doc = login_page();
    let base_url = "https://domain1.example.com/gateway.html";
    let form = Form::from_form_name(&doc, base_url, "Form1").unwrap();
    assert_eq!(form.url.as_str(), "https://domain1.example.com/LoginPage.aspx");
    assert_eq!(form.method.as_str(), "POST");

    assert_eq!(form.get("txtEmail").unwrap().as_str(), "");
    assert_eq!(form.get("txtPassword").unwrap().as_str(), "");
    assert_eq!(form.get("__EVENTTARGET").unwrap().as_str(), "EventTarget");
    assert_eq!(form.get("__EVENTARGUMENT").unwrap().as_str(), "EventArgument");
    assert_eq!(form.get("__VIEWSTATE").unwrap().as_str(), "ViewState");
    assert_eq!(form.get("__VIEWSTATEGENERATOR").unwrap().as_str(), "ViewStateGenerator");
    assert_eq!(form.get("__EVENTVALIDATION").unwrap().as_str(), "EventValidation");
    assert_eq!(form.get("Image1.x").unwrap().as_str(), "63");
    assert_eq!(form.get("Image1.y").unwrap().as_str(), "15");
    assert!(form.get("Image1").is_none());
}

#[test]
fn form_not_found() {
    let doc = login_page();
    let r = Form::from_form_name(&doc, "https://domain1.example.com/", "Form2");
    assert!(matches!(r, Err(CrawlError::FormNotFound { .. })));
}

#[test]
fn unresolvable_action_is_element_not_found() {
    let mut doc = HtmlDocument::new();
    let html = element(&mut doc, "html", &[], None);
    element(&mut doc, "form", &[("name", "Form1"), ("action", "x.aspx")], Some(html));
    let r = Form::from_form_name(&doc, "not a base url", "Form1");
    assert!(matches!(r, Err(CrawlError::ElementNotFound { .. })));
}

#[test]
fn missing_action_submits_to_base_url() {
    let mut doc = HtmlDocument::new();
    let html = element(&mut doc, "html", &[], None);
    element(&mut doc, "form", &[("name", "Form1")], Some(html));
    let form = Form::from_form_name(&doc, "https://domain1.example.com/page.html", "Form1").unwrap();
    assert_eq!(form.url.as_str(), "https://domain1.example.com/page.html");
    assert_eq!(form.method.as_str(), "POST");
}

#[test]
fn form_attribute_scoping() {
    let mut doc = HtmlDocument::new();
    let html = element(&mut doc, "html", &[], None);
    let form = element(
        &mut doc,
        "form",
        &[("name", "Form1"), ("id", "f1"), ("action", "x.aspx")],
        Some(html),
    );
    // Nested, no form attribute: collected.
    element(&mut doc, "input", &[("name", "inside"), ("value", "a")], Some(form));
    // Nested but owned by a different form: excluded.
    element(
        &mut doc,
        "input",
        &[("name", "foreign"), ("value", "b"), ("form", "f2")],
        Some(form),
    );
    // Outside the form but owned by it: collected.
    element(
        &mut doc,
        "input",
        &[("name", "outside"), ("value", "c"), ("form", "f1")],
        Some(html),
    );
    // Outside without a form attribute: excluded.
    element(&mut doc, "input", &[("name", "stray"), ("value", "d")], Some(html));
    // Submit and reset inputs contribute nothing.
    element(
        &mut doc,
        "input",
        &[("type", "submit"), ("name", "go"), ("value", "Go")],
        Some(form),
    );
    element(
        &mut doc,
        "input",
        &[("type", "reset"), ("name", "clear"), ("value", "Clear")],
        Some(form),
    );
    // A textarea contributes its text content.
    let ta_attrs = attrs(&[("name", "notes")]);
    doc.add_node("textarea".to_string(), ta_attrs, "hello".to_string(), Some(form));

    let form = Form::from_form_name(&doc, "https://h.example.com/", "Form1").unwrap();
    assert_eq!(form.get("inside").unwrap().as_str(), "a");
    assert!(form.get("foreign").is_none());
    assert_eq!(form.get("outside").unwrap().as_str(), "c");
    assert!(form.get("stray").is_none());
    assert!(form.get("go").is_none());
    assert!(form.get("clear").is_none());
    assert_eq!(form.get("notes").unwrap().as_str(), "hello");
}

#[test]
fn invalid_method_token_is_rejected() {
    let mut doc = HtmlDocument::new();
    let html = element(&mut doc, "html", &[], None);
    element(&mut doc, "form", &[("name", "Form1"), ("method", "a b")], Some(html));
    let r = Form::from_form_name(&doc, "https://h.example.com/", "Form1");
    assert!(matches!(r, Err(CrawlError::ElementNotFound { .. })));

    // An unusual but valid token method passes, upper-cased.
    let mut doc = HtmlDocument::new();
    let html = element(&mut doc, "html", &[], None);
    element(&mut doc, "form", &[("name", "Form1"), ("method", "m-custom.1")], Some(html));
    let form = Form::from_form_name(&doc, "https://h.example.com/", "Form1").unwrap();
    assert_eq!(form.method.as_str(), "M-CUSTOM.1");
}

#[test]
fn submitted_list_holds_each_name_once() {
    let mut doc = HtmlDocument::new();
    let html = element(&mut doc, "html", &[], None);
    let form = element(&mut doc, "form", &[("name", "Form1")], Some(html));
    element(&mut doc, "input", &[("name", "dup"), ("value", "first")], Some(form));
    element(&mut doc, "input", &[("name", "dup"), ("value", "second")], Some(form));
    element(&mut doc, "input", &[("name", "other"), ("value", "x")], Some(form));
    let mut form = Form::from_form_name(&doc, "https://h.example.com/", "Form1").unwrap();

    // The submitted list itself carries one pair per name: a shadowed
    // duplicate would corrupt the portal's postback fields.
    let count = |f: &Form, n: &str| f.fields.iter().filter(|p| p.0.as_str() == n).count();
    assert_eq!(count(&form, "dup"), 1);
    assert_eq!(form.get("dup").unwrap().as_str(), "second");

    form.set("dup", "third");
    assert_eq!(count(&form, "dup"), 1);
    assert_eq!(form.get("dup").unwrap().as_str(), "third");
    assert_eq!(form.fields.len(), 2);
    form.set("fresh", "1");
    assert_eq!(form.fields.len(), 3);
    assert_eq!(count(&form, "fresh"), 1);
}

#[test]
fn last_write_wins_and_set_reports_replacement() {
    let mut doc = HtmlDocument::new();
    let html = element(&mut doc, "html", &[], None);
    let form = element(&mut doc, "form", &[("name", "Form1")], Some(html));
    element(&mut doc, "input", &[("name", "dup"), ("value", "first")], Some(form));
    element(&mut doc, "input", &[("name", "dup"), ("value", "second")], Some(form));
    let mut form = Form::from_form_name(&doc, "https://h.example.com/", "Form1").unwrap();
    assert_eq!(form.get("dup").unwrap().as_str(), "second");

    assert!(form.set("dup", "third"));
    assert_eq!(form.get("dup").unwrap().as_str(), "third");
    assert!(!form.set("fresh", "1"));
    assert_eq!(form.get("fresh").unwrap().as_str(), "1");
}
