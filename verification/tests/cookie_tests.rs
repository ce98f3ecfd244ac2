//! Cookie jar parsing, matching, and serialization round trip.

use govscout::cookies::{
    parse_set_cookie, Cookie, CookieDomain, CookieExpiry, CookieStore, CookieStoreRwLock,
};

fn same_record(a: &Cookie, b: &Cookie) -> bool {
    let dom = |d: &CookieDomain| match d {
        CookieDomain::HostOnly(h) => (false, h.clone()),
        CookieDomain::Suffix(s) => (true, s.clone()),
    };
    a.raw_cookie == b.raw_cookie && a.name == b.name && a.value == b.value && a.path == b.path
        && a.path_specified == b.path_specified && dom(&a.domain) == dom(&b.domain)
        && a.expires == b.expires
}

#[test]
fn cookie_persistence() {
    let mut jar = CookieStore::new();
    jar.set_cookie(
        "TestCookie=Value; Domain=127.0.0.1; Expires=Sat, 31 Dec 2050 httponly",
        "127.0.0.1",
        "/",
        1000,
    );
    let records = jar.serialize_cookies(1000);
    assert_eq!(records.len(), 1);
    let c = &records[0];
    assert_eq!(c.raw_cookie.as_str(), "TestCookie=Value; Domain=127.0.0.1");
    assert_eq!(c.name.as_str(), "TestCookie");
    assert_eq!(c.value.as_str(), "Value");
    assert_eq!(c.path.as_str(), "/");
    assert!(!c.path_specified);
    assert!(matches!(&c.domain, CookieDomain::Suffix(s) if s.as_str() == "127.0.0.1"));
    assert_eq!(c.expires, CookieExpiry::SessionEnd);
}

#[test]
fn cookie_round_trip_keeps_session_cookies() {
    let mut jar = CookieStore::new();
    let now: u64 = 1_700_000_000;
    jar.set_cookie("session=abc123", "portal.example.gov", "/Home.aspx", now);
    jar.set_cookie(
        "timed=zzz; Max-Age=3600; Path=/sub",
        "portal.example.gov",
        "/Home.aspx",
        now,
    );
    jar.set_cookie("gone=old; Max-Age=0", "portal.example.gov", "/Home.aspx", now);

    let records = jar.serialize_cookies(now);
    // The expired cookie is dropped; the session-only cookie is kept.
    assert_eq!(records.len(), 2);
    assert_eq!(records[0].name.as_str(), "session");
    assert_eq!(records[0].expires, CookieExpiry::SessionEnd);
    assert_eq!(records[1].name.as_str(), "timed");
    assert_eq!(records[1].path.as_str(), "/sub");
    assert!(records[1].path_specified);
    assert_eq!(records[1].expires, CookieExpiry::AtUtc(now + 3600));

    let restored = CookieStore::from_records(&records);
    assert_eq!(restored.cookies.len(), records.len());
    for (a, b) in restored.cookies.iter().zip(records.iter()) {
        assert!(same_record(a, b));
    }
}

#[test]
fn set_cookie_parses_attributes() {
    let c = parse_set_cookie(
        "name=v; Domain=.example.gov; Path=/a/b; Max-Age=60",
        "www.example.gov",
        "/a/b/c.aspx",
        100,
    )
    .unwrap();
    assert_eq!(c.name.as_str(), "name");
    assert_eq!(c.value.as_str(), "v");
    assert!(matches!(&c.domain, CookieDomain::Suffix(s) if s.as_str() == "example.gov"));
    assert_eq!(c.path.as_str(), "/a/b");
    assert!(c.path_specified);
    assert_eq!(c.expires, CookieExpiry::AtUtc(160));
    assert_eq!(c.raw_cookie.as_str(), "name=v; Domain=example.gov");
}

#[test]
fn set_cookie_defaults() {
    let c = parse_set_cookie("k=1", "h.example.gov", "/x/y.aspx", 0).unwrap();
    assert!(matches!(&c.domain, CookieDomain::HostOnly(h) if h.as_str() == "h.example.gov"));
    assert_eq!(c.path.as_str(), "/x");
    assert!(!c.path_specified);
    assert_eq!(c.expires, CookieExpiry::SessionEnd);

    // A malformed pair is ignored.
    assert!(parse_set_cookie("justtext", "h.example.gov", "/", 0).is_none());
    assert!(parse_set_cookie("=v", "h.example.gov", "/", 0).is_none());
}

#[test]
fn expires_dates() {
    // A fixed-form HTTP date gives an absolute expiry.
    let c = parse_set_cookie(
        "k=1; Expires=Sun, 01 Jan 2023 00:00:00 GMT",
        "h.example.gov",
        "/",
        0,
    )
    .unwrap();
    assert_eq!(c.expires, CookieExpiry::AtUtc(1672531200));

    let c = parse_set_cookie(
        "k=1; Expires=Sat, 31 Dec 2050 23:59:59 GMT",
        "h.example.gov",
        "/",
        0,
    )
    .unwrap();
    assert_eq!(c.expires, CookieExpiry::AtUtc(2556143999));

    // A leap day parses; Max-Age takes precedence over Expires.
    let c = parse_set_cookie(
        "k=1; Expires=Tue, 29 Feb 2000 00:00:00 GMT; Max-Age=5",
        "h.example.gov",
        "/",
        100,
    )
    .unwrap();
    assert_eq!(c.expires, CookieExpiry::AtUtc(105));
    let c = parse_set_cookie(
        "k=1; Expires=Tue, 29 Feb 2000 00:00:00 GMT",
        "h.example.gov",
        "/",
        100,
    )
    .unwrap();
    assert_eq!(c.expires, CookieExpiry::AtUtc(951782400));

    // The two-digit-year and padded-day date forms parse too.
    let c = parse_set_cookie(
        "k=1; Expires=Sunday, 06-Nov-94 08:49:37 GMT",
        "h.example.gov",
        "/",
        0,
    )
    .unwrap();
    assert_eq!(c.expires, CookieExpiry::AtUtc(784111777));
    let c = parse_set_cookie(
        "k=1; Expires=Sun Nov  6 08:49:37 1994",
        "h.example.gov",
        "/",
        0,
    )
    .unwrap();
    assert_eq!(c.expires, CookieExpiry::AtUtc(784111777));
    let c = parse_set_cookie(
        "k=1; Expires=Fri Dec 25 13:00:05 2037",
        "h.example.gov",
        "/",
        0,
    )
    .unwrap();
    assert_eq!(c.expires, CookieExpiry::AtUtc(2145358805));

    // An unparsable date leaves the cookie session-scoped; a pre-epoch
    // date is already expired.
    let c = parse_set_cookie("k=1; Expires=tomorrow", "h.example.gov", "/", 0).unwrap();
    assert_eq!(c.expires, CookieExpiry::SessionEnd);
    let c = parse_set_cookie(
        "k=1; Expires=Wed, 29 Feb 1995 00:00:00 GMT",
        "h.example.gov",
        "/",
        0,
    )
    .unwrap();
    assert_eq!(c.expires, CookieExpiry::SessionEnd);
    let c = parse_set_cookie(
        "k=1; Expires=Thu, 01 Jan 1960 00:00:00 GMT",
        "h.example.gov",
        "/",
        0,
    )
    .unwrap();
    assert_eq!(c.expires, CookieExpiry::AtUtc(0));
}

#[test]
fn replacement_by_name_domain_and_path() {
    let mut jar = CookieStore::new();
    jar.set_cookie("a=1", "h.example.gov", "/", 0);
    jar.set_cookie("a=2", "h.example.gov", "/", 0);
    jar.set_cookie("b=3", "h.example.gov", "/", 0);
    assert_eq!(jar.cookies.len(), 2);
    assert_eq!(jar.cookies[0].value.as_str(), "2");
    assert_eq!(jar.cookies[1].name.as_str(), "b");
}

#[test]
fn request_header_matches_domain_and_path() {
    let mut jar = CookieStore::new();
    jar.set_cookie("host=1", "www.example.gov", "/", 0);
    jar.set_cookie("wide=2; Domain=example.gov", "www.example.gov", "/", 0);
    jar.set_cookie("deep=3; Path=/private", "www.example.gov", "/", 0);

    // Exact host, root path: host-only and suffix cookies apply.
    let h = jar.cookie_header_value("www.example.gov", "/", 0).unwrap();
    assert_eq!(h.as_str(), "host=1; wide=2");

    // A sibling host under the suffix gets only the domain cookie.
    let h = jar.cookie_header_value("other.example.gov", "/", 0).unwrap();
    assert_eq!(h.as_str(), "wide=2");

    // An unrelated host gets nothing.
    assert!(jar.cookie_header_value("example.com", "/", 0).is_none());

    // The path-scoped cookie appears only under its path.
    let h = jar.cookie_header_value("www.example.gov", "/private/page.aspx", 0).unwrap();
    assert_eq!(h.as_str(), "host=1; wide=2; deep=3");
}

#[test]
fn expired_cookies_are_not_sent() {
    let mut jar = CookieStore::new();
    jar.set_cookie("t=1; Max-Age=10", "h.example.gov", "/", 100);
    assert!(jar.cookie_header_value("h.example.gov", "/", 105).is_some());
    assert!(jar.cookie_header_value("h.example.gov", "/", 110).is_none());
}

#[test]
fn locked_jar_ingests_and_reads() {
    let jar = CookieStoreRwLock::from_store(CookieStore::new());
    let headers = vec!["s=1".to_string(), "t=2; Path=/".to_string()];
    jar.set_cookies(&headers, "h.example.gov", "/", 0);
    let header = jar.cookie_header_value("h.example.gov", "/", 0).unwrap();
    assert_eq!(header.as_str(), "s=1; t=2");
    let snapshot = jar.snapshot();
    assert_eq!(snapshot.cookies.len(), 2);
}
