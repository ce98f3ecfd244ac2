//! A serializable cookie jar.
//!
//! A crawl's browsing session spans many short process lifetimes, so the
//! jar must survive being written into a crawl step and read back by a
//! process with no memory of having set it.  For that reason session-only
//! cookies are serialized like any other: only cookies already expired at
//! serialization time are dropped.
//!
//! `Set-Cookie` header values are parsed into [`Cookie`] records scoped to
//! the request's host and path; `Cookie` request headers are assembled from
//! the records that match a URL's host and path.

use vstd::prelude::*;
use vstd::string::*;
use vstd::rwlock::{RwLock, RwLockPredicate};
use crate::strutil::{
    all_digits, dec_val, ends_with, first_idx, first_index, lower_spec, parse_u64,
    slice_between, split_on, split_spec, starts_with, str_eq, to_ascii_lower, trim_spaces,
    trim_spec,
};

verus! {

/// When a cookie stops being sent.
#[derive(Clone, Copy, Debug, PartialEq, Eq, Structural)]
pub enum CookieExpiry {
    /// The cookie lasts until the logical crawl ends; it is serialized
    /// like any other.
    SessionEnd,
    /// The cookie expires at this many seconds past the Unix epoch.
    AtUtc(u64),
}

/// How a cookie's domain is matched against a request host.
#[derive(Debug)]
pub enum CookieDomain {
    /// Only the exact host the cookie came from.
    HostOnly(String),
    /// The given suffix and any host under it.
    Suffix(String),
}

/// One cookie record, as it is carried in a crawl step.
#[derive(Debug)]
pub struct Cookie {
    /// The name=value pair and the domain attribute, re-serialized.
    pub raw_cookie: String,
    /// The cookie's name.
    pub name: String,
    /// The cookie's value.
    pub value: String,
    /// The path the cookie applies to.
    pub path: String,
    /// Whether the path came from a `Path` attribute rather than from the
    /// request URL.
    pub path_specified: bool,
    /// The domain matcher.
    pub domain: CookieDomain,
    /// When the cookie expires.
    pub expires: CookieExpiry,
}

/// A domain matcher as a plain value: whether it is a suffix matcher, and
/// its characters.
pub open spec fn domain_view(d: CookieDomain) -> (bool, Seq<char>) {
    match d {
        CookieDomain::HostOnly(h) => (false, h@),
        CookieDomain::Suffix(s) => (true, s@),
    }
}

/// What identifies a cookie inside a jar: name, domain and path.
pub open spec fn cookie_key(c: Cookie) -> (Seq<char>, (bool, Seq<char>), Seq<char>) {
    (c.name@, domain_view(c.domain), c.path@)
}

/// Whether `c` is still live at time `now`.
pub open spec fn unexpired(c: Cookie, now: u64) -> bool {
    match c.expires {
        CookieExpiry::SessionEnd => true,
        CookieExpiry::AtUtc(t) => t > now,
    }
}

/// One cookie record as plain values: every field the jar keeps.
pub struct CookieView {
    /// The re-serialized raw cookie.
    pub raw_cookie: Seq<char>,
    /// The cookie's name.
    pub name: Seq<char>,
    /// The cookie's value.
    pub value: Seq<char>,
    /// The path.
    pub path: Seq<char>,
    /// Whether the path came from a `Path` attribute.
    pub path_specified: bool,
    /// The domain matcher as plain values.
    pub domain: (bool, Seq<char>),
    /// When the cookie expires.
    pub expires: CookieExpiry,
}

/// A record as plain values.
pub open spec fn cookie_rec(c: Cookie) -> CookieView {
    CookieView {
        raw_cookie: c.raw_cookie@,
        name: c.name@,
        value: c.value@,
        path: c.path@,
        path_specified: c.path_specified,
        domain: domain_view(c.domain),
        expires: c.expires,
    }
}

/// The jar's records as plain values, in order.
pub open spec fn jar_view(s: Seq<Cookie>) -> Seq<CookieView> {
    s.map_values(|c: Cookie| cookie_rec(c))
}

/// A record's key as plain values.
pub open spec fn view_key(v: CookieView) -> (Seq<char>, (bool, Seq<char>), Seq<char>) {
    (v.name, v.domain, v.path)
}

impl Clone for CookieDomain {
    /// Clones preserve the matcher exactly.
    fn clone(&self) -> (r: Self)
        ensures
            r == *self,
    {
        match self {
            CookieDomain::HostOnly(h) => CookieDomain::HostOnly(h.clone()),
            CookieDomain::Suffix(s) => CookieDomain::Suffix(s.clone()),
        }
    }
}

impl Clone for Cookie {
    /// Clones preserve every field exactly.
    fn clone(&self) -> (r: Self)
        ensures
            r == *self,
    {
        Cookie {
            raw_cookie: self.raw_cookie.clone(),
            name: self.name.clone(),
            value: self.value.clone(),
            path: self.path.clone(),
            path_specified: self.path_specified,
            domain: self.domain.clone(),
            expires: self.expires,
        }
    }
}

/// The parts of a `Set-Cookie` value, split on semicolons.
pub open spec fn sc_parts(h: Seq<char>) -> Seq<Seq<char>> {
    split_spec(h, ';')
}

/// The name=value pair: everything before the first semicolon.
pub open spec fn sc_pair(h: Seq<char>) -> Seq<char> {
    sc_parts(h)[0]
}

/// The cookie name: the trimmed text before the pair's first `=`.
pub open spec fn sc_name(h: Seq<char>) -> Seq<char> {
    trim_spec(sc_pair(h).subrange(0, first_idx(sc_pair(h), '=')))
}

/// The cookie value: the trimmed text after the pair's first `=`.
pub open spec fn sc_value(h: Seq<char>) -> Seq<char> {
    trim_spec(sc_pair(h).subrange(first_idx(sc_pair(h), '=') + 1, sc_pair(h).len() as int))
}

/// A header is malformed when its pair has no `=` or an empty name.
pub open spec fn sc_malformed(h: Seq<char>) -> bool {
    first_idx(sc_pair(h), '=') == sc_pair(h).len() || sc_name(h).len() == 0
}

/// An attribute part's name: trimmed, case-folded, before any `=`.
pub open spec fn attr_name_of(p: Seq<char>) -> Seq<char> {
    lower_spec(trim_spec(p.subrange(0, first_idx(p, '='))))
}

/// An attribute part's value: trimmed, after the `=`; empty for a
/// valueless attribute.
pub open spec fn attr_value_of(p: Seq<char>) -> Seq<char> {
    if first_idx(p, '=') == p.len() {
        Seq::empty()
    } else {
        trim_spec(p.subrange(first_idx(p, '=') + 1, p.len() as int))
    }
}

/// The value of the last attribute named `name`, if any: a later
/// attribute overrides an earlier one.
pub open spec fn attr_val(attrs: Seq<Seq<char>>, name: Seq<char>) -> Option<Seq<char>>
    decreases attrs.len(),
{
    if attrs.len() == 0 {
        None
    } else if attr_name_of(attrs.last()) == name {
        Some(attr_value_of(attrs.last()))
    } else {
        attr_val(attrs.drop_last(), name)
    }
}

/// The value of the header's attribute named `name`, if any.
pub open spec fn sc_attr(h: Seq<char>, name: Seq<char>) -> Option<Seq<char>> {
    attr_val(sc_parts(h).skip(1), name)
}

/// The domain matcher a header yields: a `Domain` attribute (any leading
/// dot removed) is a suffix matcher; otherwise the request host alone.
pub open spec fn sc_domain(h: Seq<char>, host: Seq<char>) -> (bool, Seq<char>) {
    match sc_attr(h, "domain"@) {
        Some(d) => if d.len() > 0 {
            if d[0] == '.' {
                (true, d.skip(1))
            } else {
                (true, d)
            }
        } else {
            (false, host)
        },
        None => (false, host),
    }
}

/// The default cookie path of a request path: its directory part, or `/`.
pub open spec fn default_path_spec(rp: Seq<char>) -> Seq<char> {
    if rp.len() == 0 || rp[0] != '/' {
        "/"@
    } else if last_slash(rp) <= 0 {
        "/"@
    } else {
        rp.subrange(0, last_slash(rp))
    }
}

/// Index of the last `/` in `s`, or `-1`.
pub open spec fn last_slash(s: Seq<char>) -> int
    decreases s.len(),
{
    if s.len() == 0 {
        -1
    } else if s.last() == '/' {
        s.len() - 1
    } else {
        last_slash(s.drop_last())
    }
}

/// The path a header yields, and whether it came from a `Path` attribute.
pub open spec fn sc_path(h: Seq<char>, rp: Seq<char>) -> (Seq<char>, bool) {
    match sc_attr(h, "path"@) {
        Some(p) => if p.len() > 0 && p[0] == '/' {
            (p, true)
        } else {
            (default_path_spec(rp), false)
        },
        None => (default_path_spec(rp), false),
    }
}

/// The expiry an `Expires` attribute alone yields: the parsed HTTP
/// date, or session scope when absent or unparsable.
pub open spec fn expires_expiry(o: Option<Seq<char>>) -> CookieExpiry {
    match o {
        Some(d) => match crate::dates::http_date_spec(d) {
            Some(t) => CookieExpiry::AtUtc(t),
            None => CookieExpiry::SessionEnd,
        },
        None => CookieExpiry::SessionEnd,
    }
}

/// The expiry a header yields.  A digit-only `Max-Age` counts from `now`,
/// saturating, and takes precedence; otherwise an `Expires` date in any
/// of the three fixed HTTP forms decides; anything else leaves the
/// cookie session-scoped.
pub open spec fn sc_expiry(h: Seq<char>, now: u64) -> CookieExpiry {
    match sc_attr(h, "max-age"@) {
        Some(v) => if v.len() > 0 && all_digits(v) && dec_val(v) <= u64::MAX {
            if now + dec_val(v) <= u64::MAX {
                CookieExpiry::AtUtc((now + dec_val(v)) as u64)
            } else {
                CookieExpiry::AtUtc(u64::MAX)
            }
        } else {
            expires_expiry(sc_attr(h, "expires"@))
        },
        None => expires_expiry(sc_attr(h, "expires"@)),
    }
}

/// The re-serialized raw cookie: the pair, and the domain when it came
/// from an attribute.
pub open spec fn sc_raw(name: Seq<char>, value: Seq<char>, dom: (bool, Seq<char>)) -> Seq<char> {
    if dom.0 {
        name + "="@ + value + "; Domain="@ + dom.1
    } else {
        name + "="@ + value
    }
}

/// The record one well-formed `Set-Cookie` value stores, as plain
/// values, scoped to the request's host and path at time `now`.
pub open spec fn parsed_cookie_view(
    h: Seq<char>,
    host: Seq<char>,
    rp: Seq<char>,
    now: u64,
) -> CookieView {
    CookieView {
        raw_cookie: sc_raw(sc_name(h), sc_value(h), sc_domain(h, host)),
        name: sc_name(h),
        value: sc_value(h),
        path: sc_path(h, rp).0,
        path_specified: sc_path(h, rp).1,
        domain: sc_domain(h, host),
        expires: sc_expiry(h, now),
    }
}

/// [`store_spec`] at the plain-values level: `c` replaces the first
/// record sharing its key, or is appended.
pub open spec fn store_view_spec(s: Seq<CookieView>, c: CookieView) -> Seq<CookieView>
    decreases s.len(),
{
    if s.len() == 0 {
        seq![c]
    } else if view_key(s[0]) == view_key(c) {
        seq![c] + s.skip(1)
    } else {
        seq![s[0]] + store_view_spec(s.skip(1), c)
    }
}

/// The jar after merging a response's `Set-Cookie` values in order:
/// every well-formed value is stored, malformed ones are skipped, and
/// records under other keys stay as they were.
pub open spec fn merge_all(
    s: Seq<CookieView>,
    headers: Seq<Seq<char>>,
    host: Seq<char>,
    rp: Seq<char>,
    now: u64,
) -> Seq<CookieView>
    decreases headers.len(),
{
    if headers.len() == 0 {
        s
    } else {
        let s1 = if sc_malformed(headers[0]) {
            s
        } else {
            store_view_spec(s, parsed_cookie_view(headers[0], host, rp, now))
        };
        merge_all(s1, headers.skip(1), host, rp, now)
    }
}

/// The view of an optional owned string.
pub open spec fn option_view(o: Option<String>) -> Option<Seq<char>> {
    match o {
        Some(s) => Some(s@),
        None => None,
    }
}

/// Parse one `Set-Cookie` header value, scoped to the request's `host`
/// and `request_path`, at time `now`.
///
/// Returns `None` exactly on a malformed pair (no `=`, or an empty name).
pub fn parse_set_cookie(header: &str, host: &str, request_path: &str, now: u64) -> (r: Option<
    Cookie,
>)
    ensures
        match r {
            Some(c) => {
                &&& !sc_malformed(header@)
                &&& c.name@ == sc_name(header@)
                &&& c.value@ == sc_value(header@)
                &&& domain_view(c.domain) == sc_domain(header@, host@)
                &&& c.path@ == sc_path(header@, request_path@).0
                &&& c.path_specified == sc_path(header@, request_path@).1
                &&& c.expires == sc_expiry(header@, now)
                &&& c.raw_cookie@ == sc_raw(
                    sc_name(header@),
                    sc_value(header@),
                    sc_domain(header@, host@),
                )
            },
            None => sc_malformed(header@),
        },
{
    let parts = split_on(header, ';');
    let pair: &String = &parts[0];
    proof {
        assert(parts.deep_view()[0] == parts@[0]@);
        assert(pair@ == sc_pair(header@));
    }
    let plen = pair.as_str().unicode_len();
    let eq = first_index(pair.as_str(), '=');
    if eq == plen {
        return None;
    }
    let name = trim_spaces(slice_between(pair.as_str(), 0, eq).as_str());
    if name.as_str().unicode_len() == 0 {
        return None;
    }
    let value = trim_spaces(slice_between(pair.as_str(), eq + 1, plen).as_str());

    let mut domain_attr: Option<String> = None;
    let mut path_attr: Option<String> = None;
    let mut max_age_attr: Option<String> = None;
    let mut expires_attr: Option<String> = None;
    let nparts = parts.len();
    let mut k: usize = 1;
    proof {
        assert(parts.deep_view().subrange(1, 1) =~= Seq::<Seq<char>>::empty());
    }
    while k < nparts
        invariant
            1 <= k <= nparts,
            nparts == parts@.len(),
            parts.deep_view().len() == nparts,
            option_view(domain_attr) == attr_val(
                parts.deep_view().subrange(1, k as int),
                "domain"@,
            ),
            option_view(path_attr) == attr_val(parts.deep_view().subrange(1, k as int), "path"@),
            option_view(max_age_attr) == attr_val(
                parts.deep_view().subrange(1, k as int),
                "max-age"@,
            ),
            option_view(expires_attr) == attr_val(
                parts.deep_view().subrange(1, k as int),
                "expires"@,
            ),
        decreases nparts - k,
    {
        let part: &String = &parts[k];
        proof {
            assert(parts.deep_view()[k as int] == parts@[k as int]@);
        }
        let pl = part.as_str().unicode_len();
        let peq = first_index(part.as_str(), '=');
        let aname = to_ascii_lower(
            trim_spaces(slice_between(part.as_str(), 0, peq).as_str()).as_str(),
        );
        let avalue = if peq == pl {
            String::new()
        } else {
            trim_spaces(slice_between(part.as_str(), peq + 1, pl).as_str())
        };
        proof {
            assert(aname@ == attr_name_of(part@));
            assert(avalue@ == attr_value_of(part@));
        }
        if str_eq(aname.as_str(), "domain") {
            domain_attr = Some(avalue);
        } else if str_eq(aname.as_str(), "path") {
            path_attr = Some(avalue);
        } else if str_eq(aname.as_str(), "max-age") {
            max_age_attr = Some(avalue);
        } else if str_eq(aname.as_str(), "expires") {
            expires_attr = Some(avalue);
        }
        proof {
            reveal_strlit("domain");
            reveal_strlit("path");
            reveal_strlit("max-age");
            reveal_strlit("expires");
            assert("max-age"@[0] == 'm');
            assert("expires"@[0] == 'e');
            assert("max-age"@ != "expires"@);
            let pre = parts.deep_view().subrange(1, k as int);
            let ext = parts.deep_view().subrange(1, k as int + 1);
            assert(ext.drop_last() =~= pre);
            assert(ext.last() == part@);
        }
        k = k + 1;
    }
    proof {
        assert(parts.deep_view().subrange(1, nparts as int) =~= parts.deep_view().skip(1));
    }

    let domain: CookieDomain = match domain_attr {
        Some(d) => {
            let dl = d.as_str().unicode_len();
            if dl > 0 {
                if d.as_str().get_char(0) == '.' {
                    CookieDomain::Suffix(slice_between(d.as_str(), 1, dl))
                } else {
                    CookieDomain::Suffix(d)
                }
            } else {
                CookieDomain::HostOnly(String::from_str(host))
            }
        },
        None => CookieDomain::HostOnly(String::from_str(host)),
    };
    proof {
        match sc_attr(header@, "domain"@) {
            Some(d) => {
                if d.len() > 0 && d[0] == '.' {
                    assert(sc_domain(header@, host@).1 =~= d.skip(1));
                }
            },
            None => {},
        }
    }

    let (path, path_specified): (String, bool) = match path_attr {
        Some(p) => {
            let pl = p.as_str().unicode_len();
            if pl > 0 && p.as_str().get_char(0) == '/' {
                (p, true)
            } else {
                (default_path(request_path), false)
            }
        },
        None => (default_path(request_path), false),
    };

    let expires: CookieExpiry = match max_age_attr {
        Some(v) => match parse_u64(v.as_str()) {
            Some(secs) => {
                if now <= u64::MAX - secs {
                    CookieExpiry::AtUtc(now + secs)
                } else {
                    CookieExpiry::AtUtc(u64::MAX)
                }
            },
            None => expiry_from_date(&expires_attr),
        },
        None => expiry_from_date(&expires_attr),
    };

    let mut raw = name.clone();
    raw.append("=");
    raw.append(value.as_str());
    if let CookieDomain::Suffix(d) = &domain {
        raw.append("; Domain=");
        raw.append(d.as_str());
    }
    proof {
        reveal_strlit("=");
        reveal_strlit("; Domain=");
        assert(raw@ =~= sc_raw(sc_name(header@), sc_value(header@), sc_domain(header@, host@)));
    }

    Some(Cookie { raw_cookie: raw, name, value, path, path_specified, domain, expires })
}

/// The expiry an `Expires` attribute alone yields.
fn expiry_from_date(attr: &Option<String>) -> (r: CookieExpiry)
    ensures
        r == expires_expiry(option_view(*attr)),
{
    match attr {
        Some(d) => match crate::dates::http_date_to_epoch(d.as_str()) {
            Some(t) => CookieExpiry::AtUtc(t),
            None => CookieExpiry::SessionEnd,
        },
        None => CookieExpiry::SessionEnd,
    }
}

/// The default cookie path of a request path.
pub fn default_path(request_path: &str) -> (r: String)
    ensures
        r@ == default_path_spec(request_path@),
{
    let n = request_path.unicode_len();
    proof {
        reveal_strlit("/");
    }
    if n == 0 || request_path.get_char(0) != '/' {
        return String::from_str("/");
    }
    let ls = last_slash_index(request_path);
    match ls {
        Some(i) => {
            if i == 0 {
                String::from_str("/")
            } else {
                slice_between(request_path, 0, i)
            }
        },
        None => String::from_str("/"),
    }
}

/// Find the last `/`, reported as [`last_slash`].
fn last_slash_index(s: &str) -> (r: Option<usize>)
    ensures
        match r {
            Some(i) => i < s@.len() && last_slash(s@) == i,
            None => last_slash(s@) == -1,
        },
{
    let n = s.unicode_len();
    let mut i: usize = n;
    proof {
        assert(s@.subrange(0, n as int) =~= s@);
    }
    while i > 0
        invariant
            i <= n,
            n == s@.len(),
            last_slash(s@) == last_slash(s@.subrange(0, i as int)),
        decreases i,
    {
        let ghost part = s@.subrange(0, i as int);
        proof {
            assert(part.last() == s@[i as int - 1]);
            assert(part.drop_last() =~= s@.subrange(0, i as int - 1));
        }
        if s.get_char(i - 1) == '/' {
            return Some(i - 1);
        }
        i = i - 1;
    }
    proof {
        assert(s@.subrange(0, 0) =~= Seq::<char>::empty());
    }
    None
}

/// An ordered jar of cookie records with pairwise distinct keys.
#[derive(Debug)]
pub struct CookieStore {
    /// The records, in insertion order.
    pub cookies: Vec<Cookie>,
}

/// `s` with `c` stored into it: `c` replaces the first record sharing its
/// key, or is appended.
pub open spec fn store_spec(s: Seq<Cookie>, c: Cookie) -> Seq<Cookie>
    decreases s.len(),
{
    if s.len() == 0 {
        seq![c]
    } else if cookie_key(s[0]) == cookie_key(c) {
        seq![c] + s.skip(1)
    } else {
        seq![s[0]] + store_spec(s.skip(1), c)
    }
}

/// The records of `s` still live at `now`, in order.
pub open spec fn unexpired_cookies(s: Seq<Cookie>, now: u64) -> Seq<Cookie>
    decreases s.len(),
{
    if s.len() == 0 {
        Seq::empty()
    } else {
        unexpired_cookies(s.drop_last(), now) + if unexpired(s.last(), now) {
            seq![s.last()]
        } else {
            Seq::empty()
        }
    }
}

/// The records of `records` stored one after another into an empty jar.
pub open spec fn fold_store(s: Seq<Cookie>) -> Seq<Cookie>
    decreases s.len(),
{
    if s.len() == 0 {
        Seq::empty()
    } else {
        store_spec(fold_store(s.drop_last()), s.last())
    }
}

/// Whether a cookie's domain matcher accepts a request host.
pub open spec fn domain_matches(d: CookieDomain, host: Seq<char>) -> bool {
    match d {
        CookieDomain::HostOnly(h) => host == h@,
        CookieDomain::Suffix(s) => host == s@ || (host.len() > s@.len() && host.subrange(
            host.len() - s@.len(),
            host.len() as int,
        ) == s@ && host[host.len() - s@.len() - 1] == '.'),
    }
}

/// Whether a cookie path applies to a request path.
pub open spec fn path_matches(cp: Seq<char>, rp: Seq<char>) -> bool {
    rp == cp || (rp.len() > cp.len() && rp.subrange(0, cp.len() as int) == cp && ((cp.len() > 0
        && cp.last() == '/') || rp[cp.len() as int] == '/'))
}

/// Whether `c` is sent for a request to `host` at `path`, at time `now`.
pub open spec fn cookie_applies(c: Cookie, host: Seq<char>, path: Seq<char>, now: u64) -> bool {
    domain_matches(c.domain, host) && path_matches(c.path@, path) && unexpired(c, now)
}

/// The records of `s` that apply, in order.
pub open spec fn matching_cookies(s: Seq<Cookie>, host: Seq<char>, path: Seq<char>, now: u64)
    -> Seq<Cookie>
    decreases s.len(),
{
    if s.len() == 0 {
        Seq::empty()
    } else {
        matching_cookies(s.drop_last(), host, path, now) + if cookie_applies(
            s.last(),
            host,
            path,
            now,
        ) {
            seq![s.last()]
        } else {
            Seq::empty()
        }
    }
}

/// One cookie as it appears in a `Cookie` request header.
pub open spec fn pair_str(c: Cookie) -> Seq<char> {
    c.name@ + "="@ + c.value@
}

/// The `Cookie` request header for a list of applicable records.
pub open spec fn header_join(ms: Seq<Cookie>) -> Seq<char>
    decreases ms.len(),
{
    if ms.len() == 0 {
        Seq::empty()
    } else if ms.len() == 1 {
        pair_str(ms[0])
    } else {
        header_join(ms.drop_last()) + "; "@ + pair_str(ms.last())
    }
}

/// Whether `c` is still live at `now`.
pub fn is_unexpired(c: &Cookie, now: u64) -> (r: bool)
    ensures
        r == unexpired(*c, now),
{
    match c.expires {
        CookieExpiry::SessionEnd => true,
        CookieExpiry::AtUtc(t) => t > now,
    }
}

fn domain_match(d: &CookieDomain, host: &str) -> (r: bool)
    ensures
        r == domain_matches(*d, host@),
{
    match d {
        CookieDomain::HostOnly(h) => str_eq(host, h.as_str()),
        CookieDomain::Suffix(sfx) => {
            if str_eq(host, sfx.as_str()) {
                true
            } else {
                let hl = host.unicode_len();
                let sl = sfx.as_str().unicode_len();
                ends_with(host, sfx.as_str()) && hl > sl && host.get_char(hl - sl - 1) == '.'
            }
        },
    }
}

fn path_match(cp: &str, rp: &str) -> (r: bool)
    ensures
        r == path_matches(cp@, rp@),
{
    if str_eq(rp, cp) {
        return true;
    }
    let cl = cp.unicode_len();
    let rl = rp.unicode_len();
    if !(rl > cl && starts_with(rp, cp)) {
        return false;
    }
    if cl > 0 && cp.get_char(cl - 1) == '/' {
        return true;
    }
    rp.get_char(cl) == '/'
}

impl CookieStore {
    /// No two records share a key.
    pub open spec fn wf(&self) -> bool {
        forall|i: int, j: int|
            0 <= i < j < self.cookies@.len() ==> cookie_key(self.cookies@[i]) != cookie_key(
                self.cookies@[j],
            )
    }

    /// An empty jar.
    pub fn new() -> (r: Self)
        ensures
            r.cookies@.len() == 0,
            r.wf(),
    {
        CookieStore { cookies: Vec::new() }
    }

    /// Index of the first record sharing `c`'s key.
    fn find_same_key(&self, c: &Cookie) -> (r: Option<usize>)
        ensures
            match r {
                Some(i) => {
                    &&& i < self.cookies@.len()
                    &&& cookie_key(self.cookies@[i as int]) == cookie_key(*c)
                    &&& forall|j: int|
                        0 <= j < i ==> cookie_key(self.cookies@[j]) != cookie_key(*c)
                },
                None => forall|j: int|
                    0 <= j < self.cookies@.len() ==> cookie_key(self.cookies@[j]) != cookie_key(
                        *c,
                    ),
            },
    {
        let n = self.cookies.len();
        let mut i: usize = 0;
        while i < n
            invariant
                i <= n,
                n == self.cookies@.len(),
                forall|j: int| 0 <= j < i ==> cookie_key(self.cookies@[j]) != cookie_key(*c),
            decreases n - i,
        {
            let ci = &self.cookies[i];
            let keys_equal = str_eq(ci.name.as_str(), c.name.as_str()) && str_eq(
                ci.path.as_str(),
                c.path.as_str(),
            ) && match (&ci.domain, &c.domain) {
                (CookieDomain::HostOnly(a), CookieDomain::HostOnly(b)) => str_eq(
                    a.as_str(),
                    b.as_str(),
                ),
                (CookieDomain::Suffix(a), CookieDomain::Suffix(b)) => str_eq(
                    a.as_str(),
                    b.as_str(),
                ),
                _ => false,
            };
            if keys_equal {
                return Some(i);
            }
            i = i + 1;
        }
        None
    }

    /// Store `c`: replace the first record sharing its key, else append.
    pub fn store_cookie(&mut self, c: Cookie)
        requires
            old(self).wf(),
        ensures
            final(self).cookies@ == store_spec(old(self).cookies@, c),
            final(self).wf(),
    {
        let found = self.find_same_key(&c);
        match found {
            Some(i) => {
                proof {
                    lemma_store_update(self.cookies@, c, i as int);
                }
                self.cookies.set(i, c);
            },
            None => {
                proof {
                    lemma_store_append(self.cookies@, c);
                }
                self.cookies.push(c);
            },
        }
    }

    /// Merge one `Set-Cookie` header value into the jar, scoped to the
    /// request's host and path.  A malformed value leaves the jar
    /// unchanged.
    pub fn set_cookie(&mut self, header: &str, host: &str, request_path: &str, now: u64)
        requires
            old(self).wf(),
        ensures
            final(self).wf(),
            sc_malformed(header@) ==> final(self).cookies@ == old(self).cookies@,
            !sc_malformed(header@) ==> jar_view(final(self).cookies@) == store_view_spec(
                jar_view(old(self).cookies@),
                parsed_cookie_view(header@, host@, request_path@, now),
            ),
            !sc_malformed(header@) ==> exists|c: Cookie|
                {
                    &&& c.name@ == sc_name(header@)
                    &&& c.value@ == sc_value(header@)
                    &&& domain_view(c.domain) == sc_domain(header@, host@)
                    &&& c.path@ == sc_path(header@, request_path@).0
                    &&& c.path_specified == sc_path(header@, request_path@).1
                    &&& c.expires == sc_expiry(header@, now)
                    &&& c.raw_cookie@ == sc_raw(
                        sc_name(header@),
                        sc_value(header@),
                        sc_domain(header@, host@),
                    )
                    &&& final(self).cookies@ == store_spec(old(self).cookies@, c)
                },
    {
        match parse_set_cookie(header, host, request_path, now) {
            Some(c) => {
                let ghost gc = c;
                self.store_cookie(c);
                proof {
                    assert(final(self).cookies@ == store_spec(old(self).cookies@, gc));
                    assert(cookie_rec(gc) == parsed_cookie_view(
                        header@,
                        host@,
                        request_path@,
                        now,
                    ));
                    lemma_jar_view_store(old(self).cookies@, gc);
                }
            },
            None => {},
        }
    }

    /// Merge every `Set-Cookie` value of a response, in order: the jar
    /// afterwards is the in-order fold of the single-header merges.
    /// Well-formed values are stored, malformed ones skipped, and records
    /// under untouched keys stay as they were.
    pub fn set_cookies(&mut self, headers: &Vec<String>, host: &str, request_path: &str, now: u64)
        requires
            old(self).wf(),
        ensures
            final(self).wf(),
            jar_view(final(self).cookies@) == merge_all(
                jar_view(old(self).cookies@),
                headers.deep_view(),
                host@,
                request_path@,
                now,
            ),
    {
        let ghost hv = headers.deep_view();
        let ghost start = jar_view(self.cookies@);
        let n = headers.len();
        let mut i: usize = 0;
        proof {
            assert(hv.skip(0) =~= hv);
        }
        while i < n
            invariant
                i <= n,
                n == headers@.len(),
                hv == headers.deep_view(),
                hv.len() == n,
                self.wf(),
                merge_all(start, hv, host@, request_path@, now) == merge_all(
                    jar_view(self.cookies@),
                    hv.skip(i as int),
                    host@,
                    request_path@,
                    now,
                ),
                start == jar_view(old(self).cookies@),
            decreases n - i,
        {
            let ghost rest = hv.skip(i as int);
            let ghost before = jar_view(self.cookies@);
            proof {
                assert(rest[0] == hv[i as int]);
                assert(hv[i as int] == headers@[i as int]@);
                assert(rest.skip(1) =~= hv.skip(i as int + 1));
            }
            self.set_cookie(headers[i].as_str(), host, request_path, now);
            proof {
                if sc_malformed(headers@[i as int]@) {
                    assert(jar_view(self.cookies@) == before);
                }
            }
            i = i + 1;
        }
        proof {
            assert(hv.skip(n as int) =~= Seq::<Seq<char>>::empty());
        }
    }

    /// The `Cookie` request header for `host` and `path` at `now`, or
    /// `None` when no record applies.
    pub fn cookie_header_value(&self, host: &str, path: &str, now: u64) -> (r: Option<String>)
        ensures
            match r {
                Some(s) => {
                    &&& matching_cookies(self.cookies@, host@, path@, now).len() > 0
                    &&& s@ == header_join(matching_cookies(self.cookies@, host@, path@, now))
                },
                None => matching_cookies(self.cookies@, host@, path@, now).len() == 0,
            },
    {
        let n = self.cookies.len();
        let mut out: Option<String> = None;
        let mut i: usize = 0;
        proof {
            assert(self.cookies@.subrange(0, 0) =~= Seq::<Cookie>::empty());
        }
        while i < n
            invariant
                i <= n,
                n == self.cookies@.len(),
                ({
                    let m = matching_cookies(
                        self.cookies@.subrange(0, i as int),
                        host@,
                        path@,
                        now,
                    );
                    match out {
                        Some(s) => m.len() > 0 && s@ == header_join(m),
                        None => m.len() == 0,
                    }
                }),
            decreases n - i,
        {
            let c = &self.cookies[i];
            let ghost pre = self.cookies@.subrange(0, i as int);
            let ghost ext = self.cookies@.subrange(0, i as int + 1);
            proof {
                assert(ext.drop_last() =~= pre);
                assert(ext.last() == self.cookies@[i as int]);
            }
            let applies = domain_match(&c.domain, host) && path_match(c.path.as_str(), path)
                && is_unexpired(c, now);
            if applies {
                let mut p = c.name.clone();
                p.append("=");
                p.append(c.value.as_str());
                proof {
                    reveal_strlit("=");
                    assert(p@ =~= pair_str(self.cookies@[i as int]));
                }
                match out {
                    None => {
                        out = Some(p);
                    },
                    Some(prev) => {
                        let mut joined = prev;
                        joined.append("; ");
                        joined.append(p.as_str());
                        proof {
                            reveal_strlit("; ");
                            let m = matching_cookies(ext, host@, path@, now);
                            assert(m.drop_last() =~= matching_cookies(pre, host@, path@, now));
                            assert(joined@ =~= header_join(m));
                        }
                        out = Some(joined);
                    },
                }
            }
            i = i + 1;
        }
        proof {
            assert(self.cookies@.subrange(0, n as int) =~= self.cookies@);
        }
        out
    }

    /// The records to serialize at time `now`: every record still live
    /// then, session-only ones included, in jar order.
    pub fn serialize_cookies(&self, now: u64) -> (r: Vec<Cookie>)
        ensures
            r@ == unexpired_cookies(self.cookies@, now),
    {
        let n = self.cookies.len();
        let mut out: Vec<Cookie> = Vec::new();
        let mut i: usize = 0;
        proof {
            assert(self.cookies@.subrange(0, 0) =~= Seq::<Cookie>::empty());
        }
        while i < n
            invariant
                i <= n,
                n == self.cookies@.len(),
                out@ == unexpired_cookies(self.cookies@.subrange(0, i as int), now),
            decreases n - i,
        {
            let ghost pre = self.cookies@.subrange(0, i as int);
            let ghost ext = self.cookies@.subrange(0, i as int + 1);
            proof {
                assert(ext.drop_last() =~= pre);
                assert(ext.last() == self.cookies@[i as int]);
            }
            let c = &self.cookies[i];
            if is_unexpired(c, now) {
                out.push(c.clone());
            }
            i = i + 1;
        }
        proof {
            assert(self.cookies@.subrange(0, n as int) =~= self.cookies@);
        }
        out
    }

    /// Rebuild a jar from serialized records, merging in order.  Freshness
    /// is not re-checked: the records are taken as they come.
    pub fn from_records(records: &Vec<Cookie>) -> (r: CookieStore)
        ensures
            r.cookies@ == fold_store(records@),
            r.wf(),
    {
        let n = records.len();
        let mut jar = CookieStore::new();
        let mut i: usize = 0;
        proof {
            assert(records@.subrange(0, 0) =~= Seq::<Cookie>::empty());
        }
        while i < n
            invariant
                i <= n,
                n == records@.len(),
                jar.wf(),
                jar.cookies@ == fold_store(records@.subrange(0, i as int)),
            decreases n - i,
        {
            let ghost pre = records@.subrange(0, i as int);
            let ghost ext = records@.subrange(0, i as int + 1);
            proof {
                assert(ext.drop_last() =~= pre);
                assert(ext.last() == records@[i as int]);
            }
            jar.store_cookie(records[i].clone());
            i = i + 1;
        }
        proof {
            assert(records@.subrange(0, n as int) =~= records@);
        }
        jar
    }
}

impl Clone for CookieStore {
    /// Clones keep the records, in order.
    fn clone(&self) -> (r: Self)
        ensures
            r.cookies@ == self.cookies@,
    {
        let n = self.cookies.len();
        let mut out: Vec<Cookie> = Vec::new();
        let mut i: usize = 0;
        while i < n
            invariant
                i <= n,
                n == self.cookies@.len(),
                out@ == self.cookies@.subrange(0, i as int),
            decreases n - i,
        {
            out.push(self.cookies[i].clone());
            proof {
                assert(out@ =~= self.cookies@.subrange(0, i as int + 1));
            }
            i = i + 1;
        }
        proof {
            assert(self.cookies@.subrange(0, n as int) =~= self.cookies@);
        }
        CookieStore { cookies: out }
    }
}

/// Mapping a jar to plain values commutes with storing a record.
proof fn lemma_jar_view_store(s: Seq<Cookie>, c: Cookie)
    ensures
        jar_view(store_spec(s, c)) == store_view_spec(jar_view(s), cookie_rec(c)),
    decreases s.len(),
{
    if s.len() == 0 {
        assert(jar_view(store_spec(s, c)) =~= store_view_spec(jar_view(s), cookie_rec(c)));
    } else if cookie_key(s[0]) == cookie_key(c) {
        assert(view_key(jar_view(s)[0]) == view_key(cookie_rec(c)));
        assert(jar_view(store_spec(s, c)) =~= seq![cookie_rec(c)] + jar_view(s).skip(1));
        assert(store_view_spec(jar_view(s), cookie_rec(c)) =~= seq![cookie_rec(c)]
            + jar_view(s).skip(1));
    } else {
        assert(view_key(jar_view(s)[0]) != view_key(cookie_rec(c)));
        lemma_jar_view_store(s.skip(1), c);
        assert(jar_view(s).skip(1) =~= jar_view(s.skip(1)));
        assert(jar_view(store_spec(s, c)) =~= seq![cookie_rec(s[0])] + jar_view(
            store_spec(s.skip(1), c),
        ));
        assert(store_view_spec(jar_view(s), cookie_rec(c)) =~= seq![cookie_rec(s[0])]
            + store_view_spec(jar_view(s.skip(1)), cookie_rec(c)));
    }
}

/// Storing a record whose key is absent appends it.
proof fn lemma_store_append(s: Seq<Cookie>, c: Cookie)
    requires
        forall|j: int| 0 <= j < s.len() ==> cookie_key(s[j]) != cookie_key(c),
    ensures
        store_spec(s, c) == s + seq![c],
    decreases s.len(),
{
    if s.len() == 0 {
        assert(store_spec(s, c) =~= s + seq![c]);
    } else {
        assert(forall|j: int|
            0 <= j < s.skip(1).len() ==> cookie_key(s.skip(1)[j]) != cookie_key(c));
        lemma_store_append(s.skip(1), c);
        assert(store_spec(s, c) =~= s + seq![c]);
    }
}

/// Storing a record whose key first occurs at `i` replaces that record.
proof fn lemma_store_update(s: Seq<Cookie>, c: Cookie, i: int)
    requires
        0 <= i < s.len(),
        cookie_key(s[i]) == cookie_key(c),
        forall|j: int| 0 <= j < i ==> cookie_key(s[j]) != cookie_key(c),
    ensures
        store_spec(s, c) == s.update(i, c),
    decreases i,
{
    if i == 0 {
        assert(store_spec(s, c) =~= s.update(0, c));
    } else {
        assert(cookie_key(s.skip(1)[i - 1]) == cookie_key(c));
        assert(forall|j: int|
            0 <= j < i - 1 ==> cookie_key(s.skip(1)[j]) != cookie_key(c));
        lemma_store_update(s.skip(1), c, i - 1);
        assert(store_spec(s, c) =~= s.update(i, c));
    }
}

/// Every record the serialization emits is a record of the jar.
proof fn lemma_unexpired_members(s: Seq<Cookie>, now: u64)
    ensures
        forall|k: int|
            0 <= k < unexpired_cookies(s, now).len() ==> s.contains(
                #[trigger] unexpired_cookies(s, now)[k],
            ),
    decreases s.len(),
{
    if s.len() > 0 {
        let sp = s.drop_last();
        lemma_unexpired_members(sp, now);
        let u = unexpired_cookies(s, now);
        let up = unexpired_cookies(sp, now);
        assert forall|k: int| 0 <= k < u.len() implies s.contains(#[trigger] u[k]) by {
            if k < up.len() {
                assert(sp.contains(up[k]));
                let m = choose|m: int| 0 <= m < sp.len() && sp[m] == up[k];
                assert(s[m] == u[k]);
            } else {
                assert(s[s.len() - 1] == u[k]);
            }
        }
    }
}

/// The serialization of a well-formed jar still has pairwise distinct
/// keys.
proof fn lemma_unexpired_unique(s: Seq<Cookie>, now: u64)
    requires
        forall|i: int, j: int|
            0 <= i < j < s.len() ==> cookie_key(s[i]) != cookie_key(s[j]),
    ensures
        forall|i: int, j: int|
            0 <= i < j < unexpired_cookies(s, now).len() ==> cookie_key(
                #[trigger] unexpired_cookies(s, now)[i],
            ) != cookie_key(#[trigger] unexpired_cookies(s, now)[j]),
    decreases s.len(),
{
    if s.len() > 0 {
        let sp = s.drop_last();
        assert(forall|i: int, j: int|
            0 <= i < j < sp.len() ==> cookie_key(sp[i]) != cookie_key(sp[j]));
        lemma_unexpired_unique(sp, now);
        lemma_unexpired_members(sp, now);
        let u = unexpired_cookies(s, now);
        let up = unexpired_cookies(sp, now);
        assert forall|i: int, j: int| 0 <= i < j < u.len() implies cookie_key(#[trigger] u[i])
            != cookie_key(#[trigger] u[j]) by {
            if j < up.len() {
                assert(u[i] == up[i] && u[j] == up[j]);
            } else {
                assert(u[j] == s[s.len() - 1]);
                assert(sp.contains(up[i]));
                let m = choose|m: int| 0 <= m < sp.len() && sp[m] == up[i];
                assert(cookie_key(s[m]) != cookie_key(s[s.len() - 1]));
            }
        }
    }
}

/// Storing records with pairwise distinct keys into an empty jar keeps
/// them as they are.
proof fn lemma_fold_store_identity(s: Seq<Cookie>)
    requires
        forall|i: int, j: int|
            0 <= i < j < s.len() ==> cookie_key(s[i]) != cookie_key(s[j]),
    ensures
        fold_store(s) == s,
    decreases s.len(),
{
    if s.len() > 0 {
        let sp = s.drop_last();
        assert(forall|i: int, j: int|
            0 <= i < j < sp.len() ==> cookie_key(sp[i]) != cookie_key(sp[j]));
        lemma_fold_store_identity(sp);
        assert(forall|j: int|
            0 <= j < sp.len() ==> cookie_key(sp[j]) != cookie_key(s.last()));
        lemma_store_append(sp, s.last());
        assert(sp + seq![s.last()] =~= s);
    }
}

/// Law: serializing a well-formed jar at time `now` and rebuilding a jar
/// from the records yields exactly the jar's records that were unexpired
/// at `now`, in order and unchanged — session-only cookies included.
pub proof fn lemma_cookie_roundtrip(jar: CookieStore, now: u64)
    requires
        jar.wf(),
    ensures
        fold_store(unexpired_cookies(jar.cookies@, now)) == unexpired_cookies(
            jar.cookies@,
            now,
        ),
{
    lemma_unexpired_unique(jar.cookies@, now);
    lemma_fold_store_identity(unexpired_cookies(jar.cookies@, now));
}

/// The lock invariant of a shared jar: the jar stays well-formed.
pub struct JarPred {}

impl RwLockPredicate<CookieStore> for JarPred {
    open spec fn inv(self, v: CookieStore) -> bool {
        v.wf()
    }
}

/// A jar behind a reader/writer lock, shared between the transport (which
/// ingests response cookies) and the handler (which reads the jar back at
/// the end of an exchange).
pub struct CookieStoreRwLock {
    lock: RwLock<CookieStore, JarPred>,
}

impl CookieStoreRwLock {
    /// Wrap a well-formed jar.
    pub fn from_store(store: CookieStore) -> (r: Self)
        requires
            store.wf(),
    {
        CookieStoreRwLock { lock: RwLock::new(store, Ghost(JarPred {})) }
    }

    /// Merge one `Set-Cookie` value under the write lock.
    pub fn set_cookie(&self, header: &str, host: &str, request_path: &str, now: u64) {
        let (mut jar, handle) = self.lock.acquire_write();
        jar.set_cookie(header, host, request_path, now);
        handle.release_write(jar);
    }

    /// Merge every `Set-Cookie` value of a response under the write lock.
    pub fn set_cookies(&self, headers: &Vec<String>, host: &str, request_path: &str, now: u64) {
        let (mut jar, handle) = self.lock.acquire_write();
        jar.set_cookies(headers, host, request_path, now);
        handle.release_write(jar);
    }

    /// The `Cookie` request header under the read lock.
    pub fn cookie_header_value(&self, host: &str, path: &str, now: u64) -> Option<String> {
        let handle = self.lock.acquire_read();
        let r = handle.borrow().cookie_header_value(host, path, now);
        handle.release_read();
        r
    }

    /// A copy of the jar as it stands, well-formed.
    pub fn snapshot(&self) -> (r: CookieStore)
        ensures
            r.wf(),
    {
        let handle = self.lock.acquire_read();
        let r = handle.borrow().clone();
        handle.release_read();
        r
    }
}

} // verus!
