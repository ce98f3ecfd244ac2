//! HTTP dates, as cookie `Expires` attributes carry them.
//!
//! The three fixed date forms of HTTP are parsed into seconds past the
//! Unix epoch: `Sun, 06 Nov 1994 08:49:37 GMT`, the two-digit-year form
//! `Sunday, 06-Nov-94 08:49:37 GMT`, and `Sun Nov  6 08:49:37 1994`.  A
//! date of any other shape yields nothing, and a cookie falls back to
//! session scope; a parsable date before 1970 counts as already expired.

use vstd::prelude::*;
use vstd::string::*;
use crate::strutil::{all_digits, dec_val, digit_val, parse_u64, split_on, split_spec, str_eq};

verus! {

/// Whether `y` is a leap year.
pub open spec fn is_leap(y: int) -> bool {
    y % 4 == 0 && (y % 100 != 0 || y % 400 == 0)
}

/// How many days the years 1970 through `y - 1` hold together.
pub open spec fn days_before_year(y: int) -> int
    decreases y,
    when y >= 1970
{
    if y <= 1970 {
        0
    } else {
        days_before_year(y - 1) + if is_leap(y - 1) {
            366int
        } else {
            365int
        }
    }
}

/// How many days month `m` of year `y` holds.
pub open spec fn month_days(m: int, y: int) -> int {
    if m == 2 {
        if is_leap(y) {
            29
        } else {
            28
        }
    } else if m == 4 || m == 6 || m == 9 || m == 11 {
        30
    } else {
        31
    }
}

/// How many days the months before `m` hold in year `y`.
pub open spec fn days_before_month(m: int, y: int) -> int
    decreases m,
    when m >= 1
{
    if m <= 1 {
        0
    } else {
        days_before_month(m - 1, y) + month_days(m - 1, y)
    }
}

/// Seconds past the Unix epoch of a civil date and time.
pub open spec fn epoch_secs(y: int, mo: int, d: int, h: int, mi: int, s: int) -> int {
    (days_before_year(y) + days_before_month(mo, y) + (d - 1)) * 86400 + h * 3600 + mi * 60 + s
}

/// The number of a three-letter month name; zero for anything else.
pub open spec fn month_num(s: Seq<char>) -> int {
    if s == "Jan"@ {
        1
    } else if s == "Feb"@ {
        2
    } else if s == "Mar"@ {
        3
    } else if s == "Apr"@ {
        4
    } else if s == "May"@ {
        5
    } else if s == "Jun"@ {
        6
    } else if s == "Jul"@ {
        7
    } else if s == "Aug"@ {
        8
    } else if s == "Sep"@ {
        9
    } else if s == "Oct"@ {
        10
    } else if s == "Nov"@ {
        11
    } else if s == "Dec"@ {
        12
    } else {
        0
    }
}

/// Whether a token is a usable decimal number.
pub open spec fn num_token(s: Seq<char>) -> bool {
    s.len() > 0 && all_digits(s) && dec_val(s) <= u64::MAX
}

/// The hour, minute and second a `HH:MM:SS` token denotes.
pub open spec fn time_spec(t: Seq<char>) -> Option<(int, int, int)> {
    let tm = split_spec(t, ':');
    if tm.len() != 3 || !num_token(tm[0]) || !num_token(tm[1]) || !num_token(tm[2]) {
        None
    } else {
        Some((dec_val(tm[0]) as int, dec_val(tm[1]) as int, dec_val(tm[2]) as int))
    }
}

/// The epoch seconds of a validated civil date and time: the fields must
/// be in range; a valid date before 1970 counts as the epoch itself.
pub open spec fn civil_spec(y: int, mo: int, d: int, h: int, mi: int, sec: int) -> Option<u64> {
    if y < 1601 || y > 9999 {
        None
    } else if !(1 <= mo <= 12) {
        None
    } else if !(1 <= d <= month_days(mo, y)) {
        None
    } else if !(0 <= h < 24 && 0 <= mi < 60 && 0 <= sec < 60) {
        None
    } else if y < 1970 {
        Some(0)
    } else {
        Some(epoch_secs(y, mo, d, h, mi, sec) as u64)
    }
}

/// What the fixed-length form `Sun, 06 Nov 1994 08:49:37 GMT` yields.
pub open spec fn imf_date_spec(s: Seq<char>) -> Option<u64> {
    let parts = split_spec(s, ' ');
    if parts.len() != 6 {
        None
    } else if !(parts[0].len() >= 2 && parts[0].last() == ',') {
        None
    } else if parts[5] != "GMT"@ {
        None
    } else if !num_token(parts[1]) || month_num(parts[2]) == 0 || !num_token(parts[3]) {
        None
    } else {
        match time_spec(parts[4]) {
            Some(t) => civil_spec(
                dec_val(parts[3]) as int,
                month_num(parts[2]),
                dec_val(parts[1]) as int,
                t.0,
                t.1,
                t.2,
            ),
            None => None,
        }
    }
}

/// What the two-digit-year form `Sunday, 06-Nov-94 08:49:37 GMT` yields:
/// years 70 through 99 count from 1900, years 00 through 69 from 2000.
pub open spec fn rfc850_date_spec(s: Seq<char>) -> Option<u64> {
    let parts = split_spec(s, ' ');
    if parts.len() != 4 {
        None
    } else if !(parts[0].len() >= 2 && parts[0].last() == ',') {
        None
    } else if parts[3] != "GMT"@ {
        None
    } else {
        let dmy = split_spec(parts[1], '-');
        if dmy.len() != 3 || !num_token(dmy[0]) || month_num(dmy[1]) == 0 || !(dmy[2].len() == 2
            && all_digits(dmy[2])) {
            None
        } else {
            let y = if dec_val(dmy[2]) >= 70 {
                1900 + dec_val(dmy[2]) as int
            } else {
                2000 + dec_val(dmy[2]) as int
            };
            match time_spec(parts[2]) {
                Some(t) => civil_spec(
                    y,
                    month_num(dmy[1]),
                    dec_val(dmy[0]) as int,
                    t.0,
                    t.1,
                    t.2,
                ),
                None => None,
            }
        }
    }
}

/// What one arrangement of the `Sun Nov  6 08:49:37 1994` form yields.
pub open spec fn asctime_fields(
    wd: Seq<char>,
    mon: Seq<char>,
    day: Seq<char>,
    t: Seq<char>,
    yr: Seq<char>,
) -> Option<u64> {
    if !(wd.len() > 0 && wd.last() != ',') {
        None
    } else if month_num(mon) == 0 || !num_token(day) || !num_token(yr) {
        None
    } else {
        match time_spec(t) {
            Some(tt) => civil_spec(
                dec_val(yr) as int,
                month_num(mon),
                dec_val(day) as int,
                tt.0,
                tt.1,
                tt.2,
            ),
            None => None,
        }
    }
}

/// What the `Sun Nov  6 08:49:37 1994` form yields: a day below ten is
/// padded with a second space, leaving an empty split part.
pub open spec fn asctime_date_spec(s: Seq<char>) -> Option<u64> {
    let parts = split_spec(s, ' ');
    if parts.len() == 5 {
        asctime_fields(parts[0], parts[1], parts[2], parts[3], parts[4])
    } else if parts.len() == 6 && parts[2].len() == 0 {
        asctime_fields(parts[0], parts[1], parts[3], parts[4], parts[5])
    } else {
        None
    }
}

/// What parsing an HTTP date yields: the first of the three fixed forms
/// that accepts it, or nothing.
pub open spec fn http_date_spec(s: Seq<char>) -> Option<u64> {
    if imf_date_spec(s) is Some {
        imf_date_spec(s)
    } else if rfc850_date_spec(s) is Some {
        rfc850_date_spec(s)
    } else {
        asctime_date_spec(s)
    }
}

fn month_of(s: &str) -> (r: u64)
    ensures
        r == month_num(s@),
{
    if str_eq(s, "Jan") {
        1
    } else if str_eq(s, "Feb") {
        2
    } else if str_eq(s, "Mar") {
        3
    } else if str_eq(s, "Apr") {
        4
    } else if str_eq(s, "May") {
        5
    } else if str_eq(s, "Jun") {
        6
    } else if str_eq(s, "Jul") {
        7
    } else if str_eq(s, "Aug") {
        8
    } else if str_eq(s, "Sep") {
        9
    } else if str_eq(s, "Oct") {
        10
    } else if str_eq(s, "Nov") {
        11
    } else if str_eq(s, "Dec") {
        12
    } else {
        0
    }
}

fn month_len(m: u64, y: u64) -> (r: u64)
    requires
        1 <= m <= 12,
    ensures
        r == month_days(m as int, y as int),
{
    if m == 2 {
        if (y % 4 == 0 && (y % 100 != 0 || y % 400 == 0)) {
            29
        } else {
            28
        }
    } else if m == 4 || m == 6 || m == 9 || m == 11 {
        30
    } else {
        31
    }
}

/// Days from the epoch to the start of year `y`.
fn days_to_year(y: u64) -> (r: u64)
    requires
        1970 <= y <= 9999,
    ensures
        r == days_before_year(y as int),
        r <= 366 * (y - 1970),
{
    let mut acc: u64 = 0;
    let mut yy: u64 = 1970;
    while yy < y
        invariant
            1970 <= yy <= y <= 9999,
            acc == days_before_year(yy as int),
            acc <= 366 * (yy - 1970),
        decreases y - yy,
    {
        if yy % 4 == 0 && (yy % 100 != 0 || yy % 400 == 0) {
            acc = acc + 366;
        } else {
            acc = acc + 365;
        }
        yy = yy + 1;
    }
    acc
}

/// Days from the start of year `y` to the start of month `mo`.
fn days_to_month(mo: u64, y: u64) -> (r: u64)
    requires
        1 <= mo <= 12,
    ensures
        r == days_before_month(mo as int, y as int),
        r <= 366,
{
    let mut acc: u64 = 0;
    let mut m: u64 = 1;
    while m < mo
        invariant
            1 <= m <= mo <= 12,
            acc == days_before_month(m as int, y as int),
            acc <= 31 * (m - 1),
        decreases mo - m,
    {
        acc = acc + month_len(m, y);
        m = m + 1;
    }
    acc
}

/// Parse a `HH:MM:SS` token.
fn time_parts(t: &str) -> (r: Option<(u64, u64, u64)>)
    ensures
        match r {
            Some(v) => time_spec(t@) == Some((v.0 as int, v.1 as int, v.2 as int)),
            None => time_spec(t@) is None,
        },
{
    let tm = split_on(t, ':');
    if tm.len() != 3 {
        return None;
    }
    proof {
        assert(tm.deep_view()[0] == tm@[0]@);
        assert(tm.deep_view()[1] == tm@[1]@);
        assert(tm.deep_view()[2] == tm@[2]@);
    }
    let h = match parse_u64(tm[0].as_str()) {
        Some(v) => v,
        None => {
            return None;
        },
    };
    let mi = match parse_u64(tm[1].as_str()) {
        Some(v) => v,
        None => {
            return None;
        },
    };
    let sec = match parse_u64(tm[2].as_str()) {
        Some(v) => v,
        None => {
            return None;
        },
    };
    Some((h, mi, sec))
}

/// Compute the epoch seconds of validated civil fields.
fn civil_to_epoch(y: u64, mo: u64, d: u64, h: u64, mi: u64, sec: u64) -> (r: Option<u64>)
    ensures
        r == civil_spec(y as int, mo as int, d as int, h as int, mi as int, sec as int),
{
    if y < 1601 || y > 9999 {
        return None;
    }
    if !(1 <= mo && mo <= 12) {
        return None;
    }
    if !(1 <= d && d <= month_len(mo, y)) {
        return None;
    }
    if !(h < 24 && mi < 60 && sec < 60) {
        return None;
    }
    if y < 1970 {
        return Some(0);
    }
    let days = days_to_year(y) + days_to_month(mo, y) + (d - 1);
    Some(days * 86400 + h * 3600 + mi * 60 + sec)
}

/// Parse the `Sun, 06 Nov 1994 08:49:37 GMT` form.
fn imf_to_epoch(s: &str) -> (r: Option<u64>)
    ensures
        r == imf_date_spec(s@),
{
    let parts = split_on(s, ' ');
    if parts.len() != 6 {
        return None;
    }
    proof {
        assert(parts.deep_view()[0] == parts@[0]@);
        assert(parts.deep_view()[1] == parts@[1]@);
        assert(parts.deep_view()[2] == parts@[2]@);
        assert(parts.deep_view()[3] == parts@[3]@);
        assert(parts.deep_view()[4] == parts@[4]@);
        assert(parts.deep_view()[5] == parts@[5]@);
        reveal_strlit("GMT");
    }
    let wd = parts[0].as_str();
    let wdlen = wd.unicode_len();
    if !(wdlen >= 2 && wd.get_char(wdlen - 1) == ',') {
        return None;
    }
    if !str_eq(parts[5].as_str(), "GMT") {
        return None;
    }
    let d = match parse_u64(parts[1].as_str()) {
        Some(v) => v,
        None => {
            return None;
        },
    };
    let mo = month_of(parts[2].as_str());
    if mo == 0 {
        return None;
    }
    let y = match parse_u64(parts[3].as_str()) {
        Some(v) => v,
        None => {
            return None;
        },
    };
    match time_parts(parts[4].as_str()) {
        Some(t) => civil_to_epoch(y, mo, d, t.0, t.1, t.2),
        None => None,
    }
}

/// Parse the `Sunday, 06-Nov-94 08:49:37 GMT` form.
fn rfc850_to_epoch(s: &str) -> (r: Option<u64>)
    ensures
        r == rfc850_date_spec(s@),
{
    let parts = split_on(s, ' ');
    if parts.len() != 4 {
        return None;
    }
    proof {
        assert(parts.deep_view()[0] == parts@[0]@);
        assert(parts.deep_view()[1] == parts@[1]@);
        assert(parts.deep_view()[2] == parts@[2]@);
        assert(parts.deep_view()[3] == parts@[3]@);
        reveal_strlit("GMT");
    }
    let wd = parts[0].as_str();
    let wdlen = wd.unicode_len();
    if !(wdlen >= 2 && wd.get_char(wdlen - 1) == ',') {
        return None;
    }
    if !str_eq(parts[3].as_str(), "GMT") {
        return None;
    }
    let dmy = split_on(parts[1].as_str(), '-');
    if dmy.len() != 3 {
        return None;
    }
    proof {
        assert(dmy.deep_view()[0] == dmy@[0]@);
        assert(dmy.deep_view()[1] == dmy@[1]@);
        assert(dmy.deep_view()[2] == dmy@[2]@);
    }
    let d = match parse_u64(dmy[0].as_str()) {
        Some(v) => v,
        None => {
            return None;
        },
    };
    let mo = month_of(dmy[1].as_str());
    if mo == 0 {
        return None;
    }
    let ytext = dmy[2].as_str();
    if ytext.unicode_len() != 2 {
        return None;
    }
    let yy = match parse_u64(ytext) {
        Some(v) => v,
        None => {
            return None;
        },
    };
    proof {
        let t = ytext@;
        assert(t.drop_last().drop_last().len() == 0);
        assert(digit_val(t.drop_last().last()) < 10 && digit_val(t.last()) < 10) by {
            assert(t.drop_last().last() == t[0] && t.last() == t[1]);
        }
        assert(dec_val(t.drop_last().drop_last()) == 0);
        assert(dec_val(t.drop_last()) == digit_val(t.drop_last().last()));
        assert(dec_val(t) <= 99);
    }
    let y = if yy >= 70 {
        1900 + yy
    } else {
        2000 + yy
    };
    match time_parts(parts[2].as_str()) {
        Some(t) => civil_to_epoch(y, mo, d, t.0, t.1, t.2),
        None => None,
    }
}

/// Parse one arrangement of the `Sun Nov  6 08:49:37 1994` form.
fn asctime_fields_to_epoch(wd: &str, mon: &str, day: &str, t: &str, yr: &str) -> (r: Option<
    u64,
>)
    ensures
        r == asctime_fields(wd@, mon@, day@, t@, yr@),
{
    let wdlen = wd.unicode_len();
    if !(wdlen > 0 && wd.get_char(wdlen - 1) != ',') {
        return None;
    }
    let mo = month_of(mon);
    if mo == 0 {
        return None;
    }
    let d = match parse_u64(day) {
        Some(v) => v,
        None => {
            return None;
        },
    };
    let y = match parse_u64(yr) {
        Some(v) => v,
        None => {
            return None;
        },
    };
    match time_parts(t) {
        Some(tt) => civil_to_epoch(y, mo, d, tt.0, tt.1, tt.2),
        None => None,
    }
}

/// Parse the `Sun Nov  6 08:49:37 1994` form.
fn asctime_to_epoch(s: &str) -> (r: Option<u64>)
    ensures
        r == asctime_date_spec(s@),
{
    let parts = split_on(s, ' ');
    if parts.len() == 5 {
        proof {
            assert(parts.deep_view()[0] == parts@[0]@);
            assert(parts.deep_view()[1] == parts@[1]@);
            assert(parts.deep_view()[2] == parts@[2]@);
            assert(parts.deep_view()[3] == parts@[3]@);
            assert(parts.deep_view()[4] == parts@[4]@);
        }
        asctime_fields_to_epoch(
            parts[0].as_str(),
            parts[1].as_str(),
            parts[2].as_str(),
            parts[3].as_str(),
            parts[4].as_str(),
        )
    } else if parts.len() == 6 {
        proof {
            assert(parts.deep_view()[0] == parts@[0]@);
            assert(parts.deep_view()[1] == parts@[1]@);
            assert(parts.deep_view()[2] == parts@[2]@);
            assert(parts.deep_view()[3] == parts@[3]@);
            assert(parts.deep_view()[4] == parts@[4]@);
            assert(parts.deep_view()[5] == parts@[5]@);
        }
        if parts[2].as_str().unicode_len() != 0 {
            return None;
        }
        asctime_fields_to_epoch(
            parts[0].as_str(),
            parts[1].as_str(),
            parts[3].as_str(),
            parts[4].as_str(),
            parts[5].as_str(),
        )
    } else {
        None
    }
}

/// Parse an HTTP date in any of the three fixed forms into seconds past
/// the Unix epoch.
pub fn http_date_to_epoch(s: &str) -> (r: Option<u64>)
    ensures
        r == http_date_spec(s@),
{
    let r = imf_to_epoch(s);
    if r.is_some() {
        return r;
    }
    let r = rfc850_to_epoch(s);
    if r.is_some() {
        return r;
    }
    asctime_to_epoch(s)
}

} // verus!
