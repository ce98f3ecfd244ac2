//! Verified helpers over `&str` and `String`.
//!
//! All contracts speak over the `Seq<char>` views of the strings involved.
//! The executable code walks characters one at a time; nothing here calls
//! outside the crate.

use vstd::prelude::*;
use vstd::string::*;

verus! {

/// First index `>= from` whose character is `c`, if any.
pub fn find_char(s: &str, c: char, from: usize) -> (r: Option<usize>)
    requires
        from <= s@.len(),
    ensures
        match r {
            Some(i) => {
                &&& from <= i < s@.len()
                &&& s@[i as int] == c
                &&& forall|j: int| from <= j < i ==> s@[j] != c
            },
            None => forall|j: int| from <= j < s@.len() ==> s@[j] != c,
        },
{
    let n = s.unicode_len();
    let mut i = from;
    while i < n
        invariant
            from <= i <= n,
            n == s@.len(),
            forall|j: int| from <= j < i ==> s@[j] != c,
        decreases n - i,
    {
        if s.get_char(i) == c {
            return Some(i);
        }
        i = i + 1;
    }
    None
}

/// Character-for-character equality of two string slices.
pub fn str_eq(a: &str, b: &str) -> (r: bool)
    ensures
        r == (a@ == b@),
{
    let na = a.unicode_len();
    let nb = b.unicode_len();
    if na != nb {
        return false;
    }
    let mut i: usize = 0;
    while i < na
        invariant
            i <= na,
            na == a@.len(),
            nb == b@.len(),
            na == nb,
            forall|j: int| 0 <= j < i ==> a@[j] == b@[j],
        decreases na - i,
    {
        if s_ne_at(a, b, i) {
            return false;
        }
        i = i + 1;
    }
    proof {
        assert(a@ =~= b@);
    }
    true
}

/// One character comparison, split out so the caller's loop stays small.
fn s_ne_at(a: &str, b: &str, i: usize) -> (r: bool)
    requires
        i < a@.len(),
        i < b@.len(),
    ensures
        r == (a@[i as int] != b@[i as int]),
{
    a.get_char(i) != b.get_char(i)
}

/// Whether `p` is a prefix of `s`.
pub fn starts_with(s: &str, p: &str) -> (r: bool)
    ensures
        r == (p@.len() <= s@.len() && p@ == s@.subrange(0, p@.len() as int)),
{
    let np = p.unicode_len();
    let ns = s.unicode_len();
    if np > ns {
        return false;
    }
    let head = s.substring_char(0, np);
    str_eq(head, p)
}

/// Whether `p` is a suffix of `s`.
pub fn ends_with(s: &str, p: &str) -> (r: bool)
    ensures
        r == (p@.len() <= s@.len()
            && p@ == s@.subrange(s@.len() - p@.len(), s@.len() as int)),
{
    let np = p.unicode_len();
    let ns = s.unicode_len();
    if np > ns {
        return false;
    }
    let tail = s.substring_char(ns - np, ns);
    str_eq(tail, p)
}

/// The characters of `s` strictly between the ends of a prefix and a
/// suffix, as an owned string.
pub fn slice_between(s: &str, from: usize, to: usize) -> (r: String)
    requires
        from <= to <= s@.len(),
    ensures
        r@ == s@.subrange(from as int, to as int),
{
    String::from_str(s.substring_char(from, to))
}

/// `s` with every occurrence of `pat` (scanned left to right) replaced by
/// `rep`.
pub open spec fn replace_spec(s: Seq<char>, pat: Seq<char>, rep: Seq<char>) -> Seq<char>
    decreases s.len(),
{
    if s.len() == 0 {
        s
    } else if 0 < pat.len() <= s.len() && s.subrange(0, pat.len() as int) == pat {
        rep + replace_spec(s.skip(pat.len() as int), pat, rep)
    } else {
        seq![s[0]] + replace_spec(s.skip(1), pat, rep)
    }
}

/// Replace every occurrence of `pat` in `s` by `rep`, scanning left to
/// right.
pub fn replace_all(s: &str, pat: &str, rep: &str) -> (r: String)
    requires
        pat@.len() > 0,
    ensures
        r@ == replace_spec(s@, pat@, rep@),
{
    let n = s.unicode_len();
    let np = pat.unicode_len();
    let mut out = String::new();
    let mut i: usize = 0;
    proof {
        assert(s@.subrange(0, n as int) =~= s@);
        assert(out@ + replace_spec(s@, pat@, rep@) =~= replace_spec(s@, pat@, rep@));
    }
    while i < n
        invariant
            i <= n,
            n == s@.len(),
            np == pat@.len(),
            np > 0,
            replace_spec(s@, pat@, rep@) == out@ + replace_spec(
                s@.subrange(i as int, n as int),
                pat@,
                rep@,
            ),
        decreases n - i,
    {
        let ghost rest = s@.subrange(i as int, n as int);
        if np <= n - i {
            let head = s.substring_char(i, i + np);
            if str_eq(head, pat) {
                proof {
                    assert(rest.subrange(0, np as int) =~= s@.subrange(
                        i as int,
                        i as int + np,
                    ));
                    assert(rest.skip(np as int) =~= s@.subrange(i as int + np, n as int));
                }
                out.append(rep);
                i = i + np;
                continue;
            }
        }
        proof {
            assert(rest.len() > 0);
            assert(rest[0] == s@[i as int]);
            if 0 < pat@.len() <= rest.len() {
                assert(rest.subrange(0, np as int) =~= s@.subrange(i as int, i as int + np));
            }
            assert(rest.skip(1) =~= s@.subrange(i as int + 1, n as int));
        }
        let one = s.substring_char(i, i + 1);
        proof {
            assert(one@ =~= seq![s@[i as int]]);
        }
        out.append(one);
        i = i + 1;
    }
    proof {
        assert(s@.subrange(0, n as int) =~= s@);
        assert(s@.subrange(n as int, n as int) =~= Seq::<char>::empty());
        assert(out@ + Seq::<char>::empty() =~= out@);
    }
    out
}

/// Lower-cased ASCII letter; other characters unchanged.
pub open spec fn lower_char_spec(c: char) -> char {
    if 65 <= c as u32 <= 90 {
        ((c as u32 + 32) as u8) as char
    } else {
        c
    }
}

/// Upper-cased ASCII letter; other characters unchanged.
pub open spec fn upper_char_spec(c: char) -> char {
    if 97 <= c as u32 <= 122 {
        ((c as u32 - 32) as u8) as char
    } else {
        c
    }
}

/// `s` with ASCII letters lower-cased.
pub open spec fn lower_spec(s: Seq<char>) -> Seq<char> {
    s.map_values(|c: char| lower_char_spec(c))
}

/// `s` with ASCII letters upper-cased.
pub open spec fn upper_spec(s: Seq<char>) -> Seq<char> {
    s.map_values(|c: char| upper_char_spec(c))
}

fn lower_char(c: char) -> (r: char)
    ensures
        r == lower_char_spec(c),
{
    let u = c as u32;
    if 65 <= u && u <= 90 {
        ((u + 32) as u8) as char
    } else {
        c
    }
}

fn upper_char(c: char) -> (r: char)
    ensures
        r == upper_char_spec(c),
{
    let u = c as u32;
    if 97 <= u && u <= 122 {
        ((u - 32) as u8) as char
    } else {
        c
    }
}

/// Upper-case the ASCII letters of `s`.
pub fn to_ascii_upper(s: &str) -> (r: String)
    ensures
        r@ == upper_spec(s@),
{
    let n = s.unicode_len();
    let mut out = String::new();
    let mut i: usize = 0;
    while i < n
        invariant
            i <= n,
            n == s@.len(),
            out@ == upper_spec(s@).subrange(0, i as int),
        decreases n - i,
    {
        let c = upper_char(s.get_char(i));
        push_char(&mut out, c);
        proof {
            assert(out@ =~= upper_spec(s@).subrange(0, i as int + 1));
        }
        i = i + 1;
    }
    proof {
        assert(upper_spec(s@).subrange(0, n as int) =~= upper_spec(s@));
    }
    out
}

/// Append one character to `out`.
pub fn push_char(out: &mut String, c: char)
    ensures
        final(out)@ == old(out)@ + seq![c],
{
    let one = char_str(c);
    out.append(one.as_str());
}

/// A one-character owned string.
fn char_str(c: char) -> (r: String)
    ensures
        r@ == seq![c],
{
    let mut s = String::new();
    char_append(&mut s, c);
    s
}

/// Relies on `String::push`: appends exactly the one character.
#[verifier::external_body]
fn char_append(s: &mut String, c: char)
    ensures
        final(s)@ == old(s)@ + seq![c],
{
    s.push(c);
}

/// The decimal digit characters of `n`, most significant first.
pub open spec fn dec_str(n: nat) -> Seq<char>
    decreases n,
{
    if n < 10 {
        seq![digit_char(n as int)]
    } else {
        dec_str(n / 10) + seq![digit_char((n % 10) as int)]
    }
}

/// The character for one decimal digit.
pub open spec fn digit_char(d: int) -> char {
    if d == 0 {
        '0'
    } else if d == 1 {
        '1'
    } else if d == 2 {
        '2'
    } else if d == 3 {
        '3'
    } else if d == 4 {
        '4'
    } else if d == 5 {
        '5'
    } else if d == 6 {
        '6'
    } else if d == 7 {
        '7'
    } else if d == 8 {
        '8'
    } else {
        '9'
    }
}

fn digit_literal(d: u64) -> (r: &'static str)
    requires
        d < 10,
    ensures
        r@ == seq![digit_char(d as int)],
{
    proof {
        reveal_strlit("0");
        reveal_strlit("1");
        reveal_strlit("2");
        reveal_strlit("3");
        reveal_strlit("4");
        reveal_strlit("5");
        reveal_strlit("6");
        reveal_strlit("7");
        reveal_strlit("8");
        reveal_strlit("9");
    }
    let r: &'static str = if d == 0 {
        "0"
    } else if d == 1 {
        "1"
    } else if d == 2 {
        "2"
    } else if d == 3 {
        "3"
    } else if d == 4 {
        "4"
    } else if d == 5 {
        "5"
    } else if d == 6 {
        "6"
    } else if d == 7 {
        "7"
    } else if d == 8 {
        "8"
    } else {
        "9"
    };
    proof {
        assert(r@ =~= seq![digit_char(d as int)]);
    }
    r
}

/// `n` written in decimal.
pub fn u64_to_string(n: u64) -> (r: String)
    ensures
        r@ == dec_str(n as nat),
    decreases n,
{
    if n < 10 {
        String::from_str(digit_literal(n))
    } else {
        let mut s = u64_to_string(n / 10);
        s.append(digit_literal(n % 10));
        s
    }
}

/// How many decimal digits `dec_str` uses.
pub proof fn lemma_dec_str_len(n: nat, k: nat)
    requires
        n < pow10(k),
        k >= 1,
    ensures
        dec_str(n).len() <= k,
    decreases k,
{
    if n < 10 {
    } else {
        assert(pow10(k) == 10 * pow10((k - 1) as nat));
        lemma_dec_str_len(n / 10, (k - 1) as nat);
    }
}

/// Ten to the `k`.
pub open spec fn pow10(k: nat) -> nat
    decreases k,
{
    if k == 0 {
        1
    } else {
        10 * pow10((k - 1) as nat)
    }
}

/// `n` written in decimal, left-padded with zeros to nine digits.
pub open spec fn dec_str_pad9(n: nat) -> Seq<char> {
    zeros((9 - dec_str(n).len()) as nat) + dec_str(n)
}

/// `k` zero characters.
pub open spec fn zeros(k: nat) -> Seq<char>
    decreases k,
{
    if k == 0 {
        Seq::empty()
    } else {
        zeros((k - 1) as nat) + seq!['0']
    }
}

/// `n` written in decimal and zero-padded to nine digits, as nanosecond
/// counts are recorded.
pub fn u32_to_padded9(n: u32) -> (r: String)
    requires
        n < 1000000000,
    ensures
        r@ == dec_str_pad9(n as nat),
{
    proof {
        reveal_with_fuel(pow10, 10);
        assert(pow10(9) == 1000000000);
        lemma_dec_str_len(n as nat, 9);
    }
    let digits = u64_to_string(n as u64);
    let nd = digits.as_str().unicode_len();
    let mut out = String::new();
    let mut i: usize = 0;
    let pad = 9 - nd;
    while i < pad
        invariant
            i <= pad,
            pad == 9 - dec_str(n as nat).len(),
            out@ == zeros(i as nat),
        decreases pad - i,
    {
        out.append("0");
        proof {
            reveal_strlit("0");
            assert(out@ =~= zeros((i + 1) as nat));
        }
        i = i + 1;
    }
    out.append(digits.as_str());
    out
}

/// The numeric value of a decimal digit string (most significant first).
pub open spec fn dec_val(s: Seq<char>) -> nat
    decreases s.len(),
{
    if s.len() == 0 {
        0
    } else {
        10 * dec_val(s.drop_last()) + digit_val(s.last())
    }
}

/// The value of one digit character; ten marks a non-digit.
pub open spec fn digit_val(c: char) -> nat {
    if c == '0' {
        0
    } else if c == '1' {
        1
    } else if c == '2' {
        2
    } else if c == '3' {
        3
    } else if c == '4' {
        4
    } else if c == '5' {
        5
    } else if c == '6' {
        6
    } else if c == '7' {
        7
    } else if c == '8' {
        8
    } else if c == '9' {
        9
    } else {
        10
    }
}

/// Whether every character of `s` is a decimal digit.
pub open spec fn all_digits(s: Seq<char>) -> bool {
    forall|j: int| 0 <= j < s.len() ==> digit_val(s[j]) < 10
}

fn digit_of(c: char) -> (r: u64)
    ensures
        r == digit_val(c),
{
    if c == '0' {
        0
    } else if c == '1' {
        1
    } else if c == '2' {
        2
    } else if c == '3' {
        3
    } else if c == '4' {
        4
    } else if c == '5' {
        5
    } else if c == '6' {
        6
    } else if c == '7' {
        7
    } else if c == '8' {
        8
    } else if c == '9' {
        9
    } else {
        10
    }
}

/// Growing a digit string can only grow its value.
proof fn lemma_dec_val_prefix(s: Seq<char>, i: int)
    requires
        0 <= i <= s.len(),
    ensures
        dec_val(s) >= dec_val(s.subrange(0, i)),
    decreases s.len() - i,
{
    if i == s.len() {
        assert(s.subrange(0, i) =~= s);
    } else {
        let t = s.subrange(0, i + 1);
        assert(t.drop_last() =~= s.subrange(0, i));
        lemma_dec_val_prefix(s, i + 1);
    }
}

/// Parse a decimal digit string into a `u64`.
///
/// Returns `Some` exactly when `s` is non-empty, holds only digits, and its
/// value fits.
pub fn parse_u64(s: &str) -> (r: Option<u64>)
    ensures
        match r {
            Some(v) => {
                &&& s@.len() > 0
                &&& all_digits(s@)
                &&& v == dec_val(s@)
            },
            None => s@.len() == 0 || !all_digits(s@) || dec_val(s@) > u64::MAX,
        },
{
    let n = s.unicode_len();
    if n == 0 {
        return None;
    }
    let mut acc: u64 = 0;
    let mut i: usize = 0;
    while i < n
        invariant
            i <= n,
            n == s@.len(),
            acc == dec_val(s@.subrange(0, i as int)),
            all_digits(s@.subrange(0, i as int)),
        decreases n - i,
    {
        let ghost pre = s@.subrange(0, i as int);
        let ghost cur = s@.subrange(0, i as int + 1);
        proof {
            assert(cur.drop_last() =~= pre);
            assert(cur.last() == s@[i as int]);
        }
        let d = digit_of(s.get_char(i));
        if d >= 10 {
            return None;
        }
        if acc > (u64::MAX - d) / 10 {
            proof {
                lemma_dec_val_prefix(s@, i + 1);
            }
            return None;
        }
        acc = acc * 10 + d;
        i = i + 1;
    }
    proof {
        assert(s@.subrange(0, n as int) =~= s@);
    }
    Some(acc)
}

/// Index of the first occurrence of `c` in `s`; the length of `s` when `c`
/// does not occur.
pub open spec fn first_idx(s: Seq<char>, c: char) -> int
    decreases s.len(),
{
    if s.len() == 0 {
        0
    } else if s[0] == c {
        0
    } else {
        1 + first_idx(s.skip(1), c)
    }
}

/// Find the first occurrence of `c`, reported as [`first_idx`].
pub fn first_index(s: &str, c: char) -> (r: usize)
    ensures
        r == first_idx(s@, c),
        r <= s@.len(),
        r < s@.len() ==> s@[r as int] == c,
{
    let n = s.unicode_len();
    let mut i: usize = 0;
    proof {
        assert(s@.subrange(0, n as int) =~= s@);
    }
    while i < n
        invariant
            i <= n,
            n == s@.len(),
            first_idx(s@, c) == i + first_idx(s@.subrange(i as int, n as int), c),
        decreases n - i,
    {
        let ghost rest = s@.subrange(i as int, n as int);
        proof {
            assert(rest[0] == s@[i as int]);
            assert(rest.skip(1) =~= s@.subrange(i as int + 1, n as int));
        }
        if s.get_char(i) == c {
            return i;
        }
        i = i + 1;
    }
    proof {
        assert(s@.subrange(n as int, n as int) =~= Seq::<char>::empty());
    }
    n
}

/// `s` with leading spaces removed.
pub open spec fn trim_start_spec(s: Seq<char>) -> Seq<char>
    decreases s.len(),
{
    if s.len() > 0 && s[0] == ' ' {
        trim_start_spec(s.skip(1))
    } else {
        s
    }
}

/// `s` with trailing spaces removed.
pub open spec fn trim_end_spec(s: Seq<char>) -> Seq<char>
    decreases s.len(),
{
    if s.len() > 0 && s.last() == ' ' {
        trim_end_spec(s.drop_last())
    } else {
        s
    }
}

/// `s` with leading and trailing spaces removed.
pub open spec fn trim_spec(s: Seq<char>) -> Seq<char> {
    trim_end_spec(trim_start_spec(s))
}

/// Remove leading and trailing spaces.
pub fn trim_spaces(s: &str) -> (r: String)
    ensures
        r@ == trim_spec(s@),
{
    let n = s.unicode_len();
    let lo = scan_spaces_start(s);
    let hi = scan_spaces_end(s, lo);
    slice_between(s, lo, hi)
}

/// Index of the first non-space character (the length when all spaces).
fn scan_spaces_start(s: &str) -> (lo: usize)
    ensures
        lo <= s@.len(),
        trim_start_spec(s@) == s@.subrange(lo as int, s@.len() as int),
{
    let n = s.unicode_len();
    let mut i: usize = 0;
    proof {
        assert(s@.subrange(0, n as int) =~= s@);
    }
    while i < n
        invariant
            i <= n,
            n == s@.len(),
            trim_start_spec(s@) == trim_start_spec(s@.subrange(i as int, n as int)),
        decreases n - i,
    {
        let ghost rest = s@.subrange(i as int, n as int);
        proof {
            assert(rest[0] == s@[i as int]);
            assert(rest.skip(1) =~= s@.subrange(i as int + 1, n as int));
        }
        if s.get_char(i) != ' ' {
            return i;
        }
        i = i + 1;
    }
    proof {
        assert(s@.subrange(n as int, n as int) =~= Seq::<char>::empty());
    }
    n
}

/// One past the last non-space character at or after `lo`.
fn scan_spaces_end(s: &str, lo: usize) -> (hi: usize)
    requires
        lo <= s@.len(),
    ensures
        lo <= hi <= s@.len(),
        trim_end_spec(s@.subrange(lo as int, s@.len() as int)) == s@.subrange(
            lo as int,
            hi as int,
        ),
{
    let n = s.unicode_len();
    let mut i: usize = n;
    while i > lo
        invariant
            lo <= i <= n,
            n == s@.len(),
            trim_end_spec(s@.subrange(lo as int, n as int)) == trim_end_spec(
                s@.subrange(lo as int, i as int),
            ),
        decreases i,
    {
        let ghost part = s@.subrange(lo as int, i as int);
        proof {
            assert(part.last() == s@[i as int - 1]);
            assert(part.drop_last() =~= s@.subrange(lo as int, i as int - 1));
        }
        if s.get_char(i - 1) != ' ' {
            return i;
        }
        i = i - 1;
    }
    proof {
        assert(s@.subrange(lo as int, lo as int) =~= Seq::<char>::empty());
    }
    lo
}

/// Lower-case the ASCII letters of `s`.
pub fn to_ascii_lower(s: &str) -> (r: String)
    ensures
        r@ == lower_spec(s@),
{
    let n = s.unicode_len();
    let mut out = String::new();
    let mut i: usize = 0;
    while i < n
        invariant
            i <= n,
            n == s@.len(),
            out@ == lower_spec(s@).subrange(0, i as int),
        decreases n - i,
    {
        let c = lower_char(s.get_char(i));
        push_char(&mut out, c);
        proof {
            assert(out@ =~= lower_spec(s@).subrange(0, i as int + 1));
        }
        i = i + 1;
    }
    proof {
        assert(lower_spec(s@).subrange(0, n as int) =~= lower_spec(s@));
    }
    out
}

/// The parts of `s` between occurrences of `sep`, in order.  There is
/// always at least one part; separators at the ends yield empty parts.
pub open spec fn split_spec(s: Seq<char>, sep: char) -> Seq<Seq<char>>
    decreases s.len(),
{
    if s.len() == 0 {
        seq![Seq::empty()]
    } else if s.last() == sep {
        split_spec(s.drop_last(), sep) + seq![Seq::empty()]
    } else {
        let r = split_spec(s.drop_last(), sep);
        r.drop_last() + seq![r.last() + seq![s.last()]]
    }
}

/// Split `s` on `sep`.
pub fn split_on(s: &str, sep: char) -> (r: Vec<String>)
    ensures
        r.deep_view() == split_spec(s@, sep),
        r@.len() > 0,
{
    let n = s.unicode_len();
    let mut out: Vec<String> = Vec::new();
    let mut cur = String::new();
    let mut i: usize = 0;
    while i < n
        invariant
            i <= n,
            n == s@.len(),
            split_spec(s@.subrange(0, i as int), sep) == out.deep_view() + seq![cur@],
        decreases n - i,
    {
        let ghost pre = s@.subrange(0, i as int);
        let ghost cur0 = cur@;
        let ghost out0 = out.deep_view();
        let c = s.get_char(i);
        if c == sep {
            out.push(cur);
            cur = String::new();
        } else {
            push_char(&mut cur, c);
        }
        proof {
            let ext = s@.subrange(0, i as int + 1);
            assert(ext.drop_last() =~= pre);
            assert(ext.last() == s@[i as int]);
            assert(out.deep_view() =~= if c == sep {
                out0 + seq![cur0]
            } else {
                out0
            });
            if c == sep {
                assert(split_spec(ext, sep) =~= out.deep_view() + seq![cur@]);
            } else {
                assert((out0 + seq![cur0]).drop_last() =~= out0);
                assert((out0 + seq![cur0]).last() == cur0);
                assert(split_spec(ext, sep) =~= out.deep_view() + seq![cur@]);
            }
        }
        i = i + 1;
    }
    proof {
        assert(s@.subrange(0, n as int) =~= s@);
    }
    out.push(cur);
    proof {
        assert(out.deep_view() =~= split_spec(s@, sep));
    }
    out
}

} // verus!
