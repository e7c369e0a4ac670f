//! Primitive tokenizers shared by every grammar.
//!
//! Each executable reader is a position-based scanner over the characters of
//! one input line; its contract ties the result to a spec-level function of
//! the line's character sequence, so every grammar built from these readers
//! can state exactly which lines it accepts and which value it produces.

use vstd::prelude::*;

verus! {

// ---------------------------------------------------------------------------
// character classes
// ---------------------------------------------------------------------------

/// Whitespace as skipped between fields (space, tab, CR, LF).
pub open spec fn is_wsp(c: char) -> bool {
    c == ' ' || c == '\t' || c == '\r' || c == '\n'
}

/// Character classes at which the token scanners stop.
#[derive(Clone, Copy, PartialEq, Eq, Structural, Debug)]
pub enum StopAt {
    /// stop at a space
    Space,
    /// stop at a space, `:` or `/` (numeric fields)
    NumDelim,
    /// stop at a space or `:`
    Colon,
    /// stop at a space or `/`
    Slash,
    /// stop at a space, `/` or `.` (dotted address octets)
    Dotted,
    /// stop at a line feed (verbatim values)
    Line,
}

pub open spec fn stops(cl: StopAt, c: char) -> bool {
    match cl {
        StopAt::Space => c == ' ',
        StopAt::NumDelim => c == ' ' || c == ':' || c == '/',
        StopAt::Colon => c == ' ' || c == ':',
        StopAt::Slash => c == ' ' || c == '/',
        StopAt::Dotted => c == ' ' || c == '/' || c == '.',
        StopAt::Line => c == '\n',
    }
}

pub open spec fn is_digit_char(c: char) -> bool {
    '0' <= c && c <= '9'
}

pub open spec fn is_hex_char(c: char) -> bool {
    is_digit_char(c) || ('a' <= c && c <= 'f') || ('A' <= c && c <= 'F')
}

// ---------------------------------------------------------------------------
// spec-level scanning
// ---------------------------------------------------------------------------

/// First index at or after `i` holding a non-whitespace character.
pub open spec fn skip_wsp(s: Seq<char>, i: int) -> int
    decreases s.len() - i,
    when 0 <= i <= s.len()
{
    if i < s.len() && is_wsp(s[i]) {
        skip_wsp(s, i + 1)
    } else {
        i
    }
}

/// First index at or after `i` holding a stop character of class `cl`.
pub open spec fn token_end(s: Seq<char>, i: int, cl: StopAt) -> int
    decreases s.len() - i,
    when 0 <= i <= s.len()
{
    if i < s.len() && !stops(cl, s[i]) {
        token_end(s, i + 1, cl)
    } else {
        i
    }
}

/// Last index `k` in `[i, j]` such that `[k, j)` holds only whitespace.
pub open spec fn rtrim_idx(s: Seq<char>, i: int, j: int) -> int
    decreases j - i,
    when 0 <= i <= j <= s.len()
{
    if j > i && is_wsp(s[j - 1]) {
        rtrim_idx(s, i, j - 1)
    } else {
        j
    }
}

pub broadcast proof fn lemma_skip_wsp_bounds(s: Seq<char>, i: int)
    requires
        0 <= i <= s.len(),
    ensures
        i <= #[trigger] skip_wsp(s, i) <= s.len(),
        skip_wsp(s, i) == s.len() || !is_wsp(s[skip_wsp(s, i)]),
    decreases s.len() - i,
{
    if i < s.len() && is_wsp(s[i]) {
        lemma_skip_wsp_bounds(s, i + 1);
    }
}

pub broadcast proof fn lemma_token_end_bounds(s: Seq<char>, i: int, cl: StopAt)
    requires
        0 <= i <= s.len(),
    ensures
        i <= #[trigger] token_end(s, i, cl) <= s.len(),
    decreases s.len() - i,
{
    if i < s.len() && !stops(cl, s[i]) {
        lemma_token_end_bounds(s, i + 1, cl);
    }
}

/// Where no stop character stands from `i` on, the scan runs to the end.
pub proof fn lemma_token_end_no_stop(s: Seq<char>, i: int, cl: StopAt)
    requires
        0 <= i <= s.len(),
        forall|k: int| i <= k < s.len() ==> !stops(cl, #[trigger] s[k]),
    ensures
        token_end(s, i, cl) == s.len(),
    decreases s.len() - i,
{
    if i < s.len() {
        lemma_token_end_no_stop(s, i + 1, cl);
    }
}

/// The scan stops exactly at `j` when nothing before `j` stops it and `j`
/// is the end or holds a stop character.
pub proof fn lemma_token_end_at(s: Seq<char>, i: int, j: int, cl: StopAt)
    requires
        0 <= i <= j <= s.len(),
        forall|k: int| i <= k < j ==> !stops(cl, #[trigger] s[k]),
        j == s.len() || stops(cl, s[j]),
    ensures
        token_end(s, i, cl) == j,
    decreases j - i,
{
    if i < j {
        lemma_token_end_at(s, i + 1, j, cl);
    }
}

/// No character before the scan's stop position is a stop character.
pub proof fn lemma_token_end_chars(s: Seq<char>, i: int, cl: StopAt)
    requires
        0 <= i <= s.len(),
    ensures
        forall|k: int| i <= k < token_end(s, i, cl) ==> !stops(cl, #[trigger] s[k]),
    decreases s.len() - i,
{
    if i < s.len() && !stops(cl, s[i]) {
        lemma_token_end_chars(s, i + 1, cl);
    }
}

/// Whitespace skipping stops exactly at `j` when everything before `j` is
/// whitespace and `j` is the end or holds something else.
pub proof fn lemma_skip_wsp_at(s: Seq<char>, i: int, j: int)
    requires
        0 <= i <= j <= s.len(),
        forall|k: int| i <= k < j ==> is_wsp(#[trigger] s[k]),
        j == s.len() || !is_wsp(s[j]),
    ensures
        skip_wsp(s, i) == j,
    decreases j - i,
{
    if i < j {
        lemma_skip_wsp_at(s, i + 1, j);
    }
}

pub broadcast proof fn lemma_rtrim_bounds(s: Seq<char>, i: int, j: int)
    requires
        0 <= i <= j <= s.len(),
    ensures
        i <= #[trigger] rtrim_idx(s, i, j) <= j,
        rtrim_idx(s, i, j) == i || !is_wsp(s[rtrim_idx(s, i, j) - 1]),
    decreases j - i,
{
    if j > i && is_wsp(s[j - 1]) {
        lemma_rtrim_bounds(s, i, j - 1);
    }
}

// ---------------------------------------------------------------------------
// literal matching
// ---------------------------------------------------------------------------

/// `t` occurs in `s` starting at index `i`.
pub open spec fn occurs_at(s: Seq<char>, i: int, t: Seq<char>) -> bool {
    0 <= i && i + t.len() <= s.len() && s.subrange(i, i + t.len()) == t
}

/// Whether the literal `lit` occurs in `s` at character position `i`.
pub fn match_lit(s: &str, i: usize, lit: &str) -> (b: bool)
    requires
        i <= s@.len(),
    ensures
        b == occurs_at(s@, i as int, lit@),
{
    let n = s.unicode_len();
    let m = lit.unicode_len();
    if m > n || i > n - m {
        return false;
    }
    let mut k: usize = 0;
    while k < m
        invariant
            0 <= k <= m,
            i + m <= n,
            n == s@.len(),
            m == lit@.len(),
            forall|q: int| 0 <= q < k ==> s@[i + q] == lit@[q],
        decreases m - k,
    {
        if s.get_char(i + k) != lit.get_char(k) {
            assert(!occurs_at(s@, i as int, lit@)) by {
                if occurs_at(s@, i as int, lit@) {
                    assert(s@.subrange(i as int, i + m)[k as int] == lit@[k as int]);
                }
            }
            return false;
        }
        k += 1;
    }
    assert(s@.subrange(i as int, i + m) =~= lit@);
    true
}

// ---------------------------------------------------------------------------
// executable scanners
// ---------------------------------------------------------------------------

/// Skip whitespace starting at `i`.
pub fn skip_ws(s: &str, i: usize) -> (r: usize)
    requires
        i <= s@.len(),
    ensures
        r == skip_wsp(s@, i as int),
        i <= r <= s@.len(),
{
    let n = s.unicode_len();
    let mut j = i;
    while j < n
        invariant
            i <= j <= n,
            n == s@.len(),
            skip_wsp(s@, i as int) == skip_wsp(s@, j as int),
        ensures
            skip_wsp(s@, i as int) == skip_wsp(s@, j as int),
            i <= j <= n,
            j < n ==> !is_wsp(s@[j as int]),
        decreases n - j,
    {
        let c = s.get_char(j);
        if !(c == ' ' || c == '\t' || c == '\r' || c == '\n') {
            break;
        }
        j += 1;
    }
    j
}

/// Scan to the first stop character of class `cl` at or after `i`.
pub fn scan(s: &str, i: usize, cl: StopAt) -> (r: usize)
    requires
        i <= s@.len(),
    ensures
        r == token_end(s@, i as int, cl),
        i <= r <= s@.len(),
{
    let n = s.unicode_len();
    let mut j = i;
    while j < n
        invariant
            i <= j <= n,
            n == s@.len(),
            token_end(s@, i as int, cl) == token_end(s@, j as int, cl),
        ensures
            token_end(s@, i as int, cl) == token_end(s@, j as int, cl),
            i <= j <= n,
            j < n ==> stops(cl, s@[j as int]),
        decreases n - j,
    {
        let c = s.get_char(j);
        let stop = match cl {
            StopAt::Space => c == ' ',
            StopAt::NumDelim => c == ' ' || c == ':' || c == '/',
            StopAt::Colon => c == ' ' || c == ':',
            StopAt::Slash => c == ' ' || c == '/',
            StopAt::Dotted => c == ' ' || c == '/' || c == '.',
            StopAt::Line => c == '\n',
        };
        if stop {
            break;
        }
        j += 1;
    }
    j
}

/// Copy the character range `[i, j)` of `s` into an owned string.
pub fn substring(s: &str, i: usize, j: usize) -> (r: String)
    requires
        i <= j <= s@.len(),
    ensures
        r@ == s@.subrange(i as int, j as int),
{
    s.substring_char(i, j).to_owned()
}

// ---------------------------------------------------------------------------
// decimal numbers
// ---------------------------------------------------------------------------

pub open spec fn all_digits(s: Seq<char>) -> bool {
    forall|k: int| 0 <= k < s.len() ==> is_digit_char(#[trigger] s[k])
}

/// Numeric value of a digit string.
pub open spec fn digits_val(s: Seq<char>) -> int
    decreases s.len(),
{
    if s.len() == 0 {
        0
    } else {
        digits_val(s.drop_last()) * 10 + (s.last() as int - '0' as int)
    }
}

pub proof fn lemma_digits_val_nonneg(s: Seq<char>)
    requires
        all_digits(s),
    ensures
        digits_val(s) >= 0,
    decreases s.len(),
{
    if s.len() > 0 {
        assert(all_digits(s.drop_last()));
        lemma_digits_val_nonneg(s.drop_last());
    }
}

pub proof fn lemma_digits_val_prefix(s: Seq<char>, k: int)
    requires
        all_digits(s),
        0 <= k <= s.len(),
    ensures
        digits_val(s.subrange(0, k)) <= digits_val(s),
    decreases s.len() - k,
{
    if k < s.len() {
        lemma_digits_val_prefix(s, k + 1);
        let p = s.subrange(0, k + 1);
        assert(all_digits(p));
        assert(p.drop_last() =~= s.subrange(0, k));
        lemma_digits_val_nonneg(p.drop_last());
        assert(digits_val(s.subrange(0, k)) <= digits_val(p));
    } else {
        assert(s.subrange(0, k) =~= s);
    }
}

pub open spec fn pow10(n: int) -> int
    decreases n,
    when n >= 0
{
    if n <= 0 {
        1
    } else {
        10 * pow10(n - 1)
    }
}

pub proof fn lemma_digits_val_bound(s: Seq<char>)
    requires
        all_digits(s),
    ensures
        0 <= digits_val(s) < pow10(s.len() as int),
    decreases s.len(),
{
    if s.len() == 0 {
    } else {
        assert(all_digits(s.drop_last()));
        lemma_digits_val_bound(s.drop_last());
        assert(s.last() as int - '0' as int <= 9);
    }
}

/// The token (under the numeric delimiters) starting at `i`, parsed as a
/// decimal number, if it is non-empty, all digits and at most `max`.
pub open spec fn spec_read_num(s: Seq<char>, i: int, max: int) -> Option<(int, int)> {
    let j = token_end(s, i, StopAt::NumDelim);
    let t = s.subrange(i, j);
    if t.len() > 0 && all_digits(t) && digits_val(t) <= max {
        Some((j, digits_val(t)))
    } else {
        None
    }
}

/// Read a decimal `u32` token starting at `i`.
pub fn read_number(s: &str, i: usize) -> (r: Option<(usize, u32)>)
    requires
        i <= s@.len(),
    ensures
        match r {
            Some((j, v)) => {
                &&& spec_read_num(s@, i as int, u32::MAX as int) == Some((j as int, v as int))
                &&& i <= j <= s@.len()
            },
            None => spec_read_num(s@, i as int, u32::MAX as int) is None,
        },
{
    match read_big_number(s, i) {
        Some((j, v)) => {
            proof {
                let t = s@.subrange(i as int, j as int);
                if v > u32::MAX as u64 {
                    assert(spec_read_num(s@, i as int, u32::MAX as int) is None);
                }
            }
            if v <= u32::MAX as u64 {
                Some((j, v as u32))
            } else {
                None
            }
        },
        None => {
            proof {
                let j = token_end(s@, i as int, StopAt::NumDelim);
                lemma_token_end_bounds(s@, i as int, StopAt::NumDelim);
                let t = s@.subrange(i as int, j);
                if t.len() > 0 && all_digits(t) && digits_val(t) <= u32::MAX as int {
                    assert(digits_val(t) <= u64::MAX as int);
                }
            }
            None
        },
    }
}

/// Read a decimal `u64` token starting at `i`.
pub fn read_big_number(s: &str, i: usize) -> (r: Option<(usize, u64)>)
    requires
        i <= s@.len(),
    ensures
        match r {
            Some((j, v)) => {
                &&& spec_read_num(s@, i as int, u64::MAX as int) == Some((j as int, v as int))
                &&& i <= j <= s@.len()
            },
            None => spec_read_num(s@, i as int, u64::MAX as int) is None,
        },
{
    let j = scan(s, i, StopAt::NumDelim);
    if j == i {
        return None;
    }
    let ghost t = s@.subrange(i as int, j as int);
    let mut k = i;
    let mut acc: u64 = 0;
    while k < j
        invariant
            i <= k <= j <= s@.len(),
            j == token_end(s@, i as int, StopAt::NumDelim),
            t == s@.subrange(i as int, j as int),
            all_digits(s@.subrange(i as int, k as int)),
            acc as int == digits_val(s@.subrange(i as int, k as int)),
        decreases j - k,
    {
        let c = s.get_char(k);
        if !(c >= '0' && c <= '9') {
            assert(!all_digits(t)) by {
                assert(t[k - i] == s@[k as int]);
            }
            return None;
        }
        let d: u64 = (c as u32 as u64) - ('0' as u32 as u64);
        let wide: u128 = (acc as u128) * 10 + (d as u128);
        proof {
            let p = s@.subrange(i as int, k + 1);
            assert(p.drop_last() =~= s@.subrange(i as int, k as int));
            assert(p.last() == s@[k as int]);
            assert(all_digits(p));
            assert(digits_val(p) == acc as int * 10 + d as int);
        }
        if wide > u64::MAX as u128 {
            proof {
                if all_digits(t) {
                    lemma_digits_val_prefix(t, k + 1 - i);
                    assert(t.subrange(0, k + 1 - i) =~= s@.subrange(i as int, k + 1));
                    assert(digits_val(t) > u64::MAX as int);
                }
            }
            return None;
        }
        acc = wide as u64;
        k += 1;
    }
    assert(t =~= s@.subrange(i as int, j as int));
    Some((j, acc))
}

// ---------------------------------------------------------------------------
// rendering decimal numbers
// ---------------------------------------------------------------------------

pub open spec fn digit_char(d: int) -> char {
    if d == 0 { '0' }
    else if d == 1 { '1' }
    else if d == 2 { '2' }
    else if d == 3 { '3' }
    else if d == 4 { '4' }
    else if d == 5 { '5' }
    else if d == 6 { '6' }
    else if d == 7 { '7' }
    else if d == 8 { '8' }
    else { '9' }
}

/// Decimal rendering of a non-negative number.
pub open spec fn dec_str(n: int) -> Seq<char>
    decreases n,
    when n >= 0
{
    if n < 10 {
        seq![digit_char(n)]
    } else {
        dec_str(n / 10).push(digit_char(n % 10))
    }
}

pub proof fn lemma_dec_str_digits(n: int)
    requires
        n >= 0,
    ensures
        dec_str(n).len() >= 1,
        all_digits(dec_str(n)),
    decreases n,
{
    if n >= 10 {
        lemma_dec_str_digits(n / 10);
        assert forall|k: int| 0 <= k < dec_str(n).len() implies is_digit_char(
            #[trigger] dec_str(n)[k],
        ) by {
            if k < dec_str(n / 10).len() {
                assert(dec_str(n)[k] == dec_str(n / 10)[k]);
            }
        }
    }
}

/// Parsing the decimal rendering gives the number back.
pub proof fn lemma_dec_str_val(n: int)
    requires
        n >= 0,
    ensures
        digits_val(dec_str(n)) == n,
    decreases n,
{
    lemma_dec_str_digits(n);
    if n < 10 {
        assert(dec_str(n) == seq![digit_char(n)]);
        assert(dec_str(n).drop_last() =~= Seq::<char>::empty());
        assert(dec_str(n).last() == digit_char(n));
        assert(digits_val(Seq::<char>::empty()) == 0);
        assert(digits_val(dec_str(n)) == digits_val(dec_str(n).drop_last()) * 10 + (dec_str(
            n,
        ).last() as int - '0' as int));
        assert(digit_char(n) as int - '0' as int == n);
    } else {
        lemma_dec_str_val(n / 10);
        assert(dec_str(n).drop_last() =~= dec_str(n / 10));
        assert(dec_str(n).last() == digit_char(n % 10));
        assert(digit_char(n % 10) as int - '0' as int == n % 10);
    }
}

fn digit_str(d: u64) -> (r: &'static str)
    requires
        d < 10,
    ensures
        r@ =~= seq![digit_char(d as int)],
{
    proof {
        reveal_strlit("0");
        reveal_strlit("1");
        reveal_strlit("2");
        reveal_strlit("3");
        reveal_strlit("4");
        reveal_strlit("5");
        reveal_strlit("6");
        reveal_strlit("7");
        reveal_strlit("8");
        reveal_strlit("9");
    }
    if d == 0 { "0" }
    else if d == 1 { "1" }
    else if d == 2 { "2" }
    else if d == 3 { "3" }
    else if d == 4 { "4" }
    else if d == 5 { "5" }
    else if d == 6 { "6" }
    else if d == 7 { "7" }
    else if d == 8 { "8" }
    else { "9" }
}

/// Render `n` in decimal.
pub fn u64_to_string(n: u64) -> (r: String)
    ensures
        r@ == dec_str(n as int),
    decreases n,
{
    if n < 10 {
        digit_str(n).to_owned()
    } else {
        let mut r = u64_to_string(n / 10);
        r.append(digit_str(n % 10));
        proof {
            assert(dec_str(n as int) =~= dec_str(n as int / 10) + seq![
                digit_char(n as int % 10),
            ]);
        }
        r
    }
}

/// Render `n` in decimal.
pub fn u32_to_string(n: u32) -> (r: String)
    ensures
        r@ == dec_str(n as int),
{
    u64_to_string(n as u64)
}


/// A number under 1000 renders in at most three digits.
pub proof fn lemma_dec_str_len_3(n: int)
    requires
        0 <= n < 1000,
    ensures
        1 <= dec_str(n).len() <= 3,
{
    if n >= 10 {
        if n >= 100 {
            assert(dec_str(n / 10).len() == dec_str(n / 10 / 10).len() + 1);
        }
    }
}

/// An address rendering embedded in a line, delimited like an address token,
/// reads back as that address.
pub proof fn lemma_addr_embedded(s2: Seq<char>, a: IpAddressV, i: int, j: int)
    requires
        0 <= i <= j <= s2.len(),
        s2.subrange(i, j) == spec_render_addr(a),
        j == s2.len() || stops(StopAt::Slash, s2[j]),
        match a {
            IpAddressV::V6(t) => spec_ipv6_ok(t) && forall|q: int|
                0 <= q < t.len() ==> !stops(StopAt::Slash, #[trigger] t[q]),
            IpAddressV::V4(o1, o2, o3, o4) => true,
        },
    ensures
        spec_read_addr(s2, i) == Some((j, a)),
{
    match a {
        IpAddressV::V4(o1, o2, o3, o4) => lemma_addr_embedded_v4(s2, a, i, j),
        IpAddressV::V6(t) => lemma_addr_embedded_v6(s2, a, i, j),
    }
}

proof fn lemma_addr_embedded_v4(s2: Seq<char>, a: IpAddressV, i: int, j: int)
    requires
        0 <= i <= j <= s2.len(),
        s2.subrange(i, j) == spec_render_addr(a),
        j == s2.len() || stops(StopAt::Slash, s2[j]),
        a is V4,
    ensures
        spec_read_addr(s2, i) == Some((j, a)),
{
    reveal_strlit(".");
    match a {
        IpAddressV::V6(_) => {},
        IpAddressV::V4(o1, o2, o3, o4) => {
            let d1 = dec_str(o1 as int);
            let d2 = dec_str(o2 as int);
            let d3 = dec_str(o3 as int);
            let d4 = dec_str(o4 as int);
            lemma_dec_str_digits(o1 as int);
            lemma_dec_str_digits(o2 as int);
            lemma_dec_str_digits(o3 as int);
            lemma_dec_str_digits(o4 as int);
            lemma_dec_str_len_3(o1 as int);
            lemma_dec_str_len_3(o2 as int);
            lemma_dec_str_len_3(o3 as int);
            lemma_dec_str_len_3(o4 as int);
            let p1 = i + d1.len() as int;
            let p2 = p1 + 1 + d2.len() as int;
            let p3 = p2 + 1 + d3.len() as int;
            let e1 = d1 + "."@;
            let e2 = e1 + d2;
            let e3 = e2 + "."@;
            let e4 = e3 + d3;
            let e5 = e4 + "."@;
            let rr = e5 + d4;
            assert(spec_render_addr(a) == rr);
            assert(s2.subrange(i, j) == rr);
            assert forall|q: int| 0 <= q < rr.len() implies #[trigger] s2[i + q] == rr[q] by {
                assert(s2.subrange(i, j)[q] == s2[i + q]);
            }
            assert(s2.subrange(i, p1) =~= d1) by {
                assert forall|q: int| 0 <= q < d1.len() implies #[trigger] s2.subrange(i, p1)[q]
                    == d1[q] by {
                    assert(s2[i + q] == rr[q]);
                    assert(rr[q] == e5[q]);
                    assert(e5[q] == e4[q]);
                    assert(e4[q] == e3[q]);
                    assert(e3[q] == e2[q]);
                    assert(e2[q] == e1[q]);
                    assert(e1[q] == d1[q]);
                }
            }
            assert(s2[p1] == '.') by {
                assert(s2[i + (p1 - i)] == rr[p1 - i]);
                assert(rr[p1 - i] == e1[p1 - i]);
            }
            assert(s2.subrange(p1 + 1, p2) =~= d2) by {
                assert forall|q: int| 0 <= q < d2.len() implies #[trigger] s2.subrange(
                    p1 + 1,
                    p2,
                )[q] == d2[q] by {
                    let w = p1 + 1 + q - i;
                    assert(s2[i + w] == rr[w]);
                    assert(rr[w] == e2[w]);
                    assert(e2[w] == d2[w - e1.len()]);
                }
            }
            assert(s2[p2] == '.') by {
                assert(s2[i + (p2 - i)] == rr[p2 - i]);
                assert(rr[p2 - i] == e3[p2 - i]);
            }
            assert(s2.subrange(p2 + 1, p3) =~= d3) by {
                assert forall|q: int| 0 <= q < d3.len() implies #[trigger] s2.subrange(
                    p2 + 1,
                    p3,
                )[q] == d3[q] by {
                    let w = p2 + 1 + q - i;
                    assert(s2[i + w] == rr[w]);
                    assert(rr[w] == e4[w]);
                    assert(e4[w] == d3[w - e3.len()]);
                }
            }
            assert(s2[p3] == '.') by {
                assert(s2[i + (p3 - i)] == rr[p3 - i]);
                assert(rr[p3 - i] == e5[p3 - i]);
            }
            assert(s2.subrange(p3 + 1, j) =~= d4) by {
                assert forall|q: int| 0 <= q < d4.len() implies #[trigger] s2.subrange(
                    p3 + 1,
                    j,
                )[q] == d4[q] by {
                    let w = p3 + 1 + q - i;
                    assert(s2[i + w] == rr[w]);
                    assert(rr[w] == d4[w - e5.len()]);
                }
            }
            lemma_digits_slice_local(s2, i, p1, o1 as int);
            lemma_digits_slice_local(s2, p1 + 1, p2, o2 as int);
            lemma_digits_slice_local(s2, p2 + 1, p3, o3 as int);
            lemma_digits_slice_local(s2, p3 + 1, j, o4 as int);
            assert forall|k: int| i <= k < j implies !stops(StopAt::Slash, #[trigger] s2[k]) by {
                if k < p1 {
                } else if k == p1 {
                } else if k < p2 {
                } else if k == p2 {
                } else if k < p3 {
                } else if k == p3 {
                }
            }
            lemma_token_end_at(s2, i, j, StopAt::Slash);
            lemma_token_end_at(s2, i, p1, StopAt::Dotted);
            lemma_token_end_at(s2, p1 + 1, p2, StopAt::Dotted);
            lemma_token_end_at(s2, p2 + 1, p3, StopAt::Dotted);
            lemma_token_end_at(s2, p3 + 1, j, StopAt::Dotted);
            assert(spec_octet(s2, i, p1) == Some(o1));
            assert(spec_octet(s2, p1 + 1, p2) == Some(o2));
            assert(spec_octet(s2, p2 + 1, p3) == Some(o3));
            assert(spec_octet(s2, p3 + 1, j) == Some(o4));
            assert(spec_ipv4(s2, i, j) == Some(a));
        },
    }
}

proof fn lemma_addr_embedded_v6(s2: Seq<char>, a: IpAddressV, i: int, j: int)
    requires
        0 <= i <= j <= s2.len(),
        s2.subrange(i, j) == spec_render_addr(a),
        j == s2.len() || stops(StopAt::Slash, s2[j]),
        a is V6,
        match a {
            IpAddressV::V6(t) => spec_ipv6_ok(t) && forall|q: int|
                0 <= q < t.len() ==> !stops(StopAt::Slash, #[trigger] t[q]),
            IpAddressV::V4(o1, o2, o3, o4) => true,
        },
    ensures
        spec_read_addr(s2, i) == Some((j, a)),
{
    match a {
        IpAddressV::V4(o1, o2, o3, o4) => {},
        IpAddressV::V6(t) => {
            assert(t.len() > 0);
            assert forall|k: int| i <= k < j implies !stops(StopAt::Slash, #[trigger] s2[k]) by {
                assert(s2[k] == t[k - i]);
            }
            lemma_token_end_at(s2, i, j, StopAt::Slash);
            assert(s2.subrange(i, j) =~= t);
            assert(spec_ipv4(s2, i, j) is None) by {
                if spec_ipv4(s2, i, j) is Some {
                    let d1 = token_end(s2, i, StopAt::Dotted);
                    assert(d1 < j && s2[d1] == '.');
                    lemma_token_end_bounds(s2, i, StopAt::Dotted);
                    let d2 = token_end(s2, d1 + 1, StopAt::Dotted);
                    assert(d2 < j && s2[d2] == '.');
                    lemma_token_end_bounds(s2, d1 + 1, StopAt::Dotted);
                    let d3 = token_end(s2, d2 + 1, StopAt::Dotted);
                    assert(d3 < j && s2[d3] == '.');
                    lemma_token_end_bounds(s2, d2 + 1, StopAt::Dotted);
                    let d4 = token_end(s2, d3 + 1, StopAt::Dotted);
                    assert(d4 == j);
                    lemma_token_end_bounds(s2, d3 + 1, StopAt::Dotted);
                    lemma_token_end_chars(s2, i, StopAt::Dotted);
                    lemma_token_end_chars(s2, d1 + 1, StopAt::Dotted);
                    lemma_token_end_chars(s2, d2 + 1, StopAt::Dotted);
                    lemma_token_end_chars(s2, d3 + 1, StopAt::Dotted);
                    let q = choose|q: int| 0 <= q < t.len() && t[q] == ':';
                    let w = i + q;
                    assert(s2[w] == ':');
                    assert(spec_octet(s2, i, d1) is Some);
                    assert(spec_octet(s2, d1 + 1, d2) is Some);
                    assert(spec_octet(s2, d2 + 1, d3) is Some);
                    assert(spec_octet(s2, d3 + 1, d4) is Some);
                    assert(all_digits(s2.subrange(i, d1)));
                    assert(all_digits(s2.subrange(d1 + 1, d2)));
                    assert(all_digits(s2.subrange(d2 + 1, d3)));
                    assert(all_digits(s2.subrange(d3 + 1, d4)));
                    if w < d1 {
                        assert(is_digit_char(s2.subrange(i, d1)[w - i]));
                    } else if w == d1 {
                    } else if w < d2 {
                        assert(is_digit_char(s2.subrange(d1 + 1, d2)[w - d1 - 1]));
                    } else if w == d2 {
                    } else if w < d3 {
                        assert(is_digit_char(s2.subrange(d2 + 1, d3)[w - d2 - 1]));
                    } else if w == d3 {
                    } else {
                        assert(is_digit_char(s2.subrange(d3 + 1, d4)[w - d3 - 1]));
                    }
                }
            }
            assert(spec_ipv6_ok(s2.subrange(i, j)));
        },
    }
}

/// The digits of a rendered number, as they stand inside a larger line.
proof fn lemma_digits_slice_local(s: Seq<char>, a: int, b: int, n: int)
    requires
        n >= 0,
        0 <= a <= b <= s.len(),
        s.subrange(a, b) =~= dec_str(n),
    ensures
        forall|k: int| a <= k < b ==> is_digit_char(#[trigger] s[k]),
        all_digits(s.subrange(a, b)),
        digits_val(s.subrange(a, b)) == n,
{
    lemma_dec_str_digits(n);
    lemma_dec_str_val(n);
    assert forall|k: int| a <= k < b implies is_digit_char(#[trigger] s[k]) by {
        assert(s.subrange(a, b)[k - a] == s[k]);
    }
}

// ---------------------------------------------------------------------------
// string readers
// ---------------------------------------------------------------------------

/// Whether only whitespace stands between `i` and the end of the line.
pub fn at_end(s: &str, i: usize) -> (b: bool)
    requires
        i <= s@.len(),
    ensures
        b == (skip_wsp(s@, i as int) == s@.len()),
{
    let j = skip_ws(s, i);
    j == s.unicode_len()
}

/// Read a non-empty space-delimited token starting at `i`.
pub fn read_string(s: &str, i: usize) -> (r: Option<(usize, String)>)
    requires
        i <= s@.len(),
    ensures
        ({
            let j = token_end(s@, i as int, StopAt::Space);
            match r {
                Some((e, t)) => j > i && e == j && j <= s@.len() && t@ == s@.subrange(i as int, j),
                None => j == i,
            }
        }),
{
    let j = scan(s, i, StopAt::Space);
    if j == i {
        None
    } else {
        Some((j, substring(s, i, j)))
    }
}

/// Read a possibly empty space-delimited token starting at `i`.
pub fn read_string0(s: &str, i: usize) -> (r: (usize, String))
    requires
        i <= s@.len(),
    ensures
        r.0 == token_end(s@, i as int, StopAt::Space),
        r.1@ == s@.subrange(i as int, r.0 as int),
        i <= r.0 <= s@.len(),
{
    let j = scan(s, i, StopAt::Space);
    (j, substring(s, i, j))
}

/// Read a non-empty token stopping at a space or `:`.
pub fn read_non_colon_string(s: &str, i: usize) -> (r: Option<(usize, String)>)
    requires
        i <= s@.len(),
    ensures
        ({
            let j = token_end(s@, i as int, StopAt::Colon);
            match r {
                Some((e, t)) => j > i && e == j && j <= s@.len() && t@ == s@.subrange(i as int, j),
                None => j == i,
            }
        }),
{
    let j = scan(s, i, StopAt::Colon);
    if j == i {
        None
    } else {
        Some((j, substring(s, i, j)))
    }
}

/// Read a non-empty token stopping at a space or `/`.
pub fn read_non_slash_string(s: &str, i: usize) -> (r: Option<(usize, String)>)
    requires
        i <= s@.len(),
    ensures
        ({
            let j = token_end(s@, i as int, StopAt::Slash);
            match r {
                Some((e, t)) => j > i && e == j && j <= s@.len() && t@ == s@.subrange(i as int, j),
                None => j == i,
            }
        }),
{
    let j = scan(s, i, StopAt::Slash);
    if j == i {
        None
    } else {
        Some((j, substring(s, i, j)))
    }
}

/// A single token filling the line from `i` to the end.
pub open spec fn spec_token_to_end(s: Seq<char>, i: int) -> Option<Seq<char>> {
    let j = token_end(s, i, StopAt::Space);
    if j > i && skip_wsp(s, j) == s.len() {
        Some(s.subrange(i, j))
    } else {
        None
    }
}

/// Read the single token filling the line from `i` to the end.
pub fn token_to_end(input: &str, i: usize) -> (r: Option<String>)
    requires
        i <= input@.len(),
    ensures
        r.deep_view() == spec_token_to_end(input@, i as int),
{
    match read_string(input, i) {
        Some((j, t)) => {
            if at_end(input, j) {
                Some(t)
            } else {
                None
            }
        },
        None => None,
    }
}

/// Two whitespace-separated tokens filling the line from `i` to the end.
pub open spec fn spec_token_pair_end(s: Seq<char>, i: int) -> Option<(Seq<char>, Seq<char>)> {
    let j = token_end(s, i, StopAt::Space);
    if j > i {
        let k = skip_wsp(s, j);
        match spec_token_to_end(s, k) {
            Some(b) => Some((s.subrange(i, j), b)),
            None => None,
        }
    } else {
        None
    }
}

/// Read the two tokens filling the line from `i` to the end.
pub fn token_pair_end(input: &str, i: usize) -> (r: Option<(String, String)>)
    requires
        i <= input@.len(),
    ensures
        match r {
            Some((a, b)) => spec_token_pair_end(input@, i as int) == Some((a@, b@)),
            None => spec_token_pair_end(input@, i as int) is None,
        },
{
    match read_string(input, i) {
        Some((j, a)) => {
            let k = skip_ws(input, j);
            match token_to_end(input, k) {
                Some(b) => Some((a, b)),
                None => None,
            }
        },
        None => None,
    }
}

/// The rest of the line from `i` on, trimmed of surrounding whitespace.
pub open spec fn spec_read_everything(s: Seq<char>, i: int) -> Seq<char> {
    let a = skip_wsp(s, i);
    s.subrange(a, rtrim_idx(s, a, s.len() as int))
}

/// Read the rest of the line, trimmed of surrounding whitespace.
pub fn read_everything(s: &str, i: usize) -> (r: String)
    requires
        i <= s@.len(),
    ensures
        r@ == spec_read_everything(s@, i as int),
{
    let a = skip_ws(s, i);
    let n = s.unicode_len();
    let mut j = n;
    while j > a
        invariant
            a <= j <= n,
            n == s@.len(),
            a == skip_wsp(s@, i as int),
            rtrim_idx(s@, a as int, n as int) == rtrim_idx(s@, a as int, j as int),
        ensures
            a <= j <= n,
            rtrim_idx(s@, a as int, n as int) == rtrim_idx(s@, a as int, j as int),
            j > a ==> !is_wsp(s@[j - 1]),
        decreases j,
    {
        let c = s.get_char(j - 1);
        if !(c == ' ' || c == '\t' || c == '\r' || c == '\n') {
            break;
        }
        j -= 1;
    }
    proof {
        lemma_rtrim_bounds(s@, a as int, j as int);
    }
    substring(s, a, j)
}

/// The rest of the line from `i` up to a line feed, verbatim, provided only
/// whitespace follows the line feed.
pub open spec fn spec_rest_of_line(s: Seq<char>, i: int) -> Option<Seq<char>> {
    let j = token_end(s, i, StopAt::Line);
    if skip_wsp(s, j) == s.len() {
        Some(s.subrange(i, j))
    } else {
        None
    }
}

/// Read the rest of the line up to a line feed, verbatim.
pub fn read_verbatim(s: &str, i: usize) -> (r: Option<String>)
    requires
        i <= s@.len(),
    ensures
        r.deep_view() == spec_rest_of_line(s@, i as int),
{
    let j = scan(s, i, StopAt::Line);
    if at_end(s, j) {
        Some(substring(s, i, j))
    } else {
        None
    }
}

// ---------------------------------------------------------------------------
// token lists
// ---------------------------------------------------------------------------

/// Space-separated tokens from `i` on, with the position after the last one.
pub open spec fn spec_space_tokens(s: Seq<char>, i: int) -> (int, Seq<Seq<char>>)
    decreases s.len() - i,
    when 0 <= i <= s.len()
    via spec_space_tokens_dec
{
    let j = token_end(s, i, StopAt::Space);
    if j == i {
        (i, Seq::empty())
    } else {
        let k = skip_wsp(s, j);
        let (e, rest) = spec_space_tokens(s, k);
        (e, seq![s.subrange(i, j)] + rest)
    }
}

#[via_fn]
proof fn spec_space_tokens_dec(s: Seq<char>, i: int) {
    lemma_token_end_bounds(s, i, StopAt::Space);
    let j = token_end(s, i, StopAt::Space);
    if j != i {
        lemma_skip_wsp_bounds(s, j);
    }
}

/// `/`-separated tokens from `i` on, with the position after the last one.
pub open spec fn spec_slash_tokens(s: Seq<char>, i: int) -> (int, Seq<Seq<char>>)
    decreases s.len() - i,
    when 0 <= i <= s.len()
    via spec_slash_tokens_dec
{
    let j = token_end(s, i, StopAt::Slash);
    if j == i {
        (i, Seq::empty())
    } else {
        let k = if j < s.len() && s[j] == '/' {
            j + 1
        } else {
            j
        };
        let (e, rest) = spec_slash_tokens(s, k);
        (e, seq![s.subrange(i, j)] + rest)
    }
}

#[via_fn]
proof fn spec_slash_tokens_dec(s: Seq<char>, i: int) {
    lemma_token_end_bounds(s, i, StopAt::Slash);
}

/// Space-separated decimal numbers from `i` on, stopping before the first
/// token that is not a number.
pub open spec fn spec_num_list(s: Seq<char>, i: int) -> (int, Seq<u32>)
    decreases s.len() - i,
    when 0 <= i <= s.len()
    via spec_num_list_dec
{
    match spec_read_num(s, i, u32::MAX as int) {
        None => (i, Seq::empty()),
        Some((j, v)) => {
            let k = skip_wsp(s, j);
            let (e, rest) = spec_num_list(s, k);
            (e, seq![v as u32] + rest)
        },
    }
}

#[via_fn]
proof fn spec_num_list_dec(s: Seq<char>, i: int) {
    lemma_token_end_bounds(s, i, StopAt::NumDelim);
    let j = token_end(s, i, StopAt::NumDelim);
    if j != i {
        lemma_skip_wsp_bounds(s, j);
    }
}

/// Read space-separated tokens from `i` to the last token's end.
pub fn read_as_strings(s: &str, i: usize) -> (r: (usize, Vec<String>))
    requires
        i <= s@.len(),
    ensures
        ({
            let (e, items) = spec_space_tokens(s@, i as int);
            r.0 == e && r.1.deep_view() == items && i <= r.0 <= s@.len()
        }),
{
    let mut acc: Vec<String> = Vec::new();
    let mut cur = i;
    let ghost (e0, items0) = spec_space_tokens(s@, i as int);
    loop
        invariant
            i <= cur <= s@.len(),
            spec_space_tokens(s@, i as int).0 == spec_space_tokens(s@, cur as int).0,
            items0 == acc.deep_view() + spec_space_tokens(s@, cur as int).1,
            e0 == spec_space_tokens(s@, i as int).0,
            items0 == spec_space_tokens(s@, i as int).1,
        ensures
            cur == e0,
            acc.deep_view() == items0,
        decreases s@.len() - cur,
    {
        let j = scan(s, cur, StopAt::Space);
        if j == cur {
            proof {
                assert(acc.deep_view() + spec_space_tokens(s@, cur as int).1 =~= acc.deep_view());
            }
            break;
        }
        let t = substring(s, cur, j);
        let k = skip_ws(s, j);
        proof {
            let rest = spec_space_tokens(s@, k as int).1;
            assert(acc.deep_view() + (seq![s@.subrange(cur as int, j as int)] + rest)
                =~= acc.deep_view().push(t@) + rest);
            assert(acc.deep_view().push(t@) =~= acc.deep_view() + seq![t@]);
        }
        let ghost prev = acc.deep_view();
        acc.push(t);
        proof {
            assert(acc.deep_view() =~= prev.push(t@));
        }
        cur = k;
    }
    (cur, acc)
}

/// Read `/`-separated tokens from `i` to the last token's end.
pub fn slash_separated_strings(s: &str, i: usize) -> (r: (usize, Vec<String>))
    requires
        i <= s@.len(),
    ensures
        ({
            let (e, items) = spec_slash_tokens(s@, i as int);
            r.0 == e && r.1.deep_view() == items && i <= r.0 <= s@.len()
        }),
{
    let mut acc: Vec<String> = Vec::new();
    let mut cur = i;
    let ghost (e0, items0) = spec_slash_tokens(s@, i as int);
    let n = s.unicode_len();
    loop
        invariant
            i <= cur <= n,
            n == s@.len(),
            spec_slash_tokens(s@, i as int).0 == spec_slash_tokens(s@, cur as int).0,
            items0 == acc.deep_view() + spec_slash_tokens(s@, cur as int).1,
            e0 == spec_slash_tokens(s@, i as int).0,
            items0 == spec_slash_tokens(s@, i as int).1,
        ensures
            cur == e0,
            acc.deep_view() == items0,
        decreases n - cur,
    {
        let j = scan(s, cur, StopAt::Slash);
        if j == cur {
            proof {
                assert(acc.deep_view() + spec_slash_tokens(s@, cur as int).1 =~= acc.deep_view());
            }
            break;
        }
        let t = substring(s, cur, j);
        let k = if j < n && s.get_char(j) == '/' {
            j + 1
        } else {
            j
        };
        proof {
            let rest = spec_slash_tokens(s@, k as int).1;
            assert(acc.deep_view() + (seq![s@.subrange(cur as int, j as int)] + rest)
                =~= acc.deep_view().push(t@) + rest);
        }
        acc.push(t);
        cur = k;
    }
    (cur, acc)
}

/// Alias of [`read_as_strings`] kept for callers that think of the list
/// as space-separated.
pub fn space_separated_strings(s: &str, i: usize) -> (r: (usize, Vec<String>))
    requires
        i <= s@.len(),
    ensures
        ({
            let (e, items) = spec_space_tokens(s@, i as int);
            r.0 == e && r.1.deep_view() == items && i <= r.0 <= s@.len()
        }),
{
    read_as_strings(s, i)
}

/// Read space-separated numbers from `i` up to the first non-numeric token.
pub fn read_as_numbers(s: &str, i: usize) -> (r: (usize, Vec<u32>))
    requires
        i <= s@.len(),
    ensures
        ({
            let (e, items) = spec_num_list(s@, i as int);
            r.0 == e && r.1@ == items && i <= r.0 <= s@.len()
        }),
{
    let mut acc: Vec<u32> = Vec::new();
    let mut cur = i;
    let ghost (e0, items0) = spec_num_list(s@, i as int);
    loop
        invariant
            i <= cur <= s@.len(),
            spec_num_list(s@, i as int).0 == spec_num_list(s@, cur as int).0,
            items0 == acc@ + spec_num_list(s@, cur as int).1,
            e0 == spec_num_list(s@, i as int).0,
            items0 == spec_num_list(s@, i as int).1,
        ensures
            cur == e0,
            acc@ == items0,
        decreases s@.len() - cur,
    {
        match read_number(s, cur) {
            None => {
                proof {
                    assert(acc@ + spec_num_list(s@, cur as int).1 =~= acc@);
                }
                break;
            },
            Some((j, v)) => {
                let k = skip_ws(s, j);
                proof {
                    let rest = spec_num_list(s@, k as int).1;
                    assert(acc@ + (seq![v] + rest) =~= acc@.push(v) + rest);
                }
                acc.push(v);
                cur = k;
            },
        }
    }
    (cur, acc)
}

// ---------------------------------------------------------------------------
// joining token lists back together
// ---------------------------------------------------------------------------

/// `items` joined with `sep` between neighbours.
pub open spec fn spec_join_sep(items: Seq<Seq<char>>, sep: Seq<char>) -> Seq<char>
    decreases items.len(),
{
    if items.len() == 0 {
        Seq::empty()
    } else if items.len() == 1 {
        items[0]
    } else {
        spec_join_sep(items.drop_last(), sep) + sep + items.last()
    }
}

/// `items` each preceded by `pre`.
pub open spec fn spec_cat_prefixed(items: Seq<Seq<char>>, pre: Seq<char>) -> Seq<char>
    decreases items.len(),
{
    if items.len() == 0 {
        Seq::empty()
    } else {
        spec_cat_prefixed(items.drop_last(), pre) + pre + items.last()
    }
}

/// Join `items` with `sep` between neighbours.
pub fn join_with(items: &Vec<String>, sep: &str) -> (r: String)
    ensures
        r@ == spec_join_sep(items.deep_view(), sep@),
{
    let mut out = String::new();
    let mut k: usize = 0;
    while k < items.len()
        invariant
            0 <= k <= items@.len(),
            out@ == spec_join_sep(items.deep_view().take(k as int), sep@),
        decreases items@.len() - k,
    {
        if k > 0 {
            out.append(sep);
        }
        out.append(items[k].as_str());
        proof {
            let iv = items.deep_view();
            assert(iv.take(k + 1).drop_last() =~= iv.take(k as int));
            assert(iv.take(k + 1).last() == items@[k as int]@);
        }
        k += 1;
    }
    proof {
        assert(items.deep_view().take(items@.len() as int) =~= items.deep_view());
    }
    out
}

/// Append `pre` and then each item of `items` to `out`.
pub fn append_prefixed(out: &mut String, items: &Vec<String>, pre: &str)
    ensures
        final(out)@ == old(out)@ + spec_cat_prefixed(items.deep_view(), pre@),
{
    let mut k: usize = 0;
    while k < items.len()
        invariant
            0 <= k <= items@.len(),
            out@ == old(out)@ + spec_cat_prefixed(items.deep_view().take(k as int), pre@),
        decreases items@.len() - k,
    {
        out.append(pre);
        out.append(items[k].as_str());
        proof {
            let iv = items.deep_view();
            assert(iv.take(k + 1).drop_last() =~= iv.take(k as int));
            assert(iv.take(k + 1).last() == items@[k as int]@);
        }
        k += 1;
    }
    proof {
        assert(items.deep_view().take(items@.len() as int) =~= items.deep_view());
    }
}

/// Deep-copy a vector of strings.
pub fn clone_strings(v: &Vec<String>) -> (r: Vec<String>)
    ensures
        r.deep_view() == v.deep_view(),
{
    let mut r: Vec<String> = Vec::new();
    let mut k: usize = 0;
    while k < v.len()
        invariant
            0 <= k <= v@.len(),
            r@.len() == k,
            forall|q: int| 0 <= q < k ==> r@[q]@ == v@[q]@,
        decreases v@.len() - k,
    {
        r.push(v[k].clone());
        k += 1;
    }
    proof {
        assert(r.deep_view() =~= v.deep_view());
    }
    r
}

/// Copy a vector of numbers.
pub fn clone_numbers(v: &Vec<u32>) -> (r: Vec<u32>)
    ensures
        r@ == v@,
{
    let mut r: Vec<u32> = Vec::new();
    let mut k: usize = 0;
    while k < v.len()
        invariant
            0 <= k <= v@.len(),
            r@ =~= v@.take(k as int),
        decreases v@.len() - k,
    {
        r.push(v[k]);
        k += 1;
    }
    proof {
        assert(v@.take(v@.len() as int) =~= v@);
    }
    r
}


/// Joining from the front: the first token, a separator, and the rest.
pub proof fn lemma_join_sep_first(items: Seq<Seq<char>>, sep: Seq<char>)
    requires
        items.len() >= 1,
    ensures
        items.len() == 1 ==> spec_join_sep(items, sep) == items[0],
        items.len() >= 2 ==> spec_join_sep(items, sep) == items[0] + sep + spec_join_sep(
            items.drop_first(),
            sep,
        ),
    decreases items.len(),
{
    if items.len() >= 2 {
        lemma_join_sep_first(items.drop_last(), sep);
        if items.len() == 2 {
            assert(items.drop_last()[0] == items[0]);
            assert(items.drop_first() =~= seq![items[1]]);
            assert(spec_join_sep(items.drop_first(), sep) == items[1]);
        } else {
            assert(items.drop_last().drop_first() =~= items.drop_first().drop_last());
            assert(items.drop_first().last() == items.last());
            assert(items.drop_last()[0] == items[0]);
            assert((items[0] + sep + spec_join_sep(items.drop_first().drop_last(), sep)) + sep
                + items.last() =~= items[0] + sep + (spec_join_sep(
                items.drop_first().drop_last(),
                sep,
            ) + sep + items.last()));
        }
    }
}

/// Space-joined tokens embedded at the end of a line scan back to the same
/// token list.
pub proof fn lemma_space_tokens_embedded(s2: Seq<char>, items: Seq<Seq<char>>, i: int)
    requires
        0 <= i <= s2.len(),
        s2.subrange(i, s2.len() as int) == spec_join_sep(items, " "@),
        " "@.len() == 1 && " "@[0] == ' ',
        forall|m: int| 0 <= m < items.len() ==> (#[trigger] items[m]).len() > 0,
        forall|m: int, q: int|
            0 <= m < items.len() && 0 <= q < items[m].len() ==> (#[trigger] items[m][q]) != ' ',
        forall|m: int| 0 <= m < items.len() ==> !is_wsp((#[trigger] items[m])[0]),
    ensures
        spec_space_tokens(s2, i) == (s2.len() as int, items),
    decreases items.len(),
{
    let rr = spec_join_sep(items, " "@);
    let sub = s2.subrange(i, s2.len() as int);
    assert(sub.len() == s2.len() - i);
    assert forall|q: int| 0 <= q < s2.len() - i implies #[trigger] s2[i + q] == rr[q] by {
        assert(sub[q] == s2[i + q]);
    }
    if items.len() == 0 {
        assert(rr.len() == 0);
        assert(s2.len() == i);
        assert(spec_space_tokens(s2, i).1 =~= items);
    } else {
        lemma_join_sep_first(items, " "@);
        let first = items[0];
        let j = i + first.len() as int;
        if items.len() == 1 {
            assert(rr == first);
            assert(s2.len() == j);
            assert forall|q: int| i <= q < j implies !stops(StopAt::Space, #[trigger] s2[q]) by {
                let w = q - i;
                assert(s2[i + w] == rr[w]);
                assert(rr[w] != ' ');
            }
            lemma_token_end_at(s2, i, j, StopAt::Space);
            assert(s2.subrange(i, j) =~= first) by {
                assert forall|q: int| 0 <= q < first.len() implies #[trigger] s2.subrange(
                    i,
                    j,
                )[q] == first[q] by {
                    assert(s2[i + q] == rr[q]);
                }
            }
            assert(skip_wsp(s2, j) == j);
            assert(spec_space_tokens(s2, j).1 =~= Seq::<Seq<char>>::empty());
            assert(seq![first] + spec_space_tokens(s2, j).1 =~= items);
        } else {
            let rest = items.drop_first();
            let tail = spec_join_sep(rest, " "@);
            assert(rr == first + " "@ + tail);
            assert(s2.len() - i == rr.len());
            assert forall|q: int| i <= q < j implies !stops(StopAt::Space, #[trigger] s2[q]) by {
                let w = q - i;
                assert(s2[i + w] == rr[w]);
                assert(rr[w] == (first + " "@)[w]);
                assert((first + " "@)[w] == first[w]);
                assert(first[w] != ' ');
            }
            assert(s2[j] == ' ') by {
                let w = j - i;
                assert(s2[i + w] == rr[w]);
                assert(rr[w] == (first + " "@)[w]);
            }
            lemma_token_end_at(s2, i, j, StopAt::Space);
            assert(s2.subrange(i, j) =~= first) by {
                assert forall|q: int| 0 <= q < first.len() implies #[trigger] s2.subrange(
                    i,
                    j,
                )[q] == first[q] by {
                    assert(s2[i + q] == rr[q]);
                    assert(rr[q] == (first + " "@)[q]);
                    assert((first + " "@)[q] == first[q]);
                }
            }
            assert(s2.subrange(j + 1, s2.len() as int) =~= tail) by {
                assert forall|q: int|
                    0 <= q < s2.len() - j - 1 implies #[trigger] s2.subrange(
                    j + 1,
                    s2.len() as int,
                )[q] == tail[q] by {
                    let w = j + 1 - i + q;
                    assert(s2.subrange(j + 1, s2.len() as int)[q] == s2[i + w]);
                    assert(s2[i + w] == rr[w]);
                    assert(rr[w] == tail[w - first.len() - 1]);
                }
            }
            assert forall|m: int| 0 <= m < rest.len() implies (#[trigger] rest[m]).len() > 0 by {
                assert(rest[m] == items[m + 1]);
            }
            assert forall|m: int, q: int|
                0 <= m < rest.len() && 0 <= q < rest[m].len() implies (#[trigger] rest[m][q])
                != ' ' by {
                assert(rest[m] == items[m + 1]);
            }
            assert forall|m: int| 0 <= m < rest.len() implies !is_wsp(
                (#[trigger] rest[m])[0],
            ) by {
                assert(rest[m] == items[m + 1]);
            }
            lemma_space_tokens_embedded(s2, rest, j + 1);
            assert(rest[0] == items[1]);
            assert(!is_wsp(s2[j + 1])) by {
                let w = j + 1 - i;
                assert(s2[i + w] == rr[w]);
                assert(rr[w] == tail[0]);
                assert(tail[0] == rest[0][0]) by {
                    lemma_join_sep_first(rest, " "@);
                    if rest.len() >= 2 {
                        assert(tail[0] == (rest[0] + " "@)[0]);
                    }
                }
            }
            lemma_skip_wsp_at(s2, j, j + 1);
            assert(seq![first] + rest =~= items);
        }
    }
}


/// Tokens produced by the space-separated scan are non-empty, free of
/// spaces, and start with a non-whitespace character.
pub proof fn lemma_space_tokens_wf(s: Seq<char>, i: int)
    requires
        0 <= i <= s.len(),
        skip_wsp(s, i) == i,
    ensures
        ({
            let items = spec_space_tokens(s, i).1;
            &&& forall|m: int| 0 <= m < items.len() ==> (#[trigger] items[m]).len() > 0
            &&& forall|m: int, q: int|
                0 <= m < items.len() && 0 <= q < items[m].len() ==> (#[trigger] items[m][q])
                    != ' '
            &&& forall|m: int| 0 <= m < items.len() ==> !is_wsp((#[trigger] items[m])[0])
        }),
    decreases s.len() - i,
{
    let j = token_end(s, i, StopAt::Space);
    lemma_token_end_bounds(s, i, StopAt::Space);
    lemma_token_end_chars(s, i, StopAt::Space);
    let items = spec_space_tokens(s, i).1;
    if j == i {
    } else {
        let first = s.subrange(i, j);
        assert(!is_wsp(s[i])) by {
            if is_wsp(s[i]) {
                lemma_skip_wsp_bounds(s, i + 1);
            }
        }
        assert(first[0] == s[i]);
        assert(forall|q: int| 0 <= q < first.len() ==> #[trigger] first[q] == s[i + q]);
        let k = skip_wsp(s, j);
        lemma_skip_wsp_bounds(s, j);
        assert(skip_wsp(s, k) == k);
        lemma_space_tokens_wf(s, k);
        let rest = spec_space_tokens(s, k).1;
        assert(items == seq![first] + rest);
        assert forall|m: int| 0 <= m < items.len() implies (#[trigger] items[m]).len() > 0 by {
            if m == 0 {
                assert(items[m] == first);
            } else {
                assert(items[m] == rest[m - 1]);
            }
        }
        assert forall|m: int, q: int|
            0 <= m < items.len() && 0 <= q < items[m].len() implies (#[trigger] items[m][q])
            != ' ' by {
            if m == 0 {
                assert(items[m] == first);
            } else {
                assert(items[m] == rest[m - 1]);
            }
        }
        assert forall|m: int| 0 <= m < items.len() implies !is_wsp((#[trigger] items[m])[0]) by {
            if m == 0 {
                assert(items[m] == first);
            } else {
                assert(items[m] == rest[m - 1]);
            }
        }
    }
}

/// Prefixing every token with the separator is the separator and then the
/// joined tokens, once there is a token at all.
pub proof fn lemma_cat_prefixed_join(items: Seq<Seq<char>>, sep: Seq<char>)
    requires
        items.len() >= 1,
    ensures
        spec_cat_prefixed(items, sep) == sep + spec_join_sep(items, sep),
    decreases items.len(),
{
    if items.len() == 1 {
        assert(spec_cat_prefixed(items, sep) == spec_cat_prefixed(items.drop_last(), sep) + sep
            + items.last());
        assert(spec_cat_prefixed(items.drop_last(), sep) =~= Seq::<char>::empty());
        assert(Seq::<char>::empty() + sep + items[0] =~= sep + items[0]);
    } else {
        lemma_cat_prefixed_join(items.drop_last(), sep);
        assert(spec_cat_prefixed(items, sep) == (sep + spec_join_sep(items.drop_last(), sep))
            + sep + items.last());
        assert((sep + spec_join_sep(items.drop_last(), sep)) + sep + items.last() =~= sep + (
        spec_join_sep(items.drop_last(), sep) + sep + items.last()));
    }
}


/// Tokens produced by the `/`-separated scan are non-empty and free of the
/// delimiters.
pub proof fn lemma_slash_tokens_wf(s: Seq<char>, i: int)
    requires
        0 <= i <= s.len(),
    ensures
        ({
            let items = spec_slash_tokens(s, i).1;
            &&& forall|m: int| 0 <= m < items.len() ==> (#[trigger] items[m]).len() > 0
            &&& forall|m: int, q: int|
                0 <= m < items.len() && 0 <= q < items[m].len() ==> !stops(
                    StopAt::Slash,
                    #[trigger] items[m][q],
                )
        }),
    decreases s.len() - i,
{
    let j = token_end(s, i, StopAt::Slash);
    lemma_token_end_bounds(s, i, StopAt::Slash);
    lemma_token_end_chars(s, i, StopAt::Slash);
    let items = spec_slash_tokens(s, i).1;
    if j == i {
    } else {
        let first = s.subrange(i, j);
        assert(forall|q: int| 0 <= q < first.len() ==> #[trigger] first[q] == s[i + q]);
        let k = if j < s.len() && s[j] == '/' {
            j + 1
        } else {
            j
        };
        lemma_slash_tokens_wf(s, k);
        let rest = spec_slash_tokens(s, k).1;
        assert(items == seq![first] + rest);
        assert forall|m: int| 0 <= m < items.len() implies (#[trigger] items[m]).len() > 0 by {
            if m == 0 {
                assert(items[m] == first);
            } else {
                assert(items[m] == rest[m - 1]);
            }
        }
        assert forall|m: int, q: int|
            0 <= m < items.len() && 0 <= q < items[m].len() implies !stops(
            StopAt::Slash,
            #[trigger] items[m][q],
        ) by {
            if m == 0 {
                assert(items[m] == first);
            } else {
                assert(items[m] == rest[m - 1]);
            }
        }
    }
}


/// The `/`-separated scan ends between its start and the end of the line.
pub proof fn lemma_slash_tokens_bounds(s: Seq<char>, i: int)
    requires
        0 <= i <= s.len(),
    ensures
        i <= spec_slash_tokens(s, i).0 <= s.len(),
    decreases s.len() - i,
{
    let j = token_end(s, i, StopAt::Slash);
    lemma_token_end_bounds(s, i, StopAt::Slash);
    if j != i {
        let k = if j < s.len() && s[j] == '/' {
            j + 1
        } else {
            j
        };
        lemma_slash_tokens_bounds(s, k);
    }
}

/// Slash-joined tokens embedded in a line, bounded by a space or the end,
/// scan back to the same token list.
pub proof fn lemma_slash_tokens_embedded(s2: Seq<char>, items: Seq<Seq<char>>, i: int)
    requires
        0 <= i,
        i + spec_join_sep(items, "/"@).len() <= s2.len(),
        s2.subrange(i, i + spec_join_sep(items, "/"@).len() as int) == spec_join_sep(
            items,
            "/"@,
        ),
        i + spec_join_sep(items, "/"@).len() == s2.len() || s2[i + spec_join_sep(
            items,
            "/"@,
        ).len() as int] == ' ',
        "/"@.len() == 1 && "/"@[0] == '/',
        forall|m: int| 0 <= m < items.len() ==> (#[trigger] items[m]).len() > 0,
        forall|m: int, q: int|
            0 <= m < items.len() && 0 <= q < items[m].len() ==> !stops(
                StopAt::Slash,
                #[trigger] items[m][q],
            ),
    ensures
        spec_slash_tokens(s2, i) == (i + spec_join_sep(items, "/"@).len() as int, items),
    decreases items.len(),
{
    let rr = spec_join_sep(items, "/"@);
    let b = i + rr.len() as int;
    let sub = s2.subrange(i, b);
    assert forall|q: int| 0 <= q < rr.len() implies #[trigger] s2[i + q] == rr[q] by {
        assert(sub[q] == s2[i + q]);
    }
    if items.len() == 0 {
        assert(rr.len() == 0);
        assert(token_end(s2, i, StopAt::Slash) == i);
        assert(spec_slash_tokens(s2, i).1 =~= items);
    } else {
        lemma_join_sep_first(items, "/"@);
        let first = items[0];
        let j = i + first.len() as int;
        if items.len() == 1 {
            assert(rr == first);
            assert(j == b);
            assert forall|q: int| i <= q < j implies !stops(StopAt::Slash, #[trigger] s2[q]) by {
                let w = q - i;
                assert(s2[i + w] == rr[w]);
            }
            lemma_token_end_at(s2, i, j, StopAt::Slash);
            assert(s2.subrange(i, j) =~= first) by {
                assert forall|q: int| 0 <= q < first.len() implies #[trigger] s2.subrange(
                    i,
                    j,
                )[q] == first[q] by {
                    assert(s2[i + q] == rr[q]);
                }
            }
            assert(!(j < s2.len() && s2[j] == '/'));
            assert(token_end(s2, j, StopAt::Slash) == j);
            assert(spec_slash_tokens(s2, j).1 =~= Seq::<Seq<char>>::empty());
            assert(seq![first] + spec_slash_tokens(s2, j).1 =~= items);
        } else {
            let rest = items.drop_first();
            let tail = spec_join_sep(rest, "/"@);
            assert(rr == first + "/"@ + tail);
            assert forall|q: int| i <= q < j implies !stops(StopAt::Slash, #[trigger] s2[q]) by {
                let w = q - i;
                assert(s2[i + w] == rr[w]);
                assert(rr[w] == (first + "/"@)[w]);
                assert((first + "/"@)[w] == first[w]);
            }
            assert(s2[j] == '/') by {
                let w = j - i;
                assert(s2[i + w] == rr[w]);
                assert(rr[w] == (first + "/"@)[w]);
            }
            lemma_token_end_at(s2, i, j, StopAt::Slash);
            assert(s2.subrange(i, j) =~= first) by {
                assert forall|q: int| 0 <= q < first.len() implies #[trigger] s2.subrange(
                    i,
                    j,
                )[q] == first[q] by {
                    assert(s2[i + q] == rr[q]);
                    assert(rr[q] == (first + "/"@)[q]);
                    assert((first + "/"@)[q] == first[q]);
                }
            }
            assert(s2.subrange(j + 1, j + 1 + tail.len()) =~= tail) by {
                assert forall|q: int|
                    0 <= q < tail.len() implies #[trigger] s2.subrange(
                    j + 1,
                    j + 1 + tail.len(),
                )[q] == tail[q] by {
                    let w = j + 1 - i + q;
                    assert(s2.subrange(j + 1, j + 1 + tail.len())[q] == s2[i + w]);
                    assert(s2[i + w] == rr[w]);
                    assert(rr[w] == tail[w - first.len() - 1]);
                }
            }
            assert forall|m: int| 0 <= m < rest.len() implies (#[trigger] rest[m]).len() > 0 by {
                assert(rest[m] == items[m + 1]);
            }
            assert forall|m: int, q: int|
                0 <= m < rest.len() && 0 <= q < rest[m].len() implies !stops(
                StopAt::Slash,
                #[trigger] rest[m][q],
            ) by {
                assert(rest[m] == items[m + 1]);
            }
            assert(j + 1 + tail.len() == b);
            lemma_slash_tokens_embedded(s2, rest, j + 1);
            assert(seq![first] + rest =~= items);
        }
    }
}

// ---------------------------------------------------------------------------
// small character predicates offered to callers
// ---------------------------------------------------------------------------

/// Whether `c` can stand inside a space-delimited token.
pub fn is_not_space(c: char) -> (b: bool)
    ensures
        b == (c != ' '),
{
    c != ' '
}

/// Whether `chr` is an ASCII letter.
pub fn is_alphabetic(chr: u8) -> (b: bool)
    ensures
        b == (0x41 <= chr <= 0x5A || 0x61 <= chr <= 0x7A),
{
    (0x41 <= chr && chr <= 0x5A) || (0x61 <= chr && chr <= 0x7A)
}

/// Whether `chr` is an ASCII letter or digit.
pub fn is_alphanumeric(chr: char) -> (b: bool)
    ensures
        b == (0x41 <= chr as u32 <= 0x5A || 0x61 <= chr as u32 <= 0x7A || 0x30 <= chr as u32
            <= 0x39),
{
    let v = chr as u32;
    (0x41 <= v && v <= 0x5A) || (0x61 <= v && v <= 0x7A) || (0x30 <= v && v <= 0x39)
}

/// Whether `chr` is an ASCII digit.
pub fn is_numeric(chr: char) -> (b: bool)
    ensures
        b == (0x30 <= chr as u32 <= 0x39),
{
    let v = chr as u32;
    0x30 <= v && v <= 0x39
}

/// Build an owned string vector from string slices (test helper).
pub fn create_test_vec(strs: &[&str]) -> (r: Vec<String>)
    ensures
        r.deep_view() == strs.deep_view(),
{
    let mut r: Vec<String> = Vec::new();
    let mut k: usize = 0;
    while k < strs.len()
        invariant
            0 <= k <= strs@.len(),
            r@.len() == k,
            forall|q: int| 0 <= q < k ==> r@[q]@ == strs@[q]@,
        decreases strs@.len() - k,
    {
        r.push(strs[k].to_owned());
        k += 1;
    }
    proof {
        assert(r.deep_view() =~= strs.deep_view());
    }
    r
}

// ---------------------------------------------------------------------------
// IP version tag and addresses
// ---------------------------------------------------------------------------

/// `IP4` / `IP6` tag.
#[derive(Clone, Copy, PartialEq, Eq, Structural, Debug, Hash)]
pub enum IpVer {
    Ip4,
    Ip6,
}

pub open spec fn spec_read_ipver(s: Seq<char>, i: int) -> Option<(int, IpVer)> {
    if occurs_at(s, i, "IP4"@) {
        Some((i + "IP4"@.len(), IpVer::Ip4))
    } else if occurs_at(s, i, "IP6"@) {
        Some((i + "IP6"@.len(), IpVer::Ip6))
    } else {
        None
    }
}

/// Read the `IP4` / `IP6` tag at `i`.
pub fn read_ipver(s: &str, i: usize) -> (r: Option<(usize, IpVer)>)
    requires
        i <= s@.len(),
    ensures
        match r {
            Some((j, v)) => {
                &&& spec_read_ipver(s@, i as int) == Some((j as int, v))
                &&& i <= j <= s@.len()
            },
            None => spec_read_ipver(s@, i as int) is None,
        },
{
    let n = s.unicode_len();
    if match_lit(s, i, "IP4") {
        let m = "IP4".unicode_len();
        assert(i + m <= n);
        Some((i + m, IpVer::Ip4))
    } else if match_lit(s, i, "IP6") {
        let m = "IP6".unicode_len();
        assert(i + m <= n);
        Some((i + m, IpVer::Ip6))
    } else {
        None
    }
}

/// An IP address as it stands in an SDP line: a dotted IPv4 quad, or an
/// IPv6 token kept verbatim.
#[derive(Clone, PartialEq, Eq, Debug, Hash)]
pub enum IpAddress {
    V4(u8, u8, u8, u8),
    V6(String),
}

/// Spec model of [`IpAddress`].
pub ghost enum IpAddressV {
    V4(u8, u8, u8, u8),
    V6(Seq<char>),
}

impl View for IpAddress {
    type V = IpAddressV;

    open spec fn view(&self) -> IpAddressV {
        match self {
            IpAddress::V4(a, b, c, d) => IpAddressV::V4(*a, *b, *c, *d),
            IpAddress::V6(t) => IpAddressV::V6(t@),
        }
    }
}

impl DeepView for IpAddress {
    type V = IpAddressV;

    open spec fn deep_view(&self) -> IpAddressV {
        self.view()
    }
}

/// One decimal octet in `[a, b)`, of one to three digits, valued at most 255.
pub open spec fn spec_octet(s: Seq<char>, a: int, b: int) -> Option<u8> {
    let t = s.subrange(a, b);
    if 1 <= t.len() <= 3 && all_digits(t) && digits_val(t) <= 255 {
        Some(digits_val(t) as u8)
    } else {
        None
    }
}

/// A dotted IPv4 quad filling `[i, j)` exactly.
pub open spec fn spec_ipv4(s: Seq<char>, i: int, j: int) -> Option<IpAddressV> {
    let d1 = token_end(s, i, StopAt::Dotted);
    if d1 < j && s[d1] == '.' {
        let d2 = token_end(s, d1 + 1, StopAt::Dotted);
        if d2 < j && s[d2] == '.' {
            let d3 = token_end(s, d2 + 1, StopAt::Dotted);
            if d3 < j && s[d3] == '.' {
                let d4 = token_end(s, d3 + 1, StopAt::Dotted);
                if d4 == j {
                    match (spec_octet(s, i, d1), spec_octet(s, d1 + 1, d2), spec_octet(
                        s,
                        d2 + 1,
                        d3,
                    ), spec_octet(s, d3 + 1, d4)) {
                        (Some(a), Some(b), Some(c), Some(d)) => Some(IpAddressV::V4(a, b, c, d)),
                        _ => None,
                    }
                } else {
                    None
                }
            } else {
                None
            }
        } else {
            None
        }
    } else {
        None
    }
}

/// An IPv6 token: hex digits, `:` and `.`, at least one `:`.
pub open spec fn spec_ipv6_ok(t: Seq<char>) -> bool {
    &&& t.len() > 0
    &&& exists|k: int| 0 <= k < t.len() && t[k] == ':'
    &&& forall|k: int| 0 <= k < t.len() ==> (is_hex_char(#[trigger] t[k]) || t[k] == ':' || t[k]
        == '.')
}

/// The address token starting at `i` (delimited by space or `/`), classified
/// as an IPv4 quad or an IPv6 token.
pub open spec fn spec_read_addr(s: Seq<char>, i: int) -> Option<(int, IpAddressV)> {
    let j = token_end(s, i, StopAt::Slash);
    if j == i {
        None
    } else if spec_ipv4(s, i, j) is Some {
        Some((j, spec_ipv4(s, i, j).unwrap()))
    } else if spec_ipv6_ok(s.subrange(i, j)) {
        Some((j, IpAddressV::V6(s.subrange(i, j))))
    } else {
        None
    }
}

pub open spec fn spec_render_ipver(v: IpVer) -> Seq<char> {
    match v {
        IpVer::Ip4 => "IP4"@,
        IpVer::Ip6 => "IP6"@,
    }
}

impl IpVer {
    /// Render the `IP4` / `IP6` tag.
    pub fn to_string(&self) -> (r: String)
        ensures
            r@ == spec_render_ipver(*self),
    {
        match self {
            IpVer::Ip4 => "IP4".to_owned(),
            IpVer::Ip6 => "IP6".to_owned(),
        }
    }
}

pub open spec fn spec_render_addr(a: IpAddressV) -> Seq<char> {
    match a {
        IpAddressV::V4(a, b, c, d) => dec_str(a as int) + "."@ + dec_str(b as int) + "."@ + dec_str(
            c as int,
        ) + "."@ + dec_str(d as int),
        IpAddressV::V6(t) => t,
    }
}

impl IpAddress {
    /// Render the address as it stands in an SDP line.
    pub fn to_string(&self) -> (r: String)
        ensures
            r@ == spec_render_addr(self@),
    {
        match self {
            IpAddress::V4(a, b, c, d) => {
                let mut out = u64_to_string(*a as u64);
                out.append(".");
                out.append(u64_to_string(*b as u64).as_str());
                out.append(".");
                out.append(u64_to_string(*c as u64).as_str());
                out.append(".");
                out.append(u64_to_string(*d as u64).as_str());
                out
            },
            IpAddress::V6(t) => t.clone(),
        }
    }

    /// Detach the address into independently owned storage.
    pub fn into_owned(&self) -> (r: IpAddress)
        ensures
            r@ == self@,
    {
        match self {
            IpAddress::V4(a, b, c, d) => IpAddress::V4(*a, *b, *c, *d),
            IpAddress::V6(t) => IpAddress::V6(t.clone()),
        }
    }
}

fn read_octet(s: &str, a: usize, b: usize) -> (r: Option<u8>)
    requires
        a <= b <= s@.len(),
    ensures
        match r {
            Some(v) => spec_octet(s@, a as int, b as int) == Some(v),
            None => spec_octet(s@, a as int, b as int) is None,
        },
{
    let ghost t = s@.subrange(a as int, b as int);
    if b - a < 1 || b - a > 3 {
        return None;
    }
    let mut k = a;
    let mut acc: u32 = 0;
    while k < b
        invariant
            a <= k <= b <= s@.len(),
            b - a <= 3,
            t == s@.subrange(a as int, b as int),
            all_digits(s@.subrange(a as int, k as int)),
            acc as int == digits_val(s@.subrange(a as int, k as int)),
            acc < 1000,
        decreases b - k,
    {
        let c = s.get_char(k);
        if !(c >= '0' && c <= '9') {
            assert(!all_digits(t)) by {
                assert(t[k - a] == s@[k as int]);
            }
            return None;
        }
        proof {
            let p = s@.subrange(a as int, k + 1);
            assert(p.drop_last() =~= s@.subrange(a as int, k as int));
            assert(p.last() == s@[k as int]);
            lemma_digits_val_bound(s@.subrange(a as int, k as int));
            assert(pow10(0) == 1);
            assert(pow10(1) == 10);
            assert(pow10(2) == 100);
            assert(s@.subrange(a as int, k as int).len() <= 2);
        }
        acc = acc * 10 + (c as u32 - '0' as u32);
        k += 1;
    }
    assert(t =~= s@.subrange(a as int, b as int));
    if acc <= 255 {
        Some(acc as u8)
    } else {
        None
    }
}

fn check_ipv6(s: &str, i: usize, j: usize) -> (b: bool)
    requires
        i <= j <= s@.len(),
    ensures
        b == spec_ipv6_ok(s@.subrange(i as int, j as int)),
{
    let ghost t = s@.subrange(i as int, j as int);
    if j == i {
        return false;
    }
    let mut k = i;
    let mut seen_colon = false;
    while k < j
        invariant
            i <= k <= j <= s@.len(),
            t == s@.subrange(i as int, j as int),
            seen_colon == exists|q: int| 0 <= q < k - i && t[q] == ':',
            forall|q: int| 0 <= q < k - i ==> (is_hex_char(#[trigger] t[q]) || t[q] == ':' || t[q]
                == '.'),
        decreases j - k,
    {
        let c = s.get_char(k);
        assert(t[k - i] == s@[k as int]);
        let hex = (c >= '0' && c <= '9') || (c >= 'a' && c <= 'f') || (c >= 'A' && c <= 'F');
        if !(hex || c == ':' || c == '.') {
            return false;
        }
        if c == ':' {
            seen_colon = true;
        }
        k += 1;
    }
    seen_colon
}

/// Read an address token starting at `i`.
pub fn read_addr(s: &str, i: usize) -> (r: Option<(usize, IpAddress)>)
    requires
        i <= s@.len(),
    ensures
        match r {
            Some((j, v)) => {
                &&& spec_read_addr(s@, i as int) == Some((j as int, v@))
                &&& i <= j <= s@.len()
            },
            None => spec_read_addr(s@, i as int) is None,
        },
{
    let j = scan(s, i, StopAt::Slash);
    if j == i {
        return None;
    }
    let d1 = scan(s, i, StopAt::Dotted);
    let v4: Option<IpAddress> = if d1 < j && s.get_char(d1) == '.' {
        let d2 = scan(s, d1 + 1, StopAt::Dotted);
        if d2 < j && s.get_char(d2) == '.' {
            let d3 = scan(s, d2 + 1, StopAt::Dotted);
            if d3 < j && s.get_char(d3) == '.' {
                let d4 = scan(s, d3 + 1, StopAt::Dotted);
                if d4 == j {
                    match (read_octet(s, i, d1), read_octet(s, d1 + 1, d2), read_octet(
                        s,
                        d2 + 1,
                        d3,
                    ), read_octet(s, d3 + 1, d4)) {
                        (Some(a), Some(b), Some(c), Some(d)) => Some(IpAddress::V4(a, b, c, d)),
                        _ => None,
                    }
                } else {
                    None
                }
            } else {
                None
            }
        } else {
            None
        }
    } else {
        None
    };
    match v4 {
        Some(addr) => Some((j, addr)),
        None => {
            assert(spec_ipv4(s@, i as int, j as int) is None);
            if check_ipv6(s, i, j) {
                Some((j, IpAddress::V6(substring(s, i, j))))
            } else {
                None
            }
        },
    }
}

} // verus!
