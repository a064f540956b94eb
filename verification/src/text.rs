//! Small text utilities shared by the exporters: decimal formatting and
//! parsing, whitespace trimming, ASCII case mapping, splitting.
//!
//! Each executable helper states its result exactly over `Seq<char>`.

use vstd::prelude::*;

verus! {

/// An optional string as an optional character sequence.
pub open spec fn ov(o: Option<String>) -> Option<Seq<char>> {
    match o {
        Some(s) => Some(s@),
        None => None,
    }
}

// ------------------------------------------------------------------
// std calls that vstd leaves without a specification
// ------------------------------------------------------------------

/// `String::push`: appends one character at the end.
#[verifier::external_body]
pub(crate) fn push_char(s: &mut String, c: char)
    ensures
        final(s)@ == old(s)@.push(c),
{
    s.push(c);
}

/// `<str as PartialEq>::eq`: two string slices are equal when they hold
/// the same characters.
#[verifier::external_body]
pub(crate) fn str_eq(a: &str, b: &str) -> (r: bool)
    ensures
        r == (a@ == b@),
{
    a == b
}

/// Appends `t` to `s`.
pub(crate) fn push_str(s: &mut String, t: &str)
    ensures
        final(s)@ == old(s)@ + t@,
{
    s.append(t);
}

/// An owned copy of `s`.
pub(crate) fn to_owned_string(s: &str) -> (r: String)
    ensures
        r@ == s@,
{
    let mut r = String::new();
    r.append(s);
    proof {
        assert(r@ =~= s@);
    }
    r
}

/// `a` followed by `b`, as a new string.
pub(crate) fn concat2(a: &str, b: &str) -> (r: String)
    ensures
        r@ == a@ + b@,
{
    let mut r = String::new();
    r.append(a);
    r.append(b);
    proof {
        assert(r@ =~= a@ + b@);
    }
    r
}

/// `a`, `b`, `c` in order, as a new string.
pub(crate) fn concat3(a: &str, b: &str, c: &str) -> (r: String)
    ensures
        r@ == a@ + b@ + c@,
{
    let mut r = String::new();
    r.append(a);
    r.append(b);
    r.append(c);
    proof {
        assert(r@ =~= a@ + b@ + c@);
    }
    r
}

// ------------------------------------------------------------------
// Decimal formatting
// ------------------------------------------------------------------

/// The ASCII digit for `d` (0..=9).
pub open spec fn digit_char(d: nat) -> char {
    ((48 + d) as u8) as char
}

/// Decimal representation of a natural number, without leading zeros.
pub open spec fn dec(n: nat) -> Seq<char>
    decreases n,
{
    if n < 10 {
        seq![digit_char(n)]
    } else {
        dec(n / 10).push(digit_char(n % 10))
    }
}

/// Decimal representation of an integer, with a leading `-` when negative.
pub open spec fn dec_int(n: int) -> Seq<char> {
    if n < 0 {
        seq!['-'] + dec((-n) as nat)
    } else {
        dec(n as nat)
    }
}

fn digit(d: u64) -> (c: char)
    requires
        d < 10,
    ensures
        c == digit_char(d as nat),
{
    let b: u8 = 48u8 + (d as u8);
    b as char
}

/// Appends the decimal form of `n`.
pub(crate) fn push_dec(out: &mut String, n: u64)
    ensures
        final(out)@ == old(out)@ + dec(n as nat),
    decreases n,
{
    if n >= 10 {
        push_dec(out, n / 10);
    }
    let c = digit(n % 10);
    push_char(out, c);
    proof {
        if n >= 10 {
            assert(dec(n as nat) == dec((n / 10) as nat).push(digit_char((n % 10) as nat)));
        }
    }
}

/// The decimal form of `n` as a new string.
pub(crate) fn u64_to_string(n: u64) -> (r: String)
    ensures
        r@ == dec(n as nat),
{
    let mut r = String::new();
    push_dec(&mut r, n);
    proof {
        assert(r@ =~= dec(n as nat));
    }
    r
}

/// The decimal form of a signed number as a new string.
pub(crate) fn i64_to_string(n: i64) -> (r: String)
    ensures
        r@ == dec_int(n as int),
{
    let mut r = String::new();
    if n < 0 {
        push_char(&mut r, '-');
        let m: u64 = if n == i64::MIN {
            9223372036854775808u64
        } else {
            (-n) as u64
        };
        push_dec(&mut r, m);
        proof {
            assert(r@ =~= seq!['-'] + dec((-n) as nat));
        }
    } else {
        push_dec(&mut r, n as u64);
        proof {
            assert(r@ =~= dec(n as nat));
        }
    }
    r
}

/// `p` followed by the decimal form of `n` (for ids such as `rId7`).
pub(crate) fn prefixed_number(p: &str, n: u64) -> (r: String)
    ensures
        r@ == p@ + dec(n as nat),
{
    let mut r = String::new();
    r.append(p);
    push_dec(&mut r, n);
    proof {
        assert(r@ =~= p@ + dec(n as nat));
    }
    r
}

proof fn lemma_dec_len(n: nat)
    ensures
        dec(n).len() >= 1,
        n < 10 <==> dec(n).len() == 1,
    decreases n,
{
    if n >= 10 {
        lemma_dec_len(n / 10);
    }
}

/// A decimal spelling is a non-empty run of digits that reads back as
/// its number.
pub proof fn lemma_dec_digits(n: nat)
    ensures
        dec(n).len() >= 1,
        all_digits(dec(n)),
        digits_value(dec(n)) == n,
    decreases n,
{
    assert(digit_char(n % 10) as int == 48 + n % 10);
    if n >= 10 {
        lemma_dec_digits(n / 10);
        let d = dec(n);
        assert(d.drop_last() =~= dec(n / 10));
        assert forall|i: int| 0 <= i < d.len() implies is_digit(#[trigger] d[i]) by {
            if i < d.len() - 1 {
                assert(d[i] == dec(n / 10)[i]);
            }
        }
        assert(d.last() == digit_char(n % 10));
        assert(digit_value(d.last()) == n % 10);
        assert(digits_value(d) == digits_value(dec(n / 10)) * 10 + n % 10);
        assert((n / 10) * 10 + n % 10 == n);
    } else {
        assert(digit_char(n) as int == 48 + n);
        let d = dec(n);
        assert(d.drop_last() =~= Seq::<char>::empty());
        assert(digits_value(d.drop_last()) == 0);
        assert(d.last() == digit_char(n));
        assert(is_digit(d[0]));
    }
}

/// Different numbers have different decimal spellings.
pub proof fn lemma_dec_injective(n: nat, m: nat)
    requires
        n != m,
    ensures
        dec(n) != dec(m),
    decreases n + m,
{
    lemma_dec_len(n);
    lemma_dec_len(m);
    if dec(n) == dec(m) {
        if n < 10 && m < 10 {
            assert(dec(n)[0] == digit_char(n));
            assert(dec(m)[0] == digit_char(m));
        } else if n >= 10 && m >= 10 {
            assert(dec(n).last() == digit_char(n % 10));
            assert(dec(m).last() == digit_char(m % 10));
            assert(dec(n).drop_last() =~= dec(n / 10));
            assert(dec(m).drop_last() =~= dec(m / 10));
            if n / 10 != m / 10 {
                lemma_dec_injective(n / 10, m / 10);
            }
        }
    }
}

// ------------------------------------------------------------------
// Decimal parsing (the grammar of `str::parse` for integers)
// ------------------------------------------------------------------

pub open spec fn is_digit(c: char) -> bool {
    '0' <= c <= '9'
}

pub open spec fn all_digits(s: Seq<char>) -> bool {
    forall|i: int| 0 <= i < s.len() ==> is_digit(#[trigger] s[i])
}

pub open spec fn digit_value(c: char) -> nat {
    ((c as int) - 48) as nat
}

/// The number a run of decimal digits denotes.
pub open spec fn digits_value(s: Seq<char>) -> nat
    decreases s.len(),
{
    if s.len() == 0 {
        0
    } else {
        digits_value(s.drop_last()) * 10 + digit_value(s.last())
    }
}

/// The digits of an unsigned number as `str::parse` reads them: one
/// optional leading `+`.
pub open spec fn unsigned_digits(s: Seq<char>) -> Seq<char> {
    if s.len() > 0 && s[0] == '+' {
        s.drop_first()
    } else {
        s
    }
}

/// What `str::parse` gives for an unsigned integer type whose largest
/// value is `max`: `Some` exactly when the text is an optional `+` and at
/// least one digit, and the value fits.
pub open spec fn parse_unsigned(s: Seq<char>, max: nat) -> Option<nat> {
    let d = unsigned_digits(s);
    if d.len() > 0 && all_digits(d) && digits_value(d) <= max {
        Some(digits_value(d))
    } else {
        None
    }
}

/// What `str::parse::<i64>()` gives: optional sign, at least one digit,
/// in range.
pub open spec fn parse_i64_spec(s: Seq<char>) -> Option<int> {
    if s.len() > 0 && s[0] == '-' {
        let d = s.drop_first();
        if d.len() > 0 && all_digits(d) && digits_value(d) <= 9223372036854775808 {
            Some(-(digits_value(d) as int))
        } else {
            None
        }
    } else {
        match parse_unsigned(s, 9223372036854775807) {
            Some(v) => Some(v as int),
            None => None,
        }
    }
}

proof fn lemma_digits_value_prefix(s: Seq<char>, k: int)
    requires
        0 <= k <= s.len(),
    ensures
        digits_value(s.take(k)) <= digits_value(s),
    decreases s.len(),
{
    if k < s.len() {
        lemma_digits_value_prefix(s.drop_last(), k);
        assert(s.drop_last().take(k) =~= s.take(k));
    } else {
        assert(s.take(k) =~= s);
    }
}

/// Reads the digits of `cs[start..]`; `None` when one is not a digit, the
/// run is empty, or the value exceeds `max`.
fn parse_digits(cs: &Vec<char>, start: usize, max: u64) -> (r: Option<u64>)
    requires
        start <= cs@.len(),
    ensures
        ({
            let d = cs@.skip(start as int);
            match r {
                Some(v) => d.len() > 0 && all_digits(d) && digits_value(d) <= max && v
                    == digits_value(d),
                None => !(d.len() > 0 && all_digits(d) && digits_value(d) <= max),
            }
        }),
{
    let ghost d = cs@.skip(start as int);
    if start >= cs.len() {
        return None;
    }
    let mut acc: u64 = 0;
    let mut i = start;
    while i < cs.len()
        invariant
            start <= i <= cs@.len(),
            d == cs@.skip(start as int),
            all_digits(d.take(i - start)),
            acc == digits_value(d.take(i - start)),
            acc <= max,
        decreases cs@.len() - i,
    {
        let c = cs[i];
        let ghost k = i - start;
        assert(d[k] == c);
        if !('0' <= c && c <= '9') {
            assert(!is_digit(d[k]));
            return None;
        }
        let dv: u64 = (c as u64) - 48;
        assert(d.take(k + 1).drop_last() =~= d.take(k));
        assert(digits_value(d.take(k + 1)) == acc * 10 + dv);
        if dv > max || acc > (max - dv) / 10 {
            proof {
                if dv <= max {
                    assert(acc * 10 + dv > max) by (nonlinear_arith)
                        requires
                            acc > (max - dv) / 10,
                            dv <= max,
                            dv <= 9,
                    ;
                }
                lemma_digits_value_prefix(d, k + 1);
            }
            return None;
        }
        proof {
            assert(acc * 10 + dv <= max) by (nonlinear_arith)
                requires
                    acc <= (max - dv) / 10,
                    dv <= max,
                    dv <= 9,
            ;
        }
        acc = acc * 10 + dv;
        i = i + 1;
        proof {
            assert forall|j: int| 0 <= j < d.take(i - start).len() implies is_digit(
                #[trigger] d.take(i - start)[j],
            ) by {
                if j < k {
                    assert(d.take(i - start)[j] == d.take(k)[j]);
                }
            }
        }
    }
    proof {
        assert(d.take(i - start) =~= d);
    }
    Some(acc)
}

/// The characters of `s` in a vector.
pub(crate) fn chars_of(s: &str) -> (r: Vec<char>)
    ensures
        r@ == s@,
{
    let mut r: Vec<char> = Vec::new();
    for c in it: s.chars()
        invariant
            it.seq() == s@,
            r@ == s@.take(it.index()),
    {
        proof {
            assert(s@.take(it.index() + 1) =~= s@.take(it.index()).push(c));
        }
        r.push(c);
    }
    proof {
        assert(r@ =~= s@);
    }
    r
}

/// `str::parse::<u64>()` for a value bounded by `max`.
pub(crate) fn parse_unsigned_max(s: &str, max: u64) -> (r: Option<u64>)
    ensures
        match r {
            Some(v) => parse_unsigned(s@, max as nat) == Some(v as nat),
            None => parse_unsigned(s@, max as nat) is None,
        },
{
    let cs = chars_of(s);
    let start: usize = if cs.len() > 0 && cs[0] == '+' {
        1
    } else {
        0
    };
    proof {
        if start == 1 {
            assert(cs@.skip(1) =~= s@.drop_first());
        } else {
            assert(cs@.skip(0) =~= s@);
        }
    }
    parse_digits(&cs, start, max)
}

/// `str::parse::<u32>()`.
pub fn parse_u32(s: &str) -> (r: Option<u32>)
    ensures
        match r {
            Some(v) => parse_unsigned(s@, u32::MAX as nat) == Some(v as nat),
            None => parse_unsigned(s@, u32::MAX as nat) is None,
        },
{
    match parse_unsigned_max(s, 4294967295u64) {
        Some(v) => Some(v as u32),
        None => None,
    }
}

/// `str::parse::<usize>()`, for targets where `usize` has 64 bits; on a
/// narrower target it reads values up to `usize::MAX` only.
pub fn parse_usize(s: &str) -> (r: Option<usize>)
    ensures
        match r {
            Some(v) => parse_unsigned(s@, usize::MAX as nat) == Some(v as nat),
            None => parse_unsigned(s@, usize::MAX as nat) is None,
        },
{
    match parse_unsigned_max(s, usize::MAX as u64) {
        Some(v) => Some(v as usize),
        None => None,
    }
}

/// `str::parse::<i64>()`.
pub fn parse_i64(s: &str) -> (r: Option<i64>)
    ensures
        match r {
            Some(v) => parse_i64_spec(s@) == Some(v as int),
            None => parse_i64_spec(s@) is None,
        },
{
    let cs = chars_of(s);
    if cs.len() > 0 && cs[0] == '-' {
        proof {
            assert(cs@.skip(1) =~= s@.drop_first());
        }
        match parse_digits(&cs, 1, 9223372036854775808u64) {
            Some(v) => {
                if v == 9223372036854775808u64 {
                    Some(i64::MIN)
                } else {
                    Some(-(v as i64))
                }
            },
            None => None,
        }
    } else {
        match parse_unsigned_max(s, 9223372036854775807u64) {
            Some(v) => Some(v as i64),
            None => None,
        }
    }
}

// ------------------------------------------------------------------
// Whitespace and case
// ------------------------------------------------------------------

/// Unicode `White_Space`, the set `char::is_whitespace` tests.
pub open spec fn is_ws(c: char) -> bool {
    ||| ('\u{9}' <= c <= '\u{d}')
    ||| c == ' '
    ||| c == '\u{85}'
    ||| c == '\u{a0}'
    ||| c == '\u{1680}'
    ||| ('\u{2000}' <= c <= '\u{200a}')
    ||| c == '\u{2028}'
    ||| c == '\u{2029}'
    ||| c == '\u{202f}'
    ||| c == '\u{205f}'
    ||| c == '\u{3000}'
}

pub(crate) fn is_whitespace(c: char) -> (r: bool)
    ensures
        r == is_ws(c),
{
    ('\u{9}' <= c && c <= '\u{d}') || c == ' ' || c == '\u{85}' || c == '\u{a0}' || c
        == '\u{1680}' || ('\u{2000}' <= c && c <= '\u{200a}') || c == '\u{2028}' || c
        == '\u{2029}' || c == '\u{202f}' || c == '\u{205f}' || c == '\u{3000}'
}

/// Number of leading whitespace characters.
pub open spec fn lead_ws(s: Seq<char>) -> nat
    decreases s.len(),
{
    if s.len() > 0 && is_ws(s[0]) {
        1 + lead_ws(s.drop_first())
    } else {
        0
    }
}

/// Number of trailing whitespace characters.
pub open spec fn trail_ws(s: Seq<char>) -> nat
    decreases s.len(),
{
    if s.len() > 0 && is_ws(s.last()) {
        1 + trail_ws(s.drop_last())
    } else {
        0
    }
}

/// `str::trim`: without leading and trailing whitespace.
pub open spec fn trim_spec(s: Seq<char>) -> Seq<char> {
    let a = s.skip(lead_ws(s) as int);
    a.take(a.len() - trail_ws(a))
}

proof fn lemma_lead_ws_bound(s: Seq<char>)
    ensures
        lead_ws(s) <= s.len(),
    decreases s.len(),
{
    if s.len() > 0 && is_ws(s[0]) {
        lemma_lead_ws_bound(s.drop_first());
    }
}

proof fn lemma_trail_ws_bound(s: Seq<char>)
    ensures
        trail_ws(s) <= s.len(),
    decreases s.len(),
{
    if s.len() > 0 && is_ws(s.last()) {
        lemma_trail_ws_bound(s.drop_last());
    }
}

/// `s[from..to]` of a character vector, as a string.
pub(crate) fn string_of_range(cs: &Vec<char>, from: usize, to: usize) -> (r: String)
    requires
        from <= to <= cs@.len(),
    ensures
        r@ == cs@.subrange(from as int, to as int),
{
    let mut r = String::new();
    let mut i = from;
    while i < to
        invariant
            from <= i <= to <= cs@.len(),
            r@ == cs@.subrange(from as int, i as int),
        decreases to - i,
    {
        push_char(&mut r, cs[i]);
        i = i + 1;
        proof {
            assert(r@ =~= cs@.subrange(from as int, i as int));
        }
    }
    r
}

/// `str::trim`, as an owned string.
pub fn trim(s: &str) -> (r: String)
    ensures
        r@ == trim_spec(s@),
{
    let cs = chars_of(s);
    let mut a: usize = 0;
    proof {
        assert(s@.skip(0) =~= s@);
    }
    while a < cs.len() && is_whitespace(cs[a])
        invariant
            a <= cs@.len(),
            cs@ == s@,
            lead_ws(s@) == a + lead_ws(s@.skip(a as int)),
        decreases cs@.len() - a,
    {
        proof {
            assert(s@.skip(a as int).drop_first() =~= s@.skip(a + 1));
        }
        a = a + 1;
    }
    proof {
        assert(lead_ws(s@.skip(a as int)) == 0);
    }
    let ghost rest = s@.skip(a as int);
    let mut b: usize = cs.len();
    proof {
        assert(rest.take(b - a) =~= rest);
    }
    while b > a && is_whitespace(cs[b - 1])
        invariant
            a <= b <= cs@.len(),
            cs@ == s@,
            rest == s@.skip(a as int),
            trail_ws(rest) == (cs@.len() - b) + trail_ws(rest.take(b - a)),
        decreases b - a,
    {
        proof {
            assert(rest.take(b - a).drop_last() =~= rest.take(b - a - 1));
            assert(rest.take(b - a).last() == cs@[b - 1]);
        }
        b = b - 1;
    }
    proof {
        if b > a {
            assert(rest.take(b - a).last() == cs@[b - 1]);
        }
        assert(trail_ws(rest.take(b - a)) == 0);
        assert(rest.take(rest.len() - trail_ws(rest)) =~= cs@.subrange(a as int, b as int));
    }
    string_of_range(&cs, a, b)
}

/// ASCII upper-case of one character (other characters unchanged).
pub open spec fn upper_char(c: char) -> char {
    if 'a' <= c <= 'z' {
        ((c as u32) - 32) as char
    } else {
        c
    }
}

/// ASCII lower-case of one character (other characters unchanged).
pub open spec fn lower_char(c: char) -> char {
    if 'A' <= c <= 'Z' {
        ((c as u32) + 32) as char
    } else {
        c
    }
}

pub(crate) fn to_upper_char(c: char) -> (r: char)
    ensures
        r == upper_char(c),
{
    if 'a' <= c && c <= 'z' {
        let b: u8 = (c as u8) - 32;
        b as char
    } else {
        c
    }
}

pub(crate) fn to_lower_char(c: char) -> (r: char)
    ensures
        r == lower_char(c),
{
    if 'A' <= c && c <= 'Z' {
        let b: u8 = (c as u8) + 32;
        b as char
    } else {
        c
    }
}

/// `str::to_ascii_uppercase`.
pub(crate) fn ascii_upper(s: &str) -> (r: String)
    ensures
        r@ == s@.map_values(|c: char| upper_char(c)),
{
    let mut r = String::new();
    for c in it: s.chars()
        invariant
            it.seq() == s@,
            r@ == s@.take(it.index()).map_values(|c: char| upper_char(c)),
    {
        let u = to_upper_char(c);
        push_char(&mut r, u);
        proof {
            assert(s@.take(it.index() + 1).map_values(|c: char| upper_char(c)) =~= s@.take(
                it.index(),
            ).map_values(|c: char| upper_char(c)).push(u));
        }
    }
    proof {
        assert(s@.take(s@.len() as int) =~= s@);
    }
    r
}

/// `str::to_ascii_lowercase`.
pub(crate) fn ascii_lower(s: &str) -> (r: String)
    ensures
        r@ == s@.map_values(|c: char| lower_char(c)),
{
    let mut r = String::new();
    for c in it: s.chars()
        invariant
            it.seq() == s@,
            r@ == s@.take(it.index()).map_values(|c: char| lower_char(c)),
    {
        let u = to_lower_char(c);
        push_char(&mut r, u);
        proof {
            assert(s@.take(it.index() + 1).map_values(|c: char| lower_char(c)) =~= s@.take(
                it.index(),
            ).map_values(|c: char| lower_char(c)).push(u));
        }
    }
    proof {
        assert(s@.take(s@.len() as int) =~= s@);
    }
    r
}

pub open spec fn is_hex_digit(c: char) -> bool {
    ('0' <= c <= '9') || ('a' <= c <= 'f') || ('A' <= c <= 'F')
}

pub open spec fn all_hex(s: Seq<char>) -> bool {
    forall|i: int| 0 <= i < s.len() ==> is_hex_digit(#[trigger] s[i])
}

/// Whether every character of `s` is an ASCII hex digit.
pub(crate) fn is_all_hex(s: &str) -> (r: bool)
    ensures
        r == all_hex(s@),
{
    let cs = chars_of(s);
    let mut i: usize = 0;
    while i < cs.len()
        invariant
            i <= cs@.len(),
            cs@ == s@,
            forall|j: int| 0 <= j < i ==> is_hex_digit(#[trigger] cs@[j]),
        decreases cs@.len() - i,
    {
        let c = cs[i];
        if !(('0' <= c && c <= '9') || ('a' <= c && c <= 'f') || ('A' <= c && c <= 'F')) {
            return false;
        }
        i = i + 1;
    }
    true
}

/// Number of characters of `s`.
pub(crate) fn char_len(s: &str) -> (n: usize)
    ensures
        n == s@.len(),
{
    let cs = chars_of(s);
    cs.len()
}

/// `s` without any leading `c` characters (`trim_start_matches(c)`).
pub open spec fn strip_leading(s: Seq<char>, c: char) -> Seq<char>
    decreases s.len(),
{
    if s.len() > 0 && s[0] == c {
        strip_leading(s.drop_first(), c)
    } else {
        s
    }
}

pub(crate) fn strip_leading_char(s: &str, c: char) -> (r: String)
    ensures
        r@ == strip_leading(s@, c),
{
    let cs = chars_of(s);
    let mut a: usize = 0;
    proof {
        assert(s@.skip(0) =~= s@);
    }
    while a < cs.len() && cs[a] == c
        invariant
            a <= cs@.len(),
            cs@ == s@,
            strip_leading(s@, c) == strip_leading(s@.skip(a as int), c),
        decreases cs@.len() - a,
    {
        proof {
            assert(s@.skip(a as int).drop_first() =~= s@.skip(a + 1));
        }
        a = a + 1;
    }
    proof {
        assert(s@.skip(a as int) =~= cs@.subrange(a as int, cs@.len() as int));
    }
    string_of_range(&cs, a, cs.len())
}

/// The text after prefix `p`, when `s` starts with it.
pub open spec fn after_prefix(s: Seq<char>, p: Seq<char>) -> Option<Seq<char>> {
    if p.len() <= s.len() && s.take(p.len() as int) == p {
        Some(s.skip(p.len() as int))
    } else {
        None
    }
}

/// `str::strip_prefix`.
pub(crate) fn strip_prefix(s: &str, p: &str) -> (r: Option<String>)
    ensures
        match r {
            Some(t) => after_prefix(s@, p@) == Some(t@),
            None => after_prefix(s@, p@) is None,
        },
{
    let cs = chars_of(s);
    let ps = chars_of(p);
    if ps.len() > cs.len() {
        return None;
    }
    let mut i: usize = 0;
    while i < ps.len()
        invariant
            i <= ps@.len() <= cs@.len(),
            cs@ == s@,
            ps@ == p@,
            forall|j: int| 0 <= j < i ==> cs@[j] == ps@[j],
        decreases ps@.len() - i,
    {
        if cs[i] != ps[i] {
            proof {
                assert(s@.take(p@.len() as int)[i as int] != p@[i as int]);
            }
            return None;
        }
        i = i + 1;
    }
    proof {
        assert(s@.take(p@.len() as int) =~= p@);
        assert(s@.skip(p@.len() as int) =~= cs@.subrange(ps@.len() as int, cs@.len() as int));
    }
    Some(string_of_range(&cs, ps.len(), cs.len()))
}

// ------------------------------------------------------------------
// Splitting
// ------------------------------------------------------------------

/// Position of the first occurrence of `c` in `s`, if any.
pub open spec fn first_index_of(s: Seq<char>, c: char) -> Option<int>
    decreases s.len(),
{
    if s.len() == 0 {
        None
    } else if s[0] == c {
        Some(0)
    } else {
        match first_index_of(s.drop_first(), c) {
            Some(i) => Some(i + 1),
            None => None,
        }
    }
}

pub(crate) proof fn lemma_first_index_of(s: Seq<char>, c: char)
    ensures
        match first_index_of(s, c) {
            Some(i) => 0 <= i < s.len() && s[i] == c && forall|j: int|
                0 <= j < i ==> s[j] != c,
            None => forall|j: int| 0 <= j < s.len() ==> s[j] != c,
        },
    decreases s.len(),
{
    if s.len() > 0 && s[0] != c {
        lemma_first_index_of(s.drop_first(), c);
        match first_index_of(s.drop_first(), c) {
            Some(i) => {
                assert forall|j: int| 0 <= j < i + 1 implies s[j] != c by {
                    if j > 0 {
                        assert(s[j] == s.drop_first()[j - 1]);
                    }
                }
            },
            None => {
                assert forall|j: int| 0 <= j < s.len() implies s[j] != c by {
                    if j > 0 {
                        assert(s[j] == s.drop_first()[j - 1]);
                    }
                }
            },
        }
    }
}

/// Index of the first `c` in a character vector.
pub(crate) fn find_char(cs: &Vec<char>, c: char) -> (r: Option<usize>)
    ensures
        match r {
            Some(i) => first_index_of(cs@, c) == Some(i as int),
            None => first_index_of(cs@, c) is None,
        },
{
    proof {
        lemma_first_index_of(cs@, c);
    }
    let mut i: usize = 0;
    while i < cs.len()
        invariant
            i <= cs@.len(),
            forall|j: int| 0 <= j < i ==> cs@[j] != c,
            match first_index_of(cs@, c) {
                Some(k) => 0 <= k < cs@.len() && cs@[k] == c && forall|j: int|
                    0 <= j < k ==> cs@[j] != c,
                None => forall|j: int| 0 <= j < cs@.len() ==> cs@[j] != c,
            },
        decreases cs@.len() - i,
    {
        if cs[i] == c {
            return Some(i);
        }
        i = i + 1;
    }
    None
}

/// `str::split_once(c)`: the text before and after the first `c`.
pub open spec fn split_once_spec(s: Seq<char>, c: char) -> Option<(Seq<char>, Seq<char>)> {
    match first_index_of(s, c) {
        Some(i) => Some((s.take(i), s.skip(i + 1))),
        None => None,
    }
}

pub(crate) fn split_once(s: &str, c: char) -> (r: Option<(String, String)>)
    ensures
        match r {
            Some((a, b)) => split_once_spec(s@, c) == Some((a@, b@)),
            None => split_once_spec(s@, c) is None,
        },
{
    let cs = chars_of(s);
    let n = cs.len();
    match find_char(&cs, c) {
        Some(i) => {
            proof {
                lemma_first_index_of(cs@, c);
                assert(first_index_of(cs@, c) == Some(i as int));
                assert(i < cs@.len());
            }
            let a = string_of_range(&cs, 0, i);
            let b = string_of_range(&cs, i + 1, n);
            proof {
                assert(a@ =~= s@.take(i as int));
                assert(b@ =~= s@.skip(i + 1));
            }
            Some((a, b))
        },
        None => None,
    }
}

/// `str::split(c)`: the pieces between occurrences of `c` (at least one).
pub open spec fn split_spec(s: Seq<char>, c: char) -> Seq<Seq<char>>
    decreases s.len(),
{
    match first_index_of(s, c) {
        Some(i) => {
            if 0 <= i < s.len() {
                seq![s.take(i)] + split_spec(s.skip(i + 1), c)
            } else {
                seq![s]
            }
        },
        None => seq![s],
    }
}

pub open spec fn views_of(v: Seq<String>) -> Seq<Seq<char>> {
    v.map_values(|x: String| x@)
}

pub(crate) fn split_char(s: &str, c: char) -> (r: Vec<String>)
    ensures
        views_of(r@) == split_spec(s@, c),
{
    let cs = chars_of(s);
    let mut out: Vec<String> = Vec::new();
    let mut start: usize = 0;
    let mut i: usize = 0;
    proof {
        assert(cs@.skip(0) =~= s@);
        assert(views_of(out@) + split_spec(cs@.skip(0), c) =~= split_spec(s@, c));
    }
    while i < cs.len()
        invariant
            start <= i <= cs@.len(),
            cs@ == s@,
            forall|j: int| start <= j < i ==> cs@[j] != c,
            views_of(out@) + split_spec(cs@.skip(start as int), c) == split_spec(s@, c),
        decreases cs@.len() - i,
    {
        if cs[i] == c {
            let ghost rest = cs@.skip(start as int);
            proof {
                lemma_first_index_of(rest, c);
                assert forall|j: int| 0 <= j < i - start implies rest[j] != c by {
                    assert(rest[j] == cs@[start + j]);
                }
                assert(rest[i - start] == c);
                assert(first_index_of(rest, c) == Some(i - start)) by {
                    match first_index_of(rest, c) {
                        Some(k) => {
                            if k < i - start {
                                assert(rest[k] != c);
                            } else if k > i - start {
                                assert(rest[i - start] != c);
                            }
                        },
                        None => {
                            assert(rest[i - start] != c);
                        },
                    }
                }
                assert(rest.skip(i - start + 1) =~= cs@.skip(i + 1));
                assert(rest.take(i - start) =~= cs@.subrange(start as int, i as int));
            }
            let piece = string_of_range(&cs, start, i);
            let ghost old_out = out@;
            out.push(piece);
            proof {
                assert(views_of(out@) =~= views_of(old_out).push(piece@));
                assert(split_spec(rest, c) =~= seq![piece@] + split_spec(cs@.skip(i + 1), c));
                assert(views_of(out@) + split_spec(cs@.skip(i + 1), c) =~= views_of(old_out)
                    + split_spec(rest, c));
            }
            start = i + 1;
        }
        i = i + 1;
    }
    let ghost rest = cs@.skip(start as int);
    proof {
        lemma_first_index_of(rest, c);
        assert forall|j: int| 0 <= j < rest.len() implies rest[j] != c by {
            assert(rest[j] == cs@[start + j]);
        }
        assert(first_index_of(rest, c) is None);
        assert(rest =~= cs@.subrange(start as int, cs@.len() as int));
    }
    let last = string_of_range(&cs, start, cs.len());
    let ghost old_out = out@;
    out.push(last);
    proof {
        assert(views_of(out@) =~= views_of(old_out).push(last@));
        assert(views_of(out@) =~= views_of(old_out) + split_spec(rest, c));
    }
    out
}


/// `str::split_whitespace` from index `i` on, with the word read so far
/// and the words before it.
pub open spec fn words_acc(s: Seq<char>, i: nat, cur: Seq<char>, acc: Seq<Seq<char>>) -> Seq<Seq<char>>
    decreases s.len() - i,
{
    if i >= s.len() {
        if cur.len() > 0 {
            acc.push(cur)
        } else {
            acc
        }
    } else if is_ws(s[i as int]) {
        words_acc(
            s,
            i + 1,
            Seq::empty(),
            if cur.len() > 0 {
                acc.push(cur)
            } else {
                acc
            },
        )
    } else {
        words_acc(s, i + 1, cur.push(s[i as int]), acc)
    }
}

/// `str::split_whitespace`: the maximal runs of non-whitespace, in order.
pub open spec fn words(s: Seq<char>) -> Seq<Seq<char>> {
    words_acc(s, 0, Seq::empty(), Seq::empty())
}

pub(crate) fn split_words(s: &str) -> (r: Vec<String>)
    ensures
        views_of(r@) == words(s@),
{
    let cs = chars_of(s);
    let mut out: Vec<String> = Vec::new();
    let mut cur = String::new();
    let mut i: usize = 0;
    proof {
        assert(views_of(out@) =~= Seq::<Seq<char>>::empty());
    }
    while i < cs.len()
        invariant
            i <= cs@.len(),
            cs@ == s@,
            words(s@) == words_acc(cs@, i as nat, cur@, views_of(out@)),
        decreases cs@.len() - i,
    {
        let c = cs[i];
        if is_whitespace(c) {
            if char_len(cur.as_str()) > 0 {
                let ghost before = out@;
                let w = to_owned_string(cur.as_str());
                out.push(w);
                proof {
                    assert(views_of(out@) =~= views_of(before).push(cur@));
                }
            }
            cur = String::new();
        } else {
            push_char(&mut cur, c);
        }
        i = i + 1;
    }
    if char_len(cur.as_str()) > 0 {
        let ghost before = out@;
        out.push(cur);
        proof {
            assert(views_of(out@) =~= views_of(before).push(cur@));
        }
    }
    out
}

// ------------------------------------------------------------------
// Lexicographic order
// ------------------------------------------------------------------

/// `<` on `str`: lexicographic by character (the order of the UTF-8
/// bytes, and of the code points).
pub open spec fn seq_lt(a: Seq<char>, b: Seq<char>) -> bool
    decreases a.len(),
{
    if a.len() == 0 {
        b.len() > 0
    } else if b.len() == 0 {
        false
    } else if a[0] != b[0] {
        (a[0] as int) < (b[0] as int)
    } else {
        seq_lt(a.skip(1), b.skip(1))
    }
}

pub proof fn lemma_seq_lt_irreflexive(a: Seq<char>)
    ensures
        !seq_lt(a, a),
    decreases a.len(),
{
    if a.len() > 0 {
        lemma_seq_lt_irreflexive(a.skip(1));
    }
}

pub proof fn lemma_seq_lt_transitive(a: Seq<char>, b: Seq<char>, c: Seq<char>)
    requires
        seq_lt(a, b),
        seq_lt(b, c),
    ensures
        seq_lt(a, c),
    decreases a.len(),
{
    if a.len() > 0 && b.len() > 0 && c.len() > 0 && a[0] == b[0] && b[0] == c[0] {
        lemma_seq_lt_transitive(a.skip(1), b.skip(1), c.skip(1));
    }
}

pub proof fn lemma_seq_lt_total(a: Seq<char>, b: Seq<char>)
    requires
        a != b,
    ensures
        seq_lt(a, b) || seq_lt(b, a),
    decreases a.len(),
{
    if a.len() > 0 && b.len() > 0 && a[0] == b[0] {
        if a.skip(1) == b.skip(1) {
            assert(a =~= seq![a[0]] + a.skip(1));
            assert(b =~= seq![b[0]] + b.skip(1));
        }
        lemma_seq_lt_total(a.skip(1), b.skip(1));
    } else if a.len() == 0 && b.len() == 0 {
        assert(a =~= b);
    }
}

/// Every earlier element below every later one.
pub open spec fn strictly_sorted(s: Seq<Seq<char>>) -> bool {
    forall|i: int, j: int| 0 <= i < j < s.len() ==> seq_lt(#[trigger] s[i], #[trigger] s[j])
}

proof fn lemma_chain_lt(s: Seq<Seq<char>>, i: int, j: int)
    requires
        0 <= i < j < s.len(),
        forall|k: int| 0 <= k < s.len() - 1 ==> seq_lt(#[trigger] s[k], s[k + 1]),
    ensures
        seq_lt(s[i], s[j]),
    decreases j - i,
{
    if j > i + 1 {
        lemma_chain_lt(s, i, j - 1);
        assert(seq_lt(s[j - 1], s[j]));
        lemma_seq_lt_transitive(s[i], s[j - 1], s[j]);
    }
}

/// A list whose neighbours are in order is strictly sorted.
pub proof fn lemma_sorted_from_neighbours(s: Seq<Seq<char>>)
    requires
        forall|k: int| 0 <= k < s.len() - 1 ==> seq_lt(#[trigger] s[k], s[k + 1]),
    ensures
        strictly_sorted(s),
{
    assert forall|i: int, j: int| 0 <= i < j < s.len() implies seq_lt(#[trigger] s[i], #[trigger] s[j]) by {
        lemma_chain_lt(s, i, j);
    }
}

/// `a < b` on strings.
pub(crate) fn str_lt(a: &str, b: &str) -> (r: bool)
    ensures
        r == seq_lt(a@, b@),
{
    let ca = chars_of(a);
    let cb = chars_of(b);
    let mut i: usize = 0;
    proof {
        assert(a@.skip(0) =~= a@);
        assert(b@.skip(0) =~= b@);
    }
    while i < ca.len() && i < cb.len() && ca[i] == cb[i]
        invariant
            i <= ca@.len(),
            i <= cb@.len(),
            ca@ == a@,
            cb@ == b@,
            seq_lt(a@, b@) == seq_lt(a@.skip(i as int), b@.skip(i as int)),
        decreases ca@.len() - i,
    {
        proof {
            assert(a@.skip(i as int).skip(1) =~= a@.skip(i + 1));
            assert(b@.skip(i as int).skip(1) =~= b@.skip(i + 1));
        }
        i = i + 1;
    }
    if i == ca.len() {
        i < cb.len()
    } else if i == cb.len() {
        false
    } else {
        ca[i] < cb[i]
    }
}

/// A line without the `\r` of a `\r\n` ending.
pub open spec fn strip_cr(l: Seq<char>) -> Seq<char> {
    if l.len() > 0 && l.last() == '\r' {
        l.drop_last()
    } else {
        l
    }
}

/// `str::lines`: the text split at `\n`, a `\r` before a `\n` dropped,
/// and no empty last line after a final `\n`.
pub open spec fn lines_spec(s: Seq<char>) -> Seq<Seq<char>> {
    let p = split_spec(s, '\n');
    let n = if p.len() > 0 && p.last().len() == 0 {
        p.len() - 1
    } else {
        p.len() as int
    };
    Seq::new(n as nat, |i: int| if i < p.len() - 1 { strip_cr(p[i]) } else { p[i] })
}

proof fn lemma_split_nonempty(s: Seq<char>, c: char)
    ensures
        split_spec(s, c).len() >= 1,
    decreases s.len(),
{
    match first_index_of(s, c) {
        Some(i) => {
            if 0 <= i < s.len() {
                lemma_split_nonempty(s.skip(i + 1), c);
            }
        },
        None => {},
    }
}

pub(crate) fn lines(s: &str) -> (r: Vec<String>)
    ensures
        views_of(r@) == lines_spec(s@),
{
    let parts = split_char(s, '\n');
    let ghost p = views_of(parts@);
    proof {
        lemma_split_nonempty(s@, '\n');
    }
    let np = parts.len();
    let n = if np > 0 && char_len(parts[np - 1].as_str()) == 0 {
        np - 1
    } else {
        np
    };
    let mut out: Vec<String> = Vec::new();
    let mut i: usize = 0;
    while i < n
        invariant
            i <= n <= np,
            np == parts@.len(),
            np >= 1,
            p == views_of(parts@),
            p == split_spec(s@, '\n'),
            n == if p.len() > 0 && p.last().len() == 0 { p.len() - 1 } else { p.len() as int },
            views_of(out@) == lines_spec(s@).take(i as int),
        decreases n - i,
    {
        let cs = chars_of(parts[i].as_str());
        let line = if i < np - 1 && cs.len() > 0 && cs[cs.len() - 1] == '\r' {
            string_of_range(&cs, 0, cs.len() - 1)
        } else {
            to_owned_string(parts[i].as_str())
        };
        proof {
            if i < np - 1 && cs@.len() > 0 && cs@[cs@.len() - 1] == '\r' {
                assert(line@ =~= p[i as int].drop_last());
            }
            assert(line@ == lines_spec(s@)[i as int]);
        }
        let ghost before = out@;
        out.push(line);
        proof {
            assert(views_of(out@) =~= views_of(before).push(line@));
            assert(lines_spec(s@).take(i + 1) =~= lines_spec(s@).take(i as int).push(lines_spec(s@)[i as int]));
        }
        i = i + 1;
    }
    proof {
        assert(lines_spec(s@).take(i as int) =~= lines_spec(s@));
    }
    out
}
} // verus!
