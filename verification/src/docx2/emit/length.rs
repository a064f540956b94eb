//! Decimal lengths with a unit, converted to whole OOXML units.
//!
//! A length is a decimal number — optional sign, digits, optional
//! fraction — and a unit. The number is scaled by the unit's rational
//! factor `p / q` and rounded to the nearest whole unit, halves away
//! from zero. The arithmetic is exact: no digit of the input is lost,
//! however long the text.

use vstd::prelude::*;

use crate::text::{all_digits, chars_of, digit_value, digits_value, first_index_of, is_digit};

verus! {

/// `10^n`.
pub open spec fn pow10(n: nat) -> nat
    decreases n,
{
    if n == 0 {
        1
    } else {
        10 * pow10((n - 1) as nat)
    }
}

/// The sign and the digits before and after the point of a decimal:
/// an optional `+` or `-`, digits, an optional `.` and more digits, at
/// least one digit in all.
pub open spec fn decimal_of(s: Seq<char>) -> Option<(bool, Seq<char>, Seq<char>)> {
    let neg = s.len() > 0 && s[0] == '-';
    let body = if s.len() > 0 && (s[0] == '+' || s[0] == '-') {
        s.drop_first()
    } else {
        s
    };
    let parts = match first_index_of(body, '.') {
        Some(i) => (body.take(i), body.skip(i + 1)),
        None => (body, Seq::<char>::empty()),
    };
    if all_digits(parts.0) && all_digits(parts.1) && parts.0.len() + parts.1.len() > 0 {
        Some((neg, parts.0, parts.1))
    } else {
        None
    }
}

/// `|value| * p / q` rounded to the nearest integer, halves up, where
/// `|value|` is `int_digits.frac_digits`.
pub open spec fn round_scaled(a: Seq<char>, b: Seq<char>, p: nat, q: nat) -> nat {
    (2 * digits_value(a + b) * p + q * pow10(b.len())) / (2 * q * pow10(b.len()))
}

/// Rounding goes to the nearest whole unit, halves up: with `v` the
/// decimal `a.b` scaled by `p / q`, the result `r` has
/// `r - 1/2 <= v < r + 1/2`.
pub proof fn lemma_round_scaled_nearest(a: Seq<char>, b: Seq<char>, p: nat, q: nat)
    requires
        q > 0,
    ensures
        ({
            let d = digits_value(a + b) as int;
            let m = (q * pow10(b.len())) as int;
            let r = round_scaled(a, b, p, q) as int;
            2 * m * r - m <= 2 * d * (p as int) < 2 * m * r + m
        }),
{
    lemma_pow10_pos(b.len());
    let d = digits_value(a + b) as int;
    let m = (q * pow10(b.len())) as int;
    let r = round_scaled(a, b, p, q) as int;
    assert(m >= 1) by (nonlinear_arith)
        requires
            m == q * pow10(b.len()),
            q >= 1,
            pow10(b.len()) >= 1,
    ;
    assert(2 * q * pow10(b.len()) == 2 * m) by (nonlinear_arith)
        requires
            m == q * pow10(b.len()),
    ;
    assert(r == (2 * d * (p as int) + m) / (2 * m));
    assert(2 * m * r <= 2 * d * (p as int) + m < 2 * m * r + 2 * m) by (nonlinear_arith)
        requires
            r == (2 * d * (p as int) + m) / (2 * m),
            m >= 1,
    ;
}

/// A decimal text scaled by `p / q` and rounded: `None` when the text
/// is no decimal; else its sign and the rounded magnitude, or `None`
/// for the magnitude when it exceeds `u32::MAX`.
pub open spec fn scaled_of(s: Seq<char>, p: nat, q: nat) -> Option<(bool, Option<u32>)> {
    match decimal_of(s) {
        None => None,
        Some((neg, a, b)) => {
            let r = round_scaled(a, b, p, q);
            Some(
                (
                    neg,
                    if r > u32::MAX {
                        None
                    } else {
                        Some(r as u32)
                    },
                ),
            )
        },
    }
}

/// A non-negative length in whole units: a negative value that rounds
/// to zero is zero, any other negative value or an overflow is `None`.
pub open spec fn length_of(s: Seq<char>, p: nat, q: nat) -> Option<u32> {
    match scaled_of(s, p, q) {
        Some((neg, Some(r))) => if neg && r > 0 {
            None
        } else {
            Some(r)
        },
        _ => None,
    }
}

// ------------------------------------------------------------------
// Arithmetic facts
// ------------------------------------------------------------------

proof fn lemma_pow10_pos(n: nat)
    ensures
        pow10(n) >= 1,
    decreases n,
{
    if n > 0 {
        lemma_pow10_pos((n - 1) as nat);
    }
}

/// Digits concatenate as `a * 10^|b| + b`.
proof fn lemma_digits_concat(a: Seq<char>, b: Seq<char>)
    ensures
        digits_value(a + b) == digits_value(a) * pow10(b.len()) + digits_value(b),
    decreases b.len(),
{
    if b.len() == 0 {
        assert(a + b =~= a);
        assert(pow10(0) == 1);
        assert(digits_value(b) == 0);
        assert(digits_value(a) * 1 == digits_value(a));
    } else {
        lemma_digits_concat(a, b.drop_last());
        assert((a + b).drop_last() =~= a + b.drop_last());
        assert((a + b).last() == b.last());
        let va = digits_value(a);
        let p = pow10((b.len() - 1) as nat);
        let vb = digits_value(b.drop_last());
        let d = digit_value(b.last());
        assert(digits_value(a + b) == digits_value(a + b.drop_last()) * 10 + d);
        assert(digits_value(a + b.drop_last()) == va * p + vb);
        assert(digits_value(b) == vb * 10 + d);
        assert(pow10(b.len()) == 10 * p);
        assert((va * p + vb) * 10 + d == va * (10 * p) + (vb * 10 + d)) by (nonlinear_arith);
        assert(digits_value(a + b) == va * pow10(b.len()) + digits_value(b));
    }
}

/// Carry out of multiplying the digit string `b` by `c`, digit by digit
/// from the right: the integer part of `c * 0.b`.
pub open spec fn carry_out(b: Seq<char>, c: nat) -> nat
    decreases b.len(),
{
    if b.len() == 0 {
        0
    } else {
        (c * digit_value(b[0]) + carry_out(b.drop_first(), c)) / 10
    }
}

proof fn lemma_carry_out(b: Seq<char>, c: nat)
    requires
        all_digits(b),
    ensures
        carry_out(b, c) == (c * digits_value(b)) / pow10(b.len()),
    decreases b.len(),
{
    if b.len() == 0 {
        assert(digits_value(b) == 0);
        assert(pow10(0) == 1);
        assert(c * 0 == 0) by (nonlinear_arith);
    } else {
        let rest = b.drop_first();
        let n = rest.len();
        assert(all_digits(rest)) by {
            assert forall|i: int| 0 <= i < rest.len() implies is_digit(#[trigger] rest[i]) by {
                assert(rest[i] == b[i + 1]);
            }
        }
        lemma_carry_out(rest, c);
        lemma_pow10_pos(n);
        assert(b =~= seq![b[0]] + rest);
        lemma_digits_concat(seq![b[0]], rest);
        assert(digits_value(seq![b[0]]) == digit_value(b[0])) by {
            assert(seq![b[0]].drop_last() =~= Seq::<char>::empty());
            assert(digits_value(Seq::<char>::empty()) == 0);
            assert(seq![b[0]].last() == b[0]);
        }
        let d = digit_value(b[0]);
        let s = digits_value(rest);
        let m = pow10(n);
        assert(digits_value(b) == d * m + s);
        let cs = c * s;
        let cd = c * d;
        let x = cs + cd * m;
        assert(c * (d * m + s) == x) by (nonlinear_arith)
            requires
                cs == c * s,
                cd == c * d,
                x == cs + cd * m,
        ;
        assert(carry_out(rest, c) == cs / m);
        assert(carry_out(b, c) == (cd + carry_out(rest, c)) / 10);
        vstd::arithmetic::div_mod::lemma_hoist_over_denominator(cs as int, cd as int, m);
        assert(cs as int / m as int + cd as int == (cs as int + cd as int * m) / m as int);
        vstd::arithmetic::div_mod::lemma_div_denominator(x as int, m as int, 10);
        assert(x as int / m as int / 10 == x as int / (m as int * 10));
        assert(pow10(b.len()) == 10 * m);
        assert(m * 10 == 10 * m) by (nonlinear_arith);
    }
}

/// The rounded value from the integer part, the unit factor and the
/// carry out of the fraction.
proof fn lemma_round_split(a: Seq<char>, b: Seq<char>, p: nat, q: nat)
    requires
        all_digits(b),
        q >= 1,
    ensures
        round_scaled(a, b, p, q) == (2 * digits_value(a) * p + q + carry_out(b, 2 * p)) / (2 * q),
{
    let k = b.len();
    let m = pow10(k);
    lemma_pow10_pos(k);
    lemma_digits_concat(a, b);
    lemma_carry_out(b, 2 * p);
    let i = digits_value(a);
    let f = digits_value(b);
    // 2 * (i*m + f) * p + q*m == m * (2*i*p + q) + 2*p*f
    assert(2 * (i * m + f) * p + q * m == m * (2 * i * p + q) + (2 * p) * f) by (nonlinear_arith);
    assert(2 * q * m == m * (2 * q)) by (nonlinear_arith);
    let big = m * (2 * i * p + q) + (2 * p) * f;
    assert(big >= 0);
    vstd::arithmetic::div_mod::lemma_div_denominator(big as int, m as int, (2 * q) as int);
    vstd::arithmetic::div_mod::lemma_hoist_over_denominator(
        ((2 * p) * f) as int,
        (2 * i * p + q) as int,
        m,
    );
    assert(((2 * p) * f) as int + (2 * i * p + q) as int * m == big as int) by (nonlinear_arith)
        requires
            big == m * (2 * i * p + q) + (2 * p) * f,
    ;
}

/// A big integer part makes a big result.
proof fn lemma_round_at_least_int(a: Seq<char>, b: Seq<char>, p: nat, q: nat)
    requires
        q >= 1,
        p >= q,
    ensures
        round_scaled(a, b, p, q) >= digits_value(a),
{
    let k = b.len();
    let m = pow10(k);
    lemma_pow10_pos(k);
    lemma_digits_concat(a, b);
    let i = digits_value(a);
    let f = digits_value(b);
    let num = 2 * (i * m + f) * p + q * m;
    let den = 2 * q * m;
    assert(num >= i * den) by (nonlinear_arith)
        requires
            num == 2 * (i * m + f) * p + q * m,
            den == 2 * q * m,
            p >= q,
            m >= 1,
            q >= 1,
    ;
    assert(den > 0) by (nonlinear_arith)
        requires
            den == 2 * q * m,
            m >= 1,
            q >= 1,
    ;
    vstd::arithmetic::div_mod::lemma_div_is_ordered((i * den) as int, num as int, den as int);
    vstd::arithmetic::div_mod::lemma_div_multiples_vanish(i as int, den as int);
    assert(i * den == den * i) by (nonlinear_arith);
}

// ------------------------------------------------------------------
// Scanning
// ------------------------------------------------------------------

/// The position of the first `.` at or after `start`, or the end.
fn find_dot(cs: &Vec<char>, start: usize) -> (dot: usize)
    requires
        start <= cs@.len(),
    ensures
        start <= dot <= cs@.len(),
        dot < cs@.len() ==> cs@[dot as int] == '.',
        forall|j: int| start <= j < dot ==> cs@[j] != '.',
{
    let n = cs.len();
    let mut dot: usize = start;
    while dot < n && cs[dot] != '.'
        invariant
            start <= dot <= n,
            n == cs@.len(),
            forall|j: int| start <= j < dot ==> cs@[j] != '.',
        decreases n - dot,
    {
        dot = dot + 1;
    }
    dot
}

/// Digits `from..to` of `cs`: `None` unless all are digits; else their
/// value, or `big` once it reaches 2^33.
fn int_part(cs: &Vec<char>, from: usize, to: usize) -> (r: Option<(u64, bool)>)
    requires
        from <= to <= cs@.len(),
    ensures
        match r {
            None => !all_digits(cs@.subrange(from as int, to as int)),
            Some((v, big)) => all_digits(cs@.subrange(from as int, to as int)) && (big ==> digits_value(
                cs@.subrange(from as int, to as int),
            ) >= 0x2_0000_0000) && (!big ==> v == digits_value(cs@.subrange(from as int, to as int))
                && v < 0x2_0000_0000),
        },
{
    let ghost a = cs@.subrange(from as int, to as int);
    let mut ip: u64 = 0;
    let mut big = false;
    let mut i: usize = from;
    while i < to
        invariant
            from <= i <= to <= cs@.len(),
            a == cs@.subrange(from as int, to as int),
            big ==> digits_value(a.take(i - from)) >= 0x2_0000_0000,
            !big ==> ip == digits_value(a.take(i - from)) && ip < 0x2_0000_0000,
            all_digits(a.take(i - from)),
        decreases to - i,
    {
        let c = cs[i];
        if !('0' <= c && c <= '9') {
            proof {
                assert(a[i - from] == c);
            }
            return None;
        }
        proof {
            assert(a.take(i - from + 1).drop_last() =~= a.take(i - from));
            assert(a.take(i - from + 1).last() == c);
        }
        if !big {
            let d = (c as u32 - '0' as u32) as u64;
            let v = ip * 10 + d;
            if v >= 0x2_0000_0000 {
                big = true;
            } else {
                ip = v;
            }
        }
        i = i + 1;
    }
    proof {
        assert(a.take(to - from) =~= a);
    }
    Some((ip, big))
}

/// Whether `cs[from..]` is all digits.
fn all_digits_from(cs: &Vec<char>, from: usize) -> (ok: bool)
    requires
        from <= cs@.len(),
    ensures
        ok == all_digits(cs@.skip(from as int)),
{
    let n = cs.len();
    let mut j: usize = from;
    while j < n
        invariant
            from <= j <= n,
            n == cs@.len(),
            forall|t: int| from <= t < j ==> is_digit(cs@[t]),
        decreases n - j,
    {
        let c = cs[j];
        if !('0' <= c && c <= '9') {
            proof {
                assert(cs@.skip(from as int)[j - from] == c);
            }
            return false;
        }
        j = j + 1;
    }
    proof {
        assert forall|t: int| 0 <= t < cs@.skip(from as int).len() implies is_digit(
            #[trigger] cs@.skip(from as int)[t],
        ) by {
            assert(cs@.skip(from as int)[t] == cs@[t + from]);
        }
    }
    true
}

/// The carry out of multiplying the digits `cs[from..]` by `two_p`.
fn frac_carry(cs: &Vec<char>, from: usize, two_p: u64) -> (carry: u64)
    requires
        from <= cs@.len(),
        all_digits(cs@.skip(from as int)),
        1 <= two_p <= 2000000,
    ensures
        carry == carry_out(cs@.skip(from as int), two_p as nat),
        carry < two_p,
{
    let n = cs.len();
    let mut carry: u64 = 0;
    let mut k: usize = n;
    proof {
        assert(cs@.skip(n as int) =~= Seq::<char>::empty());
    }
    while k > from
        invariant
            from <= k <= n,
            n == cs@.len(),
            all_digits(cs@.skip(from as int)),
            1 <= two_p <= 2000000,
            carry == carry_out(cs@.skip(k as int), two_p as nat),
            carry < two_p,
        decreases k - from,
    {
        let c = cs[k - 1];
        proof {
            assert(cs@.skip(from as int)[k - 1 - from] == c);
            assert(is_digit(c));
            assert(cs@.skip(k - 1).drop_first() =~= cs@.skip(k as int));
            assert(cs@.skip(k - 1)[0] == c);
        }
        let d = (c as u32 - '0' as u32) as u64;
        proof {
            assert(d == digit_value(c));
            assert(two_p * d <= two_p * 9) by (nonlinear_arith)
                requires
                    d <= 9,
            ;
            assert(two_p * d + two_p <= two_p * 10) by (nonlinear_arith)
                requires
                    d <= 9,
            ;
        }
        carry = (two_p * d + carry) / 10;
        k = k - 1;
    }
    carry
}

/// Scale a decimal text by `p / q` and round, exactly.
pub fn scaled(s: &str, p: u64, q: u64) -> (r: Option<(bool, Option<u32>)>)
    requires
        1 <= q <= p <= 1000000,
    ensures
        r == scaled_of(s@, p as nat, q as nat),
{
    let cs = chars_of(s);
    let n = cs.len();
    let neg = n > 0 && cs[0] == '-';
    let start: usize = if n > 0 && (cs[0] == '+' || cs[0] == '-') {
        1
    } else {
        0
    };
    let ghost body = if s@.len() > 0 && (s@[0] == '+' || s@[0] == '-') {
        s@.drop_first()
    } else {
        s@
    };
    proof {
        assert(cs@.skip(start as int) =~= body);
    }
    let dot = find_dot(&cs, start);
    let frac_start: usize = if dot < n {
        dot + 1
    } else {
        n
    };
    let ghost a = cs@.subrange(start as int, dot as int);
    let ghost b = cs@.skip(frac_start as int);
    proof {
        crate::text::lemma_first_index_of(body, '.');
        assert forall|j: int| 0 <= j < dot - start implies body[j] != '.' by {
            assert(body[j] == cs@[j + start]);
        }
        if dot < n {
            assert(body[dot - start] == '.');
            match first_index_of(body, '.') {
                Some(i) => {
                    if i < dot - start {
                        assert(body[i] != '.');
                    }
                    if i > dot - start {
                        assert(body[dot - start] != '.');
                    }
                },
                None => {},
            }
            assert(first_index_of(body, '.') == Some((dot - start) as int));
            assert(a =~= body.take(dot - start));
            assert(b =~= body.skip(dot - start + 1));
        } else {
            match first_index_of(body, '.') {
                Some(i) => {
                    assert(body[i] == '.');
                },
                None => {},
            }
            assert(first_index_of(body, '.') is None);
            assert(a =~= body);
            assert(b =~= Seq::<char>::empty());
        }
        assert((match first_index_of(body, '.') {
            Some(i) => (body.take(i), body.skip(i + 1)),
            None => (body, Seq::<char>::empty()),
        }) == (a, b));
    }
    let ip_big = match int_part(&cs, start, dot) {
        Some(v) => v,
        None => return None,
    };
    if !all_digits_from(&cs, frac_start) {
        return None;
    }
    if dot - start + (n - frac_start) == 0 {
        return None;
    }
    proof {
        assert(decimal_of(s@) == Some((neg, a, b)));
    }
    let (ip, big) = ip_big;
    if big {
        proof {
            lemma_round_at_least_int(a, b, p as nat, q as nat);
        }
        return Some((neg, None));
    }
    let carry = frac_carry(&cs, frac_start, 2 * p);
    proof {
        lemma_round_split(a, b, p as nat, q as nat);
        assert(2 * ip * p <= 2 * 0x2_0000_0000 * 1000000) by (nonlinear_arith)
            requires
                ip < 0x2_0000_0000,
                p <= 1000000,
        ;
    }
    let r: u64 = (2 * ip * p + q + carry) / (2 * q);
    if r > 0xFFFF_FFFF {
        Some((neg, None))
    } else {
        Some((neg, Some(r as u32)))
    }
}

/// A non-negative length in whole units (see [`length_of`]).
pub fn length(s: &str, p: u64, q: u64) -> (r: Option<u32>)
    requires
        1 <= q <= p <= 1000000,
    ensures
        r == length_of(s@, p as nat, q as nat),
{
    match scaled(s, p, q) {
        Some((neg, Some(v))) => if neg && v > 0 {
            None
        } else {
            Some(v)
        },
        _ => None,
    }
}

} // verus!
