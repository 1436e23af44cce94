//! Consumption rates as exact fractions, and the conversion of metered
//! execution time into billable units.

use crate::text::{chars_of, digits_u64, parse_digits, unsigned_body};
use vstd::prelude::*;

verus! {

/// Ten to the power `k`.
pub open spec fn pow10(k: nat) -> nat
    decreases k,
{
    if k == 0 {
        1
    } else {
        10 * pow10((k - 1) as nat)
    }
}

/// The position of the first `c` in `s`, or the length of `s` when `c`
/// does not occur.
pub open spec fn first_index(s: Seq<char>, c: char) -> int
    decreases s.len(),
{
    if s.len() == 0 || s[0] == c {
        0
    } else {
        1 + first_index(s.drop_first(), c)
    }
}

/// The quotient of `a` by `b`, rounded up.
pub open spec fn ceil_div(a: nat, b: nat) -> nat
    recommends
        b > 0,
{
    if a % b == 0 {
        a / b
    } else {
        a / b + 1
    }
}

/// Consumption units per second of execution time, held as the exact
/// fraction `numerator / denominator`.
#[derive(Clone, Copy, Debug, PartialEq, Eq, Structural)]
pub struct Rate {
    pub numerator: u64,
    pub denominator: u64,
}

/// The digits before the decimal point of an unsigned numeral.
pub open spec fn whole_digits(body: Seq<char>) -> Seq<char> {
    body.subrange(0, first_index(body, '.'))
}

/// The digits after the decimal point of an unsigned numeral; none when
/// it has no decimal point.
pub open spec fn fraction_digits(body: Seq<char>) -> Seq<char> {
    let p = first_index(body, '.');
    if p < body.len() {
        body.subrange(p + 1, body.len() as int)
    } else {
        Seq::empty()
    }
}

/// The rate that a decimal numeral writes: an optional plus sign, digits,
/// and optionally a point followed by at most nineteen digits. At least
/// one digit must be present, and the digits read as one number must fit
/// in 64 bits.
///
/// Every other text writes no rate. Among them are numerals that a
/// reader of floating-point numbers would take: one with an exponent
/// (`1e3`), one with more than nineteen digits after the point, one
/// whose digits exceed 64 bits, the words `inf`, `infinity` and `nan`,
/// and any numeral with a minus sign.
pub open spec fn parse_rate_spec(s: Seq<char>) -> Option<Rate> {
    let body = unsigned_body(s);
    let frac = fraction_digits(body);
    let digits = whole_digits(body) + frac;
    if frac.len() <= 19 && digits_u64(digits) is Some {
        Some(Rate { numerator: digits_u64(digits).unwrap(), denominator: pow10(frac.len()) as u64 })
    } else {
        None
    }
}

/// The units owed for `delta_ms` milliseconds at `rate`: the product of
/// the seconds and the rate, rounded up to a whole unit.
pub open spec fn consumption_units(delta_ms: nat, rate: Rate) -> nat
    recommends
        rate.wf(),
{
    ceil_div(delta_ms * rate.numerator as nat, 1000 * rate.denominator as nat)
}

/// Ten to a power of at most nineteen fits in 64 bits.
pub proof fn lemma_pow10_bound(k: nat)
    requires
        k <= 19,
    ensures
        0 < pow10(k) <= 10_000_000_000_000_000_000,
    decreases k,
{
    reveal_with_fuel(pow10, 20);
}

/// Ten to the power `k`, for the powers that fit in 64 bits.
pub fn power_of_ten(k: usize) -> (p: u64)
    requires
        k <= 19,
    ensures
        p == pow10(k as nat),
{
    let mut p: u64 = 1;
    let mut i: usize = 0;
    while i < k
        invariant
            i <= k <= 19,
            p == pow10(i as nat),
        decreases k - i,
    {
        proof {
            lemma_pow10_bound(i as nat);
            lemma_pow10_bound((i + 1) as nat);
        }
        p = p * 10;
        i += 1;
    }
    p
}

/// The position of the first `c` at or after `from`.
pub fn position_of(cs: &Vec<char>, from: usize, c: char) -> (p: usize)
    requires
        from <= cs.len(),
    ensures
        from <= p <= cs.len(),
        p - from == first_index(cs@.subrange(from as int, cs.len() as int), c),
{
    let mut p: usize = from;
    let ghost tail = cs@.subrange(from as int, cs.len() as int);
    while p < cs.len() && cs[p] != c
        invariant
            from <= p <= cs.len(),
            tail == cs@.subrange(from as int, cs.len() as int),
            first_index(tail, c) == (p - from) + first_index(
                cs@.subrange(p as int, cs.len() as int),
                c,
            ),
        decreases cs.len() - p,
    {
        proof {
            assert(cs@.subrange(p as int, cs.len() as int).drop_first() =~= cs@.subrange(
                p + 1,
                cs.len() as int,
            ));
        }
        p += 1;
    }
    p
}

impl Rate {
    /// A rate is well formed when its denominator is not zero.
    pub open spec fn wf(&self) -> bool {
        self.denominator > 0
    }

    /// The rate `numerator / denominator`, unless the denominator is zero.
    pub fn new(numerator: u64, denominator: u64) -> (r: Option<Rate>)
        ensures
            r == if denominator > 0 {
                Some(Rate { numerator, denominator })
            } else {
                None::<Rate>
            },
    {
        if denominator > 0 {
            Some(Rate { numerator, denominator })
        } else {
            None
        }
    }

    /// Reads a rate from a decimal numeral such as `5`, `5.0` or `0.3333`.
    /// It reads plain numerals only and keeps them exactly: a numeral
    /// with an exponent, with a minus sign, with more than nineteen
    /// digits after the point or with digits beyond 64 bits, and the
    /// words `inf`, `infinity` and `nan`, are refused.
    pub fn parse(s: &str) -> (r: Option<Rate>)
        ensures
            r == parse_rate_spec(s@),
            r is Some ==> r.unwrap().wf(),
    {
        let cs = chars_of(s);
        let from: usize = if cs.len() > 0 && cs[0] == '+' {
            1
        } else {
            0
        };
        let ghost body = unsigned_body(s@);
        assert(body =~= cs@.subrange(from as int, cs.len() as int));
        let p = position_of(&cs, from, '.');
        let mut digits: Vec<char> = Vec::new();
        let mut i: usize = from;
        while i < p
            invariant
                from <= i <= p <= cs.len(),
                digits@ == cs@.subrange(from as int, i as int),
            decreases p - i,
        {
            digits.push(cs[i]);
            assert(digits@ =~= cs@.subrange(from as int, i + 1));
            i += 1;
        }
        assert(digits@ =~= whole_digits(body));
        let frac_from: usize = if p < cs.len() {
            p + 1
        } else {
            p
        };
        let ghost frac = fraction_digits(body);
        assert(frac =~= cs@.subrange(frac_from as int, cs.len() as int));
        let mut j: usize = frac_from;
        while j < cs.len()
            invariant
                frac_from <= j <= cs.len(),
                digits@ == whole_digits(body) + cs@.subrange(frac_from as int, j as int),
            decreases cs.len() - j,
        {
            digits.push(cs[j]);
            assert(digits@ =~= whole_digits(body) + cs@.subrange(frac_from as int, j + 1));
            j += 1;
        }
        let frac_len: usize = cs.len() - frac_from;
        if frac_len > 19 {
            return None;
        }
        assert(digits@.subrange(0, digits.len() as int) =~= digits@);
        match parse_digits(&digits, 0, digits.len()) {
            None => None,
            Some(numerator) => {
                proof {
                    lemma_pow10_bound(frac_len as nat);
                }
                let denominator = power_of_ten(frac_len);
                Some(Rate { numerator, denominator })
            },
        }
    }

    /// The units owed for `delta_ms` milliseconds of execution time at this
    /// rate, rounded up to a whole unit and capped at the largest count a
    /// counter can take.
    pub fn consumption(&self, delta_ms: u64) -> (units: u64)
        requires
            self.wf(),
        ensures
            units == if consumption_units(delta_ms as nat, *self) <= u64::MAX {
                consumption_units(delta_ms as nat, *self)
            } else {
                u64::MAX as nat
            },
    {
        assert(delta_ms * self.numerator <= 0xffff_ffff_ffff_ffff * 0xffff_ffff_ffff_ffff)
            by (nonlinear_arith)
            requires
                delta_ms <= 0xffff_ffff_ffff_ffff,
                self.numerator <= 0xffff_ffff_ffff_ffff,
        ;
        let product: u128 = (delta_ms as u128) * (self.numerator as u128);
        let divisor: u128 = 1000 * (self.denominator as u128);
        let quotient: u128 = product / divisor;
        let rounded: u128 = if product % divisor == 0 {
            quotient
        } else {
            quotient + 1
        };
        if rounded > u64::MAX as u128 {
            u64::MAX
        } else {
            rounded as u64
        }
    }
}

/// Rounding is upward: the units charged cover the execution time in
/// full, exceed it by less than one unit, and are at least one whenever
/// both the time and the rate are positive.
pub proof fn lemma_consumption_rounds_up(delta_ms: nat, rate: Rate)
    requires
        rate.wf(),
    ensures
        consumption_units(delta_ms, rate) * (1000 * rate.denominator) >= delta_ms * rate.numerator,
        (consumption_units(delta_ms, rate) - 1) * (1000 * rate.denominator) < delta_ms
            * rate.numerator,
        delta_ms > 0 && rate.numerator > 0 ==> consumption_units(delta_ms, rate) >= 1,
        delta_ms == 0 || rate.numerator == 0 ==> consumption_units(delta_ms, rate) == 0,
{
    let a: int = delta_ms * rate.numerator;
    let b: int = 1000 * rate.denominator;
    vstd::arithmetic::div_mod::lemma_fundamental_div_mod(a, b);
    vstd::arithmetic::div_mod::lemma_mod_bound(a, b);
    let q = a / b;
    let r = a % b;
    assert(a == b * q + r);
    assert(b * (q + 1) == b * q + b) by (nonlinear_arith);
    assert(b * q == q * b) by (nonlinear_arith);
    assert((q + 1) * b == b * (q + 1)) by (nonlinear_arith);
    assert((q - 1) * b == q * b - b) by (nonlinear_arith);
    if delta_ms > 0 && rate.numerator > 0 {
        assert(a > 0) by (nonlinear_arith)
            requires
                a == delta_ms * rate.numerator,
                delta_ms > 0,
                rate.numerator > 0,
        ;
        if q == 0 {
            assert(b * q == 0) by (nonlinear_arith)
                requires
                    q == 0,
            ;
        }
    }
    if delta_ms == 0 || rate.numerator == 0 {
        assert(a == 0) by (nonlinear_arith)
            requires
                a == delta_ms * rate.numerator,
                delta_ms == 0 || rate.numerator == 0,
        ;
    }
}

} // verus!
