//! Exact rational arithmetic for magnitudes and unit exponents.
//!
//! Dimension exponents and value magnitudes are kept as exact rationals so
//! that repeated compositions never accumulate rounding error. Results are
//! not reduced to lowest terms; equality is therefore cross-multiplication
//! equality, and every operation reports exactly when its unreduced
//! components no longer fit the machine word.

use vstd::prelude::*;

verus! {

/// An exact rational number `num / den` with `den >= 1`.
#[derive(Clone, Copy, Debug, PartialEq, Eq, Structural)]
pub struct Rat {
    pub num: i64,
    pub den: i64,
}

/// Well-formedness: the denominator is positive.
pub open spec fn rat_wf(r: Rat) -> bool {
    r.den >= 1
}

/// Mathematical equality of two rationals, by cross multiplication.
pub open spec fn rat_eq(a: Rat, b: Rat) -> bool {
    a.num * b.den == b.num * a.den
}

/// Does a mathematical integer fit in an `i64`?
pub open spec fn fits_i64(x: int) -> bool {
    -0x8000_0000_0000_0000 <= x <= 0x7FFF_FFFF_FFFF_FFFF
}

/// Exact sum `a + b`: `(a.num * b.den + b.num * a.den) / (a.den * b.den)`,
/// or `None` where a component of that exact result does not fit an `i64`.
pub open spec fn spec_rat_add(a: Rat, b: Rat) -> Option<Rat> {
    let n = a.num * b.den + b.num * a.den;
    let d = a.den * b.den;
    if fits_i64(n) && fits_i64(d) {
        Some(Rat { num: n as i64, den: d as i64 })
    } else {
        None
    }
}

/// Exact difference `a - b`, `None` where it does not fit.
pub open spec fn spec_rat_sub(a: Rat, b: Rat) -> Option<Rat> {
    let n = a.num * b.den - b.num * a.den;
    let d = a.den * b.den;
    if fits_i64(n) && fits_i64(d) {
        Some(Rat { num: n as i64, den: d as i64 })
    } else {
        None
    }
}

/// Exact product `a * b`, `None` where it does not fit.
pub open spec fn spec_rat_mul(a: Rat, b: Rat) -> Option<Rat> {
    let n = a.num * b.num;
    let d = a.den * b.den;
    if fits_i64(n) && fits_i64(d) {
        Some(Rat { num: n as i64, den: d as i64 })
    } else {
        None
    }
}

/// Exact quotient `a / b` with the sign moved into the numerator.
/// `None` where `b` is zero or a component does not fit.
pub open spec fn spec_rat_div(a: Rat, b: Rat) -> Option<Rat> {
    if b.num == 0 {
        None
    } else {
        let n0 = a.num * b.den;
        let d0 = b.num * a.den;
        let n = if d0 < 0 { -n0 } else { n0 };
        let d = if d0 < 0 { -d0 } else { d0 };
        if fits_i64(n) && fits_i64(d) {
            Some(Rat { num: n as i64, den: d as i64 })
        } else {
            None
        }
    }
}

proof fn lemma_mul_num_num(x: int, y: int)
    requires
        -0x8000_0000_0000_0000 <= x <= 0x7FFF_FFFF_FFFF_FFFF,
        -0x8000_0000_0000_0000 <= y <= 0x7FFF_FFFF_FFFF_FFFF,
    ensures
        -0x4000_0000_0000_0000_0000_0000_0000_0000 <= x * y
            <= 0x4000_0000_0000_0000_0000_0000_0000_0000,
{
    assert(-0x4000_0000_0000_0000_0000_0000_0000_0000 <= x * y
        <= 0x4000_0000_0000_0000_0000_0000_0000_0000) by (nonlinear_arith)
        requires
            -0x8000_0000_0000_0000 <= x <= 0x7FFF_FFFF_FFFF_FFFF,
            -0x8000_0000_0000_0000 <= y <= 0x7FFF_FFFF_FFFF_FFFF,
    ;
}

proof fn lemma_mul_num_den(x: int, d: int)
    requires
        -0x8000_0000_0000_0000 <= x <= 0x7FFF_FFFF_FFFF_FFFF,
        1 <= d <= 0x7FFF_FFFF_FFFF_FFFF,
    ensures
        -(0x4000_0000_0000_0000_0000_0000_0000_0000 - 0x8000_0000_0000_0000) <= x * d
            <= 0x4000_0000_0000_0000_0000_0000_0000_0000 - 0x8000_0000_0000_0000,
{
    assert(-(0x4000_0000_0000_0000_0000_0000_0000_0000 - 0x8000_0000_0000_0000) <= x * d
        <= 0x4000_0000_0000_0000_0000_0000_0000_0000 - 0x8000_0000_0000_0000)
        by (nonlinear_arith)
        requires
            -0x8000_0000_0000_0000 <= x <= 0x7FFF_FFFF_FFFF_FFFF,
            1 <= d <= 0x7FFF_FFFF_FFFF_FFFF,
    ;
}

proof fn lemma_mul_nonzero(x: int, d: int)
    requires
        x != 0,
        1 <= d,
    ensures
        x * d != 0,
{
    assert(x * d != 0) by (nonlinear_arith)
        requires
            x != 0,
            1 <= d,
    ;
}

proof fn lemma_den_den_pos(x: int, y: int)
    requires
        1 <= x,
        1 <= y,
    ensures
        1 <= x * y,
{
    assert(1 <= x * y) by (nonlinear_arith)
        requires
            1 <= x,
            1 <= y,
    ;
}

impl Rat {
    /// The rational with the given integer value.
    pub fn whole(n: i64) -> (r: Rat)
        ensures
            r == (Rat { num: n, den: 1 as i64 }),
            rat_wf(r),
    {
        Rat { num: n, den: 1 }
    }

    /// The rational zero.
    pub fn zero() -> (r: Rat)
        ensures
            r == (Rat { num: 0 as i64, den: 1 as i64 }),
            rat_wf(r),
    {
        Rat { num: 0, den: 1 }
    }

}

/// Mathematical equality test, by cross multiplication.
pub fn rat_eq_exec(a: &Rat, b: &Rat) -> (r: bool)
    requires
        rat_wf(*a),
        rat_wf(*b),
    ensures
        r == rat_eq(*a, *b),
{
    proof {
        lemma_mul_num_den(a.num as int, b.den as int);
        lemma_mul_num_den(b.num as int, a.den as int);
    }
    (a.num as i128) * (b.den as i128) == (b.num as i128) * (a.den as i128)
}

/// Exact addition; `None` exactly where the unreduced exact result
/// does not fit an `i64` component.
pub fn rat_add(a: &Rat, b: &Rat) -> (r: Option<Rat>)
    requires
        rat_wf(*a),
        rat_wf(*b),
    ensures
        r == spec_rat_add(*a, *b),
        r matches Some(c) ==> rat_wf(c),
{
    proof {
        lemma_mul_num_den(a.num as int, b.den as int);
        lemma_mul_num_den(b.num as int, a.den as int);
        lemma_mul_num_den(a.den as int, b.den as int);
        lemma_den_den_pos(a.den as int, b.den as int);
    }
    let n: i128 = (a.num as i128) * (b.den as i128) + (b.num as i128) * (a.den as i128);
    let d: i128 = (a.den as i128) * (b.den as i128);
    if n >= i64::MIN as i128 && n <= i64::MAX as i128 && d <= i64::MAX as i128 {
        Some(Rat { num: n as i64, den: d as i64 })
    } else {
        None
    }
}

/// Exact subtraction; `None` exactly where the exact result does not fit.
pub fn rat_sub(a: &Rat, b: &Rat) -> (r: Option<Rat>)
    requires
        rat_wf(*a),
        rat_wf(*b),
    ensures
        r == spec_rat_sub(*a, *b),
        r matches Some(c) ==> rat_wf(c),
{
    proof {
        lemma_mul_num_den(a.num as int, b.den as int);
        lemma_mul_num_den(b.num as int, a.den as int);
        lemma_mul_num_den(a.den as int, b.den as int);
        lemma_den_den_pos(a.den as int, b.den as int);
    }
    let n: i128 = (a.num as i128) * (b.den as i128) - (b.num as i128) * (a.den as i128);
    let d: i128 = (a.den as i128) * (b.den as i128);
    if n >= i64::MIN as i128 && n <= i64::MAX as i128 && d <= i64::MAX as i128 {
        Some(Rat { num: n as i64, den: d as i64 })
    } else {
        None
    }
}

/// Exact multiplication; `None` exactly where the exact result does not fit.
pub fn rat_mul(a: &Rat, b: &Rat) -> (r: Option<Rat>)
    requires
        rat_wf(*a),
        rat_wf(*b),
    ensures
        r == spec_rat_mul(*a, *b),
        r matches Some(c) ==> rat_wf(c),
{
    proof {
        lemma_mul_num_num(a.num as int, b.num as int);
        lemma_mul_num_den(a.den as int, b.den as int);
        lemma_den_den_pos(a.den as int, b.den as int);
    }
    let n: i128 = (a.num as i128) * (b.num as i128);
    let d: i128 = (a.den as i128) * (b.den as i128);
    if n >= i64::MIN as i128 && n <= i64::MAX as i128 && d <= i64::MAX as i128 {
        Some(Rat { num: n as i64, den: d as i64 })
    } else {
        None
    }
}

/// Exact division; `None` exactly where `b` is zero or the exact result
/// does not fit.
pub fn rat_div(a: &Rat, b: &Rat) -> (r: Option<Rat>)
    requires
        rat_wf(*a),
        rat_wf(*b),
    ensures
        r == spec_rat_div(*a, *b),
        r matches Some(c) ==> rat_wf(c),
{
    if b.num == 0 {
        return None;
    }
    proof {
        lemma_mul_num_den(a.num as int, b.den as int);
        lemma_mul_num_den(b.num as int, a.den as int);
    }
    let n0: i128 = (a.num as i128) * (b.den as i128);
    let d0: i128 = (b.num as i128) * (a.den as i128);
    proof {
        lemma_mul_nonzero(b.num as int, a.den as int);
    }
    let n: i128 = if d0 < 0 { -n0 } else { n0 };
    let d: i128 = if d0 < 0 { -d0 } else { d0 };
    if n >= i64::MIN as i128 && n <= i64::MAX as i128 && d <= i64::MAX as i128 {
        Some(Rat { num: n as i64, den: d as i64 })
    } else {
        None
    }
}

/// Exact power `a ^ k` for a natural exponent, multiplying left to right:
/// the partial product after `i` steps is `a^i`.
pub open spec fn spec_rat_pow(a: Rat, k: nat) -> Option<Rat>
    decreases k,
{
    if k == 0 {
        Some(Rat { num: 1 as i64, den: 1 as i64 })
    } else {
        match spec_rat_pow(a, (k - 1) as nat) {
            Some(p) => spec_rat_mul(p, a),
            None => None,
        }
    }
}

/// Exact natural power; `None` where some partial product does not fit.
pub fn rat_pow(a: &Rat, k: u64) -> (r: Option<Rat>)
    requires
        rat_wf(*a),
    ensures
        r == spec_rat_pow(*a, k as nat),
        r matches Some(c) ==> rat_wf(c),
{
    let mut acc: Rat = Rat::whole(1);
    let mut i: u64 = 0;
    while i < k
        invariant
            rat_wf(*a),
            i <= k,
            Some(acc) == spec_rat_pow(*a, i as nat),
            rat_wf(acc),
        decreases k - i,
    {
        match rat_mul(&acc, a) {
            Some(p) => {
                acc = p;
            },
            None => {
                proof {
                    lemma_rat_pow_none(*a, (i + 1) as nat, k as nat);
                }
                return None;
            },
        }
        i = i + 1;
    }
    Some(acc)
}

/// Once a partial power fails to fit, every later power is `None` too.
proof fn lemma_rat_pow_none(a: Rat, j: nat, k: nat)
    requires
        j <= k,
        spec_rat_pow(a, j) is None,
    ensures
        spec_rat_pow(a, k) is None,
    decreases k - j,
{
    if j < k {
        lemma_rat_pow_none(a, (j + 1) as nat, k);
    }
}

/// The integer value of a rational, where it is a whole number:
/// strip the sign, then divide out the denominator exactly.
pub open spec fn spec_rat_as_int(r: Rat) -> Option<int> {
    let nn = if r.num < 0 { -(r.num as int) } else { r.num as int };
    if nn % (r.den as int) == 0 {
        let q = nn / (r.den as int);
        if r.num < 0 {
            Some(-q)
        } else {
            Some(q)
        }
    } else {
        None
    }
}

/// Extract the exact integer value, or `None` where the rational is not a
/// whole number.
pub fn rat_as_int(r: &Rat) -> (out: Option<i64>)
    requires
        rat_wf(*r),
    ensures
        match out {
            Some(k) => spec_rat_as_int(*r) == Some(k as int),
            None => spec_rat_as_int(*r) is None,
        },
{
    let neg: bool = r.num < 0;
    let nn: u64 = if neg {
        (-(r.num as i128)) as u64
    } else {
        r.num as u64
    };
    let dd: u64 = r.den as u64;
    if nn % dd == 0 {
        let q: u64 = nn / dd;
        if neg {
            proof {
                assert(q * dd == nn) by (nonlinear_arith)
                    requires
                        dd >= 1,
                        nn % dd == 0,
                        q == nn / dd,
                ;
                assert(q <= nn) by (nonlinear_arith)
                    requires
                        dd >= 1,
                        q * dd == nn,
                ;
            }
            Some((-(q as i128)) as i64)
        } else {
            proof {
                assert(q <= nn) by (nonlinear_arith)
                    requires
                        dd >= 1,
                        q == nn / dd,
                        nn >= 0,
                ;
            }
            Some(q as i64)
        }
    } else {
        None
    }
}

} // verus!
