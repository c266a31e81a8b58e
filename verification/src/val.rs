//! Physical quantities and the operator semantics that enforce unit
//! compatibility.
//!
//! A value is an exact rational magnitude paired with a unit. Addition and
//! subtraction demand equal units; multiplication and division compose the
//! units; exponentiation demands a dimensionless whole-number exponent;
//! the postfix annotations attach a unit to a still-dimensionless literal.

use vstd::prelude::*;

use crate::rat::{
    rat_add, rat_as_int, rat_div, rat_mul, rat_pow, rat_sub, rat_wf, spec_rat_add, spec_rat_div,
    spec_rat_mul, spec_rat_pow, spec_rat_sub, spec_rat_as_int, Rat,
};
use crate::unit::{
    lemma_empty_view, lemma_unit_eq_view, unit_eq_exec, unit_view, unit_wf, Unit, UnitView,
    uv_empty, uv_eq,
};
use crate::unit_expr::{scale_eval, spec_scale_seq, spec_step, step_eval, unit_of_dims_wf, UnitOp};

verus! {

/// Why an evaluation failed.
#[derive(Clone, Copy, Debug, PartialEq, Eq, Structural)]
pub enum EvalError {
    /// Addition or subtraction between values of differing units.
    IncompatibleUnits,
    /// A unit annotation on a value that already carries a unit.
    DoubleUnitAnnotation,
    /// An exponent that carries a unit.
    DimensionedExponent,
    /// An exponent that is not a whole number.
    NonIntegerExponent,
    /// A negative power of zero.
    ZeroToNegativePower,
    /// Division by a zero magnitude.
    DivisionByZero,
    /// Arithmetic on an unresolved named unit, which this core defers.
    CustomUnit,
    /// An exact result that no longer fits the machine word.
    Overflow,
    /// A variable read before any binding.
    UndefinedVariable,
    /// An operator node with the wrong number of children; never produced
    /// for trees the parser builds.
    MalformedExpression,
}

/// A physical quantity: an exact rational magnitude paired with a unit.
#[derive(Debug, PartialEq)]
pub struct Val {
    pub num: Rat,
    pub unit: Unit,
}

/// Well-formedness of a value.
pub open spec fn val_wf(v: Val) -> bool {
    &&& rat_wf(v.num)
    &&& unit_wf(v.unit)
}

/// The mathematical shape of a value.
pub struct ValV {
    pub num: Rat,
    pub unit: UnitView,
}

/// The view of a value.
pub open spec fn val_view(v: Val) -> ValV {
    ValV { num: v.num, unit: unit_view(v.unit) }
}

/// The view of an evaluation result.
pub open spec fn res_view(r: Result<Val, EvalError>) -> Result<ValV, EvalError> {
    match r {
        Ok(v) => Ok(val_view(v)),
        Err(e) => Err(e),
    }
}

/// Addition: demands equal units; the sum keeps the shared unit.
pub open spec fn spec_val_plus(a: ValV, b: ValV) -> Result<ValV, EvalError> {
    if !uv_eq(a.unit, b.unit) {
        Err(EvalError::IncompatibleUnits)
    } else {
        match spec_rat_add(a.num, b.num) {
            Some(n) => Ok(ValV { num: n, unit: a.unit }),
            None => Err(EvalError::Overflow),
        }
    }
}

/// Subtraction: demands equal units; the difference keeps the shared unit.
pub open spec fn spec_val_minus(a: ValV, b: ValV) -> Result<ValV, EvalError> {
    if !uv_eq(a.unit, b.unit) {
        Err(EvalError::IncompatibleUnits)
    } else {
        match spec_rat_sub(a.num, b.num) {
            Some(n) => Ok(ValV { num: n, unit: a.unit }),
            None => Err(EvalError::Overflow),
        }
    }
}

/// Multiplication: magnitudes multiply, units compose by `Mul`.
pub open spec fn spec_val_mul(a: ValV, b: ValV) -> Result<ValV, EvalError> {
    if !(a.unit is Base) || !(b.unit is Base) {
        Err(EvalError::CustomUnit)
    } else {
        match spec_step(a.unit->Base_0, UnitOp::Mul, b.unit->Base_0) {
            None => Err(EvalError::Overflow),
            Some(d) => match spec_rat_mul(a.num, b.num) {
                Some(n) => Ok(ValV { num: n, unit: UnitView::Base(d) }),
                None => Err(EvalError::Overflow),
            },
        }
    }
}

/// Division: magnitudes divide, units compose by `Div`; a zero divisor
/// is reported.
pub open spec fn spec_val_div(a: ValV, b: ValV) -> Result<ValV, EvalError> {
    if !(a.unit is Base) || !(b.unit is Base) {
        Err(EvalError::CustomUnit)
    } else if b.num.num == 0 {
        Err(EvalError::DivisionByZero)
    } else {
        match spec_step(a.unit->Base_0, UnitOp::Div, b.unit->Base_0) {
            None => Err(EvalError::Overflow),
            Some(d) => match spec_rat_div(a.num, b.num) {
                Some(n) => Ok(ValV { num: n, unit: UnitView::Base(d) }),
                None => Err(EvalError::Overflow),
            },
        }
    }
}

/// Exponentiation: the exponent must be dimensionless and a whole number;
/// the magnitude is raised to it and every unit exponent is scaled by it.
pub open spec fn spec_val_exp(a: ValV, b: ValV) -> Result<ValV, EvalError> {
    if !(a.unit is Base) {
        Err(EvalError::CustomUnit)
    } else if !uv_empty(b.unit) {
        Err(EvalError::DimensionedExponent)
    } else {
        match spec_rat_as_int(b.num) {
            None => Err(EvalError::NonIntegerExponent),
            Some(k) => {
                let kr = Rat { num: k as i64, den: 1 as i64 };
                match spec_scale_seq(a.unit->Base_0, kr) {
                    None => Err(EvalError::Overflow),
                    Some(d) => if k >= 0 {
                        match spec_rat_pow(a.num, k as nat) {
                            None => Err(EvalError::Overflow),
                            Some(n) => Ok(ValV { num: n, unit: UnitView::Base(d) }),
                        }
                    } else if a.num.num == 0 {
                        Err(EvalError::ZeroToNegativePower)
                    } else {
                        match spec_rat_pow(a.num, (-k) as nat) {
                            None => Err(EvalError::Overflow),
                            Some(p) => match spec_rat_div(
                                Rat { num: 1 as i64, den: 1 as i64 },
                                p,
                            ) {
                                None => Err(EvalError::Overflow),
                                Some(n) => Ok(ValV { num: n, unit: UnitView::Base(d) }),
                            },
                        }
                    },
                }
            },
        }
    }
}

/// Postfix unit annotation: reinterpret a dimensionless value as carrying
/// unit `u`; a value that already carries a unit is reported.
pub open spec fn spec_val_add_unit(v: ValV, u: UnitView) -> Result<ValV, EvalError> {
    if !uv_empty(v.unit) {
        Err(EvalError::DoubleUnitAnnotation)
    } else {
        Ok(ValV { num: v.num, unit: u })
    }
}

/// Exact power of ten, as a rational.
pub open spec fn spec_pow10(p: int) -> Option<Rat> {
    let m = if p >= 0 {
        p as nat
    } else {
        (-p) as nat
    };
    match spec_rat_pow(Rat { num: 10 as i64, den: 1 as i64 }, m) {
        None => None,
        Some(r) => if p >= 0 {
            Some(r)
        } else if r.num >= 1 {
            Some(Rat { num: r.den, den: r.num })
        } else {
            None
        },
    }
}

/// Prefixed postfix unit annotation: rescale the magnitude by `10^p`,
/// then attach unit `u` as `spec_val_add_unit` does.
pub open spec fn spec_val_add_multi_unit(v: ValV, p: int, u: UnitView) -> Result<
    ValV,
    EvalError,
> {
    if !uv_empty(v.unit) {
        Err(EvalError::DoubleUnitAnnotation)
    } else {
        match spec_pow10(p) {
            None => Err(EvalError::Overflow),
            Some(t) => match spec_rat_mul(v.num, t) {
                None => Err(EvalError::Overflow),
                Some(n) => Ok(ValV { num: n, unit: u }),
            },
        }
    }
}

/// Addition of two values.
pub fn val_plus(a: Val, b: Val) -> (r: Result<Val, EvalError>)
    requires
        val_wf(a),
        val_wf(b),
    ensures
        res_view(r) == spec_val_plus(val_view(a), val_view(b)),
        r matches Ok(v) ==> val_wf(v),
{
    proof {
        lemma_unit_eq_view(a.unit, b.unit);
    }
    if !unit_eq_exec(&a.unit, &b.unit) {
        return Err(EvalError::IncompatibleUnits);
    }
    match rat_add(&a.num, &b.num) {
        Some(n) => Ok(Val { num: n, unit: a.unit }),
        None => Err(EvalError::Overflow),
    }
}

/// Subtraction of two values.
pub fn val_minus(a: Val, b: Val) -> (r: Result<Val, EvalError>)
    requires
        val_wf(a),
        val_wf(b),
    ensures
        res_view(r) == spec_val_minus(val_view(a), val_view(b)),
        r matches Ok(v) ==> val_wf(v),
{
    proof {
        lemma_unit_eq_view(a.unit, b.unit);
    }
    if !unit_eq_exec(&a.unit, &b.unit) {
        return Err(EvalError::IncompatibleUnits);
    }
    match rat_sub(&a.num, &b.num) {
        Some(n) => Ok(Val { num: n, unit: a.unit }),
        None => Err(EvalError::Overflow),
    }
}

/// Multiplication of two values.
pub fn val_mul(a: Val, b: Val) -> (r: Result<Val, EvalError>)
    requires
        val_wf(a),
        val_wf(b),
    ensures
        res_view(r) == spec_val_mul(val_view(a), val_view(b)),
        r matches Ok(v) ==> val_wf(v),
{
    match (&a.unit, &b.unit) {
        (Unit::Base(_), Unit::Base(_)) => {},
        _ => {
            return Err(EvalError::CustomUnit);
        },
    }
    let u = match step_eval(&a.unit, UnitOp::Mul, &b.unit) {
        Some(u) => u,
        None => {
            return Err(EvalError::Overflow);
        },
    };
    match rat_mul(&a.num, &b.num) {
        Some(n) => Ok(Val { num: n, unit: u }),
        None => Err(EvalError::Overflow),
    }
}

/// Division of two values.
pub fn val_div(a: Val, b: Val) -> (r: Result<Val, EvalError>)
    requires
        val_wf(a),
        val_wf(b),
    ensures
        res_view(r) == spec_val_div(val_view(a), val_view(b)),
        r matches Ok(v) ==> val_wf(v),
{
    match (&a.unit, &b.unit) {
        (Unit::Base(_), Unit::Base(_)) => {},
        _ => {
            return Err(EvalError::CustomUnit);
        },
    }
    if b.num.num == 0 {
        return Err(EvalError::DivisionByZero);
    }
    let u = match step_eval(&a.unit, UnitOp::Div, &b.unit) {
        Some(u) => u,
        None => {
            return Err(EvalError::Overflow);
        },
    };
    match rat_div(&a.num, &b.num) {
        Some(n) => Ok(Val { num: n, unit: u }),
        None => Err(EvalError::Overflow),
    }
}

/// Exponentiation of a value by a dimensionless whole-number value.
pub fn val_exp(a: Val, b: Val) -> (r: Result<Val, EvalError>)
    requires
        val_wf(a),
        val_wf(b),
    ensures
        res_view(r) == spec_val_exp(val_view(a), val_view(b)),
        r matches Ok(v) ==> val_wf(v),
{
    match &a.unit {
        Unit::Base(_) => {},
        _ => {
            return Err(EvalError::CustomUnit);
        },
    }
    proof {
        lemma_empty_view(b.unit);
    }
    if !b.unit.is_empty_unit() {
        return Err(EvalError::DimensionedExponent);
    }
    let k: i64 = match rat_as_int(&b.num) {
        Some(k) => k,
        None => {
            return Err(EvalError::NonIntegerExponent);
        },
    };
    let u = match scale_eval(&a.unit, &Rat::whole(k)) {
        Some(u) => u,
        None => {
            return Err(EvalError::Overflow);
        },
    };
    if k >= 0 {
        match rat_pow(&a.num, k as u64) {
            Some(n) => Ok(Val { num: n, unit: u }),
            None => Err(EvalError::Overflow),
        }
    } else if a.num.num == 0 {
        Err(EvalError::ZeroToNegativePower)
    } else {
        let m: u64 = (-(k as i128)) as u64;
        match rat_pow(&a.num, m) {
            Some(p) => match rat_div(&Rat::whole(1), &p) {
                Some(n) => Ok(Val { num: n, unit: u }),
                None => Err(EvalError::Overflow),
            },
            None => Err(EvalError::Overflow),
        }
    }
}

/// Attach a unit to a dimensionless value.
pub fn val_add_unit(v: Val, u: Unit) -> (r: Result<Val, EvalError>)
    requires
        val_wf(v),
        unit_wf(u),
    ensures
        res_view(r) == spec_val_add_unit(val_view(v), unit_view(u)),
        r matches Ok(w) ==> val_wf(w),
{
    proof {
        lemma_empty_view(v.unit);
    }
    if !v.unit.is_empty_unit() {
        return Err(EvalError::DoubleUnitAnnotation);
    }
    Ok(Val { num: v.num, unit: u })
}

/// Exact power of ten.
pub fn pow10(p: i64) -> (r: Option<Rat>)
    ensures
        r == spec_pow10(p as int),
        r matches Some(t) ==> rat_wf(t),
{
    let m: u64 = if p >= 0 {
        p as u64
    } else {
        (-(p as i128)) as u64
    };
    let ten = Rat { num: 10, den: 1 };
    match rat_pow(&ten, m) {
        None => None,
        Some(r) => {
            if p >= 0 {
                Some(r)
            } else if r.num >= 1 {
                Some(Rat { num: r.den, den: r.num })
            } else {
                None
            }
        },
    }
}

/// Rescale a dimensionless value by `10^p` and attach unit `u`.
pub fn val_add_multi_unit(v: Val, p: i64, u: Unit) -> (r: Result<Val, EvalError>)
    requires
        val_wf(v),
        unit_wf(u),
    ensures
        res_view(r) == spec_val_add_multi_unit(val_view(v), p as int, unit_view(u)),
        r matches Ok(w) ==> val_wf(w),
{
    proof {
        lemma_empty_view(v.unit);
    }
    if !v.unit.is_empty_unit() {
        return Err(EvalError::DoubleUnitAnnotation);
    }
    let t = match pow10(p) {
        Some(t) => t,
        None => {
            return Err(EvalError::Overflow);
        },
    };
    match rat_mul(&v.num, &t) {
        Some(n) => Ok(Val { num: n, unit: u }),
        None => Err(EvalError::Overflow),
    }
}

/// Duplicate a value: the copy has the same view.
pub fn clone_val(v: &Val) -> (r: Val)
    requires
        val_wf(*v),
    ensures
        val_wf(r),
        val_view(r) == val_view(*v),
{
    Val { num: v.num, unit: crate::unit::clone_unit(&v.unit) }
}

/// A unit annotation is safe exactly once: on a dimensionless value it
/// succeeds, and annotating the result again with the same (non-empty)
/// unit fails with `DoubleUnitAnnotation`.
pub proof fn lemma_add_unit_once(v: ValV, u: UnitView)
    requires
        uv_empty(v.unit),
        !uv_empty(u),
    ensures
        spec_val_add_unit(v, u) == Ok::<ValV, EvalError>(ValV { num: v.num, unit: u }),
        spec_val_add_unit(spec_val_add_unit(v, u)->Ok_0, u) == Err::<ValV, EvalError>(
            EvalError::DoubleUnitAnnotation,
        ),
{
}

/// Addition between values of differing units fails with
/// `IncompatibleUnits`, whatever the magnitudes.
pub proof fn lemma_plus_incompatible(a: ValV, b: ValV)
    requires
        !uv_eq(a.unit, b.unit),
    ensures
        spec_val_plus(a, b) == Err::<ValV, EvalError>(EvalError::IncompatibleUnits),
{
}

} // verus!
