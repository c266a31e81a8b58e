//! The dimension-vector algebra behind physical units.
//!
//! A unit is represented by a fixed-length vector of rational exponents,
//! one slot per base dimension, in the fixed order
//! `[mass, length, time, current, temperature, amount, luminosity]`.
//! Multiplying units adds their vectors, dividing subtracts them, and
//! raising to a power scales every exponent, always in exact rational
//! arithmetic.

use vstd::prelude::*;

use crate::rat::{
    rat_add, rat_eq, rat_eq_exec, rat_mul, rat_sub, rat_wf, spec_rat_add, spec_rat_mul,
    spec_rat_sub, Rat,
};
use crate::unit_expr::UnitOp;

verus! {

/// Number of base dimensions.
pub const NUM_DIMS: usize = 7;

/// A fixed-length vector of rational exponents, one per base dimension.
#[derive(Clone, Debug, PartialEq)]
pub struct DimVec {
    pub exps: Vec<Rat>,
}

/// Well-formedness: one well-formed exponent per base dimension.
pub open spec fn dim_wf(d: DimVec) -> bool {
    &&& d.exps@.len() == NUM_DIMS
    &&& forall|i: int| 0 <= i < d.exps@.len() ==> rat_wf(#[trigger] d.exps@[i])
}

/// Two dimension vectors are equal iff they are componentwise equal as
/// rationals. This is also unit compatibility for addition/subtraction.
pub open spec fn dim_eq(a: DimVec, b: DimVec) -> bool {
    &&& a.exps@.len() == NUM_DIMS
    &&& b.exps@.len() == NUM_DIMS
    &&& forall|i: int| 0 <= i < NUM_DIMS ==> rat_eq(#[trigger] a.exps@[i], b.exps@[i])
}

/// All exponents are zero: the dimensionless vector.
pub open spec fn dim_is_zero(d: DimVec) -> bool {
    forall|i: int| 0 <= i < d.exps@.len() ==> (#[trigger] d.exps@[i]).num == 0
}

/// A physical unit: either a vector over the base dimensions, or a named
/// composite left unresolved by this core (an extension point).
#[derive(Clone, Debug, PartialEq)]
pub enum Unit {
    Base(DimVec),
    Custom(Vec<(String, i64)>),
}

/// Well-formedness of a unit.
pub open spec fn unit_wf(u: Unit) -> bool {
    match u {
        Unit::Base(d) => dim_wf(d),
        Unit::Custom(_) => true,
    }
}

/// The dimension vector of a `Base` unit.
pub open spec fn unit_dims(u: Unit) -> DimVec {
    u->Base_0
}

/// Equality of two named-composite bodies: same names, same exponents.
pub open spec fn custom_eq(x: Seq<(String, i64)>, y: Seq<(String, i64)>) -> bool {
    &&& x.len() == y.len()
    &&& forall|i: int|
        0 <= i < x.len() ==> (#[trigger] x[i]).0@ == y[i].0@ && x[i].1 == y[i].1
}

/// Unit equality: two `Base` units are equal iff their vectors are
/// componentwise equal; two `Custom` units iff their bodies match; a
/// `Base` and a `Custom` unit are never equal.
pub open spec fn unit_eq(a: Unit, b: Unit) -> bool {
    match (a, b) {
        (Unit::Base(x), Unit::Base(y)) => dim_eq(x, y),
        (Unit::Custom(x), Unit::Custom(y)) => custom_eq(x@, y@),
        _ => false,
    }
}

/// A unit with all-zero exponents is the dimensionless unit.
pub open spec fn unit_is_empty(u: Unit) -> bool {
    u is Base && dim_is_zero(unit_dims(u))
}

/// The exact exponent that composition puts at slot `i`: the componentwise
/// sum for `Mul`, the componentwise difference for `Div`.
pub open spec fn spec_compose_entry(a: Seq<Rat>, b: Seq<Rat>, op: UnitOp, i: int) -> Option<Rat> {
    match op {
        UnitOp::Mul => spec_rat_add(a[i], b[i]),
        UnitOp::Div => spec_rat_sub(a[i], b[i]),
    }
}

impl Unit {
    /// The dimensionless unit: every exponent zero.
    pub fn empty() -> (u: Unit)
        ensures
            unit_wf(u),
            unit_is_empty(u),
            u is Base,
            unit_dims(u).exps@.len() == NUM_DIMS,
            forall|i: int|
                0 <= i < NUM_DIMS ==> #[trigger] unit_dims(u).exps@[i] == (Rat {
                    num: 0 as i64,
                    den: 1 as i64,
                }),
    {
        let mut exps: Vec<Rat> = Vec::new();
        let mut i: usize = 0;
        while i < NUM_DIMS
            invariant
                i <= NUM_DIMS,
                exps@.len() == i,
                forall|j: int|
                    0 <= j < i as int ==> #[trigger] exps@[j] == (Rat {
                        num: 0 as i64,
                        den: 1 as i64,
                    }),
            decreases NUM_DIMS - i,
        {
            exps.push(Rat::zero());
            i = i + 1;
        }
        Unit::Base(DimVec { exps })
    }

    /// Is this the dimensionless unit?
    pub fn is_empty_unit(&self) -> (r: bool)
        requires
            unit_wf(*self),
        ensures
            r == unit_is_empty(*self),
    {
        match self {
            Unit::Base(d) => {
                let mut i: usize = 0;
                let n = d.exps.len();
                while i < n
                    invariant
                        i <= n,
                        n == d.exps@.len(),
                        *self is Base,
                        unit_dims(*self) == *d,
                        forall|j: int| 0 <= j < i as int ==> (#[trigger] d.exps@[j]).num == 0,
                    decreases n - i,
                {
                    if d.exps[i].num != 0 {
                        proof {
                            assert((unit_dims(*self).exps@[i as int]).num != 0);
                        }
                        return false;
                    }
                    i = i + 1;
                }
                true
            },
            Unit::Custom(_) => false,
        }
    }
}

/// Componentwise equality test of two dimension vectors.
pub fn dim_eq_exec(a: &DimVec, b: &DimVec) -> (r: bool)
    requires
        dim_wf(*a),
        dim_wf(*b),
    ensures
        r == dim_eq(*a, *b),
{
    let mut i: usize = 0;
    while i < NUM_DIMS
        invariant
            i <= NUM_DIMS,
            dim_wf(*a),
            dim_wf(*b),
            forall|j: int| 0 <= j < i as int ==> rat_eq(#[trigger] a.exps@[j], b.exps@[j]),
        decreases NUM_DIMS - i,
    {
        if !rat_eq_exec(&a.exps[i], &b.exps[i]) {
            return false;
        }
        i = i + 1;
    }
    true
}

/// Equality test of two units.
pub fn unit_eq_exec(a: &Unit, b: &Unit) -> (r: bool)
    requires
        unit_wf(*a),
        unit_wf(*b),
    ensures
        r == unit_eq(*a, *b),
{
    match (a, b) {
        (Unit::Base(x), Unit::Base(y)) => dim_eq_exec(x, y),
        (Unit::Custom(x), Unit::Custom(y)) => {
            if x.len() != y.len() {
                return false;
            }
            let mut i: usize = 0;
            while i < x.len()
                invariant
                    i <= x@.len(),
                    x@.len() == y@.len(),
                    *a is Custom,
                    *b is Custom,
                    (*a)->Custom_0 == *x,
                    (*b)->Custom_0 == *y,
                    forall|j: int|
                        0 <= j < i as int ==> (#[trigger] x@[j]).0@ == y@[j].0@ && x@[j].1
                            == y@[j].1,
                decreases x@.len() - i,
            {
                let xi = &x[i];
                let yi = &y[i];
                if !xi.0.eq(&yi.0) || xi.1 != yi.1 {
                    proof {
                        assert(!((x@[i as int]).0@ == y@[i as int].0@ && x@[i as int].1
                            == y@[i as int].1));
                    }
                    return false;
                }
                i = i + 1;
            }
            true
        },
        _ => false,
    }
}

/// Combine two `Base` units: `Mul` adds the vectors, `Div` subtracts them,
/// componentwise, in exact rational arithmetic. `None` exactly where some
/// resulting exponent no longer fits the machine word.
pub fn compose(a: &Unit, b: &Unit, op: UnitOp) -> (r: Option<Unit>)
    requires
        a is Base,
        b is Base,
        unit_wf(*a),
        unit_wf(*b),
    ensures
        match r {
            Some(u) => {
                &&& u is Base
                &&& unit_wf(u)
                &&& unit_dims(u).exps@.len() == NUM_DIMS
                &&& forall|i: int|
                    0 <= i < NUM_DIMS ==> Some(#[trigger] unit_dims(u).exps@[i])
                        == spec_compose_entry(unit_dims(*a).exps@, unit_dims(*b).exps@, op, i)
            },
            None => exists|i: int|
                0 <= i < NUM_DIMS && spec_compose_entry(unit_dims(*a).exps@, unit_dims(*b).exps@, op, i)
                    is None,
        },
{
    let (x, y) = match (a, b) {
        (Unit::Base(x), Unit::Base(y)) => (x, y),
        _ => {
            return None;
        },
    };
    let mut exps: Vec<Rat> = Vec::new();
    let mut i: usize = 0;
    while i < NUM_DIMS
        invariant
            i <= NUM_DIMS,
            dim_wf(*x),
            dim_wf(*y),
            *x == unit_dims(*a),
            *y == unit_dims(*b),
            exps@.len() == i,
            forall|j: int| 0 <= j < i as int ==> rat_wf(#[trigger] exps@[j]),
            forall|j: int|
                0 <= j < i as int ==> Some(#[trigger] exps@[j]) == spec_compose_entry(
                    x.exps@,
                    y.exps@,
                    op,
                    j,
                ),
        decreases NUM_DIMS - i,
    {
        let e: Option<Rat> = match op {
            UnitOp::Mul => rat_add(&x.exps[i], &y.exps[i]),
            UnitOp::Div => rat_sub(&x.exps[i], &y.exps[i]),
        };
        match e {
            Some(v) => exps.push(v),
            None => {
                proof {
                    assert(spec_compose_entry(
                        unit_dims(*a).exps@,
                        unit_dims(*b).exps@,
                        op,
                        i as int,
                    ) is None);
                }
                return None;
            },
        }
        i = i + 1;
    }
    Some(Unit::Base(DimVec { exps }))
}

/// Scale every exponent of a `Base` unit by the rational `k`, exactly.
/// `None` exactly where some scaled exponent no longer fits.
pub fn scale_exponent(u: &Unit, k: &Rat) -> (r: Option<Unit>)
    requires
        u is Base,
        unit_wf(*u),
        rat_wf(*k),
    ensures
        match r {
            Some(v) => {
                &&& v is Base
                &&& unit_wf(v)
                &&& unit_dims(v).exps@.len() == NUM_DIMS
                &&& forall|i: int|
                    0 <= i < NUM_DIMS ==> Some(#[trigger] unit_dims(v).exps@[i]) == spec_rat_mul(
                        unit_dims(*u).exps@[i],
                        *k,
                    )
            },
            None => exists|i: int|
                0 <= i < NUM_DIMS && spec_rat_mul(unit_dims(*u).exps@[i], *k) is None,
        },
{
    let x = match u {
        Unit::Base(x) => x,
        _ => {
            return None;
        },
    };
    let mut exps: Vec<Rat> = Vec::new();
    let mut i: usize = 0;
    while i < NUM_DIMS
        invariant
            i <= NUM_DIMS,
            dim_wf(*x),
            rat_wf(*k),
            *x == unit_dims(*u),
            exps@.len() == i,
            forall|j: int| 0 <= j < i as int ==> rat_wf(#[trigger] exps@[j]),
            forall|j: int|
                0 <= j < i as int ==> Some(#[trigger] exps@[j]) == spec_rat_mul(x.exps@[j], *k),
        decreases NUM_DIMS - i,
    {
        match rat_mul(&x.exps[i], k) {
            Some(v) => exps.push(v),
            None => {
                proof {
                    assert(spec_rat_mul(unit_dims(*u).exps@[i as int], *k) is None);
                }
                return None;
            },
        }
        i = i + 1;
    }
    Some(Unit::Base(DimVec { exps }))
}

/// Multiplying by a unit and then dividing by the same unit gives back the
/// original vector: whenever both compositions fit, the result is
/// componentwise equal to the left operand.
pub proof fn lemma_compose_round_trip(a: Unit, b: Unit, ab: Unit, back: Unit)
    requires
        a is Base,
        b is Base,
        ab is Base,
        back is Base,
        unit_wf(a),
        unit_wf(b),
        unit_dims(ab).exps@.len() == NUM_DIMS,
        unit_dims(back).exps@.len() == NUM_DIMS,
        forall|i: int|
            0 <= i < NUM_DIMS ==> Some(#[trigger] unit_dims(ab).exps@[i]) == spec_compose_entry(
                unit_dims(a).exps@,
                unit_dims(b).exps@,
                UnitOp::Mul,
                i,
            ),
        forall|i: int|
            0 <= i < NUM_DIMS ==> Some(#[trigger] unit_dims(back).exps@[i]) == spec_compose_entry(
                unit_dims(ab).exps@,
                unit_dims(b).exps@,
                UnitOp::Div,
                i,
            ),
    ensures
        unit_eq(back, a),
{
    let x = unit_dims(a);
    let y = unit_dims(b);
    let c = unit_dims(ab);
    let d = unit_dims(back);
    assert forall|i: int| 0 <= i < NUM_DIMS implies rat_eq(#[trigger] d.exps@[i], x.exps@[i]) by {
        lemma_rat_add_sub_round(x.exps@[i], y.exps@[i], c.exps@[i], d.exps@[i]);
    }
}

/// Componentwise core of the round trip: `(x + y) - y` is mathematically
/// equal to `x`, even without reducing the intermediate fractions.
proof fn lemma_rat_add_sub_round(x: Rat, y: Rat, c: Rat, d: Rat)
    requires
        rat_wf(x),
        rat_wf(y),
        Some(c) == spec_rat_add(x, y),
        Some(d) == spec_rat_sub(c, y),
    ensures
        rat_eq(d, x),
{
    assert((x.num * y.den + y.num * x.den) * y.den - y.num * (x.den * y.den) == x.num * (y.den
        * y.den)) by (nonlinear_arith);
    assert(((x.num * y.den + y.num * x.den) * y.den - y.num * (x.den * y.den)) * x.den == (x.num * (
    y.den * y.den)) * x.den) by (nonlinear_arith)
        requires
            (x.num * y.den + y.num * x.den) * y.den - y.num * (x.den * y.den) == x.num * (y.den
                * y.den),
    ;
    assert(d.num * x.den == x.num * d.den) by (nonlinear_arith)
        requires
            d.num == (x.num * y.den + y.num * x.den) * y.den - y.num * (x.den * y.den),
            d.den == (x.den * y.den) * y.den,
            ((x.num * y.den + y.num * x.den) * y.den - y.num * (x.den * y.den)) * x.den == (x.num
                * (y.den * y.den)) * x.den,
    ;
}


/// The mathematical shape of a unit: a `Base` unit is its exponent
/// sequence, a `Custom` unit its sequence of name/exponent pairs.
pub enum UnitView {
    Base(Seq<Rat>),
    Custom(Seq<(Seq<char>, i64)>),
}

/// The view of a named-composite body.
pub open spec fn custom_view(v: Seq<(String, i64)>) -> Seq<(Seq<char>, i64)> {
    Seq::new(v.len(), |i: int| (v[i].0@, v[i].1))
}

/// The view of a unit.
pub open spec fn unit_view(u: Unit) -> UnitView {
    match u {
        Unit::Base(d) => UnitView::Base(d.exps@),
        Unit::Custom(v) => UnitView::Custom(custom_view(v@)),
    }
}

/// Unit equality over views.
pub open spec fn uv_eq(a: UnitView, b: UnitView) -> bool {
    match (a, b) {
        (UnitView::Base(x), UnitView::Base(y)) => {
            &&& x.len() == NUM_DIMS
            &&& y.len() == NUM_DIMS
            &&& forall|i: int| 0 <= i < NUM_DIMS ==> rat_eq(#[trigger] x[i], y[i])
        },
        (UnitView::Custom(x), UnitView::Custom(y)) => x == y,
        _ => false,
    }
}

/// The dimensionless unit over views.
pub open spec fn uv_empty(a: UnitView) -> bool {
    &&& a is Base
    &&& forall|i: int| 0 <= i < a->Base_0.len() ==> (#[trigger] a->Base_0[i]).num == 0
}

/// Emptiness of a unit and of its view agree.
pub proof fn lemma_empty_view(u: Unit)
    ensures
        unit_is_empty(u) == uv_empty(unit_view(u)),
{
    match u {
        Unit::Base(d) => {
            assert(unit_view(u)->Base_0 == d.exps@);
            assert(unit_dims(u).exps@ == d.exps@);
        },
        Unit::Custom(_) => {},
    }
}

/// Unit equality and its view-level counterpart agree.
pub proof fn lemma_unit_eq_view(a: Unit, b: Unit)
    ensures
        unit_eq(a, b) == uv_eq(unit_view(a), unit_view(b)),
{
    match (a, b) {
        (Unit::Custom(x), Unit::Custom(y)) => {
            if custom_eq(x@, y@) {
                assert(custom_view(x@) =~= custom_view(y@));
            }
            if custom_view(x@) == custom_view(y@) {
                assert(custom_view(x@).len() == x@.len());
                assert(custom_view(y@).len() == y@.len());
                assert forall|i: int| 0 <= i < x@.len() implies (#[trigger] x@[i]).0@ == y@[i].0@
                    && x@[i].1 == y@[i].1 by {
                    assert(custom_view(x@)[i] == (x@[i].0@, x@[i].1));
                    assert(custom_view(y@)[i] == (y@[i].0@, y@[i].1));
                    assert(custom_view(x@)[i] == custom_view(y@)[i]);
                }
            }
        },
        _ => {},
    }
}

/// Duplicate a unit: the copy has the same view.
pub fn clone_unit(u: &Unit) -> (r: Unit)
    requires
        unit_wf(*u),
    ensures
        unit_wf(r),
        unit_view(r) == unit_view(*u),
        r is Base <==> *u is Base,
{
    match u {
        Unit::Base(d) => {
            let mut e: Vec<Rat> = Vec::new();
            let mut i: usize = 0;
            let n = d.exps.len();
            while i < n
                invariant
                    i <= n,
                    n == d.exps@.len(),
                    e@.len() == i,
                    forall|j: int| 0 <= j < i as int ==> #[trigger] e@[j] == d.exps@[j],
                decreases n - i,
            {
                e.push(d.exps[i]);
                i = i + 1;
            }
            proof {
                assert(e@ =~= d.exps@);
            }
            Unit::Base(DimVec { exps: e })
        },
        Unit::Custom(v) => {
            let mut out: Vec<(String, i64)> = Vec::new();
            let mut i: usize = 0;
            let n = v.len();
            while i < n
                invariant
                    i <= n,
                    n == v@.len(),
                    out@.len() == i,
                    forall|j: int|
                        0 <= j < i as int ==> (#[trigger] out@[j]).0@ == v@[j].0@ && out@[j].1
                            == v@[j].1,
                decreases n - i,
            {
                let name = v[i].0.clone();
                let exp = v[i].1;
                out.push((name, exp));
                i = i + 1;
            }
            proof {
                assert(custom_view(out@) =~= custom_view(v@));
            }
            Unit::Custom(out)
        },
    }
}

} // verus!

