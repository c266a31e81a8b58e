//! The unit-expression tree and its evaluation into a single unit.
//!
//! A textual unit expression such as `kg*m/s^2` parses into a right-leaning
//! tree whose every left child is an atom. Evaluation nevertheless folds the
//! chain in the order the operators appear: the accumulator starts at the
//! first atom and each operator combines it with the next atom, so `a/b/c`
//! evaluates as `(a/b)/c`, that is `a/(b*c)`.

use vstd::prelude::*;

use crate::rat::{rat_wf, spec_rat_mul, Rat};
use crate::unit::{
    compose, scale_exponent, spec_compose_entry, unit_dims, unit_view, unit_wf, Unit, UnitView,
    NUM_DIMS,
};

verus! {

/// The two unit-expression operators.
#[derive(Clone, Copy, Debug, PartialEq, Eq, Structural)]
pub enum UnitOp {
    Mul,
    Div,
}

/// A unit together with a power of ten, as requested by a display hint.
#[derive(Clone, Debug, PartialEq)]
pub struct UnitPow {
    pub unit: Unit,
    pub pow: i64,
}

/// A unit expression: an atom (a resolved unit with its own integer
/// exponent), or an operator applied to an atom and the rest of the chain.
#[derive(Debug, PartialEq)]
pub enum UnitExpr {
    Atom(Unit, i64),
    Cons(UnitOp, Box<UnitExpr>, Box<UnitExpr>),
}

/// The mathematical shape of a unit expression.
pub enum UnitExprV {
    Atom(UnitView, i64),
    Cons(UnitOp, Box<UnitExprV>, Box<UnitExprV>),
}

/// The view of a unit expression.
pub open spec fn unit_expr_view(e: UnitExpr) -> UnitExprV
    decreases e,
{
    match e {
        UnitExpr::Atom(u, k) => UnitExprV::Atom(unit_view(u), k),
        UnitExpr::Cons(op, l, r) => UnitExprV::Cons(
            op,
            Box::new(unit_expr_view(*l)),
            Box::new(unit_expr_view(*r)),
        ),
    }
}

/// Parser invariant on unit-expression views: every unit is a well-formed
/// `Base` unit and the left child of every `Cons` is an atom.
pub open spec fn uev_wf(e: UnitExprV) -> bool
    decreases e,
{
    match e {
        UnitExprV::Atom(u, _) => {
            &&& u is Base
            &&& u->Base_0.len() == NUM_DIMS
            &&& forall|i: int| 0 <= i < NUM_DIMS ==> rat_wf(#[trigger] u->Base_0[i])
        },
        UnitExprV::Cons(_, l, r) => *l is Atom && uev_wf(*l) && uev_wf(*r),
    }
}

/// Parser invariant on unit-expression trees.
pub open spec fn unit_expr_wf(e: UnitExpr) -> bool {
    uev_wf(unit_expr_view(e))
}

/// Scale every slot of an exponent vector by the rational `k`, exactly.
/// `None` where a scaled exponent does not fit the machine word.
pub open spec fn spec_scale_seq(d: Seq<Rat>, k: Rat) -> Option<Seq<Rat>> {
    if forall|i: int| 0 <= i < NUM_DIMS ==> (#[trigger] spec_rat_mul(d[i], k)) is Some {
        Some(Seq::new(NUM_DIMS as nat, |i: int| spec_rat_mul(d[i], k)->Some_0))
    } else {
        None
    }
}

/// The exact exponent vector of an atom: the atom's unit with every
/// exponent scaled by the atom's own integer exponent.
pub open spec fn spec_atom_unit(u: UnitView, k: i64) -> Option<Seq<Rat>> {
    spec_scale_seq(u->Base_0, Rat { num: k, den: 1 as i64 })
}

/// One evaluation step: combine the accumulator with the next atom,
/// adding the exponent vectors for `Mul` and subtracting them for `Div`.
pub open spec fn spec_step(acc: Seq<Rat>, op: UnitOp, b: Seq<Rat>) -> Option<Seq<Rat>> {
    if forall|i: int| 0 <= i < NUM_DIMS ==> (#[trigger] spec_compose_entry(acc, b, op, i)) is Some {
        Some(Seq::new(NUM_DIMS as nat, |i: int| spec_compose_entry(acc, b, op, i)->Some_0))
    } else {
        None
    }
}

/// Evaluate a whole unit expression to its exact exponent vector, folding
/// the operator chain left to right. `None` where an intermediate exponent
/// does not fit the machine word.
pub open spec fn spec_unit_eval(e: UnitExprV) -> Option<Seq<Rat>>
    decreases e,
{
    match e {
        UnitExprV::Atom(u, k) => spec_atom_unit(u, k),
        UnitExprV::Cons(op, l, r) => match spec_atom_unit((*l)->Atom_0, (*l)->Atom_1) {
            Some(acc) => spec_eval_chain(acc, op, *r),
            None => None,
        },
    }
}

/// Continue a left-to-right fold: `op` combines the accumulator with the
/// head atom of `e`, and the fold continues down the right spine.
pub open spec fn spec_eval_chain(acc: Seq<Rat>, op: UnitOp, e: UnitExprV) -> Option<Seq<Rat>>
    decreases e,
{
    match e {
        UnitExprV::Atom(u, k) => match spec_atom_unit(u, k) {
            Some(b) => spec_step(acc, op, b),
            None => None,
        },
        UnitExprV::Cons(op2, l, r) => match spec_atom_unit((*l)->Atom_0, (*l)->Atom_1) {
            Some(b) => match spec_step(acc, op, b) {
                Some(acc2) => spec_eval_chain(acc2, op2, *r),
                None => None,
            },
            None => None,
        },
    }
}

/// Well-formedness carried by every evaluation result.
pub open spec fn unit_of_dims_wf(u: Unit) -> bool {
    &&& u is Base
    &&& unit_wf(u)
    &&& unit_dims(u).exps@.len() == NUM_DIMS
}

/// Scale a `Base` unit by a rational, with the result tied to
/// `spec_scale_seq`.
pub fn scale_eval(u: &Unit, k: &Rat) -> (r: Option<Unit>)
    requires
        *u is Base,
        unit_wf(*u),
        rat_wf(*k),
    ensures
        match r {
            Some(v) => unit_of_dims_wf(v) && Some(unit_dims(v).exps@) == spec_scale_seq(
                unit_dims(*u).exps@,
                *k,
            ),
            None => spec_scale_seq(unit_dims(*u).exps@, *k) is None,
        },
{
    match scale_exponent(u, k) {
        Some(v) => {
            proof {
                let d = unit_dims(*u).exps@;
                let got = unit_dims(v).exps@;
                assert forall|i: int|
                    0 <= i < NUM_DIMS implies (#[trigger] spec_rat_mul(d[i], *k)) is Some by {
                    assert(Some(got[i]) == spec_rat_mul(d[i], *k));
                }
                let want = spec_scale_seq(d, *k)->Some_0;
                assert forall|i: int| 0 <= i < NUM_DIMS implies got[i] == want[i] by {
                    assert(Some(got[i]) == spec_rat_mul(d[i], *k));
                }
                assert(got =~= want);
            }
            Some(v)
        },
        None => None,
    }
}

/// An atom that satisfies the parser invariant holds a well-formed
/// `Base` unit.
proof fn lemma_atom_wf(u: Unit, k: i64)
    requires
        uev_wf(UnitExprV::Atom(unit_view(u), k)),
    ensures
        u is Base,
        unit_wf(u),
{
    if !(u is Base) {
        assert(unit_view(u) is Custom);
    }
    assert(unit_view(u)->Base_0 == unit_dims(u).exps@);
}

/// Scale an atom's unit by its own exponent.
fn atom_eval(u: &Unit, k: i64) -> (r: Option<Unit>)
    requires
        *u is Base,
        unit_wf(*u),
    ensures
        match r {
            Some(v) => unit_of_dims_wf(v) && Some(unit_dims(v).exps@) == spec_atom_unit(
                unit_view(*u),
                k,
            ),
            None => spec_atom_unit(unit_view(*u), k) is None,
        },
{
    proof {
        assert(unit_view(*u)->Base_0 == unit_dims(*u).exps@);
    }
    let kr = Rat::whole(k);
    scale_eval(u, &kr)
}

/// One exec evaluation step over units.
pub fn step_eval(acc: &Unit, op: UnitOp, b: &Unit) -> (r: Option<Unit>)
    requires
        unit_of_dims_wf(*acc),
        unit_of_dims_wf(*b),
    ensures
        match r {
            Some(v) => unit_of_dims_wf(v) && Some(unit_dims(v).exps@) == spec_step(
                unit_dims(*acc).exps@,
                op,
                unit_dims(*b).exps@,
            ),
            None => spec_step(unit_dims(*acc).exps@, op, unit_dims(*b).exps@) is None,
        },
{
    match compose(acc, b, op) {
        Some(v) => {
            proof {
                let av = unit_dims(*acc).exps@;
                let bv = unit_dims(*b).exps@;
                let got = unit_dims(v).exps@;
                assert forall|i: int|
                    0 <= i < NUM_DIMS implies (#[trigger] spec_compose_entry(av, bv, op, i))
                    is Some by {
                    assert(Some(got[i]) == spec_compose_entry(av, bv, op, i));
                }
                let want = spec_step(av, op, bv)->Some_0;
                assert forall|i: int| 0 <= i < NUM_DIMS implies got[i] == want[i] by {
                    assert(Some(got[i]) == spec_compose_entry(av, bv, op, i));
                }
                assert(got =~= want);
            }
            Some(v)
        },
        None => None,
    }
}

impl UnitExpr {
    /// Evaluate the expression to a single `Base` unit, folding the chain
    /// left to right in exact arithmetic. `None` exactly where some
    /// intermediate exponent does not fit the machine word.
    pub fn eval(&self) -> (r: Option<Unit>)
        requires
            unit_expr_wf(*self),
        ensures
            match r {
                Some(v) => unit_of_dims_wf(v) && Some(unit_dims(v).exps@) == spec_unit_eval(
                    unit_expr_view(*self),
                ),
                None => spec_unit_eval(unit_expr_view(*self)) is None,
            },
    {
        match self {
            UnitExpr::Atom(u, k) => atom_eval(u, *k),
            UnitExpr::Cons(op, l, r) => {
                proof {
                    assert(unit_expr_view(*self) == UnitExprV::Cons(
                        *op,
                        Box::new(unit_expr_view(**l)),
                        Box::new(unit_expr_view(**r)),
                    ));
                    assert(uev_wf(unit_expr_view(**l)));
                    assert(uev_wf(unit_expr_view(**r)));
                }
                let acc = match &**l {
                    UnitExpr::Atom(u, k) => {
                        proof {
                            assert(unit_expr_view(**l) == UnitExprV::Atom(unit_view(*u), *k));
                            lemma_atom_wf(*u, *k);
                        }
                        atom_eval(u, *k)
                    },
                    _ => {
                        return None;
                    },
                };
                match acc {
                    Some(acc) => eval_chain(&acc, *op, r),
                    None => None,
                }
            },
        }
    }
}

/// Exec counterpart of `spec_eval_chain`.
fn eval_chain(acc: &Unit, op: UnitOp, e: &UnitExpr) -> (r: Option<Unit>)
    requires
        unit_of_dims_wf(*acc),
        unit_expr_wf(*e),
    ensures
        match r {
            Some(v) => unit_of_dims_wf(v) && Some(unit_dims(v).exps@) == spec_eval_chain(
                unit_dims(*acc).exps@,
                op,
                unit_expr_view(*e),
            ),
            None => spec_eval_chain(unit_dims(*acc).exps@, op, unit_expr_view(*e)) is None,
        },
    decreases *e,
{
    match e {
        UnitExpr::Atom(u, k) => match atom_eval(u, *k) {
            Some(b) => step_eval(acc, op, &b),
            None => None,
        },
        UnitExpr::Cons(op2, l, r) => {
            proof {
                assert(unit_expr_view(*e) == UnitExprV::Cons(
                    *op2,
                    Box::new(unit_expr_view(**l)),
                    Box::new(unit_expr_view(**r)),
                ));
                assert(uev_wf(unit_expr_view(**l)));
                assert(uev_wf(unit_expr_view(**r)));
            }
            let b = match &**l {
                UnitExpr::Atom(u, k) => {
                    proof {
                        assert(unit_expr_view(**l) == UnitExprV::Atom(unit_view(*u), *k));
                        lemma_atom_wf(*u, *k);
                    }
                    atom_eval(u, *k)
                },
                _ => {
                    return None;
                },
            };
            match b {
                Some(b) => match step_eval(acc, op, &b) {
                    Some(acc2) => eval_chain(&acc2, *op2, r),
                    None => None,
                },
                None => None,
            }
        },
    }
}

} // verus!
