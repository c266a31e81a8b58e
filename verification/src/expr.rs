//! The expression tree produced by the precedence-climbing parser.

use vstd::prelude::*;

use crate::rat::rat_wf;
use crate::unit::{unit_view, unit_wf, Unit, UnitView, NUM_DIMS};
use crate::val::{val_view, val_wf, Val, ValV};

verus! {

/// An expression operator: five binary arithmetic operators and two unary
/// postfix unit annotations.
#[derive(Debug, PartialEq)]
pub enum Op {
    Plus,
    Minus,
    Mul,
    Div,
    Exp,
    AddUnit(Unit),
    AddMultiUnit(i64, Unit),
}

/// The mathematical shape of an operator.
pub enum OpV {
    Plus,
    Minus,
    Mul,
    Div,
    Exp,
    AddUnit(UnitView),
    AddMultiUnit(i64, UnitView),
}

/// The view of an operator.
pub open spec fn op_view(o: Op) -> OpV {
    match o {
        Op::Plus => OpV::Plus,
        Op::Minus => OpV::Minus,
        Op::Mul => OpV::Mul,
        Op::Div => OpV::Div,
        Op::Exp => OpV::Exp,
        Op::AddUnit(u) => OpV::AddUnit(unit_view(u)),
        Op::AddMultiUnit(p, u) => OpV::AddMultiUnit(p, unit_view(u)),
    }
}

/// How many children an operator node carries: the arithmetic operators
/// are binary, the unit annotations are unary postfix.
pub open spec fn op_arity(o: OpV) -> int {
    match o {
        OpV::AddUnit(_) => 1,
        OpV::AddMultiUnit(_, _) => 1,
        _ => 2,
    }
}

/// Well-formedness of an operator: an annotation carries a well-formed
/// `Base` unit.
pub open spec fn opv_wf(o: OpV) -> bool {
    match o {
        OpV::AddUnit(u) => uv_base_wf(u),
        OpV::AddMultiUnit(_, u) => uv_base_wf(u),
        _ => true,
    }
}

/// A well-formed `Base` unit view.
pub open spec fn uv_base_wf(u: UnitView) -> bool {
    &&& u is Base
    &&& u->Base_0.len() == NUM_DIMS
    &&& forall|i: int| 0 <= i < NUM_DIMS ==> rat_wf(#[trigger] u->Base_0[i])
}

/// An expression: a literal value, a variable reference, or an operator
/// applied to its children.
#[derive(Debug, PartialEq)]
pub enum Expr {
    Atom(Val),
    Ident(String),
    Cons(Op, Vec<Expr>),
}

/// The mathematical shape of an expression.
pub enum ExprV {
    Atom(ValV),
    Ident(Seq<char>),
    Cons(OpV, Seq<ExprV>),
}

/// The view of an expression.
pub open spec fn expr_view(e: Expr) -> ExprV
    decreases e,
{
    match e {
        Expr::Atom(v) => ExprV::Atom(val_view(v)),
        Expr::Ident(s) => ExprV::Ident(s@),
        Expr::Cons(o, ch) => ExprV::Cons(
            op_view(o),
            Seq::new(
                ch@.len(),
                |i: int|
                    if 0 <= i < ch@.len() {
                        expr_view(ch@[i])
                    } else {
                        ExprV::Ident(Seq::empty())
                    },
            ),
        ),
    }
}

/// Well-formedness of an expression view: every literal is well-formed and
/// every operator carries exactly its arity of well-formed children.
pub open spec fn ev_wf(e: ExprV) -> bool
    decreases e,
{
    match e {
        ExprV::Atom(v) => rat_wf(v.num) && uv_any_wf(v.unit),
        ExprV::Ident(_) => true,
        ExprV::Cons(o, ch) => {
            &&& opv_wf(o)
            &&& ch.len() == op_arity(o)
            &&& forall|i: int| 0 <= i < ch.len() ==> ev_wf(#[trigger] ch[i])
        },
    }
}

/// Well-formedness of any unit view.
pub open spec fn uv_any_wf(u: UnitView) -> bool {
    match u {
        UnitView::Base(d) => d.len() == NUM_DIMS && forall|i: int|
            0 <= i < NUM_DIMS ==> rat_wf(#[trigger] d[i]),
        UnitView::Custom(_) => true,
    }
}

/// Parser invariant on expression trees.
pub open spec fn expr_wf(e: Expr) -> bool {
    ev_wf(expr_view(e))
}

/// Build a unary operator node.
pub fn cons1(o: Op, a: Expr) -> (r: Expr)
    ensures
        expr_view(r) == ExprV::Cons(op_view(o), seq![expr_view(a)]),
        r is Cons,
{
    let ghost av = expr_view(a);
    let mut ch: Vec<Expr> = Vec::new();
    ch.push(a);
    proof {
        assert(expr_view(Expr::Cons(o, ch))->Cons_1 =~= seq![av]);
    }
    Expr::Cons(o, ch)
}

/// Build a binary operator node.
pub fn cons2(o: Op, a: Expr, b: Expr) -> (r: Expr)
    ensures
        expr_view(r) == ExprV::Cons(op_view(o), seq![expr_view(a), expr_view(b)]),
        r is Cons,
{
    let ghost av = expr_view(a);
    let ghost bv = expr_view(b);
    let mut ch: Vec<Expr> = Vec::new();
    ch.push(a);
    ch.push(b);
    proof {
        assert(expr_view(Expr::Cons(o, ch))->Cons_1 =~= seq![av, bv]);
    }
    Expr::Cons(o, ch)
}

} // verus!
