//! The statement layer: one statement per program line, evaluated in
//! order against a shared variable environment.

use vstd::prelude::*;

use crate::expr::{ev_wf, expr_view, Expr, ExprV, Op, OpV};
use crate::unit::{unit_view, Unit};
use crate::val::{
    res_view, spec_val_add_multi_unit, spec_val_add_unit, spec_val_div, spec_val_exp,
    spec_val_minus, spec_val_mul, spec_val_plus, val_add_multi_unit, val_add_unit, val_div,
    val_exp, val_minus, val_mul, val_plus, val_view, val_wf, EvalError, Val, ValV,
};

verus! {

broadcast use vstd::seq::group_seq_axioms;

/// A statement: a variable declaration, a print request, or a bare
/// expression. The print and bare forms keep their original source text.
#[derive(Debug, PartialEq)]
pub enum Statement {
    VarDec { lhs: String, rhs: Expr },
    PrintExpr { string: String, parsed: Expr },
    ExprStmt { string: String, parsed: Expr },
}

/// The mathematical shape of a statement.
pub enum StatementV {
    VarDec { lhs: Seq<char>, rhs: ExprV },
    PrintExpr { string: Seq<char>, parsed: ExprV },
    ExprStmt { string: Seq<char>, parsed: ExprV },
}

/// The view of a statement.
pub open spec fn stmt_view(s: Statement) -> StatementV {
    match s {
        Statement::VarDec { lhs, rhs } => StatementV::VarDec { lhs: lhs@, rhs: expr_view(rhs) },
        Statement::PrintExpr { string, parsed } => StatementV::PrintExpr {
            string: string@,
            parsed: expr_view(parsed),
        },
        Statement::ExprStmt { string, parsed } => StatementV::ExprStmt {
            string: string@,
            parsed: expr_view(parsed),
        },
    }
}

/// Well-formedness of a statement view.
pub open spec fn sv_wf(s: StatementV) -> bool {
    match s {
        StatementV::VarDec { lhs, rhs } => ev_wf(rhs),
        StatementV::PrintExpr { string, parsed } => ev_wf(parsed),
        StatementV::ExprStmt { string, parsed } => ev_wf(parsed),
    }
}

/// The shared name-to-value environment: bindings in insertion order, the
/// latest binding of a name winning.
pub struct Env {
    pub bindings: Vec<(String, Val)>,
}

/// The view of an environment.
pub open spec fn env_view(e: Env) -> Seq<(Seq<char>, ValV)> {
    Seq::new(e.bindings@.len(), |i: int|
        if 0 <= i < e.bindings@.len() {
            (e.bindings@[i].0@, val_view(e.bindings@[i].1))
        } else {
            (
                Seq::empty(),
                ValV {
                    num: crate::rat::Rat { num: 0 as i64, den: 1 as i64 },
                    unit: crate::unit::UnitView::Custom(Seq::empty()),
                },
            )
        })
}

/// Well-formedness of an environment: every bound value is well-formed.
pub open spec fn env_wf(e: Env) -> bool {
    forall|i: int| 0 <= i < e.bindings@.len() ==> val_wf((#[trigger] e.bindings@[i]).1)
}

/// The latest binding of a name, if any.
pub open spec fn spec_lookup(env: Seq<(Seq<char>, ValV)>, name: Seq<char>) -> Option<ValV>
    decreases env.len(),
{
    if env.len() == 0 {
        None
    } else if env.last().0 == name {
        Some(env.last().1)
    } else {
        spec_lookup(env.drop_last(), name)
    }
}

impl Env {
    /// An empty environment.
    pub fn new() -> (e: Env)
        ensures
            env_wf(e),
            env_view(e) == Seq::<(Seq<char>, ValV)>::empty(),
    {
        let e = Env { bindings: Vec::new() };
        proof {
            assert(env_view(e) =~= Seq::<(Seq<char>, ValV)>::empty());
        }
        e
    }

    /// The latest binding of a name, duplicated out of the store.
    pub fn lookup(&self, name: &String) -> (r: Option<Val>)
        requires
            env_wf(*self),
        ensures
            match r {
                Some(v) => val_wf(v) && spec_lookup(env_view(*self), name@) == Some(val_view(v)),
                None => spec_lookup(env_view(*self), name@) is None,
            },
    {
        let n = self.bindings.len();
        proof {
            assert(env_view(*self).subrange(0, n as int) =~= env_view(*self));
        }
        let mut i: usize = n;
        while i > 0
            invariant
                i <= n,
                n == self.bindings@.len(),
                env_wf(*self),
                spec_lookup(env_view(*self), name@) == spec_lookup(
                    env_view(*self).subrange(0, i as int),
                    name@,
                ),
            decreases i,
        {
            i = i - 1;
            proof {
                let ev = env_view(*self);
                assert(ev.subrange(0, i + 1).last() == ev[i as int]);
                assert(ev.subrange(0, i + 1).drop_last() =~= ev.subrange(0, i as int));
                assert(ev[i as int] == (self.bindings@[i as int].0@, val_view(
                    self.bindings@[i as int].1,
                )));
            }
            let entry = &self.bindings[i];
            if entry.0.eq(name) {
                let v = crate::val::clone_val(&entry.1);
                return Some(v);
            }
        }
        proof {
            assert(env_view(*self).subrange(0, 0) =~= Seq::<(Seq<char>, ValV)>::empty());
        }
        None
    }

    /// Bind a name to a value, shadowing any earlier binding.
    pub fn bind(&mut self, name: String, v: Val)
        requires
            env_wf(*old(self)),
            val_wf(v),
        ensures
            env_wf(*final(self)),
            env_view(*final(self)) == env_view(*old(self)).push((name@, val_view(v))),
    {
        let ghost oldv = env_view(*old(self));
        let ghost namev = name@;
        let ghost vv = val_view(v);
        self.bindings.push((name, v));
        proof {
            assert(env_view(*self) =~= oldv.push((namev, vv)));
        }
    }
}


/// The view of an optional value.
pub open spec fn opt_view(o: Option<Val>) -> Option<ValV> {
    match o {
        Some(v) => Some(val_view(v)),
        None => None,
    }
}

/// The views of a value list.
pub open spec fn vals_view(s: Seq<Val>) -> Seq<ValV> {
    Seq::new(
        s.len(),
        |i: int|
            if 0 <= i < s.len() {
                val_view(s[i])
            } else {
                ValV {
                    num: crate::rat::Rat { num: 0 as i64, den: 1 as i64 },
                    unit: crate::unit::UnitView::Custom(Seq::empty()),
                }
            },
    )
}

/// One binary arithmetic step over values.
pub open spec fn spec_eval_bin(op: OpV, a: ValV, b: ValV) -> Result<ValV, EvalError> {
    match op {
        OpV::Plus => spec_val_plus(a, b),
        OpV::Minus => spec_val_minus(a, b),
        OpV::Mul => spec_val_mul(a, b),
        OpV::Div => spec_val_div(a, b),
        OpV::Exp => spec_val_exp(a, b),
        _ => Err(EvalError::CustomUnit),
    }
}

/// Evaluate an expression against an environment: a literal is itself, a
/// variable is its latest binding, an operator applies its value
/// semantics to its evaluated children, left first.
pub open spec fn spec_eval_expr(e: ExprV, env: Seq<(Seq<char>, ValV)>) -> Result<ValV, EvalError>
    decreases e,
{
    match e {
        ExprV::Atom(v) => Ok(v),
        ExprV::Ident(n) => match spec_lookup(env, n) {
            Some(v) => Ok(v),
            None => Err(EvalError::UndefinedVariable),
        },
        ExprV::Cons(op, ch) => match op {
            OpV::AddUnit(u) => if ch.len() < 1 {
                Err(EvalError::MalformedExpression)
            } else {
                match spec_eval_expr(ch[0], env) {
                    Ok(a) => spec_val_add_unit(a, u),
                    Err(e) => Err(e),
                }
            },
            OpV::AddMultiUnit(p, u) => if ch.len() < 1 {
                Err(EvalError::MalformedExpression)
            } else {
                match spec_eval_expr(ch[0], env) {
                    Ok(a) => spec_val_add_multi_unit(a, p as int, u),
                    Err(e) => Err(e),
                }
            },
            _ => if ch.len() < 2 {
                Err(EvalError::MalformedExpression)
            } else {
                match spec_eval_expr(ch[0], env) {
                    Err(e) => Err(e),
                    Ok(a) => match spec_eval_expr(ch[1], env) {
                        Err(e) => Err(e),
                        Ok(b) => spec_eval_bin(op, a, b),
                    },
                }
            },
        },
    }
}

/// Evaluate an expression.
#[verifier::rlimit(100)]
pub fn eval_expr(e: &Expr, env: &Env) -> (r: Result<Val, EvalError>)
    requires
        crate::expr::expr_wf(*e),
        env_wf(*env),
    ensures
        res_view(r) == spec_eval_expr(expr_view(*e), env_view(*env)),
        r matches Ok(v) ==> val_wf(v),
    decreases *e,
{
    match e {
        Expr::Atom(v) => Ok(crate::val::clone_val(v)),
        Expr::Ident(name) => match env.lookup(name) {
            Some(v) => Ok(v),
            None => Err(EvalError::UndefinedVariable),
        },
        Expr::Cons(op, ch) => {
            proof {
                let ev = expr_view(*e);
                assert(ev is Cons);
                assert(ev->Cons_1.len() == ch@.len());
                assert(crate::expr::op_arity(crate::expr::op_view(*op)) == ch@.len());
                if ch@.len() >= 1 {
                    assert(ev->Cons_1[0] == expr_view(ch@[0]));
                    assert(ev_wf(expr_view(ch@[0])));
                }
                if ch@.len() >= 2 {
                    assert(ev->Cons_1[1] == expr_view(ch@[1]));
                    assert(ev_wf(expr_view(ch@[1])));
                }
            }
            match op {
                Op::AddUnit(u) => match eval_expr(&ch[0], env) {
                    Ok(a) => val_add_unit(a, crate::unit::clone_unit(u)),
                    Err(er) => Err(er),
                },
                Op::AddMultiUnit(p, u) => match eval_expr(&ch[0], env) {
                    Ok(a) => val_add_multi_unit(a, *p, crate::unit::clone_unit(u)),
                    Err(er) => Err(er),
                },
                Op::Plus => match eval_expr(&ch[0], env) {
                    Err(er) => Err(er),
                    Ok(a) => match eval_expr(&ch[1], env) {
                        Err(er) => Err(er),
                        Ok(b) => val_plus(a, b),
                    },
                },
                Op::Minus => match eval_expr(&ch[0], env) {
                    Err(er) => Err(er),
                    Ok(a) => match eval_expr(&ch[1], env) {
                        Err(er) => Err(er),
                        Ok(b) => val_minus(a, b),
                    },
                },
                Op::Mul => match eval_expr(&ch[0], env) {
                    Err(er) => Err(er),
                    Ok(a) => match eval_expr(&ch[1], env) {
                        Err(er) => Err(er),
                        Ok(b) => val_mul(a, b),
                    },
                },
                Op::Div => match eval_expr(&ch[0], env) {
                    Err(er) => Err(er),
                    Ok(a) => match eval_expr(&ch[1], env) {
                        Err(er) => Err(er),
                        Ok(b) => val_div(a, b),
                    },
                },
                Op::Exp => match eval_expr(&ch[0], env) {
                    Err(er) => Err(er),
                    Ok(a) => match eval_expr(&ch[1], env) {
                        Err(er) => Err(er),
                        Ok(b) => val_exp(a, b),
                    },
                },
            }
        },
    }
}


/// Evaluate one statement: a declaration binds its name and yields
/// nothing; the print and bare forms yield their value and leave the
/// environment unchanged.
pub open spec fn spec_eval_stmt(s: StatementV, env: Seq<(Seq<char>, ValV)>) -> Result<
    (Seq<(Seq<char>, ValV)>, Option<ValV>),
    EvalError,
> {
    match s {
        StatementV::VarDec { lhs, rhs } => match spec_eval_expr(rhs, env) {
            Ok(v) => Ok((env.push((lhs, v)), None)),
            Err(e) => Err(e),
        },
        StatementV::PrintExpr { string, parsed } => match spec_eval_expr(parsed, env) {
            Ok(v) => Ok((env, Some(v))),
            Err(e) => Err(e),
        },
        StatementV::ExprStmt { string, parsed } => match spec_eval_expr(parsed, env) {
            Ok(v) => Ok((env, Some(v))),
            Err(e) => Err(e),
        },
    }
}

/// Evaluate one statement against the shared environment.
pub fn eval_statement(s: &Statement, env: &mut Env) -> (r: Result<Option<Val>, EvalError>)
    requires
        sv_wf(stmt_view(*s)),
        env_wf(*old(env)),
    ensures
        env_wf(*final(env)),
        match r {
            Ok(o) => spec_eval_stmt(stmt_view(*s), env_view(*old(env))) == Ok::<
                (Seq<(Seq<char>, ValV)>, Option<ValV>),
                EvalError,
            >((env_view(*final(env)), opt_view(o))) && (o matches Some(v) ==> val_wf(v)),
            Err(e) => spec_eval_stmt(stmt_view(*s), env_view(*old(env))) == Err::<
                (Seq<(Seq<char>, ValV)>, Option<ValV>),
                EvalError,
            >(e) && env_view(*final(env)) == env_view(*old(env)),
        },
{
    match s {
        Statement::VarDec { lhs, rhs } => match eval_expr(rhs, env) {
            Ok(v) => {
                env.bind(lhs.clone(), v);
                Ok(None)
            },
            Err(e) => Err(e),
        },
        Statement::PrintExpr { string, parsed } => match eval_expr(parsed, env) {
            Ok(v) => Ok(Some(v)),
            Err(e) => Err(e),
        },
        Statement::ExprStmt { string, parsed } => match eval_expr(parsed, env) {
            Ok(v) => Ok(Some(v)),
            Err(e) => Err(e),
        },
    }
}

/// Evaluate the first `i` statements in order, collecting the values the
/// print and bare statements yield. The first failure aborts the run.
pub open spec fn spec_eval_block_upto(
    ss: Seq<StatementV>,
    env0: Seq<(Seq<char>, ValV)>,
    i: int,
) -> Result<(Seq<(Seq<char>, ValV)>, Seq<ValV>), EvalError>
    decreases i,
{
    if i <= 0 {
        Ok((env0, Seq::empty()))
    } else {
        match spec_eval_block_upto(ss, env0, i - 1) {
            Err(e) => Err(e),
            Ok(p) => match spec_eval_stmt(ss[i - 1], p.0) {
                Err(e) => Err(e),
                Ok(q) => Ok(
                    (
                        q.0,
                        match q.1 {
                            Some(v) => p.1.push(v),
                            None => p.1,
                        },
                    ),
                ),
            },
        }
    }
}

/// Once a prefix of the program fails, the whole program fails the same
/// way.
proof fn lemma_eval_block_err(
    ss: Seq<StatementV>,
    env0: Seq<(Seq<char>, ValV)>,
    i: int,
    j: int,
    e: EvalError,
)
    requires
        0 <= i <= j,
        spec_eval_block_upto(ss, env0, i) == Err::<
            (Seq<(Seq<char>, ValV)>, Seq<ValV>),
            EvalError,
        >(e),
    ensures
        spec_eval_block_upto(ss, env0, j) == Err::<
            (Seq<(Seq<char>, ValV)>, Seq<ValV>),
            EvalError,
        >(e),
    decreases j - i,
{
    if i < j {
        lemma_eval_block_err(ss, env0, i + 1, j, e);
    }
}

/// Evaluate a whole statement list in order against the shared
/// environment. The first failure aborts the run; bindings made by the
/// statements before the failing one persist in the environment.
#[verifier::rlimit(100)]
pub fn eval_block(stmts: &Vec<Statement>, env: &mut Env) -> (r: Result<Vec<Val>, EvalError>)
    requires
        forall|i: int| 0 <= i < stmts@.len() ==> sv_wf(stmt_view(#[trigger] stmts@[i])),
        env_wf(*old(env)),
    ensures
        env_wf(*final(env)),
        match r {
            Ok(outs) => spec_eval_block_upto(
                crate::parser::stmts_view(stmts@),
                env_view(*old(env)),
                stmts@.len() as int,
            ) == Ok::<(Seq<(Seq<char>, ValV)>, Seq<ValV>), EvalError>(
                (env_view(*final(env)), vals_view(outs@)),
            ) && forall|i: int| 0 <= i < outs@.len() ==> val_wf(#[trigger] outs@[i]),
            Err(e) => spec_eval_block_upto(
                crate::parser::stmts_view(stmts@),
                env_view(*old(env)),
                stmts@.len() as int,
            ) == Err::<(Seq<(Seq<char>, ValV)>, Seq<ValV>), EvalError>(e),
        },
{
    let ghost sv = crate::parser::stmts_view(stmts@);
    let ghost env0 = env_view(*old(env));
    let n = stmts.len();
    let mut outs: Vec<Val> = Vec::new();
    proof {
        assert(vals_view(outs@) =~= Seq::<ValV>::empty());
    }
    let mut i: usize = 0;
    while i < n
        invariant
            i <= n,
            n == stmts@.len(),
            sv == crate::parser::stmts_view(stmts@),
            env0 == env_view(*old(env)),
            forall|j: int| 0 <= j < stmts@.len() ==> sv_wf(stmt_view(#[trigger] stmts@[j])),
            env_wf(*env),
            spec_eval_block_upto(sv, env0, i as int) == Ok::<
                (Seq<(Seq<char>, ValV)>, Seq<ValV>),
                EvalError,
            >((env_view(*env), vals_view(outs@))),
            forall|j: int| 0 <= j < outs@.len() ==> val_wf(#[trigger] outs@[j]),
        decreases n - i,
    {
        let ghost prev = vals_view(outs@);
        proof {
            assert(sv[i as int] == stmt_view(stmts@[i as int]));
        }
        match eval_statement(&stmts[i], env) {
            Ok(Some(v)) => {
                outs.push(v);
                proof {
                    assert(vals_view(outs@) =~= prev.push(val_view(outs@[outs@.len() - 1])));
                }
            },
            Ok(None) => {},
            Err(e) => {
                proof {
                    assert(spec_eval_stmt(sv[i as int], env_view(*env)) == Err::<
                        (Seq<(Seq<char>, ValV)>, Option<ValV>),
                        EvalError,
                    >(e));
                    assert(spec_eval_block_upto(sv, env0, i as int + 1) == Err::<
                        (Seq<(Seq<char>, ValV)>, Seq<ValV>),
                        EvalError,
                    >(e));
                    lemma_eval_block_err(sv, env0, i as int + 1, n as int, e);
                }
                return Err(e);
            },
        }
        i = i + 1;
    }
    Ok(outs)
}

} // verus!
