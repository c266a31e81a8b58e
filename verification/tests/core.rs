use unit_calc::expr::{Expr, Op};
use unit_calc::latex::ToLaTeX;
use unit_calc::parser::{parse_block, parse_expr, parse_unit_expr, Node, NodeKind};
use unit_calc::rat::Rat;
use unit_calc::statement::{eval_block, eval_expr, Env};
use unit_calc::unit::{compose, unit_eq_exec, DimVec, Unit};
use unit_calc::unit_expr::UnitOp;
use unit_calc::val::{val_add_unit, val_plus, EvalError, Val};

fn leaf(kind: NodeKind, text: &str) -> Node {
    Node { kind, text: text.to_string(), children: vec![] }
}

fn tree(kind: NodeKind, text: &str, children: Vec<Node>) -> Node {
    Node { kind, text: text.to_string(), children }
}

fn ratw(n: i64) -> Rat {
    Rat { num: n, den: 1 }
}

fn dim_unit(slot: usize) -> Unit {
    let mut exps = Vec::new();
    for i in 0..7 {
        exps.push(if i == slot { ratw(1) } else { ratw(0) });
    }
    Unit::Base(DimVec { exps })
}

fn num_expr(v: i64) -> Expr {
    Expr::Atom(Val { num: ratw(v), unit: Unit::empty() })
}

fn expr_node(children: Vec<Node>) -> Node {
    tree(NodeKind::Expression, "", children)
}

fn unit_annotation(tokens: Vec<&str>) -> Node {
    let mut ch = Vec::new();
    for (i, t) in tokens.iter().enumerate() {
        if i % 2 == 0 {
            ch.push(leaf(NodeKind::Unit, t));
        } else {
            ch.push(leaf(NodeKind::Operation, t));
        }
    }
    tree(NodeKind::UnitExpr, "", ch)
}

#[test]
fn test_parser() {
    let program = tree(
        NodeKind::Program,
        "",
        vec![
            tree(
                NodeKind::VarDec,
                "x = 5",
                vec![leaf(NodeKind::Ident, "x"), expr_node(vec![leaf(NodeKind::Number, "5")])],
            ),
            tree(NodeKind::Expression, "5 + 10", vec![
                leaf(NodeKind::Number, "5"),
                leaf(NodeKind::Operation, "+"),
                leaf(NodeKind::Number, "10"),
            ]),
        ],
    );
    assert!(parse_block(&program).is_ok());
}

#[test]
fn precedence_mul_binds_tighter() {
    let node = expr_node(vec![
        leaf(NodeKind::Number, "1"),
        leaf(NodeKind::Operation, "+"),
        leaf(NodeKind::Number, "2"),
        leaf(NodeKind::Operation, "*"),
        leaf(NodeKind::Number, "3"),
    ]);
    let parsed = parse_expr(&node).unwrap();
    let expected = Expr::Cons(
        Op::Plus,
        vec![num_expr(1), Expr::Cons(Op::Mul, vec![num_expr(2), num_expr(3)])],
    );
    assert_eq!(parsed, expected);
    let env = Env::new();
    let v = eval_expr(&parsed, &env).unwrap();
    assert_eq!(v.num, ratw(7));
}

#[test]
fn minus_is_left_associative() {
    let node = expr_node(vec![
        leaf(NodeKind::Number, "10"),
        leaf(NodeKind::Operation, "-"),
        leaf(NodeKind::Number, "3"),
        leaf(NodeKind::Operation, "-"),
        leaf(NodeKind::Number, "2"),
    ]);
    let parsed = parse_expr(&node).unwrap();
    let expected = Expr::Cons(
        Op::Minus,
        vec![Expr::Cons(Op::Minus, vec![num_expr(10), num_expr(3)]), num_expr(2)],
    );
    assert_eq!(parsed, expected);
    let env = Env::new();
    let v = eval_expr(&parsed, &env).unwrap();
    assert_eq!(v.num, ratw(5));
}

#[test]
fn unit_annotated_literal_parses_and_renders() {
    let node = expr_node(vec![leaf(NodeKind::Number, "5"), unit_annotation(vec!["kg"])]);
    let parsed = parse_expr(&node).unwrap();
    let expected = Expr::Cons(Op::AddUnit(dim_unit(0)), vec![num_expr(5)]);
    assert_eq!(parsed, expected);
    let shown = parsed.to_latex().to_string();
    assert!(shown.contains('5'));
    assert!(shown.contains("kg"));
    assert_eq!(shown, "5\\ kg");
}

#[test]
fn unit_expression_evaluates_to_dimension_vector() {
    let node = unit_annotation(vec!["kg", "*", "m", "/", "s^2"]);
    let ue = parse_unit_expr(&node).unwrap();
    let u = ue.eval().unwrap();
    match u {
        Unit::Base(d) => {
            assert_eq!(d.exps[0], ratw(1));
            assert_eq!(d.exps[1], ratw(1));
            assert_eq!(d.exps[2], Rat { num: -2, den: 1 });
            for i in 3..7 {
                assert_eq!(d.exps[i], ratw(0));
            }
        }
        _ => panic!("expected a base unit"),
    }
}

#[test]
fn plus_of_mass_and_length_is_incompatible() {
    let a = Val { num: ratw(3), unit: dim_unit(0) };
    let b = Val { num: ratw(4), unit: dim_unit(1) };
    assert_eq!(val_plus(a, b), Err(EvalError::IncompatibleUnits));
    let a2 = Val { num: Rat { num: -7, den: 2 }, unit: dim_unit(0) };
    let b2 = Val { num: ratw(0), unit: dim_unit(1) };
    assert_eq!(val_plus(a2, b2), Err(EvalError::IncompatibleUnits));
}

#[test]
fn program_binds_and_evaluates() {
    let program = tree(
        NodeKind::Program,
        "",
        vec![
            tree(
                NodeKind::VarDec,
                "x = 5",
                vec![leaf(NodeKind::Ident, "x"), expr_node(vec![leaf(NodeKind::Number, "5")])],
            ),
            tree(NodeKind::Expression, "5 + 10", vec![
                leaf(NodeKind::Number, "5"),
                leaf(NodeKind::Operation, "+"),
                leaf(NodeKind::Number, "10"),
            ]),
        ],
    );
    let stmts = parse_block(&program).unwrap();
    assert_eq!(stmts.len(), 2);
    let mut env = Env::new();
    let outs = eval_block(&stmts, &mut env).unwrap();
    assert_eq!(outs.len(), 1);
    assert_eq!(outs[0].num, ratw(15));
    assert!(outs[0].unit.is_empty_unit());
    let x = env.lookup(&"x".to_string()).unwrap();
    assert_eq!(x.num, ratw(5));
    assert!(x.unit.is_empty_unit());
}

#[test]
fn compose_round_trip_returns_left_operand() {
    let a = dim_unit(0);
    let b = dim_unit(2);
    let ab = compose(&a, &b, UnitOp::Mul).unwrap();
    let back = compose(&ab, &b, UnitOp::Div).unwrap();
    assert!(unit_eq_exec(&back, &a));
}

#[test]
fn add_unit_succeeds_once_then_fails() {
    let v = Val { num: ratw(5), unit: Unit::empty() };
    let once = val_add_unit(v, dim_unit(0)).unwrap();
    assert!(unit_eq_exec(&once.unit, &dim_unit(0)));
    let twice = val_add_unit(once, dim_unit(0));
    assert_eq!(twice, Err(EvalError::DoubleUnitAnnotation));
}
