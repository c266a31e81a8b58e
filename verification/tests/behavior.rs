use unit_calc::expr::{Expr, Op};
use unit_calc::latex::{FormatArgs, LaTeX, ToLaTeX};
use unit_calc::parser::{parse_expr, Node, NodeKind, ParseError};
use unit_calc::rat::{rat_eq_exec, Rat};
use unit_calc::statement::{eval_expr, Env};
use unit_calc::unit::{DimVec, Unit};
use unit_calc::unit_expr::UnitPow;
use unit_calc::val::{EvalError, Val};

fn leaf(kind: NodeKind, text: &str) -> Node {
    Node { kind, text: text.to_string(), children: vec![] }
}

fn tree(kind: NodeKind, text: &str, children: Vec<Node>) -> Node {
    Node { kind, text: text.to_string(), children }
}

fn ratw(n: i64) -> Rat {
    Rat { num: n, den: 1 }
}

fn dim_unit(slot: usize) -> Unit {
    let mut exps = Vec::new();
    for i in 0..7 {
        exps.push(if i == slot { ratw(1) } else { ratw(0) });
    }
    Unit::Base(DimVec { exps })
}

fn expr_node(children: Vec<Node>) -> Node {
    tree(NodeKind::Expression, "", children)
}

#[test]
fn decimal_literals_are_exact() {
    let node = expr_node(vec![
        leaf(NodeKind::Number, "1.5"),
        leaf(NodeKind::Operation, "+"),
        leaf(NodeKind::Number, "1.5"),
    ]);
    let parsed = parse_expr(&node).unwrap();
    let env = Env::new();
    let v = eval_expr(&parsed, &env).unwrap();
    assert!(rat_eq_exec(&v.num, &ratw(3)));
    assert_eq!(v.num, Rat { num: 300, den: 100 });
}

#[test]
fn prefixed_unit_token_rescales_magnitude() {
    let node = expr_node(vec![
        leaf(NodeKind::Number, "5"),
        tree(NodeKind::UnitExpr, "", vec![leaf(NodeKind::Unit, "mm")]),
    ]);
    let parsed = parse_expr(&node).unwrap();
    match &parsed {
        Expr::Cons(Op::AddMultiUnit(p, u), ch) => {
            assert_eq!(*p, -3);
            assert_eq!(*u, dim_unit(1));
            assert_eq!(ch.len(), 1);
        }
        other => panic!("unexpected parse: {:?}", other),
    }
    let env = Env::new();
    let v = eval_expr(&parsed, &env).unwrap();
    assert_eq!(v.num, Rat { num: 5, den: 1000 });
    assert!(rat_eq_exec(&v.num, &Rat { num: 1, den: 200 }));
}

#[test]
fn unknown_operator_is_a_parse_error() {
    let node = expr_node(vec![
        leaf(NodeKind::Number, "1"),
        leaf(NodeKind::Operation, "%"),
        leaf(NodeKind::Number, "2"),
    ]);
    assert_eq!(parse_expr(&node), Err(ParseError::BadOperator));
}

#[test]
fn unknown_unit_symbol_is_a_parse_error() {
    let node = expr_node(vec![
        leaf(NodeKind::Number, "1"),
        tree(NodeKind::UnitExpr, "", vec![leaf(NodeKind::Unit, "xyz")]),
    ]);
    assert_eq!(parse_expr(&node), Err(ParseError::UnresolvedUnitSymbol));
}

#[test]
fn malformed_atom_is_a_parse_error() {
    let node = expr_node(vec![leaf(NodeKind::Number, "12a")]);
    assert_eq!(parse_expr(&node), Err(ParseError::BadAtom));
    let empty = expr_node(vec![]);
    assert_eq!(parse_expr(&empty), Err(ParseError::MissingOperand));
}

#[test]
fn division_by_zero_magnitude_is_reported() {
    let node = expr_node(vec![
        leaf(NodeKind::Number, "1"),
        leaf(NodeKind::Operation, "/"),
        leaf(NodeKind::Number, "0"),
    ]);
    let parsed = parse_expr(&node).unwrap();
    let env = Env::new();
    assert_eq!(eval_expr(&parsed, &env), Err(EvalError::DivisionByZero));
}

#[test]
fn unbound_variable_is_reported() {
    let node = expr_node(vec![leaf(NodeKind::Ident, "y")]);
    let parsed = parse_expr(&node).unwrap();
    let env = Env::new();
    assert_eq!(eval_expr(&parsed, &env), Err(EvalError::UndefinedVariable));
}

#[test]
fn double_unit_annotation_is_reported() {
    let node = expr_node(vec![
        leaf(NodeKind::Number, "5"),
        tree(NodeKind::UnitExpr, "", vec![leaf(NodeKind::Unit, "kg")]),
        tree(NodeKind::UnitExpr, "", vec![leaf(NodeKind::Unit, "kg")]),
    ]);
    let parsed = parse_expr(&node).unwrap();
    let env = Env::new();
    assert_eq!(eval_expr(&parsed, &env), Err(EvalError::DoubleUnitAnnotation));
}

#[test]
fn dimensionless_value_renders_bare() {
    let v = Val { num: ratw(7), unit: Unit::empty() };
    assert_eq!(v.to_latex().to_string(), "7");
    let neg = Val { num: Rat { num: -12, den: 1 }, unit: Unit::empty() };
    assert_eq!(neg.to_latex().to_string(), "-12");
}

#[test]
fn united_value_renders_with_symbol() {
    let v = Val { num: ratw(5), unit: dim_unit(0) };
    assert_eq!(v.to_latex().to_string(), "5 \\ kg");
}

#[test]
fn force_unit_renders_as_fraction() {
    let mut exps = Vec::new();
    exps.push(ratw(1));
    exps.push(ratw(1));
    exps.push(Rat { num: -2, den: 1 });
    for _ in 3..7 {
        exps.push(ratw(0));
    }
    let u = Unit::Base(DimVec { exps });
    assert_eq!(u.to_latex().to_string(), "\\frac{kg m}{s^{2}}");
}

#[test]
fn unit_hint_rescales_display() {
    let v = Val { num: ratw(5000), unit: dim_unit(1) };
    let hint = FormatArgs::UnitHint {
        string: "km".to_string(),
        value: UnitPow { unit: dim_unit(1), pow: 3 },
    };
    let shown = v.to_latex_ext(Some(&hint)).to_string();
    assert_eq!(shown, "5000/1000 \\ km");
}

#[test]
fn latex_to_string_returns_contents() {
    let t = LaTeX::Text("hello".to_string());
    assert_eq!(t.to_string(), "hello");
    let m = LaTeX::Math("x^{2}".to_string());
    assert_eq!(m.to_string(), "x^{2}");
}

#[test]
fn later_bindings_shadow_earlier_ones() {
    let mut env = Env::new();
    env.bind("x".to_string(), Val { num: ratw(1), unit: Unit::empty() });
    env.bind("x".to_string(), Val { num: ratw(2), unit: Unit::empty() });
    let got = env.lookup(&"x".to_string()).unwrap();
    assert_eq!(got.num, ratw(2));
    assert!(env.lookup(&"z".to_string()).is_none());
}

#[test]
fn parenthesized_subexpression_parses_as_nested_node() {
    let inner = expr_node(vec![
        leaf(NodeKind::Number, "1"),
        leaf(NodeKind::Operation, "+"),
        leaf(NodeKind::Number, "2"),
    ]);
    let node = expr_node(vec![inner, leaf(NodeKind::Operation, "*"), leaf(NodeKind::Number, "3")]);
    let parsed = parse_expr(&node).unwrap();
    let env = Env::new();
    let v = eval_expr(&parsed, &env).unwrap();
    assert!(rat_eq_exec(&v.num, &ratw(9)));
}

#[test]
fn exponent_raises_magnitude_and_scales_unit() {
    let base = Val { num: ratw(2), unit: dim_unit(1) };
    let ten = Val { num: ratw(10), unit: Unit::empty() };
    let v = unit_calc::val::val_exp(base, ten).unwrap();
    assert_eq!(v.num, ratw(1024));
    match v.unit {
        Unit::Base(d) => assert_eq!(d.exps[1], Rat { num: 10, den: 1 }),
        _ => panic!("expected a base unit"),
    }
}

#[test]
fn negative_exponent_takes_the_reciprocal() {
    let base = Val { num: ratw(2), unit: Unit::empty() };
    let minus_two = Val { num: Rat { num: -2, den: 1 }, unit: Unit::empty() };
    let v = unit_calc::val::val_exp(base, minus_two).unwrap();
    assert!(rat_eq_exec(&v.num, &Rat { num: 1, den: 4 }));
}

#[test]
fn non_integer_exponent_is_reported() {
    let base = Val { num: ratw(2), unit: Unit::empty() };
    let half = Val { num: Rat { num: 1, den: 2 }, unit: Unit::empty() };
    assert_eq!(unit_calc::val::val_exp(base, half), Err(EvalError::NonIntegerExponent));
}

#[test]
fn dimensioned_exponent_is_reported() {
    let base = Val { num: ratw(2), unit: Unit::empty() };
    let meters = Val { num: ratw(2), unit: dim_unit(1) };
    assert_eq!(unit_calc::val::val_exp(base, meters), Err(EvalError::DimensionedExponent));
}

#[test]
fn magnitude_overflow_is_reported() {
    let a = Val { num: ratw(i64::MAX), unit: Unit::empty() };
    let b = Val { num: ratw(i64::MAX), unit: Unit::empty() };
    assert_eq!(unit_calc::val::val_plus(a, b), Err(EvalError::Overflow));
}
