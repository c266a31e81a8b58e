//! The math-text renderer: every expression, value and unit renders to a
//! LaTeX-style string, with an optional display hint that rescales a
//! value into a requested unit prefix.

use vstd::prelude::*;

use crate::expr::{expr_view, Expr, ExprV, Op, OpV};
use crate::rat::{rat_wf, spec_rat_mul, Rat};
use crate::unit::{unit_view, Unit, UnitView, NUM_DIMS};
use crate::unit_expr::UnitPow;
use crate::val::{spec_pow10, val_view, val_wf, Val, ValV};

verus! {

/// A rendered fragment: plain text or math text.
#[derive(Debug)]
pub enum LaTeX {
    Text(String),
    Math(String),
}

/// The characters of a rendered fragment.
pub open spec fn latex_text(l: LaTeX) -> Seq<char> {
    match l {
        LaTeX::Text(t) => t@,
        LaTeX::Math(m) => m@,
    }
}

impl LaTeX {
    /// The rendered characters, as an owned string.
    pub fn to_string(&self) -> (r: String)
        ensures
            r@ == latex_text(*self),
    {
        match self {
            LaTeX::Text(t) => t.clone(),
            LaTeX::Math(m) => m.clone(),
        }
    }
}

/// Extra rendering directions: a display hint asking for the value to be
/// shown against the written unit-and-prefix `string`, rescaled by the
/// hint's power of ten.
#[derive(Debug)]
pub enum FormatArgs {
    UnitHint { string: String, value: UnitPow },
}

/// One decimal digit as a character.
pub open spec fn digit_char(d: int) -> char {
    if d == 0 {
        '0'
    } else if d == 1 {
        '1'
    } else if d == 2 {
        '2'
    } else if d == 3 {
        '3'
    } else if d == 4 {
        '4'
    } else if d == 5 {
        '5'
    } else if d == 6 {
        '6'
    } else if d == 7 {
        '7'
    } else if d == 8 {
        '8'
    } else {
        '9'
    }
}

/// The decimal digits of a natural number, most significant first.
pub open spec fn dec_str(n: nat) -> Seq<char>
    decreases n,
{
    if n < 10 {
        seq![digit_char(n as int)]
    } else {
        dec_str(n / 10).push(digit_char((n % 10) as int))
    }
}

/// The decimal form of an integer.
pub open spec fn int_str(n: int) -> Seq<char> {
    if n < 0 {
        "-"@ + dec_str((-n) as nat)
    } else {
        dec_str(n as nat)
    }
}

/// The decimal form of a rational: the integer where the denominator is
/// one, else numerator, slash, denominator.
pub open spec fn rat_str(r: Rat) -> Seq<char> {
    if r.den == 1 {
        int_str(r.num as int)
    } else {
        int_str(r.num as int) + "/"@ + dec_str(r.den as nat)
    }
}

/// One decimal digit as a string.
fn digit_str(d: u64) -> (r: &'static str)
    requires
        d < 10,
    ensures
        r@ == seq![digit_char(d as int)],
{
    let s: &'static str = if d == 0 {
        "0"
    } else if d == 1 {
        "1"
    } else if d == 2 {
        "2"
    } else if d == 3 {
        "3"
    } else if d == 4 {
        "4"
    } else if d == 5 {
        "5"
    } else if d == 6 {
        "6"
    } else if d == 7 {
        "7"
    } else if d == 8 {
        "8"
    } else {
        "9"
    };
    proof {
        reveal_strlit("0");
        reveal_strlit("1");
        reveal_strlit("2");
        reveal_strlit("3");
        reveal_strlit("4");
        reveal_strlit("5");
        reveal_strlit("6");
        reveal_strlit("7");
        reveal_strlit("8");
        reveal_strlit("9");
        assert(s@ =~= seq![digit_char(d as int)]);
    }
    s
}

/// Render a natural number in decimal.
fn u64_dec(n: u64) -> (r: String)
    ensures
        r@ == dec_str(n as nat),
    decreases n,
{
    if n < 10 {
        digit_str(n).to_owned()
    } else {
        let mut s = u64_dec(n / 10);
        s.append(digit_str(n % 10));
        s
    }
}

/// Render an integer in decimal.
fn i64_str(n: i64) -> (r: String)
    ensures
        r@ == int_str(n as int),
{
    if n < 0 {
        let mut s: String = "-".to_owned();
        let m: u64 = (-(n as i128)) as u64;
        s.append(u64_dec(m).as_str());
        s
    } else {
        u64_dec(n as u64)
    }
}

/// Render a rational.
fn rat_str_exec(r: &Rat) -> (out: String)
    requires
        rat_wf(*r),
    ensures
        out@ == rat_str(*r),
{
    if r.den == 1 {
        i64_str(r.num)
    } else {
        let mut s = i64_str(r.num);
        s.append("/");
        s.append(u64_dec(r.den as u64).as_str());
        s
    }
}

/// The written symbol of each base dimension.
pub open spec fn base_symbol(i: int) -> Seq<char> {
    if i == 0 {
        "kg"@
    } else if i == 1 {
        "m"@
    } else if i == 2 {
        "s"@
    } else if i == 3 {
        "A"@
    } else if i == 4 {
        "K"@
    } else if i == 5 {
        "mol"@
    } else {
        "cd"@
    }
}

fn base_symbol_str(i: usize) -> (r: &'static str)
    requires
        i < NUM_DIMS,
    ensures
        r@ == base_symbol(i as int),
{
    if i == 0 {
        "kg"
    } else if i == 1 {
        "m"
    } else if i == 2 {
        "s"
    } else if i == 3 {
        "A"
    } else if i == 4 {
        "K"
    } else if i == 5 {
        "mol"
    } else {
        "cd"
    }
}

/// The magnitude of an exponent, as a rational over the positive sign.
pub open spec fn abs_rat(e: Rat) -> Rat {
    if e.num < 0 {
        Rat { num: (-(e.num as int)) as i64, den: e.den }
    } else {
        e
    }
}

/// One rendered unit factor: the symbol alone where the exponent's
/// magnitude is one, else the symbol with the magnitude raised.
pub open spec fn spec_part(i: int, e: Rat) -> Seq<char> {
    let a = abs_rat(e);
    if a.num == a.den {
        base_symbol(i)
    } else {
        base_symbol(i) + "^{"@ + rat_str(a) + "}"@
    }
}

/// The factors of one side of the fraction, space-separated: the
/// positive-exponent dimensions for the numerator, the negative ones for
/// the denominator.
pub open spec fn spec_parts(d: Seq<Rat>, pos: bool, i: int) -> Seq<char>
    decreases NUM_DIMS - i,
{
    if i < 0 || i >= NUM_DIMS {
        Seq::empty()
    } else {
        let rest = spec_parts(d, pos, i + 1);
        let taken = if pos {
            d[i].num > 0
        } else {
            d[i].num < 0
        };
        if taken {
            let part = spec_part(i, d[i]);
            if rest.len() == 0 {
                part
            } else {
                part + " "@ + rest
            }
        } else {
            rest
        }
    }
}

/// A whole unit as math text: empty for the dimensionless unit, the bare
/// factors where no exponent is negative, else a fraction.
pub open spec fn spec_latex_unit(d: Seq<Rat>) -> Seq<char> {
    let numer = spec_parts(d, true, 0);
    let denom = spec_parts(d, false, 0);
    if numer.len() == 0 && denom.len() == 0 {
        Seq::empty()
    } else if numer.len() == 0 {
        "\\frac{1}{"@ + denom + "}"@
    } else if denom.len() == 0 {
        numer
    } else {
        "\\frac{"@ + numer + "}{"@ + denom + "}"@
    }
}

fn parts_exec(d: &Vec<Rat>, pos: bool, i: usize) -> (r: String)
    requires
        d@.len() == NUM_DIMS,
        forall|j: int| 0 <= j < NUM_DIMS ==> rat_wf(#[trigger] d@[j]),
    ensures
        r@ == spec_parts(d@, pos, i as int),
    decreases NUM_DIMS - i,
{
    if i >= NUM_DIMS {
        return String::new();
    }
    let rest = parts_exec(d, pos, i + 1);
    let e = d[i];
    let taken = if pos {
        e.num > 0
    } else {
        e.num < 0
    };
    if taken {
        let a: Rat = if e.num < 0 {
            Rat { num: (-(e.num as i128)) as i64, den: e.den }
        } else {
            e
        };
        let mut part: String = base_symbol_str(i).to_owned();
        if a.num != a.den {
            part.append("^{");
            part.append(rat_str_exec(&a).as_str());
            part.append("}");
        }
        if rest.as_str().unicode_len() == 0 {
            proof {
                assert(part@ =~= spec_parts(d@, pos, i as int));
            }
            part
        } else {
            part.append(" ");
            part.append(rest.as_str());
            proof {
                assert(part@ =~= spec_parts(d@, pos, i as int));
            }
            part
        }
    } else {
        rest
    }
}

/// Render the dimension vector of a `Base` unit.
fn render_unit_dims(d: &Vec<Rat>) -> (r: String)
    requires
        d@.len() == NUM_DIMS,
        forall|j: int| 0 <= j < NUM_DIMS ==> rat_wf(#[trigger] d@[j]),
    ensures
        r@ == spec_latex_unit(d@),
{
    let numer = parts_exec(d, true, 0);
    let denom = parts_exec(d, false, 0);
    let nn = numer.as_str().unicode_len();
    let dn = denom.as_str().unicode_len();
    if nn == 0 && dn == 0 {
        String::new()
    } else if nn == 0 {
        let mut s: String = "\\frac{1}{".to_owned();
        s.append(denom.as_str());
        s.append("}");
        proof {
            assert(s@ =~= spec_latex_unit(d@));
        }
        s
    } else if dn == 0 {
        numer
    } else {
        let mut s: String = "\\frac{".to_owned();
        s.append(numer.as_str());
        s.append("}{");
        s.append(denom.as_str());
        s.append("}");
        proof {
            assert(s@ =~= spec_latex_unit(d@));
        }
        s
    }
}

/// A value as math text, with no display hint: the magnitude alone where
/// the unit is dimensionless, else the magnitude and the unit.
pub open spec fn spec_latex_val_plain(v: ValV) -> Seq<char> {
    let us = spec_latex_unit(v.unit->Base_0);
    if us.len() == 0 {
        rat_str(v.num)
    } else {
        rat_str(v.num) + " \\ "@ + us
    }
}

/// A value as math text under a display hint: the magnitude rescaled by
/// the hint's power of ten, then the hint's own written unit.
pub open spec fn spec_latex_val_hint(v: ValV, hint_string: Seq<char>, pow: int) -> Seq<char> {
    let scaled = spec_rat_mul(v.num, spec_pow10(-pow)->Some_0)->Some_0;
    rat_str(scaled) + " \\ "@ + hint_string
}


/// The written abbreviation of a metric prefix, by its power of ten.
pub open spec fn prefix_abbr(p: int) -> Seq<char> {
    if p == -9 {
        "n"@
    } else if p == -6 {
        "u"@
    } else if p == -3 {
        "m"@
    } else if p == -2 {
        "c"@
    } else if p == -1 {
        "d"@
    } else if p == 3 {
        "k"@
    } else if p == 6 {
        "M"@
    } else if p == 9 {
        "G"@
    } else {
        Seq::empty()
    }
}

fn prefix_abbr_str(p: i64) -> (r: &'static str)
    ensures
        r@ == prefix_abbr(p as int),
{
    let s: &'static str = if p == -9 {
        "n"
    } else if p == -6 {
        "u"
    } else if p == -3 {
        "m"
    } else if p == -2 {
        "c"
    } else if p == -1 {
        "d"
    } else if p == 3 {
        "k"
    } else if p == 6 {
        "M"
    } else if p == 9 {
        "G"
    } else {
        ""
    };
    proof {
        reveal_strlit("");
        assert(""@ =~= Seq::<char>::empty());
    }
    s
}

/// Every literal value in the tree carries a `Base` unit, so the tree
/// can be rendered.
pub open spec fn ev_renderable(e: ExprV) -> bool
    decreases e,
{
    match e {
        ExprV::Atom(v) => v.unit is Base,
        ExprV::Ident(_) => true,
        ExprV::Cons(_, ch) => forall|i: int| 0 <= i < ch.len() ==> ev_renderable(#[trigger] ch[i]),
    }
}

/// An expression as math text: sums and differences in parentheses,
/// products with `\times`, quotients as fractions, powers raised, and a
/// unit annotation written after its operand.
pub open spec fn spec_latex_expr(e: ExprV) -> Seq<char>
    decreases e,
{
    match e {
        ExprV::Atom(v) => spec_latex_val_plain(v),
        ExprV::Ident(n) => n,
        ExprV::Cons(op, ch) => match op {
            OpV::Plus => if ch.len() < 2 {
                Seq::empty()
            } else {
                "("@ + spec_latex_expr(ch[0]) + " + "@ + spec_latex_expr(ch[1]) + ")"@
            },
            OpV::Minus => if ch.len() < 2 {
                Seq::empty()
            } else {
                "("@ + spec_latex_expr(ch[0]) + " - "@ + spec_latex_expr(ch[1]) + ")"@
            },
            OpV::Mul => if ch.len() < 2 {
                Seq::empty()
            } else {
                spec_latex_expr(ch[0]) + " \\times "@ + spec_latex_expr(ch[1])
            },
            OpV::Div => if ch.len() < 2 {
                Seq::empty()
            } else {
                "\\frac{"@ + spec_latex_expr(ch[0]) + "}{"@ + spec_latex_expr(ch[1]) + "}"@
            },
            OpV::Exp => if ch.len() < 2 {
                Seq::empty()
            } else {
                spec_latex_expr(ch[0]) + "^{"@ + spec_latex_expr(ch[1]) + "}"@
            },
            OpV::AddUnit(u) => if ch.len() < 1 {
                Seq::empty()
            } else {
                spec_latex_expr(ch[0]) + "\\ "@ + spec_latex_unit(u->Base_0)
            },
            OpV::AddMultiUnit(p, u) => if ch.len() < 1 {
                Seq::empty()
            } else {
                spec_latex_expr(ch[0]) + "\\ "@ + prefix_abbr(p as int) + spec_latex_unit(
                    u->Base_0,
                )
            },
        },
    }
}

/// Render a value with no hint.
fn render_val_plain(v: &Val) -> (r: String)
    requires
        val_wf(*v),
        v.unit is Base,
    ensures
        r@ == spec_latex_val_plain(val_view(*v)),
{
    let us: String = match &v.unit {
        Unit::Base(d) => render_unit_dims(&d.exps),
        Unit::Custom(_) => String::new(),
    };
    let num = rat_str_exec(&v.num);
    if us.as_str().unicode_len() == 0 {
        num
    } else {
        let mut s = num;
        s.append(" \\ ");
        s.append(us.as_str());
        proof {
            assert(s@ =~= spec_latex_val_plain(val_view(*v)));
        }
        s
    }
}

/// Render an expression.
#[verifier::rlimit(100)]
fn render_expr(e: &Expr) -> (r: String)
    requires
        crate::expr::expr_wf(*e),
        ev_renderable(expr_view(*e)),
    ensures
        r@ == spec_latex_expr(expr_view(*e)),
    decreases *e,
{
    match e {
        Expr::Atom(v) => render_val_plain(v),
        Expr::Ident(n) => n.clone(),
        Expr::Cons(op, ch) => {
            proof {
                let ev = expr_view(*e);
                assert(ev is Cons);
                assert(ev->Cons_1.len() == ch@.len());
                assert(crate::expr::op_arity(crate::expr::op_view(*op)) == ch@.len());
                if ch@.len() >= 1 {
                    assert(ev->Cons_1[0] == expr_view(ch@[0]));
                    assert(crate::expr::ev_wf(expr_view(ch@[0])));
                    assert(ev_renderable(expr_view(ch@[0])));
                }
                if ch@.len() >= 2 {
                    assert(ev->Cons_1[1] == expr_view(ch@[1]));
                    assert(crate::expr::ev_wf(expr_view(ch@[1])));
                    assert(ev_renderable(expr_view(ch@[1])));
                }
            }
            let ghost ev = expr_view(*e);
            match op {
                Op::Plus => {
                    let mut s: String = "(".to_owned();
                    s.append(render_expr(&ch[0]).as_str());
                    s.append(" + ");
                    s.append(render_expr(&ch[1]).as_str());
                    s.append(")");
                    proof {
                        assert(s@ =~= spec_latex_expr(ev));
                    }
                    s
                },
                Op::Minus => {
                    let mut s: String = "(".to_owned();
                    s.append(render_expr(&ch[0]).as_str());
                    s.append(" - ");
                    s.append(render_expr(&ch[1]).as_str());
                    s.append(")");
                    proof {
                        assert(s@ =~= spec_latex_expr(ev));
                    }
                    s
                },
                Op::Mul => {
                    let mut s = render_expr(&ch[0]);
                    s.append(" \\times ");
                    s.append(render_expr(&ch[1]).as_str());
                    proof {
                        assert(s@ =~= spec_latex_expr(ev));
                    }
                    s
                },
                Op::Div => {
                    let mut s: String = "\\frac{".to_owned();
                    s.append(render_expr(&ch[0]).as_str());
                    s.append("}{");
                    s.append(render_expr(&ch[1]).as_str());
                    s.append("}");
                    proof {
                        assert(s@ =~= spec_latex_expr(ev));
                    }
                    s
                },
                Op::Exp => {
                    let mut s = render_expr(&ch[0]);
                    s.append("^{");
                    s.append(render_expr(&ch[1]).as_str());
                    s.append("}");
                    proof {
                        assert(s@ =~= spec_latex_expr(ev));
                    }
                    s
                },
                Op::AddUnit(u) => {
                    let mut s = render_expr(&ch[0]);
                    s.append("\\ ");
                    let us: String = match u {
                        Unit::Base(d) => render_unit_dims(&d.exps),
                        Unit::Custom(_) => String::new(),
                    };
                    s.append(us.as_str());
                    proof {
                        assert(s@ =~= spec_latex_expr(ev));
                    }
                    s
                },
                Op::AddMultiUnit(p, u) => {
                    let mut s = render_expr(&ch[0]);
                    s.append("\\ ");
                    s.append(prefix_abbr_str(*p));
                    let us: String = match u {
                        Unit::Base(d) => render_unit_dims(&d.exps),
                        Unit::Custom(_) => String::new(),
                    };
                    s.append(us.as_str());
                    proof {
                        assert(s@ =~= spec_latex_expr(ev));
                    }
                    s
                },
            }
        },
    }
}

/// Anything the core can render as math text. `to_latex_ext` takes the
/// optional rendering directions; `to_latex` renders with none.
pub trait ToLaTeX {
    /// When the receiver, with these directions, can be rendered.
    spec fn latex_req(&self, args: Option<&FormatArgs>) -> bool;

    /// The characters the rendering produces.
    spec fn latex_spec(&self, args: Option<&FormatArgs>) -> Seq<char>;

    /// Render with the given directions.
    fn to_latex_ext(&self, args: Option<&FormatArgs>) -> (r: LaTeX)
        requires
            self.latex_req(args),
        ensures
            r is Math,
            latex_text(r) == self.latex_spec(args),
    ;

    /// Render with no directions.
    fn to_latex(&self) -> (r: LaTeX)
        requires
            self.latex_req(None),
        ensures
            r is Math,
            latex_text(r) == self.latex_spec(None),
    {
        self.to_latex_ext(None)
    }
}

impl ToLaTeX for Expr {
    /// The tree is well-formed and every literal's unit is `Base`; the
    /// directions are ignored.
    open spec fn latex_req(&self, args: Option<&FormatArgs>) -> bool {
        crate::expr::expr_wf(*self) && ev_renderable(expr_view(*self))
    }

    open spec fn latex_spec(&self, args: Option<&FormatArgs>) -> Seq<char> {
        spec_latex_expr(expr_view(*self))
    }

    fn to_latex_ext(&self, args: Option<&FormatArgs>) -> (r: LaTeX) {
        LaTeX::Math(render_expr(self))
    }
}

impl ToLaTeX for Unit {
    /// Only a `Base` unit renders; a named composite is an unresolved
    /// extension point.
    open spec fn latex_req(&self, args: Option<&FormatArgs>) -> bool {
        *self is Base && crate::unit::unit_wf(*self)
    }

    open spec fn latex_spec(&self, args: Option<&FormatArgs>) -> Seq<char> {
        spec_latex_unit(unit_view(*self)->Base_0)
    }

    fn to_latex_ext(&self, args: Option<&FormatArgs>) -> (r: LaTeX) {
        match self {
            Unit::Base(d) => LaTeX::Math(render_unit_dims(&d.exps)),
            Unit::Custom(_) => vstd::pervasive::unreached(),
        }
    }
}

impl ToLaTeX for Val {
    /// With no directions, any well-formed `Base`-united value renders.
    /// A display hint must name the value's own unit, and the rescaled
    /// magnitude must fit the machine word.
    open spec fn latex_req(&self, args: Option<&FormatArgs>) -> bool {
        &&& val_wf(*self)
        &&& self.unit is Base
        &&& match args {
            None => true,
            Some(FormatArgs::UnitHint { string, value }) => {
                &&& crate::unit::unit_eq(value.unit, self.unit)
                &&& value.pow > i64::MIN
                &&& spec_pow10(-(value.pow as int)) is Some
                &&& spec_rat_mul(self.num, spec_pow10(-(value.pow as int))->Some_0) is Some
            },
        }
    }

    open spec fn latex_spec(&self, args: Option<&FormatArgs>) -> Seq<char> {
        match args {
            None => spec_latex_val_plain(val_view(*self)),
            Some(FormatArgs::UnitHint { string, value }) => spec_latex_val_hint(
                val_view(*self),
                string@,
                value.pow as int,
            ),
        }
    }

    fn to_latex_ext(&self, args: Option<&FormatArgs>) -> (r: LaTeX) {
        match args {
            None => LaTeX::Math(render_val_plain(self)),
            Some(FormatArgs::UnitHint { string, value }) => {
                let p: i64 = -value.pow;
                match crate::val::pow10(p) {
                    Some(t) => match crate::rat::rat_mul(&self.num, &t) {
                        Some(scaled) => {
                            let mut s = rat_str_exec(&scaled);
                            s.append(" \\ ");
                            s.append(string.as_str());
                            proof {
                                assert(s@ =~= spec_latex_val_hint(
                                    val_view(*self),
                                    string@,
                                    value.pow as int,
                                ));
                            }
                            LaTeX::Math(s)
                        },
                        None => vstd::pervasive::unreached(),
                    },
                    None => vstd::pervasive::unreached(),
                }
            },
        }
    }
}

} // verus!
