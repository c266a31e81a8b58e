//! The precedence-climbing expression parser over a generic parse tree.
//!
//! The embedding program lexes source text into `Node` trees whose kinds
//! are the nine grammar node kinds; this module turns an expression node
//! into an `Expr`, a unit-expression node into a `UnitExpr`, and a program
//! node into a statement list. Binding powers: `+`/`-` bind as (1,2),
//! `*`/`/` as (3,4); the postfix unit annotations bind at 9. A chain of
//! equal-precedence operators associates to the left.

use vstd::prelude::*;

use crate::expr::{cons1, cons2, ev_wf, expr_view, op_view, Expr, ExprV, Op, OpV};
use crate::rat::Rat;
use crate::val::ValV;
use crate::statement::{stmt_view, sv_wf, Statement, StatementV};
use crate::unit::{unit_dims, unit_view, Unit, UnitView, NUM_DIMS};
use crate::unit_expr::{
    uev_wf,
    spec_unit_eval, unit_expr_view, unit_expr_wf, unit_of_dims_wf, UnitExpr, UnitExprV, UnitOp,
};

verus! {

/// The nine node kinds of the generic parse tree.
#[derive(Clone, Copy, Debug, PartialEq, Eq, Structural)]
pub enum NodeKind {
    Program,
    Expression,
    Number,
    Ident,
    Operation,
    UnitExpr,
    Unit,
    VarDec,
    PrintExpr,
}

/// A generic parse-tree node: a kind, the matched source text, and the
/// ordered child nodes.
#[derive(Debug, PartialEq)]
pub struct Node {
    pub kind: NodeKind,
    pub text: String,
    pub children: Vec<Node>,
}

/// Why a parse failed. A failure aborts the whole parse: no partial tree
/// is returned.
#[derive(Clone, Copy, Debug, PartialEq, Eq, Structural)]
pub enum ParseError {
    /// An operand that is not a number, identifier or nested expression.
    BadAtom,
    /// An operator token that is none of the recognized operators.
    BadOperator,
    /// An operator with no operand after it, or an empty operand list.
    MissingOperand,
    /// A unit token that neither the symbol table nor the prefix table
    /// resolves.
    UnresolvedUnitSymbol,
    /// A unit exponent that does not fit the machine word.
    Overflow,
    /// A node of the wrong kind where another kind was demanded.
    WrongNode,
    /// The recursion budget ran out. The budget this crate passes is the
    /// node count, which a climb can never exceed, so the parsing
    /// functions promise never to return this.
    Exhausted,
}

/// The size of a node tree: the node itself plus all its descendants.
pub open spec fn node_size(n: Node) -> nat
    decreases n,
{
    1 + nodes_size(n.children@)
}

/// The summed size of a sequence of node trees.
pub open spec fn nodes_size(s: Seq<Node>) -> nat
    decreases s,
{
    if s.len() == 0 {
        0
    } else {
        node_size(s[0]) + nodes_size(s.subrange(1, s.len() as int))
    }
}

/// Every element weighs no more than the whole sequence.
pub proof fn lemma_node_size_le(s: Seq<Node>, i: int)
    requires
        0 <= i < s.len(),
    ensures
        node_size(s[i]) <= nodes_size(s),
    decreases s.len(),
{
    if i > 0 {
        lemma_node_size_le(s.subrange(1, s.len() as int), i - 1);
        assert(s.subrange(1, s.len() as int)[i - 1] == s[i]);
    }
}

/// Character-for-character string equality.
fn str_eq(a: &str, b: &str) -> (r: bool)
    ensures
        r == (a@ == b@),
{
    let n = a.unicode_len();
    if n != b.unicode_len() {
        return false;
    }
    let mut i: usize = 0;
    while i < n
        invariant
            i <= n,
            n == a@.len(),
            n == b@.len(),
            forall|j: int| 0 <= j < i as int ==> a@[j] == b@[j],
        decreases n - i,
    {
        if a.get_char(i) != b.get_char(i) {
            return false;
        }
        i = i + 1;
    }
    proof {
        assert(a@ =~= b@);
    }
    true
}

/// The first position of `c` at or after `i`.
pub open spec fn find_from(s: Seq<char>, c: char, i: int) -> Option<int>
    decreases s.len() - i,
{
    if i < 0 || i >= s.len() {
        None
    } else if s[i] == c {
        Some(i)
    } else {
        find_from(s, c, i + 1)
    }
}

/// Find the first occurrence of a character.
fn find_char(text: &str, c: char) -> (r: Option<usize>)
    ensures
        match r {
            Some(i) => find_from(text@, c, 0) == Some(i as int) && i < text@.len() && text@[
                i as int
            ] == c,
            None => find_from(text@, c, 0) is None,
        },
{
    let n = text.unicode_len();
    let mut i: usize = 0;
    while i < n
        invariant
            i <= n,
            n == text@.len(),
            find_from(text@, c, 0) == find_from(text@, c, i as int),
        decreases n - i,
    {
        if text.get_char(i) == c {
            return Some(i);
        }
        i = i + 1;
    }
    None
}

/// Is this a decimal digit?
pub open spec fn is_digit(c: char) -> bool {
    48 <= (c as u32) <= 57
}

/// The value of a digit.
pub open spec fn digit_val(c: char) -> int {
    (c as u32) - 48
}

/// Every character is a digit.
pub open spec fn all_digits(s: Seq<char>) -> bool {
    forall|i: int| 0 <= i < s.len() ==> is_digit(#[trigger] s[i])
}

/// The value of a digit string, most significant digit first.
pub open spec fn digits_val(s: Seq<char>) -> int
    decreases s.len(),
{
    if s.len() == 0 {
        0
    } else {
        digits_val(s.drop_last()) * 10 + digit_val(s.last())
    }
}

/// Ten to the `n`.
pub open spec fn pow10_int(n: nat) -> int
    decreases n,
{
    if n == 0 {
        1
    } else {
        10 * pow10_int((n - 1) as nat)
    }
}

proof fn lemma_pow10_val()
    ensures
        pow10_int(18) == 1_000_000_000_000_000_000,
        forall|a: nat, b: nat| #![trigger pow10_int(a), pow10_int(b)] a <= b ==> pow10_int(a)
            <= pow10_int(b),
{
    assert(pow10_int(0) == 1);
    assert(pow10_int(1) == 10);
    assert(pow10_int(2) == 100);
    assert(pow10_int(3) == 1000);
    assert(pow10_int(4) == 10000);
    assert(pow10_int(5) == 100000);
    assert(pow10_int(6) == 1000000);
    assert(pow10_int(7) == 10000000);
    assert(pow10_int(8) == 100000000);
    assert(pow10_int(9) == 1000000000);
    assert(pow10_int(10) == 10000000000);
    assert(pow10_int(11) == 100000000000);
    assert(pow10_int(12) == 1000000000000);
    assert(pow10_int(13) == 10000000000000);
    assert(pow10_int(14) == 100000000000000);
    assert(pow10_int(15) == 1000000000000000);
    assert(pow10_int(16) == 10000000000000000);
    assert(pow10_int(17) == 100000000000000000);
    assert(pow10_int(18) == 1000000000000000000);
    assert forall|a: nat, b: nat| #![trigger pow10_int(a), pow10_int(b)] a <= b implies pow10_int(
        a,
    ) <= pow10_int(b) by {
        lemma_pow10_mono(a, b);
    }
}

proof fn lemma_pow10_mono(a: nat, b: nat)
    requires
        a <= b,
    ensures
        1 <= pow10_int(a) <= pow10_int(b),
    decreases b,
{
    if b > 0 {
        if a == b {
            lemma_pow10_mono((a - 1) as nat, (b - 1) as nat);
        } else {
            lemma_pow10_mono(a, (b - 1) as nat);
        }
    }
}

/// Parse the digits of `text` between `from` and `to` into their value.
/// `None` exactly where some character there is not a digit.
fn parse_digits_range(text: &str, from: usize, to: usize) -> (r: Option<u64>)
    requires
        from <= to <= text@.len(),
        to - from <= 18,
    ensures
        match r {
            Some(v) => all_digits(text@.subrange(from as int, to as int)) && v as int
                == digits_val(text@.subrange(from as int, to as int)) && v
                < 1_000_000_000_000_000_000,
            None => !all_digits(text@.subrange(from as int, to as int)),
        },
{
    proof {
        lemma_pow10_val();
    }
    let ghost whole = text@.subrange(from as int, to as int);
    let mut acc: u64 = 0;
    let mut j: usize = from;
    while j < to
        invariant
            from <= j <= to,
            to <= text@.len(),
            to - from <= 18,
            whole == text@.subrange(from as int, to as int),
            acc as int == digits_val(whole.subrange(0, j - from)),
            (acc as int) < pow10_int((j - from) as nat),
            pow10_int(18) == 1_000_000_000_000_000_000,
            forall|a: nat, b: nat| #![trigger pow10_int(a), pow10_int(b)] a <= b ==> pow10_int(a)
                <= pow10_int(b),
            forall|t: int| 0 <= t < j - from ==> is_digit(#[trigger] whole[t]),
        decreases to - j,
    {
        let c = text.get_char(j);
        let cv = c as u32;
        if !(48 <= cv && cv <= 57) {
            proof {
                assert(whole[j - from] == text@[j as int]);
            }
            return None;
        }
        proof {
            assert(pow10_int(((j + 1) - from) as nat) == 10 * pow10_int((j - from) as nat));
            assert(pow10_int((j - from) as nat) <= pow10_int(17)) by {
                assert(((j - from) as nat) <= 17);
            }
            assert(whole.subrange(0, (j + 1) - from).drop_last() =~= whole.subrange(0, j - from));
            assert(whole.subrange(0, (j + 1) - from).last() == whole[j - from]);
            assert(whole[j - from] == text@[j as int]);
        }
        acc = acc * 10 + ((cv - 48) as u64);
        j = j + 1;
    }
    proof {
        assert(whole.subrange(0, to - from) =~= whole);
    }
    Some(acc)
}

/// A number literal: up to eighteen digits, with an optional decimal
/// point between two nonempty digit runs. The value is exact: the digits
/// over ten to the number of fractional digits.
pub open spec fn spec_parse_number(s: Seq<char>) -> Option<Rat> {
    match find_from(s, '.', 0) {
        None => if 1 <= s.len() <= 18 && all_digits(s) {
            Some(Rat { num: digits_val(s) as i64, den: 1 as i64 })
        } else {
            None
        },
        Some(d) => {
            let ip = s.subrange(0, d);
            let fp = s.subrange(d + 1, s.len() as int);
            if ip.len() >= 1 && fp.len() >= 1 && ip.len() + fp.len() <= 18 && all_digits(ip)
                && all_digits(fp) {
                Some(
                    Rat {
                        num: digits_val(ip + fp) as i64,
                        den: pow10_int(fp.len()) as i64,
                    },
                )
            } else {
                None
            }
        },
    }
}

/// Parse a number literal.
pub fn parse_number(text: &str) -> (r: Option<Rat>)
    ensures
        r == spec_parse_number(text@),
        r matches Some(x) ==> crate::rat::rat_wf(x),
{
    proof {
        lemma_pow10_val();
    }
    let n = text.unicode_len();
    match find_char(text, '.') {
        None => {
            if n < 1 || n > 18 {
                return None;
            }
            match parse_digits_range(text, 0, n) {
                Some(v) => {
                    proof {
                        assert(text@.subrange(0, n as int) =~= text@);
                        lemma_digits_val_nonneg(text@);
                    }
                    Some(Rat { num: v as i64, den: 1 })
                },
                None => {
                    proof {
                        assert(text@.subrange(0, n as int) =~= text@);
                    }
                    None
                },
            }
        },
        Some(d) => {
            let ilen = d;
            let flen = n - d - 1;
            if ilen < 1 || flen < 1 || ilen + flen > 18 {
                return None;
            }
            let iv = match parse_digits_range(text, 0, d) {
                Some(v) => v,
                None => {
                    return None;
                },
            };
            let fv = match parse_digits_range(text, d + 1, n) {
                Some(v) => v,
                None => {
                    return None;
                },
            };
            let ghost ip = text@.subrange(0, d as int);
            let ghost fp = text@.subrange(d as int + 1, n as int);
            proof {
                lemma_digits_val_concat(ip, fp);
                lemma_digits_val_nonneg(ip + fp);
                assert(pow10_int(fp.len()) <= pow10_int(17));
                assert((iv as int) * pow10_int(fp.len()) + (fv as int) < pow10_int(18)) by {
                    lemma_concat_bound(ip, fp);
                }
            }
            let mut den: u64 = 1;
            let mut k: usize = 0;
            while k < flen
                invariant
                    k <= flen,
                    flen <= 17,
                    den as int == pow10_int(k as nat),
                    pow10_int(18) == 1_000_000_000_000_000_000,
                    forall|a: nat, b: nat| #![trigger pow10_int(a), pow10_int(b)] a <= b
                        ==> pow10_int(a) <= pow10_int(b),
                decreases flen - k,
            {
                proof {
                    assert(pow10_int((k + 1) as nat) == 10 * pow10_int(k as nat));
                    assert(pow10_int(k as nat) <= pow10_int(16));
                }
                den = den * 10;
                k = k + 1;
            }
            let num: u64 = iv * den + fv;
            proof {
                assert(num as int == digits_val(ip + fp));
                assert(pow10_int(0) == 1);
                assert(den >= 1);
            }
            Some(Rat { num: num as i64, den: den as i64 })
        },
    }
}

/// The value of a digit string is never negative.
proof fn lemma_digits_val_nonneg(s: Seq<char>)
    ensures
        all_digits(s) ==> 0 <= digits_val(s) < pow10_int(s.len()),
    decreases s.len(),
{
    lemma_pow10_val();
    if s.len() > 0 {
        lemma_digits_val_nonneg(s.drop_last());
        assert(all_digits(s) ==> all_digits(s.drop_last())) by {
            if all_digits(s) {
                assert forall|i: int| 0 <= i < s.drop_last().len() implies is_digit(
                    #[trigger] s.drop_last()[i],
                ) by {
                    assert(s.drop_last()[i] == s[i]);
                }
            }
        }
        assert(pow10_int(s.len()) == 10 * pow10_int((s.len() - 1) as nat));
    }
}

/// Concatenating digit runs multiplies the left value by ten to the
/// length of the right run and adds the right value.
proof fn lemma_digits_val_concat(a: Seq<char>, b: Seq<char>)
    ensures
        digits_val(a + b) == digits_val(a) * pow10_int(b.len()) + digits_val(b),
    decreases b.len(),
{
    if b.len() == 0 {
        assert(a + b =~= a);
    } else {
        lemma_digits_val_concat(a, b.drop_last());
        assert((a + b).drop_last() =~= a + b.drop_last());
        assert((a + b).last() == b.last());
        assert(digits_val(a + b) == (digits_val(a) * pow10_int((b.len() - 1) as nat)
            + digits_val(b.drop_last())) * 10 + digit_val(b.last()));
        assert(digits_val(a) * pow10_int((b.len() - 1) as nat) * 10 == digits_val(a) * (10
            * pow10_int((b.len() - 1) as nat))) by (nonlinear_arith);
        assert(pow10_int(b.len()) == 10 * pow10_int((b.len() - 1) as nat));
    }
}

/// The concatenated value stays under ten to the combined length.
proof fn lemma_concat_bound(a: Seq<char>, b: Seq<char>)
    requires
        all_digits(a),
        all_digits(b),
    ensures
        digits_val(a) * pow10_int(b.len()) + digits_val(b) < pow10_int(a.len() + b.len()),
{
    lemma_digits_val_nonneg(a);
    lemma_digits_val_nonneg(b);
    lemma_pow10_mul(a.len(), b.len());
    assert(digits_val(a) * pow10_int(b.len()) <= (pow10_int(a.len()) - 1) * pow10_int(b.len()))
        by (nonlinear_arith)
        requires
            digits_val(a) <= pow10_int(a.len()) - 1,
            pow10_int(b.len()) >= 1,
    ;
    assert((pow10_int(a.len()) - 1) * pow10_int(b.len()) == pow10_int(a.len()) * pow10_int(
        b.len(),
    ) - pow10_int(b.len())) by (nonlinear_arith);
}

/// Powers of ten multiply by adding exponents.
proof fn lemma_pow10_mul(a: nat, b: nat)
    ensures
        pow10_int(a) * pow10_int(b) == pow10_int(a + b),
    decreases b,
{
    if b == 0 {
        assert(pow10_int(a) * 1 == pow10_int(a)) by (nonlinear_arith);
    } else {
        lemma_pow10_mul(a, (b - 1) as nat);
        assert(pow10_int(a) * (10 * pow10_int((b - 1) as nat)) == 10 * (pow10_int(a) * pow10_int(
            (b - 1) as nat,
        ))) by (nonlinear_arith);
        assert(a + b == (a + (b - 1) as nat) + 1);
        assert(pow10_int(a + b) == 10 * pow10_int(a + (b - 1) as nat));
    }
}


/// The exponent vector with a one at slot `d` and zeroes elsewhere.
pub open spec fn unit_seq_for_dim(d: int) -> Seq<Rat> {
    Seq::new(
        NUM_DIMS as nat,
        |i: int|
            if i == d {
                Rat { num: 1 as i64, den: 1 as i64 }
            } else {
                Rat { num: 0 as i64, den: 1 as i64 }
            },
    )
}

/// The all-zero exponent vector: the dimensionless unit.
pub open spec fn zero_dims() -> Seq<Rat> {
    Seq::new(NUM_DIMS as nat, |i: int| Rat { num: 0 as i64, den: 1 as i64 })
}

/// The unit-symbol table: each symbol names a base dimension, possibly at
/// an inherent power-of-ten offset from the base unit (the gram sits three
/// decades under the kilogram).
pub open spec fn spec_resolve_direct(s: Seq<char>) -> Option<(int, int)> {
    if s == "kg"@ {
        Some((0int, 0int))
    } else if s == "g"@ {
        Some((0int, -3int))
    } else if s == "m"@ {
        Some((1int, 0int))
    } else if s == "s"@ {
        Some((2int, 0int))
    } else if s == "A"@ {
        Some((3int, 0int))
    } else if s == "K"@ {
        Some((4int, 0int))
    } else if s == "mol"@ {
        Some((5int, 0int))
    } else if s == "cd"@ {
        Some((6int, 0int))
    } else {
        None
    }
}

/// The metric-prefix table, by power of ten.
pub open spec fn spec_prefix_pow(c: char) -> Option<int> {
    if c == 'n' {
        Some(-9int)
    } else if c == 'u' {
        Some(-6int)
    } else if c == 'm' {
        Some(-3int)
    } else if c == 'c' {
        Some(-2int)
    } else if c == 'd' {
        Some(-1int)
    } else if c == 'k' {
        Some(3int)
    } else if c == 'M' {
        Some(6int)
    } else if c == 'G' {
        Some(9int)
    } else {
        None
    }
}

/// Resolve a unit symbol: first as a whole symbol, else as a recognized
/// prefix followed by a symbol. The result is the base dimension and the
/// total power-of-ten offset.
pub open spec fn spec_resolve_sym(s: Seq<char>) -> Option<(int, int)> {
    match spec_resolve_direct(s) {
        Some(r) => Some(r),
        None => if s.len() >= 2 {
            match spec_prefix_pow(s[0]) {
                Some(p) => match spec_resolve_direct(s.subrange(1, s.len() as int)) {
                    Some((d, q)) => Some((d, p + q)),
                    None => None,
                },
                None => None,
            }
        } else {
            None
        },
    }
}

/// A signed integer of at most three digits, as a unit exponent.
pub open spec fn spec_parse_sint(s: Seq<char>) -> Option<int> {
    if s.len() >= 1 && s[0] == '-' {
        let ds = s.subrange(1, s.len() as int);
        if 1 <= ds.len() <= 3 && all_digits(ds) {
            Some(-digits_val(ds))
        } else {
            None
        }
    } else if 1 <= s.len() <= 3 && all_digits(s) {
        Some(digits_val(s))
    } else {
        None
    }
}

/// Resolve a whole unit token `symbol` or `symbol^exponent` to its
/// exponent vector, power-of-ten offset, and written exponent.
pub open spec fn spec_resolve_token(s: Seq<char>) -> Option<(Seq<Rat>, int, int)> {
    match find_from(s, '^', 0) {
        None => match spec_resolve_sym(s) {
            Some((d, p)) => Some((unit_seq_for_dim(d), p, 1int)),
            None => None,
        },
        Some(ci) => match spec_parse_sint(s.subrange(ci + 1, s.len() as int)) {
            None => None,
            Some(e) => match spec_resolve_sym(s.subrange(0, ci)) {
                Some((d, p)) => Some((unit_seq_for_dim(d), p, e)),
                None => None,
            },
        },
    }
}

/// Exec half of the symbol table.
fn resolve_direct(text: &str) -> (r: Option<(usize, i64)>)
    ensures
        match r {
            Some((d, p)) => spec_resolve_direct(text@) == Some((d as int, p as int)) && d
                < NUM_DIMS,
            None => spec_resolve_direct(text@) is None,
        },
{
    if str_eq(text, "kg") {
        Some((0, 0))
    } else if str_eq(text, "g") {
        Some((0, -3))
    } else if str_eq(text, "m") {
        Some((1, 0))
    } else if str_eq(text, "s") {
        Some((2, 0))
    } else if str_eq(text, "A") {
        Some((3, 0))
    } else if str_eq(text, "K") {
        Some((4, 0))
    } else if str_eq(text, "mol") {
        Some((5, 0))
    } else if str_eq(text, "cd") {
        Some((6, 0))
    } else {
        None
    }
}

/// Exec half of the prefix table.
fn prefix_pow_of(c: char) -> (r: Option<i64>)
    ensures
        match r {
            Some(p) => spec_prefix_pow(c) == Some(p as int),
            None => spec_prefix_pow(c) is None,
        },
{
    if c == 'n' {
        Some(-9)
    } else if c == 'u' {
        Some(-6)
    } else if c == 'm' {
        Some(-3)
    } else if c == 'c' {
        Some(-2)
    } else if c == 'd' {
        Some(-1)
    } else if c == 'k' {
        Some(3)
    } else if c == 'M' {
        Some(6)
    } else if c == 'G' {
        Some(9)
    } else {
        None
    }
}

/// Exec symbol resolution, whole symbol first, then prefix plus symbol.
fn resolve_sym(text: &str) -> (r: Option<(usize, i64)>)
    ensures
        match r {
            Some((d, p)) => spec_resolve_sym(text@) == Some((d as int, p as int)) && d < NUM_DIMS,
            None => spec_resolve_sym(text@) is None,
        },
{
    match resolve_direct(text) {
        Some(r) => Some(r),
        None => {
            let n = text.unicode_len();
            if n >= 2 {
                let c = text.get_char(0);
                let rest = text.substring_char(1, n);
                match prefix_pow_of(c) {
                    Some(p) => match resolve_direct(rest) {
                        Some((d, q)) => Some((d, p + q)),
                        None => None,
                    },
                    None => None,
                }
            } else {
                None
            }
        },
    }
}

/// Exec signed-exponent parsing.
fn parse_sint(text: &str) -> (r: Option<i64>)
    ensures
        match r {
            Some(v) => spec_parse_sint(text@) == Some(v as int),
            None => spec_parse_sint(text@) is None,
        },
{
    let n = text.unicode_len();
    if n >= 1 && text.get_char(0) == '-' {
        if n < 2 || n > 4 {
            return None;
        }
        match parse_digits_range(text, 1, n) {
            Some(v) => Some(-(v as i64)),
            None => None,
        }
    } else {
        if n < 1 || n > 3 {
            return None;
        }
        match parse_digits_range(text, 0, n) {
            Some(v) => {
                proof {
                    assert(text@.subrange(0, n as int) =~= text@);
                }
                Some(v as i64)
            },
            None => {
                proof {
                    assert(text@.subrange(0, n as int) =~= text@);
                }
                None
            },
        }
    }
}

/// Build the unit whose exponent vector has a one at slot `d`.
fn unit_for_dim(d: usize) -> (u: Unit)
    requires
        d < NUM_DIMS,
    ensures
        unit_of_dims_wf(u),
        unit_dims(u).exps@ == unit_seq_for_dim(d as int),
{
    let mut exps: Vec<Rat> = Vec::new();
    let mut i: usize = 0;
    while i < NUM_DIMS
        invariant
            i <= NUM_DIMS,
            d < NUM_DIMS,
            exps@.len() == i,
            forall|j: int| 0 <= j < i as int ==> #[trigger] exps@[j] == unit_seq_for_dim(
                d as int,
            )[j],
        decreases NUM_DIMS - i,
    {
        if i == d {
            exps.push(Rat { num: 1, den: 1 });
        } else {
            exps.push(Rat { num: 0, den: 1 });
        }
        i = i + 1;
    }
    proof {
        assert(exps@ =~= unit_seq_for_dim(d as int));
    }
    Unit::Base(crate::unit::DimVec { exps })
}

/// Resolve a unit token to its unit, power-of-ten offset, and exponent.
pub fn resolve_unit_token(text: &str) -> (r: Option<(Unit, i64, i64)>)
    ensures
        match r {
            Some((u, p, e)) => unit_of_dims_wf(u) && spec_resolve_token(text@) == Some(
                (unit_dims(u).exps@, p as int, e as int),
            ),
            None => spec_resolve_token(text@) is None,
        },
{
    let n = text.unicode_len();
    match find_char(text, '^') {
        None => match resolve_sym(text) {
            Some((d, p)) => {
                let u = unit_for_dim(d);
                Some((u, p, 1))
            },
            None => None,
        },
        Some(ci) => {
            let sym = text.substring_char(0, ci);
            let ep = text.substring_char(ci + 1, n);
            match parse_sint(ep) {
                None => None,
                Some(e) => match resolve_sym(sym) {
                    Some((d, p)) => {
                        let u = unit_for_dim(d);
                        Some((u, p, e))
                    },
                    None => None,
                },
            }
        },
    }
}

/// Parse the children of a unit-expression node into the right-leaning
/// operator chain: one unit atom, then optionally an operator and the
/// parsed remainder. A nested unit expression is evaluated eagerly into a
/// degree-one atom.
pub open spec fn spec_parse_unit_chain(ch: Seq<Node>, i: int) -> Result<UnitExprV, ParseError>
    decreases nodes_size(ch), ch.len() - i,
    via spec_parse_unit_chain_dec
{
    if i < 0 || i >= ch.len() {
        Err(ParseError::MissingOperand)
    } else {
        let atom: Result<UnitExprV, ParseError> = if ch[i].kind == NodeKind::Unit {
            match spec_resolve_token(ch[i].text@) {
                Some((dims, _p, e)) => Ok(UnitExprV::Atom(UnitView::Base(dims), e as i64)),
                None => Err(ParseError::UnresolvedUnitSymbol),
            }
        } else if ch[i].kind == NodeKind::UnitExpr {
            match spec_parse_unit_chain(ch[i].children@, 0) {
                Ok(ue) => match spec_unit_eval(ue) {
                    Some(dims) => Ok(UnitExprV::Atom(UnitView::Base(dims), 1 as i64)),
                    None => Err(ParseError::Overflow),
                },
                Err(e) => Err(e),
            }
        } else {
            Err(ParseError::BadAtom)
        };
        match atom {
            Err(e) => Err(e),
            Ok(a) => if i + 1 >= ch.len() {
                Ok(a)
            } else {
                let opn = ch[i + 1];
                if opn.kind == NodeKind::Operation && opn.text@ == "*"@ {
                    match spec_parse_unit_chain(ch, i + 2) {
                        Ok(rest) => Ok(UnitExprV::Cons(UnitOp::Mul, Box::new(a), Box::new(rest))),
                        Err(e) => Err(e),
                    }
                } else if opn.kind == NodeKind::Operation && opn.text@ == "/"@ {
                    match spec_parse_unit_chain(ch, i + 2) {
                        Ok(rest) => Ok(UnitExprV::Cons(UnitOp::Div, Box::new(a), Box::new(rest))),
                        Err(e) => Err(e),
                    }
                } else {
                    Err(ParseError::BadOperator)
                }
            },
        }
    }
}

#[via_fn]
proof fn spec_parse_unit_chain_dec(ch: Seq<Node>, i: int) {
    if 0 <= i && i < ch.len() {
        lemma_node_size_le(ch, i);
        assert(node_size(ch[i]) == 1 + nodes_size(ch[i].children@));
    }
}

/// Exec unit-chain parsing.
fn parse_unit_chain(ch: &Vec<Node>, i: usize) -> (r: Result<UnitExpr, ParseError>)
    ensures
        match r {
            Ok(ue) => unit_expr_wf(ue) && spec_parse_unit_chain(ch@, i as int) == Ok::<
                UnitExprV,
                ParseError,
            >(unit_expr_view(ue)),
            Err(e) => spec_parse_unit_chain(ch@, i as int) == Err::<UnitExprV, ParseError>(e)
                && e != ParseError::Exhausted,
        },
    decreases nodes_size(ch@), ch@.len() - i,
{
    if i >= ch.len() {
        return Err(ParseError::MissingOperand);
    }
    let n = &ch[i];
    let atom: UnitExpr = match n.kind {
        NodeKind::Unit => {
            match resolve_unit_token(n.text.as_str()) {
                Some((u, _p, e)) => {
                    proof {
                        assert(unit_view(u) == UnitView::Base(unit_dims(u).exps@));
                    }
                    UnitExpr::Atom(u, e)
                },
                None => {
                    return Err(ParseError::UnresolvedUnitSymbol);
                },
            }
        },
        NodeKind::UnitExpr => {
            proof {
                lemma_node_size_le(ch@, i as int);
                assert(node_size(ch@[i as int]) == 1 + nodes_size(ch@[i as int].children@));
            }
            match parse_unit_chain(&n.children, 0) {
                Ok(ue) => match ue.eval() {
                    Some(u) => {
                        proof {
                            assert(unit_view(u) == UnitView::Base(unit_dims(u).exps@));
                        }
                        UnitExpr::Atom(u, 1)
                    },
                    None => {
                        return Err(ParseError::Overflow);
                    },
                },
                Err(e) => {
                    return Err(e);
                },
            }
        },
        _ => {
            return Err(ParseError::BadAtom);
        },
    };
    let ghost av = unit_expr_view(atom);
    proof {
        assert(uev_wf(av));
    }
    if i + 1 >= ch.len() {
        return Ok(atom);
    }
    let opn = &ch[i + 1];
    let is_op = match opn.kind {
        NodeKind::Operation => true,
        _ => false,
    };
    if is_op && str_eq(opn.text.as_str(), "*") {
        match parse_unit_chain(ch, i + 2) {
            Ok(rest) => {
                let ghost rv = unit_expr_view(rest);
                let res = UnitExpr::Cons(UnitOp::Mul, Box::new(atom), Box::new(rest));
                proof {
                    assert(unit_expr_view(res) == UnitExprV::Cons(
                        UnitOp::Mul,
                        Box::new(av),
                        Box::new(rv),
                    ));
                    assert(uev_wf(unit_expr_view(res)));
                }
                Ok(res)
            },
            Err(e) => Err(e),
        }
    } else if is_op && str_eq(opn.text.as_str(), "/") {
        match parse_unit_chain(ch, i + 2) {
            Ok(rest) => {
                let ghost rv = unit_expr_view(rest);
                let res = UnitExpr::Cons(UnitOp::Div, Box::new(atom), Box::new(rest));
                proof {
                    assert(unit_expr_view(res) == UnitExprV::Cons(
                        UnitOp::Div,
                        Box::new(av),
                        Box::new(rv),
                    ));
                    assert(uev_wf(unit_expr_view(res)));
                }
                Ok(res)
            },
            Err(e) => Err(e),
        }
    } else {
        Err(ParseError::BadOperator)
    }
}

/// Parse a unit-expression node.
pub open spec fn spec_parse_unit_expr(n: Node) -> Result<UnitExprV, ParseError> {
    if n.kind != NodeKind::UnitExpr {
        Err(ParseError::WrongNode)
    } else {
        spec_parse_unit_chain(n.children@, 0)
    }
}

/// Turn a unit-expression parse-tree node into a `UnitExpr`.
pub fn parse_unit_expr(r: &Node) -> (out: Result<UnitExpr, ParseError>)
    ensures
        match out {
            Ok(ue) => unit_expr_wf(ue) && spec_parse_unit_expr(*r) == Ok::<UnitExprV, ParseError>(
                unit_expr_view(ue),
            ),
            Err(e) => spec_parse_unit_expr(*r) == Err::<UnitExprV, ParseError>(e) && e
                != ParseError::Exhausted,
        },
{
    let is_ue = match r.kind {
        NodeKind::UnitExpr => true,
        _ => false,
    };
    if !is_ue {
        return Err(ParseError::WrongNode);
    }
    parse_unit_chain(&r.children, 0)
}


/// Classify the token at an operator position: an operation node is one
/// of the four infix operators; a unit-expression node is a postfix unit
/// annotation, prefixed (rescaling by its power of ten) where it is a
/// single token carrying a recognized metric prefix.
pub open spec fn spec_op_of(n: Node) -> Result<OpV, ParseError> {
    if n.kind == NodeKind::Operation {
        if n.text@ == "+"@ {
            Ok(OpV::Plus)
        } else if n.text@ == "-"@ {
            Ok(OpV::Minus)
        } else if n.text@ == "*"@ {
            Ok(OpV::Mul)
        } else if n.text@ == "/"@ {
            Ok(OpV::Div)
        } else {
            Err(ParseError::BadOperator)
        }
    } else if n.kind == NodeKind::UnitExpr {
        match spec_parse_unit_chain(n.children@, 0) {
            Err(e) => Err(e),
            Ok(ue) => match spec_unit_eval(ue) {
                None => Err(ParseError::Overflow),
                Some(dims) => if n.children@.len() == 1 && n.children@[0].kind == NodeKind::Unit {
                    match spec_resolve_token(n.children@[0].text@) {
                        Some((_d, p, _e)) => if p != 0 {
                            Ok(OpV::AddMultiUnit(p as i64, UnitView::Base(dims)))
                        } else {
                            Ok(OpV::AddUnit(UnitView::Base(dims)))
                        },
                        None => Err(ParseError::UnresolvedUnitSymbol),
                    }
                } else {
                    Ok(OpV::AddUnit(UnitView::Base(dims)))
                },
            },
        }
    } else {
        Err(ParseError::BadOperator)
    }
}

/// Exec operator classification.
fn op_of(n: &Node) -> (r: Result<Op, ParseError>)
    ensures
        match r {
            Ok(o) => spec_op_of(*n) == Ok::<OpV, ParseError>(op_view(o)) && crate::expr::opv_wf(
                op_view(o),
            ) && !(op_view(o) is Exp),
            Err(e) => spec_op_of(*n) == Err::<OpV, ParseError>(e) && e
                != ParseError::Exhausted,
        },
{
    match n.kind {
        NodeKind::Operation => {
            if str_eq(n.text.as_str(), "+") {
                Ok(Op::Plus)
            } else if str_eq(n.text.as_str(), "-") {
                Ok(Op::Minus)
            } else if str_eq(n.text.as_str(), "*") {
                Ok(Op::Mul)
            } else if str_eq(n.text.as_str(), "/") {
                Ok(Op::Div)
            } else {
                Err(ParseError::BadOperator)
            }
        },
        NodeKind::UnitExpr => {
            let ue = match parse_unit_chain(&n.children, 0) {
                Ok(ue) => ue,
                Err(e) => {
                    return Err(e);
                },
            };
            let u = match ue.eval() {
                Some(u) => u,
                None => {
                    return Err(ParseError::Overflow);
                },
            };
            proof {
                assert(unit_view(u) == UnitView::Base(unit_dims(u).exps@));
            }
            if n.children.len() == 1 {
                let only_unit = match n.children[0].kind {
                    NodeKind::Unit => true,
                    _ => false,
                };
                if only_unit {
                    match resolve_unit_token(n.children[0].text.as_str()) {
                        Some((_du, p, _e)) => {
                            if p != 0 {
                                Ok(Op::AddMultiUnit(p, u))
                            } else {
                                Ok(Op::AddUnit(u))
                            }
                        },
                        None => Err(ParseError::UnresolvedUnitSymbol),
                    }
                } else {
                    Ok(Op::AddUnit(u))
                }
            } else {
                Ok(Op::AddUnit(u))
            }
        },
        _ => Err(ParseError::BadOperator),
    }
}

/// Binding power of a postfix operator: the unit annotations bind at 9.
pub open spec fn spec_postfix_bp(o: OpV) -> Option<int> {
    match o {
        OpV::AddUnit(_) => Some(9int),
        OpV::AddMultiUnit(_, _) => Some(9int),
        _ => None,
    }
}

/// Binding powers of an infix operator: `+`/`-` bind as (1,2), `*`/`/`
/// as (3,4).
pub open spec fn spec_infix_bp(o: OpV) -> (int, int) {
    match o {
        OpV::Plus => (1int, 2int),
        OpV::Minus => (1int, 2int),
        OpV::Mul => (3int, 4int),
        OpV::Div => (3int, 4int),
        _ => (0int, 0int),
    }
}

/// Postfix binding power of an operator, if it is postfix.
pub fn postfix_binding_power(op: &Op) -> (r: Option<(u8, ())>)
    ensures
        match r {
            Some(b) => spec_postfix_bp(op_view(*op)) == Some(b.0 as int),
            None => spec_postfix_bp(op_view(*op)) is None,
        },
{
    match op {
        Op::AddUnit(_) => Some((9, ())),
        Op::AddMultiUnit(_, _) => Some((9, ())),
        _ => None,
    }
}

/// Infix binding powers of one of the four infix operators.
pub fn infix_binding_power(op: &Op) -> (r: (u8, u8))
    requires
        op is Plus || op is Minus || op is Mul || op is Div,
    ensures
        (r.0 as int, r.1 as int) == spec_infix_bp(op_view(*op)),
{
    match op {
        Op::Plus => (1, 2),
        Op::Minus => (1, 2),
        Op::Mul => (3, 4),
        Op::Div => (3, 4),
        _ => (0, 0),
    }
}

/// Parse one operand and then climb: parse an atom at `i` (a number, an
/// identifier, or a nested expression), then absorb operators that bind
/// at least as tightly as `minbp`.
pub open spec fn spec_parse_bp(ch: Seq<Node>, i: int, minbp: int, fuel: nat) -> Result<
    (ExprV, int),
    ParseError,
>
    decreases nodes_size(ch), fuel, ch.len() - i, 1int,
    via spec_parse_bp_dec
{
    if i < 0 || i >= ch.len() {
        Err(ParseError::MissingOperand)
    } else {
        let n = ch[i];
        if n.kind == NodeKind::Number {
            match spec_parse_number(n.text@) {
                Some(x) => spec_climb(
                    ch,
                    i + 1,
                    minbp,
                    ExprV::Atom(ValV { num: x, unit: UnitView::Base(zero_dims()) }),
                    fuel,
                ),
                None => Err(ParseError::BadAtom),
            }
        } else if n.kind == NodeKind::Ident {
            spec_climb(ch, i + 1, minbp, ExprV::Ident(n.text@), fuel)
        } else if n.kind == NodeKind::Expression {
            match spec_parse_expr_node(n) {
                Ok(ev) => spec_climb(ch, i + 1, minbp, ev, fuel),
                Err(e) => Err(e),
            }
        } else {
            Err(ParseError::BadAtom)
        }
    }
}

#[via_fn]
proof fn spec_parse_bp_dec(ch: Seq<Node>, i: int, minbp: int, fuel: nat) {
    if 0 <= i && i < ch.len() {
        lemma_node_size_le(ch, i);
        assert(node_size(ch[i]) == 1 + nodes_size(ch[i].children@));
    }
}

/// Absorb operators: a postfix annotation wraps the left-hand side; an
/// infix operator parses its right-hand side at its right binding power
/// and builds a binary node, which makes equal-precedence chains
/// left-associative. Stop at the first operator that binds too loosely.
pub open spec fn spec_climb(ch: Seq<Node>, i: int, minbp: int, lhs: ExprV, fuel: nat) -> Result<
    (ExprV, int),
    ParseError,
>
    decreases nodes_size(ch), fuel, ch.len() - i, 0int,
{
    if i < 0 || i >= ch.len() {
        Ok((lhs, i))
    } else {
        match spec_op_of(ch[i]) {
            Err(e) => Err(e),
            Ok(opv) => match spec_postfix_bp(opv) {
                Some(lbp) => if lbp < minbp {
                    Ok((lhs, i))
                } else {
                    spec_climb(ch, i + 1, minbp, ExprV::Cons(opv, seq![lhs]), fuel)
                },
                None => {
                    let bps = spec_infix_bp(opv);
                    if bps.0 < minbp {
                        Ok((lhs, i))
                    } else if fuel == 0 {
                        Err(ParseError::Exhausted)
                    } else {
                        match spec_parse_bp(ch, i + 1, bps.1, (fuel - 1) as nat) {
                            Err(e) => Err(e),
                            Ok((rhs, j)) => spec_climb(
                                ch,
                                j,
                                minbp,
                                ExprV::Cons(opv, seq![lhs, rhs]),
                                (fuel - 1) as nat,
                            ),
                        }
                    }
                },
            },
        }
    }
}

/// Parse an expression node: climb its children from the start with the
/// loosest minimum binding power. The recursion budget is the child
/// count, which a climb never exhausts.
pub open spec fn spec_parse_expr_node(n: Node) -> Result<ExprV, ParseError>
    decreases node_size(n), 0nat, 0int, 0int,
{
    if n.kind != NodeKind::Expression {
        Err(ParseError::WrongNode)
    } else {
        match spec_parse_bp(n.children@, 0, 0, n.children@.len() as nat) {
            Ok((e, _j)) => Ok(e),
            Err(e) => Err(e),
        }
    }
}

/// Exec counterpart of `spec_parse_bp`.
fn parse_bp(ch: &Vec<Node>, i: usize, minbp: u8, fuel: usize) -> (r: Result<
    (Expr, usize),
    ParseError,
>)
    requires
        i <= ch@.len(),
        fuel + i >= ch@.len(),
    ensures
        match r {
            Ok(p) => spec_parse_bp(ch@, i as int, minbp as int, fuel as nat) == Ok::<
                (ExprV, int),
                ParseError,
            >((expr_view(p.0), p.1 as int)) && ev_wf(expr_view(p.0)) && i < p.1 <= ch@.len(),
            Err(e) => spec_parse_bp(ch@, i as int, minbp as int, fuel as nat) == Err::<
                (ExprV, int),
                ParseError,
            >(e) && e != ParseError::Exhausted,
        },
    decreases nodes_size(ch@), fuel, ch@.len() - i, 1int,
{
    if i >= ch.len() {
        return Err(ParseError::MissingOperand);
    }
    let n = &ch[i];
    match n.kind {
        NodeKind::Number => match parse_number(n.text.as_str()) {
            Some(x) => {
                let atom = Expr::Atom(crate::val::Val { num: x, unit: Unit::empty() });
                proof {
                    assert(unit_view(atom->Atom_0.unit)->Base_0 =~= zero_dims());
                }
                climb(ch, i + 1, minbp, atom, fuel)
            },
            None => Err(ParseError::BadAtom),
        },
        NodeKind::Ident => climb(ch, i + 1, minbp, Expr::Ident(n.text.clone()), fuel),
        NodeKind::Expression => {
            proof {
                lemma_node_size_le(ch@, i as int);
                assert(node_size(ch@[i as int]) == 1 + nodes_size(ch@[i as int].children@));
            }
            match parse_expr(n) {
                Ok(e) => climb(ch, i + 1, minbp, e, fuel),
                Err(e) => Err(e),
            }
        },
        _ => Err(ParseError::BadAtom),
    }
}

/// Exec counterpart of `spec_climb`.
fn climb(ch: &Vec<Node>, i: usize, minbp: u8, lhs: Expr, fuel: usize) -> (r: Result<
    (Expr, usize),
    ParseError,
>)
    requires
        ev_wf(expr_view(lhs)),
        i <= ch@.len(),
        fuel + i >= ch@.len(),
    ensures
        match r {
            Ok(p) => spec_climb(ch@, i as int, minbp as int, expr_view(lhs), fuel as nat) == Ok::<
                (ExprV, int),
                ParseError,
            >((expr_view(p.0), p.1 as int)) && ev_wf(expr_view(p.0)) && i <= p.1 <= ch@.len(),
            Err(e) => spec_climb(ch@, i as int, minbp as int, expr_view(lhs), fuel as nat)
                == Err::<(ExprV, int), ParseError>(e) && e != ParseError::Exhausted,
        },
    decreases nodes_size(ch@), fuel, ch@.len() - i, 0int,
{
    if i >= ch.len() {
        return Ok((lhs, i));
    }
    let op = match op_of(&ch[i]) {
        Ok(o) => o,
        Err(e) => {
            return Err(e);
        },
    };
    match postfix_binding_power(&op) {
        Some((lbp, _unit_arg)) => {
            if lbp < minbp {
                return Ok((lhs, i));
            }
            let ghost lhsv = expr_view(lhs);
            let ghost opv = op_view(op);
            let wrapped = cons1(op, lhs);
            proof {
                assert(ev_wf(expr_view(wrapped))) by {
                    assert(seq![lhsv][0] == lhsv);
                }
            }
            climb(ch, i + 1, minbp, wrapped, fuel)
        },
        None => {
            let bps = infix_binding_power(&op);
            if bps.0 < minbp {
                return Ok((lhs, i));
            }
            if fuel == 0 {
                return Err(ParseError::Exhausted);
            }
            match parse_bp(ch, i + 1, bps.1, fuel - 1) {
                Err(e) => Err(e),
                Ok((rhs, j)) => {
                    let ghost lhsv = expr_view(lhs);
                    let ghost rhsv = expr_view(rhs);
                    let node = cons2(op, lhs, rhs);
                    proof {
                        assert(ev_wf(expr_view(node))) by {
                            assert(seq![lhsv, rhsv][0] == lhsv);
                            assert(seq![lhsv, rhsv][1] == rhsv);
                        }
                    }
                    climb(ch, j, minbp, node, fuel - 1)
                },
            }
        },
    }
}

/// Turn an expression parse-tree node into an `Expr` by precedence
/// climbing.
pub fn parse_expr(r: &Node) -> (out: Result<Expr, ParseError>)
    ensures
        match out {
            Ok(e) => spec_parse_expr_node(*r) == Ok::<ExprV, ParseError>(expr_view(e)) && ev_wf(
                expr_view(e),
            ),
            Err(e) => spec_parse_expr_node(*r) == Err::<ExprV, ParseError>(e) && e
                != ParseError::Exhausted,
        },
    decreases node_size(*r), 0nat, 0int, 0int,
{
    let is_expr = match r.kind {
        NodeKind::Expression => true,
        _ => false,
    };
    if !is_expr {
        return Err(ParseError::WrongNode);
    }
    match parse_bp(&r.children, 0, 0, r.children.len()) {
        Ok(p) => Ok(p.0),
        Err(e) => Err(e),
    }
}


/// Parse a variable-declaration node: the first child names the variable,
/// the second holds its expression.
pub open spec fn spec_parse_var_dec(n: Node) -> Result<StatementV, ParseError> {
    if n.kind != NodeKind::VarDec {
        Err(ParseError::WrongNode)
    } else if n.children@.len() < 2 {
        Err(ParseError::MissingOperand)
    } else {
        match spec_parse_expr_node(n.children@[1]) {
            Ok(e) => Ok(StatementV::VarDec { lhs: n.children@[0].text@, rhs: e }),
            Err(e) => Err(e),
        }
    }
}

/// Turn a variable-declaration node into a statement.
pub fn parse_var_dec(r: &Node) -> (out: Result<Statement, ParseError>)
    ensures
        match out {
            Ok(s) => spec_parse_var_dec(*r) == Ok::<StatementV, ParseError>(stmt_view(s))
                && sv_wf(stmt_view(s)),
            Err(e) => spec_parse_var_dec(*r) == Err::<StatementV, ParseError>(e) && e
                != ParseError::Exhausted,
        },
{
    let is_vd = match r.kind {
        NodeKind::VarDec => true,
        _ => false,
    };
    if !is_vd {
        return Err(ParseError::WrongNode);
    }
    if r.children.len() < 2 {
        return Err(ParseError::MissingOperand);
    }
    match parse_expr(&r.children[1]) {
        Ok(e) => Ok(Statement::VarDec { lhs: r.children[0].text.clone(), rhs: e }),
        Err(e) => Err(e),
    }
}

/// Parse a print-statement node: its child is the printed expression,
/// whose source text is kept for display.
pub open spec fn spec_parse_print_stmt(n: Node) -> Result<StatementV, ParseError> {
    if n.kind != NodeKind::PrintExpr {
        Err(ParseError::WrongNode)
    } else if n.children@.len() < 1 {
        Err(ParseError::MissingOperand)
    } else {
        match spec_parse_expr_node(n.children@[0]) {
            Ok(e) => Ok(StatementV::PrintExpr { string: n.children@[0].text@, parsed: e }),
            Err(e) => Err(e),
        }
    }
}

/// Turn a print-statement node into a statement.
pub fn parse_print_stmt(r: &Node) -> (out: Result<Statement, ParseError>)
    ensures
        match out {
            Ok(s) => spec_parse_print_stmt(*r) == Ok::<StatementV, ParseError>(stmt_view(s))
                && sv_wf(stmt_view(s)),
            Err(e) => spec_parse_print_stmt(*r) == Err::<StatementV, ParseError>(e) && e
                != ParseError::Exhausted,
        },
{
    let is_pe = match r.kind {
        NodeKind::PrintExpr => true,
        _ => false,
    };
    if !is_pe {
        return Err(ParseError::WrongNode);
    }
    if r.children.len() < 1 {
        return Err(ParseError::MissingOperand);
    }
    match parse_expr(&r.children[0]) {
        Ok(e) => Ok(Statement::PrintExpr { string: r.children[0].text.clone(), parsed: e }),
        Err(e) => Err(e),
    }
}

/// Parse one statement node of a program.
pub open spec fn spec_parse_stmt_node(n: Node) -> Result<StatementV, ParseError> {
    if n.kind == NodeKind::Expression {
        match spec_parse_expr_node(n) {
            Ok(e) => Ok(StatementV::ExprStmt { string: n.text@, parsed: e }),
            Err(e) => Err(e),
        }
    } else if n.kind == NodeKind::VarDec {
        spec_parse_var_dec(n)
    } else if n.kind == NodeKind::PrintExpr {
        spec_parse_print_stmt(n)
    } else {
        Err(ParseError::WrongNode)
    }
}

/// Parse the first `i` statement nodes, left to right: the first failure
/// aborts the whole parse.
pub open spec fn spec_parse_block_upto(s: Seq<Node>, i: int) -> Result<Seq<StatementV>, ParseError>
    decreases i,
{
    if i <= 0 {
        Ok(Seq::empty())
    } else {
        match spec_parse_block_upto(s, i - 1) {
            Err(e) => Err(e),
            Ok(pre) => match spec_parse_stmt_node(s[i - 1]) {
                Ok(st) => Ok(pre.push(st)),
                Err(e) => Err(e),
            },
        }
    }
}

/// Parse a program node into its statement list.
pub open spec fn spec_parse_block(n: Node) -> Result<Seq<StatementV>, ParseError> {
    if n.kind != NodeKind::Program {
        Err(ParseError::WrongNode)
    } else {
        spec_parse_block_upto(n.children@, n.children@.len() as int)
    }
}

/// Once a prefix fails to parse, the whole program fails the same way.
proof fn lemma_block_err(s: Seq<Node>, i: int, j: int, e: ParseError)
    requires
        0 <= i <= j,
        spec_parse_block_upto(s, i) == Err::<Seq<StatementV>, ParseError>(e),
    ensures
        spec_parse_block_upto(s, j) == Err::<Seq<StatementV>, ParseError>(e),
    decreases j - i,
{
    if i < j {
        lemma_block_err(s, i + 1, j, e);
    }
}

/// The views of a statement list.
pub open spec fn stmts_view(s: Seq<Statement>) -> Seq<StatementV> {
    Seq::new(
        s.len(),
        |i: int|
            if 0 <= i < s.len() {
                stmt_view(s[i])
            } else {
                StatementV::ExprStmt { string: Seq::empty(), parsed: ExprV::Ident(Seq::empty()) }
            },
    )
}

/// Turn a program node into its statement list. Statements parse in
/// order and the first failure aborts the whole parse: no partial list
/// is returned.
pub fn parse_block(r: &Node) -> (out: Result<Vec<Statement>, ParseError>)
    ensures
        match out {
            Ok(v) => spec_parse_block(*r) == Ok::<Seq<StatementV>, ParseError>(stmts_view(v@))
                && forall|i: int| 0 <= i < v@.len() ==> sv_wf(#[trigger] stmts_view(v@)[i]),
            Err(e) => spec_parse_block(*r) == Err::<Seq<StatementV>, ParseError>(e) && e
                != ParseError::Exhausted,
        },
{
    let is_prog = match r.kind {
        NodeKind::Program => true,
        _ => false,
    };
    if !is_prog {
        return Err(ParseError::WrongNode);
    }
    let ch = &r.children;
    let n = ch.len();
    let mut out: Vec<Statement> = Vec::new();
    proof {
        assert(stmts_view(out@) =~= Seq::<StatementV>::empty());
    }
    let mut i: usize = 0;
    while i < n
        invariant
            i <= n,
            n == ch@.len(),
            r.kind == NodeKind::Program,
            ch@ == r.children@,
            out@.len() == i,
            spec_parse_block_upto(ch@, i as int) == Ok::<Seq<StatementV>, ParseError>(
                stmts_view(out@),
            ),
            forall|j: int| 0 <= j < out@.len() ==> sv_wf(#[trigger] stmts_view(out@)[j]),
        decreases n - i,
    {
        let ghost prev = stmts_view(out@);
        let node = &ch[i];
        let st: Statement = match node.kind {
            NodeKind::Expression => match parse_expr(node) {
                Ok(e) => Statement::ExprStmt { string: node.text.clone(), parsed: e },
                Err(e) => {
                    proof {
                        lemma_block_err(ch@, i as int + 1, n as int, e);
                    }
                    return Err(e);
                },
            },
            NodeKind::VarDec => match parse_var_dec(node) {
                Ok(s) => s,
                Err(e) => {
                    proof {
                        lemma_block_err(ch@, i as int + 1, n as int, e);
                    }
                    return Err(e);
                },
            },
            NodeKind::PrintExpr => match parse_print_stmt(node) {
                Ok(s) => s,
                Err(e) => {
                    proof {
                        lemma_block_err(ch@, i as int + 1, n as int, e);
                    }
                    return Err(e);
                },
            },
            _ => {
                proof {
                    lemma_block_err(ch@, i as int + 1, n as int, ParseError::WrongNode);
                }
                return Err(ParseError::WrongNode);
            },
        };
        out.push(st);
        proof {
            assert(stmts_view(out@) =~= prev.push(stmt_view(out@[i as int])));
        }
        i = i + 1;
    }
    Ok(out)
}

} // verus!
