//! A small calculator core for arithmetic over physical quantities.
//!
//! Numbers may be annotated with dimensional units (mass, length, time, ...
//! raised to rational powers), combined with the usual arithmetic operators,
//! and rendered as math text. The crate holds the unit algebra, the typed
//! value model, the precedence-climbing expression parser over a generic
//! parse tree, the statement layer, and the math-text renderer. Lexing the
//! source text into the generic parse tree is left to the embedding program.

pub mod rat;
pub mod unit;
pub mod unit_expr;
pub mod val;
pub mod expr;
pub mod parser;
pub mod statement;
pub mod latex;
