//! A small expression language.
//!
//! A formula is a text such as `total := price * (1 + tax)` or
//! `f(x, y) { z := x + y; z * 2 }`. It is scanned into a tree, named
//! formulas and functions are kept in a chain of scopes, and trees are
//! evaluated against that chain while every call is recorded.
//!
//! - `formula`: the tree, and what a native function of the host looks like;
//! - `grammar`: what a text scans to, and `scanner`, which scans it;
//! - `env`: the scopes;
//! - `semantics`: what a tree evaluates to, `calculator`, which evaluates it,
//!   and `laws`, which hold of every evaluation;
//! - `parser`: scanning, naming and evaluating in one place;
//! - `number`: the numbers, IEEE 754 binary64 values held as their bits;
//! - `message`: the texts of faults.
//!
//! Numbers are held as bits because their arithmetic is not reasoned about
//! here: sums, products and the reading of decimal texts are computed by
//! `rustc_apfloat`, and the contracts name those results. What is decided
//! here, and proved, is the order of numbers, the grammar, the scopes and
//! the evaluation.

pub mod calculator;
pub mod env;
pub mod formula;
pub mod grammar;
pub mod laws;
pub mod message;
pub mod number;
pub mod parser;
pub mod scanner;
pub mod semantics;
