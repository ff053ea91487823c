//! An abstract machine for a small combinator language: the primitives `i`,
//! `k`, `s`, `v`, `d`, `c`, `r` and `.x`, and binary application written with a
//! backquote.
//!
//! Reduction is strict except that `d` delays its operand; `c` captures the
//! current continuation as a first-class value that can be resumed any number
//! of times. The machine runs as an explicit loop over four modes, with
//! continuations as immutable chains of shared frames, so capturing one costs a
//! single handle and never a copy.
//!
//! - `term`: programs as trees.
//! - `parse`: program text to trees.
//! - `machine`: values, continuations, the transition relation and the machine
//!   that executes it.
//! - `text`: terms, values, continuations and states written back as text.
//! - `laws`: the combinator laws, proved of the transition relation.

pub mod term;
pub mod machine;
pub mod text;
pub mod parse;
pub mod laws;
