//! Evaluation core of a small expression-oriented language.
//!
//! Given an already-parsed syntax tree ([`ast::Term`]), the evaluator in
//! [`interpreter`] computes a [`value::Value`], records printed lines in a
//! well-defined order, and reports semantic errors with source-location
//! context. Pure function calls are memoized through a structural cache.
//! The behaviour of every step is stated over the ghost big-step semantics
//! in [`semantics`] and proved; [`laws`] states the properties that relate
//! several evaluation steps.

pub mod ast;
pub mod dict;
pub mod error;
pub mod interpreter;
pub mod laws;
pub mod semantics;
pub mod value;
