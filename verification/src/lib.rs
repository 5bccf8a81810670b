//! A small scripting language for linear dialogue logic: its token model and
//! tokenizer, its syntax tree, and a step-by-step evaluator with scoped
//! environments.
//!
//! The evaluator never performs input, output or floating-point arithmetic
//! itself. It advances one transition at a time and tells its host what to do
//! next; the host performs the action and reports the outcome as an event.
//! Numbers are carried as the bit patterns of binary64 values.
//!
//! - [`tokens`], [`lexeme`] and [`lexer`]: the lexical categories, the lexical
//!   grammar as functions on bytes, and the tokenizer that implements it.
//! - [`ast`]: expressions and statements.
//! - [`environment`]: one scope of variables.
//! - [`protocol`] and [`task`]: what evaluator and host say to each other, and
//!   the units of pending work.
//! - [`machine`]: the transition function of the evaluator, over mathematical
//!   states.
//! - [`interpreter`]: the evaluator itself, proved to follow that function.
//! - [`meaning`]: what expressions mean, and that the evaluator computes it.
//! - [`laws`]: further properties of every run.
//! - [`number`] and [`text`]: the operations on numbers and texts that the
//!   evaluator needs.

pub mod number;
pub mod text;
pub mod tokens;
pub mod lexeme;
pub mod lexer;
pub mod ast;
pub mod environment;
pub mod protocol;
pub mod task;
pub mod machine;
pub mod interpreter;
pub mod meaning;
pub mod laws;
