//! A small single-pass compiler for an arithmetic/assignment expression
//! language, emitting textual assembly for a stack-oriented calling
//! convention.
//!
//! The pipeline has three stages, each a pure function of the previous
//! stage's output:
//!
//! * [`lexer`] turns source text into a token sequence,
//! * [`parser`] turns the token sequence into abstract syntax trees by
//!   recursive descent,
//! * [`generator`] walks each statement tree and emits stack-machine
//!   instructions together with their textual assembly rendering.
//!
//! [`machine`] gives the stack machine itself: the meaning of every
//! instruction, and an evaluator that runs emitted programs.

pub mod decimal;
pub mod generator;
pub mod lexer;
pub mod machine;
pub mod parser;
