//! A toolchain for a small, statically typed intermediate language: a lexer and
//! parser for its textual form, a lowerer to flat register-indexed code, and a
//! register-based virtual machine with closures, coroutines and a heap of
//! tagged cells.
//!
//! - `parsing` reads the textual form: `lexer::lex` splits a text into tokens,
//!   `ir_parser::parse` reads a list of globals and procedures.
//! - `compiling` lowers a parsed program: `ir_compiler::compile` checks the
//!   static types, lays out the locals of each procedure in slots, resolves
//!   labels, and puts the primitive procedures before the program's own.
//!   `lowering` is its mathematical model; `laws` and `typing` state what
//!   holds of every compiled program. `unifier` unifies terms.
//! - `eval` runs compiled code: `vm::Vm` is the machine, `model` its
//!   mathematical model, one instruction at a time; `laws` and `typing` state
//!   what holds of every run.
//! - `util` writes numbers in decimal and marks a span of a text for a report.
//!
//! The machine does no arithmetic on doubles. It carries a double as its bit
//! pattern, stops at each instruction that needs one computed, and goes on when
//! its host has answered: see `eval::vm::Vm::pending` and `eval::vm::Vm::answer`.
pub mod compiling;
pub mod eval;
pub mod parsing;
pub mod util;
