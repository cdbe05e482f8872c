//! An interpreter for a line-numbered BASIC dialect, with its behaviour stated
//! in contracts and proved.
//!
//! Text goes through the `lexer` to tokens and through the `parser` to a
//! syntax tree (`ast`), after the `grammar`. The `interpreter` stores the
//! lines of the tree in a `program` and runs them on a `machine`, one step
//! at a time; what expressions mean is in `semantics`, what the built-in
//! functions do in `functions` and `builtins`.
//!
//! Floating-point numbers are held by their bit patterns (`numeric`). What
//! their arithmetic gives where it rounds, and how they are written and read
//! as text, is asked of the host through the float `unit`; so is everything
//! else that only a host can do, such as opening files.

pub mod ast;
pub mod builtins;
pub mod environment;
pub mod error;
pub mod evaluator;
pub mod files;
pub mod functions;
pub mod grammar;
pub mod graphics;
pub mod interpreter;
pub mod laws;
pub mod lexer;
pub mod machine;
pub mod numeric;
pub mod parser;
pub mod program;
pub mod semantics;
pub mod text;
pub mod unit;
pub mod value;

pub use ast::{AstNode, BinaryOperator, UnaryOperator};
pub use error::Error;
pub use interpreter::Interpreter;
pub use lexer::{Lexer, Token, TokenType};
pub use parser::Parser;
pub use value::Value;

use vstd::prelude::*;

verus! {

/// Version of the interpreter.
pub const VERSION: &'static str = "0.1.0";

/// Name under which the interpreter presents itself.
pub const NAME: &'static str = "GW-BASIC (Rust)";

} // verus!
