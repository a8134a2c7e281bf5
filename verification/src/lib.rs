//! A lazy evaluator for a small untyped combinator calculus: literals,
//! arithmetic, pairs and lists, booleans as selectors, and SKI-style
//! combinators, all combined through a single binary application operator.
//!
//! A program is a list of statements, each binding an identifier to a flat
//! token sequence.  The spine builder turns a token sequence into one
//! partial-application thunk, and the forcer reduces thunks on demand,
//! consulting the environment for variable bindings.

pub mod ast;
pub mod eval;
pub mod laws;
pub mod parser;
pub mod semantics;

pub use ast::{EvalError, Identifier, Statement, Symbol};
pub use eval::{eval, eval_instructions, interpret, run, run_with_fuel, RunError, DEFAULT_FUEL};
pub use parser::{parse_as_lines, ParseError};
