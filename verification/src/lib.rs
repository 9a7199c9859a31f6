//! Core of an embeddable Lisp interpreter: a parser that builds a
//! structurally shared AST with interned identifier atoms, a chain of
//! lexical environment frames, and a trampolined evaluator with proper
//! tail-call handling.

use vstd::prelude::*;

mod ast;
mod env;
mod evaluator;
mod laws;
mod parser;
mod semantics;
mod tokens;
mod values;

pub use ast::Expr;
pub use env::Frames;
pub use evaluator::{
    check_length, eval_and, eval_atom, eval_begin, eval_define, eval_eval_expr, eval_func,
    eval_if, eval_lambda, eval_let, eval_make_lambda, evaluate, parse_list_of_identifiers,
    Evaluator, NativeLibrary, EVAL_FUEL,
};
pub use parser::{InternTable, ParseError, Parser};
pub use semantics::Oracle;
pub use tokens::Token;
pub use values::{SteelErr, SteelLambda, SteelVal};

verus! {

} // verus!
