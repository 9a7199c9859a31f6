//! Runtime values and evaluation errors.
//!
//! A value is immutable; `set!` rebinds a name to a new value, it never
//! edits a value in place.  Quoted expressions travel through the value
//! channel in a dedicated variant so that `eval` can turn them back into
//! evaluable syntax.

use vstd::prelude::*;

use crate::ast::{expr_model, Expr, ExprModel};
use crate::parser::{ParseErrModel, ParseError};
use crate::tokens::{Token, TokenModel};
use std::rc::Rc;

verus! {

/// A closure: parameter names, a shared body expression, and the handle of
/// the environment frame that was current at its definition site.
#[derive(Debug, Clone, PartialEq)]
pub struct SteelLambda {
    pub params_exp: Vec<String>,
    pub body_exp: Rc<Expr>,
    pub parent_env: usize,
}

/// Mathematical image of a closure.
pub struct LambdaModel {
    pub params: Seq<Seq<char>>,
    pub body: ExprModel,
    pub env: int,
}

impl SteelLambda {
    pub fn new(params_exp: Vec<String>, body_exp: Rc<Expr>, parent_env: usize) -> (r: SteelLambda)
        ensures
            r@ == (LambdaModel {
                params: params_exp.deep_view(),
                body: expr_model(*body_exp),
                env: parent_env as int,
            }),
    {
        SteelLambda { params_exp, body_exp, parent_env }
    }

    /// The ordered parameter names.
    pub fn params_exp(&self) -> (r: &Vec<String>)
        ensures
            r.deep_view() == self@.params,
    {
        &self.params_exp
    }

    /// The shared body expression.
    pub fn body_exp(&self) -> (r: Rc<Expr>)
        ensures
            expr_model(*r) == self@.body,
    {
        Rc::clone(&self.body_exp)
    }

    /// Handle of the captured defining environment.
    pub fn parent_env(&self) -> (r: usize)
        ensures
            r as int == self@.env,
    {
        self.parent_env
    }
}

impl View for SteelLambda {
    type V = LambdaModel;

    open spec fn view(&self) -> LambdaModel {
        LambdaModel {
            params: self.params_exp.deep_view(),
            body: expr_model(*self.body_exp),
            env: self.parent_env as int,
        }
    }
}

/// A runtime value: the closed tagged union the evaluator dispatches on.
///
/// `FuncV` holds the handle of a native function; the native library that
/// interprets handles is supplied by the embedding caller.  `ExprV` is the
/// transient expression-shaped value produced by `quote` and consumed by
/// `eval`.
#[derive(Debug, Clone, PartialEq)]
pub enum SteelVal {
    BoolV(bool),
    /// Bit pattern of a number, carried opaquely.
    NumV(u64),
    StringV(String),
    Void,
    FuncV(usize),
    LambdaV(SteelLambda),
    ExprV(Rc<Expr>),
}

/// Mathematical image of a runtime value.
pub enum ValModel {
    Bool(bool),
    Num(u64),
    Str(Seq<char>),
    Void,
    Func(int),
    Lambda(LambdaModel),
    Expr(ExprModel),
}

impl View for SteelVal {
    type V = ValModel;

    open spec fn view(&self) -> ValModel {
        match self {
            SteelVal::BoolV(b) => ValModel::Bool(*b),
            SteelVal::NumV(n) => ValModel::Num(*n),
            SteelVal::StringV(s) => ValModel::Str(s@),
            SteelVal::Void => ValModel::Void,
            SteelVal::FuncV(f) => ValModel::Func(*f as int),
            SteelVal::LambdaV(l) => ValModel::Lambda(l@),
            SteelVal::ExprV(e) => ValModel::Expr(expr_model(**e)),
        }
    }
}

/// An evaluation-time failure.
///
/// Arity failures carry the form name with the expected and actual operand
/// counts.  `OutOfFuel` reports exhaustion of the evaluation step budget
/// that bounds every run of the interpreter loop.
#[derive(Debug, Clone, PartialEq)]
pub enum SteelErr {
    ArityMismatch { form: String, expected: usize, got: usize },
    TypeMismatch,
    BadSyntax,
    UnboundIdentifier(String),
    UnexpectedToken(Token),
    ContractViolation,
    OutOfFuel,
    Parse(ParseError),
}

/// Mathematical image of an evaluation failure.
pub enum ErrModel {
    Arity { form: Seq<char>, expected: int, got: int },
    TypeMismatch,
    BadSyntax,
    Unbound(Seq<char>),
    UnexpectedToken(TokenModel),
    ContractViolation,
    OutOfFuel,
    Parse(ParseErrModel),
}

impl View for SteelErr {
    type V = ErrModel;

    open spec fn view(&self) -> ErrModel {
        match self {
            SteelErr::ArityMismatch { form, expected, got } => ErrModel::Arity {
                form: form@,
                expected: *expected as int,
                got: *got as int,
            },
            SteelErr::TypeMismatch => ErrModel::TypeMismatch,
            SteelErr::BadSyntax => ErrModel::BadSyntax,
            SteelErr::UnboundIdentifier(s) => ErrModel::Unbound(s@),
            SteelErr::UnexpectedToken(t) => ErrModel::UnexpectedToken(t@),
            SteelErr::ContractViolation => ErrModel::ContractViolation,
            SteelErr::OutOfFuel => ErrModel::OutOfFuel,
            SteelErr::Parse(pe) => ErrModel::Parse(pe@),
        }
    }
}

/// Image of a value-or-failure result.
pub open spec fn res_model(r: Result<SteelVal, SteelErr>) -> Result<ValModel, ErrModel> {
    match r {
        Ok(v) => Ok(v@),
        Err(e) => Err(e@),
    }
}

/// Image of a sequence of values.
pub open spec fn vals_model(s: Seq<SteelVal>) -> Seq<ValModel> {
    Seq::new(s.len(), |i: int| if 0 <= i < s.len() { s[i]@ } else { ValModel::Void })
}

/// What `quote` hands back for a syntax tree: literal atoms become the
/// value they denote, everything else is wrapped as an expression value.
pub open spec fn expr_to_val_model(e: ExprModel) -> ValModel {
    match e {
        ExprModel::Atom(TokenModel::BooleanLiteral(b)) => ValModel::Bool(b),
        ExprModel::Atom(TokenModel::NumberLiteral(n)) => ValModel::Num(n),
        ExprModel::Atom(TokenModel::StringLiteral(s)) => ValModel::Str(s),
        _ => ValModel::Expr(e),
    }
}

/// Inverse direction, used by `eval`: which values are expression shaped,
/// and what syntax they stand for.
pub open spec fn val_to_expr_model(v: ValModel) -> Option<ExprModel> {
    match v {
        ValModel::Bool(b) => Some(ExprModel::Atom(TokenModel::BooleanLiteral(b))),
        ValModel::Num(n) => Some(ExprModel::Atom(TokenModel::NumberLiteral(n))),
        ValModel::Str(s) => Some(ExprModel::Atom(TokenModel::StringLiteral(s))),
        ValModel::Expr(e) => Some(e),
        _ => None,
    }
}

/// Turning syntax into a value and back yields the original syntax: the
/// round trip that makes `(eval (quote e))` behave like `e`.
pub proof fn lemma_expr_val_round_trip(e: ExprModel)
    ensures
        val_to_expr_model(expr_to_val_model(e)) == Some(e),
{
}

/// Converts a shared syntax tree into the value `quote` returns for it.
pub fn expr_to_val(e: &Rc<Expr>) -> (r: SteelVal)
    ensures
        r@ == expr_to_val_model(expr_model(**e)),
{
    match &**e {
        Expr::Atom(Token::BooleanLiteral(b)) => SteelVal::BoolV(*b),
        Expr::Atom(Token::NumberLiteral(n)) => SteelVal::NumV(*n),
        Expr::Atom(Token::StringLiteral(s)) => SteelVal::StringV(s.clone()),
        _ => SteelVal::ExprV(Rc::clone(e)),
    }
}

/// Recovers syntax from an expression-shaped value; `None` when the value
/// does not stand for syntax.
pub fn val_to_expr(v: SteelVal) -> (r: Option<Rc<Expr>>)
    ensures
        match r {
            Some(e) => val_to_expr_model(v@) == Some(expr_model(*e)),
            None => val_to_expr_model(v@) is None,
        },
{
    match v {
        SteelVal::BoolV(b) => Some(Rc::new(Expr::Atom(Token::BooleanLiteral(b)))),
        SteelVal::NumV(n) => Some(Rc::new(Expr::Atom(Token::NumberLiteral(n)))),
        SteelVal::StringV(s) => Some(Rc::new(Expr::Atom(Token::StringLiteral(s)))),
        SteelVal::ExprV(e) => Some(e),
        _ => None,
    }
}

impl SteelVal {
    /// A structural copy of the value; shared subtrees stay shared.
    pub fn clone_val(&self) -> (r: SteelVal)
        ensures
            r@ == self@,
    {
        match self {
            SteelVal::BoolV(b) => SteelVal::BoolV(*b),
            SteelVal::NumV(n) => SteelVal::NumV(*n),
            SteelVal::StringV(s) => SteelVal::StringV(s.clone()),
            SteelVal::Void => SteelVal::Void,
            SteelVal::FuncV(f) => SteelVal::FuncV(*f),
            SteelVal::LambdaV(l) => SteelVal::LambdaV(
                SteelLambda::new(
                    l.params_exp.clone(),
                    Rc::clone(&l.body_exp),
                    l.parent_env,
                ),
            ),
            SteelVal::ExprV(e) => SteelVal::ExprV(Rc::clone(e)),
        }
    }
}

} // verus!
