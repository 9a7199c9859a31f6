//! The abstract syntax tree produced by the parser.
//!
//! Nodes are immutable once built and shared by reference: identical
//! identifier atoms are interned, so many parents may point at one
//! physical atom.  Structural equality is over the tree shape, never
//! over node identity.

use vstd::prelude::*;

use crate::tokens::{Token, TokenModel};
use std::rc::Rc;

verus! {

/// An AST node: a leaf wrapping one token, or an ordered list of shared nodes.
#[derive(Debug, Clone, PartialEq)]
pub enum Expr {
    Atom(Token),
    ListVal(Vec<Rc<Expr>>),
}

/// Mathematical image of an `Expr`: sharing disappears, only structure remains.
pub enum ExprModel {
    Atom(TokenModel),
    List(Seq<ExprModel>),
}

broadcast use vstd::std_specs::vec::group_vec_axioms;

/// Structure of an expression tree, with sharing forgotten.
pub open spec fn expr_model(e: Expr) -> ExprModel
    decreases e,
{
    match e {
        Expr::Atom(t) => ExprModel::Atom(t@),
        Expr::ListVal(items) => ExprModel::List(
            Seq::new(
                items@.len(),
                |i: int|
                    if 0 <= i < items@.len() {
                        expr_model(*items@[i])
                    } else {
                        ExprModel::List(Seq::empty())
                    },
            ),
        ),
    }
}

impl View for Expr {
    type V = ExprModel;

    open spec fn view(&self) -> ExprModel {
        expr_model(*self)
    }
}

/// Structure of a row of shared expression nodes.
pub open spec fn exprs_model(items: Seq<Rc<Expr>>) -> Seq<ExprModel> {
    Seq::new(
        items.len(),
        |i: int|
            if 0 <= i < items.len() {
                expr_model(*items[i])
            } else {
                ExprModel::List(Seq::empty())
            },
    )
}

/// The structure of a list node is the row structure of its elements.
pub broadcast proof fn lemma_list_model(items: Vec<Rc<Expr>>)
    ensures
        #[trigger] expr_model(Expr::ListVal(items)) == ExprModel::List(exprs_model(items@)),
{
    let e = Expr::ListVal(items);
    assert(expr_model(e) is List);
    let s = expr_model(e)->List_0;
    assert(s.len() == items@.len());
    assert forall|i: int| 0 <= i < s.len() implies s[i] == exprs_model(items@)[i] by {}
    assert(s =~= exprs_model(items@));
}

/// Row structure commutes with taking a subrange of the row.
pub broadcast proof fn lemma_exprs_model_subrange(items: Seq<Rc<Expr>>, a: int, b: int)
    requires
        0 <= a <= b <= items.len(),
    ensures
        #[trigger] exprs_model(items.subrange(a, b)) == exprs_model(items).subrange(a, b),
{
    assert(exprs_model(items.subrange(a, b)) =~= exprs_model(items).subrange(a, b));
}

/// Structure of a row of owned expression nodes.
pub open spec fn expr_row_model(items: Seq<Expr>) -> Seq<ExprModel> {
    Seq::new(
        items.len(),
        |i: int|
            if 0 <= i < items.len() {
                expr_model(items[i])
            } else {
                ExprModel::List(Seq::empty())
            },
    )
}

/// Whether a node is exactly the identifier atom `name`.
pub open spec fn is_ident(e: ExprModel, name: Seq<char>) -> bool {
    e matches ExprModel::Atom(TokenModel::Identifier(s)) && s == name
}

/// Decides whether a node is the identifier atom `name`.
pub fn expr_is_ident(e: &Expr, name: &str) -> (b: bool)
    ensures
        b == is_ident(expr_model(*e), name@),
{
    match e {
        Expr::Atom(Token::Identifier(s)) => crate::tokens::str_eq(s.as_str(), name),
        _ => false,
    }
}

} // verus!
