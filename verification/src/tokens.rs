//! Lexical tokens consumed by the parser.
//!
//! The lexer itself is an external capability: callers hand the parser a
//! finished token sequence.  Numeric literals travel as the 64-bit pattern
//! of the number they denote; the evaluation core never interprets the
//! pattern, it only stores and returns it.

use vstd::prelude::*;

verus! {

/// One lexical unit: parentheses, the quote sugar mark, or a literal.
#[derive(Debug, Clone, PartialEq)]
pub enum Token {
    OpenParen,
    CloseParen,
    QuoteTick,
    Identifier(String),
    /// Bit pattern of a numeric literal, carried opaquely.
    NumberLiteral(u64),
    StringLiteral(String),
    BooleanLiteral(bool),
}

/// Mathematical image of a `Token`: text fields become character sequences.
pub enum TokenModel {
    OpenParen,
    CloseParen,
    QuoteTick,
    Identifier(Seq<char>),
    NumberLiteral(u64),
    StringLiteral(Seq<char>),
    BooleanLiteral(bool),
}

impl Token {
    /// A structural copy of the token.
    pub fn clone_tok(&self) -> (r: Token)
        ensures
            r@ == self@,
    {
        match self {
            Token::OpenParen => Token::OpenParen,
            Token::CloseParen => Token::CloseParen,
            Token::QuoteTick => Token::QuoteTick,
            Token::Identifier(s) => Token::Identifier(s.clone()),
            Token::NumberLiteral(n) => Token::NumberLiteral(*n),
            Token::StringLiteral(s) => Token::StringLiteral(s.clone()),
            Token::BooleanLiteral(b) => Token::BooleanLiteral(*b),
        }
    }
}

/// Character-for-character equality of two text slices.
pub fn str_eq(a: &str, b: &str) -> (r: bool)
    ensures
        r == (a@ == b@),
{
    let ao: String = a.to_owned();
    let bo: String = b.to_owned();
    ao == bo
}

impl View for Token {
    type V = TokenModel;

    open spec fn view(&self) -> TokenModel {
        match self {
            Token::OpenParen => TokenModel::OpenParen,
            Token::CloseParen => TokenModel::CloseParen,
            Token::QuoteTick => TokenModel::QuoteTick,
            Token::Identifier(s) => TokenModel::Identifier(s@),
            Token::NumberLiteral(n) => TokenModel::NumberLiteral(*n),
            Token::StringLiteral(s) => TokenModel::StringLiteral(s@),
            Token::BooleanLiteral(b) => TokenModel::BooleanLiteral(*b),
        }
    }
}

} // verus!
