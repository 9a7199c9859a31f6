//! The reader: turns a token sequence into shared syntax trees.
//!
//! Nesting is handled with an explicit stack of frames in progress, never
//! with recursive descent, so parse depth is bounded by memory and not by
//! native call depth.  Identifier atoms are interned: a name seen before
//! answers the same shared node, for the whole life of the table.

use vstd::prelude::*;

use crate::ast::{expr_model, exprs_model, Expr, ExprModel};
use crate::tokens::{str_eq, Token, TokenModel};
use std::rc::Rc;

verus! {

broadcast use vstd::std_specs::vec::group_vec_axioms;

/// A read-time failure: a close-paren with no open frame, or input that
/// ends while a form or a quote operand is still incomplete.
#[derive(Debug, Clone, PartialEq)]
pub enum ParseError {
    Unexpected(Token),
    UnexpectedEOF,
}

/// Mathematical image of a read-time failure.
pub enum ParseErrModel {
    Unexpected(TokenModel),
    UnexpectedEOF,
}

impl View for ParseError {
    type V = ParseErrModel;

    open spec fn view(&self) -> ParseErrModel {
        match self {
            ParseError::Unexpected(t) => ParseErrModel::Unexpected(t@),
            ParseError::UnexpectedEOF => ParseErrModel::UnexpectedEOF,
        }
    }
}

/// Image of a row of tokens.
pub open spec fn tokens_model(v: Seq<Token>) -> Seq<TokenModel> {
    Seq::new(
        v.len(),
        |i: int|
            if 0 <= i < v.len() {
                v[i]@
            } else {
                TokenModel::OpenParen
            },
    )
}

/// The list form that quote sugar expands to.
pub open spec fn quote_wrap(e: ExprModel) -> ExprModel {
    ExprModel::List(seq![ExprModel::Atom(TokenModel::Identifier("quote"@)), e])
}

/// Grammar of one expression starting at position `i`: a close-paren here
/// is unexpected, a quote mark reads one following expression and wraps
/// it, an open paren reads a list, and any other token is an atom.
/// Answers the expression together with the position just past it.
pub open spec fn parse_expr_at(toks: Seq<TokenModel>, i: int) -> Result<
    (ExprModel, int),
    ParseErrModel,
>
    decreases toks.len() - i, 0int,
{
    if !(0 <= i < toks.len()) {
        Err(ParseErrModel::UnexpectedEOF)
    } else {
        match toks[i] {
            TokenModel::CloseParen => Err(ParseErrModel::Unexpected(TokenModel::CloseParen)),
            TokenModel::QuoteTick => match parse_expr_at(toks, i + 1) {
                Ok((e, j)) => Ok((quote_wrap(e), j)),
                Err(er) => Err(er),
            },
            TokenModel::OpenParen => match parse_list_at(toks, i + 1) {
                Ok((es, j)) => Ok((ExprModel::List(es), j)),
                Err(er) => Err(er),
            },
            t => Ok((ExprModel::Atom(t), i + 1)),
        }
    }
}

/// Grammar of the elements of a list whose open paren is already behind
/// `i`: expressions up to the matching close paren.
pub open spec fn parse_list_at(toks: Seq<TokenModel>, i: int) -> Result<
    (Seq<ExprModel>, int),
    ParseErrModel,
>
    decreases toks.len() - i, 1int,
{
    if !(0 <= i < toks.len()) {
        Err(ParseErrModel::UnexpectedEOF)
    } else if toks[i] == TokenModel::CloseParen {
        Ok((Seq::empty(), i + 1))
    } else {
        match parse_expr_at(toks, i) {
            Ok((e, j)) => {
                let j1 = if i < j <= toks.len() {
                    j
                } else {
                    i + 1
                };
                match parse_list_at(toks, j1) {
                    Ok((es, k)) => Ok((seq![e] + es, k)),
                    Err(er) => Err(er),
                }
            },
            Err(er) => Err(er),
        }
    }
}

/// A successful parse always moves forward and never past the end.
pub proof fn lemma_parse_expr_advances(toks: Seq<TokenModel>, i: int)
    ensures
        parse_expr_at(toks, i) matches Ok((e, j)) ==> i < j <= toks.len(),
    decreases toks.len() - i, 0int,
{
    if 0 <= i < toks.len() {
        match toks[i] {
            TokenModel::QuoteTick => {
                lemma_parse_expr_advances(toks, i + 1);
            },
            TokenModel::OpenParen => {
                lemma_parse_list_advances(toks, i + 1);
            },
            _ => {},
        }
    }
}

/// A successfully parsed list body also moves forward within bounds.
pub proof fn lemma_parse_list_advances(toks: Seq<TokenModel>, i: int)
    ensures
        parse_list_at(toks, i) matches Ok((es, j)) ==> i < j <= toks.len(),
    decreases toks.len() - i, 1int,
{
    if 0 <= i < toks.len() && toks[i] != TokenModel::CloseParen {
        lemma_parse_expr_advances(toks, i);
        match parse_expr_at(toks, i) {
            Ok((e, j)) => {
                let j1 = if i < j <= toks.len() {
                    j
                } else {
                    i + 1
                };
                lemma_parse_list_advances(toks, j1);
            },
            Err(_) => {},
        }
    }
}

/// What the frame stack still owes: finish the innermost list from `p`,
/// fold it into its parent, and so on out to the top-level list.
pub open spec fn complete(
    toks: Seq<TokenModel>,
    stack: Seq<Seq<ExprModel>>,
    cur: Seq<ExprModel>,
    p: int,
) -> Result<(ExprModel, int), ParseErrModel>
    decreases stack.len(),
{
    match parse_list_at(toks, p) {
        Err(er) => Err(er),
        Ok((es, q)) => if stack.len() == 0 {
            Ok((ExprModel::List(cur + es), q))
        } else {
            complete(toks, stack.drop_last(), stack.last().push(ExprModel::List(cur + es)), q)
        },
    }
}

/// Consuming one parsed expression extends the open frame: the completion
/// from its start equals the completion from just past it with the
/// expression appended.
pub proof fn lemma_complete_step(
    toks: Seq<TokenModel>,
    stack: Seq<Seq<ExprModel>>,
    cur: Seq<ExprModel>,
    p: int,
    e: ExprModel,
    j: int,
)
    requires
        parse_expr_at(toks, p) == Ok::<(ExprModel, int), ParseErrModel>((e, j)),
    ensures
        complete(toks, stack, cur, p) == complete(toks, stack, cur.push(e), j),
{
    lemma_parse_expr_advances(toks, p);
    assert(0 <= p < toks.len());
    assert(toks[p] != TokenModel::CloseParen);
    match parse_list_at(toks, j) {
        Ok((es, k)) => {
            assert(parse_list_at(toks, p) == Ok::<(Seq<ExprModel>, int), ParseErrModel>(
                (seq![e] + es, k),
            ));
            assert(cur + (seq![e] + es) =~= cur.push(e) + es);
        },
        Err(er) => {
            assert(parse_list_at(toks, p) == Err::<(Seq<ExprModel>, int), ParseErrModel>(er));
        },
    }
}

/// A failing expression fails the whole completion with the same error.
pub proof fn lemma_complete_err(
    toks: Seq<TokenModel>,
    stack: Seq<Seq<ExprModel>>,
    cur: Seq<ExprModel>,
    p: int,
    er: ParseErrModel,
)
    requires
        0 <= p < toks.len(),
        toks[p] != TokenModel::CloseParen,
        parse_expr_at(toks, p) == Err::<(ExprModel, int), ParseErrModel>(er),
    ensures
        complete(toks, stack, cur, p) == Err::<(ExprModel, int), ParseErrModel>(er),
{
}

/// Grammar of a whole row of top-level expressions from position `i`.
pub open spec fn parse_all(toks: Seq<TokenModel>, i: int) -> Result<Seq<ExprModel>, ParseErrModel>
    decreases toks.len() - i,
{
    if !(0 <= i < toks.len()) {
        Ok(Seq::empty())
    } else {
        match parse_expr_at(toks, i) {
            Ok((e, j)) => {
                let j1 = if i < j <= toks.len() {
                    j
                } else {
                    i + 1
                };
                match parse_all(toks, j1) {
                    Ok(es) => Ok(seq![e] + es),
                    Err(er) => Err(er),
                }
            },
            Err(er) => Err(er),
        }
    }
}

/// The session-scoped interning table: each identifier name maps to one
/// shared atom node, reused for every later occurrence of that name.
pub struct InternTable {
    pub names: Vec<String>,
    pub atoms: Vec<Rc<Expr>>,
}

impl InternTable {
    /// The table only ever holds the atom each name spells.
    pub open spec fn wf(&self) -> bool {
        &&& self.names@.len() == self.atoms@.len()
        &&& forall|k: int|
            0 <= k < self.atoms@.len() ==> expr_model(*#[trigger] self.atoms@[k])
                == ExprModel::Atom(TokenModel::Identifier(self.names@[k]@))
    }

    /// A fresh, empty table.
    pub fn new() -> (t: InternTable)
        ensures
            t.wf(),
    {
        InternTable { names: Vec::new(), atoms: Vec::new() }
    }

    /// The shared atom for `name`: the node registered earlier if the name
    /// was seen before, a freshly registered node otherwise.
    pub fn intern(&mut self, name: &str) -> (a: Rc<Expr>)
        requires
            old(self).wf(),
        ensures
            final(self).wf(),
            expr_model(*a) == ExprModel::Atom(TokenModel::Identifier(name@)),
    {
        let n = self.names.len();
        let mut i: usize = 0;
        while i < n
            invariant
                self.wf(),
                n == self.names@.len(),
                0 <= i <= n,
            decreases n - i,
        {
            if str_eq(self.names[i].as_str(), name) {
                return Rc::clone(&self.atoms[i]);
            }
            i += 1;
        }
        let a = Rc::new(Expr::Atom(Token::Identifier(name.to_owned())));
        self.names.push(name.to_owned());
        self.atoms.push(Rc::clone(&a));
        a
    }
}

/// The parser: a token row, a cursor, and the interning table it owns for
/// the length of the parse.
pub struct Parser {
    pub tokens: Vec<Token>,
    pub pos: usize,
    pub intern: InternTable,
}

impl Parser {
    pub open spec fn wf(&self) -> bool {
        &&& self.intern.wf()
        &&& self.pos <= self.tokens@.len()
    }

    /// Image of the token row being read.
    pub open spec fn toks(&self) -> Seq<TokenModel> {
        tokens_model(self.tokens@)
    }

    /// A parser over `tokens`, reusing (and growing) the given table.
    pub fn new(tokens: Vec<Token>, intern: InternTable) -> (p: Parser)
        requires
            intern.wf(),
        ensures
            p.wf(),
            p.pos == 0,
            p.toks() == tokens_model(tokens@),
    {
        Parser { tokens, pos: 0, intern }
    }

    /// Hands the interning table back for the rest of the session.
    pub fn into_intern(self) -> (t: InternTable)
        requires
            self.wf(),
        ensures
            t.wf(),
    {
        self.intern
    }

    /// Wraps one parsed expression in the explicit quote form, with the
    /// quote symbol shared through the interning table.
    fn construct_quote(&mut self, val: Expr) -> (r: Expr)
        requires
            old(self).wf(),
        ensures
            final(self).wf(),
            final(self).tokens@ == old(self).tokens@,
            final(self).pos == old(self).pos,
            expr_model(r) == quote_wrap(expr_model(val)),
    {
        let q = self.intern.intern("quote");
        let ghost vm = expr_model(val);
        let parts: Vec<Rc<Expr>> = vec![q, Rc::new(val)];
        let ghost pv = parts;
        let r = Expr::ListVal(parts);
        proof {
            crate::ast::lemma_list_model(pv);
            assert(exprs_model(pv@) =~= seq![
                ExprModel::Atom(TokenModel::Identifier("quote"@)),
                vm,
            ]);
        }
        r
    }

    /// Reads the elements of a list whose opening paren was just consumed,
    /// with an explicit stack of frames in progress instead of recursion.
    fn read_from_tokens(&mut self) -> (r: Result<Expr, ParseError>)
        requires
            old(self).wf(),
        ensures
            final(self).wf(),
            final(self).tokens@ == old(self).tokens@,
            match parse_list_at(old(self).toks(), old(self).pos as int) {
                Ok((es, j)) => r matches Ok(e) && expr_model(e) == ExprModel::List(es)
                    && final(self).pos as int == j,
                Err(er) => r matches Err(pe) && pe@ == er,
            },
        decreases old(self).tokens@.len() - old(self).pos, 1int,
    {
        let ghost toks = self.toks();
        let ghost pos0 = self.pos as int;
        let mut stack: Vec<Vec<Rc<Expr>>> = Vec::new();
        let mut current_frame: Vec<Rc<Expr>> = Vec::new();
        proof {
            assert(stack_model(stack@) =~= Seq::<Seq<ExprModel>>::empty());
            assert(exprs_model(current_frame@) =~= Seq::<ExprModel>::empty());
            if parse_list_at(toks, pos0) is Ok {
                let (es0, q0) = parse_list_at(toks, pos0)->Ok_0;
                assert(Seq::<ExprModel>::empty() + es0 =~= es0);
            }
        }
        loop
            invariant
                self.wf(),
                self.tokens@ == old(self).tokens@,
                toks == self.toks(),
                pos0 == old(self).pos as int,
                pos0 <= self.pos as int,
                complete(toks, stack_model(stack@), exprs_model(current_frame@), self.pos as int)
                    == match parse_list_at(toks, pos0) {
                    Ok((es, j)) => Ok::<(ExprModel, int), ParseErrModel>(
                        (ExprModel::List(es), j),
                    ),
                    Err(er) => Err(er),
                },
            decreases self.tokens@.len() - self.pos,
        {
            let ghost stk = stack_model(stack@);
            let ghost cur = exprs_model(current_frame@);
            let p = self.pos;
            if p >= self.tokens.len() {
                proof {
                    assert(parse_list_at(toks, p as int) == Err::<
                        (Seq<ExprModel>, int),
                        ParseErrModel,
                    >(ParseErrModel::UnexpectedEOF));
                }
                return Err(ParseError::UnexpectedEOF);
            }
            let t = self.tokens[p].clone_tok();
            self.pos = p + 1;
            proof {
                assert(toks[p as int] == t@);
            }
            match t {
                Token::QuoteTick => {
                    let quote_inner = self.next();
                    match quote_inner {
                        None => {
                            proof {
                                assert(parse_expr_at(toks, p as int) == Err::<
                                    (ExprModel, int),
                                    ParseErrModel,
                                >(ParseErrModel::UnexpectedEOF));
                                lemma_complete_err(
                                    toks,
                                    stk,
                                    cur,
                                    p as int,
                                    ParseErrModel::UnexpectedEOF,
                                );
                            }
                            return Err(ParseError::UnexpectedEOF);
                        },
                        Some(Err(e)) => {
                            proof {
                                lemma_complete_err(toks, stk, cur, p as int, e@);
                            }
                            return Err(e);
                        },
                        Some(Ok(x)) => {
                            let ghost j = self.pos as int;
                            proof {
                                lemma_parse_expr_advances(toks, p as int + 1);
                            }
                            let wrapped = self.construct_quote(x);
                            let ghost curpre = exprs_model(current_frame@);
                            current_frame.push(Rc::new(wrapped));
                            proof {
                                assert(exprs_model(current_frame@) =~= curpre.push(
                                    quote_wrap(parse_expr_at(toks, p as int + 1)->Ok_0.0),
                                ));
                                lemma_complete_step(
                                    toks,
                                    stk,
                                    cur,
                                    p as int,
                                    parse_expr_at(toks, p as int)->Ok_0.0,
                                    j,
                                );
                            }
                        },
                    }
                },
                Token::OpenParen => {
                    let ghost stkpre = stack_model(stack@);
                    stack.push(current_frame);
                    current_frame = Vec::new();
                    proof {
                        assert(stack_model(stack@) =~= stkpre.push(cur));
                        assert(exprs_model(current_frame@) =~= Seq::<ExprModel>::empty());
                        lemma_open_paren_step(toks, stkpre, cur, p as int);
                    }
                },
                Token::CloseParen => {
                    if stack.len() > 0 {
                        let mut prev_frame = stack.pop().unwrap();
                        let ghost prevm = exprs_model(prev_frame@);
                        let ghost stkpre = stack_model(stack@);
                        let ghost cfv = current_frame;
                        prev_frame.push(Rc::new(Expr::ListVal(current_frame)));
                        current_frame = prev_frame;
                        proof {
                            crate::ast::lemma_list_model(cfv);
                            assert(stk.last() == prevm);
                            assert(stk.drop_last() =~= stack_model(stack@));
                            assert(parse_list_at(toks, p as int) == Ok::<
                                (Seq<ExprModel>, int),
                                ParseErrModel,
                            >((Seq::empty(), p as int + 1)));
                            assert(cur + Seq::<ExprModel>::empty() =~= cur);
                            assert(exprs_model(current_frame@) =~= prevm.push(
                                ExprModel::List(cur),
                            ));
                        }
                    } else {
                        let ghost comb = current_frame;
                        let done = Expr::ListVal(current_frame);
                        proof {
                            crate::ast::lemma_list_model(comb);
                            assert(parse_list_at(toks, p as int) == Ok::<
                                (Seq<ExprModel>, int),
                                ParseErrModel,
                            >((Seq::empty(), p as int + 1)));
                            assert(cur + Seq::<ExprModel>::empty() =~= cur);
                        }
                        return Ok(done);
                    }
                },
                tok => {
                    let pushed: Rc<Expr> = match &tok {
                        Token::Identifier(s) => self.intern.intern(s.as_str()),
                        _ => Rc::new(Expr::Atom(tok.clone_tok())),
                    };
                    let ghost curpre = exprs_model(current_frame@);
                    current_frame.push(pushed);
                    proof {
                        assert(parse_expr_at(toks, p as int) == Ok::<
                            (ExprModel, int),
                            ParseErrModel,
                        >((ExprModel::Atom(toks[p as int]), p as int + 1)));
                        assert(exprs_model(current_frame@) =~= curpre.push(
                            ExprModel::Atom(toks[p as int]),
                        ));
                        lemma_complete_step(
                            toks,
                            stk,
                            cur,
                            p as int,
                            ExprModel::Atom(toks[p as int]),
                            p as int + 1,
                        );
                    }
                },
            }
        }
    }

    /// Reads the next top-level expression, or nothing at the end of the
    /// row.  Top-level atoms are answered as they stand; quote sugar and
    /// parenthesised lists are expanded by the grammar above.
    pub fn next(&mut self) -> (r: Option<Result<Expr, ParseError>>)
        requires
            old(self).wf(),
        ensures
            final(self).wf(),
            final(self).tokens@ == old(self).tokens@,
            old(self).pos as int >= old(self).toks().len() ==> (r is None && final(self).pos
                == old(self).pos),
            (old(self).pos as int) < old(self).toks().len() ==> ({
                let pr = r->Some_0;
                &&& r is Some
                &&& match parse_expr_at(old(self).toks(), old(self).pos as int) {
                    Ok((e, j)) => pr matches Ok(ex) && expr_model(ex) == e && final(self).pos
                        as int == j,
                    Err(er) => pr matches Err(pe) && pe@ == er,
                }
            }),
        decreases old(self).tokens@.len() - old(self).pos, 2int,
    {
        let ghost toks = self.toks();
        let p = self.pos;
        if p >= self.tokens.len() {
            return None;
        }
        let t = self.tokens[p].clone_tok();
        self.pos = p + 1;
        proof {
            assert(toks[p as int] == t@);
        }
        match t {
            Token::QuoteTick => {
                match self.next() {
                    None => Some(Err(ParseError::UnexpectedEOF)),
                    Some(Err(e)) => Some(Err(e)),
                    Some(Ok(x)) => Some(Ok(self.construct_quote(x))),
                }
            },
            Token::OpenParen => Some(self.read_from_tokens()),
            Token::CloseParen => Some(Err(ParseError::Unexpected(Token::CloseParen))),
            tok => Some(Ok(Expr::Atom(tok))),
        }
    }
}

/// Image of the stack of frames in progress.
pub open spec fn stack_model(stack: Seq<Vec<Rc<Expr>>>) -> Seq<Seq<ExprModel>> {
    Seq::new(
        stack.len(),
        |k: int|
            if 0 <= k < stack.len() {
                exprs_model(stack[k]@)
            } else {
                Seq::empty()
            },
    )
}

/// Opening a paren pushes the frame in progress: the completion is
/// preserved.
pub proof fn lemma_open_paren_step(
    toks: Seq<TokenModel>,
    stack: Seq<Seq<ExprModel>>,
    cur: Seq<ExprModel>,
    p: int,
)
    requires
        0 <= p < toks.len(),
        toks[p] == TokenModel::OpenParen,
    ensures
        complete(toks, stack, cur, p) == complete(
            toks,
            stack.push(cur),
            Seq::empty(),
            p + 1,
        ),
{
    lemma_parse_list_advances(toks, p + 1);
    match parse_list_at(toks, p + 1) {
        Ok((es1, k)) => {
            assert(parse_expr_at(toks, p) == Ok::<(ExprModel, int), ParseErrModel>(
                (ExprModel::List(es1), k),
            ));
            lemma_complete_step(toks, stack, cur, p, ExprModel::List(es1), k);
            let inner = stack.push(cur);
            assert(inner.drop_last() =~= stack);
            assert(inner.last() == cur);
            assert(Seq::<ExprModel>::empty() + es1 =~= es1);
        },
        Err(er) => {
            assert(parse_expr_at(toks, p) == Err::<(ExprModel, int), ParseErrModel>(er));
            lemma_complete_err(toks, stack, cur, p, er);
        },
    }
}

} // verus!
