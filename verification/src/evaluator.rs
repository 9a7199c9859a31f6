//! The trampolined evaluator.
//!
//! `evaluate` holds a current (expression, frame handle) pair and loops:
//! forms in tail position rewrite the pair and continue, every other form
//! computes and returns.  Native call depth therefore grows only for
//! genuinely nested sub-evaluations, never for user-level tail calls; the
//! step budget bounds the whole run and is spent one unit per loop
//! iteration and per sub-evaluation, exactly as `eval_model` prescribes.

use vstd::prelude::*;

use crate::ast::{expr_is_ident, expr_model, exprs_model, Expr, ExprModel};
use crate::env::{define_model, set_model, FrameModel, Frames};
use crate::semantics::{
    arity, eval_and_model, eval_args_model, eval_atom_model, eval_effects_model, eval_model,
    eval_or_model, frame_bind_from, let_split_model, make_lambda_model, parse_idents_model,
    Oracle,
};
use crate::tokens::{Token, TokenModel};
use crate::values::{
    expr_to_val, res_model, val_to_expr, val_to_expr_model, vals_model, ErrModel, SteelErr,
    SteelLambda, SteelVal, ValModel,
};
use std::rc::Rc;
use vstd::slice::slice_subrange;

verus! {

broadcast use {
    vstd::std_specs::vec::group_vec_axioms,
    crate::ast::lemma_list_model,
    crate::ast::lemma_exprs_model_subrange,
};

/// The library of native functions, supplied by the embedding caller.
///
/// A native function is a pure map from argument values to a value or a
/// failure: it receives no environment, so the evaluator can invoke it
/// without any scope threading.  The oracle names that map; every call is
/// assumed to answer exactly what the oracle says, which is the one
/// obligation an implementation owes this library.
pub trait NativeLibrary {
    /// What each native handle computes.
    spec fn oracle(&self) -> Oracle;

    /// Invokes the native function behind `func` on `args`.
    fn call(&self, func: usize, args: Vec<SteelVal>) -> (r: Result<SteelVal, SteelErr>)
        ensures
            res_model(r) == self.oracle()(func as int, vals_model(args@)),
    ;
}

/// Fails unless exactly `expected` operands are present.
pub fn check_length(what: &str, tokens: &[Rc<Expr>], expected: usize) -> (r: Result<
    (),
    SteelErr,
>)
    ensures
        tokens@.len() == expected ==> r is Ok,
        tokens@.len() != expected ==> (r matches Err(e) && e@ == arity(
            what@,
            expected as int,
            tokens@.len() as int,
        )),
{
    if tokens.len() == expected {
        Ok(())
    } else {
        Err(SteelErr::ArityMismatch { form: what.to_owned(), expected, got: tokens.len() })
    }
}

/// Reads a lambda's parameter list: every element must be an identifier
/// atom, and anything else is a type failure.
pub fn parse_list_of_identifiers(identifiers: Rc<Expr>) -> (r: Result<Vec<String>, SteelErr>)
    ensures
        match expr_model(*identifiers) {
            ExprModel::List(ids) => match r {
                Ok(v) => parse_idents_model(ids) == Ok::<Seq<Seq<char>>, ErrModel>(v.deep_view()),
                Err(e) => parse_idents_model(ids) == Err::<Seq<Seq<char>>, ErrModel>(e@),
            },
            _ => r matches Err(e) && e@ == ErrModel::TypeMismatch,
        },
{
    match &*identifiers {
        Expr::ListVal(l) => {
            let ghost ids = exprs_model(l@);
            let n = l.len();
            let mut out: Vec<String> = Vec::new();
            proof {
                crate::ast::lemma_list_model(*l);
                assert(ids.subrange(0, n as int) =~= ids);
                assert(out.deep_view() =~= Seq::<Seq<char>>::empty());
                if parse_idents_model(ids) is Ok {
                    assert(out.deep_view() + parse_idents_model(ids)->Ok_0 =~= parse_idents_model(
                        ids,
                    )->Ok_0);
                }
            }
            let mut i: usize = 0;
            while i < n
                invariant
                    n == l@.len(),
                    ids == exprs_model(l@),
                    expr_model(*identifiers) == ExprModel::List(ids),
                    0 <= i <= n,
                    out.deep_view().len() == i as int,
                    parse_idents_model(ids) == match parse_idents_model(
                        ids.subrange(i as int, n as int),
                    ) {
                        Ok(rest) => Ok::<Seq<Seq<char>>, ErrModel>(out.deep_view() + rest),
                        Err(e) => Err(e),
                    },
                decreases n - i,
            {
                let ghost pending = ids.subrange(i as int, n as int);
                proof {
                    crate::ast::lemma_list_model(*l);
                }
                match &*l[i] {
                    Expr::Atom(Token::Identifier(s)) => {
                        let ghost outpre = out.deep_view();
                        out.push(s.clone());
                        proof {
                            assert(pending[0] == ids[i as int]);
                            assert(pending.drop_first() =~= ids.subrange(i + 1, n as int));
                            assert(out.deep_view() =~= outpre.push(s@));
                            assert(parse_idents_model(pending) == match parse_idents_model(
                                pending.drop_first(),
                            ) {
                                Ok(rest) => Ok::<Seq<Seq<char>>, ErrModel>(seq![s@] + rest),
                                Err(e) => Err(e),
                            });
                            assert forall|rest: Seq<Seq<char>>|
                                outpre + (seq![s@] + rest) =~= out.deep_view() + rest by {}
                        }
                        i += 1;
                    },
                    _ => {
                        proof {
                            assert(pending[0] == ids[i as int]);
                            assert(parse_idents_model(pending) == Err::<
                                Seq<Seq<char>>,
                                ErrModel,
                            >(ErrModel::TypeMismatch));
                        }
                        return Err(SteelErr::TypeMismatch);
                    },
                }
            }
            proof {
                crate::ast::lemma_list_model(*l);
                assert(ids.subrange(n as int, n as int) =~= Seq::<ExprModel>::empty());
                assert(parse_idents_model(ids) == Ok::<Seq<Seq<char>>, ErrModel>(
                    out.deep_view() + Seq::<Seq<char>>::empty(),
                ));
                assert(out.deep_view() + Seq::<Seq<char>>::empty() =~= out.deep_view());
            }
            Ok(out)
        },
        _ => Err(SteelErr::TypeMismatch),
    }
}

/// Evaluates an atom in the given environment.
pub fn eval_atom(t: &Token, env: usize, frames: &Frames) -> (r: Result<SteelVal, SteelErr>)
    requires
        frames.wf(),
        env < frames@.len(),
    ensures
        res_model(r) == eval_atom_model(t@, env as int, frames@),
{
    match t {
        Token::BooleanLiteral(b) => Ok(SteelVal::BoolV(*b)),
        Token::Identifier(s) => frames.lookup(env, s.as_str()),
        Token::NumberLiteral(n) => Ok(SteelVal::NumV(*n)),
        Token::StringLiteral(s) => Ok(SteelVal::StringV(s.clone())),
        Token::OpenParen => Err(SteelErr::UnexpectedToken(Token::OpenParen)),
        Token::CloseParen => Err(SteelErr::UnexpectedToken(Token::CloseParen)),
        Token::QuoteTick => Err(SteelErr::UnexpectedToken(Token::QuoteTick)),
    }
}

/// Builds the closure a lambda form denotes, capturing the current frame.
pub fn eval_make_lambda(list_of_tokens: &[Rc<Expr>], parent_env: usize) -> (r: Result<
    SteelVal,
    SteelErr,
>)
    ensures
        res_model(r) == make_lambda_model(exprs_model(list_of_tokens@), parent_env as int),
{
    if list_of_tokens.len() != 2 {
        return Err(SteelErr::ArityMismatch {
            form: "Lambda".to_owned(),
            expected: 2,
            got: list_of_tokens.len(),
        });
    }
    let params = match parse_list_of_identifiers(Rc::clone(&list_of_tokens[0])) {
        Ok(p) => p,
        Err(e) => {
            return Err(e);
        },
    };
    Ok(SteelVal::LambdaV(SteelLambda::new(params, Rc::clone(&list_of_tokens[1]), parent_env)))
}

/// Evaluates a row of argument expressions left to right.
pub fn eval_args<N: NativeLibrary>(
    items: &[Rc<Expr>],
    env: usize,
    frames: &mut Frames,
    natives: &N,
    fuel: u64,
) -> (r: Result<Vec<SteelVal>, SteelErr>)
    requires
        old(frames).wf(),
        env < old(frames)@.len(),
    ensures
        final(frames).wf(),
        old(frames)@.len() <= final(frames)@.len(),
        ({
            let (fs2, ar) = eval_args_model(
                fuel as nat,
                exprs_model(items@),
                env as int,
                old(frames)@,
                natives.oracle(),
            );
            &&& final(frames)@ == fs2
            &&& match r {
                Ok(vs) => ar == Ok::<Seq<ValModel>, ErrModel>(vals_model(vs@)),
                Err(e) => ar == Err::<Seq<ValModel>, ErrModel>(e@),
            }
        }),
    decreases fuel, 1int, items@.len(),
{
    if fuel == 0 {
        return Err(SteelErr::OutOfFuel);
    }
    if items.len() == 0 {
        let out: Vec<SteelVal> = Vec::new();
        proof {
            assert(vals_model(out@) =~= Seq::<ValModel>::empty());
        }
        return Ok(out);
    }
    let v = match evaluate(&items[0], env, frames, natives, fuel - 1) {
        Ok(v) => v,
        Err(e) => {
            return Err(e);
        },
    };
    proof {
        assert(exprs_model(items@)[0] == expr_model(*items@[0]));
        assert(exprs_model(items@).drop_first() =~= exprs_model(
            items@.subrange(1, items@.len() as int),
        ));
    }
    let rest = slice_subrange(items, 1, items.len());
    match eval_args(rest, env, frames, natives, fuel) {
        Ok(mut vs) => {
            let ghost vspre = vs@;
            vs.insert(0, v);
            proof {
                assert(vals_model(vs@) =~= seq![v@] + vals_model(vspre));
            }
            Ok(vs)
        },
        Err(e) => Err(e),
    }
}

/// Evaluates a row of expressions for effect only, left to right.
pub fn eval_effects<N: NativeLibrary>(
    items: &[Rc<Expr>],
    env: usize,
    frames: &mut Frames,
    natives: &N,
    fuel: u64,
) -> (r: Result<(), SteelErr>)
    requires
        old(frames).wf(),
        env < old(frames)@.len(),
    ensures
        final(frames).wf(),
        old(frames)@.len() <= final(frames)@.len(),
        ({
            let (fs1, er) = eval_effects_model(
                fuel as nat,
                exprs_model(items@),
                env as int,
                old(frames)@,
                natives.oracle(),
            );
            &&& final(frames)@ == fs1
            &&& match r {
                Ok(u) => er is None,
                Err(e) => er == Some(e@),
            }
        }),
    decreases fuel, 1int, items@.len(),
{
    if fuel == 0 {
        return Err(SteelErr::OutOfFuel);
    }
    if items.len() == 0 {
        return Ok(());
    }
    match evaluate(&items[0], env, frames, natives, fuel - 1) {
        Ok(_) => {},
        Err(e) => {
            return Err(e);
        },
    }
    proof {
        assert(exprs_model(items@)[0] == expr_model(*items@[0]));
        assert(exprs_model(items@).drop_first() =~= exprs_model(
            items@.subrange(1, items@.len() as int),
        ));
    }
    let rest = slice_subrange(items, 1, items.len());
    eval_effects(rest, env, frames, natives, fuel)
}

/// Short-circuiting `and` over the operands.
pub fn eval_and<N: NativeLibrary>(
    list_of_tokens: &[Rc<Expr>],
    env: usize,
    frames: &mut Frames,
    natives: &N,
    fuel: u64,
) -> (r: Result<SteelVal, SteelErr>)
    requires
        old(frames).wf(),
        env < old(frames)@.len(),
    ensures
        final(frames).wf(),
        old(frames)@.len() <= final(frames)@.len(),
        (final(frames)@, res_model(r)) == eval_and_model(
            fuel as nat,
            exprs_model(list_of_tokens@),
            env as int,
            old(frames)@,
            natives.oracle(),
        ),
    decreases fuel, 2int, list_of_tokens@.len(),
{
    if fuel == 0 {
        return Err(SteelErr::OutOfFuel);
    }
    if list_of_tokens.len() == 0 {
        return Ok(SteelVal::BoolV(true));
    }
    let v = match evaluate(&list_of_tokens[0], env, frames, natives, fuel - 1) {
        Ok(v) => v,
        Err(e) => {
            return Err(e);
        },
    };
    proof {
        assert(exprs_model(list_of_tokens@)[0] == expr_model(*list_of_tokens@[0]));
        assert(exprs_model(list_of_tokens@).drop_first() =~= exprs_model(
            list_of_tokens@.subrange(1, list_of_tokens@.len() as int),
        ));
    }
    match v {
        SteelVal::BoolV(false) => Ok(SteelVal::BoolV(false)),
        _ => {
            let rest = slice_subrange(list_of_tokens, 1, list_of_tokens.len());
            eval_and(rest, env, frames, natives, fuel)
        },
    }
}

/// Short-circuiting `or` over the operands.
pub fn eval_or<N: NativeLibrary>(
    list_of_tokens: &[Rc<Expr>],
    env: usize,
    frames: &mut Frames,
    natives: &N,
    fuel: u64,
) -> (r: Result<SteelVal, SteelErr>)
    requires
        old(frames).wf(),
        env < old(frames)@.len(),
    ensures
        final(frames).wf(),
        old(frames)@.len() <= final(frames)@.len(),
        (final(frames)@, res_model(r)) == eval_or_model(
            fuel as nat,
            exprs_model(list_of_tokens@),
            env as int,
            old(frames)@,
            natives.oracle(),
        ),
    decreases fuel, 2int, list_of_tokens@.len(),
{
    if fuel == 0 {
        return Err(SteelErr::OutOfFuel);
    }
    if list_of_tokens.len() == 0 {
        return Ok(SteelVal::BoolV(false));
    }
    let v = match evaluate(&list_of_tokens[0], env, frames, natives, fuel - 1) {
        Ok(v) => v,
        Err(e) => {
            return Err(e);
        },
    };
    proof {
        assert(exprs_model(list_of_tokens@)[0] == expr_model(*list_of_tokens@[0]));
        assert(exprs_model(list_of_tokens@).drop_first() =~= exprs_model(
            list_of_tokens@.subrange(1, list_of_tokens@.len() as int),
        ));
    }
    match v {
        SteelVal::BoolV(true) => Ok(SteelVal::BoolV(true)),
        _ => {
            let rest = slice_subrange(list_of_tokens, 1, list_of_tokens.len());
            eval_or(rest, env, frames, natives, fuel)
        },
    }
}

/// Evaluates the operands and hands them to a native function.
pub fn eval_func<N: NativeLibrary>(
    func: usize,
    list_of_tokens: &[Rc<Expr>],
    env: usize,
    frames: &mut Frames,
    natives: &N,
    fuel: u64,
) -> (r: Result<SteelVal, SteelErr>)
    requires
        old(frames).wf(),
        env < old(frames)@.len(),
    ensures
        final(frames).wf(),
        old(frames)@.len() <= final(frames)@.len(),
        ({
            let (fs2, ar) = eval_args_model(
                fuel as nat,
                exprs_model(list_of_tokens@),
                env as int,
                old(frames)@,
                natives.oracle(),
            );
            &&& final(frames)@ == fs2
            &&& res_model(r) == match ar {
                Err(e) => Err::<ValModel, ErrModel>(e),
                Ok(vs) => natives.oracle()(func as int, vs),
            }
        }),
    decreases fuel, 2int, 0int,
{
    let args_eval = match eval_args(list_of_tokens, env, frames, natives, fuel) {
        Ok(vs) => vs,
        Err(e) => {
            return Err(e);
        },
    };
    natives.call(func, args_eval)
}

/// Evaluates the operands, builds the call frame over the closure's
/// captured environment, and answers the body with the new frame handle:
/// the continuation the trampoline loops back on.
pub fn eval_lambda<N: NativeLibrary>(
    lambda: SteelLambda,
    list_of_tokens: &[Rc<Expr>],
    env: usize,
    frames: &mut Frames,
    natives: &N,
    fuel: u64,
) -> (r: Result<(Rc<Expr>, usize), SteelErr>)
    requires
        old(frames).wf(),
        env < old(frames)@.len(),
    ensures
        final(frames).wf(),
        old(frames)@.len() <= final(frames)@.len(),
        ({
            let (fs2, ar) = eval_args_model(
                fuel as nat,
                exprs_model(list_of_tokens@),
                env as int,
                old(frames)@,
                natives.oracle(),
            );
            match ar {
                Err(e2) => r matches Err(e) && final(frames)@ == fs2 && e@ == e2,
                Ok(vs) => if lambda@.params.len() != vs.len() {
                    r matches Err(e) && final(frames)@ == fs2 && e@ == arity(
                        "Function"@,
                        lambda@.params.len() as int,
                        vs.len() as int,
                    )
                } else if !(0 <= lambda@.env < fs2.len()) {
                    r matches Err(e) && final(frames)@ == fs2 && e@ == ErrModel::TypeMismatch
                } else {
                    r matches Ok((body, h)) && crate::ast::expr_model(*body) == lambda@.body && h
                        as int == fs2.len() && final(frames)@ == fs2.push(
                        frame_bind_from(
                            FrameModel {
                                parent: Some(lambda@.env),
                                names: Seq::empty(),
                                vals: Seq::empty(),
                            },
                            lambda@.params,
                            vs,
                            0,
                        ),
                    )
                },
            }
        }),
    decreases fuel, 2int, 0int,
{
    let args_eval = match eval_args(list_of_tokens, env, frames, natives, fuel) {
        Ok(vs) => vs,
        Err(e) => {
            return Err(e);
        },
    };
    let ghost fs2 = frames@;
    let ghost vs = vals_model(args_eval@);
    let params = lambda.params_exp();
    let n = params.len();
    if n != args_eval.len() {
        return Err(SteelErr::ArityMismatch {
            form: "Function".to_owned(),
            expected: n,
            got: args_eval.len(),
        });
    }
    let parent = lambda.parent_env();
    if !(parent < frames.len()) {
        return Err(SteelErr::TypeMismatch);
    }
    let h = frames.new_child(parent);
    let ghost child0 = FrameModel {
        parent: Some(lambda@.env),
        names: Seq::<Seq<char>>::empty(),
        vals: Seq::<ValModel>::empty(),
    };
    let params = lambda.params_exp();
    let mut k: usize = 0;
    while k < n
        invariant
            frames.wf(),
            n == params@.len(),
            n == args_eval@.len(),
            0 <= k <= n,
            h as int == fs2.len(),
            frames@.len() == fs2.len() + 1,
            params.deep_view() == lambda@.params,
            vs == vals_model(args_eval@),
            n == lambda@.params.len(),
            n == vs.len(),
            fs2.len() <= frames@.len(),
            frames@ == fs2.push(frames@[h as int]),
            frame_bind_from(frames@[h as int], lambda@.params, vs, k as int) == frame_bind_from(
                child0,
                lambda@.params,
                vs,
                0,
            ),
        decreases n - k,
    {
        let ghost curf = frames@[h as int];
        frames.define(h, params[k].clone(), args_eval[k].clone_val());
        proof {
            assert(lambda@.params[k as int] == params.deep_view()[k as int]);
            assert(vs[k as int] == args_eval@[k as int]@);
            assert(frames@ =~= fs2.push(
                crate::env::frame_define(curf, lambda@.params[k as int], vs[k as int]),
            ));
        }
        k += 1;
    }
    proof {
        assert(frame_bind_from(frames@[h as int], lambda@.params, vs, n as int) == frames@[h
            as int]);
        assert(frames@ == fs2.push(frame_bind_from(child0, lambda@.params, vs, 0)));
    }
    Ok((lambda.body_exp(), h))
}

/// Evaluates the test of an `if` form and answers the branch the
/// trampoline should continue with.
pub fn eval_if<N: NativeLibrary>(
    list_of_tokens: &[Rc<Expr>],
    env: usize,
    frames: &mut Frames,
    natives: &N,
    fuel: u64,
) -> (r: Result<Rc<Expr>, SteelErr>)
    requires
        old(frames).wf(),
        env < old(frames)@.len(),
    ensures
        final(frames).wf(),
        old(frames)@.len() <= final(frames)@.len(),
        list_of_tokens@.len() != 3 ==> (r matches Err(e) && final(frames)@ == old(frames)@ && e@
            == arity("If"@, 3, list_of_tokens@.len() as int)),
        list_of_tokens@.len() == 3 ==> ({
            let (fs1, tr) = eval_model(
                fuel as nat,
                exprs_model(list_of_tokens@)[0],
                env as int,
                old(frames)@,
                natives.oracle(),
            );
            &&& final(frames)@ == fs1
            &&& match r {
                Ok(next) => tr is Ok && expr_model(*next) == (if tr->Ok_0 matches ValModel::Bool(
                    true,
                ) {
                    exprs_model(list_of_tokens@)[1]
                } else {
                    exprs_model(list_of_tokens@)[2]
                }),
                Err(e) => tr matches Err(e1) && e@ == e1,
            }
        }),
    decreases fuel, 4int, 0int,
{
    if list_of_tokens.len() != 3 {
        return Err(SteelErr::ArityMismatch {
            form: "If".to_owned(),
            expected: 3,
            got: list_of_tokens.len(),
        });
    }
    match evaluate(&list_of_tokens[0], env, frames, natives, fuel) {
        Err(e) => Err(e),
        Ok(SteelVal::BoolV(true)) => Ok(Rc::clone(&list_of_tokens[1])),
        Ok(_) => Ok(Rc::clone(&list_of_tokens[2])),
    }
}

/// Evaluates the new value of a `set!` form and overwrites the nearest
/// enclosing binding of the named identifier.
pub fn eval_set<N: NativeLibrary>(
    list_of_tokens: &[Rc<Expr>],
    env: usize,
    frames: &mut Frames,
    natives: &N,
    fuel: u64,
) -> (r: Result<SteelVal, SteelErr>)
    requires
        old(frames).wf(),
        env < old(frames)@.len(),
    ensures
        final(frames).wf(),
        old(frames)@.len() <= final(frames)@.len(),
        list_of_tokens@.len() != 2 ==> (r matches Err(e) && final(frames)@ == old(frames)@ && e@
            == arity("Set"@, 2, list_of_tokens@.len() as int)),
        list_of_tokens@.len() == 2 ==> ({
            let (fs1, vr) = eval_model(
                fuel as nat,
                exprs_model(list_of_tokens@)[1],
                env as int,
                old(frames)@,
                natives.oracle(),
            );
            match vr {
                Err(e1) => r matches Err(e) && final(frames)@ == fs1 && e@ == e1,
                Ok(v) => match exprs_model(list_of_tokens@)[0] {
                    ExprModel::Atom(TokenModel::Identifier(s)) => (
                        final(frames)@,
                        res_model(r),
                    ) == set_model(fs1, env as int, s, v),
                    _ => r matches Err(e) && final(frames)@ == fs1 && e@
                        == ErrModel::TypeMismatch,
                },
            }
        }),
    decreases fuel, 4int, 0int,
{
    if list_of_tokens.len() != 2 {
        return Err(SteelErr::ArityMismatch {
            form: "Set".to_owned(),
            expected: 2,
            got: list_of_tokens.len(),
        });
    }
    let value = match evaluate(&list_of_tokens[1], env, frames, natives, fuel) {
        Ok(v) => v,
        Err(e) => {
            return Err(e);
        },
    };
    match &*list_of_tokens[0] {
        Expr::Atom(Token::Identifier(s)) => frames.set(env, s.clone(), value),
        _ => Err(SteelErr::TypeMismatch),
    }
}

/// Evaluates the operand of an `eval` form, converts the resulting value
/// back into syntax, and evaluates that syntax in the same environment.
pub fn eval_eval_expr<N: NativeLibrary>(
    list_of_tokens: &[Rc<Expr>],
    env: usize,
    frames: &mut Frames,
    natives: &N,
    fuel: u64,
) -> (r: Result<SteelVal, SteelErr>)
    requires
        old(frames).wf(),
        env < old(frames)@.len(),
    ensures
        final(frames).wf(),
        old(frames)@.len() <= final(frames)@.len(),
        list_of_tokens@.len() != 1 ==> (r matches Err(e) && final(frames)@ == old(frames)@ && e@
            == arity("Eval"@, 1, list_of_tokens@.len() as int)),
        list_of_tokens@.len() == 1 ==> ({
            let (fs1, vr) = eval_model(
                fuel as nat,
                exprs_model(list_of_tokens@)[0],
                env as int,
                old(frames)@,
                natives.oracle(),
            );
            match vr {
                Err(e1) => r matches Err(e) && final(frames)@ == fs1 && e@ == e1,
                Ok(v) => match val_to_expr_model(v) {
                    Some(e2) => (final(frames)@, res_model(r)) == eval_model(
                        fuel as nat,
                        e2,
                        env as int,
                        fs1,
                        natives.oracle(),
                    ),
                    None => r matches Err(e) && final(frames)@ == fs1 && e@
                        == ErrModel::ContractViolation,
                },
            }
        }),
    decreases fuel, 4int, 0int,
{
    if list_of_tokens.len() != 1 {
        return Err(SteelErr::ArityMismatch {
            form: "Eval".to_owned(),
            expected: 1,
            got: list_of_tokens.len(),
        });
    }
    let res_expr = match evaluate(&list_of_tokens[0], env, frames, natives, fuel) {
        Ok(v) => v,
        Err(e) => {
            return Err(e);
        },
    };
    match val_to_expr(res_expr) {
        Some(e) => evaluate(&e, env, frames, natives, fuel),
        None => Err(SteelErr::ContractViolation),
    }
}

/// Evaluates a `define` form: plain definitions bind the evaluated body,
/// and the function shorthand first rewrites itself to a lambda form.
/// Answers the handle of the frame that received the binding.
pub fn eval_define<N: NativeLibrary>(
    list_of_tokens: &[Rc<Expr>],
    env: usize,
    frames: &mut Frames,
    natives: &N,
    fuel: u64,
) -> (r: Result<usize, SteelErr>)
    requires
        old(frames).wf(),
        env < old(frames)@.len(),
    ensures
        final(frames).wf(),
        old(frames)@.len() <= final(frames)@.len(),
        ({
            let m = exprs_model(list_of_tokens@);
            let orc = natives.oracle();
            if m.len() != 2 {
                r matches Err(e) && final(frames)@ == old(frames)@ && e@ == arity(
                    "Define"@,
                    2,
                    m.len() as int,
                )
            } else {
                match m[0] {
                    ExprModel::Atom(TokenModel::Identifier(s)) => ({
                        let (fs1, br) = eval_model(fuel as nat, m[1], env as int, old(frames)@, orc);
                        match br {
                            Err(e1) => r matches Err(e) && final(frames)@ == fs1 && e@ == e1,
                            Ok(v) => r matches Ok(h) && final(frames)@ == define_model(
                                fs1,
                                env as int,
                                s,
                                v,
                            ) && h == env,
                        }
                    }),
                    ExprModel::List(ids) => if ids.len() == 0 {
                        r matches Err(e) && final(frames)@ == old(frames)@ && e@
                            == ErrModel::TypeMismatch
                    } else {
                        match ids[0] {
                            ExprModel::Atom(TokenModel::Identifier(s)) => ({
                                let synth = crate::semantics::define_desugar_model(
                                    ids.drop_first(),
                                    m[1],
                                );
                                let (fs1, br) = eval_model(
                                    fuel as nat,
                                    synth,
                                    env as int,
                                    old(frames)@,
                                    orc,
                                );
                                match br {
                                    Err(e1) => r matches Err(e) && final(frames)@ == fs1 && e@
                                        == e1,
                                    Ok(v) => r matches Ok(h) && final(frames)@ == define_model(
                                        fs1,
                                        env as int,
                                        s,
                                        v,
                                    ) && h == env,
                                }
                            }),
                            _ => r matches Err(e) && final(frames)@ == old(frames)@ && e@
                                == ErrModel::TypeMismatch,
                        }
                    },
                    _ => r matches Err(e) && final(frames)@ == old(frames)@ && e@
                        == ErrModel::TypeMismatch,
                }
            }
        }),
    decreases fuel, 4int, 0int,
{
    if list_of_tokens.len() != 2 {
        return Err(SteelErr::ArityMismatch {
            form: "Define".to_owned(),
            expected: 2,
            got: list_of_tokens.len(),
        });
    }
    let body = &list_of_tokens[1];
    match &*list_of_tokens[0] {
        Expr::Atom(Token::Identifier(s)) => {
            let eval_body = match evaluate(body, env, frames, natives, fuel) {
                Ok(v) => v,
                Err(e) => {
                    return Err(e);
                },
            };
            frames.define(env, s.clone(), eval_body);
            Ok(env)
        },
        Expr::ListVal(list_of_identifiers) => {
            if list_of_identifiers.len() == 0 {
                return Err(SteelErr::TypeMismatch);
            }
            let ghost ids = exprs_model(list_of_identifiers@);
            match &*list_of_identifiers[0] {
                Expr::Atom(Token::Identifier(s)) => {
                    let mut params: Vec<Rc<Expr>> = Vec::new();
                    let np = list_of_identifiers.len();
                    let mut j: usize = 1;
                    while j < np
                        invariant
                            np == list_of_identifiers@.len(),
                            1 <= j <= np,
                            params@.len() == j - 1,
                            forall|t: int|
                                0 <= t < j - 1 ==> params@[t] == list_of_identifiers@[t + 1],
                        decreases np - j,
                    {
                        params.push(Rc::clone(&list_of_identifiers[j]));
                        j += 1;
                    }
                    let fake_lambda: Vec<Rc<Expr>> = vec![
                        Rc::new(Expr::Atom(Token::Identifier("lambda".to_owned()))),
                        Rc::new(Expr::ListVal(params)),
                        Rc::clone(body),
                    ];
                    proof {
                        assert(exprs_model(fake_lambda@[1]->ListVal_0@) =~= ids.drop_first());
                        assert(exprs_model(fake_lambda@) =~= seq![
                            ExprModel::Atom(TokenModel::Identifier("lambda"@)),
                            ExprModel::List(ids.drop_first()),
                            expr_model(*list_of_tokens@[1]),
                        ]);
                    }
                    let constructed_lambda = Rc::new(Expr::ListVal(fake_lambda));
                    let eval_body = match evaluate(&constructed_lambda, env, frames, natives, fuel) {
                        Ok(v) => v,
                        Err(e) => {
                            return Err(e);
                        },
                    };
                    frames.define(env, s.clone(), eval_body);
                    Ok(env)
                },
                _ => Err(SteelErr::TypeMismatch),
            }
        },
        _ => Err(SteelErr::TypeMismatch),
    }
}

/// Rewrites a `let` form into the application of a lambda to the bound
/// expressions; the trampoline continues on the rewritten form.
pub fn eval_let(list_of_tokens: &[Rc<Expr>]) -> (r: Result<Rc<Expr>, SteelErr>)
    ensures
        ({
            let m = exprs_model(list_of_tokens@);
            if m.len() != 2 {
                r matches Err(e) && e@ == arity("Let"@, 2, m.len() as int)
            } else {
                match m[0] {
                    ExprModel::List(pairs) => match let_split_model(pairs) {
                        Ok((bs, es)) => r matches Ok(next) && expr_model(*next)
                            == crate::semantics::let_desugar_model(bs, es, m[1]),
                        Err(e1) => r matches Err(e) && e@ == e1,
                    },
                    _ => r matches Err(e) && e@ == ErrModel::BadSyntax,
                }
            }
        }),
{
    let ghost m = exprs_model(list_of_tokens@);
    if list_of_tokens.len() != 2 {
        return Err(SteelErr::ArityMismatch {
            form: "Let".to_owned(),
            expected: 2,
            got: list_of_tokens.len(),
        });
    }
    let bindings = &list_of_tokens[0];
    let body = &list_of_tokens[1];
    let mut bindings_to_check: Vec<Rc<Expr>> = Vec::new();
    let mut args_to_check: Vec<Rc<Expr>> = Vec::new();
    match &**bindings {
        Expr::ListVal(list_of_pairs) => {
            let ghost pairs = exprs_model(list_of_pairs@);
            proof {
                crate::ast::lemma_list_model(*list_of_pairs);
                assert(m[0] == expr_model(*list_of_tokens@[0]));
                assert(m[0] == ExprModel::List(pairs));
                assert(pairs.subrange(0, list_of_pairs@.len() as int) =~= pairs);
                assert(exprs_model(bindings_to_check@) =~= Seq::<ExprModel>::empty());
                assert(exprs_model(args_to_check@) =~= Seq::<ExprModel>::empty());
                if let_split_model(pairs) is Ok {
                    let (bs0, es0) = let_split_model(pairs)->Ok_0;
                    assert(Seq::<ExprModel>::empty() + bs0 =~= bs0);
                    assert(Seq::<ExprModel>::empty() + es0 =~= es0);
                }
            }
            let n = list_of_pairs.len();
            let mut i: usize = 0;
            while i < n
                invariant
                    n == list_of_pairs@.len(),
                    pairs == exprs_model(list_of_pairs@),
                    m == exprs_model(list_of_tokens@),
                    m.len() == 2,
                    m[0] == ExprModel::List(pairs),
                    0 <= i <= n,
                    let_split_model(pairs) == match let_split_model(
                        pairs.subrange(i as int, n as int),
                    ) {
                        Ok((bs, es)) => Ok::<(Seq<ExprModel>, Seq<ExprModel>), ErrModel>(
                            (
                                exprs_model(bindings_to_check@) + bs,
                                exprs_model(args_to_check@) + es,
                            ),
                        ),
                        Err(e) => Err(e),
                    },
                decreases n - i,
            {
                let ghost pending = pairs.subrange(i as int, n as int);
                proof {
                    assert(pending[0] == pairs[i as int]);
                    assert(pairs[i as int] == expr_model(*list_of_pairs@[i as int]));
                    assert(pending.drop_first() =~= pairs.subrange(i + 1, n as int));
                }
                match &*list_of_pairs[i] {
                    Expr::ListVal(p) => {
                        proof {
                            crate::ast::lemma_list_model(*p);
                        }
                        if p.len() == 2 {
                            let ghost bpre = exprs_model(bindings_to_check@);
                            let ghost apre = exprs_model(args_to_check@);
                            let ghost pm = exprs_model(p@);
                            bindings_to_check.push(Rc::clone(&p[0]));
                            args_to_check.push(Rc::clone(&p[1]));
                            proof {
                                assert(pm[0] == expr_model(*p@[0]));
                                assert(pm[1] == expr_model(*p@[1]));
                                assert(exprs_model(bindings_to_check@) =~= bpre.push(pm[0]));
                                assert(exprs_model(args_to_check@) =~= apre.push(pm[1]));
                                assert forall|bs: Seq<ExprModel>|
                                    bpre + (seq![pm[0]] + bs) =~= exprs_model(bindings_to_check@)
                                        + bs by {}
                                assert forall|es: Seq<ExprModel>|
                                    apre + (seq![pm[1]] + es) =~= exprs_model(args_to_check@)
                                        + es by {}
                            }
                            i += 1;
                        } else {
                            proof {
                                assert(let_split_model(pending) == Err::<
                                    (Seq<ExprModel>, Seq<ExprModel>),
                                    ErrModel,
                                >(ErrModel::BadSyntax));
                            }
                            return Err(SteelErr::BadSyntax);
                        }
                    },
                    _ => {
                        proof {
                            assert(let_split_model(pending) == Err::<
                                (Seq<ExprModel>, Seq<ExprModel>),
                                ErrModel,
                            >(ErrModel::BadSyntax));
                        }
                        return Err(SteelErr::BadSyntax);
                    },
                }
            }
            proof {
                assert(pairs.subrange(n as int, n as int) =~= Seq::<ExprModel>::empty());
                assert(exprs_model(bindings_to_check@) + Seq::<ExprModel>::empty() =~= exprs_model(
                    bindings_to_check@,
                ));
                assert(exprs_model(args_to_check@) + Seq::<ExprModel>::empty() =~= exprs_model(
                    args_to_check@,
                ));
            }
        },
        _ => {
            return Err(SteelErr::BadSyntax);
        },
    }
    let ghost bs = exprs_model(bindings_to_check@);
    let ghost es = exprs_model(args_to_check@);
    let ghost btc = bindings_to_check;
    let lambda_form: Vec<Rc<Expr>> = vec![
        Rc::new(Expr::Atom(Token::Identifier("lambda".to_owned()))),
        Rc::new(Expr::ListVal(bindings_to_check)),
        Rc::clone(body),
    ];
    let ghost lf = lambda_form;
    proof {
        crate::ast::lemma_list_model(btc);
        crate::ast::lemma_list_model(lf);
        assert(exprs_model(lf@) =~= seq![
            ExprModel::Atom(TokenModel::Identifier("lambda"@)),
            ExprModel::List(bs),
            m[1],
        ]);
    }
    let mut combined: Vec<Rc<Expr>> = Vec::new();
    combined.push(Rc::new(Expr::ListVal(lambda_form)));
    let na = args_to_check.len();
    let mut i: usize = 0;
    while i < na
        invariant
            na == args_to_check@.len(),
            es == exprs_model(args_to_check@),
            0 <= i <= na,
            combined@.len() == i + 1,
            expr_model(*combined@[0]) == ExprModel::List(
                seq![
                    ExprModel::Atom(TokenModel::Identifier("lambda"@)),
                    ExprModel::List(bs),
                    m[1],
                ],
            ),
            forall|t: int| 0 <= t < i ==> combined@[t + 1] == args_to_check@[t],
        decreases na - i,
    {
        combined.push(Rc::clone(&args_to_check[i]));
        i += 1;
    }
    let ghost comb = combined;
    let application = Rc::new(Expr::ListVal(combined));
    proof {
        crate::ast::lemma_list_model(comb);
        assert(exprs_model(comb@) =~= seq![
            ExprModel::List(
                seq![
                    ExprModel::Atom(TokenModel::Identifier("lambda"@)),
                    ExprModel::List(bs),
                    m[1],
                ],
            )
        ] + es);
    }
    Ok(application)
}

/// Evaluates all but the last operand of a `begin` form for effect and
/// answers the last one for the trampoline to continue with.
pub fn eval_begin<N: NativeLibrary>(
    list_of_tokens: &[Rc<Expr>],
    env: usize,
    frames: &mut Frames,
    natives: &N,
    fuel: u64,
) -> (r: Result<Rc<Expr>, SteelErr>)
    requires
        old(frames).wf(),
        env < old(frames)@.len(),
    ensures
        final(frames).wf(),
        old(frames)@.len() <= final(frames)@.len(),
        list_of_tokens@.len() == 0 ==> (r matches Err(e) && final(frames)@ == old(frames)@ && e@
            == arity("Begin"@, 1, 0)),
        list_of_tokens@.len() > 0 ==> ({
            let m = exprs_model(list_of_tokens@);
            let (fs1, er) = eval_effects_model(
                fuel as nat,
                m.take(m.len() - 1),
                env as int,
                old(frames)@,
                natives.oracle(),
            );
            &&& final(frames)@ == fs1
            &&& match r {
                Err(e) => er == Some(e@),
                Ok(last) => er is None && expr_model(*last) == m.last(),
            }
        }),
    decreases fuel, 2int, 0int,
{
    if list_of_tokens.len() == 0 {
        return Err(SteelErr::ArityMismatch { form: "Begin".to_owned(), expected: 1, got: 0 });
    }
    let n = list_of_tokens.len();
    let firsts = slice_subrange(list_of_tokens, 0, n - 1);
    proof {
        assert(exprs_model(list_of_tokens@).take(exprs_model(list_of_tokens@).len() - 1)
            =~= exprs_model(list_of_tokens@.subrange(0, n - 1)));
    }
    match eval_effects(firsts, env, frames, natives, fuel) {
        Ok(_) => Ok(Rc::clone(&list_of_tokens[n - 1])),
        Err(e) => Err(e),
    }
}

/// The trampolined evaluation loop: answers exactly what the step-indexed
/// semantics says for the given budget, mutating the frame arena the same
/// way.  Tail positions rewrite the loop state instead of recursing, so
/// native call depth is bounded by the nesting of non-tail sub-evaluations
/// alone, however many iterations a user-level tail loop runs.
pub fn evaluate<N: NativeLibrary>(
    expr: &Rc<Expr>,
    env: usize,
    frames: &mut Frames,
    natives: &N,
    fuel: u64,
) -> (r: Result<SteelVal, SteelErr>)
    requires
        old(frames).wf(),
        env < old(frames)@.len(),
    ensures
        final(frames).wf(),
        old(frames)@.len() <= final(frames)@.len(),
        (final(frames)@, res_model(r)) == eval_model(
            fuel as nat,
            expr_model(**expr),
            env as int,
            old(frames)@,
            natives.oracle(),
        ),
    decreases fuel, 3int, 0int,
{
    let mut cur: Rc<Expr> = Rc::clone(expr);
    let mut cenv: usize = env;
    let mut cfuel: u64 = fuel;
    let ghost orc = natives.oracle();
    loop
        invariant
            frames.wf(),
            cenv < frames@.len(),
            old(frames)@.len() <= frames@.len(),
            cfuel <= fuel,
            orc == natives.oracle(),
            eval_model(fuel as nat, expr_model(**expr), env as int, old(frames)@, orc)
                == eval_model(cfuel as nat, expr_model(*cur), cenv as int, frames@, orc),
        decreases cfuel,
    {
        if cfuel == 0 {
            return Err(SteelErr::OutOfFuel);
        }
        let sub = cfuel - 1;
        let node: Rc<Expr> = Rc::clone(&cur);
        match &*node {
            Expr::Atom(t) => {
                return eval_atom(t, cenv, frames);
            },
            Expr::ListVal(list_of_tokens) => {
                let ghost m = exprs_model(list_of_tokens@);
                if list_of_tokens.len() == 0 {
                    return Err(SteelErr::TypeMismatch);
                }
                let whole = list_of_tokens.as_slice();
                let rest = slice_subrange(whole, 1, list_of_tokens.len());
                proof {
                    assert(m[0] == expr_model(*list_of_tokens@[0]));
                    assert(rest@ =~= list_of_tokens@.subrange(1, list_of_tokens@.len() as int));
                    assert(exprs_model(rest@) =~= m.drop_first());
                }
                let head = &list_of_tokens[0];
                if expr_is_ident(head, "quote") {
                    if let Err(e) = check_length("Quote", whole, 2) {
                        return Err(e);
                    }
                    proof {
                        assert(m[1] == expr_model(*list_of_tokens@[1]));
                    }
                    return Ok(expr_to_val(&list_of_tokens[1]));
                } else if expr_is_ident(head, "if") {
                    match eval_if(rest, cenv, frames, natives, sub) {
                        Ok(next) => {
                            cur = next;
                            cfuel = sub;
                        },
                        Err(e) => {
                            return Err(e);
                        },
                    }
                } else if expr_is_ident(head, "define") {
                    match eval_define(rest, cenv, frames, natives, sub) {
                        Ok(_) => {
                            return Ok(SteelVal::Void);
                        },
                        Err(e) => {
                            return Err(e);
                        },
                    }
                } else if expr_is_ident(head, "lambda") || expr_is_ident(head, "\u{03bb}") {
                    return eval_make_lambda(rest, cenv);
                } else if expr_is_ident(head, "eval") {
                    return eval_eval_expr(rest, cenv, frames, natives, sub);
                } else if expr_is_ident(head, "set!") {
                    return eval_set(rest, cenv, frames, natives, sub);
                } else if expr_is_ident(head, "let") {
                    match eval_let(rest) {
                        Ok(next) => {
                            cur = next;
                            cfuel = sub;
                        },
                        Err(e) => {
                            return Err(e);
                        },
                    }
                } else if expr_is_ident(head, "begin") {
                    match eval_begin(rest, cenv, frames, natives, cfuel) {
                        Ok(next) => {
                            cur = next;
                            cfuel = sub;
                        },
                        Err(e) => {
                            return Err(e);
                        },
                    }
                } else if expr_is_ident(head, "and") {
                    return eval_and(rest, cenv, frames, natives, cfuel);
                } else if expr_is_ident(head, "or") {
                    return eval_or(rest, cenv, frames, natives, cfuel);
                } else {
                    match evaluate(head, cenv, frames, natives, sub) {
                        Err(e) => {
                            return Err(e);
                        },
                        Ok(SteelVal::FuncV(func)) => {
                            return eval_func(func, rest, cenv, frames, natives, cfuel);
                        },
                        Ok(SteelVal::LambdaV(lambda)) => {
                            match eval_lambda(lambda, rest, cenv, frames, natives, cfuel) {
                                Ok((new_expr, new_env)) => {
                                    cur = new_expr;
                                    cenv = new_env;
                                    cfuel = sub;
                                },
                                Err(e) => {
                                    return Err(e);
                                },
                            }
                        },
                        Ok(_) => {
                            return Err(SteelErr::TypeMismatch);
                        },
                    }
                }
            },
        }
    }
}

/// The step budget an `Evaluator` grants each top-level evaluation: large
/// enough that only a program which would in practice never finish can
/// exhaust it.
pub const EVAL_FUEL: u64 = 0xFFFF_FFFF_FFFF_FFFF;

/// Binds each name/value pair in order into the frame `env`.
pub open spec fn defines_model(
    fs: Seq<FrameModel>,
    env: int,
    items: Seq<(&'static str, SteelVal)>,
    i: int,
) -> Seq<FrameModel>
    decreases items.len() - i,
{
    if 0 <= i < items.len() {
        defines_model(define_model(fs, env, items[i].0@, items[i].1@), env, items, i + 1)
    } else {
        fs
    }
}

/// One interpreter session: the global environment frame, the arena of
/// every frame created so far, and the session's interning table.
pub struct Evaluator {
    pub frames: Frames,
    pub global_env: usize,
    pub intern_cache: crate::parser::InternTable,
}

impl Evaluator {
    pub open spec fn wf(&self) -> bool {
        &&& self.frames.wf()
        &&& (self.global_env as int) < self.frames@.len()
        &&& self.intern_cache.wf()
    }

    /// A fresh session: one empty global frame and an empty interning
    /// table.  Native bindings are supplied by the caller through
    /// `insert_binding` and a `NativeLibrary`.
    pub fn new() -> (r: Evaluator)
        ensures
            r.wf(),
            r.global_env == 0,
            r.frames@.len() == 1,
            r.frames@[0].names == Seq::<Seq<char>>::empty(),
            r.frames@[0].vals.len() == 0,
    {
        Evaluator {
            frames: Frames::new(),
            global_env: 0,
            intern_cache: crate::parser::InternTable::new(),
        }
    }

    /// Evaluates one expression against the global environment, with the
    /// session's full step budget.
    pub fn eval<N: NativeLibrary>(&mut self, expr: Expr, natives: &N) -> (r: Result<
        SteelVal,
        SteelErr,
    >)
        requires
            old(self).wf(),
        ensures
            final(self).wf(),
            final(self).global_env == old(self).global_env,
            (final(self).frames@, res_model(r)) == eval_model(
                EVAL_FUEL as nat,
                expr@,
                old(self).global_env as int,
                old(self).frames@,
                natives.oracle(),
            ),
    {
        let expr = Rc::new(expr);
        evaluate(&expr, self.global_env, &mut self.frames, natives, EVAL_FUEL)
    }

    /// Parses a whole token row and evaluates each top-level form in
    /// order: either every resulting value, or the first failure, with
    /// the effects of the forms already evaluated kept.
    pub fn parse_and_eval<N: NativeLibrary>(&mut self, tokens: Vec<Token>, natives: &N) -> (r:
        Result<Vec<SteelVal>, SteelErr>)
        requires
            old(self).wf(),
        ensures
            final(self).wf(),
            final(self).global_env == old(self).global_env,
            match crate::parser::parse_all(crate::parser::tokens_model(tokens@), 0) {
                Err(pe) => r matches Err(e) && e@ == ErrModel::Parse(pe) && final(self).frames@
                    == old(self).frames@,
                Ok(es) => ({
                    let (fs2, rr) = crate::semantics::eval_many(
                        EVAL_FUEL as nat,
                        es,
                        old(self).global_env as int,
                        old(self).frames@,
                        natives.oracle(),
                    );
                    &&& final(self).frames@ == fs2
                    &&& match r {
                        Ok(vs) => rr == Ok::<Seq<ValModel>, ErrModel>(vals_model(vs@)),
                        Err(e) => rr == Err::<Seq<ValModel>, ErrModel>(e@),
                    }
                }),
            },
    {
        let ghost toks = crate::parser::tokens_model(tokens@);
        let mut intern = crate::parser::InternTable::new();
        core::mem::swap(&mut intern, &mut self.intern_cache);
        let mut parser = crate::parser::Parser::new(tokens, intern);
        let mut parsed: Vec<Expr> = Vec::new();
        proof {
            if crate::parser::parse_all(toks, 0) is Ok {
                let es0 = crate::parser::parse_all(toks, 0)->Ok_0;
                assert(Seq::<ExprModel>::empty() + es0 =~= es0);
            }
            assert(crate::ast::expr_row_model(parsed@) =~= Seq::<ExprModel>::empty());
        }
        loop
            invariant
                parser.wf(),
                toks == parser.toks(),
                toks == crate::parser::tokens_model(tokens@),
                self.frames.wf(),
                (self.global_env as int) < self.frames@.len(),
                self.intern_cache.wf(),
                self.frames@ == old(self).frames@,
                self.global_env == old(self).global_env,
                crate::parser::parse_all(toks, 0) == match crate::parser::parse_all(
                    toks,
                    parser.pos as int,
                ) {
                    Ok(rest) => Ok::<Seq<ExprModel>, crate::parser::ParseErrModel>(
                        crate::ast::expr_row_model(parsed@) + rest,
                    ),
                    Err(er) => Err(er),
                },
            ensures
                parser.wf(),
                self.frames.wf(),
                (self.global_env as int) < self.frames@.len(),
                self.frames@ == old(self).frames@,
                self.global_env == old(self).global_env,
                toks == crate::parser::tokens_model(tokens@),
                crate::parser::parse_all(toks, 0) == Ok::<
                    Seq<ExprModel>,
                    crate::parser::ParseErrModel,
                >(crate::ast::expr_row_model(parsed@)),
            decreases parser.tokens@.len() - parser.pos,
        {
            let ghost p = parser.pos as int;
            match parser.next() {
                None => {
                    proof {
                        assert(crate::parser::parse_all(toks, p) == Ok::<
                            Seq<ExprModel>,
                            crate::parser::ParseErrModel,
                        >(Seq::empty()));
                        assert(crate::ast::expr_row_model(parsed@) + Seq::<ExprModel>::empty()
                            =~= crate::ast::expr_row_model(parsed@));
                    }
                    break;
                },
                Some(Ok(e)) => {
                    let ghost rowpre = crate::ast::expr_row_model(parsed@);
                    let ghost em = expr_model(e);
                    proof {
                        crate::parser::lemma_parse_expr_advances(toks, p);
                    }
                    parsed.push(e);
                    proof {
                        assert(crate::ast::expr_row_model(parsed@) =~= rowpre.push(em));
                        if crate::parser::parse_all(toks, parser.pos as int) is Ok {
                            let rest2 = crate::parser::parse_all(toks, parser.pos as int)->Ok_0;
                            assert(rowpre + (seq![em] + rest2) =~= crate::ast::expr_row_model(
                                parsed@,
                            ) + rest2);
                        }
                    }
                },
                Some(Err(pe)) => {
                    self.intern_cache = parser.into_intern();
                    return Err(SteelErr::Parse(pe));
                },
            }
        }
        self.intern_cache = parser.into_intern();
        let ghost all = crate::ast::expr_row_model(parsed@);
        let ghost fs0 = self.frames@;
        let ghost orc = natives.oracle();
        let mut results: Vec<SteelVal> = Vec::new();
        proof {
            let (fsx, rrx) = crate::semantics::eval_many(
                EVAL_FUEL as nat,
                all,
                self.global_env as int,
                fs0,
                orc,
            );
            if rrx is Ok {
                assert(Seq::<ValModel>::empty() + rrx->Ok_0 =~= rrx->Ok_0);
            }
            assert(vals_model(results@) =~= Seq::<ValModel>::empty());
        }
        loop
            invariant
                self.wf(),
                self.global_env == old(self).global_env,
                orc == natives.oracle(),
                fs0 == old(self).frames@,
                crate::parser::parse_all(crate::parser::tokens_model(tokens@), 0) == Ok::<
                    Seq<ExprModel>,
                    crate::parser::ParseErrModel,
                >(all),
                crate::semantics::eval_many(EVAL_FUEL as nat, all, old(self).global_env as int, fs0, orc)
                    == ({
                    let (fs2, rr) = crate::semantics::eval_many(
                        EVAL_FUEL as nat,
                        crate::ast::expr_row_model(parsed@),
                        old(self).global_env as int,
                        self.frames@,
                        orc,
                    );
                    (
                        fs2,
                        match rr {
                            Ok(vs) => Ok::<Seq<ValModel>, ErrModel>(vals_model(results@) + vs),
                            Err(e) => Err::<Seq<ValModel>, ErrModel>(e),
                        },
                    )
                }),
            decreases parsed@.len(),
        {
            if parsed.is_empty() {
                proof {
                    assert(crate::ast::expr_row_model(parsed@) =~= Seq::<ExprModel>::empty());
                    assert(vals_model(results@) + Seq::<ValModel>::empty() =~= vals_model(
                        results@,
                    ));
                }
                return Ok(results);
            }
            let ghost rowpre = crate::ast::expr_row_model(parsed@);
            let ghost fspre = self.frames@;
            let e = parsed.remove(0);
            proof {
                assert(rowpre[0] == expr_model(e));
                assert(crate::ast::expr_row_model(parsed@) =~= rowpre.drop_first());
            }
            match self.eval(e, natives) {
                Ok(v) => {
                    let ghost vpre = vals_model(results@);
                    results.push(v);
                    proof {
                        assert(vals_model(results@) =~= vpre.push(v@));
                        let (fs2, rr) = crate::semantics::eval_many(
                            EVAL_FUEL as nat,
                            crate::ast::expr_row_model(parsed@),
                            old(self).global_env as int,
                            self.frames@,
                            orc,
                        );
                        if rr is Ok {
                            assert(vpre + (seq![v@] + rr->Ok_0) =~= vals_model(results@)
                                + rr->Ok_0);
                        }
                    }
                },
                Err(e1) => {
                    return Err(e1);
                },
            }
        }
    }

    /// Removes every binding of the global frame.
    pub fn clear_bindings(&mut self)
        requires
            old(self).wf(),
        ensures
            final(self).wf(),
            final(self).global_env == old(self).global_env,
            final(self).frames@ == old(self).frames@.update(
                old(self).global_env as int,
                FrameModel {
                    parent: old(self).frames@[old(self).global_env as int].parent,
                    names: Seq::<Seq<char>>::empty(),
                    vals: Seq::<ValModel>::empty(),
                },
            ),
    {
        let g = self.global_env;
        self.frames.clear(g);
    }

    /// Binds `name` in the global frame, inserting or overwriting.
    pub fn insert_binding(&mut self, name: String, value: SteelVal)
        requires
            old(self).wf(),
        ensures
            final(self).wf(),
            final(self).global_env == old(self).global_env,
            final(self).frames@ == define_model(
                old(self).frames@,
                old(self).global_env as int,
                name@,
                value@,
            ),
    {
        let g = self.global_env;
        self.frames.define(g, name, value);
    }

    /// Binds each pair in order into the global frame.
    pub fn insert_bindings(&mut self, vals: Vec<(&'static str, SteelVal)>)
        requires
            old(self).wf(),
        ensures
            final(self).wf(),
            final(self).global_env == old(self).global_env,
            final(self).frames@ == defines_model(
                old(self).frames@,
                old(self).global_env as int,
                vals@,
                0,
            ),
    {
        let n = vals.len();
        let mut k: usize = 0;
        while k < n
            invariant
                self.wf(),
                self.global_env == old(self).global_env,
                n == vals@.len(),
                0 <= k <= n,
                defines_model(self.frames@, old(self).global_env as int, vals@, k as int)
                    == defines_model(old(self).frames@, old(self).global_env as int, vals@, 0),
            decreases n - k,
        {
            let g = self.global_env;
            let name: &'static str = vals[k].0;
            let value = vals[k].1.clone_val();
            self.frames.define(g, name.to_owned(), value);
            k += 1;
        }
    }

    /// Looks `name` up along the global frame's chain.
    pub fn lookup_binding(&mut self, name: &str) -> (r: Result<SteelVal, SteelErr>)
        requires
            old(self).wf(),
        ensures
            *final(self) == *old(self),
            res_model(r) == crate::env::lookup_model(
                old(self).frames@,
                old(self).global_env as int,
                name@,
            ),
    {
        self.frames.lookup(self.global_env, name)
    }
}

impl Default for Evaluator {
    /// The same fresh session `new` builds.
    fn default() -> (r: Evaluator)
        ensures
            r.wf(),
            r.global_env == 0,
            r.frames@.len() == 1,
    {
        Evaluator::new()
    }
}

} // verus!
