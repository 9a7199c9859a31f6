//! The mathematical semantics of evaluation.
//!
//! `eval_model` is a step-indexed interpreter over the models of syntax,
//! values and frames.  Every sub-evaluation and every tail continuation
//! runs on one unit less of the step budget, so the function is total;
//! a run that would need more steps answers `OutOfFuel`.  The executable
//! evaluator is proved to return exactly what `eval_model` says, with the
//! budget it was given.
//!
//! Native functions are opaque: an oracle maps a native handle and the
//! argument values to the result, and the semantics is parametric in it.

use vstd::prelude::*;

use crate::ast::{is_ident, ExprModel};
use crate::env::{define_model, frame_define, lookup_model, set_model, FrameModel};
use crate::tokens::TokenModel;
use crate::values::{expr_to_val_model, val_to_expr_model, ErrModel, LambdaModel, ValModel};

verus! {

/// Decides what a native handle returns for given argument values.
pub type Oracle = spec_fn(int, Seq<ValModel>) -> Result<ValModel, ErrModel>;

/// An arity failure for the named form.
pub open spec fn arity(form: Seq<char>, expected: int, got: int) -> ErrModel {
    ErrModel::Arity { form, expected, got }
}

/// Value of an atom: literals are self-evaluating, identifiers are looked
/// up, structural tokens cannot be evaluated.
pub open spec fn eval_atom_model(t: TokenModel, env: int, fs: Seq<FrameModel>) -> Result<
    ValModel,
    ErrModel,
> {
    match t {
        TokenModel::BooleanLiteral(b) => Ok(ValModel::Bool(b)),
        TokenModel::Identifier(s) => lookup_model(fs, env, s),
        TokenModel::NumberLiteral(n) => Ok(ValModel::Num(n)),
        TokenModel::StringLiteral(s) => Ok(ValModel::Str(s)),
        _ => Err(ErrModel::UnexpectedToken(t)),
    }
}

/// Parameter names of a lambda form: every element must be an identifier.
pub open spec fn parse_idents_model(items: Seq<ExprModel>) -> Result<Seq<Seq<char>>, ErrModel>
    decreases items.len(),
{
    if items.len() == 0 {
        Ok(Seq::empty())
    } else {
        match items[0] {
            ExprModel::Atom(TokenModel::Identifier(s)) => match parse_idents_model(
                items.drop_first(),
            ) {
                Ok(rest) => Ok(seq![s] + rest),
                Err(e) => Err(e),
            },
            _ => Err(ErrModel::TypeMismatch),
        }
    }
}

/// What a lambda form denotes: a closure over the current frame, or the
/// failure a malformed form earns.
pub open spec fn make_lambda_model(args: Seq<ExprModel>, env: int) -> Result<ValModel, ErrModel> {
    if args.len() != 2 {
        Err(arity("Lambda"@, 2, args.len() as int))
    } else {
        match args[0] {
            ExprModel::List(ids) => match parse_idents_model(ids) {
                Ok(params) => Ok(
                    ValModel::Lambda(LambdaModel { params, body: args[1], env }),
                ),
                Err(e) => Err(e),
            },
            _ => Err(ErrModel::TypeMismatch),
        }
    }
}

/// Splits `let` binding pairs into the bound names and the bound
/// expressions; any non-pair is bad syntax.
pub open spec fn let_split_model(pairs: Seq<ExprModel>) -> Result<
    (Seq<ExprModel>, Seq<ExprModel>),
    ErrModel,
>
    decreases pairs.len(),
{
    if pairs.len() == 0 {
        Ok((Seq::empty(), Seq::empty()))
    } else {
        match pairs[0] {
            ExprModel::List(p) => if p.len() == 2 {
                match let_split_model(pairs.drop_first()) {
                    Ok((bs, es)) => Ok((seq![p[0]] + bs, seq![p[1]] + es)),
                    Err(e) => Err(e),
                }
            } else {
                Err(ErrModel::BadSyntax)
            },
            _ => Err(ErrModel::BadSyntax),
        }
    }
}

/// The application a `let` form rewrites to: a lambda over the bound
/// names, applied to the bound expressions.
pub open spec fn let_desugar_model(bindings: Seq<ExprModel>, args: Seq<ExprModel>, body: ExprModel)
    -> ExprModel {
    ExprModel::List(
        seq![
            ExprModel::List(
                seq![
                    ExprModel::Atom(TokenModel::Identifier("lambda"@)),
                    ExprModel::List(bindings),
                    body,
                ],
            )
        ] + args,
    )
}

/// The lambda form a shorthand `define` rewrites its body to.
pub open spec fn define_desugar_model(params: Seq<ExprModel>, body: ExprModel) -> ExprModel {
    ExprModel::List(
        seq![
            ExprModel::Atom(TokenModel::Identifier("lambda"@)),
            ExprModel::List(params),
            body,
        ],
    )
}

/// Binds parameter names to argument values positionally, left to right,
/// into the frame `f`; a repeated name keeps its first slot and takes the
/// later value, exactly as repeated `define`s would.
pub open spec fn frame_bind_from(
    f: FrameModel,
    names: Seq<Seq<char>>,
    vals: Seq<ValModel>,
    i: int,
) -> FrameModel
    decreases names.len() - i,
{
    if 0 <= i < names.len() && i < vals.len() {
        frame_bind_from(frame_define(f, names[i], vals[i]), names, vals, i + 1)
    } else {
        f
    }
}

/// One step-indexed evaluation: dispatch on the expression, thread the
/// frame arena through every sub-evaluation, and answer the final arena
/// together with the value or failure.
pub open spec fn eval_model(
    fuel: nat,
    e: ExprModel,
    env: int,
    fs: Seq<FrameModel>,
    orc: Oracle,
) -> (Seq<FrameModel>, Result<ValModel, ErrModel>)
    decreases fuel, 1int, 0int,
{
    if fuel == 0 {
        (fs, Err(ErrModel::OutOfFuel))
    } else {
        let sub = (fuel - 1) as nat;
        match e {
            ExprModel::Atom(t) => (fs, eval_atom_model(t, env, fs)),
            ExprModel::List(items) => {
                if items.len() == 0 {
                    (fs, Err(ErrModel::TypeMismatch))
                } else {
                    let head = items[0];
                    let args = items.drop_first();
                    if is_ident(head, "quote"@) {
                        if items.len() != 2 {
                            (fs, Err(arity("Quote"@, 2, items.len() as int)))
                        } else {
                            (fs, Ok(expr_to_val_model(items[1])))
                        }
                    } else if is_ident(head, "if"@) {
                        if args.len() != 3 {
                            (fs, Err(arity("If"@, 3, args.len() as int)))
                        } else {
                            let (fs1, tr) = eval_model(sub, args[0], env, fs, orc);
                            match tr {
                                Err(e1) => (fs1, Err(e1)),
                                Ok(tv) => eval_model(
                                    sub,
                                    if tv matches ValModel::Bool(true) {
                                        args[1]
                                    } else {
                                        args[2]
                                    },
                                    env,
                                    fs1,
                                    orc,
                                ),
                            }
                        }
                    } else if is_ident(head, "define"@) {
                        if args.len() != 2 {
                            (fs, Err(arity("Define"@, 2, args.len() as int)))
                        } else {
                            match args[0] {
                                ExprModel::Atom(TokenModel::Identifier(s)) => {
                                    let (fs1, br) = eval_model(sub, args[1], env, fs, orc);
                                    match br {
                                        Err(e1) => (fs1, Err(e1)),
                                        Ok(v) => (
                                            define_model(fs1, env, s, v),
                                            Ok(ValModel::Void),
                                        ),
                                    }
                                },
                                ExprModel::List(ids) => {
                                    if ids.len() == 0 {
                                        (fs, Err(ErrModel::TypeMismatch))
                                    } else {
                                        match ids[0] {
                                            ExprModel::Atom(TokenModel::Identifier(s)) => {
                                                let synth = define_desugar_model(
                                                    ids.drop_first(),
                                                    args[1],
                                                );
                                                let (fs1, br) = eval_model(
                                                    sub,
                                                    synth,
                                                    env,
                                                    fs,
                                                    orc,
                                                );
                                                match br {
                                                    Err(e1) => (fs1, Err(e1)),
                                                    Ok(v) => (
                                                        define_model(fs1, env, s, v),
                                                        Ok(ValModel::Void),
                                                    ),
                                                }
                                            },
                                            _ => (fs, Err(ErrModel::TypeMismatch)),
                                        }
                                    }
                                },
                                _ => (fs, Err(ErrModel::TypeMismatch)),
                            }
                        }
                    } else if is_ident(head, "lambda"@) || is_ident(head, "\u{03bb}"@) {
                        (fs, make_lambda_model(args, env))
                    } else if is_ident(head, "eval"@) {
                        if args.len() != 1 {
                            (fs, Err(arity("Eval"@, 1, args.len() as int)))
                        } else {
                            let (fs1, vr) = eval_model(sub, args[0], env, fs, orc);
                            match vr {
                                Err(e1) => (fs1, Err(e1)),
                                Ok(v) => match val_to_expr_model(v) {
                                    Some(e2) => eval_model(sub, e2, env, fs1, orc),
                                    None => (fs1, Err(ErrModel::ContractViolation)),
                                },
                            }
                        }
                    } else if is_ident(head, "set!"@) {
                        if args.len() != 2 {
                            (fs, Err(arity("Set"@, 2, args.len() as int)))
                        } else {
                            let (fs1, vr) = eval_model(sub, args[1], env, fs, orc);
                            match vr {
                                Err(e1) => (fs1, Err(e1)),
                                Ok(v) => match args[0] {
                                    ExprModel::Atom(TokenModel::Identifier(s)) => set_model(
                                        fs1,
                                        env,
                                        s,
                                        v,
                                    ),
                                    _ => (fs1, Err(ErrModel::TypeMismatch)),
                                },
                            }
                        }
                    } else if is_ident(head, "let"@) {
                        if args.len() != 2 {
                            (fs, Err(arity("Let"@, 2, args.len() as int)))
                        } else {
                            match args[0] {
                                ExprModel::List(pairs) => match let_split_model(pairs) {
                                    Ok((bs, es)) => eval_model(
                                        sub,
                                        let_desugar_model(bs, es, args[1]),
                                        env,
                                        fs,
                                        orc,
                                    ),
                                    Err(e1) => (fs, Err(e1)),
                                },
                                _ => (fs, Err(ErrModel::BadSyntax)),
                            }
                        }
                    } else if is_ident(head, "begin"@) {
                        if args.len() == 0 {
                            (fs, Err(arity("Begin"@, 1, 0)))
                        } else {
                            let (fs1, er) = eval_effects_model(
                                fuel,
                                args.take(args.len() - 1),
                                env,
                                fs,
                                orc,
                            );
                            match er {
                                Some(e1) => (fs1, Err(e1)),
                                None => eval_model(sub, args.last(), env, fs1, orc),
                            }
                        }
                    } else if is_ident(head, "and"@) {
                        eval_and_model(fuel, args, env, fs, orc)
                    } else if is_ident(head, "or"@) {
                        eval_or_model(fuel, args, env, fs, orc)
                    } else {
                        let (fs1, hr) = eval_model(sub, head, env, fs, orc);
                        match hr {
                            Err(e1) => (fs1, Err(e1)),
                            Ok(ValModel::Func(id)) => {
                                let (fs2, ar) = eval_args_model(fuel, args, env, fs1, orc);
                                match ar {
                                    Err(e2) => (fs2, Err(e2)),
                                    Ok(vs) => (fs2, orc(id, vs)),
                                }
                            },
                            Ok(ValModel::Lambda(lm)) => {
                                let (fs2, ar) = eval_args_model(fuel, args, env, fs1, orc);
                                match ar {
                                    Err(e2) => (fs2, Err(e2)),
                                    Ok(vs) => {
                                        if lm.params.len() != vs.len() {
                                            (
                                                fs2,
                                                Err(arity(
                                                    "Function"@,
                                                    lm.params.len() as int,
                                                    vs.len() as int,
                                                )),
                                            )
                                        } else if !(0 <= lm.env < fs2.len()) {
                                            (fs2, Err(ErrModel::TypeMismatch))
                                        } else {
                                            let child = frame_bind_from(
                                                FrameModel {
                                                    parent: Some(lm.env),
                                                    names: Seq::empty(),
                                                    vals: Seq::empty(),
                                                },
                                                lm.params,
                                                vs,
                                                0,
                                            );
                                            eval_model(
                                                sub,
                                                lm.body,
                                                fs2.len() as int,
                                                fs2.push(child),
                                                orc,
                                            )
                                        }
                                    },
                                }
                            },
                            Ok(_) => (fs1, Err(ErrModel::TypeMismatch)),
                        }
                    }
                }
            },
        }
    }
}

/// Evaluates a row of top-level forms in order, each on the full step
/// budget, threading the arena; stops at the first failure, keeping the
/// effects of the forms already evaluated.
pub open spec fn eval_many(
    fuel: nat,
    es: Seq<ExprModel>,
    env: int,
    fs: Seq<FrameModel>,
    orc: Oracle,
) -> (Seq<FrameModel>, Result<Seq<ValModel>, ErrModel>)
    decreases es.len(),
{
    if es.len() == 0 {
        (fs, Ok(Seq::empty()))
    } else {
        let (fs1, r0) = eval_model(fuel, es[0], env, fs, orc);
        match r0 {
            Err(e) => (fs1, Err(e)),
            Ok(v) => {
                let (fs2, rr) = eval_many(fuel, es.drop_first(), env, fs1, orc);
                match rr {
                    Err(e) => (fs2, Err(e)),
                    Ok(vs) => (fs2, Ok(seq![v] + vs)),
                }
            },
        }
    }
}

/// Evaluates a row of expressions left to right, each on one unit less of
/// budget, threading the arena; stops at the first failure.
pub open spec fn eval_args_model(
    fuel: nat,
    items: Seq<ExprModel>,
    env: int,
    fs: Seq<FrameModel>,
    orc: Oracle,
) -> (Seq<FrameModel>, Result<Seq<ValModel>, ErrModel>)
    decreases fuel, 0int, items.len(),
{
    if fuel == 0 {
        (fs, Err(ErrModel::OutOfFuel))
    } else if items.len() == 0 {
        (fs, Ok(Seq::empty()))
    } else {
        let (fs1, r0) = eval_model((fuel - 1) as nat, items[0], env, fs, orc);
        match r0 {
            Err(e) => (fs1, Err(e)),
            Ok(v) => {
                let (fs2, rr) = eval_args_model(fuel, items.drop_first(), env, fs1, orc);
                match rr {
                    Err(e) => (fs2, Err(e)),
                    Ok(vs) => (fs2, Ok(seq![v] + vs)),
                }
            },
        }
    }
}

/// Evaluates a row of expressions for effect only; answers the first
/// failure, if any.
pub open spec fn eval_effects_model(
    fuel: nat,
    items: Seq<ExprModel>,
    env: int,
    fs: Seq<FrameModel>,
    orc: Oracle,
) -> (Seq<FrameModel>, Option<ErrModel>)
    decreases fuel, 0int, items.len(),
{
    if fuel == 0 {
        (fs, Some(ErrModel::OutOfFuel))
    } else if items.len() == 0 {
        (fs, None)
    } else {
        let (fs1, r0) = eval_model((fuel - 1) as nat, items[0], env, fs, orc);
        match r0 {
            Err(e) => (fs1, Some(e)),
            Ok(_) => eval_effects_model(fuel, items.drop_first(), env, fs1, orc),
        }
    }
}

/// Short-circuiting `and`: the first operand that answers the boolean
/// false decides; any other value is passed over, and an empty row is
/// true.
pub open spec fn eval_and_model(
    fuel: nat,
    items: Seq<ExprModel>,
    env: int,
    fs: Seq<FrameModel>,
    orc: Oracle,
) -> (Seq<FrameModel>, Result<ValModel, ErrModel>)
    decreases fuel, 0int, items.len(),
{
    if fuel == 0 {
        (fs, Err(ErrModel::OutOfFuel))
    } else if items.len() == 0 {
        (fs, Ok(ValModel::Bool(true)))
    } else {
        let (fs1, r0) = eval_model((fuel - 1) as nat, items[0], env, fs, orc);
        match r0 {
            Err(e) => (fs1, Err(e)),
            Ok(ValModel::Bool(false)) => (fs1, Ok(ValModel::Bool(false))),
            Ok(_) => eval_and_model(fuel, items.drop_first(), env, fs1, orc),
        }
    }
}

/// Short-circuiting `or`: the first operand that answers the boolean true
/// decides; any other value is passed over, and an empty row is false.
pub open spec fn eval_or_model(
    fuel: nat,
    items: Seq<ExprModel>,
    env: int,
    fs: Seq<FrameModel>,
    orc: Oracle,
) -> (Seq<FrameModel>, Result<ValModel, ErrModel>)
    decreases fuel, 0int, items.len(),
{
    if fuel == 0 {
        (fs, Err(ErrModel::OutOfFuel))
    } else if items.len() == 0 {
        (fs, Ok(ValModel::Bool(false)))
    } else {
        let (fs1, r0) = eval_model((fuel - 1) as nat, items[0], env, fs, orc);
        match r0 {
            Err(e) => (fs1, Err(e)),
            Ok(ValModel::Bool(true)) => (fs1, Ok(ValModel::Bool(true))),
            Ok(_) => eval_or_model(fuel, items.drop_first(), env, fs1, orc),
        }
    }
}

} // verus!
