//! Laws of the environment and of quotation, stated once and proved for
//! every input.

use vstd::prelude::*;

use crate::ast::ExprModel;
use crate::env::{
    define_model, find_name, frame_define, frame_lookup, frames_wf, lemma_find_name_at,
    lemma_find_name_props, lookup_model, set_model, FrameModel,
};
use crate::semantics::{eval_model, Oracle};
use crate::tokens::TokenModel;
use crate::values::{
    expr_to_val_model, lemma_expr_val_round_trip, val_to_expr_model, ErrModel, ValModel,
};

verus! {

/// A name absent from the column lands at its end when pushed.
pub proof fn lemma_find_name_push(names: Seq<Seq<char>>, name: Seq<char>)
    requires
        find_name(names, name) is None,
    ensures
        find_name(names.push(name), name) == Some(names.len() as int),
{
    lemma_find_name_props(names, name);
    let pushed = names.push(name);
    assert forall|j: int| 0 <= j < names.len() implies pushed[j] != name by {
        assert(pushed[j] == names[j]);
    }
    lemma_find_name_at(pushed, name, names.len() as int);
}

/// `define x v` never fails and makes `lookup x` answer `v`; a following
/// `set! x v2` succeeds and makes `lookup x` answer `v2`.  `define` of a
/// name already bound simply overwrites, again without failing: the
/// definition of `define_model` is total and returns no failure at all.
pub proof fn lemma_define_set_lookup(
    fs: Seq<FrameModel>,
    env: int,
    name: Seq<char>,
    v: ValModel,
    v2: ValModel,
)
    requires
        frames_wf(fs),
        0 <= env < fs.len(),
    ensures
        ({
            let fs1 = define_model(fs, env, name, v);
            let (fs2, r) = set_model(fs1, env, name, v2);
            &&& lookup_model(fs1, env, name) == Ok::<ValModel, ErrModel>(v)
            &&& r == Ok::<ValModel, ErrModel>(ValModel::Void)
            &&& lookup_model(fs2, env, name) == Ok::<ValModel, ErrModel>(v2)
        }),
{
    let f = fs[env];
    let f1 = frame_define(f, name, v);
    let fs1 = define_model(fs, env, name, v);
    assert(fs1[env] == f1);
    lemma_find_name_props(f.names, name);
    match find_name(f.names, name) {
        Some(i) => {
            assert(f1.names == f.names);
            assert(find_name(f1.names, name) == Some(i));
            assert(frame_lookup(f1, name) == Some(v));
            let fs2 = fs1.update(
                env,
                FrameModel { vals: f1.vals.update(i, v2), ..f1 },
            );
            assert(set_model(fs1, env, name, v2) == (
                fs2,
                Ok::<ValModel, ErrModel>(ValModel::Void),
            ));
            assert(frame_lookup(fs2[env], name) == Some(v2));
        },
        None => {
            let i = f.names.len() as int;
            lemma_find_name_push(f.names, name);
            assert(f1.names == f.names.push(name));
            assert(find_name(f1.names, name) == Some(i));
            assert(f1.vals == f.vals.push(v));
            assert(f1.vals[i] == v);
            assert(frame_lookup(f1, name) == Some(v));
            let fs2 = fs1.update(
                env,
                FrameModel { vals: f1.vals.update(i, v2), ..f1 },
            );
            assert(set_model(fs1, env, name, v2) == (
                fs2,
                Ok::<ValModel, ErrModel>(ValModel::Void),
            ));
            assert(frame_lookup(fs2[env], name) == Some(v2));
        },
    }
}

/// `set!` of a name that no frame along the chain binds fails with an
/// unbound-identifier failure and leaves every frame exactly as it was.
pub proof fn lemma_set_unbound(fs: Seq<FrameModel>, env: int, name: Seq<char>, v: ValModel)
    requires
        frames_wf(fs),
        lookup_model(fs, env, name) is Err,
    ensures
        set_model(fs, env, name, v) == (fs, Err::<ValModel, ErrModel>(ErrModel::Unbound(name))),
    decreases env,
{
    if 0 <= env < fs.len() {
        lemma_find_name_props(fs[env].names, name);
        match find_name(fs[env].names, name) {
            Some(i) => {
                assert(frame_lookup(fs[env], name) is Some);
            },
            None => {
                assert(frame_lookup(fs[env], name) is None);
                match fs[env].parent {
                    Some(p) => {
                        if 0 <= p < env {
                            lemma_set_unbound(fs, p, name, v);
                        }
                    },
                    None => {},
                }
            },
        }
    }
}

/// `quote` answers its operand unevaluated, as a value, touching nothing.
pub proof fn lemma_quote_unevaluated(
    fuel: nat,
    x: ExprModel,
    env: int,
    fs: Seq<FrameModel>,
    orc: Oracle,
)
    requires
        fuel >= 1,
    ensures
        eval_model(
            fuel,
            ExprModel::List(seq![ExprModel::Atom(TokenModel::Identifier("quote"@)), x]),
            env,
            fs,
            orc,
        ) == (fs, Ok::<ValModel, ErrModel>(expr_to_val_model(x))),
{
    let items = seq![ExprModel::Atom(TokenModel::Identifier("quote"@)), x];
    assert(items.len() == 2);
    assert(items[1] == x);
}

/// The round trip: `(eval (quote e))` answers exactly what evaluating `e`
/// directly answers, with the step budget the inner evaluation receives,
/// for every expression, environment, arena and native library.
pub proof fn lemma_eval_quote_round_trip(
    fuel: nat,
    e: ExprModel,
    env: int,
    fs: Seq<FrameModel>,
    orc: Oracle,
)
    requires
        fuel >= 2,
    ensures
        eval_model(
            fuel,
            ExprModel::List(
                seq![
                    ExprModel::Atom(TokenModel::Identifier("eval"@)),
                    ExprModel::List(
                        seq![ExprModel::Atom(TokenModel::Identifier("quote"@)), e],
                    ),
                ],
            ),
            env,
            fs,
            orc,
        ) == eval_model((fuel - 1) as nat, e, env, fs, orc),
{
    reveal_strlit("quote");
    reveal_strlit("if");
    reveal_strlit("define");
    reveal_strlit("lambda");
    reveal_strlit("\u{03bb}");
    reveal_strlit("eval");
    let quoted = ExprModel::List(seq![ExprModel::Atom(TokenModel::Identifier("quote"@)), e]);
    let whole = seq![ExprModel::Atom(TokenModel::Identifier("eval"@)), quoted];
    assert(whole.len() == 2);
    assert(whole.drop_first() =~= seq![quoted]);
    assert(whole.drop_first()[0] == quoted);
    lemma_quote_unevaluated((fuel - 1) as nat, e, env, fs, orc);
    lemma_expr_val_round_trip(e);
    assert(val_to_expr_model(expr_to_val_model(e)) == Some(e));
    let sub = (fuel - 1) as nat;
    assert("quote"@.len() == 5);
    assert("if"@.len() == 2);
    assert("define"@.len() == 6);
    assert("lambda"@.len() == 6);
    assert("\u{03bb}"@.len() == 1);
    assert("eval"@.len() == 4);
    assert(!crate::ast::is_ident(whole[0], "quote"@));
    assert(!crate::ast::is_ident(whole[0], "if"@));
    assert(!crate::ast::is_ident(whole[0], "define"@));
    assert(!crate::ast::is_ident(whole[0], "lambda"@));
    assert(!crate::ast::is_ident(whole[0], "\u{03bb}"@));
    assert(crate::ast::is_ident(whole[0], "eval"@));
}

} // verus!
