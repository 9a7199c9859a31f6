use std::rc::Rc;

use steel::Expr::{Atom, ListVal};
use steel::Token::{BooleanLiteral, Identifier, NumberLiteral, StringLiteral};
use steel::{
    check_length, eval_define, eval_if, eval_let, eval_make_lambda, evaluate,
    parse_list_of_identifiers, Evaluator, Frames, NativeLibrary, SteelErr, SteelVal, Token,
    EVAL_FUEL,
};

/// A native library whose calls always fail: enough for forms that never
/// reach a native function.
struct NoNatives;

impl NativeLibrary for NoNatives {
    fn oracle(&self) -> steel::Oracle {
        unreachable!()
    }

    fn call(&self, _func: usize, _args: Vec<SteelVal>) -> Result<SteelVal, SteelErr> {
        Err(SteelErr::TypeMismatch)
    }
}

const ADD: usize = 0;
const SUB: usize = 1;
const MUL: usize = 2;
const EQN: usize = 3;
const BOOM: usize = 4;

/// Arithmetic natives over the bit-pattern number representation; the
/// `boom` handle always fails, which makes short-circuiting observable.
struct Arith;

impl Arith {
    fn new() -> Arith {
        Arith
    }
}

fn nums(args: &[SteelVal]) -> Vec<f64> {
    args.iter()
        .map(|a| match a {
            SteelVal::NumV(n) => f64::from_bits(*n),
            _ => panic!("number expected"),
        })
        .collect()
}

impl NativeLibrary for Arith {
    fn oracle(&self) -> steel::Oracle {
        unreachable!()
    }

    fn call(&self, func: usize, args: Vec<SteelVal>) -> Result<SteelVal, SteelErr> {
        match func {
            ADD => Ok(SteelVal::NumV(nums(&args).iter().sum::<f64>().to_bits())),
            SUB => {
                let xs = nums(&args);
                let mut acc = xs[0];
                for x in &xs[1..] {
                    acc -= x;
                }
                Ok(SteelVal::NumV(acc.to_bits()))
            },
            MUL => Ok(SteelVal::NumV(nums(&args).iter().product::<f64>().to_bits())),
            EQN => {
                let xs = nums(&args);
                Ok(SteelVal::BoolV(xs[0] == xs[1]))
            },
            _ => Err(SteelErr::ContractViolation),
        }
    }
}

fn tokenize(src: &str) -> Vec<Token> {
    let cs: Vec<char> = src.chars().collect();
    let mut out = Vec::new();
    let mut i = 0;
    while i < cs.len() {
        let c = cs[i];
        if c.is_whitespace() {
            i += 1;
        } else if c == '(' {
            out.push(Token::OpenParen);
            i += 1;
        } else if c == ')' {
            out.push(Token::CloseParen);
            i += 1;
        } else if c == '\'' {
            out.push(Token::QuoteTick);
            i += 1;
        } else if c == '"' {
            i += 1;
            let mut s = String::new();
            while i < cs.len() && cs[i] != '"' {
                s.push(cs[i]);
                i += 1;
            }
            i += 1;
            out.push(Token::StringLiteral(s));
        } else {
            let mut s = String::new();
            while i < cs.len() && !cs[i].is_whitespace() && cs[i] != '(' && cs[i] != ')'
                && cs[i] != '\'' {
                s.push(cs[i]);
                i += 1;
            }
            if s == "#t" {
                out.push(Token::BooleanLiteral(true));
            } else if s == "#f" {
                out.push(Token::BooleanLiteral(false));
            } else if let Ok(n) = s.parse::<f64>() {
                out.push(Token::NumberLiteral(n.to_bits()));
            } else {
                out.push(Token::Identifier(s));
            }
        }
    }
    out
}

fn arith_session() -> Evaluator {
    let mut ev = Evaluator::new();
    ev.insert_bindings(vec![
        ("+", SteelVal::FuncV(ADD)),
        ("-", SteelVal::FuncV(SUB)),
        ("*", SteelVal::FuncV(MUL)),
        ("=", SteelVal::FuncV(EQN)),
        ("boom", SteelVal::FuncV(BOOM)),
    ]);
    ev
}

fn run(src: &str) -> Result<Vec<SteelVal>, SteelErr> {
    let mut ev = arith_session();
    ev.parse_and_eval(tokenize(src), &Arith::new())
}

fn num(x: f64) -> SteelVal {
    SteelVal::NumV(x.to_bits())
}

#[test]
fn length_test() {
    let tokens = vec![
        Rc::new(Atom(NumberLiteral(1.0f64.to_bits()))),
        Rc::new(Atom(NumberLiteral(2.0f64.to_bits()))),
    ];
    assert!(check_length("Test", &tokens, 2).is_ok());
}

#[test]
fn mismatch_test() {
    let tokens = vec![
        Rc::new(Atom(NumberLiteral(1.0f64.to_bits()))),
        Rc::new(Atom(NumberLiteral(2.0f64.to_bits()))),
    ];
    assert!(check_length("Test", &tokens, 1).is_err());
}

#[test]
fn non_symbols_test() {
    let identifier = Rc::new(ListVal(vec![
        Rc::new(Atom(NumberLiteral(1.0f64.to_bits()))),
        Rc::new(Atom(NumberLiteral(2.0f64.to_bits()))),
    ]));
    let res = parse_list_of_identifiers(identifier);
    assert!(res.is_err());
}

#[test]
fn symbols_test() {
    let identifier = Rc::new(ListVal(vec![
        Rc::new(Atom(Identifier("a".to_string()))),
        Rc::new(Atom(Identifier("b".to_string()))),
    ]));
    let res = parse_list_of_identifiers(identifier);
    assert_eq!(res.unwrap(), vec!["a".to_string(), "b".to_string()]);
}

#[test]
fn malformed_test() {
    let identifier = Rc::new(Atom(Identifier("a".to_string())));
    let res = parse_list_of_identifiers(identifier);
    assert!(res.is_err());
}

#[test]
fn not_enough_args_test() {
    let list = vec![Rc::new(Atom(Identifier("a".to_string())))];
    let res = eval_make_lambda(&list, 0);
    assert!(res.is_err());
}

#[test]
fn not_list_val_test() {
    let list = vec![
        Rc::new(Atom(Identifier("a".to_string()))),
        Rc::new(Atom(Identifier("b".to_string()))),
        Rc::new(Atom(Identifier("c".to_string()))),
    ];
    let res = eval_make_lambda(&list[1..], 0);
    assert!(res.is_err());
}

#[test]
fn evaluator_ok_test() {
    let list = vec![
        Rc::new(Atom(Identifier("a".to_string()))),
        Rc::new(ListVal(vec![Rc::new(Atom(Identifier("b".to_string())))])),
        Rc::new(Atom(Identifier("c".to_string()))),
    ];
    let res = eval_make_lambda(&list[1..], 0);
    assert!(res.is_ok());
}

#[test]
fn true_test() {
    let mut frames = Frames::new();
    let list = vec![
        Rc::new(Atom(Token::Identifier("if".to_string()))),
        Rc::new(Atom(BooleanLiteral(true))),
        Rc::new(Atom(BooleanLiteral(true))),
        Rc::new(Atom(BooleanLiteral(false))),
    ];
    let res = eval_if(&list[1..], 0, &mut frames, &NoNatives, EVAL_FUEL);
    assert_eq!(res.unwrap(), Rc::new(Atom(BooleanLiteral(true))));
}

#[test]
fn false_test() {
    let mut frames = Frames::new();
    let list = vec![
        Rc::new(Atom(Token::Identifier("if".to_string()))),
        Rc::new(Atom(BooleanLiteral(false))),
        Rc::new(Atom(BooleanLiteral(true))),
        Rc::new(Atom(BooleanLiteral(false))),
    ];
    let res = eval_if(&list[1..], 0, &mut frames, &NoNatives, EVAL_FUEL);
    assert_eq!(res.unwrap(), Rc::new(Atom(BooleanLiteral(false))));
}

#[test]
fn wrong_length_test() {
    let mut frames = Frames::new();
    let list = vec![
        Rc::new(Atom(Token::Identifier("if".to_string()))),
        Rc::new(Atom(BooleanLiteral(true))),
        Rc::new(Atom(BooleanLiteral(false))),
    ];
    let res = eval_if(&list[1..], 0, &mut frames, &NoNatives, EVAL_FUEL);
    assert!(res.is_err());
}

#[test]
fn evaluator_wrong_length_test() {
    let mut frames = Frames::new();
    let list = vec![Rc::new(Atom(Identifier("a".to_string())))];
    let res = eval_define(&list[1..], 0, &mut frames, &NoNatives, EVAL_FUEL);
    assert!(res.is_err());
}

#[test]
fn no_identifier_test() {
    let mut frames = Frames::new();
    let list = vec![Rc::new(Atom(StringLiteral("a".to_string())))];
    let res = eval_define(&list[1..], 0, &mut frames, &NoNatives, EVAL_FUEL);
    assert!(res.is_err());
}

#[test]
fn atom_test() {
    let mut frames = Frames::new();
    let list = vec![
        Rc::new(Atom(Identifier("define".to_string()))),
        Rc::new(Atom(Identifier("a".to_string()))),
        Rc::new(Atom(BooleanLiteral(true))),
    ];
    let res = eval_define(&list[1..], 0, &mut frames, &NoNatives, EVAL_FUEL);
    assert!(res.is_ok());
}

#[test]
fn list_val_test() {
    let mut frames = Frames::new();
    let list = vec![
        Rc::new(Atom(Identifier("define".to_string()))),
        Rc::new(ListVal(vec![Rc::new(Atom(Identifier("a".to_string())))])),
        Rc::new(Atom(BooleanLiteral(true))),
    ];
    let res = eval_define(&list[1..], 0, &mut frames, &NoNatives, EVAL_FUEL);
    assert!(res.is_ok());
}

#[test]
fn list_val_no_identifier_test() {
    let mut frames = Frames::new();
    let list = vec![
        Rc::new(Atom(Identifier("define".to_string()))),
        Rc::new(ListVal(vec![Rc::new(Atom(StringLiteral("a".to_string())))])),
        Rc::new(Atom(BooleanLiteral(true))),
    ];
    let res = eval_define(&list[1..], 0, &mut frames, &NoNatives, EVAL_FUEL);
    assert!(res.is_err());
}

#[test]
fn ok_test() {
    let list = vec![
        Rc::new(Atom(Token::Identifier("let".to_string()))),
        Rc::new(ListVal(vec![Rc::new(ListVal(vec![
            Rc::new(Atom(StringLiteral("a".to_string()))),
            Rc::new(Atom(NumberLiteral(10.0f64.to_bits()))),
        ]))])),
        Rc::new(Atom(BooleanLiteral(true))),
    ];
    let res = eval_let(&list[1..]);
    assert!(res.is_ok());
}

#[test]
fn missing_body_test() {
    let list = vec![
        Rc::new(Atom(Token::Identifier("let".to_string()))),
        Rc::new(ListVal(vec![Rc::new(ListVal(vec![Rc::new(Atom(
            NumberLiteral(10.0f64.to_bits()),
        ))]))])),
        Rc::new(Atom(BooleanLiteral(true))),
    ];
    let res = eval_let(&list[1..]);
    assert!(res.is_err());
}

#[test]
fn missing_pair_binding_test() {
    let list = vec![
        Rc::new(Atom(Token::Identifier("let".to_string()))),
        Rc::new(Atom(Token::Identifier("let".to_string()))),
        Rc::new(Atom(BooleanLiteral(true))),
    ];
    let res = eval_let(&list[1..]);
    assert!(res.is_err());
}

#[test]
fn boolean_test() {
    let input = Rc::new(Atom(BooleanLiteral(true)));
    let mut frames = Frames::new();
    assert!(evaluate(&input, 0, &mut frames, &NoNatives, EVAL_FUEL).is_ok());
}

#[test]
fn identifier_test() {
    let mut frames = Frames::new();
    frames.define(0, "+".to_string(), SteelVal::FuncV(ADD));
    let input = Rc::new(Atom(Identifier("+".to_string())));
    assert!(evaluate(&input, 0, &mut frames, &NoNatives, EVAL_FUEL).is_ok());
}

#[test]
fn number_test() {
    let input = Rc::new(Atom(NumberLiteral(10.0f64.to_bits())));
    let mut frames = Frames::new();
    assert!(evaluate(&input, 0, &mut frames, &NoNatives, EVAL_FUEL).is_ok());
}

#[test]
fn string_test() {
    let input = Rc::new(Atom(StringLiteral("test".to_string())));
    let mut frames = Frames::new();
    assert!(evaluate(&input, 0, &mut frames, &NoNatives, EVAL_FUEL).is_ok());
}

#[test]
fn what_test() {
    let input = Rc::new(Atom(Identifier("if".to_string())));
    let mut frames = Frames::new();
    assert!(evaluate(&input, 0, &mut frames, &NoNatives, EVAL_FUEL).is_err());
}

#[test]
fn list_if_test() {
    let list = vec![
        Rc::new(Atom(Identifier("if".to_string()))),
        Rc::new(Atom(BooleanLiteral(true))),
        Rc::new(Atom(BooleanLiteral(true))),
        Rc::new(Atom(BooleanLiteral(false))),
    ];
    let input = Rc::new(ListVal(list));
    let mut frames = Frames::new();
    assert!(evaluate(&input, 0, &mut frames, &NoNatives, EVAL_FUEL).is_ok());
}

#[test]
fn scenario_arithmetic() {
    let vals = run("(+ 1 2 3) (- 4 3)").unwrap();
    assert_eq!(vals, vec![num(6.0), num(1.0)]);
}

#[test]
fn scenario_if_branches() {
    assert_eq!(run("(if #t 1 2)").unwrap(), vec![num(1.0)]);
    assert_eq!(run("(if #f 1 2)").unwrap(), vec![num(2.0)]);
    match run("(if 1 2)") {
        Err(SteelErr::ArityMismatch { expected, got, .. }) => {
            assert_eq!(expected, 3);
            assert_eq!(got, 2);
        },
        other => panic!("expected an arity failure, got {:?}", other),
    }
}

#[test]
fn scenario_let_binding() {
    assert_eq!(run("(let ((a 10) (b 20)) (+ a b))").unwrap(), vec![num(30.0)]);
}

#[test]
fn scenario_define_shorthand() {
    let vals = run("(define (square x) (* x x)) (square 5)").unwrap();
    assert_eq!(vals[0], SteelVal::Void);
    assert_eq!(vals[1], num(25.0));
}

#[test]
fn set_mutates_nearest_enclosing_frame() {
    let vals = run("(define x 1) (define (bump) (set! x 2)) (bump) x").unwrap();
    assert_eq!(vals[3], num(2.0));
}

#[test]
fn parameters_shadow_without_leaking() {
    let vals = run("(define x 1) ((lambda (x) x) 5) x").unwrap();
    assert_eq!(vals[1], num(5.0));
    assert_eq!(vals[2], num(1.0));
}

#[test]
fn default_session_is_fresh() {
    let mut ev = Evaluator::default();
    assert!(ev.lookup_binding("anything").is_err());
}

#[test]
fn scenario_and_or_short_circuit() {
    assert_eq!(run("(and #t #t #f)").unwrap(), vec![SteelVal::BoolV(false)]);
    assert_eq!(run("(or #f #f #t)").unwrap(), vec![SteelVal::BoolV(true)]);
    assert_eq!(run("(and)").unwrap(), vec![SteelVal::BoolV(true)]);
    assert_eq!(run("(or)").unwrap(), vec![SteelVal::BoolV(false)]);
    // the boom native errors when called: a value after the decisive one
    // proves it is never evaluated
    assert_eq!(run("(and #f (boom))").unwrap(), vec![SteelVal::BoolV(false)]);
    assert_eq!(run("(or #t (boom))").unwrap(), vec![SteelVal::BoolV(true)]);
}

#[test]
fn define_then_set_then_lookup() {
    let vals = run("(define x 1) (set! x 2) x").unwrap();
    assert_eq!(vals[2], num(2.0));
}

#[test]
fn set_unbound_fails() {
    match run("(set! nowhere 1)") {
        Err(SteelErr::UnboundIdentifier(name)) => assert_eq!(name, "nowhere"),
        other => panic!("expected an unbound-identifier failure, got {:?}", other),
    }
}

#[test]
fn redefinition_never_fails() {
    let vals = run("(define x 1) (define x 3) x").unwrap();
    assert_eq!(vals[2], num(3.0));
}

#[test]
fn tail_recursion_runs_deep() {
    let program = "(define (countdown n) (if (= n 0) 0 (countdown (- n 1)))) (countdown 100000)";
    let vals = run(program).unwrap();
    assert_eq!(vals[1], num(0.0));
}

#[test]
fn quote_returns_structure_unevaluated() {
    let vals = run("(quote (+ 1 2))").unwrap();
    match &vals[0] {
        SteelVal::ExprV(e) => match &**e {
            ListVal(items) => assert_eq!(items.len(), 3),
            other => panic!("expected a list value, got {:?}", other),
        },
        other => panic!("expected an expression value, got {:?}", other),
    }
    assert_eq!(run("(eval (quote (+ 1 2)))").unwrap(), vec![num(3.0)]);
}

#[test]
fn eval_quote_round_trips() {
    let direct = run("(+ 1 (* 2 3))").unwrap();
    let quoted = run("(eval (quote (+ 1 (* 2 3))))").unwrap();
    assert_eq!(direct, quoted);
    assert_eq!(run("(eval (quote 7))").unwrap(), vec![num(7.0)]);
    assert_eq!(run("(eval (quote #t))").unwrap(), vec![SteelVal::BoolV(true)]);
}

#[test]
fn begin_sequences_effects() {
    let vals = run("(define x 1) (begin (set! x 5) x)").unwrap();
    assert_eq!(vals[1], num(5.0));
    assert!(run("(begin)").is_err());
}

#[test]
fn lambda_application_and_closure() {
    assert_eq!(run("((lambda (x y) (+ x y)) 3 4)").unwrap(), vec![num(7.0)]);
    let vals = run("(define (adder n) (lambda (x) (+ x n))) ((adder 10) 5)").unwrap();
    assert_eq!(vals[1], num(15.0));
}

#[test]
fn application_arity_must_match() {
    assert!(run("((lambda (x) x) 1 2)").is_err());
}

#[test]
fn empty_list_is_type_mismatch() {
    match run("()") {
        Err(SteelErr::TypeMismatch) => {},
        other => panic!("expected a type failure, got {:?}", other),
    }
}

#[test]
fn applying_a_number_is_type_mismatch() {
    match run("(5 1)") {
        Err(SteelErr::TypeMismatch) => {},
        other => panic!("expected a type failure, got {:?}", other),
    }
}

#[test]
fn let_requires_pairs() {
    match run("(let (a) 1)") {
        Err(SteelErr::BadSyntax) => {},
        other => panic!("expected a syntax failure, got {:?}", other),
    }
}

#[test]
fn eval_of_a_procedure_is_contract_violation() {
    match run("(eval (lambda (x) x))") {
        Err(SteelErr::ContractViolation) => {},
        other => panic!("expected a contract failure, got {:?}", other),
    }
}

#[test]
fn structural_token_cannot_evaluate() {
    let input = Rc::new(Atom(Token::OpenParen));
    let mut frames = Frames::new();
    match evaluate(&input, 0, &mut frames, &NoNatives, EVAL_FUEL) {
        Err(SteelErr::UnexpectedToken(Token::OpenParen)) => {},
        other => panic!("expected an unexpected-token failure, got {:?}", other),
    }
}

#[test]
fn zero_fuel_reports_exhaustion() {
    let input = Rc::new(Atom(BooleanLiteral(true)));
    let mut frames = Frames::new();
    match evaluate(&input, 0, &mut frames, &NoNatives, 0) {
        Err(SteelErr::OutOfFuel) => {},
        other => panic!("expected fuel exhaustion, got {:?}", other),
    }
}

#[test]
fn parse_failure_surfaces_from_parse_and_eval() {
    let mut ev = arith_session();
    match ev.parse_and_eval(tokenize("("), &Arith::new()) {
        Err(SteelErr::Parse(steel::ParseError::UnexpectedEOF)) => {},
        other => panic!("expected a parse failure, got {:?}", other),
    }
}

#[test]
fn earlier_definitions_survive_a_later_failure() {
    let mut ev = arith_session();
    let natives = Arith::new();
    let res = ev.parse_and_eval(tokenize("(define x 42) (boom)"), &natives);
    assert!(res.is_err());
    match ev.lookup_binding("x") {
        Ok(v) => assert_eq!(v, num(42.0)),
        Err(e) => panic!("binding lost: {:?}", e),
    }
}

#[test]
fn clear_bindings_empties_the_globals() {
    let mut ev = arith_session();
    assert!(ev.lookup_binding("+").is_ok());
    ev.clear_bindings();
    assert!(ev.lookup_binding("+").is_err());
}

#[test]
fn eval_sees_local_bindings() {
    // the operand of `eval` is evaluated in the environment of the `eval`
    // form itself, not in the global one
    let vals = run("(let ((a 1)) (eval (quote a)))").unwrap();
    assert_eq!(vals[0], num(1.0));
}

#[test]
fn greek_lambda_spelling() {
    let src = format!("(({} (x) (* x x)) 6)", '\u{03bb}');
    let mut ev = arith_session();
    let vals = ev.parse_and_eval(tokenize(&src), &Arith::new()).unwrap();
    assert_eq!(vals[0], num(36.0));
}

#[test]
fn parser_inside_session_interns() {
    let mut ev = arith_session();
    let natives = Arith::new();
    assert!(ev.parse_and_eval(tokenize("(define y 1)"), &natives).is_ok());
    assert_eq!(ev.parse_and_eval(tokenize("y"), &natives).unwrap(), vec![num(1.0)]);
}
