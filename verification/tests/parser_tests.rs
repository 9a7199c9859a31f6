use std::rc::Rc;

use steel::Expr::{self, Atom, ListVal};
use steel::Token::{BooleanLiteral, Identifier, NumberLiteral, StringLiteral};
use steel::{InternTable, ParseError, Parser, Token};

fn tokenize(src: &str) -> Vec<Token> {
    let cs: Vec<char> = src.chars().collect();
    let mut out = Vec::new();
    let mut i = 0;
    while i < cs.len() {
        let c = cs[i];
        if c.is_whitespace() {
            i += 1;
        } else if c == '(' {
            out.push(Token::OpenParen);
            i += 1;
        } else if c == ')' {
            out.push(Token::CloseParen);
            i += 1;
        } else if c == '\'' {
            out.push(Token::QuoteTick);
            i += 1;
        } else if c == '"' {
            i += 1;
            let mut s = String::new();
            while i < cs.len() && cs[i] != '"' {
                s.push(cs[i]);
                i += 1;
            }
            i += 1;
            out.push(Token::StringLiteral(s));
        } else {
            let mut s = String::new();
            while i < cs.len() && !cs[i].is_whitespace() && cs[i] != '(' && cs[i] != ')'
                && cs[i] != '\'' {
                s.push(cs[i]);
                i += 1;
            }
            if s == "#t" {
                out.push(Token::BooleanLiteral(true));
            } else if s == "#f" {
                out.push(Token::BooleanLiteral(false));
            } else if let Ok(n) = s.parse::<f64>() {
                out.push(Token::NumberLiteral(n.to_bits()));
            } else {
                out.push(Token::Identifier(s));
            }
        }
    }
    out
}

fn num(x: f64) -> Token {
    NumberLiteral(x.to_bits())
}

fn parse_text(s: &str) -> Result<Vec<Expr>, ParseError> {
    let mut parser = Parser::new(tokenize(s), InternTable::new());
    let mut out = Vec::new();
    loop {
        match parser.next() {
            None => return Ok(out),
            Some(Ok(e)) => out.push(e),
            Some(Err(pe)) => return Err(pe),
        }
    }
}

fn assert_parse(s: &str, result: &[Expr]) {
    let a = parse_text(s).unwrap();
    assert_eq!(a, result);
}

fn assert_parse_err(s: &str, err: ParseError) {
    let a = parse_text(s);
    assert_eq!(a, Err(err));
}

#[test]
fn test_empty() {
    assert_parse("", &[]);
    assert_parse("()", &[ListVal(vec![])]);
}

#[test]
fn test_multi_parse() {
    assert_parse(
        "a b +",
        &[
            Atom(Identifier("a".to_string())),
            Atom(Identifier("b".to_string())),
            Atom(Identifier("+".to_string())),
        ],
    );
    assert_parse(
        "a b (lambda  1 (+ 2 3.5))",
        &[
            Atom(Identifier("a".to_string())),
            Atom(Identifier("b".to_string())),
            ListVal(vec![
                Rc::new(Atom(Identifier("lambda".to_string()))),
                Rc::new(Atom(num(1.0))),
                Rc::new(ListVal(vec![
                    Rc::new(Atom(Identifier("+".to_string()))),
                    Rc::new(Atom(num(2.0))),
                    Rc::new(Atom(num(3.5))),
                ])),
            ]),
        ],
    )
}

#[test]
fn test_parse_simple() {
    assert_parse(
        "(+ 1 2 3) (- 4 3)",
        &[
            ListVal(vec![
                Rc::new(Atom(Identifier("+".to_string()))),
                Rc::new(Atom(num(1.0))),
                Rc::new(Atom(num(2.0))),
                Rc::new(Atom(num(3.0))),
            ]),
            ListVal(vec![
                Rc::new(Atom(Identifier("-".to_string()))),
                Rc::new(Atom(num(4.0))),
                Rc::new(Atom(num(3.0))),
            ]),
        ],
    );
}

#[test]
fn test_parse_nested() {
    assert_parse(
        "(+ 1 (foo (bar 2 3)))",
        &[ListVal(vec![
            Rc::new(Atom(Identifier("+".to_string()))),
            Rc::new(Atom(num(1.0))),
            Rc::new(ListVal(vec![
                Rc::new(Atom(Identifier("foo".to_string()))),
                Rc::new(ListVal(vec![
                    Rc::new(Atom(Identifier("bar".to_owned()))),
                    Rc::new(Atom(num(2.0))),
                    Rc::new(Atom(num(3.0))),
                ])),
            ])),
        ])],
    );
    assert_parse(
        "(+ 1 (+ 2 3) (foo (bar 2 3)))",
        &[ListVal(vec![
            Rc::new(Atom(Identifier("+".to_string()))),
            Rc::new(Atom(num(1.0))),
            Rc::new(ListVal(vec![
                Rc::new(Atom(Identifier("+".to_string()))),
                Rc::new(Atom(num(2.0))),
                Rc::new(Atom(num(3.0))),
            ])),
            Rc::new(ListVal(vec![
                Rc::new(Atom(Identifier("foo".to_string()))),
                Rc::new(ListVal(vec![
                    Rc::new(Atom(Identifier("bar".to_owned()))),
                    Rc::new(Atom(num(2.0))),
                    Rc::new(Atom(num(3.0))),
                ])),
            ])),
        ])],
    );
    assert_parse(
        "(+ 1 (+ 2 3) (foo (+ (bar 1 1) 3) 5))",
        &[ListVal(vec![
            Rc::new(Atom(Identifier("+".to_string()))),
            Rc::new(Atom(num(1.0))),
            Rc::new(ListVal(vec![
                Rc::new(Atom(Identifier("+".to_string()))),
                Rc::new(Atom(num(2.0))),
                Rc::new(Atom(num(3.0))),
            ])),
            Rc::new(ListVal(vec![
                Rc::new(Atom(Identifier("foo".to_string()))),
                Rc::new(ListVal(vec![
                    Rc::new(Atom(Identifier("+".to_string()))),
                    Rc::new(ListVal(vec![
                        Rc::new(Atom(Identifier("bar".to_string()))),
                        Rc::new(Atom(num(1.0))),
                        Rc::new(Atom(num(1.0))),
                    ])),
                    Rc::new(Atom(num(3.0))),
                ])),
                Rc::new(Atom(num(5.0))),
            ])),
        ])],
    );
}

#[test]
fn test_parse_specials() {
    assert_parse(
        "(define (foo a b) (+ (- a 1) b))",
        &[ListVal(vec![
            Rc::new(Atom(Identifier("define".to_string()))),
            Rc::new(ListVal(vec![
                Rc::new(Atom(Identifier("foo".to_string()))),
                Rc::new(Atom(Identifier("a".to_string()))),
                Rc::new(Atom(Identifier("b".to_string()))),
            ])),
            Rc::new(ListVal(vec![
                Rc::new(Atom(Identifier("+".to_string()))),
                Rc::new(ListVal(vec![
                    Rc::new(Atom(Identifier("-".to_string()))),
                    Rc::new(Atom(Identifier("a".to_string()))),
                    Rc::new(Atom(num(1.0))),
                ])),
                Rc::new(Atom(Identifier("b".to_string()))),
            ])),
        ])],
    );

    assert_parse(
        "(if   #t     1 2)",
        &[ListVal(vec![
            Rc::new(Atom(Identifier("if".to_string()))),
            Rc::new(Atom(BooleanLiteral(true))),
            Rc::new(Atom(num(1.0))),
            Rc::new(Atom(num(2.0))),
        ])],
    );
    assert_parse(
        "(lambda (a b) (+ a b)) (- 1 2) (\"dumpsterfire\")",
        &[
            ListVal(vec![
                Rc::new(Atom(Identifier("lambda".to_string()))),
                Rc::new(ListVal(vec![
                    Rc::new(Atom(Identifier("a".to_string()))),
                    Rc::new(Atom(Identifier("b".to_string()))),
                ])),
                Rc::new(ListVal(vec![
                    Rc::new(Atom(Identifier("+".to_string()))),
                    Rc::new(Atom(Identifier("a".to_string()))),
                    Rc::new(Atom(Identifier("b".to_string()))),
                ])),
            ]),
            ListVal(vec![
                Rc::new(Atom(Identifier("-".to_string()))),
                Rc::new(Atom(num(1.0))),
                Rc::new(Atom(num(2.0))),
            ]),
            ListVal(vec![Rc::new(Atom(StringLiteral(
                "dumpsterfire".to_string(),
            )))]),
        ],
    );
}

#[test]
fn test_error() {
    assert_parse_err("(", ParseError::UnexpectedEOF);
    assert_parse_err("(abc", ParseError::UnexpectedEOF);
    assert_parse_err("(ab 1 2", ParseError::UnexpectedEOF);
    assert_parse_err("((((ab 1 2) (", ParseError::UnexpectedEOF);
    assert_parse_err("())", ParseError::Unexpected(Token::CloseParen));
    assert_parse_err("() ((((", ParseError::UnexpectedEOF);
    assert_parse_err("')", ParseError::Unexpected(Token::CloseParen));
    assert_parse_err("(')", ParseError::Unexpected(Token::CloseParen));
    assert_parse_err("('", ParseError::UnexpectedEOF);
}

#[test]
fn quote_sugar_expands() {
    assert_parse(
        "'(a b)",
        &[ListVal(vec![
            Rc::new(Atom(Identifier("quote".to_string()))),
            Rc::new(ListVal(vec![
                Rc::new(Atom(Identifier("a".to_string()))),
                Rc::new(Atom(Identifier("b".to_string()))),
            ])),
        ])],
    );
}

#[test]
fn interned_atoms_are_shared() {
    // two occurrences of one name inside a session answer the same node
    let parsed = parse_text("(a) (a)").unwrap();
    let first = match &parsed[0] {
        ListVal(items) => Rc::clone(&items[0]),
        other => panic!("expected a list, got {:?}", other),
    };
    let second = match &parsed[1] {
        ListVal(items) => Rc::clone(&items[0]),
        other => panic!("expected a list, got {:?}", other),
    };
    assert!(Rc::ptr_eq(&first, &second));
    assert_eq!(first, second);
}

#[test]
fn separate_sessions_never_share() {
    let one = parse_text("(a)").unwrap();
    let two = parse_text("(a)").unwrap();
    let first = match &one[0] {
        ListVal(items) => Rc::clone(&items[0]),
        other => panic!("expected a list, got {:?}", other),
    };
    let second = match &two[0] {
        ListVal(items) => Rc::clone(&items[0]),
        other => panic!("expected a list, got {:?}", other),
    };
    assert!(!Rc::ptr_eq(&first, &second));
    assert_eq!(first, second);
}

#[test]
fn quote_symbol_is_interned_once() {
    let parsed = parse_text("'x 'y").unwrap();
    let q1 = match &parsed[0] {
        ListVal(items) => Rc::clone(&items[0]),
        other => panic!("expected a list, got {:?}", other),
    };
    let q2 = match &parsed[1] {
        ListVal(items) => Rc::clone(&items[0]),
        other => panic!("expected a list, got {:?}", other),
    };
    assert!(Rc::ptr_eq(&q1, &q2));
}

#[test]
fn deep_nesting_parses_without_deep_recursion() {
    // the frame stack, not the native stack, carries the nesting
    let depth = 20000;
    let mut src = String::new();
    for _ in 0..depth {
        src.push('(');
    }
    src.push('x');
    for _ in 0..depth {
        src.push(')');
    }
    let parsed = parse_text(&src).unwrap();
    assert_eq!(parsed.len(), 1);
}
