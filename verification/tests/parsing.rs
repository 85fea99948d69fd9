use astparse::ast::ParsedAST;
use astparse::error::ParseError;
use astparse::parser::Parser;
use astparse::token::Token;
use astparse::types::{Primative, Type};

fn ident(s: &str) -> Token {
    Token::IDENTIFIER(s.to_string())
}

fn num(s: &str) -> Token {
    Token::NUMBER(s.to_string())
}

fn parse(tokens: Vec<Token>) -> Result<Box<ParsedAST>, ParseError> {
    let mut parser = Parser::new(tokens);
    parser.parse()
}

fn program_body(r: Result<Box<ParsedAST>, ParseError>) -> Vec<ParsedAST> {
    match *r.expect("parse should succeed") {
        ParsedAST::PROGRAM(p) => p.body,
        _ => panic!("root is not a program"),
    }
}

fn single_statement(tokens: Vec<Token>) -> ParsedAST {
    let mut body = program_body(parse(tokens));
    assert_eq!(body.len(), 1);
    match body.remove(0) {
        ParsedAST::STMT(inner) => *inner,
        other => other,
    }
}

fn prim_eq(a: &Primative, b: &Primative) -> bool {
    match (a, b) {
        (Primative::U32, Primative::U32) => true,
        (Primative::I32, Primative::I32) => true,
        (Primative::BOOL, Primative::BOOL) => true,
        (Primative::TYPE, Primative::TYPE) => true,
        (Primative::NONE, Primative::NONE) => true,
        (Primative::FN(x), Primative::FN(y)) => {
            x.args.len() == y.args.len()
                && x.args.iter().zip(y.args.iter()).all(|(s, t)| type_eq(s, t))
        }
        _ => false,
    }
}

fn type_eq(a: &Type, b: &Type) -> bool {
    prim_eq(&a.primative, &b.primative)
}

fn vec_eq(a: &[ParsedAST], b: &[ParsedAST]) -> bool {
    a.len() == b.len() && a.iter().zip(b.iter()).all(|(x, y)| ast_eq(x, y))
}

fn ast_eq(a: &ParsedAST, b: &ParsedAST) -> bool {
    match (a, b) {
        (ParsedAST::PROGRAM(x), ParsedAST::PROGRAM(y)) => vec_eq(&x.body, &y.body),
        (ParsedAST::BLOCK(x), ParsedAST::BLOCK(y)) => vec_eq(&x.body, &y.body),
        (ParsedAST::STMT(x), ParsedAST::STMT(y)) => ast_eq(x, y),
        (ParsedAST::DECL(x), ParsedAST::DECL(y)) => {
            x.identifier.same(&y.identifier)
                && x.requires_infering == y.requires_infering
                && type_eq(&x.typ, &y.typ)
                && ast_eq(&x.value, &y.value)
        }
        (ParsedAST::IDENTIFIER(x), ParsedAST::IDENTIFIER(y)) => x == y,
        (ParsedAST::STRING(x), ParsedAST::STRING(y)) => x == y,
        (ParsedAST::NUMBER(x), ParsedAST::NUMBER(y)) => x == y,
        (ParsedAST::BINARY(x), ParsedAST::BINARY(y)) => {
            ast_eq(&x.left, &y.left) && x.op.same(&y.op) && ast_eq(&x.right, &y.right)
        }
        (ParsedAST::GROUP(x), ParsedAST::GROUP(y)) => ast_eq(&x.expression, &y.expression),
        (ParsedAST::CALL(x), ParsedAST::CALL(y)) => {
            ast_eq(&x.callee, &y.callee) && ast_eq(&x.args, &y.args)
        }
        (ParsedAST::FN(x), ParsedAST::FN(y)) => ast_eq(&x.body, &y.body),
        _ => false,
    }
}

#[test]
fn precedence_groups_product_to_the_right() {
    // a + b * c parses as a + (b * c)
    let ast = single_statement(vec![
        ident("a"),
        Token::PLUS,
        ident("b"),
        Token::STAR,
        ident("c"),
    ]);
    match ast {
        ParsedAST::BINARY(outer) => {
            assert!(outer.op.same(&Token::PLUS));
            assert!(matches!(&*outer.left, ParsedAST::IDENTIFIER(n) if n == "a"));
            match &*outer.right {
                ParsedAST::BINARY(inner) => {
                    assert!(inner.op.same(&Token::STAR));
                    assert!(matches!(&*inner.left, ParsedAST::IDENTIFIER(n) if n == "b"));
                    assert!(matches!(&*inner.right, ParsedAST::IDENTIFIER(n) if n == "c"));
                }
                _ => panic!("right operand of + is not the product"),
            }
        }
        _ => panic!("expected a binary node"),
    }
}

#[test]
fn multiplication_right_operand_reenters_grammar() {
    // the right operand re-enters the whole grammar, so a * b + c
    // parses as a * (b + c)
    let ast = single_statement(vec![
        ident("a"),
        Token::STAR,
        ident("b"),
        Token::PLUS,
        ident("c"),
    ]);
    match ast {
        ParsedAST::BINARY(outer) => {
            assert!(outer.op.same(&Token::STAR));
            assert!(matches!(&*outer.left, ParsedAST::IDENTIFIER(n) if n == "a"));
            match &*outer.right {
                ParsedAST::BINARY(inner) => {
                    assert!(inner.op.same(&Token::PLUS));
                    assert!(matches!(&*inner.left, ParsedAST::IDENTIFIER(n) if n == "b"));
                    assert!(matches!(&*inner.right, ParsedAST::IDENTIFIER(n) if n == "c"));
                }
                _ => panic!("right operand of * is not the sum"),
            }
        }
        _ => panic!("expected a binary node"),
    }
}

#[test]
fn typed_declaration_with_equals() {
    let ast = single_statement(vec![ident("x"), Token::U32, Token::EQUAL, num("5")]);
    match ast {
        ParsedAST::DECL(d) => {
            assert!(d.identifier.same(&ident("x")));
            assert!(!d.requires_infering);
            assert!(matches!(d.typ.primative, Primative::U32));
            assert!(matches!(&*d.value, ParsedAST::NUMBER(t) if t == "5"));
        }
        _ => panic!("expected a declaration"),
    }
}

#[test]
fn typed_declaration_without_equals() {
    let ast = single_statement(vec![ident("flag"), Token::BOOL, Token::TRUE]);
    match ast {
        ParsedAST::DECL(d) => {
            assert!(!d.requires_infering);
            assert!(matches!(d.typ.primative, Primative::BOOL));
            assert!(matches!(&*d.value, ParsedAST::NUMBER(t) if t == "1.0"));
        }
        _ => panic!("expected a declaration"),
    }
}

#[test]
fn inferred_declaration() {
    // x = 5 is a declaration that asks the checker for inference
    let ast = single_statement(vec![ident("x"), Token::EQUAL, num("5")]);
    match ast {
        ParsedAST::DECL(d) => {
            assert!(d.identifier.same(&ident("x")));
            assert!(d.requires_infering);
            assert!(matches!(d.typ.primative, Primative::NONE));
            match &*d.value {
                ParsedAST::NUMBER(t) => {
                    assert_eq!(t, "5");
                    assert_eq!(t.parse::<f32>().unwrap(), 5.0);
                }
                _ => panic!("initializer is not the number"),
            }
        }
        _ => panic!("expected a declaration"),
    }
}

#[test]
fn block_with_sum() {
    // { 1 + 2 } parses to Block [ Stmt (Binary 1 + 2) ]
    let ast = single_statement(vec![
        Token::LCURLY,
        num("1"),
        Token::PLUS,
        num("2"),
        Token::RCURLY,
    ]);
    match ast {
        ParsedAST::BLOCK(b) => {
            assert_eq!(b.body.len(), 1);
            match &b.body[0] {
                ParsedAST::STMT(inner) => match &**inner {
                    ParsedAST::BINARY(bin) => {
                        assert!(bin.op.same(&Token::PLUS));
                        match (&*bin.left, &*bin.right) {
                            (ParsedAST::NUMBER(l), ParsedAST::NUMBER(r)) => {
                                assert_eq!(l.parse::<f32>().unwrap(), 1.0);
                                assert_eq!(r.parse::<f32>().unwrap(), 2.0);
                            }
                            _ => panic!("operands are not number leaves"),
                        }
                    }
                    _ => panic!("statement is not a binary node"),
                },
                _ => panic!("block body is not a statement"),
            }
        }
        _ => panic!("expected a block"),
    }
}

#[test]
fn single_argument_call() {
    let ast = single_statement(vec![ident("f"), Token::LPAREN, num("1"), Token::RPAREN]);
    match ast {
        ParsedAST::CALL(c) => {
            assert!(matches!(&*c.callee, ParsedAST::IDENTIFIER(n) if n == "f"));
            assert!(matches!(&*c.args, ParsedAST::NUMBER(t) if t == "1"));
        }
        _ => panic!("expected a call"),
    }
}

#[test]
fn unterminated_block_errors() {
    // { 1 +   with no closing brace
    let r = parse(vec![Token::LCURLY, num("1"), Token::PLUS]);
    assert_eq!(r.unwrap_err(), ParseError::UnterminatedBlock);
}

#[test]
fn lone_open_brace_errors() {
    let r = parse(vec![Token::LCURLY]);
    assert_eq!(r.unwrap_err(), ParseError::UnterminatedBlock);
}

#[test]
fn reparsing_is_deterministic() {
    let tokens = || {
        vec![
            Token::LCURLY,
            ident("x"),
            Token::EQUAL,
            num("1"),
            ident("y"),
            Token::I32,
            num("2"),
            Token::RCURLY,
            ident("f"),
            Token::LPAREN,
            Token::TRUE,
            Token::RPAREN,
        ]
    };
    let first = parse(tokens()).expect("first parse should succeed");
    let second = parse(tokens()).expect("second parse should succeed");
    assert!(ast_eq(&first, &second));
}

#[test]
fn boolean_literals_parse_as_numbers() {
    let t = single_statement(vec![Token::TRUE]);
    match t {
        ParsedAST::NUMBER(text) => {
            assert_eq!(text, "1.0");
            assert_eq!(text.parse::<f32>().unwrap(), 1.0);
        }
        _ => panic!("true is not a number leaf"),
    }
    let f = single_statement(vec![Token::FALSE]);
    match f {
        ParsedAST::NUMBER(text) => {
            assert_eq!(text, "0.0");
            assert_eq!(text.parse::<f32>().unwrap(), 0.0);
        }
        _ => panic!("false is not a number leaf"),
    }
}

#[test]
fn group_preserved_in_tree() {
    let ast = single_statement(vec![Token::LPAREN, num("1"), Token::RPAREN]);
    match ast {
        ParsedAST::GROUP(g) => {
            assert!(matches!(&*g.expression, ParsedAST::NUMBER(t) if t == "1"));
        }
        _ => panic!("expected a group"),
    }
}

#[test]
fn group_closer_consumed_blindly() {
    // the token after a group's inner expression is consumed without being
    // checked, so even a stray closer is accepted
    let ast = single_statement(vec![Token::LPAREN, num("1"), Token::RCURLY]);
    assert!(matches!(ast, ParsedAST::GROUP(_)));
}

#[test]
fn empty_program() {
    let body = program_body(parse(vec![]));
    assert_eq!(body.len(), 0);
}

#[test]
fn empty_block() {
    let ast = single_statement(vec![Token::LCURLY, Token::RCURLY]);
    match ast {
        ParsedAST::BLOCK(b) => assert_eq!(b.body.len(), 0),
        _ => panic!("expected a block"),
    }
}

#[test]
fn nested_blocks() {
    let ast = single_statement(vec![
        Token::LCURLY,
        Token::LCURLY,
        Token::RCURLY,
        Token::RCURLY,
    ]);
    match ast {
        ParsedAST::BLOCK(outer) => {
            assert_eq!(outer.body.len(), 1);
            match &outer.body[0] {
                ParsedAST::BLOCK(inner) => assert_eq!(inner.body.len(), 0),
                _ => panic!("inner node is not a block"),
            }
        }
        _ => panic!("expected a block"),
    }
}

#[test]
fn string_literal_statement() {
    let ast = single_statement(vec![Token::STRING("hello".to_string())]);
    assert!(matches!(ast, ParsedAST::STRING(s) if s == "hello"));
}

#[test]
fn two_statements_in_order() {
    let body = program_body(parse(vec![num("1"), num("2")]));
    assert_eq!(body.len(), 2);
    assert!(matches!(&body[0], ParsedAST::STMT(b) if matches!(&**b, ParsedAST::NUMBER(t) if t == "1")));
    assert!(matches!(&body[1], ParsedAST::STMT(b) if matches!(&**b, ParsedAST::NUMBER(t) if t == "2")));
}

#[test]
fn invalid_number_literal_rejected() {
    let r = parse(vec![num("abc")]);
    assert_eq!(r.unwrap_err(), ParseError::InvalidNumberLiteral);
}

#[test]
fn exponent_and_signed_number_literals() {
    let ast = single_statement(vec![num("1e5")]);
    match ast {
        ParsedAST::NUMBER(t) => {
            assert_eq!(t, "1e5");
            assert_eq!(t.parse::<f32>().unwrap(), 100000.0);
        }
        _ => panic!("expected a number leaf"),
    }
    let ast = single_statement(vec![num("-2.5E-1")]);
    match ast {
        ParsedAST::NUMBER(t) => assert_eq!(t.parse::<f32>().unwrap(), -0.25),
        _ => panic!("expected a number leaf"),
    }
    let ast = single_statement(vec![num("inf")]);
    match ast {
        ParsedAST::NUMBER(t) => assert!(t.parse::<f32>().unwrap().is_infinite()),
        _ => panic!("expected a number leaf"),
    }
}

#[test]
fn dangling_operator_out_of_bounds() {
    let r = parse(vec![ident("a"), Token::PLUS]);
    assert_eq!(r.unwrap_err(), ParseError::OutOfBounds);
}

#[test]
fn missing_initializer_after_equals() {
    let r = parse(vec![ident("x"), Token::EQUAL]);
    assert_eq!(r.unwrap_err(), ParseError::MissingInitializer);
}

#[test]
fn missing_initializer_after_type() {
    let r = parse(vec![ident("x"), Token::U32]);
    assert_eq!(r.unwrap_err(), ParseError::MissingInitializer);
}

#[test]
fn unexpected_token_at_primary() {
    let r = parse(vec![Token::PLUS]);
    assert_eq!(r.unwrap_err(), ParseError::UnexpectedToken);
}

#[test]
fn declaration_type_keywords() {
    let cases: Vec<(Token, Primative)> = vec![
        (Token::U32, Primative::U32),
        (Token::I32, Primative::I32),
        (Token::BOOL, Primative::BOOL),
        (Token::TYPE, Primative::TYPE),
    ];
    for (keyword, expected) in cases {
        let ast = single_statement(vec![ident("x"), keyword, Token::EQUAL, num("7")]);
        match ast {
            ParsedAST::DECL(d) => {
                assert!(!d.requires_infering);
                assert!(prim_eq(&d.typ.primative, &expected));
            }
            _ => panic!("expected a declaration"),
        }
    }
    // the function-type keyword carries an empty argument list
    let ast = single_statement(vec![ident("g"), Token::FN, Token::EQUAL, num("7")]);
    match ast {
        ParsedAST::DECL(d) => match d.typ.primative {
            Primative::FN(f) => assert_eq!(f.args.len(), 0),
            _ => panic!("expected a function type"),
        },
        _ => panic!("expected a declaration"),
    }
}
