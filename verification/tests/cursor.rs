use astparse::error::ParseError;
use astparse::parser::{is_number_text, Parser};
use astparse::token::Token;
use astparse::types::Primative;

fn parser(tokens: Vec<Token>) -> Parser {
    Parser::new(tokens)
}

fn three_tokens() -> Parser {
    parser(vec![
        Token::IDENTIFIER("x".to_string()),
        Token::EQUAL,
        Token::NUMBER("5".to_string()),
    ])
}

#[test]
fn peek_does_not_advance() {
    let p = three_tokens();
    let current: usize = 0;
    assert!(p.peek(&current).unwrap().same(&Token::IDENTIFIER("x".to_string())));
    assert!(p.peek(&current).unwrap().same(&Token::IDENTIFIER("x".to_string())));
    assert_eq!(current, 0);
}

#[test]
fn peek_out_of_bounds() {
    let p = three_tokens();
    let current: usize = 3;
    assert_eq!(p.peek(&current).unwrap_err(), ParseError::OutOfBounds);
}

#[test]
fn peek_ahead_reads_later_token() {
    let p = three_tokens();
    let current: usize = 0;
    assert!(p.peek_ahead(&current, 1).unwrap().same(&Token::EQUAL));
    assert!(p.peek_ahead(&current, 2).unwrap().same(&Token::NUMBER("5".to_string())));
    assert_eq!(p.peek_ahead(&current, 3).unwrap_err(), ParseError::OutOfBounds);
}

#[test]
fn consume_advances_and_returns() {
    let p = three_tokens();
    let mut current: usize = 0;
    assert!(p.consume(&mut current).unwrap().same(&Token::IDENTIFIER("x".to_string())));
    assert_eq!(current, 1);
    assert!(p.consume(&mut current).unwrap().same(&Token::EQUAL));
    assert_eq!(current, 2);
}

#[test]
fn consume_out_of_bounds() {
    let p = three_tokens();
    let mut current: usize = 3;
    assert_eq!(p.consume(&mut current).unwrap_err(), ParseError::OutOfBounds);
    assert_eq!(current, 3);
}

#[test]
fn end_and_end_ahead() {
    let p = three_tokens();
    let start: usize = 0;
    let past: usize = 3;
    assert!(!p.end(&start));
    assert!(p.end(&past));
    assert!(!p.end_ahead(&start, 2));
    assert!(p.end_ahead(&start, 3));
    assert!(p.end_ahead(&past, 0));
}

#[test]
fn expecting_matches_kind_and_payload() {
    let p = three_tokens();
    let current: usize = 1;
    assert!(p.expecting(Token::EQUAL, &current).unwrap());
    assert!(!p.expecting(Token::PLUS, &current).unwrap());
    let at_name: usize = 0;
    assert!(p.expecting(Token::IDENTIFIER("x".to_string()), &at_name).unwrap());
    assert!(!p.expecting(Token::IDENTIFIER("y".to_string()), &at_name).unwrap());
    let past: usize = 3;
    assert_eq!(
        p.expecting(Token::EQUAL, &past).unwrap_err(),
        ParseError::OutOfBounds
    );
}

#[test]
fn parse_type_each_keyword() {
    let p = parser(vec![Token::U32, Token::I32, Token::BOOL, Token::FN, Token::TYPE]);
    let mut current: usize = 0;
    assert!(matches!(p.parse_type(&mut current).unwrap().primative, Primative::U32));
    assert!(matches!(p.parse_type(&mut current).unwrap().primative, Primative::I32));
    assert!(matches!(p.parse_type(&mut current).unwrap().primative, Primative::BOOL));
    match p.parse_type(&mut current).unwrap().primative {
        Primative::FN(f) => assert_eq!(f.args.len(), 0),
        _ => panic!("expected a function type"),
    }
    assert!(matches!(p.parse_type(&mut current).unwrap().primative, Primative::TYPE));
    assert_eq!(current, 5);
}

#[test]
fn parse_type_rejects_non_keyword() {
    let p = parser(vec![Token::PLUS]);
    let mut current: usize = 0;
    assert_eq!(
        p.parse_type(&mut current).unwrap_err(),
        ParseError::UnexpectedToken
    );
}

#[test]
fn parse_type_out_of_bounds() {
    let p = parser(vec![]);
    let mut current: usize = 0;
    assert_eq!(p.parse_type(&mut current).unwrap_err(), ParseError::OutOfBounds);
}

#[test]
fn number_text_validation() {
    // every accepted text is also accepted by float parsing, and the
    // rejected ones are rejected by it
    let accepted = [
        "1", "42", "1.5", ".5", "5.", "-1", "+1", "-2.5", "1e5", "1E5", "1e-3", "2.5e+10",
        ".5e2", "1.e5", "-1.5E-7", "inf", "-inf", "+inf", "Infinity", "-infinity", "nan", "NaN",
        "-NAN",
    ];
    for text in accepted {
        assert!(is_number_text(&text.to_string()), "rejected {text}");
        assert!(text.parse::<f32>().is_ok(), "f32 rejects {text}");
    }
    let rejected = [
        "", ".", "+", "-", "e5", "1e", "1e+", "1.2.3", "12a", "1.5e2.5", "--1", "in", "infinit",
        "nan0", "1 ", "0x1f",
    ];
    for text in rejected {
        assert!(!is_number_text(&text.to_string()), "accepted {text}");
        assert!(text.parse::<f32>().is_err(), "f32 accepts {text}");
    }
}
