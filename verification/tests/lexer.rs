use kismet::lexer::lex::{tokenize, TokenIterator};
use kismet::lexer::token::{NumberKind, Token};
use kismet::types::span::Span;

fn kinds(src: &str) -> Vec<Token> {
    tokenize(src).into_iter().map(|n| *n.data).collect()
}

fn spans(src: &str) -> Vec<(usize, usize)> {
    tokenize(src).into_iter().map(|n| (n.span.start, n.span.end)).collect()
}

fn integer(i: i32) -> Token {
    Token::Number(NumberKind::Integer(i))
}

fn float_digits(src: &str) -> String {
    match kinds(src).as_slice() {
        [Token::Number(NumberKind::Float(f))] => f.digits.clone(),
        other => panic!("not a float: {:?}", other),
    }
}

#[test]
fn lex_sum_with_spans() {
    assert_eq!(kinds("1 + 2"), vec![integer(1), Token::ADD, integer(2)]);
    assert_eq!(spans("1 + 2"), vec![(0, 1), (2, 3), (4, 5)]);
}

#[test]
fn lex_dice() {
    assert_eq!(kinds("2d6"), vec![integer(2), Token::DIE, integer(6)]);
    assert_eq!(kinds("d20"), vec![Token::DIE, integer(20)]);
}

#[test]
fn lex_keywords_any_case() {
    assert_eq!(
        kinds("for in IF Else match while loop break or and not"),
        vec![
            Token::FOR,
            Token::IN,
            Token::IF,
            Token::ELSE,
            Token::MATCH,
            Token::WHILE,
            Token::LOOP,
            Token::BREAK,
            Token::OR,
            Token::AND,
            Token::NOT
        ]
    );
}

#[test]
fn lex_longer_name_wins_over_keyword() {
    assert_eq!(kinds("format"), vec![Token::Id("format".to_string())]);
    assert_eq!(kinds("dx"), vec![Token::Id("dx".to_string())]);
}

#[test]
fn lex_operators() {
    assert_eq!(
        kinds(":= => ... .. ..= == != <= >= < > /% / % ^ * - ="),
        vec![
            Token::ASSIGNE,
            Token::ARROW,
            Token::SPREAD,
            Token::RANGE,
            Token::RANGEI,
            Token::EQ,
            Token::NE,
            Token::LE,
            Token::GE,
            Token::LT,
            Token::GT,
            Token::IDIV,
            Token::DIV,
            Token::MOD,
            Token::POW,
            Token::MUL,
            Token::SUB,
            Token::ASSIGN
        ]
    );
}

#[test]
fn lex_delimiters() {
    assert_eq!(kinds("a;b\nc"), vec![
        Token::Id("a".to_string()),
        Token::DELIM,
        Token::Id("b".to_string()),
        Token::DELIM,
        Token::Id("c".to_string())
    ]);
}

#[test]
fn lex_radix_integers() {
    assert_eq!(kinds("0x1F"), vec![integer(31)]);
    assert_eq!(kinds("0b101"), vec![integer(5)]);
    assert_eq!(kinds("0o17"), vec![integer(15)]);
    assert_eq!(kinds("1_000"), vec![integer(1000)]);
}

#[test]
fn lex_floats_keep_digits() {
    assert_eq!(float_digits("1.5"), "01.5");
    assert_eq!(float_digits("2e3"), "02e3");
    assert_eq!(float_digits("1_0.5"), "010.5");
}

#[test]
fn lex_index_after_name() {
    assert_eq!(
        kinds("x.5"),
        vec![Token::Id("x".to_string()), Token::Number(NumberKind::Index(5))]
    );
}

#[test]
fn lex_index_with_too_many_digits_is_a_float() {
    assert_eq!(float_digits(".1"), "0.1");
    assert_eq!(float_digits(".10"), "0.10");
    assert_eq!(
        kinds(".25"),
        vec![Token::Number(NumberKind::Index(25))]
    );
}

#[test]
fn lex_strings() {
    assert_eq!(kinds("\"a\\nb\""), vec![Token::String("a\nb".to_string())]);
    assert_eq!(kinds("r#\"x\"#"), vec![Token::String("x".to_string())]);
}

#[test]
fn lex_unknown_character_is_error() {
    let ts = tokenize("1 $ 2");
    assert_eq!(*ts[1].data, Token::ERROR);
    assert_eq!(ts[1].span, Span::new(2..3));
}

#[test]
fn token_iterator_hands_out_in_order() {
    let mut it = TokenIterator::new("a + 1");
    assert_eq!(*it.next().unwrap().data, Token::Id("a".to_string()));
    assert_eq!(*it.next().unwrap().data, Token::ADD);
    assert_eq!(*it.next().unwrap().data, integer(1));
    assert!(it.next().is_none());
    assert!(it.next().is_none());
}
