use kismet::parser::error::{ErrorKind, NomKind};
use kismet::parser::parse;
use kismet::types::span::Span;

#[test]
fn leftover_input_is_nom_eof() {
    let e = parse("1 $").unwrap_err();
    assert!(matches!(*e.data, ErrorKind::Nom(NomKind::Eof)));
    assert_eq!(e.span, Some(Span::new(2..3)));
}

#[test]
fn assignment_to_a_number_is_a_grammar_error() {
    let e = parse("1 = 2").unwrap_err();
    assert!(matches!(*e.data, ErrorKind::Grammar));
    assert_eq!(e.span, Some(Span::new(2..3)));
}

#[test]
fn assignment_to_a_name_parses() {
    assert!(parse("x = 2").is_ok());
    assert!(parse("(a, b) = (1, 2)").is_ok());
}

#[test]
fn unclosed_paren_leaves_input_over() {
    // The statement fails softly, so the whole input is left over.
    let e = parse("(").unwrap_err();
    assert!(matches!(*e.data, ErrorKind::Nom(NomKind::Eof)));
    assert_eq!(e.span, Some(Span::new(0..1)));
}

#[test]
fn debug_of_errors_is_available() {
    let e = parse("").unwrap_err();
    assert_eq!(format!("{:?}", e.data), "Eof");
}
