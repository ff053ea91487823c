use unabs::parse::{parse_term, tokenize, ParseError, Token};
use unabs::term::{app, Term};

fn text_of(src: &str) -> String {
    match parse_term(src) {
        Ok(t) => t.to_text(),
        Err(_) => panic!("parse error"),
    }
}

fn error_of(src: &str) -> ParseError {
    match parse_term(src) {
        Ok(_) => panic!("parsed"),
        Err(e) => e,
    }
}

#[test]
fn parses_primitives() {
    for p in ["i", "s", "k", "v", "d", "c", "r", ".x"] {
        assert_eq!(text_of(p), p);
    }
}

#[test]
fn parses_applications() {
    assert_eq!(text_of("```skkv"), "```skkv");
    assert_eq!(text_of("`.a`.bi"), "`.a`.bi");
}

#[test]
fn parses_shape() {
    match parse_term("`ik") {
        Ok(Term::App(a, b)) => {
            assert!(matches!(*a, Term::I));
            assert!(matches!(*b, Term::K));
        }
        _ => panic!("expected an application"),
    }
    match parse_term(".\n") {
        Ok(Term::Put(c)) => assert_eq!(c, '\n'),
        _ => panic!("expected an output primitive"),
    }
}

#[test]
fn skips_blanks_and_comments() {
    assert_eq!(text_of("  `  i\n\tk\r\n"), "`ik");
    assert_eq!(text_of("# a comment\n`i # another\nv"), "`iv");
    assert_eq!(text_of("`i.#"), "`i.#");
    assert_eq!(text_of("`i. "), "`i. ");
}

#[test]
fn newline_output_renders_as_r() {
    assert_eq!(text_of(".\n"), "r");
}

#[test]
fn rejects_unknown_character() {
    assert!(error_of("x") == ParseError::Lexical);
    assert!(error_of("`iI") == ParseError::Lexical);
}

#[test]
fn rejects_dot_at_end() {
    assert!(error_of("`i.") == ParseError::Lexical);
}

#[test]
fn rejects_missing_operand() {
    assert!(error_of("`i") == ParseError::Syntax);
    assert!(error_of("") == ParseError::Syntax);
    assert!(error_of("# only a comment") == ParseError::Syntax);
}

#[test]
fn rejects_trailing_term() {
    assert!(error_of("ii") == ParseError::Syntax);
    assert!(error_of("`iki") == ParseError::Syntax);
}

#[test]
fn tokenizes_in_order() {
    let cs: Vec<char> = "`.ai # c\nk".chars().collect();
    match tokenize(&cs) {
        Some(ts) => assert!(ts == vec![Token::Tick, Token::Put('a'), Token::I, Token::K]),
        None => panic!("tokenize failed"),
    }
    let bad: Vec<char> = "`ai!".chars().collect();
    assert!(tokenize(&bad).is_none());
}

#[test]
fn round_trip_through_text() {
    let t = app(app(Term::S, Term::Put('z')), app(Term::R, Term::C));
    let text = t.to_text();
    assert_eq!(text, "``s.z`rc");
    assert_eq!(text_of(&text), text);
}
