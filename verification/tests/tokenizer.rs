use list::tokenizer::{BuiltinTypes, Int, Keywords, Literals, Token, Tokens};

fn scan(s: &str) -> Vec<Token> {
    Tokens::from_str(s).unwrap().0
}

fn ident(s: &str) -> Token {
    Token::Identifier(s.to_string())
}

#[test]
fn scans_a_function_definition() {
    assert_eq!(
        scan("(defun add (x->i32 y->i32)->i32 (+ x y))"),
        vec![
            Token::ParenOpen,
            Token::Keyword(Keywords::Defun),
            ident("add"),
            Token::ParenOpen,
            ident("x"),
            Token::Keyword(Keywords::LeftArrow),
            Token::Type(BuiltinTypes::I32),
            ident("y"),
            Token::Keyword(Keywords::LeftArrow),
            Token::Type(BuiltinTypes::I32),
            Token::ParenClose,
            Token::Keyword(Keywords::LeftArrow),
            Token::Type(BuiltinTypes::I32),
            Token::ParenOpen,
            Token::Char('+'),
            ident("x"),
            ident("y"),
            Token::ParenClose,
            Token::ParenClose,
        ]
    );
}

#[test]
fn scans_integer_literals() {
    assert_eq!(
        scan("12 -34 0"),
        vec![
            Token::Literal(Literals::Int(Int(false, 12))),
            Token::Literal(Literals::Int(Int(true, 34))),
            Token::Literal(Literals::Int(Int(false, 0))),
        ]
    );
}

#[test]
fn scans_the_largest_integer() {
    assert_eq!(
        scan("340282366920938463463374607431768211455"),
        vec![Token::Literal(Literals::Int(Int(false, u128::MAX)))]
    );
}

#[test]
fn scans_char_and_string_literals() {
    assert_eq!(
        scan("'a' \"hi \\\"there\\\"\""),
        vec![
            Token::Literal(Literals::Char('a')),
            Token::Literal(Literals::String("hi \\\"there\\\"".to_string())),
        ]
    );
}

#[test]
fn an_unclosed_string_runs_to_the_end() {
    assert_eq!(
        scan("\"abc"),
        vec![Token::Literal(Literals::String("abc".to_string()))]
    );
}

#[test]
fn refuses_an_open_char_literal() {
    assert_eq!(Tokens::from_str("'ab"), Err("unfinished closing single quote"));
}

#[test]
fn refuses_a_word_ending_in_a_dash() {
    assert_eq!(Tokens::from_str("abc-"), Err("Expected more chars"));
}

#[test]
fn skips_comments_and_line_breaks() {
    assert_eq!(scan("a -- a comment\nb"), vec![ident("a"), ident("b")]);
    assert_eq!(scan("ab--note\ncd"), vec![ident("abcd")]);
}

#[test]
fn scans_operators_and_punctuation() {
    assert_eq!(
        scan("*x * <- .. & / [ ] { } < >"),
        vec![
            Token::Keyword(Keywords::Deref),
            ident("x"),
            Token::Char('*'),
            Token::Keyword(Keywords::RightArrow),
            Token::DoubleDot,
            Token::Ref,
            Token::Slash,
            Token::BracketOpen,
            Token::BracketClose,
            Token::CurlyOpen,
            Token::CurlyClose,
            Token::AngleBracketOpen,
            Token::AngleBracketClose,
        ]
    );
}

#[test]
fn scans_a_turbofish_start() {
    assert_eq!(
        scan("vec<i32>"),
        vec![
            ident("vec"),
            Token::Keyword(Keywords::TurboStart),
            Token::Type(BuiltinTypes::I32),
            Token::AngleBracketClose,
        ]
    );
}

#[test]
fn keeps_dashes_inside_words() {
    assert_eq!(scan("foo-bar baz!"), vec![ident("foo-bar"), ident("baz!")]);
}

#[test]
fn a_word_with_a_foreign_character_is_dropped() {
    assert_eq!(scan("a-(b c"), vec![ident("c")]);
}

#[test]
fn scans_keywords_literals_and_types() {
    assert_eq!(
        scan("if else elif match lambda let do not true false string char u128 type trait mod"),
        vec![
            Token::Keyword(Keywords::If),
            Token::Keyword(Keywords::Else),
            Token::Keyword(Keywords::Elif),
            Token::Keyword(Keywords::Match),
            Token::Keyword(Keywords::Lambda),
            Token::Keyword(Keywords::Let),
            Token::Keyword(Keywords::Do),
            Token::Keyword(Keywords::Not),
            Token::Literal(Literals::Bool(true)),
            Token::Literal(Literals::Bool(false)),
            Token::Type(BuiltinTypes::String),
            Token::Type(BuiltinTypes::Char),
            Token::Type(BuiltinTypes::U128),
            ident("type"),
            ident("trait"),
            ident("mod"),
        ]
    );
}

#[test]
fn other_characters_are_char_tokens() {
    assert_eq!(
        scan("? : ; @ \t"),
        vec![
            Token::Char('?'),
            Token::Char(':'),
            Token::Char(';'),
            Token::Char('@'),
            Token::Char('\t'),
        ]
    );
}

#[test]
fn the_checked_scan_reports_scans_that_would_not_end() {
    assert!(Tokens::checked_from_str("'").is_none());
    assert!(Tokens::checked_from_str("a -- no line break").is_none());
    assert!(Tokens::checked_from_str("340282366920938463463374607431768211456").is_none());
    assert_eq!(
        Tokens::checked_from_str("(x)"),
        Some(Ok(Tokens(vec![Token::ParenOpen, ident("x"), Token::ParenClose])))
    );
    assert_eq!(Tokens::checked_from_str("'ab"), Some(Err("unfinished closing single quote")));
}

#[test]
fn an_empty_text_has_no_tokens() {
    assert_eq!(scan(""), vec![]);
    assert_eq!(scan(" \n  "), vec![]);
}
