use list::parser::Parser;
use list::pattern::{PatternToken, PatternTree};
use list::tokenizer::{BuiltinTypes, Int, Literals, Token, Tokens};

fn scan(s: &str) -> Vec<Token> {
    Tokens::from_str(s).unwrap().0
}

#[test]
fn integer_literals_scan_back_to_themselves() {
    for lit in [Int(false, 42), Int(true, 7), Int(false, 0), Int(true, 0), Int(false, u128::MAX)] {
        let text = lit.to_string();
        assert_eq!(scan(&text), vec![Token::Literal(Literals::Int(lit))]);
    }
    assert_eq!(Int(true, 1234).to_string(), "-1234");
    assert_eq!(Int(false, 1234).to_string(), "1234");
}

#[test]
fn char_literals_scan_back_to_themselves() {
    for c in ['x', '\'', ' ', '(', 'é'] {
        let lit = Literals::Char(c);
        let text = lit.to_string();
        assert_eq!(scan(&text), vec![Token::Literal(Literals::Char(c))]);
    }
    assert_eq!(Literals::Char('x').to_string(), "'x'");
    assert_eq!(Literals::String("a b".to_string()).to_string(), "\"a b\"");
    assert_eq!(Literals::Bool(false).to_string(), "false");
}

#[test]
fn builtin_type_names_scan_back_to_their_types() {
    let all = [
        BuiltinTypes::U8,
        BuiltinTypes::U16,
        BuiltinTypes::U32,
        BuiltinTypes::U64,
        BuiltinTypes::I8,
        BuiltinTypes::I16,
        BuiltinTypes::I32,
        BuiltinTypes::I64,
        BuiltinTypes::I128,
        BuiltinTypes::Char,
        BuiltinTypes::Bool,
    ];
    for b in all {
        assert_eq!(scan(&b.to_string()), vec![Token::Type(b)]);
    }
}

#[test]
fn u128_and_string_are_the_exceptions() {
    assert_eq!(BuiltinTypes::U128.to_string(), "k128");
    assert_eq!(scan("k128"), vec![Token::Identifier("k128".to_string())]);
    assert_eq!(BuiltinTypes::String.to_string(), "String");
    assert_eq!(scan("String"), vec![Token::Identifier("String".to_string())]);
}

#[test]
fn blanks_and_comments_give_no_tokens() {
    assert_eq!(scan(" (a)"), scan("(a)"));
    assert_eq!(scan("\n(a)"), scan("(a)"));
    assert_eq!(scan("-- a comment (b)\n(a)"), scan("(a)"));
}

#[test]
fn a_parsed_file_leaves_no_token() {
    let mut p = Parser::new(Tokens::from_str("(use a) (use b)").unwrap());
    let f = list::parser::file::File::try_from(&mut p).unwrap();
    assert_eq!(p.len(), 0);
    assert_eq!(f.to_string(), "use a;\nuse b;");
}

#[test]
fn a_parse_leaves_the_rest_of_the_tokens() {
    let mut p = Parser::new(Tokens::from_str("x y z").unwrap());
    let e = list::parser::exp::Exp::try_from(&mut p).unwrap();
    assert_eq!(e.to_string(), "x");
    assert_eq!(p.len(), 2);
    assert_eq!(p.first(), Some(&Token::Identifier("y".to_string())));
}

#[test]
fn a_pattern_tree_holds_its_value_and_nodes() {
    let leaf = PatternTree::new(PatternToken::Identifier("a".to_string()));
    let tree = PatternTree::new(PatternToken::Type(BuiltinTypes::Bool)).nodes(vec![leaf]);
    assert_eq!(
        tree,
        PatternTree::new(PatternToken::Type(BuiltinTypes::Bool))
            .nodes(vec![PatternTree::new(PatternToken::Identifier("a".to_string()))])
    );
    let mut p = Parser::new(Tokens::from_str("(x)").unwrap());
    let read = PatternTree::try_from(&mut p).unwrap();
    assert_eq!(
        read,
        PatternTree::new(PatternToken::Literal(Literals::String("Hello".to_string())))
    );
    assert_eq!(p.len(), 3);
}

#[test]
fn putting_back_a_taken_token_restores_the_parser() {
    let mut p = Parser::new(Tokens::from_str("(a b)").unwrap());
    let t = p.pop_front().unwrap();
    assert_eq!(t, Token::ParenOpen);
    p.push_front(t);
    assert_eq!(p.len(), 4);
    assert_eq!(p.first(), Some(&Token::ParenOpen));
    assert_eq!(p.nth(3), Some(&Token::ParenClose));
    assert_eq!(p.nth(4), None);
}

#[test]
fn boolean_literals_scan_back_to_themselves() {
    for b in [true, false] {
        assert_eq!(
            scan(&Literals::Bool(b).to_string()),
            vec![Token::Literal(Literals::Bool(b))]
        );
    }
}

#[test]
fn a_string_ending_in_a_backslash_does_not_scan_back() {
    let lit = Literals::String("a\\".to_string());
    assert_eq!(lit.to_string(), "\"a\\\"");
    assert_eq!(
        scan(&lit.to_string()),
        vec![Token::Literal(Literals::String("a\\\"".to_string()))]
    );
}

#[test]
fn a_string_read_back_whole_scans_back_to_itself() {
    for s in ["", "a b", "say \\\"hi\\\"", "a\\\\"] {
        let lit = Literals::String(s.to_string());
        assert_eq!(
            scan(&lit.to_string()),
            vec![Token::Literal(Literals::String(s.to_string()))]
        );
    }
}
