use list::parser::attribute::Attribute;
use list::parser::matching::{Match, Pattern};
use list::parser::module::Mod;
use list::parser::traits::Trait;
use list::parser::types::TypeAlias;
use list::parser::{ParseFault, Parser, Problem};
use list::tokenizer::{Keywords, Token, Tokens};

fn reader(s: &str) -> Parser {
    Parser::new(Tokens::from_str(s).unwrap())
}

/// The scan of `s`, with the names `type`, `trait` and `mod` made keywords:
/// the scan itself gives no such keyword.
fn keyworded(s: &str) -> Parser {
    let ts = Tokens::from_str(s).unwrap().0;
    let ts = ts
        .into_iter()
        .map(|t| match t {
            Token::Identifier(w) if w == "type" => Token::Keyword(Keywords::Type),
            Token::Identifier(w) if w == "trait" => Token::Keyword(Keywords::Trait),
            Token::Identifier(w) if w == "mod" => Token::Keyword(Keywords::Mod),
            t => t,
        })
        .collect();
    Parser::new(Tokens(ts))
}

fn pattern(s: &str) -> String {
    Pattern::try_from(&mut reader(s)).unwrap().to_string()
}

fn block(s: &str) -> String {
    Parser::expression(Tokens::from_str(s).unwrap()).unwrap().to_string()
}

#[test]
fn writes_patterns() {
    assert_eq!(pattern("<a b>"), "(a, b)");
    assert_eq!(pattern("[x ..]"), "[x, ..]");
    assert_eq!(pattern("n@1"), "n@1");
    assert_eq!(pattern("(or 1 2)"), "1| 2");
    assert_eq!(pattern("(Some x)"), "Some(x)");
    assert_eq!(pattern("(None)"), "None");
    assert_eq!(pattern("(Pt {a b->c})"), "Pt{a, b: c}");
    assert_eq!(pattern("Color->Red"), "Color::Red");
    assert_eq!(pattern("'x'"), "'x'");
}

#[test]
fn writes_statements() {
    assert_eq!(
        block("(do if c (f) elif d (g) else (h))"),
        "{\n{if c {f()}d {g()} else {h()}}}"
    );
    assert_eq!(block("(do if c break)"), "{\n{if c {break;}}}");
    assert_eq!(block("(do for x <- v (f x))"), "{\n{for x in v {f(x)}};}");
    assert_eq!(block("(do while c break)"), "{\nwhile c {break;}}");
    assert_eq!(block("(do loop continue)"), "{\nloop {continue;}}");
    assert_eq!(block("(do (f); x)"), "{\nf();\nx}");
    assert_eq!(block("(do)"), "{}");
}

#[test]
fn writes_destructuring_lets() {
    assert_eq!(block("(do let mut <a b> <- p)"), "{\nlet mut (a, b) = p;}");
    assert_eq!(
        block("(do let Point{x y->z ..} <- p)"),
        "{\nlet Point {x, y: z, ..} = p;}"
    );
    assert_eq!(block("(do let [a ..] <- v)"), "{\nlet [a, ..] = v;}");
}

#[test]
fn writes_attributes() {
    let attr = |s: &str| Attribute::try_from(&mut reader(s)).unwrap().to_string();
    assert_eq!(attr("#[(derive Debug Clone)]"), "#[derive(Debug, Clone)]");
    assert_eq!(attr("#![allow]"), "#![allow]");
    assert_eq!(attr("#[(= path \"a\")]"), "#[path = \"a\"]");
}

#[test]
fn writes_attributes_on_fields_and_variants() {
    assert_eq!(
        Parser::struct_def(Tokens::from_str("(struct S { #[serde] a->i32 })").unwrap())
            .unwrap()
            .to_string(),
        "struct S {#[serde]\na: i32}"
    );
    assert_eq!(
        Parser::enum_def(Tokens::from_str("(enum E #[default] A B)").unwrap())
            .unwrap()
            .to_string(),
        "enum E {#[default]\nA, B}"
    );
}

#[test]
fn writes_type_aliases() {
    let alias = |s: &str| TypeAlias::try_from(&mut keyworded(s)).unwrap().to_string();
    assert_eq!(alias("(type Id u32)"), "type Id = u32;");
    assert_eq!(alias("(type Id)"), "type Id;");
}

#[test]
fn writes_traits() {
    assert_eq!(
        Trait::try_from(&mut keyworded("(trait Show [(defun show (&self)->string)])"))
            .unwrap()
            .to_string(),
        "trait Show {fn show(&self) -> String;}"
    );
}

#[test]
fn writes_modules() {
    assert_eq!(Mod::try_from(&mut keyworded("(mod inner)")).unwrap().to_string(), "mod inner;");
    assert_eq!(
        Mod::try_from(&mut keyworded("(pub mod m [(use a)])")).unwrap().to_string(),
        "pub mod m {use a;}"
    );
}

#[test]
fn writes_generic_impls() {
    assert_eq!(
        Parser::file(Tokens::from_str("(impl :T Foo [])").unwrap()).unwrap().to_string(),
        "impl<T> Foo {}"
    );
    assert_eq!(
        Parser::file(Tokens::from_str("(impl Vec<i32> [])").unwrap()).unwrap().to_string(),
        "impl Vec::<i32> {}"
    );
}

#[test]
fn a_node_that_rust_cannot_hold_is_not_written() {
    let e = Parser::expression(Tokens::from_str("(lambda () 1)").unwrap()).unwrap();
    let mut s = String::new();
    assert!(!e.write_to(&mut s));
    let e = Parser::enum_def(Tokens::from_str("(enum E)").unwrap()).unwrap();
    assert!(!e.write_to(&mut String::new()));
    let e = Parser::expression(Tokens::from_str("(lambda (x) 1)").unwrap()).unwrap();
    let mut s = String::new();
    assert!(e.write_to(&mut s));
    assert_eq!(s, "(|x| 1)");
}

#[test]
fn a_literal_range_pattern_is_refused() {
    // The expression reader takes the whole range, and no '..' is left for it.
    let e = Pattern::try_from(&mut reader("1..5")).unwrap_err();
    assert!(matches!(e.err(), ParseFault::MoreTokens));
    assert_eq!(e.stack(), &vec!["Range", "Pattern"]);
    let e = Pattern::try_from(&mut reader("1..=5 x")).unwrap_err();
    assert!(matches!(e.err(), ParseFault::Unexpected(_)));
    assert!(Match::try_from(&mut reader("(match x (1..=5 a) (_ b))")).is_err());
}
