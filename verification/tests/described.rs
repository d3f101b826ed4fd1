use list::parser::defun::defun_readable;
use list::parser::do_block::DoActions;
use list::parser::exp::Exp;
use list::parser::matching::Match;
use list::parser::{Parser, ParserError};
use list::tokenizer::{Keywords, Token, Tokens};

fn tokens(s: &str) -> Tokens {
    Tokens::from_str(s).unwrap()
}

fn reader(s: &str) -> Parser {
    Parser::new(tokens(s))
}

/// The scan of `s`, with the names `type`, `trait` and `mod` made keywords:
/// the scan itself gives no such keyword.
fn keyworded(s: &str) -> Tokens {
    Tokens(
        tokens(s)
            .0
            .into_iter()
            .map(|t| match t {
                Token::Identifier(w) if w == "type" => Token::Keyword(Keywords::Type),
                Token::Identifier(w) if w == "trait" => Token::Keyword(Keywords::Trait),
                Token::Identifier(w) if w == "mod" => Token::Keyword(Keywords::Mod),
                t => t,
            })
            .collect(),
    )
}

#[test]
fn an_impl_names_the_trait_before_the_type() {
    assert_eq!(
        Parser::file(tokens("(impl Trait -> Type [ (defun whatever()->i32 100) ])"))
            .unwrap()
            .to_string(),
        "impl Trait for Type {fn whatever() -> i32 {100}}"
    );
}

#[test]
fn an_impl_may_hold_type_aliases() {
    assert_eq!(
        Parser::file(keyworded("(impl Foo [(type Out i32)])")).unwrap().to_string(),
        "impl Foo {type Out = i32;}"
    );
    assert_eq!(Parser::file(keyworded("(type Id u64)")).unwrap().to_string(), "type Id = u64;");
}

#[test]
fn type_trait_and_mod_scan_as_names() {
    assert!(Parser::file(tokens("(type Id u64)")).is_err());
    assert!(Parser::file(tokens("(impl Foo [(type Out i32)])")).is_err());
}

#[test]
fn an_if_may_leave_out_else() {
    assert_eq!(
        Parser::expression(tokens("(if (> 5 1) (- 5 1) (+ 5 1))")).unwrap().to_string(),
        "if (5) > (1) {(5) - (1)} else {(5) + (1)}"
    );
    assert_eq!(
        Parser::expression(tokens("(if a 1 elif b 2 3)")).unwrap().to_string(),
        "if a {1} else if b {2} else {3}"
    );
}

#[test]
fn struct_fields_may_leave_out_the_arrow() {
    assert_eq!(
        Parser::struct_def(tokens("(struct Person { name String age i32 })"))
            .unwrap()
            .to_string(),
        "struct Person {name: String, age: i32}"
    );
}

#[test]
fn a_for_may_bind_several_patterns() {
    let a = DoActions::try_from(&mut reader(
        "for i, val <- (variable.iter) (println! \"{}: {}\" i val)",
    ))
    .unwrap();
    assert_eq!(
        a.to_string(),
        "{for (i, val) in variable.iter() {println!(\"{}: {}\", i, val)}};"
    );
}

#[test]
fn a_statement_may_stand_in_parentheses() {
    let mut p = reader("loop (if true break continue)");
    let a = DoActions::try_from(&mut p).unwrap();
    assert_eq!(a.to_string(), "loop {{if true {break;} else {continue;}}}");
    assert_eq!(p.len(), 0);
    assert_eq!(
        Parser::expression(keyworded("(do (while c (break)) (type T u8) x)")).unwrap().to_string(),
        "{\nwhile c {break;}\ntype T = u8;\nx}"
    );
}

#[test]
fn functions_may_be_written_with_define_and_our() {
    assert_eq!(
        Parser::function(tokens("(define multiply (x->i32 y->i32)->i32 (* x y))"))
            .unwrap()
            .to_string(),
        "fn multiply(x: i32, y: i32) -> i32 {(x) * (y)}"
    );
    assert_eq!(
        Parser::function(tokens("(our define f ()->i32 1)")).unwrap().to_string(),
        "pub fn f() -> i32 {1}"
    );
}

#[test]
fn a_guard_may_stand_inside_the_pattern_parentheses() {
    assert_eq!(
        Match::try_from(&mut reader("(match x ((n if (> n 3)) n) (_ 0))")).unwrap().to_string(),
        "match x {\nn if (n) > (3) => n,\n_ => 0,}"
    );
}

#[test]
fn tells_whether_a_function_scope_can_be_read() {
    assert!(defun_readable(&tokens("(defun f ()->i32 1)")));
    assert!(defun_readable(&tokens("(pub defun f ()->i32 1)")));
    assert!(defun_readable(&tokens("x")));
    assert!(!defun_readable(&tokens("(foo defun f ()->i32 1)")));
    assert!(!defun_readable(&tokens("(")));
}

#[test]
fn an_error_reads_as_text() {
    let e: ParserError = Parser::function(tokens("(defun f (x)->i32 1)")).err().unwrap();
    assert_eq!(e.message(), "Expected named arg, got a simple arg: ArgsTyped Defun");
    let e = Parser::enum_def(tokens("")).err().unwrap();
    assert_eq!(e.message(), "Expected more tokens: Enum");
}

#[test]
fn an_enum_error_names_the_enum_rule() {
    let e = Parser::enum_def(Tokens(vec![])).unwrap_err();
    assert_eq!(e.stack().last(), Some(&"Enum"));
    assert_eq!(e.message(), "Expected more tokens: Enum");
}

#[test]
fn a_function_error_names_the_function_rule() {
    let e = Parser::function(tokens("x")).unwrap_err();
    assert_eq!(e.stack(), &vec!["Defun"]);
}

#[test]
fn a_struct_generic_error_names_the_struct_rule() {
    let e = Parser::struct_def(tokens("(struct Foo :")).unwrap_err();
    assert_eq!(e.stack().last(), Some(&"Struct"));
}

#[test]
fn an_if_reads_one_elif() {
    assert_eq!(
        Parser::expression(tokens("(if a 1 elif b 2 else 3)")).unwrap().to_string(),
        "if a {1} else if b {2} else {3}"
    );
    assert!(Parser::expression(tokens("(if a 1 elif b 2 elif c 3 else 4)")).is_err());
    let mut p = reader("if a break elif b continue elif c break");
    let a = DoActions::try_from(&mut p).unwrap();
    assert_eq!(a.to_string(), "{if a {break;}b {continue;}}");
    assert_eq!(p.len(), 3);
}

#[test]
fn an_expression_may_leave_a_parenthesis_open() {
    let mut p = reader("(return x)");
    assert_eq!(Exp::try_from(&mut p).unwrap().to_string(), "return x");
    assert_eq!(p.len(), 1);
    // A failed operator form falls back to a plain expression where the
    // failed read stopped.
    let mut p = reader("(+ (f . ( g)");
    assert_eq!(Exp::try_from(&mut p).unwrap().to_string(), "g");
    assert_eq!(p.len(), 0);
}

#[test]
fn an_expression_error_names_its_rules() {
    let e = Parser::expression(tokens("(if)")).unwrap_err();
    assert_eq!(e.stack(), &vec!["Exp", "If", "Self"]);
    let e = Parser::expression(tokens("(f (if))")).unwrap_err();
    assert_eq!(e.stack(), &vec!["Exp", "If", "Self", "exp"]);
}
