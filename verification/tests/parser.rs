use list::parser::defun::Scope;
use list::parser::exp::Exp;
use list::parser::types::Type;
use list::parser::{ParseFault, Parser, Problem};
use list::tokenizer::{Token, Tokens};

fn tokens(s: &str) -> Tokens {
    Tokens::from_str(s).unwrap()
}

fn exp(s: &str) -> String {
    Parser::expression(tokens(s)).unwrap().to_string()
}

fn ty(s: &str) -> String {
    Type::try_from(&mut Parser::new(tokens(s))).unwrap().to_string()
}

fn file(s: &str) -> String {
    Parser::file(tokens(s)).unwrap().to_string()
}

fn fault(r: Result<String, list::parser::ParserError>) -> ParseFault {
    match r {
        Ok(s) => panic!("parsed as {s}"),
        Err(e) => match e.err() {
            ParseFault::MoreTokens => ParseFault::MoreTokens,
            ParseFault::Unexpected(t) => ParseFault::Unexpected(t.copy()),
            ParseFault::Invalid(p) => ParseFault::Invalid(match p {
                Problem::GenericAmongArgs => Problem::GenericAmongArgs,
                Problem::UntypedArg => Problem::UntypedArg,
                Problem::TypedArg => Problem::TypedArg,
                Problem::RefNotSelf => Problem::RefNotSelf,
                Problem::NotAScope(s) => Problem::NotAScope(s.clone()),
                Problem::RangeNotLiteral => Problem::RangeNotLiteral,
                Problem::NotAnImplItem => Problem::NotAnImplItem,
                Problem::MissingArrayElement => Problem::MissingArrayElement,
            }),
        },
    }
}

// ---------------------------------------------------------------- types

#[test]
fn writes_reference_types() {
    assert_eq!(ty("&mut i32"), "&mut i32");
    assert_eq!(ty("&bool"), "&bool");
    assert_eq!(ty("&/a/ Foo"), "&'a Foo");
}

#[test]
fn writes_arrays_tuples_and_generic_types() {
    assert_eq!(ty("[u8; 4]"), "[u8; 4]");
    assert_eq!(ty("[char]"), "[char]");
    assert_eq!(ty("<i32 bool>"), "(i32, bool)");
    assert_eq!(ty("(Vec i32)"), "Vec<i32>");
    assert_eq!(ty("(HashMap string :T)"), "HashMap<String, T>");
}

#[test]
fn writes_builtin_type_names() {
    assert_eq!(ty("u128"), "k128");
    assert_eq!(ty("string"), "String");
    assert_eq!(ty("Self"), "Self");
}

#[test]
fn writes_function_types() {
    assert_eq!(ty("(i32 -> bool)"), "fn(i32) -> bool");
    assert_eq!(ty("((i32 u8) -> bool)"), "fn(i32, u8) -> bool");
    assert_eq!(ty("(() -> bool)"), "fn() -> bool");
    assert_eq!(ty("((Vec i32) -> u8)"), "fn(Vec, i32) -> u8");
    assert_eq!(ty("(((Vec i32)) -> u8)"), "fn(Vec<i32>) -> u8");
}

// ---------------------------------------------------------------- expressions

#[test]
fn writes_operator_applications() {
    assert_eq!(exp("(+ 1 2)"), "(1) + (2)");
    assert_eq!(exp("(- 5 3)"), "(5) - (3)");
    assert_eq!(exp("(= a b)"), "(a) == (b)");
    assert_eq!(exp("(/= a b)"), "(a) != (b)");
    assert_eq!(exp("(<= a b)"), "(a) <= (b)");
    assert_eq!(exp("(<< a 2)"), "(a) << (2)");
    assert_eq!(exp("(and a (or b c))"), "(a) && ((b) || (c))");
}

#[test]
fn writes_calls() {
    assert_eq!(exp("(foo 1 2)"), "foo(1, 2)");
    assert_eq!(exp("(foo)"), "foo()");
}

#[test]
fn writes_conditionals() {
    assert_eq!(exp("(if (< a b) a else b)"), "if (a) < (b) {a} else {b}");
    assert_eq!(
        exp("(if a 1 elif b 2 else 3)"),
        "if a {1} else if b {2} else {3}"
    );
}

#[test]
fn writes_closures() {
    assert_eq!(exp("(lambda (x y) (* x y))"), "(|x, y| (x) * (y))");
}

#[test]
fn writes_let_bindings() {
    assert_eq!(
        exp("(let ((a 1) (b 2)) (+ a b))"),
        "{{let a = 1;\nlet b = 2;\n(a) + (b)}}"
    );
    assert_eq!(exp("(let (a 1) a)"), "{{let a = 1;\na}}");
}

#[test]
fn writes_casts() {
    assert_eq!(exp("(as x i64)"), "(x as i64)");
}

#[test]
fn writes_literals() {
    assert_eq!(exp("\"hi\""), "\"hi\"");
    assert_eq!(exp("'c'"), "'c'");
    assert_eq!(exp("-5"), "-5");
    assert_eq!(exp("true"), "true");
}

#[test]
fn not_is_read_as_a_negation() {
    assert_eq!(exp("(not x)"), "-x");
    let mut p = Parser::new(tokens("(not x)"));
    assert_eq!(Exp::try_from(&mut p).unwrap().to_string(), "-x");
    assert_eq!(p.len(), 1);
}

#[test]
fn writes_arrays() {
    assert_eq!(exp("[1 2 3]"), "[1, 2, 3]");
    assert_eq!(exp("[]"), "[]");
    assert_eq!(exp("[0; 5]"), "[0;5]");
}

#[test]
fn writes_suffixes() {
    assert_eq!(exp("x/len"), "x.len");
    assert_eq!(exp("x?"), "x?");
    assert_eq!(exp("1..5"), "(1..5)");
    assert_eq!(exp("1..=5"), "(1..=5)");
}

#[test]
fn writes_struct_values() {
    assert_eq!(exp("Point{x->1 y->2}"), "Point{x:1, y:2}");
}

#[test]
fn writes_blocks() {
    assert_eq!(
        exp("(do let x <- 1 x <- (+ x 1) x)"),
        "{\nlet x = 1;\nx = (x) + (1);\nx}"
    );
}

#[test]
fn writes_matches() {
    assert_eq!(exp("(match x (1 a) (_ b))"), "match x {\n1 => a,\n_ => b,}");
}

// ---------------------------------------------------------------- items

#[test]
fn writes_structs() {
    assert_eq!(
        Parser::struct_def(tokens("(struct Point { x->i32 y->i32 })")).unwrap().to_string(),
        "struct Point {x: i32, y: i32}"
    );
    assert_eq!(
        Parser::struct_def(tokens("(struct Pair i32 u8)")).unwrap().to_string(),
        "struct Pair(i32, u8);"
    );
    assert_eq!(
        Parser::struct_def(tokens("(struct Wrap :T (Vec :T))")).unwrap().to_string(),
        "struct Wrap<T>(Vec<T>);"
    );
}

#[test]
fn writes_enums() {
    assert_eq!(
        Parser::enum_def(tokens("(enum Color Red Green (Rgb u8 u8 u8))")).unwrap().to_string(),
        "enum Color {Red, Green, Rgb(u8, u8, u8)}"
    );
}

#[test]
fn writes_functions() {
    assert_eq!(
        Parser::function(tokens("(defun add (x->i32 y->i32)->i32 (+ x y))")).unwrap().to_string(),
        "fn add(x: i32, y: i32) -> i32 {(x) + (y)}"
    );
    assert_eq!(
        Parser::function(tokens("(defun add (x->i32)->i32)")).unwrap().to_string(),
        "fn add(x: i32) -> i32;"
    );
    assert_eq!(
        Parser::function(tokens("(pub defun f ()->bool true)")).unwrap().to_string(),
        "pub fn f() -> bool {true}"
    );
    assert_eq!(
        Parser::function(tokens("(crate defun get (&self)->i32 1)")).unwrap().to_string(),
        "pub(crate) fn get(&self) -> i32 {1}"
    );
    assert_eq!(
        Parser::function(tokens("(defun id (:T x->:T)->:T x)")).unwrap().to_string(),
        "fn id<T>(x: T) -> T {x}"
    );
}

#[test]
fn writes_files() {
    assert_eq!(
        file("(use std->collections->HashMap)\n(use std->(fs io))\n(defun main ()->i32 0)"),
        "use std::collections::HashMap;\nuse std::{fs, io};\nfn main() -> i32 {0}"
    );
    assert_eq!(file(""), "");
}

#[test]
fn writes_impls() {
    assert_eq!(
        file("(impl Point [(defun get (&self)->i32 1)])"),
        "impl Point {fn get(&self) -> i32 {1}}"
    );
    assert_eq!(file("(impl Show->Point [])"), "impl Show for Point {}");
}

#[test]
fn a_file_is_written_by_to_file_str() {
    let mut p = Parser::new(tokens("(struct A i32)\n(struct B bool)"));
    assert_eq!(p.to_file_str(), "struct A(i32);\nstruct B(bool);");
    assert_eq!(p.len(), 0);
}

// ---------------------------------------------------------------- errors

#[test]
fn reports_missing_tokens() {
    assert!(matches!(fault(Parser::expression(tokens("")).map(|e| e.to_string())), ParseFault::MoreTokens));
    assert!(matches!(
        fault(Parser::expression(tokens("(+ 1")).map(|e| e.to_string())),
        ParseFault::MoreTokens
    ));
}

#[test]
fn reports_unexpected_tokens() {
    assert!(matches!(
        fault(Parser::expression(tokens(")")).map(|e| e.to_string())),
        ParseFault::Unexpected(Token::ParenClose)
    ));
    assert!(matches!(
        fault(Parser::file(tokens("(foo 1)")).map(|f| f.to_string())),
        ParseFault::Unexpected(Token::Identifier(s)) if s == "foo"
    ));
}

#[test]
fn reports_an_untyped_argument() {
    assert!(matches!(
        fault(Parser::function(tokens("(defun f (x)->i32 1)")).map(|d| d.to_string())),
        ParseFault::Invalid(Problem::UntypedArg)
    ));
}

#[test]
fn reports_a_typed_closure_argument() {
    assert!(matches!(
        fault(Parser::expression(tokens("(lambda (x->i32) x)")).map(|e| e.to_string())),
        ParseFault::Invalid(Problem::TypedArg)
    ));
}

#[test]
fn reports_a_reference_argument_other_than_self() {
    assert!(matches!(
        fault(Parser::function(tokens("(defun f (&i32)->i32 1)")).map(|d| d.to_string())),
        ParseFault::Invalid(Problem::RefNotSelf)
    ));
}

#[test]
fn reports_a_generic_after_arguments() {
    assert!(matches!(
        fault(Parser::function(tokens("(defun f (x->i32 :T)->i32 1)")).map(|d| d.to_string())),
        ParseFault::Invalid(Problem::GenericAmongArgs)
    ));
}

#[test]
fn reports_a_word_that_is_no_scope() {
    let r = Scope::try_from(&mut Parser::new(tokens("foo")));
    match r {
        Err(e) => assert!(matches!(e.err(), ParseFault::Invalid(Problem::NotAScope(s)) if s == "foo")),
        Ok(_) => panic!("foo read as a scope"),
    }
}

#[test]
fn reports_an_item_that_has_no_place_in_an_impl() {
    assert!(matches!(
        fault(Parser::file(tokens("(impl Point [(struct A i32)])")).map(|f| f.to_string())),
        ParseFault::Invalid(Problem::NotAnImplItem)
    ));
}

#[test]
fn reports_an_array_repetition_without_element() {
    assert!(matches!(
        fault(Parser::expression(tokens("[; 5]")).map(|e| e.to_string())),
        ParseFault::Invalid(Problem::MissingArrayElement)
    ));
}

#[test]
fn an_error_records_the_rules_it_passed_through() {
    let e = Parser::function(tokens("(defun f (x)->i32 1)")).err().unwrap();
    assert_eq!(e.stack(), &vec!["ArgsTyped", "Defun"]);
}

#[test]
fn calls_a_closure_in_place() {
    assert_eq!(exp("((lambda (x y) (* x y)) 10 20)"), "(|x, y| (x) * (y))(10, 20)");
}

#[test]
fn angle_bracket_values_are_read_and_dropped() {
    assert_eq!(exp("<1 2> Point"), "Point");
    assert_eq!(exp("<> Point{x->1}"), "Point{x:1}");
}
