use vstd::pervasive::unreached;
use vstd::prelude::*;

use crate::tokenizer::{Int, Keywords, Literals, Token};

use super::as_cast::{parse_as, As};
use super::do_block::{parse_do, Do};
use super::if_exp::{parse_if, If};
use super::lambda::{parse_lambda, Lambda};
use super::let_exp::{parse_let, Let};
use super::list::List;
use super::matching::{parse_match, Match};
use super::range::Range;
use super::turbofish::{parse_turbofish, TurboFish};
use super::types::{parse_namespaced, NamespacedType};
use crate::text::{decimal, inside, join, lemma_join_cons, push_decimal};

use super::{
    agrees, named, at_is, ctx, ident, map_ok, pop, str_eq, suffix_of, ParseFault, Parsed, Parser,
    ParserError, Problem,
};

verus! {

broadcast use super::lemma_suffix_trans;

/// An expression.
#[derive(Debug)]
pub enum Exp {
    Lambda(Box<Lambda>),
    If(Box<If>),
    Match(Box<Match>),
    Let(Box<Let>),
    As(Box<As>),
    FuncCall(Box<Exp>, List<Exp>),
    MethodCall(Box<Exp>, Box<Exp>, List<Exp>),
    Ref(Box<Exp>),
    MutRef(Box<Exp>),
    Deref(Box<Exp>),
    Not(Box<Exp>),
    Negation(Box<Exp>),
    Positive(Box<Exp>),
    Infix(Box<Infix>),
    Range(Box<Range>),
    Do(Box<Do>),
    Variable(String),
    Field(Box<Exp>, String),
    Literal(Literals),
    TypeCreation(TypeCreation),
    Return(Box<Exp>),
    ErrorOut(Box<Exp>),
    TurboFish(TurboFish),
}

/// A value built from a type: a unit, tuple-like or struct-like value, a tuple, an array.
#[derive(Debug)]
pub enum TypeCreation {
    Simple(NamespacedType),
    Vars(NamespacedType, List<Exp>),
    Struct(NamespacedType, List<(String, Exp)>),
    Touple(List<Exp>),
    Array(List<Exp>),
    ArrayLen(Box<Exp>, usize),
}

/// A binary operation.
#[derive(Debug)]
pub enum Infix {
    Add(Exp, Exp),
    Subtract(Exp, Exp),
    Multiply(Exp, Exp),
    Divide(Exp, Exp),
    Modulo(Exp, Exp),
    Equality(Exp, Exp),
    NotEquality(Exp, Exp),
    And(Exp, Exp),
    Or(Exp, Exp),
    Less(Exp, Exp),
    LessEq(Exp, Exp),
    Greater(Exp, Exp),
    GreaterEq(Exp, Exp),
    Xor(Exp, Exp),
    BitwiseAnd(Exp, Exp),
    BitwiseOr(Exp, Exp),
    LeftShift(Exp, Exp),
    RightShift(Exp, Exp),
}

/// What follows the elements of an array literal.
pub enum ArrayBody {
    /// `]`: the elements.
    Items(List<Exp>),
    /// `; n ]`: the first element, when there was one, repeated `n` times.
    Repeat(Option<Box<Exp>>, usize),
}

// ---------------------------------------------------------------- grammar

/// Exp => Atom {'?' | '..' '='? (Exp | '_') | '/' Identifier}
/// (an operator application in parentheses takes no suffix).
pub open spec fn parse_exp(ts: Seq<Token>) -> Parsed<Exp>
    decreases ts.len(), 20nat,
{
    match exp_atom(ts) {
        (Ok((e, true)), r) => if r.len() < ts.len() {
            exp_postfix(r, e)
        } else {
            (Err(ParseFault::MoreTokens), r)
        },
        (Ok((e, false)), r) => (Ok(e), r),
        (Err(f), r) => (Err(f), r),
    }
}

/// The suffixes of an expression: `?`, a range, a field.
pub open spec fn exp_postfix(ts: Seq<Token>, acc: Exp) -> Parsed<Exp>
    decreases ts.len(), 21nat,
{
    if ts.len() == 0 {
        (Ok(acc), ts)
    } else {
        let r = ts.drop_first();
        match ts[0] {
            Token::Char('?') => exp_postfix(r, Exp::ErrorOut(Box::new(acc))),
            Token::DoubleDot => {
                let inclusive = at_is(r, 0, Token::Char('='));
                let r1 = if inclusive {
                    r.drop_first()
                } else {
                    r
                };
                if !inclusive && r1.len() > 0 && (r1[0] matches Token::Identifier(n) && n@
                    == "_"@) {
                    exp_postfix(r1.drop_first(), Exp::Range(Box::new(Range::Infinite(acc))))
                } else {
                    match parse_exp(r1) {
                        (Ok(end), r2) => if r2.len() < ts.len() {
                            exp_postfix(
                                r2,
                                Exp::Range(
                                    Box::new(
                                        if inclusive {
                                            Range::Inclusive(acc, end)
                                        } else {
                                            Range::Normal(acc, end)
                                        },
                                    ),
                                ),
                            )
                        } else {
                            (Err(ParseFault::MoreTokens), r2)
                        },
                        (Err(f), r2) => (Err(f), r2),
                    }
                }
            },
            Token::Slash => match ident(r) {
                (Ok(field), r1) => exp_postfix(r1, Exp::Field(Box::new(acc), field)),
                (Err(f), r1) => (Err(f), r1),
            },
            _ => (Ok(acc), ts),
        }
    }
}

/// The first part of an expression, and whether suffixes may follow it.
pub open spec fn exp_atom(ts: Seq<Token>) -> Parsed<(Exp, bool)>
    decreases ts.len(), 19nat,
{
    if ts.len() == 0 {
        (Err(ParseFault::MoreTokens), ts)
    } else {
        let r = ts.drop_first();
        match ts[0] {
            Token::Identifier(name) => if at_is(ts, 1, Token::Keyword(Keywords::LeftArrow))
                || at_is(ts, 1, Token::CurlyOpen) {
                map_ok(parse_type_creation(ts), |c: TypeCreation| (Exp::TypeCreation(c), true))
            } else if at_is(ts, 1, Token::AngleBracketOpen) {
                map_ok(parse_turbofish(ts), |t: TurboFish| (Exp::TurboFish(t), true))
            } else {
                (Ok((Exp::Variable(name), true)), r)
            },
            Token::Literal(l) => (Ok((Exp::Literal(l), true)), r),
            Token::Ref => if at_is(r, 0, Token::Keyword(Keywords::Mut)) {
                map_ok(parse_exp(r.drop_first()), |e: Exp| (Exp::MutRef(Box::new(e)), true))
            } else {
                map_ok(parse_exp(r), |e: Exp| (Exp::Ref(Box::new(e)), true))
            },
            Token::Char('-') => map_ok(parse_exp(r), |e: Exp| (Exp::Negation(Box::new(e)), true)),
            Token::Char('+') => map_ok(parse_exp(r), |e: Exp| (Exp::Positive(Box::new(e)), true)),
            Token::Keyword(Keywords::Deref) => map_ok(
                parse_exp(r),
                |e: Exp| (Exp::Deref(Box::new(e)), true),
            ),
            Token::AngleBracketOpen => map_ok(
                parse_type_creation(ts),
                |c: TypeCreation| (Exp::TypeCreation(c), true),
            ),
            Token::BracketOpen => map_ok(
                parse_type_creation(ts),
                |c: TypeCreation| (Exp::TypeCreation(c), true),
            ),
            Token::ParenOpen => paren_exp(ts),
            t => (Err(ParseFault::Unexpected(t)), ts),
        }
    }
}

/// An expression that opens with '('.
pub open spec fn paren_exp(ts: Seq<Token>) -> Parsed<(Exp, bool)>
    decreases ts.len(), 18nat,
{
    if ts.len() < 2 {
        (Err(ParseFault::MoreTokens), ts)
    } else {
        let r = ts.drop_first();
        match ts[1] {
            Token::Keyword(Keywords::Not) => map_ok(
                parse_exp(r.drop_first()),
                |e: Exp| (Exp::Negation(Box::new(e)), true),
            ),
            Token::Keyword(Keywords::If) => map_ok(parse_if(ts), |x: If| (Exp::If(Box::new(x)), true)),
            Token::Keyword(Keywords::Match) => map_ok(
                parse_match(ts),
                |x: Match| (Exp::Match(Box::new(x)), true),
            ),
            Token::Keyword(Keywords::Let) => map_ok(
                parse_let(ts),
                |x: Let| (Exp::Let(Box::new(x)), true),
            ),
            Token::Keyword(Keywords::Lambda) => map_ok(
                parse_lambda(ts),
                |x: Lambda| (Exp::Lambda(Box::new(x)), true),
            ),
            Token::Keyword(Keywords::As) => map_ok(
                parse_as(ts),
                |x: As| (Exp::As(Box::new(x)), true),
            ),
            Token::Keyword(Keywords::Do) => map_ok(
                parse_do(ts),
                |x: Do| (Exp::Do(Box::new(x)), true),
            ),
            Token::Keyword(Keywords::Return) => map_ok(
                parse_exp(r.drop_first()),
                |e: Exp| (Exp::Return(Box::new(e)), true),
            ),
            Token::Identifier(_) => ident_paren_exp(ts),
            _ => match parse_infix(r) {
                (Ok(inf), r1) => match pop(r1) {
                    (Ok(Token::ParenClose), r2) => (Ok((Exp::Infix(Box::new(inf)), false)), r2),
                    (Ok(x), r2) => (Err(ParseFault::Unexpected(x)), r2),
                    (Err(f), r2) => (Err(f), r2),
                },
                (Err(_), r1) => if r1.len() < ts.len() {
                    paren_exp_rest(r1)
                } else {
                    (Err(ParseFault::MoreTokens), r1)
                },
            },
        }
    }
}

/// After '(' and an expression that is not an operator application:
/// ')', a chain of fields and methods, or the arguments of a call.
pub open spec fn paren_exp_rest(ts: Seq<Token>) -> Parsed<(Exp, bool)>
    decreases ts.len(), 21nat,
{
    match parse_exp(ts) {
        (Ok(e), r) => if r.len() < ts.len() {
            if r.len() == 0 {
                (Err(ParseFault::MoreTokens), r)
            } else if r[0] == Token::ParenClose {
                (Ok((e, true)), r.drop_first())
            } else if r[0] == Token::Char('.') {
                map_ok(exp_chain(r, e, false), |x: Exp| (x, true))
            } else {
                map_ok(exp_args(r), |args: List<Exp>| (Exp::FuncCall(Box::new(e), args), true))
            }
        } else {
            (Err(ParseFault::MoreTokens), r)
        },
        (Err(f), r) => (Err(f), r),
    }
}

/// '(' Identifier ...: a chain of fields and methods, a value built from a type, or a call.
pub open spec fn ident_paren_exp(ts: Seq<Token>) -> Parsed<(Exp, bool)>
    decreases ts.len(), 17nat,
{
    if at_is(ts, 2, Token::Slash) || at_is(ts, 2, Token::Char('.')) {
        match ident(ts.drop_first()) {
            (Ok(name), r) => map_ok(exp_chain(r, Exp::Variable(name), true), |x: Exp| (x, true)),
            (Err(f), r) => (Err(f), r),
        }
    } else if at_is(ts, 2, Token::Keyword(Keywords::LeftArrow)) || at_is(ts, 2, Token::CurlyOpen) {
        map_ok(parse_type_creation(ts), |c: TypeCreation| (Exp::TypeCreation(c), true))
    } else {
        match ident(ts.drop_first()) {
            (Ok(name), r) => if r.len() < ts.len() {
                map_ok(
                    exp_args(r),
                    |args: List<Exp>| (Exp::FuncCall(Box::new(Exp::Variable(name)), args), true),
                )
            } else {
                (Err(ParseFault::MoreTokens), r)
            },
            (Err(f), r) => (Err(f), r),
        }
    }
}

/// The name of a called method: `name` or `name<T>`.
pub open spec fn chain_method(ts: Seq<Token>) -> Parsed<Exp> {
    if at_is(ts, 1, Token::Keyword(Keywords::TurboStart)) {
        map_ok(parse_turbofish(ts), |t: TurboFish| Exp::TurboFish(t))
    } else {
        map_ok(ident(ts), |n: String| Exp::Variable(n))
    }
}

/// A chain of field accesses `/field` and method calls `.method args`, ending at ')'
/// (which is taken only when `close` holds) or at the arguments of a method call.
pub open spec fn exp_chain(ts: Seq<Token>, acc: Exp, close: bool) -> Parsed<Exp>
    decreases ts.len(), 16nat,
{
    if ts.len() == 0 {
        (Err(ParseFault::MoreTokens), ts)
    } else {
        let r = ts.drop_first();
        match ts[0] {
            Token::Slash => match ident(r) {
                (Ok(field), r1) => exp_chain(r1, Exp::Field(Box::new(acc), field), close),
                (Err(f), r1) => (Err(f), r1),
            },
            Token::Char('.') => match chain_method(r) {
                (Ok(m), r1) => if r1.len() < ts.len() {
                    if at_is(r1, 0, Token::Slash) || at_is(r1, 0, Token::Char('.')) {
                        exp_chain(
                            r1,
                            Exp::MethodCall(Box::new(acc), Box::new(m), List::Nil),
                            close,
                        )
                    } else {
                        map_ok(
                            exp_args(r1),
                            |args: List<Exp>| Exp::MethodCall(Box::new(acc), Box::new(m), args),
                        )
                    }
                } else {
                    (Err(ParseFault::MoreTokens), r1)
                },
                (Err(f), r1) => (Err(f), r1),
            },
            Token::ParenClose => if close {
                (Ok(acc), r)
            } else {
                (Ok(acc), ts)
            },
            t => (Err(ParseFault::Unexpected(t)), ts),
        }
    }
}

/// Expressions up to and with ')'.
pub open spec fn exp_args(ts: Seq<Token>) -> Parsed<List<Exp>>
    decreases ts.len(), 21nat,
{
    if ts.len() == 0 {
        (Err(ParseFault::MoreTokens), ts)
    } else if ts[0] == Token::ParenClose {
        (Ok(List::Nil), ts.drop_first())
    } else {
        match parse_exp(ts) {
            (Ok(e), r) => if r.len() < ts.len() {
                map_ok(exp_args(r), |rest: List<Exp>| List::Cons(Box::new(e), Box::new(rest)))
            } else {
                (Err(ParseFault::MoreTokens), r)
            },
            (Err(f), r) => (Err(f), r),
        }
    }
}

/// Expressions up to and with '>'.
pub open spec fn exp_angle_items(ts: Seq<Token>) -> Parsed<List<Exp>>
    decreases ts.len(), 21nat,
{
    if ts.len() == 0 {
        (Err(ParseFault::MoreTokens), ts)
    } else if ts[0] == Token::AngleBracketClose {
        (Ok(List::Nil), ts.drop_first())
    } else {
        match parse_exp(ts) {
            (Ok(e), r) => if r.len() < ts.len() {
                map_ok(
                    exp_angle_items(r),
                    |rest: List<Exp>| List::Cons(Box::new(e), Box::new(rest)),
                )
            } else {
                (Err(ParseFault::MoreTokens), r)
            },
            (Err(f), r) => (Err(f), r),
        }
    }
}

/// TypeCreation => '(' NamespacedType ... ')' | '<' {Exp} '>' NamespacedType ...
///               | '[' {Exp} (']' | ';' int ']') | NamespacedType ...
/// (the expressions between '<' and '>' are read and dropped).
pub open spec fn parse_type_creation(ts: Seq<Token>) -> Parsed<TypeCreation>
    decreases ts.len(), 16nat,
{
    if ts.len() == 0 {
        (Err(ParseFault::MoreTokens), ts)
    } else {
        let r = ts.drop_first();
        match ts[0] {
            Token::ParenOpen => creation_named(r, true),
            Token::AngleBracketOpen => match exp_angle_items(r) {
                (Ok(_), r1) => if r1.len() < ts.len() {
                    creation_named(r1, false)
                } else {
                    (Err(ParseFault::MoreTokens), r1)
                },
                (Err(f), r1) => (Err(f), r1),
            },
            Token::BracketOpen => match array_body(r, false) {
                (Ok(ArrayBody::Items(l)), r1) => (Ok(TypeCreation::Array(l)), r1),
                (Ok(ArrayBody::Repeat(Some(e), n)), r1) => (Ok(TypeCreation::ArrayLen(e, n)), r1),
                (Ok(ArrayBody::Repeat(None, _)), r1) => (
                    Err(ParseFault::Invalid(Problem::MissingArrayElement)),
                    r1,
                ),
                (Err(f), r1) => (Err(f), r1),
            },
            _ => creation_named(ts, false),
        }
    }
}

/// ')' when the value was opened by '(', nothing otherwise.
pub open spec fn creation_close(ts: Seq<Token>, paren: bool, v: TypeCreation) -> Parsed<
    TypeCreation,
> {
    if paren {
        match pop(ts) {
            (Ok(Token::ParenClose), r) => (Ok(v), r),
            (Ok(x), r) => (Err(ParseFault::Unexpected(x)), r),
            (Err(f), r) => (Err(f), r),
        }
    } else {
        (Ok(v), ts)
    }
}

/// A value built from a named type: `Name`, `Name { field->exp .. }`, `(Name args)`.
pub open spec fn creation_named(ts: Seq<Token>, paren: bool) -> Parsed<TypeCreation>
    decreases ts.len(), 15nat,
{
    match parse_namespaced(ts) {
        (Ok(name), r) => if r.len() < ts.len() {
            if at_is(r, 0, Token::CurlyOpen) {
                match creation_fields(r.drop_first()) {
                    (Ok(fields), r1) => creation_close(r1, paren, TypeCreation::Struct(name, fields)),
                    (Err(f), r1) => (Err(f), r1),
                }
            } else if r.len() > 0 && paren {
                map_ok(exp_args(r), |args: List<Exp>| TypeCreation::Vars(name, args))
            } else {
                creation_close(r, paren, TypeCreation::Simple(name))
            }
        } else {
            (Err(ParseFault::MoreTokens), r)
        },
        (Err(f), r) => (Err(f), r),
    }
}

/// The fields `name -> exp` of a struct value, up to and with '}'.
pub open spec fn creation_fields(ts: Seq<Token>) -> Parsed<List<(String, Exp)>>
    decreases ts.len(), 15nat,
{
    if ts.len() == 0 {
        (Err(ParseFault::MoreTokens), ts)
    } else if ts[0] == Token::CurlyClose {
        (Ok(List::Nil), ts.drop_first())
    } else {
        match ident(ts) {
            (Ok(name), r) => match pop(r) {
                (Ok(Token::Keyword(Keywords::LeftArrow)), r1) => match parse_exp(r1) {
                    (Ok(e), r2) => if r2.len() < ts.len() {
                        map_ok(
                            creation_fields(r2),
                            |rest: List<(String, Exp)>|
                                List::Cons(Box::new((name, e)), Box::new(rest)),
                        )
                    } else {
                        (Err(ParseFault::MoreTokens), r2)
                    },
                    (Err(f), r2) => (Err(f), r2),
                },
                (Ok(x), r1) => (Err(ParseFault::Unexpected(x)), r1),
                (Err(f), r1) => (Err(f), r1),
            },
            (Err(f), r) => (Err(f), r),
        }
    }
}

/// The elements of an array literal after '[', up to and with ']'.
/// `nonempty` tells whether an element came before.
pub open spec fn array_body(ts: Seq<Token>, nonempty: bool) -> Parsed<ArrayBody>
    decreases ts.len(), 21nat,
{
    if ts.len() == 0 {
        (Err(ParseFault::MoreTokens), ts)
    } else if ts[0] == Token::BracketClose {
        (Ok(ArrayBody::Items(List::Nil)), ts.drop_first())
    } else if ts[0] == Token::Char(';') {
        array_repeat(ts.drop_first(), nonempty)
    } else {
        match parse_exp(ts) {
            (Ok(e), r) => if r.len() < ts.len() {
                match array_body(r, true) {
                    (Ok(ArrayBody::Items(l)), r1) => (
                        Ok(ArrayBody::Items(List::Cons(Box::new(e), Box::new(l)))),
                        r1,
                    ),
                    (Ok(ArrayBody::Repeat(_, n)), r1) => (
                        Ok(ArrayBody::Repeat(Some(Box::new(e)), n)),
                        r1,
                    ),
                    (Err(f), r1) => (Err(f), r1),
                }
            } else {
                (Err(ParseFault::MoreTokens), r)
            },
            (Err(f), r) => (Err(f), r),
        }
    }
}

/// After the ';' of an array repetition: the count and ']'.
pub open spec fn array_repeat(ts: Seq<Token>, nonempty: bool) -> Parsed<ArrayBody> {
    match pop(ts) {
        (Ok(Token::Literal(Literals::Int(Int(false, len)))), r) => if !nonempty {
            (Err(ParseFault::Invalid(Problem::MissingArrayElement)), r)
        } else {
            match pop(r) {
                (Ok(Token::BracketClose), r1) => (Ok(ArrayBody::Repeat(None, len as usize)), r1),
                (Ok(x), r1) => (Err(ParseFault::Unexpected(x)), r1),
                (Err(f), r1) => (Err(f), r1),
            }
        },
        (Ok(x), r) => match pop(r) {
            (Ok(Token::BracketClose), r1) => (Err(ParseFault::Unexpected(x)), r1),
            (Ok(y), r1) => (Err(ParseFault::Unexpected(y)), r1),
            (Err(f), r1) => (Err(f), r1),
        },
        (Err(f), r) => (Err(f), r),
    }
}

/// Two expressions in a row.
pub open spec fn two_exps(ts: Seq<Token>) -> Parsed<(Exp, Exp)>
    decreases ts.len(), 21nat,
{
    match parse_exp(ts) {
        (Ok(a), r) => if r.len() <= ts.len() {
            map_ok(parse_exp(r), |b: Exp| (a, b))
        } else {
            (Err(ParseFault::MoreTokens), r)
        },
        (Err(f), r) => (Err(f), r),
    }
}

/// Infix => Operator Exp Exp, where the operator is one of
/// `+ - * / /= % = and or xor band bor < <= << > >= >>`.
pub open spec fn parse_infix(ts: Seq<Token>) -> Parsed<Infix>
    decreases ts.len(), 16nat,
{
    if ts.len() == 0 {
        (Err(ParseFault::MoreTokens), ts)
    } else {
        let r = ts.drop_first();
        match ts[0] {
            Token::Char('+') => map_ok(two_exps(r), |p: (Exp, Exp)| Infix::Add(p.0, p.1)),
            Token::Char('-') => map_ok(two_exps(r), |p: (Exp, Exp)| Infix::Subtract(p.0, p.1)),
            Token::Char('*') => map_ok(two_exps(r), |p: (Exp, Exp)| Infix::Multiply(p.0, p.1)),
            Token::Slash => if at_is(r, 0, Token::Char('=')) {
                map_ok(two_exps(r.drop_first()), |p: (Exp, Exp)| Infix::NotEquality(p.0, p.1))
            } else {
                map_ok(two_exps(r), |p: (Exp, Exp)| Infix::Divide(p.0, p.1))
            },
            Token::Char('%') => map_ok(two_exps(r), |p: (Exp, Exp)| Infix::Modulo(p.0, p.1)),
            Token::Char('=') => map_ok(two_exps(r), |p: (Exp, Exp)| Infix::Equality(p.0, p.1)),
            Token::Keyword(Keywords::And) => map_ok(
                two_exps(r),
                |p: (Exp, Exp)| Infix::And(p.0, p.1),
            ),
            Token::Keyword(Keywords::Or) => map_ok(two_exps(r), |p: (Exp, Exp)| Infix::Or(p.0, p.1)),
            Token::Keyword(Keywords::Xor) => map_ok(
                two_exps(r),
                |p: (Exp, Exp)| Infix::Xor(p.0, p.1),
            ),
            Token::Keyword(Keywords::BitwiseAnd) => map_ok(
                two_exps(r),
                |p: (Exp, Exp)| Infix::BitwiseAnd(p.0, p.1),
            ),
            Token::Keyword(Keywords::BitwiseOr) => map_ok(
                two_exps(r),
                |p: (Exp, Exp)| Infix::BitwiseOr(p.0, p.1),
            ),
            Token::AngleBracketOpen => if at_is(r, 0, Token::Char('=')) {
                map_ok(two_exps(r.drop_first()), |p: (Exp, Exp)| Infix::LessEq(p.0, p.1))
            } else if at_is(r, 0, Token::AngleBracketOpen) {
                map_ok(two_exps(r.drop_first()), |p: (Exp, Exp)| Infix::LeftShift(p.0, p.1))
            } else {
                map_ok(two_exps(r), |p: (Exp, Exp)| Infix::Less(p.0, p.1))
            },
            Token::AngleBracketClose => if at_is(r, 0, Token::Char('=')) {
                map_ok(two_exps(r.drop_first()), |p: (Exp, Exp)| Infix::GreaterEq(p.0, p.1))
            } else if at_is(r, 0, Token::AngleBracketClose) {
                map_ok(two_exps(r.drop_first()), |p: (Exp, Exp)| Infix::RightShift(p.0, p.1))
            } else {
                map_ok(two_exps(r), |p: (Exp, Exp)| Infix::Greater(p.0, p.1))
            },
            t => (Err(ParseFault::Unexpected(t)), ts),
        }
    }
}

/// After an expression: `?` wraps it as an error check, `/name` takes a
/// field, `.. end` and `..= end` make a range to the expression that follows,
/// and `.. _` an open range; then the reading goes on after them.
pub proof fn lemma_postfix_tokens(acc: Exp, r: Seq<Token>, f: String, end: Exp, r1: Seq<Token>, u: String)
    ensures
        exp_postfix(seq![Token::Char('?')] + r, acc) == exp_postfix(r, Exp::ErrorOut(Box::new(acc))),
        exp_postfix(seq![Token::Slash, Token::Identifier(f)] + r, acc) == exp_postfix(
            r,
            Exp::Field(Box::new(acc), f),
        ),
        u@ == "_"@ ==> exp_postfix(seq![Token::DoubleDot, Token::Identifier(u)] + r, acc)
            == exp_postfix(r, Exp::Range(Box::new(Range::Infinite(acc)))),
        parse_exp(r) == (Ok::<Exp, ParseFault>(end), r1) && r1.len() <= r.len() && !at_is(
            r,
            0,
            Token::Char('='),
        ) && !(r.len() > 0 && (r[0] matches Token::Identifier(n) && n@ == "_"@)) ==> exp_postfix(
            seq![Token::DoubleDot] + r,
            acc,
        ) == exp_postfix(r1, Exp::Range(Box::new(Range::Normal(acc, end)))),
        parse_exp(r) == (Ok::<Exp, ParseFault>(end), r1) && r1.len() <= r.len() ==> exp_postfix(
            seq![Token::DoubleDot, Token::Char('=')] + r,
            acc,
        ) == exp_postfix(r1, Exp::Range(Box::new(Range::Inclusive(acc, end)))),
{
    assert((seq![Token::Char('?')] + r).drop_first() =~= r);
    let a = seq![Token::Slash, Token::Identifier(f)] + r;
    assert(a.drop_first() =~= seq![Token::Identifier(f)] + r);
    assert((seq![Token::Identifier(f)] + r).drop_first() =~= r);
    let b = seq![Token::DoubleDot, Token::Identifier(u)] + r;
    assert(b.drop_first() =~= seq![Token::Identifier(u)] + r);
    assert((seq![Token::Identifier(u)] + r).drop_first() =~= r);
    let c = seq![Token::DoubleDot] + r;
    assert(c.drop_first() =~= r);
    let d = seq![Token::DoubleDot, Token::Char('=')] + r;
    assert(d.drop_first() =~= seq![Token::Char('=')] + r);
    assert((seq![Token::Char('=')] + r).drop_first() =~= r);
}

/// A parenthesised form reads by its keyword: `if`, `match`, `let`,
/// `lambda`, `as` and `do` as the construct they open, each turned into the
/// expression of that kind; `(return e` as a return and `(not e` as a
/// negation of the expression that follows; and `(` followed by an
/// operator that reads, then `)`, as that operation.
pub proof fn lemma_paren_keyword_forms(ts: Seq<Token>, r: Seq<Token>, e: Exp, r1: Seq<Token>, inf: Infix)
    ensures
        ts.len() >= 2 && ts[1] == Token::Keyword(Keywords::If) && parse_if(ts).0 is Ok ==> paren_exp(ts)
            == (Ok::<(Exp, bool), ParseFault>((Exp::If(Box::new(parse_if(ts).0->Ok_0)), true)), parse_if(ts).1),
        ts.len() >= 2 && ts[1] == Token::Keyword(Keywords::Match) && parse_match(ts).0 is Ok ==> paren_exp(ts)
            == (Ok::<(Exp, bool), ParseFault>((Exp::Match(Box::new(parse_match(ts).0->Ok_0)), true)), parse_match(ts).1),
        ts.len() >= 2 && ts[1] == Token::Keyword(Keywords::Let) && parse_let(ts).0 is Ok ==> paren_exp(ts)
            == (Ok::<(Exp, bool), ParseFault>((Exp::Let(Box::new(parse_let(ts).0->Ok_0)), true)), parse_let(ts).1),
        ts.len() >= 2 && ts[1] == Token::Keyword(Keywords::Lambda) && parse_lambda(ts).0 is Ok ==> paren_exp(ts)
            == (Ok::<(Exp, bool), ParseFault>((Exp::Lambda(Box::new(parse_lambda(ts).0->Ok_0)), true)), parse_lambda(ts).1),
        ts.len() >= 2 && ts[1] == Token::Keyword(Keywords::As) && parse_as(ts).0 is Ok ==> paren_exp(ts)
            == (Ok::<(Exp, bool), ParseFault>((Exp::As(Box::new(parse_as(ts).0->Ok_0)), true)), parse_as(ts).1),
        ts.len() >= 2 && ts[1] == Token::Keyword(Keywords::Do) && parse_do(ts).0 is Ok ==> paren_exp(ts)
            == (Ok::<(Exp, bool), ParseFault>((Exp::Do(Box::new(parse_do(ts).0->Ok_0)), true)), parse_do(ts).1),
        parse_exp(r) == (Ok::<Exp, ParseFault>(e), r1) ==> paren_exp(
            seq![Token::ParenOpen, Token::Keyword(Keywords::Return)] + r,
        ) == (Ok::<(Exp, bool), ParseFault>((Exp::Return(Box::new(e)), true)), r1),
        parse_exp(r) == (Ok::<Exp, ParseFault>(e), r1) ==> paren_exp(
            seq![Token::ParenOpen, Token::Keyword(Keywords::Not)] + r,
        ) == (Ok::<(Exp, bool), ParseFault>((Exp::Negation(Box::new(e)), true)), r1),
        r.len() > 0 && r[0] != Token::Keyword(Keywords::Not) && r[0] != Token::Keyword(Keywords::If) && r[0] != Token::Keyword(Keywords::Match) && r[0] != Token::Keyword(Keywords::Let) && r[0] != Token::Keyword(Keywords::Lambda) && r[0] != Token::Keyword(Keywords::As) && r[0] != Token::Keyword(Keywords::Do) && r[0] != Token::Keyword(Keywords::Return)
            && !(r[0] is Identifier) && parse_infix(r) == (
            Ok::<Infix, ParseFault>(inf),
            seq![Token::ParenClose] + r1,
        ) ==> paren_exp(seq![Token::ParenOpen] + r) == (
            Ok::<(Exp, bool), ParseFault>((Exp::Infix(Box::new(inf)), false)),
            r1,
        ),
{
    let a = seq![Token::ParenOpen, Token::Keyword(Keywords::Return)] + r;
    assert(a.drop_first().drop_first() =~= r);
    let b = seq![Token::ParenOpen, Token::Keyword(Keywords::Not)] + r;
    assert(b.drop_first().drop_first() =~= r);
    let c = seq![Token::ParenOpen] + r;
    assert(c.drop_first() =~= r);
    if r.len() > 0 {
        assert(c[1] == r[0]);
    }
    assert((seq![Token::ParenClose] + r1).drop_first() =~= r1);
}

/// A prefix reads as its operation of the expression that follows it: `&`
/// as a reference, `&` `mut` as a mutable reference, `-` as a negation, `+`
/// as a plus sign, `*` (the dereference token) as a dereference; a literal
/// as itself and a lone name as a variable.
pub proof fn lemma_prefix_tokens(r: Seq<Token>, e: Exp, r1: Seq<Token>, l: Literals, name: String)
    requires
        parse_exp(r) == (Ok::<Exp, ParseFault>(e), r1),
    ensures
        !at_is(r, 0, Token::Keyword(Keywords::Mut)) ==> exp_atom(seq![Token::Ref] + r) == (
            Ok::<(Exp, bool), ParseFault>((Exp::Ref(Box::new(e)), true)),
            r1,
        ),
        exp_atom(seq![Token::Ref, Token::Keyword(Keywords::Mut)] + r) == (
            Ok::<(Exp, bool), ParseFault>((Exp::MutRef(Box::new(e)), true)),
            r1,
        ),
        exp_atom(seq![Token::Char('-')] + r) == (
            Ok::<(Exp, bool), ParseFault>((Exp::Negation(Box::new(e)), true)),
            r1,
        ),
        exp_atom(seq![Token::Char('+')] + r) == (
            Ok::<(Exp, bool), ParseFault>((Exp::Positive(Box::new(e)), true)),
            r1,
        ),
        exp_atom(seq![Token::Keyword(Keywords::Deref)] + r) == (
            Ok::<(Exp, bool), ParseFault>((Exp::Deref(Box::new(e)), true)),
            r1,
        ),
        exp_atom(seq![Token::Literal(l)] + r) == (
            Ok::<(Exp, bool), ParseFault>((Exp::Literal(l), true)),
            r,
        ),
        !at_is(r, 0, Token::Keyword(Keywords::LeftArrow)) && !at_is(r, 0, Token::CurlyOpen)
            && !at_is(r, 0, Token::AngleBracketOpen) ==> exp_atom(seq![Token::Identifier(name)] + r)
            == (Ok::<(Exp, bool), ParseFault>((Exp::Variable(name), true)), r),
{
    assert((seq![Token::Ref] + r).drop_first() =~= r);
    assert((seq![Token::Ref, Token::Keyword(Keywords::Mut)] + r).drop_first() =~= seq![
        Token::Keyword(Keywords::Mut),
    ] + r);
    assert((seq![Token::Keyword(Keywords::Mut)] + r).drop_first() =~= r);
    assert((seq![Token::Char('-')] + r).drop_first() =~= r);
    assert((seq![Token::Char('+')] + r).drop_first() =~= r);
    assert((seq![Token::Keyword(Keywords::Deref)] + r).drop_first() =~= r);
    assert((seq![Token::Literal(l)] + r).drop_first() =~= r);
    let ti = seq![Token::Identifier(name)] + r;
    assert(ti.drop_first() =~= r);
    assert(at_is(ti, 1, Token::Keyword(Keywords::LeftArrow)) == at_is(r, 0, Token::Keyword(Keywords::LeftArrow)));
    assert(at_is(ti, 1, Token::CurlyOpen) == at_is(r, 0, Token::CurlyOpen));
    assert(at_is(ti, 1, Token::AngleBracketOpen) == at_is(r, 0, Token::AngleBracketOpen));
}

/// Each operator reads as its operation of the two expressions that follow
/// it: `+ - * % =`, `and or xor band bor`, `/` (not followed by `=`), `/=`,
/// `<` and `>` (not followed by `=` or by the same bracket), `<= << >= >>`.
pub proof fn lemma_infix_operator_tokens(
    r: Seq<Token>,
    a: Exp,
    r1: Seq<Token>,
    b: Exp,
    r2: Seq<Token>,
)
    requires
        parse_exp(r) == (Ok::<Exp, ParseFault>(a), r1),
        r1.len() <= r.len(),
        parse_exp(r1) == (Ok::<Exp, ParseFault>(b), r2),
    ensures
        parse_infix(seq![Token::Char('+')] + r) == (Ok::<Infix, ParseFault>(Infix::Add(a, b)), r2),
        parse_infix(seq![Token::Char('-')] + r) == (Ok::<Infix, ParseFault>(Infix::Subtract(a, b)), r2),
        parse_infix(seq![Token::Char('*')] + r) == (Ok::<Infix, ParseFault>(Infix::Multiply(a, b)), r2),
        parse_infix(seq![Token::Char('%')] + r) == (Ok::<Infix, ParseFault>(Infix::Modulo(a, b)), r2),
        parse_infix(seq![Token::Char('=')] + r) == (Ok::<Infix, ParseFault>(Infix::Equality(a, b)), r2),
        parse_infix(seq![Token::Keyword(Keywords::And)] + r) == (Ok::<Infix, ParseFault>(Infix::And(a, b)), r2),
        parse_infix(seq![Token::Keyword(Keywords::Or)] + r) == (Ok::<Infix, ParseFault>(Infix::Or(a, b)), r2),
        parse_infix(seq![Token::Keyword(Keywords::Xor)] + r) == (Ok::<Infix, ParseFault>(Infix::Xor(a, b)), r2),
        parse_infix(seq![Token::Keyword(Keywords::BitwiseAnd)] + r) == (Ok::<Infix, ParseFault>(Infix::BitwiseAnd(a, b)), r2),
        parse_infix(seq![Token::Keyword(Keywords::BitwiseOr)] + r) == (Ok::<Infix, ParseFault>(Infix::BitwiseOr(a, b)), r2),
        !at_is(r, 0, Token::Char('=')) ==> parse_infix(seq![Token::Slash] + r) == (Ok::<Infix, ParseFault>(Infix::Divide(a, b)), r2),
        !at_is(r, 0, Token::Char('=')) && !at_is(r, 0, Token::AngleBracketOpen) ==> parse_infix(seq![Token::AngleBracketOpen] + r) == (Ok::<Infix, ParseFault>(Infix::Less(a, b)), r2),
        !at_is(r, 0, Token::Char('=')) && !at_is(r, 0, Token::AngleBracketClose) ==> parse_infix(seq![Token::AngleBracketClose] + r) == (Ok::<Infix, ParseFault>(Infix::Greater(a, b)), r2),
        parse_infix(seq![Token::Slash, Token::Char('=')] + r) == (Ok::<Infix, ParseFault>(Infix::NotEquality(a, b)), r2),
        parse_infix(seq![Token::AngleBracketOpen, Token::Char('=')] + r) == (Ok::<Infix, ParseFault>(Infix::LessEq(a, b)), r2),
        parse_infix(seq![Token::AngleBracketOpen, Token::AngleBracketOpen] + r) == (Ok::<Infix, ParseFault>(Infix::LeftShift(a, b)), r2),
        parse_infix(seq![Token::AngleBracketClose, Token::Char('=')] + r) == (Ok::<Infix, ParseFault>(Infix::GreaterEq(a, b)), r2),
        parse_infix(seq![Token::AngleBracketClose, Token::AngleBracketClose] + r) == (Ok::<Infix, ParseFault>(Infix::RightShift(a, b)), r2),
{
    assert((seq![Token::Char('+')] + r).drop_first() =~= r);
    assert((seq![Token::Char('-')] + r).drop_first() =~= r);
    assert((seq![Token::Char('*')] + r).drop_first() =~= r);
    assert((seq![Token::Char('%')] + r).drop_first() =~= r);
    assert((seq![Token::Char('=')] + r).drop_first() =~= r);
    assert((seq![Token::Keyword(Keywords::And)] + r).drop_first() =~= r);
    assert((seq![Token::Keyword(Keywords::Or)] + r).drop_first() =~= r);
    assert((seq![Token::Keyword(Keywords::Xor)] + r).drop_first() =~= r);
    assert((seq![Token::Keyword(Keywords::BitwiseAnd)] + r).drop_first() =~= r);
    assert((seq![Token::Keyword(Keywords::BitwiseOr)] + r).drop_first() =~= r);
    assert((seq![Token::Slash] + r).drop_first() =~= r);
    assert((seq![Token::AngleBracketOpen] + r).drop_first() =~= r);
    assert((seq![Token::AngleBracketClose] + r).drop_first() =~= r);
    assert((seq![Token::Slash, Token::Char('=')] + r).drop_first() =~= seq![Token::Char('=')] + r);
    assert((seq![Token::Char('=')] + r).drop_first() =~= r);
    assert((seq![Token::AngleBracketOpen, Token::Char('=')] + r).drop_first() =~= seq![Token::Char('=')] + r);
    assert((seq![Token::Char('=')] + r).drop_first() =~= r);
    assert((seq![Token::AngleBracketOpen, Token::AngleBracketOpen] + r).drop_first() =~= seq![Token::AngleBracketOpen] + r);
    assert((seq![Token::AngleBracketOpen] + r).drop_first() =~= r);
    assert((seq![Token::AngleBracketClose, Token::Char('=')] + r).drop_first() =~= seq![Token::Char('=')] + r);
    assert((seq![Token::Char('=')] + r).drop_first() =~= r);
    assert((seq![Token::AngleBracketClose, Token::AngleBracketClose] + r).drop_first() =~= seq![Token::AngleBracketClose] + r);
    assert((seq![Token::AngleBracketClose] + r).drop_first() =~= r);
}

// ---------------------------------------------------------------- parsing

impl Exp {
    /// Parses an expression.
    pub fn try_from(value: &mut Parser) -> (r: Result<Exp, ParserError>)
        ensures
            agrees(r, parse_exp(old(value)@).0),
            final(value)@ == parse_exp(old(value)@).1,
            suffix_of(final(value)@, old(value)@),
            r is Ok ==> final(value)@.len() < old(value)@.len(),
            named(r, "Exp") || named(r, "Self") || named(r, "exp"),
        decreases old(value)@.len(), 20nat,
    {
        let (e, postfix) = take_atom(value)?;
        if postfix {
            take_postfix(value, e)
        } else {
            Ok(e)
        }
    }
}

fn take_postfix(value: &mut Parser, acc: Exp) -> (r: Result<Exp, ParserError>)
    ensures
        agrees(r, exp_postfix(old(value)@, acc).0),
        final(value)@ == exp_postfix(old(value)@, acc).1,
        suffix_of(final(value)@, old(value)@),
        named(r, "Exp"),
    decreases old(value)@.len(), 21nat,
{
    let first = match value.first() {
        Some(t) => t,
        None => return Ok(acc),
    };
    match first {
        Token::Char('?') => {
            value.pop_front();
            take_postfix(value, Exp::ErrorOut(Box::new(acc)))
        },
        Token::DoubleDot => {
            value.pop_front();
            let inclusive = matches!(value.first(), Some(Token::Char('=')));
            if inclusive {
                value.pop_front();
            }
            let open_end = !inclusive && match value.first() {
                Some(Token::Identifier(n)) => str_eq(n.as_str(), "_"),
                _ => false,
            };
            if open_end {
                value.pop_front();
                take_postfix(value, Exp::Range(Box::new(Range::Infinite(acc))))
            } else {
                let end = ctx(Exp::try_from(value), "Exp")?;
                let range = if inclusive {
                    Range::Inclusive(acc, end)
                } else {
                    Range::Normal(acc, end)
                };
                take_postfix(value, Exp::Range(Box::new(range)))
            }
        },
        Token::Slash => {
            value.pop_front();
            let field = value.pop_ident("Exp")?;
            take_postfix(value, Exp::Field(Box::new(acc), field))
        },
        _ => Ok(acc),
    }
}

fn take_atom(value: &mut Parser) -> (r: Result<(Exp, bool), ParserError>)
    ensures
        agrees(r, exp_atom(old(value)@).0),
        final(value)@ == exp_atom(old(value)@).1,
        suffix_of(final(value)@, old(value)@),
        r is Ok ==> final(value)@.len() < old(value)@.len(),
        named(r, "Exp") || named(r, "Self") || named(r, "exp"),
    decreases old(value)@.len(), 19nat,
{
    let first = value.first_err("Self")?;
    match first {
        Token::Identifier(_) => {
            if matches!(
                value.nth(1),
                Some(Token::Keyword(Keywords::LeftArrow)) | Some(Token::CurlyOpen)
            ) {
                let c = ctx(TypeCreation::try_from(value), "Exp")?;
                Ok((Exp::TypeCreation(c), true))
            } else if matches!(value.nth(1), Some(Token::AngleBracketOpen)) {
                let t = ctx(TurboFish::try_from(value), "Exp")?;
                Ok((Exp::TurboFish(t), true))
            } else {
                let name = value.pop_ident("Exp")?;
                Ok((Exp::Variable(name), true))
            }
        },
        Token::Literal(_) => match value.pop_front() {
            Some(Token::Literal(l)) => Ok((Exp::Literal(l), true)),
            _ => unreached(),
        },
        Token::Ref => {
            value.pop_front();
            if matches!(value.first(), Some(Token::Keyword(Keywords::Mut))) {
                value.pop_front();
                let e = ctx(Exp::try_from(value), "Self")?;
                Ok((Exp::MutRef(Box::new(e)), true))
            } else {
                let e = ctx(Exp::try_from(value), "Self")?;
                Ok((Exp::Ref(Box::new(e)), true))
            }
        },
        Token::Char('-') => {
            value.pop_front();
            let e = ctx(Exp::try_from(value), "Self")?;
            Ok((Exp::Negation(Box::new(e)), true))
        },
        Token::Char('+') => {
            value.pop_front();
            let e = ctx(Exp::try_from(value), "Self")?;
            Ok((Exp::Positive(Box::new(e)), true))
        },
        Token::Keyword(Keywords::Deref) => {
            value.pop_front();
            let e = ctx(Exp::try_from(value), "Self")?;
            Ok((Exp::Deref(Box::new(e)), true))
        },
        Token::AngleBracketOpen => {
            let c = ctx(TypeCreation::try_from(value), "Self")?;
            Ok((Exp::TypeCreation(c), true))
        },
        Token::BracketOpen => {
            let c = ctx(TypeCreation::try_from(value), "Self")?;
            Ok((Exp::TypeCreation(c), true))
        },
        Token::ParenOpen => take_paren_exp(value),
        t => Err(ParserError::new("Exp", ParseFault::Unexpected(t.copy()))),
    }
}

fn take_paren_exp(value: &mut Parser) -> (r: Result<(Exp, bool), ParserError>)
    requires
        old(value)@.len() > 0,
        old(value)@[0] == Token::ParenOpen,
    ensures
        agrees(r, paren_exp(old(value)@).0),
        final(value)@ == paren_exp(old(value)@).1,
        suffix_of(final(value)@, old(value)@),
        r is Ok ==> final(value)@.len() < old(value)@.len(),
        named(r, "Exp") || named(r, "Self") || named(r, "exp"),
    decreases old(value)@.len(), 18nat,
{
    let second = match value.nth(1) {
        Some(t) => t,
        None => return Err(ParserError::new("Self", ParseFault::MoreTokens)),
    };
    match second {
        Token::Keyword(Keywords::Not) => {
            value.pop_front();
            value.pop_front();
            let e = ctx(Exp::try_from(value), "Self")?;
            Ok((Exp::Negation(Box::new(e)), true))
        },
        Token::Keyword(Keywords::If) => {
            let x = ctx(If::try_from(value), "Self")?;
            Ok((Exp::If(Box::new(x)), true))
        },
        Token::Keyword(Keywords::Match) => {
            let x = ctx(Match::try_from(value), "Self")?;
            Ok((Exp::Match(Box::new(x)), true))
        },
        Token::Keyword(Keywords::Let) => {
            let x = ctx(Let::try_from(value), "Self")?;
            Ok((Exp::Let(Box::new(x)), true))
        },
        Token::Keyword(Keywords::Lambda) => {
            let x = ctx(Lambda::try_from(value), "Self")?;
            Ok((Exp::Lambda(Box::new(x)), true))
        },
        Token::Keyword(Keywords::As) => {
            let x = ctx(As::try_from(value), "Self")?;
            Ok((Exp::As(Box::new(x)), true))
        },
        Token::Keyword(Keywords::Do) => {
            let x = ctx(Do::try_from(value), "Self")?;
            Ok((Exp::Do(Box::new(x)), true))
        },
        Token::Keyword(Keywords::Return) => {
            value.pop_front();
            value.pop_front();
            let e = ctx(Exp::try_from(value), "Exp")?;
            Ok((Exp::Return(Box::new(e)), true))
        },
        Token::Identifier(_) => take_ident_paren_exp(value),
        _ => {
            value.pop_front();
            match Infix::try_from(value) {
                Ok(inf) => {
                    let next = value.pop_front_err("Self")?;
                    if !matches!(next, Token::ParenClose) {
                        return Err(ParserError::new("Self", ParseFault::Unexpected(next)));
                    }
                    Ok((Exp::Infix(Box::new(inf)), false))
                },
                Err(_) => take_paren_exp_rest(value),
            }
        },
    }
}

fn take_paren_exp_rest(value: &mut Parser) -> (r: Result<(Exp, bool), ParserError>)
    ensures
        agrees(r, paren_exp_rest(old(value)@).0),
        final(value)@ == paren_exp_rest(old(value)@).1,
        suffix_of(final(value)@, old(value)@),
        r is Ok ==> final(value)@.len() < old(value)@.len(),
        named(r, "Exp") || named(r, "Self"),
    decreases old(value)@.len(), 21nat,
{
    let e = ctx(Exp::try_from(value), "Self")?;
    let peek = value.first_err("Self")?;
    if matches!(peek, Token::ParenClose) {
        value.pop_front();
        Ok((e, true))
    } else if matches!(peek, Token::Char('.')) {
        let x = take_chain(value, e, false)?;
        Ok((x, true))
    } else {
        let args = take_exp_args(value, "Self", "Self")?;
        Ok((Exp::FuncCall(Box::new(e), args), true))
    }
}

fn take_ident_paren_exp(value: &mut Parser) -> (r: Result<(Exp, bool), ParserError>)
    requires
        old(value)@.len() > 0,
        old(value)@[0] == Token::ParenOpen,
    ensures
        agrees(r, ident_paren_exp(old(value)@).0),
        final(value)@ == ident_paren_exp(old(value)@).1,
        suffix_of(final(value)@, old(value)@),
        r is Ok ==> final(value)@.len() < old(value)@.len(),
        named(r, "Exp") || named(r, "Self") || named(r, "exp"),
    decreases old(value)@.len(), 17nat,
{
    if matches!(value.nth(2), Some(Token::Slash) | Some(Token::Char('.'))) {
        value.pop_front();
        let name = value.pop_ident("Exp")?;
        let x = take_chain(value, Exp::Variable(name), true)?;
        Ok((x, true))
    } else if matches!(
        value.nth(2),
        Some(Token::Keyword(Keywords::LeftArrow)) | Some(Token::CurlyOpen)
    ) {
        let c = ctx(TypeCreation::try_from(value), "Self")?;
        Ok((Exp::TypeCreation(c), true))
    } else {
        value.pop_front();
        let name = value.pop_ident("Self")?;
        let args = take_exp_args(value, "Self", "exp")?;
        Ok((Exp::FuncCall(Box::new(Exp::Variable(name)), args), true))
    }
}

fn take_chain_method(value: &mut Parser) -> (r: Result<Exp, ParserError>)
    ensures
        agrees(r, chain_method(old(value)@).0),
        final(value)@ == chain_method(old(value)@).1,
        suffix_of(final(value)@, old(value)@),
        r is Ok ==> final(value)@.len() < old(value)@.len(),
        named(r, "Exp"),
{
    if matches!(value.nth(1), Some(Token::Keyword(Keywords::TurboStart))) {
        let t = ctx(TurboFish::try_from(value), "Exp")?;
        Ok(Exp::TurboFish(t))
    } else {
        let name = value.pop_ident("Exp")?;
        Ok(Exp::Variable(name))
    }
}

fn take_chain(value: &mut Parser, acc: Exp, close: bool) -> (r: Result<Exp, ParserError>)
    ensures
        agrees(r, exp_chain(old(value)@, acc, close).0),
        final(value)@ == exp_chain(old(value)@, acc, close).1,
        suffix_of(final(value)@, old(value)@),
        named(r, "Exp"),
    decreases old(value)@.len(), 16nat,
{
    let first = value.first_err("Exp")?;
    match first {
        Token::Slash => {
            value.pop_front();
            let field = value.pop_ident("Exp")?;
            take_chain(value, Exp::Field(Box::new(acc), field), close)
        },
        Token::Char('.') => {
            value.pop_front();
            let m = take_chain_method(value)?;
            if matches!(value.first(), Some(Token::Slash) | Some(Token::Char('.'))) {
                take_chain(value, Exp::MethodCall(Box::new(acc), Box::new(m), List::Nil), close)
            } else {
                let args = take_exp_args(value, "Exp", "Exp")?;
                Ok(Exp::MethodCall(Box::new(acc), Box::new(m), args))
            }
        },
        Token::ParenClose => {
            if close {
                value.pop_front();
            }
            Ok(acc)
        },
        t => Err(ParserError::new("Exp", ParseFault::Unexpected(t.copy()))),
    }
}

fn take_exp_args(value: &mut Parser, rule: &'static str, item_rule: &'static str) -> (r: Result<
    List<Exp>,
    ParserError,
>)
    ensures
        agrees(r, exp_args(old(value)@).0),
        final(value)@ == exp_args(old(value)@).1,
        suffix_of(final(value)@, old(value)@),
        r is Ok ==> final(value)@.len() < old(value)@.len(),
        named(r, rule) || named(r, item_rule),
    decreases old(value)@.len(), 21nat,
{
    let peek = value.first_err(rule)?;
    if matches!(peek, Token::ParenClose) {
        value.pop_front();
        return Ok(List::Nil);
    }
    let e = ctx(Exp::try_from(value), item_rule)?;
    let rest = take_exp_args(value, rule, item_rule)?;
    Ok(List::Cons(Box::new(e), Box::new(rest)))
}

fn take_angle_items(value: &mut Parser) -> (r: Result<List<Exp>, ParserError>)
    ensures
        agrees(r, exp_angle_items(old(value)@).0),
        final(value)@ == exp_angle_items(old(value)@).1,
        suffix_of(final(value)@, old(value)@),
        named(r, "TypeCreation"),
    decreases old(value)@.len(), 21nat,
{
    let peek = value.first_err("TypeCreation")?;
    if matches!(peek, Token::AngleBracketClose) {
        value.pop_front();
        return Ok(List::Nil);
    }
    let e = ctx(Exp::try_from(value), "TypeCreation")?;
    let rest = take_angle_items(value)?;
    Ok(List::Cons(Box::new(e), Box::new(rest)))
}

impl TypeCreation {
    /// Parses a value built from a type.
    pub fn try_from(value: &mut Parser) -> (r: Result<TypeCreation, ParserError>)
        ensures
            agrees(r, parse_type_creation(old(value)@).0),
            final(value)@ == parse_type_creation(old(value)@).1,
            suffix_of(final(value)@, old(value)@),
            r is Ok ==> final(value)@.len() < old(value)@.len(),
            named(r, "TypeCreation"),
        decreases old(value)@.len(), 16nat,
    {
        let peek = value.first_err("TypeCreation")?;
        if matches!(peek, Token::ParenOpen) {
            value.pop_front();
            take_creation_named(value, true)
        } else if matches!(peek, Token::AngleBracketOpen) {
            value.pop_front();
            let _items = take_angle_items(value)?;
            take_creation_named(value, false)
        } else if matches!(peek, Token::BracketOpen) {
            value.pop_front();
            match take_array_body(value, false)? {
                ArrayBody::Items(l) => Ok(TypeCreation::Array(l)),
                ArrayBody::Repeat(Some(e), n) => Ok(TypeCreation::ArrayLen(e, n)),
                ArrayBody::Repeat(None, _) => Err(
                    ParserError::new(
                        "TypeCreation",
                        ParseFault::Invalid(Problem::MissingArrayElement),
                    ),
                ),
            }
        } else {
            take_creation_named(value, false)
        }
    }
}

fn take_creation_close(value: &mut Parser, paren: bool, v: TypeCreation) -> (r: Result<
    TypeCreation,
    ParserError,
>)
    ensures
        agrees(r, creation_close(old(value)@, paren, v).0),
        final(value)@ == creation_close(old(value)@, paren, v).1,
        suffix_of(final(value)@, old(value)@),
        named(r, "TypeCreation"),
{
    if paren {
        let next = value.pop_front_err("TypeCreation")?;
        if !matches!(next, Token::ParenClose) {
            return Err(ParserError::new("TypeCreation", ParseFault::Unexpected(next)));
        }
    }
    Ok(v)
}

fn take_creation_named(value: &mut Parser, paren: bool) -> (r: Result<TypeCreation, ParserError>)
    ensures
        agrees(r, creation_named(old(value)@, paren).0),
        final(value)@ == creation_named(old(value)@, paren).1,
        suffix_of(final(value)@, old(value)@),
        r is Ok ==> final(value)@.len() < old(value)@.len(),
        named(r, "TypeCreation"),
    decreases old(value)@.len(), 15nat,
{
    let name = ctx(NamespacedType::try_from(value), "TypeCreation")?;
    if matches!(value.first(), Some(Token::CurlyOpen)) {
        value.pop_front();
        let fields = take_creation_fields(value)?;
        take_creation_close(value, paren, TypeCreation::Struct(name, fields))
    } else if value.first().is_some() && paren {
        let args = take_exp_args(value, "TypeCreation", "TypeCreation")?;
        Ok(TypeCreation::Vars(name, args))
    } else {
        take_creation_close(value, paren, TypeCreation::Simple(name))
    }
}

fn take_creation_fields(value: &mut Parser) -> (r: Result<List<(String, Exp)>, ParserError>)
    ensures
        agrees(r, creation_fields(old(value)@).0),
        final(value)@ == creation_fields(old(value)@).1,
        suffix_of(final(value)@, old(value)@),
        named(r, "TypeCreation"),
    decreases old(value)@.len(), 15nat,
{
    let peek = value.first_err("TypeCreation")?;
    if matches!(peek, Token::CurlyClose) {
        value.pop_front();
        return Ok(List::Nil);
    }
    let name = value.pop_ident("TypeCreation")?;
    let next = value.pop_front_err("TypeCreation")?;
    if !matches!(next, Token::Keyword(Keywords::LeftArrow)) {
        return Err(ParserError::new("TypeCreation", ParseFault::Unexpected(next)));
    }
    let e = ctx(Exp::try_from(value), "TypeCreation")?;
    let rest = take_creation_fields(value)?;
    Ok(List::Cons(Box::new((name, e)), Box::new(rest)))
}

fn take_array_body(value: &mut Parser, nonempty: bool) -> (r: Result<ArrayBody, ParserError>)
    ensures
        agrees(r, array_body(old(value)@, nonempty).0),
        final(value)@ == array_body(old(value)@, nonempty).1,
        suffix_of(final(value)@, old(value)@),
        named(r, "TypeCreation"),
    decreases old(value)@.len(), 21nat,
{
    let peek = value.first_err("TypeCreation")?;
    if matches!(peek, Token::BracketClose) {
        value.pop_front();
        return Ok(ArrayBody::Items(List::Nil));
    }
    if matches!(peek, Token::Char(';')) {
        value.pop_front();
        return take_array_repeat(value, nonempty);
    }
    let e = ctx(Exp::try_from(value), "TypeCreation")?;
    match take_array_body(value, true)? {
        ArrayBody::Items(l) => Ok(ArrayBody::Items(List::Cons(Box::new(e), Box::new(l)))),
        ArrayBody::Repeat(_, n) => Ok(ArrayBody::Repeat(Some(Box::new(e)), n)),
    }
}

fn take_array_repeat(value: &mut Parser, nonempty: bool) -> (r: Result<ArrayBody, ParserError>)
    ensures
        agrees(r, array_repeat(old(value)@, nonempty).0),
        final(value)@ == array_repeat(old(value)@, nonempty).1,
        suffix_of(final(value)@, old(value)@),
        named(r, "TypeCreation"),
{
    let next = value.pop_front_err("TypeCreation")?;
    let ret = match next {
        Token::Literal(Literals::Int(Int(false, len))) => {
            if !nonempty {
                return Err(
                    ParserError::new(
                        "TypeCreation",
                        ParseFault::Invalid(Problem::MissingArrayElement),
                    ),
                );
            }
            Ok(ArrayBody::Repeat(None, len as usize))
        },
        token => Err(ParserError::new("TypeCreation", ParseFault::Unexpected(token))),
    };
    let next = value.pop_front_err("TypeCreation")?;
    if !matches!(next, Token::BracketClose) {
        return Err(ParserError::new("TypeCreation", ParseFault::Unexpected(next)));
    }
    ret
}

fn take_two_exps(value: &mut Parser) -> (r: Result<(Exp, Exp), ParserError>)
    ensures
        agrees(r, two_exps(old(value)@).0),
        final(value)@ == two_exps(old(value)@).1,
        suffix_of(final(value)@, old(value)@),
        named(r, "Infix"),
    decreases old(value)@.len(), 21nat,
{
    let a = ctx(Exp::try_from(value), "Infix")?;
    let b = ctx(Exp::try_from(value), "Infix")?;
    Ok((a, b))
}

impl Infix {
    /// Parses an operator application without its parentheses: `+ a b`.
    #[verifier::rlimit(40)]
    pub fn try_from(value: &mut Parser) -> (r: Result<Infix, ParserError>)
        ensures
            agrees(r, parse_infix(old(value)@).0),
            final(value)@ == parse_infix(old(value)@).1,
            suffix_of(final(value)@, old(value)@),
            r is Ok ==> final(value)@.len() < old(value)@.len(),
            named(r, "Infix"),
        decreases old(value)@.len(), 16nat,
    {
        let first = value.first_err("Infix")?;
        match first {
            Token::Char('+') => {
                value.pop_front();
                let (a, b) = take_two_exps(value)?;
                Ok(Infix::Add(a, b))
            },
            Token::Char('-') => {
                value.pop_front();
                let (a, b) = take_two_exps(value)?;
                Ok(Infix::Subtract(a, b))
            },
            Token::Char('*') => {
                value.pop_front();
                let (a, b) = take_two_exps(value)?;
                Ok(Infix::Multiply(a, b))
            },
            Token::Slash => {
                value.pop_front();
                if matches!(value.first(), Some(Token::Char('='))) {
                    value.pop_front();
                    let (a, b) = take_two_exps(value)?;
                    Ok(Infix::NotEquality(a, b))
                } else {
                    let (a, b) = take_two_exps(value)?;
                    Ok(Infix::Divide(a, b))
                }
            },
            Token::Char('%') => {
                value.pop_front();
                let (a, b) = take_two_exps(value)?;
                Ok(Infix::Modulo(a, b))
            },
            Token::Char('=') => {
                value.pop_front();
                let (a, b) = take_two_exps(value)?;
                Ok(Infix::Equality(a, b))
            },
            Token::Keyword(Keywords::And) => {
                value.pop_front();
                let (a, b) = take_two_exps(value)?;
                Ok(Infix::And(a, b))
            },
            Token::Keyword(Keywords::Or) => {
                value.pop_front();
                let (a, b) = take_two_exps(value)?;
                Ok(Infix::Or(a, b))
            },
            Token::Keyword(Keywords::Xor) => {
                value.pop_front();
                let (a, b) = take_two_exps(value)?;
                Ok(Infix::Xor(a, b))
            },
            Token::Keyword(Keywords::BitwiseAnd) => {
                value.pop_front();
                let (a, b) = take_two_exps(value)?;
                Ok(Infix::BitwiseAnd(a, b))
            },
            Token::Keyword(Keywords::BitwiseOr) => {
                value.pop_front();
                let (a, b) = take_two_exps(value)?;
                Ok(Infix::BitwiseOr(a, b))
            },
            Token::AngleBracketOpen => {
                value.pop_front();
                if matches!(value.first(), Some(Token::Char('='))) {
                    value.pop_front();
                    let (a, b) = take_two_exps(value)?;
                    Ok(Infix::LessEq(a, b))
                } else if matches!(value.first(), Some(Token::AngleBracketOpen)) {
                    value.pop_front();
                    let (a, b) = take_two_exps(value)?;
                    Ok(Infix::LeftShift(a, b))
                } else {
                    let (a, b) = take_two_exps(value)?;
                    Ok(Infix::Less(a, b))
                }
            },
            Token::AngleBracketClose => {
                value.pop_front();
                if matches!(value.first(), Some(Token::Char('='))) {
                    value.pop_front();
                    let (a, b) = take_two_exps(value)?;
                    Ok(Infix::GreaterEq(a, b))
                } else if matches!(value.first(), Some(Token::AngleBracketClose)) {
                    value.pop_front();
                    let (a, b) = take_two_exps(value)?;
                    Ok(Infix::RightShift(a, b))
                } else {
                    let (a, b) = take_two_exps(value)?;
                    Ok(Infix::Greater(a, b))
                }
            },
            t => Err(ParserError::new("Infix", ParseFault::Unexpected(t.copy()))),
        }
    }
}

// ---------------------------------------------------------------- rendering

impl Exp {
    /// The expression in Rust source text.
    pub open spec fn text(self) -> Seq<char>
        decreases self,
    {
        match self {
            Exp::Lambda(l) => "("@ + l.text() + ")"@,
            Exp::If(i) => i.text(),
            Exp::Match(m) => m.text(),
            Exp::Let(l) => "{"@ + l.text() + "}"@,
            Exp::As(a) => "("@ + a.text() + ")"@,
            Exp::FuncCall(f, args) => f.text() + "("@ + join(exps_texts(args), ", "@) + ")"@,
            Exp::MethodCall(e, m, args) => e.text() + "."@ + m.text() + "("@ + join(
                exps_texts(args),
                ", "@,
            ) + ")"@,
            Exp::Ref(e) => "&"@ + e.text(),
            Exp::MutRef(e) => "&mut "@ + e.text(),
            Exp::Deref(e) => "*"@ + e.text(),
            Exp::Not(e) => "!"@ + e.text(),
            Exp::Positive(e) => "+"@ + e.text(),
            Exp::Negation(e) => "-"@ + e.text(),
            Exp::Infix(i) => i.text(),
            Exp::Range(r) => r.text(),
            Exp::Do(d) => d.text(),
            Exp::Variable(v) => v@,
            Exp::Field(e, f) => e.text() + "."@ + f@,
            Exp::Literal(l) => l.text(),
            Exp::TypeCreation(c) => c.text(),
            Exp::Return(e) => "return "@ + e.text(),
            Exp::ErrorOut(e) => e.text() + "?"@,
            Exp::TurboFish(t) => t.text(),
        }
    }

    /// Every part of the expression can be written.
    pub open spec fn printable(self) -> bool
        decreases self,
    {
        match self {
            Exp::Lambda(l) => l.printable(),
            Exp::If(i) => i.printable(),
            Exp::Match(m) => m.printable(),
            Exp::Let(l) => l.printable(),
            Exp::As(a) => a.printable(),
            Exp::FuncCall(f, args) => f.printable() && exps_printable(args),
            Exp::MethodCall(e, m, args) => e.printable() && m.printable() && exps_printable(args),
            Exp::Ref(e) => e.printable(),
            Exp::MutRef(e) => e.printable(),
            Exp::Deref(e) => e.printable(),
            Exp::Not(e) => e.printable(),
            Exp::Positive(e) => e.printable(),
            Exp::Negation(e) => e.printable(),
            Exp::Infix(i) => i.printable(),
            Exp::Range(r) => r.printable(),
            Exp::Do(d) => d.printable(),
            Exp::Variable(_) => true,
            Exp::Field(e, _) => e.printable(),
            Exp::Literal(_) => true,
            Exp::TypeCreation(c) => c.printable(),
            Exp::Return(e) => e.printable(),
            Exp::ErrorOut(e) => e.printable(),
            Exp::TurboFish(t) => t.printable(),
        }
    }

    /// Appends the Rust source text to `out`, and tells whether it could:
    /// `false` when a list that Rust needs non-empty is empty, and `out` then holds an unfinished text.
    pub fn write_to(&self, out: &mut String) -> (ok: bool)
        ensures
            ok == self.printable(),
            ok ==> final(out)@ == old(out)@ + self.text(),
        decreases self,
    {
        let ghost start = out@;
        match self {
            Exp::Lambda(l) => {
                out.append("(");
                if !l.write_to(out) {
                    return false;
                }
                out.append(")");
            },
            Exp::If(i) => if !i.write_to(out) {
                return false;
            },
            Exp::Match(m) => if !m.write_to(out) {
                return false;
            },
            Exp::Let(l) => {
                out.append("{");
                if !l.write_to(out) {
                    return false;
                }
                out.append("}");
            },
            Exp::As(a) => {
                out.append("(");
                if !a.write_to(out) {
                    return false;
                }
                out.append(")");
            },
            Exp::FuncCall(f, args) => {
                if !f.write_to(out) {
                    return false;
                }
                out.append("(");
                if !write_exps(args, ", ", out) {
                    return false;
                }
                out.append(")");
            },
            Exp::MethodCall(e, m, args) => {
                if !e.write_to(out) {
                    return false;
                }
                out.append(".");
                if !m.write_to(out) {
                    return false;
                }
                out.append("(");
                if !write_exps(args, ", ", out) {
                    return false;
                }
                out.append(")");
            },
            Exp::Ref(e) => {
                out.append("&");
                if !e.write_to(out) {
                    return false;
                }
            },
            Exp::MutRef(e) => {
                out.append("&mut ");
                if !e.write_to(out) {
                    return false;
                }
            },
            Exp::Deref(e) => {
                out.append("*");
                if !e.write_to(out) {
                    return false;
                }
            },
            Exp::Not(e) => {
                out.append("!");
                if !e.write_to(out) {
                    return false;
                }
            },
            Exp::Positive(e) => {
                out.append("+");
                if !e.write_to(out) {
                    return false;
                }
            },
            Exp::Negation(e) => {
                out.append("-");
                if !e.write_to(out) {
                    return false;
                }
            },
            Exp::Infix(i) => if !i.write_to(out) {
                return false;
            },
            Exp::Range(r) => if !r.write_to(out) {
                return false;
            },
            Exp::Do(d) => if !d.write_to(out) {
                return false;
            },
            Exp::Variable(v) => out.append(v.as_str()),
            Exp::Field(e, f) => {
                if !e.write_to(out) {
                    return false;
                }
                out.append(".");
                out.append(f.as_str());
            },
            Exp::Literal(l) => if !l.write_to(out) {
                return false;
            },
            Exp::TypeCreation(c) => if !c.write_to(out) {
                return false;
            },
            Exp::Return(e) => {
                out.append("return ");
                if !e.write_to(out) {
                    return false;
                }
            },
            Exp::ErrorOut(e) => {
                if !e.write_to(out) {
                    return false;
                }
                out.append("?");
            },
            Exp::TurboFish(t) => if !t.write_to(out) {
                return false;
            },
        }
        assert(out@ =~= start + self.text());
        true
    }

    /// The node in Rust source text.
    pub fn to_string(&self) -> (s: String)
        requires
            self.printable(),
        ensures
            s@ == self.text(),
    {
        let mut s = String::new();
        self.write_to(&mut s);
        s
    }
}

/// The texts of the expressions, in order.
pub open spec fn exps_texts(l: List<Exp>) -> Seq<Seq<char>>
    decreases l,
{
    match l {
        List::Nil => Seq::empty(),
        List::Cons(h, t) => seq![(*h).text()] + exps_texts(*t),
    }
}

/// Every one of the expressions can be written.
pub open spec fn exps_printable(l: List<Exp>) -> bool
    decreases l,
{
    match l {
        List::Nil => true,
        List::Cons(h, t) => (*h).printable() && exps_printable(*t),
    }
}

/// Appends the expressions, with `sep` between neighbours.
pub(crate) fn write_exps(l: &List<Exp>, sep: &str, out: &mut String) -> (ok: bool)
    ensures
        ok == exps_printable(*l),
        ok ==> final(out)@ == old(out)@ + join(exps_texts(*l), sep@),
    decreases l,
{
    match l {
        List::Nil => {
            assert(out@ =~= old(out)@ + join(exps_texts(*l), sep@));
        },
        List::Cons(h, t) => {
            let ghost start = out@;
            if !h.write_to(out) {
                return false;
            }
            match &**t {
                List::Nil => {},
                List::Cons(_, _) => out.append(sep),
            }
            if !write_exps(t, sep, out) {
                return false;
            }
            proof {
                lemma_join_cons((*h).text(), exps_texts(**t), sep@);
                assert(out@ =~= start + join(exps_texts(*l), sep@));
            }
        },
    }
    true
}

/// The texts of the field initialisers, each as `name:value`, in order.
pub open spec fn field_inits_texts(l: List<(String, Exp)>) -> Seq<Seq<char>>
    decreases l,
{
    match l {
        List::Nil => Seq::empty(),
        List::Cons(h, t) => seq![(*h).0@ + ":"@ + (*h).1.text()] + field_inits_texts(*t),
    }
}

/// Every one of the field initialisers, each as `name:value` can be written.
pub open spec fn field_inits_printable(l: List<(String, Exp)>) -> bool
    decreases l,
{
    match l {
        List::Nil => true,
        List::Cons(h, t) => (*h).1.printable() && field_inits_printable(*t),
    }
}

/// Appends the field initialisers, each as `name:value`, with `sep` between neighbours.
pub(crate) fn write_field_inits(l: &List<(String, Exp)>, sep: &str, out: &mut String) -> (ok: bool)
    ensures
        ok == field_inits_printable(*l),
        ok ==> final(out)@ == old(out)@ + join(field_inits_texts(*l), sep@),
    decreases l,
{
    match l {
        List::Nil => {
            assert(out@ =~= old(out)@ + join(field_inits_texts(*l), sep@));
        },
        List::Cons(h, t) => {
            let ghost start = out@;
            out.append(h.0.as_str());
            out.append(":");
            if !h.1.write_to(out) {
                return false;
            }
            match &**t {
                List::Nil => {},
                List::Cons(_, _) => out.append(sep),
            }
            if !write_field_inits(t, sep, out) {
                return false;
            }
            proof {
                lemma_join_cons((*h).0@ + ":"@ + (*h).1.text(), field_inits_texts(**t), sep@);
                assert(out@ =~= start + join(field_inits_texts(*l), sep@));
            }
        },
    }
    true
}

impl TypeCreation {
    /// The value in Rust source text.
    pub open spec fn text(self) -> Seq<char>
        decreases self,
    {
        match self {
            TypeCreation::Simple(name) => name.text(),
            TypeCreation::Vars(name, args) => name.text() + "("@ + join(exps_texts(args), ", "@) + ")"@,
            TypeCreation::Struct(name, fields) => name.text() + "{"@ + join(
                field_inits_texts(fields),
                ", "@,
            ) + "}"@,
            TypeCreation::Touple(exps) => "("@ + join(exps_texts(exps), ", "@) + ")"@,
            TypeCreation::Array(exps) => "["@ + join(exps_texts(exps), ", "@) + "]"@,
            TypeCreation::ArrayLen(e, len) => "["@ + e.text() + ";"@ + decimal(len as nat) + "]"@,
        }
    }

    /// Every part can be written, and a struct value sets at least one field.
    pub open spec fn printable(self) -> bool
        decreases self,
    {
        match self {
            TypeCreation::Simple(name) => name.printable(),
            TypeCreation::Vars(name, args) => name.printable() && exps_printable(args),
            TypeCreation::Struct(name, fields) => name.printable() && fields is Cons
                && field_inits_printable(fields),
            TypeCreation::Touple(exps) => exps_printable(exps),
            TypeCreation::Array(exps) => exps_printable(exps),
            TypeCreation::ArrayLen(e, _) => e.printable(),
        }
    }

    /// Appends the Rust source text to `out`, and tells whether it could:
    /// `false` when a list that Rust needs non-empty is empty, and `out` then holds an unfinished text.
    pub fn write_to(&self, out: &mut String) -> (ok: bool)
        ensures
            ok == self.printable(),
            ok ==> final(out)@ == old(out)@ + self.text(),
        decreases self,
    {
        let ghost start = out@;
        match self {
            TypeCreation::Simple(name) => if !name.write_to(out) {
                return false;
            },
            TypeCreation::Vars(name, args) => {
                if !name.write_to(out) {
                    return false;
                }
                out.append("(");
                if !write_exps(args, ", ", out) {
                    return false;
                }
                out.append(")");
            },
            TypeCreation::Struct(name, fields) => {
                if fields.is_empty() {
                    return false;
                }
                if !name.write_to(out) {
                    return false;
                }
                out.append("{");
                if !write_field_inits(fields, ", ", out) {
                    return false;
                }
                out.append("}");
            },
            TypeCreation::Touple(exps) => {
                out.append("(");
                if !write_exps(exps, ", ", out) {
                    return false;
                }
                out.append(")");
            },
            TypeCreation::Array(exps) => {
                out.append("[");
                if !write_exps(exps, ", ", out) {
                    return false;
                }
                out.append("]");
            },
            TypeCreation::ArrayLen(e, len) => {
                out.append("[");
                if !e.write_to(out) {
                    return false;
                }
                out.append(";");
                push_decimal(out, *len as u128);
                out.append("]");
            },
        }
        assert(out@ =~= start + self.text());
        true
    }

    /// The node in Rust source text.
    pub fn to_string(&self) -> (s: String)
        requires
            self.printable(),
        ensures
            s@ == self.text(),
    {
        let mut s = String::new();
        self.write_to(&mut s);
        s
    }
}

/// A binary operation in Rust source text: `(left) op (right)`.
pub open spec fn binary(left: Seq<char>, op: Seq<char>, right: Seq<char>) -> Seq<char> {
    "("@ + left + ") "@ + op + " ("@ + right + ")"@
}


/// How each expression is written around its parts: a closure and a cast
/// in parentheses, a `let` in braces, `&`, `&mut `, `*`, `!`, `+`, `-` and
/// `return ` in front of the operand, `?` after it, a field after a `.`; an
/// `if`, a `match`, an operation, a range, a block, a value, a literal, a
/// name and a turbofish as themselves.
pub proof fn lemma_exp_forms(
    e: Exp,
    name: String,
    l: Lambda,
    i: If,
    m: Match,
    lt: Let,
    a: As,
    inf: Infix,
    r: Range,
    d: Do,
    lit: Literals,
    c: TypeCreation,
    t: TurboFish,
)
    ensures
        Exp::Lambda(Box::new(l)).text() == "("@ + l.text() + ")"@,
        Exp::If(Box::new(i)).text() == i.text(),
        Exp::Match(Box::new(m)).text() == m.text(),
        Exp::Let(Box::new(lt)).text() == "{"@ + lt.text() + "}"@,
        Exp::As(Box::new(a)).text() == "("@ + a.text() + ")"@,
        Exp::Ref(Box::new(e)).text() == "&"@ + e.text(),
        Exp::MutRef(Box::new(e)).text() == "&mut "@ + e.text(),
        Exp::Deref(Box::new(e)).text() == "*"@ + e.text(),
        Exp::Not(Box::new(e)).text() == "!"@ + e.text(),
        Exp::Positive(Box::new(e)).text() == "+"@ + e.text(),
        Exp::Negation(Box::new(e)).text() == "-"@ + e.text(),
        Exp::Infix(Box::new(inf)).text() == inf.text(),
        Exp::Range(Box::new(r)).text() == r.text(),
        Exp::Do(Box::new(d)).text() == d.text(),
        Exp::Variable(name).text() == name@,
        Exp::Field(Box::new(e), name).text() == e.text() + "."@ + name@,
        Exp::Literal(lit).text() == lit.text(),
        Exp::TypeCreation(c).text() == c.text(),
        Exp::Return(Box::new(e)).text() == "return "@ + e.text(),
        Exp::ErrorOut(Box::new(e)).text() == e.text() + "?"@,
        Exp::TurboFish(t).text() == t.text(),
{
}

/// Expressions in a list are written with `, ` between neighbours: as a
/// tuple in parentheses (`()` when there is none), as the arguments of a
/// call after the function or after `.method`, as the values of a named
/// type after its name, and in brackets as an array.
pub proof fn lemma_exp_lists(
    e: Exp,
    f: Exp,
    rest: List<Exp>,
    args: List<Exp>,
    name: NamespacedType,
    len: usize,
)
    ensures
        TypeCreation::Touple(List::Nil).text() == "()"@,
        TypeCreation::Touple(List::Cons(Box::new(e), Box::new(rest))).text() == "("@ + e.text()
            + (if rest is Cons {
            ", "@ + inside(TypeCreation::Touple(rest).text())
        } else {
            Seq::empty()
        }) + ")"@,
        Exp::FuncCall(Box::new(f), args).text() == f.text() + TypeCreation::Touple(args).text(),
        Exp::MethodCall(Box::new(e), Box::new(f), args).text() == e.text() + "."@ + f.text()
            + TypeCreation::Touple(args).text(),
        TypeCreation::Vars(name, args).text() == name.text() + TypeCreation::Touple(args).text(),
        TypeCreation::Array(args).text() == "["@ + inside(TypeCreation::Touple(args).text())
            + "]"@,
        TypeCreation::Simple(name).text() == name.text(),
        TypeCreation::ArrayLen(Box::new(e), len).text() == "["@ + e.text() + ";"@ + decimal(
            len as nat,
        ) + "]"@,
{
    reveal_strlit("(");
    reveal_strlit(")");
    reveal_strlit("()");
    assert(exps_texts(List::<Exp>::Nil) =~= Seq::<Seq<char>>::empty());
    assert(TypeCreation::Touple(List::Nil).text() =~= "()"@);
    let l = List::Cons(Box::new(e), Box::new(rest));
    assert(exps_texts(l) == seq![e.text()] + exps_texts(rest));
    lemma_join_cons(e.text(), exps_texts(rest), ", "@);
    let j = join(exps_texts(rest), ", "@);
    assert(TypeCreation::Touple(rest).text() =~= "("@ + j + ")"@);
    assert(inside(TypeCreation::Touple(rest).text()) =~= j);
    if rest is Cons {
        assert(exps_texts(rest).len() > 0);
    }
    assert(TypeCreation::Touple(l).text() =~= "("@ + e.text() + (if rest is Cons {
        ", "@ + inside(TypeCreation::Touple(rest).text())
    } else {
        Seq::empty()
    }) + ")"@);
    let ja = join(exps_texts(args), ", "@);
    assert(TypeCreation::Touple(args).text() =~= "("@ + ja + ")"@);
    assert(inside(TypeCreation::Touple(args).text()) =~= ja);
    assert(Exp::FuncCall(Box::new(f), args).text() =~= f.text() + TypeCreation::Touple(
        args,
    ).text());
    assert(Exp::MethodCall(Box::new(e), Box::new(f), args).text() =~= e.text() + "."@ + f.text()
        + TypeCreation::Touple(args).text());
    assert(TypeCreation::Vars(name, args).text() =~= name.text() + TypeCreation::Touple(
        args,
    ).text());
}

/// A named type's value with fields is written as the name and, in braces,
/// each field as `name:value` with `, ` between neighbours; the fields
/// after the first are written as they are in the value that has only them.
pub proof fn lemma_struct_value_text(
    name: NamespacedType,
    k: String,
    v: Exp,
    rest: List<(String, Exp)>,
)
    ensures
        TypeCreation::Struct(name, List::Nil).text() == name.text() + "{}"@,
        TypeCreation::Struct(name, List::Cons(Box::new((k, v)), Box::new(rest))).text()
            == name.text() + "{"@ + k@ + ":"@ + v.text() + (if rest is Cons {
            ", "@ + TypeCreation::Struct(name, rest).text().subrange(
                name.text().len() + 1int,
                TypeCreation::Struct(name, rest).text().len() - 1,
            )
        } else {
            Seq::empty()
        }) + "}"@,
{
    reveal_strlit("{");
    reveal_strlit("}");
    reveal_strlit("{}");
    assert(field_inits_texts(List::<(String, Exp)>::Nil) =~= Seq::<Seq<char>>::empty());
    assert(TypeCreation::Struct(name, List::Nil).text() =~= name.text() + "{}"@);
    let h = k@ + ":"@ + v.text();
    let l = List::Cons(Box::new((k, v)), Box::new(rest));
    assert(field_inits_texts(l) == seq![h] + field_inits_texts(rest));
    lemma_join_cons(h, field_inits_texts(rest), ", "@);
    let j = join(field_inits_texts(rest), ", "@);
    let s = TypeCreation::Struct(name, rest).text();
    assert(s =~= name.text() + "{"@ + j + "}"@);
    assert(s.subrange(name.text().len() + 1int, s.len() - 1) =~= j);
    if rest is Cons {
        assert(field_inits_texts(rest).len() > 0);
    }
    assert(TypeCreation::Struct(name, l).text() =~= name.text() + "{"@ + k@ + ":"@ + v.text()
        + (if rest is Cons {
        ", "@ + s.subrange(name.text().len() + 1int, s.len() - 1)
    } else {
        Seq::empty()
    }) + "}"@);
}

/// Each operation is written with its Rust operator between its two operands,
/// each operand in parentheses: `+ - * / %`, `== !=`, `&& ||`, `< <= > >=`,
/// `^ & |` and `<< >>`, in the order of the variants.
pub proof fn lemma_infix_operators(l: Exp, r: Exp)
    ensures
        Infix::Add(l, r).text() == "("@ + l.text() + ") + ("@ + r.text() + ")"@,
        Infix::Subtract(l, r).text() == "("@ + l.text() + ") - ("@ + r.text() + ")"@,
        Infix::Multiply(l, r).text() == "("@ + l.text() + ") * ("@ + r.text() + ")"@,
        Infix::Divide(l, r).text() == "("@ + l.text() + ") / ("@ + r.text() + ")"@,
        Infix::Modulo(l, r).text() == "("@ + l.text() + ") % ("@ + r.text() + ")"@,
        Infix::Equality(l, r).text() == "("@ + l.text() + ") == ("@ + r.text() + ")"@,
        Infix::NotEquality(l, r).text() == "("@ + l.text() + ") != ("@ + r.text() + ")"@,
        Infix::And(l, r).text() == "("@ + l.text() + ") && ("@ + r.text() + ")"@,
        Infix::Or(l, r).text() == "("@ + l.text() + ") || ("@ + r.text() + ")"@,
        Infix::Less(l, r).text() == "("@ + l.text() + ") < ("@ + r.text() + ")"@,
        Infix::LessEq(l, r).text() == "("@ + l.text() + ") <= ("@ + r.text() + ")"@,
        Infix::Greater(l, r).text() == "("@ + l.text() + ") > ("@ + r.text() + ")"@,
        Infix::GreaterEq(l, r).text() == "("@ + l.text() + ") >= ("@ + r.text() + ")"@,
        Infix::Xor(l, r).text() == "("@ + l.text() + ") ^ ("@ + r.text() + ")"@,
        Infix::BitwiseAnd(l, r).text() == "("@ + l.text() + ") & ("@ + r.text() + ")"@,
        Infix::BitwiseOr(l, r).text() == "("@ + l.text() + ") | ("@ + r.text() + ")"@,
        Infix::LeftShift(l, r).text() == "("@ + l.text() + ") << ("@ + r.text() + ")"@,
        Infix::RightShift(l, r).text() == "("@ + l.text() + ") >> ("@ + r.text() + ")"@,
{
    reveal_strlit("(");
    reveal_strlit(") ");
    reveal_strlit(" (");
    reveal_strlit(")");
    reveal_strlit("+");
    reveal_strlit(") + (");
    reveal_strlit("-");
    reveal_strlit(") - (");
    reveal_strlit("*");
    reveal_strlit(") * (");
    reveal_strlit("/");
    reveal_strlit(") / (");
    reveal_strlit("%");
    reveal_strlit(") % (");
    reveal_strlit("==");
    reveal_strlit(") == (");
    reveal_strlit("!=");
    reveal_strlit(") != (");
    reveal_strlit("&&");
    reveal_strlit(") && (");
    reveal_strlit("||");
    reveal_strlit(") || (");
    reveal_strlit("<");
    reveal_strlit(") < (");
    reveal_strlit("<=");
    reveal_strlit(") <= (");
    reveal_strlit(">");
    reveal_strlit(") > (");
    reveal_strlit(">=");
    reveal_strlit(") >= (");
    reveal_strlit("^");
    reveal_strlit(") ^ (");
    reveal_strlit("&");
    reveal_strlit(") & (");
    reveal_strlit("|");
    reveal_strlit(") | (");
    reveal_strlit("<<");
    reveal_strlit(") << (");
    reveal_strlit(">>");
    reveal_strlit(") >> (");
    assert(Infix::Add(l, r).text() =~= "("@ + l.text() + ") + ("@ + r.text() + ")"@);
    assert(Infix::Subtract(l, r).text() =~= "("@ + l.text() + ") - ("@ + r.text() + ")"@);
    assert(Infix::Multiply(l, r).text() =~= "("@ + l.text() + ") * ("@ + r.text() + ")"@);
    assert(Infix::Divide(l, r).text() =~= "("@ + l.text() + ") / ("@ + r.text() + ")"@);
    assert(Infix::Modulo(l, r).text() =~= "("@ + l.text() + ") % ("@ + r.text() + ")"@);
    assert(Infix::Equality(l, r).text() =~= "("@ + l.text() + ") == ("@ + r.text() + ")"@);
    assert(Infix::NotEquality(l, r).text() =~= "("@ + l.text() + ") != ("@ + r.text() + ")"@);
    assert(Infix::And(l, r).text() =~= "("@ + l.text() + ") && ("@ + r.text() + ")"@);
    assert(Infix::Or(l, r).text() =~= "("@ + l.text() + ") || ("@ + r.text() + ")"@);
    assert(Infix::Less(l, r).text() =~= "("@ + l.text() + ") < ("@ + r.text() + ")"@);
    assert(Infix::LessEq(l, r).text() =~= "("@ + l.text() + ") <= ("@ + r.text() + ")"@);
    assert(Infix::Greater(l, r).text() =~= "("@ + l.text() + ") > ("@ + r.text() + ")"@);
    assert(Infix::GreaterEq(l, r).text() =~= "("@ + l.text() + ") >= ("@ + r.text() + ")"@);
    assert(Infix::Xor(l, r).text() =~= "("@ + l.text() + ") ^ ("@ + r.text() + ")"@);
    assert(Infix::BitwiseAnd(l, r).text() =~= "("@ + l.text() + ") & ("@ + r.text() + ")"@);
    assert(Infix::BitwiseOr(l, r).text() =~= "("@ + l.text() + ") | ("@ + r.text() + ")"@);
    assert(Infix::LeftShift(l, r).text() =~= "("@ + l.text() + ") << ("@ + r.text() + ")"@);
    assert(Infix::RightShift(l, r).text() =~= "("@ + l.text() + ") >> ("@ + r.text() + ")"@);
}

impl Infix {
    /// The operation in Rust source text, each operand in parentheses.
    pub open spec fn text(self) -> Seq<char>
        decreases self,
    {
        match self {
            Infix::Add(l, r) => binary(l.text(), "+"@, r.text()),
            Infix::Subtract(l, r) => binary(l.text(), "-"@, r.text()),
            Infix::Multiply(l, r) => binary(l.text(), "*"@, r.text()),
            Infix::Divide(l, r) => binary(l.text(), "/"@, r.text()),
            Infix::Modulo(l, r) => binary(l.text(), "%"@, r.text()),
            Infix::Equality(l, r) => binary(l.text(), "=="@, r.text()),
            Infix::NotEquality(l, r) => binary(l.text(), "!="@, r.text()),
            Infix::And(l, r) => binary(l.text(), "&&"@, r.text()),
            Infix::Or(l, r) => binary(l.text(), "||"@, r.text()),
            Infix::Less(l, r) => binary(l.text(), "<"@, r.text()),
            Infix::LessEq(l, r) => binary(l.text(), "<="@, r.text()),
            Infix::Greater(l, r) => binary(l.text(), ">"@, r.text()),
            Infix::GreaterEq(l, r) => binary(l.text(), ">="@, r.text()),
            Infix::Xor(l, r) => binary(l.text(), "^"@, r.text()),
            Infix::BitwiseAnd(l, r) => binary(l.text(), "&"@, r.text()),
            Infix::BitwiseOr(l, r) => binary(l.text(), "|"@, r.text()),
            Infix::LeftShift(l, r) => binary(l.text(), "<<"@, r.text()),
            Infix::RightShift(l, r) => binary(l.text(), ">>"@, r.text()),
        }
    }

    /// Both operands can be written.
    pub open spec fn printable(self) -> bool
        decreases self,
    {
        match self {
            Infix::Add(l, r) => l.printable() && r.printable(),
            Infix::Subtract(l, r) => l.printable() && r.printable(),
            Infix::Multiply(l, r) => l.printable() && r.printable(),
            Infix::Divide(l, r) => l.printable() && r.printable(),
            Infix::Modulo(l, r) => l.printable() && r.printable(),
            Infix::Equality(l, r) => l.printable() && r.printable(),
            Infix::NotEquality(l, r) => l.printable() && r.printable(),
            Infix::And(l, r) => l.printable() && r.printable(),
            Infix::Or(l, r) => l.printable() && r.printable(),
            Infix::Less(l, r) => l.printable() && r.printable(),
            Infix::LessEq(l, r) => l.printable() && r.printable(),
            Infix::Greater(l, r) => l.printable() && r.printable(),
            Infix::GreaterEq(l, r) => l.printable() && r.printable(),
            Infix::Xor(l, r) => l.printable() && r.printable(),
            Infix::BitwiseAnd(l, r) => l.printable() && r.printable(),
            Infix::BitwiseOr(l, r) => l.printable() && r.printable(),
            Infix::LeftShift(l, r) => l.printable() && r.printable(),
            Infix::RightShift(l, r) => l.printable() && r.printable(),
        }
    }

    /// The left operand, the operator and the right operand.
    fn operands(&self) -> (r: (&Exp, &'static str, &Exp))
        ensures
            self.text() == binary(r.0.text(), r.1@, r.2.text()),
            self.printable() == (r.0.printable() && r.2.printable()),
            decreases_to!(*self => *r.0),
            decreases_to!(*self => *r.2),
    {
        match self {
            Infix::Add(l, r) => (l, "+", r),
            Infix::Subtract(l, r) => (l, "-", r),
            Infix::Multiply(l, r) => (l, "*", r),
            Infix::Divide(l, r) => (l, "/", r),
            Infix::Modulo(l, r) => (l, "%", r),
            Infix::Equality(l, r) => (l, "==", r),
            Infix::NotEquality(l, r) => (l, "!=", r),
            Infix::And(l, r) => (l, "&&", r),
            Infix::Or(l, r) => (l, "||", r),
            Infix::Less(l, r) => (l, "<", r),
            Infix::LessEq(l, r) => (l, "<=", r),
            Infix::Greater(l, r) => (l, ">", r),
            Infix::GreaterEq(l, r) => (l, ">=", r),
            Infix::Xor(l, r) => (l, "^", r),
            Infix::BitwiseAnd(l, r) => (l, "&", r),
            Infix::BitwiseOr(l, r) => (l, "|", r),
            Infix::LeftShift(l, r) => (l, "<<", r),
            Infix::RightShift(l, r) => (l, ">>", r),
        }
    }

    /// Appends the Rust source text to `out`, and tells whether it could:
    /// `false` when a list that Rust needs non-empty is empty, and `out` then holds an unfinished text.
    pub fn write_to(&self, out: &mut String) -> (ok: bool)
        ensures
            ok == self.printable(),
            ok ==> final(out)@ == old(out)@ + self.text(),
        decreases self,
    {
        let ghost start = out@;
        let (l, op, r) = self.operands();
        out.append("(");
        if !l.write_to(out) {
            return false;
        }
        out.append(") ");
        out.append(op);
        out.append(" (");
        if !r.write_to(out) {
            return false;
        }
        out.append(")");
        assert(out@ =~= start + binary(l.text(), op@, r.text()));
        true
    }

    /// The node in Rust source text.
    pub fn to_string(&self) -> (s: String)
        requires
            self.printable(),
        ensures
            s@ == self.text(),
    {
        let mut s = String::new();
        self.write_to(&mut s);
        s
    }
}

} // verus!
