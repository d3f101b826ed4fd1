use vstd::prelude::*;

use crate::tokenizer::{Keywords, Token};

use super::attribute::{parse_attribute, Attribute};
use super::exp::{parse_exp, Exp};
use crate::text::{inside, join, lemma_join_cons};

use super::list::List;
use super::types::{parse_namespaced, parse_type_alias, NamespacedType, TypeAlias};
use super::uses::{parse_use, Use};
use super::{agrees, named, at_is, ctx, map_ok, pop, suffix_of, ParseFault, Parsed, Parser, ParserError};

verus! {

broadcast use super::lemma_suffix_trans;

/// A block of statements: `(do stmt1 stmt2 ..)`.
#[derive(Debug)]
pub struct Do(pub List<DoActions>);

/// A statement of a block.
#[derive(Debug)]
pub enum DoActions {
    /// `let mut? pattern <- exp`
    Let(bool, Destructuring, Exp),
    /// `name <- exp`
    Assignment(String, Exp),
    /// `if cond stmt elif cond stmt else stmt`
    If {
        condition: Exp,
        true_branch: Box<DoActions>,
        elif_branch: List<(Exp, DoActions)>,
        false_branch: Option<Box<DoActions>>,
    },
    /// `for pattern <- iter stmt`
    For { vals: Destructuring, iter: Exp, body: Box<DoActions> },
    /// `loop stmt`
    Loop(Box<DoActions>),
    /// `while cond stmt`
    While(Exp, Box<DoActions>),
    TypeAlias(TypeAlias),
    Attribute(Attribute),
    Use(Use),
    /// An expression whose value is the block's.
    Ret(Exp),
    /// An expression followed by ';'.
    Semicolon(Exp),
    Break,
    Continue,
}

/// The pattern of a `let` or a `for`.
#[derive(Debug)]
pub enum Destructuring {
    Touple(List<Destructuring>),
    Array(List<Destructuring>),
    Struct(NamespacedType, List<LetStructField>),
    Variable(String),
    Rest,
}

/// A field of a struct pattern in a `let`: `name`, `name -> pattern`, `..`.
#[derive(Debug)]
pub enum LetStructField {
    Simple(String),
    Named(String, Box<Destructuring>),
    Rest,
}

// ---------------------------------------------------------------- grammar

/// Destructuring => NamespacedType '{' {LetStructField} '}' | Identifier
///                | '<' {Destructuring} '>' | '[' {Destructuring} ']' | '..' | '(' Destructuring ')'
pub open spec fn parse_destructuring(ts: Seq<Token>) -> Parsed<Destructuring>
    decreases ts.len(), 1nat,
{
    if ts.len() == 0 {
        (Err(ParseFault::MoreTokens), ts)
    } else {
        let r = ts.drop_first();
        match ts[0] {
            Token::Identifier(name) => if at_is(r, 0, Token::CurlyOpen) || at_is(
                r,
                0,
                Token::Keyword(Keywords::LeftArrow),
            ) {
                match parse_namespaced(ts) {
                    (Ok(ns), r1) => {
                        let r2 = if r1.len() > 0 {
                            r1.drop_first()
                        } else {
                            r1
                        };
                        if r2.len() < ts.len() {
                            map_ok(
                                destructuring_fields(r2),
                                |fields: List<LetStructField>| Destructuring::Struct(ns, fields),
                            )
                        } else {
                            (Err(ParseFault::MoreTokens), r2)
                        }
                    },
                    (Err(f), r1) => (Err(f), r1),
                }
            } else {
                (Ok(Destructuring::Variable(name)), r)
            },
            Token::AngleBracketOpen => map_ok(
                destructuring_items(r, Token::AngleBracketClose),
                |l: List<Destructuring>| Destructuring::Touple(l),
            ),
            Token::BracketOpen => map_ok(
                destructuring_items(r, Token::BracketClose),
                |l: List<Destructuring>| Destructuring::Array(l),
            ),
            Token::DoubleDot => (Ok(Destructuring::Rest), r),
            Token::ParenOpen => match parse_destructuring(r) {
                (Ok(d), r1) => match pop(r1) {
                    (Ok(Token::ParenClose), r2) => (Ok(d), r2),
                    (Ok(x), r2) => (Err(ParseFault::Unexpected(x)), r2),
                    (Err(f), r2) => (Err(f), r2),
                },
                (Err(f), r1) => (Err(f), r1),
            },
            t => (Err(ParseFault::Unexpected(t)), r),
        }
    }
}

/// Patterns up to and with `close`.
pub open spec fn destructuring_items(ts: Seq<Token>, close: Token) -> Parsed<List<Destructuring>>
    decreases ts.len(), 2nat,
{
    if ts.len() == 0 {
        (Err(ParseFault::MoreTokens), ts)
    } else if ts[0] == close {
        (Ok(List::Nil), ts.drop_first())
    } else {
        match parse_destructuring(ts) {
            (Ok(d), r) => if r.len() < ts.len() {
                map_ok(
                    destructuring_items(r, close),
                    |rest: List<Destructuring>| List::Cons(Box::new(d), Box::new(rest)),
                )
            } else {
                (Err(ParseFault::MoreTokens), r)
            },
            (Err(f), r) => (Err(f), r),
        }
    }
}

/// Struct pattern fields up to and with '}'.
pub open spec fn destructuring_fields(ts: Seq<Token>) -> Parsed<List<LetStructField>>
    decreases ts.len(), 2nat,
{
    if ts.len() == 0 {
        (Err(ParseFault::MoreTokens), ts)
    } else if ts[0] == Token::CurlyClose {
        (Ok(List::Nil), ts.drop_first())
    } else {
        match parse_let_struct_field(ts) {
            (Ok(f), r) => if r.len() < ts.len() {
                map_ok(
                    destructuring_fields(r),
                    |rest: List<LetStructField>| List::Cons(Box::new(f), Box::new(rest)),
                )
            } else {
                (Err(ParseFault::MoreTokens), r)
            },
            (Err(e), r) => (Err(e), r),
        }
    }
}

/// LetStructField => '..' | Identifier '->' Destructuring | Identifier
pub open spec fn parse_let_struct_field(ts: Seq<Token>) -> Parsed<LetStructField>
    decreases ts.len(), 1nat,
{
    match pop(ts) {
        (Ok(Token::DoubleDot), r) => (Ok(LetStructField::Rest), r),
        (Ok(Token::Identifier(name)), r) => if at_is(r, 0, Token::Keyword(Keywords::LeftArrow)) {
            map_ok(
                parse_destructuring(r.drop_first()),
                |d: Destructuring| LetStructField::Named(name, Box::new(d)),
            )
        } else {
            (Ok(LetStructField::Simple(name)), r)
        },
        (Ok(x), r) => (Err(ParseFault::Unexpected(x)), r),
        (Err(f), r) => (Err(f), r),
    }
}

/// Do => '(' 'do' {DoActions} ')'
pub open spec fn parse_do(ts: Seq<Token>) -> Parsed<Do>
    decreases ts.len(), 16nat,
{
    match pop(ts) {
        (Ok(Token::ParenOpen), r) => match pop(r) {
            (Ok(Token::Keyword(Keywords::Do)), r1) => map_ok(
                do_actions(r1),
                |l: List<DoActions>| Do(l),
            ),
            (Ok(x), r1) => (Err(ParseFault::Unexpected(x)), r1),
            (Err(f), r1) => (Err(f), r1),
        },
        (Ok(x), r) => (Err(ParseFault::Unexpected(x)), r),
        (Err(f), r) => (Err(f), r),
    }
}

/// Statements up to and with ')'.
pub open spec fn do_actions(ts: Seq<Token>) -> Parsed<List<DoActions>>
    decreases ts.len(), 23nat,
{
    if ts.len() == 0 {
        (Err(ParseFault::MoreTokens), ts)
    } else if ts[0] == Token::ParenClose {
        (Ok(List::Nil), ts.drop_first())
    } else {
        match parse_do_action(ts) {
            (Ok(a), r) => if r.len() < ts.len() {
                map_ok(do_actions(r), |rest: List<DoActions>| List::Cons(Box::new(a), Box::new(rest)))
            } else {
                (Err(ParseFault::MoreTokens), r)
            },
            (Err(f), r) => (Err(f), r),
        }
    }
}

/// An expression used as a statement, with its optional ';'.
pub open spec fn exp_statement(ts: Seq<Token>) -> Parsed<DoActions>
    decreases ts.len(), 21nat,
{
    match parse_exp(ts) {
        (Ok(e), r) => if at_is(r, 0, Token::Char(';')) {
            (Ok(DoActions::Semicolon(e)), r.drop_first())
        } else {
            (Ok(DoActions::Ret(e)), r)
        },
        (Err(f), r) => (Err(f), r),
    }
}

/// Statements read by their first word: `break` and `continue` as
/// themselves; `loop` with the statement that follows as its body; `while`
/// with a condition and a body; `name <- value` as an assignment; `let`
/// (with `mut` when it follows) as a binding of a pattern, `<-` and a value.
#[verifier::rlimit(80)]
pub proof fn lemma_statement_words(
    r: Seq<Token>,
    name: String,
    e: Exp,
    r1: Seq<Token>,
    b: DoActions,
    r2: Seq<Token>,
    p: Destructuring,
)
    ensures
        parse_do_action(seq![Token::Keyword(Keywords::Break)] + r) == (
            Ok::<DoActions, ParseFault>(DoActions::Break),
            r,
        ),
        parse_do_action(seq![Token::Keyword(Keywords::Continue)] + r) == (
            Ok::<DoActions, ParseFault>(DoActions::Continue),
            r,
        ),
        parse_do_action(r) == (Ok::<DoActions, ParseFault>(b), r1) ==> parse_do_action(
            seq![Token::Keyword(Keywords::Loop)] + r,
        ) == (Ok::<DoActions, ParseFault>(DoActions::Loop(Box::new(b))), r1),
        parse_exp(r) == (Ok::<Exp, ParseFault>(e), r1) && r1.len() <= r.len() && parse_do_action(r1)
            == (Ok::<DoActions, ParseFault>(b), r2) ==> parse_do_action(
            seq![Token::Keyword(Keywords::While)] + r,
        ) == (Ok::<DoActions, ParseFault>(DoActions::While(e, Box::new(b))), r2),
        parse_exp(r) == (Ok::<Exp, ParseFault>(e), r1) ==> parse_do_action(
            seq![Token::Identifier(name), Token::Keyword(Keywords::RightArrow)] + r,
        ) == (Ok::<DoActions, ParseFault>(DoActions::Assignment(name, e)), r1),
        !at_is(r, 0, Token::Keyword(Keywords::Mut)) && parse_pattern_list(r) == (
            Ok::<Destructuring, ParseFault>(p),
            seq![Token::Keyword(Keywords::RightArrow)] + r1,
        ) && r1.len() < r.len() && parse_exp(r1) == (Ok::<Exp, ParseFault>(e), r2) ==> parse_do_action(
            seq![Token::Keyword(Keywords::Let)] + r,
        ) == (Ok::<DoActions, ParseFault>(DoActions::Let(false, p, e)), r2),
        parse_pattern_list(r) == (
            Ok::<Destructuring, ParseFault>(p),
            seq![Token::Keyword(Keywords::RightArrow)] + r1,
        ) && r1.len() < r.len() && parse_exp(r1) == (Ok::<Exp, ParseFault>(e), r2) ==> parse_do_action(
            seq![Token::Keyword(Keywords::Let), Token::Keyword(Keywords::Mut)] + r,
        ) == (Ok::<DoActions, ParseFault>(DoActions::Let(true, p, e)), r2),
{
    assert((seq![Token::Keyword(Keywords::Break)] + r).drop_first() =~= r);
    assert((seq![Token::Keyword(Keywords::Continue)] + r).drop_first() =~= r);
    assert((seq![Token::Keyword(Keywords::Loop)] + r).drop_first() =~= r);
    assert((seq![Token::Keyword(Keywords::While)] + r).drop_first() =~= r);
    let a = seq![Token::Identifier(name), Token::Keyword(Keywords::RightArrow)] + r;
    assert(a.drop_first() =~= seq![Token::Keyword(Keywords::RightArrow)] + r);
    assert((seq![Token::Keyword(Keywords::RightArrow)] + r).drop_first() =~= r);
    assert((seq![Token::Keyword(Keywords::RightArrow)] + r1).drop_first() =~= r1);
    assert((seq![Token::Keyword(Keywords::Let)] + r).drop_first() =~= r);
    let m = seq![Token::Keyword(Keywords::Let), Token::Keyword(Keywords::Mut)] + r;
    assert(m.drop_first() =~= seq![Token::Keyword(Keywords::Mut)] + r);
    assert((seq![Token::Keyword(Keywords::Mut)] + r).drop_first() =~= r);
}

/// DoActions => Attribute | 'let' 'mut'? Destructuring '<-' Exp | Identifier '<-' Exp
///            | 'if' .. | 'for' Destructuring '<-' Exp DoActions | 'loop' DoActions
///            | 'while' Exp DoActions | 'break' | 'continue' | '(' Statement ')'
///            | TypeAlias | Use | Exp ';'?
/// (the patterns of `let` and `for` may be several, separated by ',').
pub open spec fn parse_do_action(ts: Seq<Token>) -> Parsed<DoActions>
    decreases ts.len(), 22nat,
{
    if ts.len() == 0 {
        (Err(ParseFault::MoreTokens), ts)
    } else {
        let r = ts.drop_first();
        match ts[0] {
            Token::Char('#') => map_ok(parse_attribute(ts), |a: Attribute| DoActions::Attribute(a)),
            Token::Keyword(Keywords::Let) => {
                let mutable = at_is(r, 0, Token::Keyword(Keywords::Mut));
                let r1 = if mutable {
                    r.drop_first()
                } else {
                    r
                };
                match parse_pattern_list(r1) {
                    (Ok(p), r2) => match pop(r2) {
                        (Ok(Token::Keyword(Keywords::RightArrow)), r3) => if r3.len() < ts.len() {
                            map_ok(parse_exp(r3), |e: Exp| DoActions::Let(mutable, p, e))
                        } else {
                            (Err(ParseFault::MoreTokens), r3)
                        },
                        (Ok(x), r3) => (Err(ParseFault::Unexpected(x)), r3),
                        (Err(f), r3) => (Err(f), r3),
                    },
                    (Err(f), r2) => (Err(f), r2),
                }
            },
            Token::Identifier(name) => if at_is(ts, 1, Token::Keyword(Keywords::RightArrow)) {
                map_ok(parse_exp(r.drop_first()), |e: Exp| DoActions::Assignment(name, e))
            } else {
                exp_statement(ts)
            },
            Token::Keyword(Keywords::If) => do_if(r),
            Token::Keyword(Keywords::For) => match parse_pattern_list(r) {
                (Ok(vals), r1) => match pop(r1) {
                    (Ok(Token::Keyword(Keywords::RightArrow)), r2) => if r2.len() < ts.len() {
                        match parse_exp(r2) {
                            (Ok(iter), r3) => if r3.len() < ts.len() {
                                map_ok(
                                    parse_do_action(r3),
                                    |b: DoActions| DoActions::For { vals, iter, body: Box::new(b) },
                                )
                            } else {
                                (Err(ParseFault::MoreTokens), r3)
                            },
                            (Err(f), r3) => (Err(f), r3),
                        }
                    } else {
                        (Err(ParseFault::MoreTokens), r2)
                    },
                    (Ok(x), r2) => (Err(ParseFault::Unexpected(x)), r2),
                    (Err(f), r2) => (Err(f), r2),
                },
                (Err(f), r1) => (Err(f), r1),
            },
            Token::Keyword(Keywords::Loop) => map_ok(
                parse_do_action(r),
                |b: DoActions| DoActions::Loop(Box::new(b)),
            ),
            Token::Keyword(Keywords::While) => match parse_exp(r) {
                (Ok(c), r1) => if r1.len() < ts.len() {
                    map_ok(parse_do_action(r1), |b: DoActions| DoActions::While(c, Box::new(b)))
                } else {
                    (Err(ParseFault::MoreTokens), r1)
                },
                (Err(f), r1) => (Err(f), r1),
            },
            Token::Keyword(Keywords::Type) => map_ok(
                parse_type_alias(ts),
                |t: TypeAlias| DoActions::TypeAlias(t),
            ),
            Token::Keyword(Keywords::Use) => map_ok(parse_use(ts), |u: Use| DoActions::Use(u)),
            Token::Keyword(Keywords::Break) => (Ok(DoActions::Break), r),
            Token::Keyword(Keywords::Continue) => (Ok(DoActions::Continue), r),
            Token::ParenOpen => if ts.len() > 1 && opens_statement(ts[1]) {
                paren_action(r)
            } else if at_is(ts, 1, Token::Keyword(Keywords::Type)) {
                map_ok(parse_type_alias(ts), |t: TypeAlias| DoActions::TypeAlias(t))
            } else if at_is(ts, 1, Token::Keyword(Keywords::Use)) {
                map_ok(parse_use(ts), |u: Use| DoActions::Use(u))
            } else {
                exp_statement(ts)
            },
            _ => exp_statement(ts),
        }
    }
}

/// A keyword that opens a statement in parentheses: `(if ..)`, `(for ..)`,
/// `(loop ..)`, `(while ..)`, `(break)`, `(continue)`.
pub open spec fn opens_statement(t: Token) -> bool {
    ||| t == Token::Keyword(Keywords::If)
    ||| t == Token::Keyword(Keywords::For)
    ||| t == Token::Keyword(Keywords::Loop)
    ||| t == Token::Keyword(Keywords::While)
    ||| t == Token::Keyword(Keywords::Break)
    ||| t == Token::Keyword(Keywords::Continue)
}

/// The statement `a` with `f` as its `else` branch, when `a` is an `if`.
pub open spec fn with_else(a: DoActions, f: DoActions) -> DoActions {
    match a {
        DoActions::If { condition, true_branch, elif_branch, .. } => DoActions::If {
            condition,
            true_branch,
            elif_branch,
            false_branch: Some(Box::new(f)),
        },
        other => other,
    }
}

/// Statement ')', after a '(': an `if` without `else` takes the statement
/// that follows it, when it is not the ')', as its `else` branch, so that
/// `(if c s1 s2)` is `if c {s1} else {s2}`.
pub open spec fn paren_action(ts: Seq<Token>) -> Parsed<DoActions>
    decreases ts.len(), 23nat,
{
    match parse_do_action(ts) {
        (Ok(a), r) => if r.len() < ts.len() && (a matches DoActions::If { false_branch: None, .. })
            && !at_is(r, 0, Token::ParenClose) {
            match parse_do_action(r) {
                (Ok(f), r1) => close_paren(r1, with_else(a, f)),
                (Err(e), r1) => (Err(e), r1),
            }
        } else {
            close_paren(r, a)
        },
        (Err(e), r) => (Err(e), r),
    }
}

/// ')' after a statement.
pub open spec fn close_paren(ts: Seq<Token>, a: DoActions) -> Parsed<DoActions> {
    match pop(ts) {
        (Ok(Token::ParenClose), r) => (Ok(a), r),
        (Ok(x), r) => (Err(ParseFault::Unexpected(x)), r),
        (Err(e), r) => (Err(e), r),
    }
}

/// The patterns of a `let` or a `for`: one pattern, or several separated by
/// ',', which stand for the tuple of them (`i, val` is `(i, val)`).
pub open spec fn parse_pattern_list(ts: Seq<Token>) -> Parsed<Destructuring> {
    match parse_destructuring(ts) {
        (Ok(d), r) => match comma_patterns(r) {
            (Ok(List::Nil), r1) => (Ok(d), r1),
            (Ok(rest), r1) => (Ok(Destructuring::Touple(List::Cons(Box::new(d), Box::new(rest)))), r1),
            (Err(e), r1) => (Err(e), r1),
        },
        (Err(e), r) => (Err(e), r),
    }
}

/// The patterns that follow, each after a ','.
pub open spec fn comma_patterns(ts: Seq<Token>) -> Parsed<List<Destructuring>>
    decreases ts.len(),
{
    if at_is(ts, 0, Token::Char(',')) {
        match parse_destructuring(ts.drop_first()) {
            (Ok(d), r) => if r.len() < ts.len() {
                map_ok(comma_patterns(r), |rest: List<Destructuring>| List::Cons(Box::new(d), Box::new(rest)))
            } else {
                (Err(ParseFault::MoreTokens), r)
            },
            (Err(e), r) => (Err(e), r),
        }
    } else {
        (Ok(List::Nil), ts)
    }
}

fn take_comma_patterns(value: &mut Parser) -> (r: Result<List<Destructuring>, ParserError>)
    ensures
        agrees(r, comma_patterns(old(value)@).0),
        final(value)@ == comma_patterns(old(value)@).1,
        suffix_of(final(value)@, old(value)@),
        named(r, "DoActions"),
    decreases old(value)@.len(),
{
    if !matches!(value.first(), Some(Token::Char(','))) {
        return Ok(List::Nil);
    }
    value.pop_front();
    let d = ctx(Destructuring::try_from(value), "DoActions")?;
    let rest = take_comma_patterns(value)?;
    Ok(List::Cons(Box::new(d), Box::new(rest)))
}

fn take_pattern_list(value: &mut Parser) -> (r: Result<Destructuring, ParserError>)
    ensures
        agrees(r, parse_pattern_list(old(value)@).0),
        final(value)@ == parse_pattern_list(old(value)@).1,
        suffix_of(final(value)@, old(value)@),
        named(r, "DoActions"),
{
    let d = ctx(Destructuring::try_from(value), "DoActions")?;
    let rest = take_comma_patterns(value)?;
    match rest {
        List::Nil => Ok(d),
        rest => Ok(Destructuring::Touple(List::Cons(Box::new(d), Box::new(rest)))),
    }
}

fn take_paren_action(value: &mut Parser) -> (r: Result<DoActions, ParserError>)
    ensures
        agrees(r, paren_action(old(value)@).0),
        final(value)@ == paren_action(old(value)@).1,
        suffix_of(final(value)@, old(value)@),
        named(r, "DoActions"),
    decreases old(value)@.len(), 23nat,
{
    let a = ctx(DoActions::try_from(value), "DoActions")?;
    let a = if matches!(a, DoActions::If { false_branch: None, .. }) && !matches!(
        value.first(),
        Some(Token::ParenClose),
    ) {
        let f = ctx(DoActions::try_from(value), "DoActions")?;
        match a {
            DoActions::If { condition, true_branch, elif_branch, .. } => DoActions::If {
                condition,
                true_branch,
                elif_branch,
                false_branch: Some(Box::new(f)),
            },
            other => other,
        }
    } else {
        a
    };
    let t = value.pop_front_err("DoActions")?;
    if !matches!(t, Token::ParenClose) {
        return Err(ParserError::new("DoActions", ParseFault::Unexpected(t)));
    }
    Ok(a)
}

/// After 'if': the condition, the statement, and the optional `elif` and `else`.
pub open spec fn do_if(ts: Seq<Token>) -> Parsed<DoActions>
    decreases ts.len(), 21nat,
{
    match parse_exp(ts) {
        (Ok(c), r) => if r.len() < ts.len() {
            match parse_do_action(r) {
                (Ok(t), r1) => if r1.len() < ts.len() {
                    do_if_rest(r1, c, t)
                } else {
                    (Err(ParseFault::MoreTokens), r1)
                },
                (Err(f), r1) => (Err(f), r1),
            }
        } else {
            (Err(ParseFault::MoreTokens), r)
        },
        (Err(f), r) => (Err(f), r),
    }
}

/// The optional `elif` and `else` of an `if` statement.
pub open spec fn do_if_rest(ts: Seq<Token>, c: Exp, t: DoActions) -> Parsed<DoActions>
    decreases ts.len(), 21nat,
{
    if at_is(ts, 0, Token::Keyword(Keywords::Elif)) {
        match parse_exp(ts.drop_first()) {
            (Ok(c2), r) => if r.len() < ts.len() {
                match parse_do_action(r) {
                    (Ok(b2), r1) => if r1.len() < ts.len() {
                        do_if_else(r1, c, t, List::Cons(Box::new((c2, b2)), Box::new(List::Nil)))
                    } else {
                        (Err(ParseFault::MoreTokens), r1)
                    },
                    (Err(f), r1) => (Err(f), r1),
                }
            } else {
                (Err(ParseFault::MoreTokens), r)
            },
            (Err(f), r) => (Err(f), r),
        }
    } else {
        do_if_else(ts, c, t, List::Nil)
    }
}

/// The optional `else` of an `if` statement.
pub open spec fn do_if_else(
    ts: Seq<Token>,
    c: Exp,
    t: DoActions,
    elifs: List<(Exp, DoActions)>,
) -> Parsed<DoActions>
    decreases ts.len(), 20nat,
{
    if at_is(ts, 0, Token::Keyword(Keywords::Else)) {
        map_ok(
            parse_do_action(ts.drop_first()),
            |f: DoActions|
                DoActions::If {
                    condition: c,
                    true_branch: Box::new(t),
                    elif_branch: elifs,
                    false_branch: Some(Box::new(f)),
                },
        )
    } else {
        (
            Ok(
                DoActions::If {
                    condition: c,
                    true_branch: Box::new(t),
                    elif_branch: elifs,
                    false_branch: None,
                },
            ),
            ts,
        )
    }
}

/// A block is written in braces, each statement on a new line; the
/// statements after the first as the block that holds only them.
pub proof fn lemma_block_text(a: DoActions, rest: List<DoActions>)
    ensures
        Do(List::Nil).text() == "{}"@,
        Do(List::Cons(Box::new(a), Box::new(rest))).text() == "{"@ + "\n"@ + a.text() + inside(
            Do(rest).text(),
        ) + "}"@,
{
    reveal_strlit("{");
    reveal_strlit("}");
    reveal_strlit("{}");
    assert(actions_text(List::<DoActions>::Nil) =~= Seq::<char>::empty());
    assert(Do(List::Nil).text() =~= "{}"@);
    assert(Do(rest).text() =~= "{"@ + actions_text(rest) + "}"@);
    assert(inside(Do(rest).text()) =~= actions_text(rest));
    assert(Do(List::Cons(Box::new(a), Box::new(rest))).text() =~= "{"@ + "\n"@ + a.text()
        + inside(Do(rest).text()) + "}"@);
}

/// How each statement is written: `let`, ` mut` when mutable, the pattern,
/// ` = `, the value and `;`; an assignment as `name = value;`; `for`,
/// `loop` and `while` with their bodies in braces; a type alias, an
/// attribute, an import and the block's value as themselves; an expression
/// statement followed by `;`; `break;` and `continue;`; an `if` in braces,
/// as `if cond {stmt}`, its `elif` branch right after (its condition and
/// `{stmt}`), and ` else {stmt}` when there is one.
pub proof fn lemma_statement_text(
    d: Destructuring,
    e: Exp,
    c: Exp,
    name: String,
    s1: DoActions,
    s2: DoActions,
    s3: DoActions,
    t: TypeAlias,
    a: Attribute,
    u: Use,
)
    ensures
        DoActions::Let(true, d, e).text() == "let mut "@ + d.text() + " = "@ + e.text() + ";"@,
        DoActions::Let(false, d, e).text() == "let "@ + d.text() + " = "@ + e.text() + ";"@,
        DoActions::Assignment(name, e).text() == name@ + " = "@ + e.text() + ";"@,
        (DoActions::For { vals: d, iter: e, body: Box::new(s1) }).text() == "{for "@ + d.text()
            + " in "@ + e.text() + " {"@ + s1.text() + "}};"@,
        DoActions::Loop(Box::new(s1)).text() == "loop {"@ + s1.text() + "}"@,
        DoActions::While(e, Box::new(s1)).text() == "while "@ + e.text() + " {"@ + s1.text()
            + "}"@,
        DoActions::TypeAlias(t).text() == t.text(),
        DoActions::Attribute(a).text() == a.text(),
        DoActions::Use(u).text() == u.text(),
        DoActions::Ret(e).text() == e.text(),
        DoActions::Semicolon(e).text() == e.text() + ";"@,
        DoActions::Break.text() == "break;"@,
        DoActions::Continue.text() == "continue;"@,
        (DoActions::If {
            condition: e,
            true_branch: Box::new(s1),
            elif_branch: List::Nil,
            false_branch: None,
        }).text() == "{if "@ + e.text() + " {"@ + s1.text() + "}"@ + "}"@,
        (DoActions::If {
            condition: e,
            true_branch: Box::new(s1),
            elif_branch: List::Nil,
            false_branch: Some(Box::new(s3)),
        }).text() == "{if "@ + e.text() + " {"@ + s1.text() + "}"@ + " else {"@ + s3.text()
            + "}"@ + "}"@,
        (DoActions::If {
            condition: e,
            true_branch: Box::new(s1),
            elif_branch: List::Cons(Box::new((c, s2)), Box::new(List::Nil)),
            false_branch: Some(Box::new(s3)),
        }).text() == "{if "@ + e.text() + " {"@ + s1.text() + "}"@ + c.text() + " {"@ + s2.text()
            + "}"@ + " else {"@ + s3.text() + "}"@ + "}"@,
        (DoActions::If {
            condition: e,
            true_branch: Box::new(s1),
            elif_branch: List::Cons(Box::new((c, s2)), Box::new(List::Nil)),
            false_branch: None,
        }).text() == "{if "@ + e.text() + " {"@ + s1.text() + "}"@ + c.text() + " {"@ + s2.text()
            + "}"@ + "}"@,
{
    reveal_strlit("let");
    reveal_strlit(" mut");
    reveal_strlit(" ");
    reveal_strlit("let mut ");
    reveal_strlit("let ");
    assert(DoActions::Let(true, d, e).text() =~= "let mut "@ + d.text() + " = "@ + e.text()
        + ";"@);
    assert(DoActions::Let(false, d, e).text() =~= "let "@ + d.text() + " = "@ + e.text() + ";"@);
    assert(do_elifs_text(List::<(Exp, DoActions)>::Nil) =~= Seq::<char>::empty());
    assert(first_elifs_text(List::<(Exp, DoActions)>::Nil) =~= Seq::<char>::empty());
    assert(first_elifs_text(List::Cons(Box::new((c, s2)), Box::new(List::Nil))) =~= c.text()
        + " {"@ + s2.text() + "}"@);
    assert((DoActions::If {
        condition: e,
        true_branch: Box::new(s1),
        elif_branch: List::Nil,
        false_branch: None,
    }).text() =~= "{if "@ + e.text() + " {"@ + s1.text() + "}"@ + "}"@);
    assert((DoActions::If {
        condition: e,
        true_branch: Box::new(s1),
        elif_branch: List::Cons(Box::new((c, s2)), Box::new(List::Nil)),
        false_branch: None,
    }).text() =~= "{if "@ + e.text() + " {"@ + s1.text() + "}"@ + c.text() + " {"@ + s2.text()
        + "}"@ + "}"@);
    assert((DoActions::If {
        condition: e,
        true_branch: Box::new(s1),
        elif_branch: List::Nil,
        false_branch: Some(Box::new(s3)),
    }).text() =~= "{if "@ + e.text() + " {"@ + s1.text() + "}"@ + " else {"@ + s3.text() + "}"@
        + "}"@);
}

/// A `let` pattern is written: a tuple in parentheses with `, ` between
/// neighbours (the ones after the first as the tuple of only them), an
/// array as the same list in brackets, a struct as its path and ` {..}`
/// around its fields, a name as itself and `..`; a field as its name,
/// `name: pattern` or `..`.
pub proof fn lemma_let_pattern_text(
    d: Destructuring,
    rest: List<Destructuring>,
    ds: List<Destructuring>,
    path: NamespacedType,
    f: LetStructField,
    fs: List<LetStructField>,
    name: String,
)
    ensures
        Destructuring::Variable(name).text() == name@,
        Destructuring::Rest.text() == ".."@,
        Destructuring::Touple(List::Nil).text() == "()"@,
        Destructuring::Touple(List::Cons(Box::new(d), Box::new(rest))).text() == "("@ + d.text()
            + (if rest is Cons {
            ", "@ + inside(Destructuring::Touple(rest).text())
        } else {
            Seq::empty()
        }) + ")"@,
        Destructuring::Array(ds).text() == "["@ + inside(Destructuring::Touple(ds).text()) + "]"@,
        Destructuring::Struct(path, List::Nil).text() == path.text() + " {}"@,
        Destructuring::Struct(path, List::Cons(Box::new(f), Box::new(fs))).text() == path.text()
            + " {"@ + f.text() + (if fs is Cons {
            ", "@ + Destructuring::Struct(path, fs).text().subrange(
                path.text().len() + 2int,
                Destructuring::Struct(path, fs).text().len() - 1,
            )
        } else {
            Seq::empty()
        }) + "}"@,
        LetStructField::Simple(name).text() == name@,
        LetStructField::Named(name, Box::new(d)).text() == name@ + ": "@ + d.text(),
        LetStructField::Rest.text() == ".."@,
{
    reveal_strlit("(");
    reveal_strlit(")");
    reveal_strlit("()");
    reveal_strlit(" {");
    reveal_strlit("}");
    reveal_strlit(" {}");
    assert(destructurings_texts(List::<Destructuring>::Nil) =~= Seq::<Seq<char>>::empty());
    assert(Destructuring::Touple(List::Nil).text() =~= "()"@);
    let l = List::Cons(Box::new(d), Box::new(rest));
    assert(destructurings_texts(l) == seq![d.text()] + destructurings_texts(rest));
    lemma_join_cons(d.text(), destructurings_texts(rest), ", "@);
    let j = join(destructurings_texts(rest), ", "@);
    assert(Destructuring::Touple(rest).text() =~= "("@ + j + ")"@);
    assert(inside(Destructuring::Touple(rest).text()) =~= j);
    if rest is Cons {
        assert(destructurings_texts(rest).len() > 0);
    }
    assert(Destructuring::Touple(l).text() =~= "("@ + d.text() + (if rest is Cons {
        ", "@ + inside(Destructuring::Touple(rest).text())
    } else {
        Seq::empty()
    }) + ")"@);
    let jd = join(destructurings_texts(ds), ", "@);
    assert(Destructuring::Touple(ds).text() =~= "("@ + jd + ")"@);
    assert(inside(Destructuring::Touple(ds).text()) =~= jd);
    assert(struct_fields_texts(List::<LetStructField>::Nil) =~= Seq::<Seq<char>>::empty());
    assert(Destructuring::Struct(path, List::Nil).text() =~= path.text() + " {}"@);
    let lf = List::Cons(Box::new(f), Box::new(fs));
    assert(struct_fields_texts(lf) == seq![f.text()] + struct_fields_texts(fs));
    lemma_join_cons(f.text(), struct_fields_texts(fs), ", "@);
    let jf = join(struct_fields_texts(fs), ", "@);
    let s = Destructuring::Struct(path, fs).text();
    assert(s =~= path.text() + " {"@ + jf + "}"@);
    assert(s.subrange(path.text().len() + 2int, s.len() - 1) =~= jf);
    if fs is Cons {
        assert(struct_fields_texts(fs).len() > 0);
    }
    assert(Destructuring::Struct(path, lf).text() =~= path.text() + " {"@ + f.text() + (
    if fs is Cons {
        ", "@ + s.subrange(path.text().len() + 2int, s.len() - 1)
    } else {
        Seq::empty()
    }) + "}"@);
}

impl Destructuring {
    /// Parses the pattern of a `let` or a `for`.
    pub fn try_from(value: &mut Parser) -> (r: Result<Destructuring, ParserError>)
        ensures
            agrees(r, parse_destructuring(old(value)@).0),
            final(value)@ == parse_destructuring(old(value)@).1,
            suffix_of(final(value)@, old(value)@),
            r is Ok ==> final(value)@.len() < old(value)@.len(),
            named(r, "LetMatch"),
        decreases old(value)@.len(), 1nat,
    {
        let ghost before = value@;
        let next = value.pop_front_err("LetMatch")?;
        match next {
            Token::Identifier(name) => {
                if matches!(
                    value.first(),
                    Some(Token::CurlyOpen) | Some(Token::Keyword(Keywords::LeftArrow))
                ) {
                    value.push_front(Token::Identifier(name));
                    assert(value@ =~= before);
                    let ns = ctx(NamespacedType::try_from(value), "LetMatch")?;
                    value.pop_front();
                    let fields = take_destructuring_fields(value)?;
                    Ok(Destructuring::Struct(ns, fields))
                } else {
                    Ok(Destructuring::Variable(name))
                }
            },
            Token::AngleBracketOpen => {
                let l = take_destructuring_items(value, Token::AngleBracketClose)?;
                Ok(Destructuring::Touple(l))
            },
            Token::BracketOpen => {
                let l = take_destructuring_items(value, Token::BracketClose)?;
                Ok(Destructuring::Array(l))
            },
            Token::DoubleDot => Ok(Destructuring::Rest),
            Token::ParenOpen => {
                let d = ctx(Destructuring::try_from(value), "LetMatch")?;
                let t = value.pop_front_err("LetMatch")?;
                if !matches!(t, Token::ParenClose) {
                    return Err(ParserError::new("LetMatch", ParseFault::Unexpected(t)));
                }
                Ok(d)
            },
            t => Err(ParserError::new("LetMatch", ParseFault::Unexpected(t))),
        }
    }
}

fn take_destructuring_items(value: &mut Parser, close: Token) -> (r: Result<
    List<Destructuring>,
    ParserError,
>)
    requires
        close == Token::BracketClose || close == Token::AngleBracketClose,
    ensures
        agrees(r, destructuring_items(old(value)@, close).0),
        final(value)@ == destructuring_items(old(value)@, close).1,
        suffix_of(final(value)@, old(value)@),
        named(r, "LetMatch"),
    decreases old(value)@.len(), 2nat,
{
    let peek = value.first_err("LetMatch")?;
    let at_close = match close {
        Token::BracketClose => matches!(peek, Token::BracketClose),
        _ => matches!(peek, Token::AngleBracketClose),
    };
    if at_close {
        value.pop_front();
        return Ok(List::Nil);
    }
    let d = ctx(Destructuring::try_from(value), "LetMatch")?;
    let rest = take_destructuring_items(value, close)?;
    Ok(List::Cons(Box::new(d), Box::new(rest)))
}

fn take_destructuring_fields(value: &mut Parser) -> (r: Result<List<LetStructField>, ParserError>)
    ensures
        agrees(r, destructuring_fields(old(value)@).0),
        final(value)@ == destructuring_fields(old(value)@).1,
        suffix_of(final(value)@, old(value)@),
        named(r, "LetMatch"),
    decreases old(value)@.len(), 2nat,
{
    let peek = value.first_err("LetMatch")?;
    if matches!(peek, Token::CurlyClose) {
        value.pop_front();
        return Ok(List::Nil);
    }
    let f = ctx(LetStructField::try_from(value), "LetMatch")?;
    let rest = take_destructuring_fields(value)?;
    Ok(List::Cons(Box::new(f), Box::new(rest)))
}

impl LetStructField {
    /// Parses a field of a struct pattern in a `let`.
    pub fn try_from(value: &mut Parser) -> (r: Result<LetStructField, ParserError>)
        ensures
            agrees(r, parse_let_struct_field(old(value)@).0),
            final(value)@ == parse_let_struct_field(old(value)@).1,
            suffix_of(final(value)@, old(value)@),
            r is Ok ==> final(value)@.len() < old(value)@.len(),
            named(r, "LetStructField"),
        decreases old(value)@.len(), 1nat,
    {
        let next = value.pop_front_err("LetStructField")?;
        match next {
            Token::DoubleDot => Ok(LetStructField::Rest),
            Token::Identifier(name) => {
                if matches!(value.first(), Some(Token::Keyword(Keywords::LeftArrow))) {
                    value.pop_front();
                    let d = ctx(Destructuring::try_from(value), "LetStructField")?;
                    Ok(LetStructField::Named(name, Box::new(d)))
                } else {
                    Ok(LetStructField::Simple(name))
                }
            },
            t => Err(ParserError::new("LetStructField", ParseFault::Unexpected(t))),
        }
    }
}

impl Do {
    /// Parses a block: `(do stmt1 stmt2 ..)`.
    pub fn try_from(value: &mut Parser) -> (r: Result<Do, ParserError>)
        ensures
            agrees(r, parse_do(old(value)@).0),
            final(value)@ == parse_do(old(value)@).1,
            suffix_of(final(value)@, old(value)@),
            r is Ok ==> final(value)@.len() < old(value)@.len(),
            named(r, "Do"),
        decreases old(value)@.len(), 16nat,
    {
        let t = value.pop_front_err("Do")?;
        if !matches!(t, Token::ParenOpen) {
            return Err(ParserError::new("Do", ParseFault::Unexpected(t)));
        }
        let t = value.pop_front_err("Do")?;
        if !matches!(t, Token::Keyword(Keywords::Do)) {
            return Err(ParserError::new("Do", ParseFault::Unexpected(t)));
        }
        let l = take_do_actions(value)?;
        Ok(Do(l))
    }
}

fn take_do_actions(value: &mut Parser) -> (r: Result<List<DoActions>, ParserError>)
    ensures
        agrees(r, do_actions(old(value)@).0),
        final(value)@ == do_actions(old(value)@).1,
        suffix_of(final(value)@, old(value)@),
        named(r, "Do"),
    decreases old(value)@.len(), 23nat,
{
    let peek = value.first_err("Do")?;
    if matches!(peek, Token::ParenClose) {
        value.pop_front();
        return Ok(List::Nil);
    }
    let a = ctx(DoActions::try_from(value), "Do")?;
    let rest = take_do_actions(value)?;
    Ok(List::Cons(Box::new(a), Box::new(rest)))
}

fn take_exp_statement(value: &mut Parser) -> (r: Result<DoActions, ParserError>)
    ensures
        agrees(r, exp_statement(old(value)@).0),
        final(value)@ == exp_statement(old(value)@).1,
        suffix_of(final(value)@, old(value)@),
        r is Ok ==> final(value)@.len() < old(value)@.len(),
        named(r, "DoActions"),
    decreases old(value)@.len(), 21nat,
{
    let e = ctx(Exp::try_from(value), "DoActions")?;
    if matches!(value.first(), Some(Token::Char(';'))) {
        value.pop_front();
        Ok(DoActions::Semicolon(e))
    } else {
        Ok(DoActions::Ret(e))
    }
}

impl DoActions {
    /// Parses a statement of a block.
    pub fn try_from(value: &mut Parser) -> (r: Result<DoActions, ParserError>)
        ensures
            agrees(r, parse_do_action(old(value)@).0),
            final(value)@ == parse_do_action(old(value)@).1,
            suffix_of(final(value)@, old(value)@),
            r is Ok ==> final(value)@.len() < old(value)@.len(),
            named(r, "DoActions"),
        decreases old(value)@.len(), 22nat,
    {
        let first = value.first_err("DoActions")?;
        match first {
            Token::Char('#') => {
                let a = ctx(Attribute::try_from(value), "DoActions")?;
                Ok(DoActions::Attribute(a))
            },
            Token::Keyword(Keywords::Let) => {
                value.pop_front();
                let mutable = matches!(value.first(), Some(Token::Keyword(Keywords::Mut)));
                if mutable {
                    value.pop_front();
                }
                let pattern = take_pattern_list(value)?;
                let next = value.pop_front_err("DoActions")?;
                if !matches!(next, Token::Keyword(Keywords::RightArrow)) {
                    return Err(ParserError::new("DoActions", ParseFault::Unexpected(next)));
                }
                let e = ctx(Exp::try_from(value), "DoActions")?;
                Ok(DoActions::Let(mutable, pattern, e))
            },
            Token::Identifier(_) => {
                if matches!(value.nth(1), Some(Token::Keyword(Keywords::RightArrow))) {
                    let var = value.pop_ident("DoActions")?;
                    value.pop_front();
                    let e = ctx(Exp::try_from(value), "DoActions")?;
                    Ok(DoActions::Assignment(var, e))
                } else {
                    take_exp_statement(value)
                }
            },
            Token::Keyword(Keywords::If) => {
                value.pop_front();
                take_do_if(value)
            },
            Token::Keyword(Keywords::For) => {
                value.pop_front();
                let vals = take_pattern_list(value)?;
                let next = value.pop_front_err("DoActions")?;
                if !matches!(next, Token::Keyword(Keywords::RightArrow)) {
                    return Err(ParserError::new("DoActions", ParseFault::Unexpected(next)));
                }
                let iter = ctx(Exp::try_from(value), "DoActions")?;
                let body = ctx(DoActions::try_from(value), "DoActions")?;
                Ok(DoActions::For { vals, iter, body: Box::new(body) })
            },
            Token::Keyword(Keywords::Loop) => {
                value.pop_front();
                let body = ctx(DoActions::try_from(value), "DoActions")?;
                Ok(DoActions::Loop(Box::new(body)))
            },
            Token::Keyword(Keywords::While) => {
                value.pop_front();
                let c = ctx(Exp::try_from(value), "DoActions")?;
                let body = ctx(DoActions::try_from(value), "DoActions")?;
                Ok(DoActions::While(c, Box::new(body)))
            },
            Token::Keyword(Keywords::Type) => {
                let t = ctx(TypeAlias::try_from(value), "DoActions")?;
                Ok(DoActions::TypeAlias(t))
            },
            Token::Keyword(Keywords::Use) => {
                let u = ctx(Use::try_from(value), "DoActions")?;
                Ok(DoActions::Use(u))
            },
            Token::Keyword(Keywords::Break) => {
                value.pop_front();
                Ok(DoActions::Break)
            },
            Token::Keyword(Keywords::Continue) => {
                value.pop_front();
                Ok(DoActions::Continue)
            },
            Token::ParenOpen => {
                if matches!(
                    value.nth(1),
                    Some(
                        Token::Keyword(Keywords::If) | Token::Keyword(Keywords::For) | Token::Keyword(
                            Keywords::Loop,
                        ) | Token::Keyword(Keywords::While) | Token::Keyword(Keywords::Break)
                        | Token::Keyword(Keywords::Continue),
                    ),
                ) {
                    value.pop_front();
                    take_paren_action(value)
                } else if matches!(value.nth(1), Some(Token::Keyword(Keywords::Type))) {
                    let t = ctx(TypeAlias::try_from(value), "DoActions")?;
                    Ok(DoActions::TypeAlias(t))
                } else if matches!(value.nth(1), Some(Token::Keyword(Keywords::Use))) {
                    let u = ctx(Use::try_from(value), "DoActions")?;
                    Ok(DoActions::Use(u))
                } else {
                    take_exp_statement(value)
                }
            },
            _ => take_exp_statement(value),
        }
    }
}

fn take_do_if(value: &mut Parser) -> (r: Result<DoActions, ParserError>)
    ensures
        agrees(r, do_if(old(value)@).0),
        final(value)@ == do_if(old(value)@).1,
        suffix_of(final(value)@, old(value)@),
        named(r, "DoActions"),
    decreases old(value)@.len(), 21nat,
{
    let c = ctx(Exp::try_from(value), "DoActions")?;
    let t = ctx(DoActions::try_from(value), "DoActions")?;
    take_do_if_rest(value, c, t)
}

fn take_do_if_rest(value: &mut Parser, c: Exp, t: DoActions) -> (r: Result<DoActions, ParserError>)
    ensures
        agrees(r, do_if_rest(old(value)@, c, t).0),
        final(value)@ == do_if_rest(old(value)@, c, t).1,
        suffix_of(final(value)@, old(value)@),
        named(r, "DoActions"),
    decreases old(value)@.len(), 21nat,
{
    if matches!(value.first(), Some(Token::Keyword(Keywords::Elif))) {
        value.pop_front();
        let c2 = ctx(Exp::try_from(value), "DoActions")?;
        let b2 = ctx(DoActions::try_from(value), "DoActions")?;
        take_do_if_else(value, c, t, List::Cons(Box::new((c2, b2)), Box::new(List::Nil)))
    } else {
        take_do_if_else(value, c, t, List::Nil)
    }
}

fn take_do_if_else(value: &mut Parser, c: Exp, t: DoActions, elifs: List<(Exp, DoActions)>) -> (r:
Result<DoActions, ParserError>)
    ensures
        agrees(r, do_if_else(old(value)@, c, t, elifs).0),
        final(value)@ == do_if_else(old(value)@, c, t, elifs).1,
        suffix_of(final(value)@, old(value)@),
        named(r, "DoActions"),
    decreases old(value)@.len(), 20nat,
{
    if matches!(value.first(), Some(Token::Keyword(Keywords::Else))) {
        value.pop_front();
        let f = ctx(DoActions::try_from(value), "DoActions")?;
        Ok(
            DoActions::If {
                condition: c,
                true_branch: Box::new(t),
                elif_branch: elifs,
                false_branch: Some(Box::new(f)),
            },
        )
    } else {
        Ok(
            DoActions::If {
                condition: c,
                true_branch: Box::new(t),
                elif_branch: elifs,
                false_branch: None,
            },
        )
    }
}

// ---------------------------------------------------------------- rendering

/// The statements, each on a new line, one after another.
pub open spec fn actions_text(l: List<DoActions>) -> Seq<char>
    decreases l,
{
    match l {
        List::Nil => Seq::empty(),
        List::Cons(h, t) => "\n"@ + (*h).text() + actions_text(*t),
    }
}

/// Every one of the statements, each on a new line can be written.
pub open spec fn actions_printable(l: List<DoActions>) -> bool
    decreases l,
{
    match l {
        List::Nil => true,
        List::Cons(h, t) => (*h).printable() && actions_printable(*t),
    }
}

fn write_actions(l: &List<DoActions>, out: &mut String) -> (ok: bool)
    ensures
        ok == actions_printable(*l),
        ok ==> final(out)@ == old(out)@ + actions_text(*l),
    decreases l,
{
    let ghost start = out@;
    match l {
        List::Nil => {},
        List::Cons(h, t) => {
            out.append("\n");
            if !h.write_to(out) {
                return false;
            }
            if !write_actions(t, out) {
                return false;
            }
        },
    }
    assert(out@ =~= start + actions_text(*l));
    true
}

impl Do {
    /// The block in Rust source text: its statements, each on a new line, in braces.
    pub open spec fn text(self) -> Seq<char>
        decreases self,
    {
        "{"@ + actions_text(self.0) + "}"@
    }

    /// Every statement can be written.
    pub open spec fn printable(self) -> bool
        decreases self,
    {
        actions_printable(self.0)
    }

    /// Appends the Rust source text to `out`, and tells whether it could:
    /// `false` when a list that Rust needs non-empty is empty, and `out` then holds an unfinished text.
    pub fn write_to(&self, out: &mut String) -> (ok: bool)
        ensures
            ok == self.printable(),
            ok ==> final(out)@ == old(out)@ + self.text(),
        decreases self,
    {
        let ghost start = out@;
        out.append("{");
        if !write_actions(&self.0, out) {
            return false;
        }
        out.append("}");
        assert(out@ =~= start + self.text());
        true
    }

    /// The node in Rust source text.
    pub fn to_string(&self) -> (s: String)
        requires
            self.printable(),
        ensures
            s@ == self.text(),
    {
        let mut s = String::new();
        self.write_to(&mut s);
        s
    }
}

/// The further branches, each as ` else if cond {stmt}`, one after another.
pub open spec fn do_elifs_text(l: List<(Exp, DoActions)>) -> Seq<char>
    decreases l,
{
    match l {
        List::Nil => Seq::empty(),
        List::Cons(h, t) => " else if "@ + (*h).0.text() + " {"@ + (*h).1.text() + "}"@ + do_elifs_text(*t),
    }
}

/// Every one of the further branches, each as ` else if cond {stmt}` can be written.
pub open spec fn do_elifs_printable(l: List<(Exp, DoActions)>) -> bool
    decreases l,
{
    match l {
        List::Nil => true,
        List::Cons(h, t) => (*h).0.printable() && (*h).1.printable() && do_elifs_printable(*t),
    }
}

fn write_do_elifs(l: &List<(Exp, DoActions)>, out: &mut String) -> (ok: bool)
    ensures
        ok == do_elifs_printable(*l),
        ok ==> final(out)@ == old(out)@ + do_elifs_text(*l),
    decreases l,
{
    let ghost start = out@;
    match l {
        List::Nil => {},
        List::Cons(h, t) => {
            out.append(" else if ");
            if !h.0.write_to(out) {
                return false;
            }
            out.append(" {");
            if !h.1.write_to(out) {
                return false;
            }
            out.append("}");
            if !write_do_elifs(t, out) {
                return false;
            }
        },
    }
    assert(out@ =~= start + do_elifs_text(*l));
    true
}

/// The `elif` branches of a statement `if`: the first as `cond {stmt}`, right
/// after the first branch, and the others as ` else if cond {stmt}`.
pub open spec fn first_elifs_text(l: List<(Exp, DoActions)>) -> Seq<char>
    decreases l,
{
    match l {
        List::Nil => Seq::empty(),
        List::Cons(h, t) => (*h).0.text() + " {"@ + (*h).1.text() + "}"@ + do_elifs_text(*t),
    }
}

fn write_first_elifs(l: &List<(Exp, DoActions)>, out: &mut String) -> (ok: bool)
    ensures
        ok == do_elifs_printable(*l),
        ok ==> final(out)@ == old(out)@ + first_elifs_text(*l),
    decreases l,
{
    let ghost start = out@;
    match l {
        List::Nil => {},
        List::Cons(h, t) => {
            if !h.0.write_to(out) {
                return false;
            }
            out.append(" {");
            if !h.1.write_to(out) {
                return false;
            }
            out.append("}");
            if !write_do_elifs(t, out) {
                return false;
            }
        },
    }
    assert(out@ =~= start + first_elifs_text(*l));
    true
}

impl DoActions {
    /// The statement in Rust source text.
    pub open spec fn text(self) -> Seq<char>
        decreases self,
    {
        match self {
            DoActions::Let(mutable, pat, e) => "let"@ + (if mutable {
                " mut"@
            } else {
                Seq::empty()
            }) + " "@ + pat.text() + " = "@ + e.text() + ";"@,
            DoActions::Assignment(name, e) => name@ + " = "@ + e.text() + ";"@,
            DoActions::If { condition, true_branch, elif_branch, false_branch } => "{if "@
                + condition.text() + " {"@ + true_branch.text() + "}"@ + first_elifs_text(
                elif_branch,
            ) + match false_branch {
                Some(f) => " else {"@ + f.text() + "}"@,
                None => Seq::empty(),
            } + "}"@,
            DoActions::For { vals, iter, body } => "{for "@ + vals.text() + " in "@ + iter.text()
                + " {"@ + body.text() + "}};"@,
            DoActions::Loop(body) => "loop {"@ + body.text() + "}"@,
            DoActions::While(cond, body) => "while "@ + cond.text() + " {"@ + body.text() + "}"@,
            DoActions::TypeAlias(t) => t.text(),
            DoActions::Attribute(a) => a.text(),
            DoActions::Use(u) => u.text(),
            DoActions::Ret(e) => e.text(),
            DoActions::Semicolon(e) => e.text() + ";"@,
            DoActions::Break => "break;"@,
            DoActions::Continue => "continue;"@,
        }
    }

    /// Every part of the statement can be written.
    pub open spec fn printable(self) -> bool
        decreases self,
    {
        match self {
            DoActions::Let(_, pat, e) => pat.printable() && e.printable(),
            DoActions::Assignment(_, e) => e.printable(),
            DoActions::If { condition, true_branch, elif_branch, false_branch } => {
                &&& condition.printable()
                &&& true_branch.printable()
                &&& do_elifs_printable(elif_branch)
                &&& (false_branch matches Some(f) ==> f.printable())
            },
            DoActions::For { vals, iter, body } => vals.printable() && iter.printable()
                && body.printable(),
            DoActions::Loop(body) => body.printable(),
            DoActions::While(cond, body) => cond.printable() && body.printable(),
            DoActions::TypeAlias(t) => t.printable(),
            DoActions::Attribute(a) => a.printable(),
            DoActions::Use(_) => true,
            DoActions::Ret(e) => e.printable(),
            DoActions::Semicolon(e) => e.printable(),
            DoActions::Break => true,
            DoActions::Continue => true,
        }
    }

    /// Appends the Rust source text to `out`, and tells whether it could:
    /// `false` when a list that Rust needs non-empty is empty, and `out` then holds an unfinished text.
    pub fn write_to(&self, out: &mut String) -> (ok: bool)
        ensures
            ok == self.printable(),
            ok ==> final(out)@ == old(out)@ + self.text(),
        decreases self,
    {
        let ghost start = out@;
        match self {
            DoActions::Let(mutable, pat, e) => {
                out.append("let");
                if *mutable {
                    out.append(" mut");
                }
                out.append(" ");
                if !pat.write_to(out) {
                    return false;
                }
                out.append(" = ");
                if !e.write_to(out) {
                    return false;
                }
                out.append(";");
            },
            DoActions::Assignment(name, e) => {
                out.append(name.as_str());
                out.append(" = ");
                if !e.write_to(out) {
                    return false;
                }
                out.append(";");
            },
            DoActions::If { condition, true_branch, elif_branch, false_branch } => {
                out.append("{if ");
                if !condition.write_to(out) {
                    return false;
                }
                out.append(" {");
                if !true_branch.write_to(out) {
                    return false;
                }
                out.append("}");
                if !write_first_elifs(elif_branch, out) {
                    return false;
                }
                match false_branch {
                    Some(f) => {
                        out.append(" else {");
                        if !f.write_to(out) {
                            return false;
                        }
                        out.append("}");
                    },
                    None => {},
                }
                out.append("}");
            },
            DoActions::For { vals, iter, body } => {
                out.append("{for ");
                if !vals.write_to(out) {
                    return false;
                }
                out.append(" in ");
                if !iter.write_to(out) {
                    return false;
                }
                out.append(" {");
                if !body.write_to(out) {
                    return false;
                }
                out.append("}};");
            },
            DoActions::Loop(body) => {
                out.append("loop {");
                if !body.write_to(out) {
                    return false;
                }
                out.append("}");
            },
            DoActions::While(cond, body) => {
                out.append("while ");
                if !cond.write_to(out) {
                    return false;
                }
                out.append(" {");
                if !body.write_to(out) {
                    return false;
                }
                out.append("}");
            },
            DoActions::TypeAlias(t) => if !t.write_to(out) {
                return false;
            },
            DoActions::Attribute(a) => if !a.write_to(out) {
                return false;
            },
            DoActions::Use(u) => if !u.write_to(out) {
                return false;
            },
            DoActions::Ret(e) => if !e.write_to(out) {
                return false;
            },
            DoActions::Semicolon(e) => {
                if !e.write_to(out) {
                    return false;
                }
                out.append(";");
            },
            DoActions::Break => out.append("break;"),
            DoActions::Continue => out.append("continue;"),
        }
        assert(out@ =~= start + self.text());
        true
    }

    /// The node in Rust source text.
    pub fn to_string(&self) -> (s: String)
        requires
            self.printable(),
        ensures
            s@ == self.text(),
    {
        let mut s = String::new();
        self.write_to(&mut s);
        s
    }
}

impl Destructuring {
    /// The pattern in Rust source text.
    pub open spec fn text(self) -> Seq<char>
        decreases self,
    {
        match self {
            Destructuring::Touple(ds) => "("@ + join(destructurings_texts(ds), ", "@) + ")"@,
            Destructuring::Array(ds) => "["@ + join(destructurings_texts(ds), ", "@) + "]"@,
            Destructuring::Struct(path, fields) => path.text() + " {"@ + join(
                struct_fields_texts(fields),
                ", "@,
            ) + "}"@,
            Destructuring::Variable(v) => v@,
            Destructuring::Rest => ".."@,
        }
    }

    /// Every part of the pattern can be written.
    pub open spec fn printable(self) -> bool
        decreases self,
    {
        match self {
            Destructuring::Touple(ds) => destructurings_printable(ds),
            Destructuring::Array(ds) => destructurings_printable(ds),
            Destructuring::Struct(path, fields) => path.printable() && struct_fields_printable(
                fields,
            ),
            Destructuring::Variable(_) => true,
            Destructuring::Rest => true,
        }
    }

    /// Appends the Rust source text to `out`, and tells whether it could:
    /// `false` when a list that Rust needs non-empty is empty, and `out` then holds an unfinished text.
    pub fn write_to(&self, out: &mut String) -> (ok: bool)
        ensures
            ok == self.printable(),
            ok ==> final(out)@ == old(out)@ + self.text(),
        decreases self,
    {
        let ghost start = out@;
        match self {
            Destructuring::Touple(ds) => {
                out.append("(");
                if !write_destructurings(ds, ", ", out) {
                    return false;
                }
                out.append(")");
            },
            Destructuring::Array(ds) => {
                out.append("[");
                if !write_destructurings(ds, ", ", out) {
                    return false;
                }
                out.append("]");
            },
            Destructuring::Struct(path, fields) => {
                if !path.write_to(out) {
                    return false;
                }
                out.append(" {");
                if !write_struct_fields(fields, ", ", out) {
                    return false;
                }
                out.append("}");
            },
            Destructuring::Variable(v) => out.append(v.as_str()),
            Destructuring::Rest => out.append(".."),
        }
        assert(out@ =~= start + self.text());
        true
    }

    /// The node in Rust source text.
    pub fn to_string(&self) -> (s: String)
        requires
            self.printable(),
        ensures
            s@ == self.text(),
    {
        let mut s = String::new();
        self.write_to(&mut s);
        s
    }
}

/// The texts of the patterns, in order.
pub open spec fn destructurings_texts(l: List<Destructuring>) -> Seq<Seq<char>>
    decreases l,
{
    match l {
        List::Nil => Seq::empty(),
        List::Cons(h, t) => seq![(*h).text()] + destructurings_texts(*t),
    }
}

/// Every one of the patterns can be written.
pub open spec fn destructurings_printable(l: List<Destructuring>) -> bool
    decreases l,
{
    match l {
        List::Nil => true,
        List::Cons(h, t) => (*h).printable() && destructurings_printable(*t),
    }
}

/// Appends the patterns, with `sep` between neighbours.
pub(crate) fn write_destructurings(l: &List<Destructuring>, sep: &str, out: &mut String) -> (ok: bool)
    ensures
        ok == destructurings_printable(*l),
        ok ==> final(out)@ == old(out)@ + join(destructurings_texts(*l), sep@),
    decreases l,
{
    match l {
        List::Nil => {
            assert(out@ =~= old(out)@ + join(destructurings_texts(*l), sep@));
        },
        List::Cons(h, t) => {
            let ghost start = out@;
            if !h.write_to(out) {
                return false;
            }
            match &**t {
                List::Nil => {},
                List::Cons(_, _) => out.append(sep),
            }
            if !write_destructurings(t, sep, out) {
                return false;
            }
            proof {
                lemma_join_cons((*h).text(), destructurings_texts(**t), sep@);
                assert(out@ =~= start + join(destructurings_texts(*l), sep@));
            }
        },
    }
    true
}

impl LetStructField {
    /// The field in Rust source text: `name`, `name: pattern` or `..`.
    pub open spec fn text(self) -> Seq<char>
        decreases self,
    {
        match self {
            LetStructField::Simple(name) => name@,
            LetStructField::Named(name, d) => name@ + ": "@ + d.text(),
            LetStructField::Rest => ".."@,
        }
    }

    /// Its pattern, if any, can be written.
    pub open spec fn printable(self) -> bool
        decreases self,
    {
        match self {
            LetStructField::Named(_, d) => d.printable(),
            _ => true,
        }
    }

    /// Appends the Rust source text to `out`, and tells whether it could:
    /// `false` when a list that Rust needs non-empty is empty, and `out` then holds an unfinished text.
    pub fn write_to(&self, out: &mut String) -> (ok: bool)
        ensures
            ok == self.printable(),
            ok ==> final(out)@ == old(out)@ + self.text(),
        decreases self,
    {
        let ghost start = out@;
        match self {
            LetStructField::Simple(name) => out.append(name.as_str()),
            LetStructField::Named(name, d) => {
                out.append(name.as_str());
                out.append(": ");
                if !d.write_to(out) {
                    return false;
                }
            },
            LetStructField::Rest => out.append(".."),
        }
        assert(out@ =~= start + self.text());
        true
    }

    /// The node in Rust source text.
    pub fn to_string(&self) -> (s: String)
        requires
            self.printable(),
        ensures
            s@ == self.text(),
    {
        let mut s = String::new();
        self.write_to(&mut s);
        s
    }
}

/// The texts of the field patterns, in order.
pub open spec fn struct_fields_texts(l: List<LetStructField>) -> Seq<Seq<char>>
    decreases l,
{
    match l {
        List::Nil => Seq::empty(),
        List::Cons(h, t) => seq![(*h).text()] + struct_fields_texts(*t),
    }
}

/// Every one of the field patterns can be written.
pub open spec fn struct_fields_printable(l: List<LetStructField>) -> bool
    decreases l,
{
    match l {
        List::Nil => true,
        List::Cons(h, t) => (*h).printable() && struct_fields_printable(*t),
    }
}

/// Appends the field patterns, with `sep` between neighbours.
pub(crate) fn write_struct_fields(l: &List<LetStructField>, sep: &str, out: &mut String) -> (ok: bool)
    ensures
        ok == struct_fields_printable(*l),
        ok ==> final(out)@ == old(out)@ + join(struct_fields_texts(*l), sep@),
    decreases l,
{
    match l {
        List::Nil => {
            assert(out@ =~= old(out)@ + join(struct_fields_texts(*l), sep@));
        },
        List::Cons(h, t) => {
            let ghost start = out@;
            if !h.write_to(out) {
                return false;
            }
            match &**t {
                List::Nil => {},
                List::Cons(_, _) => out.append(sep),
            }
            if !write_struct_fields(t, sep, out) {
                return false;
            }
            proof {
                lemma_join_cons((*h).text(), struct_fields_texts(**t), sep@);
                assert(out@ =~= start + join(struct_fields_texts(*l), sep@));
            }
        },
    }
    true
}

} // verus!
