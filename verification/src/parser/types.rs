use vstd::prelude::*;

use crate::tokenizer::{BuiltinTypes, Int, Keywords, Literals, Token};

use crate::text::{decimal, inside, join, lemma_join_cons, push_decimal};

use super::list::{names_text, write_names, List};
use super::turbofish::TurboIden;
use super::{agrees, named, ctx, str_eq, ident, pop, at_is, suffix_of, ParseFault, Parsed, Parser, ParserError};

verus! {

broadcast use super::lemma_suffix_trans;

/// A type.
#[derive(Debug)]
pub enum Type {
    Ref(Option<Lifetimes>, Box<Type>),
    RefMut(Option<Lifetimes>, Box<Type>),
    Builtin(BuiltinTypes),
    Generic(Generic),
    Custom(String),
    Complex(String, List<Type>),
    Array(Box<Type>, Option<usize>),
    Touple(List<Type>),
    /// A function type: the argument types and the result type.
    Function(List<Type>, Box<Type>),
    SelfA,
    SelfT,
}

/// The lifetimes of a reference: `&/a b/ T`.
#[derive(Debug)]
pub struct Lifetimes(pub List<String>);

/// A generic parameter, `:T` or `:T /Bound1 Bound2/`.
#[derive(Debug)]
pub enum Generic {
    Constrained { name: String, constraints: Constraints },
    Use(String),
}

/// The trait bounds of a generic parameter.
#[derive(Debug)]
pub struct Constraints(pub List<String>);

/// A path of names: `a->b->C`.
#[derive(Debug)]
pub enum NamespacedType {
    Space(TurboIden, Box<NamespacedType>),
    Str(TurboIden),
}

/// `(type Name T)` or `(type Name)`.
#[derive(Debug)]
pub enum TypeAlias {
    Alias { name: String, ty: Type },
    Def(String),
}

// ---------------------------------------------------------------- grammar

/// Constraints => '/' {Identifier} '/'
pub open spec fn parse_constraints(ts: Seq<Token>) -> Parsed<Constraints> {
    match pop(ts) {
        (Ok(Token::Slash), r) => match constraint_names(r) {
            (Ok(names), r1) => (Ok(Constraints(names)), r1),
            (Err(e), r1) => (Err(e), r1),
        },
        (Ok(t), r) => (Err(ParseFault::Unexpected(t)), r),
        (Err(e), r) => (Err(e), r),
    }
}

/// The names of a constraint list, up to and with its closing '/'.
pub open spec fn constraint_names(ts: Seq<Token>) -> Parsed<List<String>>
    decreases ts.len(),
{
    if ts.len() == 0 {
        (Err(ParseFault::MoreTokens), ts)
    } else {
        match ts[0] {
            Token::Slash => (Ok(List::Nil), ts.drop_first()),
            Token::Identifier(name) => match constraint_names(ts.drop_first()) {
                (Ok(rest), r) => (Ok(List::Cons(Box::new(name), Box::new(rest))), r),
                (Err(e), r) => (Err(e), r),
            },
            t => (Err(ParseFault::Unexpected(t)), ts.drop_first()),
        }
    }
}

/// Lifetimes => '/' {Identifier} '/'
pub open spec fn parse_lifetimes(ts: Seq<Token>) -> Parsed<Lifetimes> {
    match pop(ts) {
        (Ok(Token::Slash), r) => match lifetime_names(r) {
            (Ok(names), r1) => (Ok(Lifetimes(names)), r1),
            (Err(e), r1) => (Err(e), r1),
        },
        (Ok(t), r) => (Err(ParseFault::Unexpected(t)), r),
        (Err(e), r) => (Err(e), r),
    }
}

/// The names of a lifetime list, up to and with its closing '/'.
pub open spec fn lifetime_names(ts: Seq<Token>) -> Parsed<List<String>>
    decreases ts.len(),
{
    if ts.len() == 0 {
        (Err(ParseFault::MoreTokens), ts)
    } else if ts[0] == Token::Slash {
        (Ok(List::Nil), ts.drop_first())
    } else {
        match ident(ts) {
            (Ok(name), r) => match lifetime_names(r) {
                (Ok(rest), r1) => (Ok(List::Cons(Box::new(name), Box::new(rest))), r1),
                (Err(e), r1) => (Err(e), r1),
            },
            (Err(e), r) => (Err(e), r),
        }
    }
}

/// Generic => ':' Identifier Constraints?
pub open spec fn parse_generic(ts: Seq<Token>) -> Parsed<Generic> {
    match pop(ts) {
        (Ok(Token::Char(':')), r) => match ident(r) {
            (Ok(name), r1) => if at_is(r1, 0, Token::Slash) {
                match parse_constraints(r1) {
                    (Ok(c), r2) => (Ok(Generic::Constrained { name, constraints: c }), r2),
                    (Err(e), r2) => (Err(e), r2),
                }
            } else {
                (Ok(Generic::Use(name)), r1)
            },
            (Err(e), r1) => (Err(e), r1),
        },
        (Ok(t), r) => (Err(ParseFault::Unexpected(t)), r),
        (Err(e), r) => (Err(e), r),
    }
}

/// Type => '&' Lifetimes? 'mut'? Type | builtin | Generic | Identifier
///       | '[' Type (']' | ';' int ']') | '<' {Type} '>' | '(' Identifier {Type} ')'
///       | '(' FunctionType
/// A builtin type token reads as that type, and a name as a named type
/// (`self` and `Self` as themselves), each taking just that token.
pub proof fn lemma_simple_type_tokens(r: Seq<Token>, b: BuiltinTypes, name: String)
    ensures
        parse_type(seq![Token::Type(b)] + r) == (Ok::<Type, ParseFault>(Type::Builtin(b)), r),
        name@ != "self"@ && name@ != "Self"@ ==> parse_type(seq![Token::Identifier(name)] + r) == (
            Ok::<Type, ParseFault>(Type::Custom(name)),
            r,
        ),
        name@ == "self"@ ==> parse_type(seq![Token::Identifier(name)] + r) == (
            Ok::<Type, ParseFault>(Type::SelfA),
            r,
        ),
        name@ == "Self"@ ==> parse_type(seq![Token::Identifier(name)] + r) == (
            Ok::<Type, ParseFault>(Type::SelfT),
            r,
        ),
{
    reveal_strlit("self");
    reveal_strlit("Self");
    assert((seq![Token::Type(b)] + r).drop_first() =~= r);
    assert((seq![Token::Identifier(name)] + r).drop_first() =~= r);
    assert("Self"@[0] != "self"@[0]);
}

pub open spec fn parse_type(ts: Seq<Token>) -> Parsed<Type>
    decreases ts.len(), 2nat,
{
    if ts.len() == 0 {
        (Err(ParseFault::MoreTokens), ts)
    } else {
        let r = ts.drop_first();
        match ts[0] {
            Token::Ref => ref_type(r),
            Token::Type(b) => (Ok(Type::Builtin(b)), r),
            Token::Char(':') => match parse_generic(ts) {
                (Ok(g), r1) => (Ok(Type::Generic(g)), r1),
                (Err(e), r1) => (Err(e), r1),
            },
            Token::Identifier(name) => if name@ == "self"@ {
                (Ok(Type::SelfA), r)
            } else if name@ == "Self"@ {
                (Ok(Type::SelfT), r)
            } else {
                (Ok(Type::Custom(name)), r)
            },
            Token::BracketOpen => array_type(r),
            Token::AngleBracketOpen => match angle_types(r) {
                (Ok(l), r1) => (Ok(Type::Touple(l)), r1),
                (Err(e), r1) => (Err(e), r1),
            },
            Token::ParenOpen => if is_function_type(r) {
                fn_type(r)
            } else {
                match ident(r) {
                (Ok(name), r1) => if r1.len() < ts.len() {
                    match paren_types(r1) {
                        (Ok(l), r2) => (Ok(Type::Complex(name, l)), r2),
                        (Err(e), r2) => (Err(e), r2),
                    }
                } else {
                    (Err(ParseFault::MoreTokens), r1)
                },
                (Err(e), r1) => (Err(e), r1),
                }
            },
            t => (Err(ParseFault::Unexpected(t)), r),
        }
    }
}

/// After '(': a function type follows, not a generic type `(Name T ..)`:
/// the argument types in parentheses, or a single argument type that is no
/// plain name or is followed by '->'.
pub open spec fn is_function_type(r: Seq<Token>) -> bool {
    r.len() > 0 && (!(r[0] is Identifier) || at_is(r, 1, Token::Keyword(Keywords::LeftArrow)))
}

/// FunctionType (after its '(') => ('(' {Type} ')' | Type) '->' Type ')'
pub open spec fn fn_type(ts: Seq<Token>) -> Parsed<Type>
    decreases ts.len(), 4nat,
{
    let args = if at_is(ts, 0, Token::ParenOpen) {
        paren_types(ts.drop_first())
    } else {
        match parse_type(ts) {
            (Ok(t), r) => (Ok(List::Cons(Box::new(t), Box::new(List::Nil))), r),
            (Err(e), r) => (Err(e), r),
        }
    };
    match args {
        (Ok(l), r) => match pop(r) {
            (Ok(Token::Keyword(Keywords::LeftArrow)), r1) => if r1.len() < ts.len() {
                match parse_type(r1) {
                    (Ok(ret), r2) => match pop(r2) {
                        (Ok(Token::ParenClose), r3) => (Ok(Type::Function(l, Box::new(ret))), r3),
                        (Ok(x), r3) => (Err(ParseFault::Unexpected(x)), r3),
                        (Err(e), r3) => (Err(e), r3),
                    },
                    (Err(e), r2) => (Err(e), r2),
                }
            } else {
                (Err(ParseFault::MoreTokens), r1)
            },
            (Ok(x), r1) => (Err(ParseFault::Unexpected(x)), r1),
            (Err(e), r1) => (Err(e), r1),
        },
        (Err(e), r) => (Err(e), r),
    }
}

fn take_fn_type(value: &mut Parser) -> (r: Result<Type, ParserError>)
    ensures
        agrees(r, fn_type(old(value)@).0),
        final(value)@ == fn_type(old(value)@).1,
        suffix_of(final(value)@, old(value)@),
        named(r, "Type"),
    decreases old(value)@.len(), 4nat,
{
    let args = if matches!(value.first(), Some(Token::ParenOpen)) {
        value.pop_front();
        take_paren_types(value)?
    } else {
        let t = ctx(Type::try_from(value), "Type")?;
        List::Cons(Box::new(t), Box::new(List::Nil))
    };
    let t = value.pop_front_err("Type")?;
    if !matches!(t, Token::Keyword(Keywords::LeftArrow)) {
        return Err(ParserError::new("Type", ParseFault::Unexpected(t)));
    }
    let ret = ctx(Type::try_from(value), "Type")?;
    let t = value.pop_front_err("Type")?;
    if !matches!(t, Token::ParenClose) {
        return Err(ParserError::new("Type", ParseFault::Unexpected(t)));
    }
    Ok(Type::Function(args, Box::new(ret)))
}

/// The rest of a reference type, after its '&'.
pub open spec fn ref_type(r: Seq<Token>) -> Parsed<Type>
    decreases r.len(), 3nat,
{
    if at_is(r, 0, Token::Slash) {
        match parse_lifetimes(r) {
            (Ok(l), r1) => if r1.len() < r.len() {
                if at_is(r1, 0, Token::Keyword(Keywords::Mut)) {
                    match parse_type(r1.drop_first()) {
                        (Ok(t), r2) => (Ok(Type::RefMut(Some(l), Box::new(t))), r2),
                        (Err(e), r2) => (Err(e), r2),
                    }
                } else {
                    match parse_type(r1) {
                        (Ok(t), r2) => (Ok(Type::Ref(Some(l), Box::new(t))), r2),
                        (Err(e), r2) => (Err(e), r2),
                    }
                }
            } else {
                (Err(ParseFault::MoreTokens), r1)
            },
            (Err(e), r1) => (Err(e), r1),
        }
    } else if at_is(r, 0, Token::Keyword(Keywords::Mut)) {
        match parse_type(r.drop_first()) {
            (Ok(t), r2) => (Ok(Type::RefMut(None, Box::new(t))), r2),
            (Err(e), r2) => (Err(e), r2),
        }
    } else {
        match parse_type(r) {
            (Ok(t), r2) => (Ok(Type::Ref(None, Box::new(t))), r2),
            (Err(e), r2) => (Err(e), r2),
        }
    }
}

/// The rest of an array type, after its '['.
pub open spec fn array_type(r: Seq<Token>) -> Parsed<Type>
    decreases r.len(), 3nat,
{
    match parse_type(r) {
        (Ok(t), r1) => match pop(r1) {
            (Ok(Token::BracketClose), r2) => (Ok(Type::Array(Box::new(t), None)), r2),
            (Ok(Token::Char(';')), r2) => match pop(r2) {
                (Ok(Token::Literal(Literals::Int(Int(false, n)))), r3) => match pop(r3) {
                    (Ok(Token::BracketClose), r4) => (
                        Ok(Type::Array(Box::new(t), Some(n as usize))),
                        r4,
                    ),
                    (Ok(x), r4) => (Err(ParseFault::Unexpected(x)), r4),
                    (Err(e), r4) => (Err(e), r4),
                },
                (Ok(x), r3) => (Err(ParseFault::Unexpected(x)), r3),
                (Err(e), r3) => (Err(e), r3),
            },
            (Ok(x), r2) => (Err(ParseFault::Unexpected(x)), r2),
            (Err(e), r2) => (Err(e), r2),
        },
        (Err(e), r1) => (Err(e), r1),
    }
}

/// The element types of a tuple type, up to and with the closing '>'.
pub open spec fn angle_types(ts: Seq<Token>) -> Parsed<List<Type>>
    decreases ts.len(), 3nat,
{
    if ts.len() == 0 {
        (Err(ParseFault::MoreTokens), ts)
    } else if ts[0] == Token::AngleBracketClose {
        (Ok(List::Nil), ts.drop_first())
    } else {
        match parse_type(ts) {
            (Ok(t), r) => if r.len() < ts.len() {
                match angle_types(r) {
                    (Ok(rest), r1) => (Ok(List::Cons(Box::new(t), Box::new(rest))), r1),
                    (Err(e), r1) => (Err(e), r1),
                }
            } else {
                (Err(ParseFault::MoreTokens), r)
            },
            (Err(e), r) => (Err(e), r),
        }
    }
}

/// The parameter types of a generic type, up to and with the closing ')'.
pub open spec fn paren_types(ts: Seq<Token>) -> Parsed<List<Type>>
    decreases ts.len(), 3nat,
{
    if at_is(ts, 0, Token::ParenClose) {
        (Ok(List::Nil), ts.drop_first())
    } else {
        match parse_type(ts) {
            (Ok(t), r) => if r.len() < ts.len() {
                match paren_types(r) {
                    (Ok(rest), r1) => (Ok(List::Cons(Box::new(t), Box::new(rest))), r1),
                    (Err(e), r1) => (Err(e), r1),
                }
            } else {
                (Err(ParseFault::MoreTokens), r)
            },
            (Err(e), r) => (Err(e), r),
        }
    }
}

/// NamespacedType => TurboIden ('->' NamespacedType)?
pub open spec fn parse_namespaced(ts: Seq<Token>) -> Parsed<NamespacedType>
    decreases ts.len(),
{
    match super::turbofish::parse_turbo_iden(ts) {
        (Ok(name), r) => if at_is(r, 0, Token::Keyword(Keywords::LeftArrow)) && r.len()
            <= ts.len() {
            match parse_namespaced(r.drop_first()) {
                (Ok(rest), r1) => (Ok(NamespacedType::Space(name, Box::new(rest))), r1),
                (Err(e), r1) => (Err(e), r1),
            }
        } else {
            (Ok(NamespacedType::Str(name)), r)
        },
        (Err(e), r) => (Err(e), r),
    }
}

/// TypeAlias => '(' 'type' Identifier Type? ')'
pub open spec fn parse_type_alias(ts: Seq<Token>) -> Parsed<TypeAlias> {
    match pop(ts) {
        (Ok(Token::ParenOpen), r) => match pop(r) {
            (Ok(Token::Keyword(Keywords::Type)), r1) => match ident(r1) {
                (Ok(name), r2) => if at_is(r2, 0, Token::ParenClose) {
                    (Ok(TypeAlias::Def(name)), r2.drop_first())
                } else {
                    match parse_type(r2) {
                        (Ok(t), r3) => match pop(r3) {
                            (Ok(Token::ParenClose), r4) => (
                                Ok(TypeAlias::Alias { name, ty: t }),
                                r4,
                            ),
                            (Ok(x), r4) => (Err(ParseFault::Unexpected(x)), r4),
                            (Err(e), r4) => (Err(e), r4),
                        },
                        (Err(e), r3) => (Err(e), r3),
                    }
                },
                (Err(e), r2) => (Err(e), r2),
            },
            (Ok(x), r1) => (Err(ParseFault::Unexpected(x)), r1),
            (Err(e), r1) => (Err(e), r1),
        },
        (Ok(x), r) => (Err(ParseFault::Unexpected(x)), r),
        (Err(e), r) => (Err(e), r),
    }
}

// ---------------------------------------------------------------- parsing

impl Constraints {
    /// Parses trait bounds: `/Bound1 Bound2/`.
    pub fn try_from(value: &mut Parser) -> (r: Result<Constraints, ParserError>)
        ensures
            agrees(r, parse_constraints(old(value)@).0),
            final(value)@ == parse_constraints(old(value)@).1,
            suffix_of(final(value)@, old(value)@),
            r is Ok ==> final(value)@.len() < old(value)@.len(),
            named(r, "Constraints"),
    {
        let t = value.pop_front_err("Constraints")?;
        if !matches!(t, Token::Slash) {
            return Err(ParserError::new("Constraints", ParseFault::Unexpected(t)));
        }
        let names = take_constraint_names(value)?;
        Ok(Constraints(names))
    }
}

fn take_constraint_names(value: &mut Parser) -> (r: Result<List<String>, ParserError>)
    ensures
        agrees(r, constraint_names(old(value)@).0),
        final(value)@ == constraint_names(old(value)@).1,
        suffix_of(final(value)@, old(value)@),
        named(r, "Constraints"),
    decreases old(value)@.len(),
{
    let t = value.pop_front_err("Constraints")?;
    match t {
        Token::Slash => Ok(List::Nil),
        Token::Identifier(name) => {
            let rest = take_constraint_names(value)?;
            Ok(List::Cons(Box::new(name), Box::new(rest)))
        },
        t => Err(ParserError::new("Constraints", ParseFault::Unexpected(t))),
    }
}

impl Lifetimes {
    /// Parses the lifetimes of a reference: `/a b/`.
    pub fn try_from(value: &mut Parser) -> (r: Result<Lifetimes, ParserError>)
        ensures
            agrees(r, parse_lifetimes(old(value)@).0),
            final(value)@ == parse_lifetimes(old(value)@).1,
            suffix_of(final(value)@, old(value)@),
            r is Ok ==> final(value)@.len() < old(value)@.len(),
            named(r, "Lifetimes"),
    {
        let t = value.pop_front_err("Lifetimes")?;
        if !matches!(t, Token::Slash) {
            return Err(ParserError::new("Lifetimes", ParseFault::Unexpected(t)));
        }
        let names = take_lifetime_names(value)?;
        Ok(Lifetimes(names))
    }
}

fn take_lifetime_names(value: &mut Parser) -> (r: Result<List<String>, ParserError>)
    ensures
        agrees(r, lifetime_names(old(value)@).0),
        final(value)@ == lifetime_names(old(value)@).1,
        suffix_of(final(value)@, old(value)@),
        named(r, "Lifetimes"),
    decreases old(value)@.len(),
{
    let peek = value.first_err("Lifetimes")?;
    if matches!(peek, Token::Slash) {
        value.pop_front();
        return Ok(List::Nil);
    }
    let name = value.pop_ident("Lifetimes")?;
    let rest = take_lifetime_names(value)?;
    Ok(List::Cons(Box::new(name), Box::new(rest)))
}

impl Generic {
    /// Parses a generic parameter: `:T` or `:T /Bounds/`.
    pub fn try_from(value: &mut Parser) -> (r: Result<Generic, ParserError>)
        ensures
            agrees(r, parse_generic(old(value)@).0),
            final(value)@ == parse_generic(old(value)@).1,
            suffix_of(final(value)@, old(value)@),
            r is Ok ==> final(value)@.len() < old(value)@.len(),
            named(r, "Generic"),
    {
        let t = value.pop_front_err("Generic")?;
        if !matches!(t, Token::Char(':')) {
            return Err(ParserError::new("Generic", ParseFault::Unexpected(t)));
        }
        let name = value.pop_ident("Generic")?;
        if matches!(value.first(), Some(Token::Slash)) {
            let constraints = ctx(Constraints::try_from(value), "Generic")?;
            Ok(Generic::Constrained { name, constraints })
        } else {
            Ok(Generic::Use(name))
        }
    }
}

impl Type {
    /// Parses a type.
    pub fn try_from(value: &mut Parser) -> (r: Result<Type, ParserError>)
        ensures
            agrees(r, parse_type(old(value)@).0),
            final(value)@ == parse_type(old(value)@).1,
            suffix_of(final(value)@, old(value)@),
            r is Ok ==> final(value)@.len() < old(value)@.len(),
            named(r, "Type"),
        decreases old(value)@.len(), 2nat,
    {
        let t = value.pop_front_err("Type")?;
        match t {
            Token::Ref => take_ref_type(value),
            Token::Type(b) => Ok(Type::Builtin(b)),
            Token::Char(':') => {
                value.push_front(Token::Char(':'));
                assert(value@ =~= old(value)@);
                let g = ctx(Generic::try_from(value), "Type")?;
                Ok(Type::Generic(g))
            },
            Token::Identifier(name) => {
                if str_eq(name.as_str(), "self") {
                    Ok(Type::SelfA)
                } else if str_eq(name.as_str(), "Self") {
                    Ok(Type::SelfT)
                } else {
                    Ok(Type::Custom(name))
                }
            },
            Token::BracketOpen => take_array_type(value),
            Token::AngleBracketOpen => {
                let types = take_angle_types(value)?;
                Ok(Type::Touple(types))
            },
            Token::ParenOpen => {
                let function = match value.first() {
                    Some(Token::Identifier(_)) => matches!(
                        value.nth(1),
                        Some(Token::Keyword(Keywords::LeftArrow)),
                    ),
                    Some(_) => true,
                    None => false,
                };
                if function {
                    return take_fn_type(value);
                }
                let name = value.pop_ident("Type")?;
                let types = take_paren_types(value)?;
                Ok(Type::Complex(name, types))
            },
            t => Err(ParserError::new("Type", ParseFault::Unexpected(t))),
        }
    }
}

fn take_ref_type(value: &mut Parser) -> (r: Result<Type, ParserError>)
    ensures
        agrees(r, ref_type(old(value)@).0),
        final(value)@ == ref_type(old(value)@).1,
        suffix_of(final(value)@, old(value)@),
        named(r, "Type"),
    decreases old(value)@.len(), 3nat,
{
    if matches!(value.first(), Some(Token::Slash)) {
        let l = ctx(Lifetimes::try_from(value), "Type")?;
        if matches!(value.first(), Some(Token::Keyword(Keywords::Mut))) {
            value.pop_front();
            let inner = ctx(Type::try_from(value), "Type")?;
            Ok(Type::RefMut(Some(l), Box::new(inner)))
        } else {
            let inner = ctx(Type::try_from(value), "Type")?;
            Ok(Type::Ref(Some(l), Box::new(inner)))
        }
    } else if matches!(value.first(), Some(Token::Keyword(Keywords::Mut))) {
        value.pop_front();
        let inner = ctx(Type::try_from(value), "Type")?;
        Ok(Type::RefMut(None, Box::new(inner)))
    } else {
        let inner = ctx(Type::try_from(value), "Type")?;
        Ok(Type::Ref(None, Box::new(inner)))
    }
}

fn take_array_type(value: &mut Parser) -> (r: Result<Type, ParserError>)
    ensures
        agrees(r, array_type(old(value)@).0),
        final(value)@ == array_type(old(value)@).1,
        suffix_of(final(value)@, old(value)@),
        named(r, "Type"),
    decreases old(value)@.len(), 3nat,
{
    let inner = ctx(Type::try_from(value), "Type")?;
    let t = value.pop_front_err("Type")?;
    match t {
        Token::BracketClose => Ok(Type::Array(Box::new(inner), None)),
        Token::Char(';') => {
            let n = value.pop_front_err("Type")?;
            match n {
                Token::Literal(Literals::Int(Int(false, len))) => {
                    let t = value.pop_front_err("Type")?;
                    match t {
                        Token::BracketClose => Ok(Type::Array(Box::new(inner), Some(len as usize))),
                        t => Err(ParserError::new("Type", ParseFault::Unexpected(t))),
                    }
                },
                n => Err(ParserError::new("Type", ParseFault::Unexpected(n))),
            }
        },
        t => Err(ParserError::new("Type", ParseFault::Unexpected(t))),
    }
}

fn take_angle_types(value: &mut Parser) -> (r: Result<List<Type>, ParserError>)
    ensures
        agrees(r, angle_types(old(value)@).0),
        final(value)@ == angle_types(old(value)@).1,
        suffix_of(final(value)@, old(value)@),
        named(r, "Type"),
    decreases old(value)@.len(), 3nat,
{
    let peek = value.first_err("Type")?;
    if matches!(peek, Token::AngleBracketClose) {
        value.pop_front();
        return Ok(List::Nil);
    }
    let t = ctx(Type::try_from(value), "Type")?;
    let rest = take_angle_types(value)?;
    Ok(List::Cons(Box::new(t), Box::new(rest)))
}

pub(crate) fn take_paren_types(value: &mut Parser) -> (r: Result<List<Type>, ParserError>)
    ensures
        agrees(r, paren_types(old(value)@).0),
        final(value)@ == paren_types(old(value)@).1,
        suffix_of(final(value)@, old(value)@),
        named(r, "Type"),
    decreases old(value)@.len(), 3nat,
{
    if matches!(value.first(), Some(Token::ParenClose)) {
        value.pop_front();
        return Ok(List::Nil);
    }
    let t = ctx(Type::try_from(value), "Type")?;
    let rest = take_paren_types(value)?;
    Ok(List::Cons(Box::new(t), Box::new(rest)))
}

impl NamespacedType {
    /// Parses a path of names: `a->b->C`.
    pub fn try_from(value: &mut Parser) -> (r: Result<NamespacedType, ParserError>)
        ensures
            agrees(r, parse_namespaced(old(value)@).0),
            final(value)@ == parse_namespaced(old(value)@).1,
            suffix_of(final(value)@, old(value)@),
            r is Ok ==> final(value)@.len() < old(value)@.len(),
            named(r, "NamespacedType"),
        decreases old(value)@.len(),
    {
        let name = ctx(TurboIden::try_from(value), "NamespacedType")?;
        if matches!(value.first(), Some(Token::Keyword(Keywords::LeftArrow))) {
            value.pop_front();
            let rest = ctx(NamespacedType::try_from(value), "NamespacedType")?;
            Ok(NamespacedType::Space(name, Box::new(rest)))
        } else {
            Ok(NamespacedType::Str(name))
        }
    }
}

impl TypeAlias {
    /// Parses a type alias: `(type Name T)` or `(type Name)`.
    pub fn try_from(value: &mut Parser) -> (r: Result<TypeAlias, ParserError>)
        ensures
            agrees(r, parse_type_alias(old(value)@).0),
            final(value)@ == parse_type_alias(old(value)@).1,
            suffix_of(final(value)@, old(value)@),
            r is Ok ==> final(value)@.len() < old(value)@.len(),
            named(r, "TypeAlias"),
    {
        let t = value.pop_front_err("TypeAlias")?;
        if !matches!(t, Token::ParenOpen) {
            return Err(ParserError::new("TypeAlias", ParseFault::Unexpected(t)));
        }
        let t = value.pop_front_err("TypeAlias")?;
        if !matches!(t, Token::Keyword(Keywords::Type)) {
            return Err(ParserError::new("TypeAlias", ParseFault::Unexpected(t)));
        }
        let name = value.pop_ident("TypeAlias")?;
        if matches!(value.first(), Some(Token::ParenClose)) {
            value.pop_front();
            return Ok(TypeAlias::Def(name));
        }
        let ty = ctx(Type::try_from(value), "TypeAlias")?;
        let t = value.pop_front_err("TypeAlias")?;
        if !matches!(t, Token::ParenClose) {
            return Err(ParserError::new("TypeAlias", ParseFault::Unexpected(t)));
        }
        Ok(TypeAlias::Alias { name, ty })
    }
}

// ---------------------------------------------------------------- rendering

/// How each type is written: `&` (with its lifetimes) or `&mut ` in front
/// of a reference's type, a builtin type, a generic parameter and a name as
/// themselves, an array in brackets with `; ` before its length, `Self`
/// and `self`; a tuple in parentheses with `, ` between its types (`()`
/// when there is none), a generic type as its name and the same list
/// between `<` and `>`, a function type as `fn`, the same list in
/// parentheses, ` -> ` and the result.
pub proof fn lemma_type_text(
    t: Type,
    u: Type,
    rest: List<Type>,
    ts: List<Type>,
    l: Lifetimes,
    b: BuiltinTypes,
    g: Generic,
    name: String,
    len: usize,
)
    ensures
        Type::Ref(None, Box::new(t)).text() == "&"@ + t.text(),
        Type::Ref(Some(l), Box::new(t)).text() == "&"@ + l.text() + t.text(),
        Type::RefMut(None, Box::new(t)).text() == "&mut "@ + t.text(),
        Type::RefMut(Some(l), Box::new(t)).text() == "&"@ + l.text() + "mut "@ + t.text(),
        Type::Builtin(b).text() == b.text(),
        Type::Generic(g).text() == g.text(),
        Type::Custom(name).text() == name@,
        Type::Array(Box::new(t), None).text() == "["@ + t.text() + "]"@,
        Type::Array(Box::new(t), Some(len)).text() == "["@ + t.text() + "; "@ + decimal(len as nat)
            + "]"@,
        Type::SelfT.text() == "Self"@,
        Type::SelfA.text() == "self"@,
        Type::Touple(List::Nil).text() == "()"@,
        Type::Touple(List::Cons(Box::new(u), Box::new(rest))).text() == "("@ + u.text() + (
        if rest is Cons {
            ", "@ + inside(Type::Touple(rest).text())
        } else {
            Seq::empty()
        }) + ")"@,
        Type::Complex(name, ts).text() == name@ + "<"@ + inside(Type::Touple(ts).text()) + ">"@,
        Type::Function(ts, Box::new(t)).text() == "fn"@ + Type::Touple(ts).text() + " -> "@
            + t.text(),
{
    reveal_strlit("(");
    reveal_strlit(")");
    reveal_strlit("()");
    reveal_strlit("fn");
    reveal_strlit("fn(");
    reveal_strlit(") -> ");
    reveal_strlit(" -> ");
    assert(types_texts(List::<Type>::Nil) =~= Seq::<Seq<char>>::empty());
    assert(Type::Touple(List::Nil).text() =~= "()"@);
    let lc = List::Cons(Box::new(u), Box::new(rest));
    assert(types_texts(lc) == seq![u.text()] + types_texts(rest));
    lemma_join_cons(u.text(), types_texts(rest), ", "@);
    let j = join(types_texts(rest), ", "@);
    assert(Type::Touple(rest).text() =~= "("@ + j + ")"@);
    assert(inside(Type::Touple(rest).text()) =~= j);
    if rest is Cons {
        assert(types_texts(rest).len() > 0);
    }
    assert(Type::Touple(lc).text() =~= "("@ + u.text() + (if rest is Cons {
        ", "@ + inside(Type::Touple(rest).text())
    } else {
        Seq::empty()
    }) + ")"@);
    let jt = join(types_texts(ts), ", "@);
    assert(Type::Touple(ts).text() =~= "("@ + jt + ")"@);
    assert(inside(Type::Touple(ts).text()) =~= jt);
    assert(Type::Complex(name, ts).text() =~= name@ + "<"@ + inside(Type::Touple(ts).text())
        + ">"@);
    assert(Type::Function(ts, Box::new(t)).text() =~= "fn"@ + Type::Touple(ts).text() + " -> "@
        + t.text());
}

/// Lifetimes are written each as `'`, the name and a space, one after
/// another; a path as its first part, `::` and the rest; a type alias as
/// `type `, the name, ` = ` and the type (or nothing more), then `;`.
pub proof fn lemma_lifetimes_paths_aliases_text(
    a: String,
    rest: List<String>,
    p: TurboIden,
    q: NamespacedType,
    t: Type,
)
    ensures
        Lifetimes(List::Nil).text() == Seq::<char>::empty(),
        Lifetimes(List::Cons(Box::new(a), Box::new(rest))).text() == "'"@ + a@ + " "@
            + Lifetimes(rest).text(),
        NamespacedType::Str(p).text() == p.text(),
        NamespacedType::Space(p, Box::new(q)).text() == p.text() + "::"@ + q.text(),
        (TypeAlias::Alias { name: a, ty: t }).text() == "type "@ + a@ + " = "@ + t.text() + ";"@,
        TypeAlias::Def(a).text() == "type "@ + a@ + ";"@,
{
}

impl Type {
    /// The type in Rust source text.
    pub open spec fn text(self) -> Seq<char>
        decreases self,
    {
        match self {
            Type::Ref(None, t) => "&"@ + t.text(),
            Type::Ref(Some(l), t) => "&"@ + l.text() + t.text(),
            Type::RefMut(None, t) => "&mut "@ + t.text(),
            Type::RefMut(Some(l), t) => "&"@ + l.text() + "mut "@ + t.text(),
            Type::Builtin(b) => b.text(),
            Type::Generic(g) => g.text(),
            Type::Custom(name) => name@,
            Type::Complex(name, ts) => name@ + "<"@ + join(types_texts(ts), ", "@) + ">"@,
            Type::Array(t, None) => "["@ + t.text() + "]"@,
            Type::Array(t, Some(len)) => "["@ + t.text() + "; "@ + decimal(len as nat) + "]"@,
            Type::Touple(ts) => "("@ + join(types_texts(ts), ", "@) + ")"@,
            Type::Function(args, ret) => "fn("@ + join(types_texts(args), ", "@) + ") -> "@ + ret.text(),
            Type::SelfT => "Self"@,
            Type::SelfA => "self"@,
        }
    }

    /// The type can be written: a generic type names at least one argument.
    pub open spec fn printable(self) -> bool
        decreases self,
    {
        match self {
            Type::Ref(_, t) => t.printable(),
            Type::RefMut(_, t) => t.printable(),
            Type::Complex(_, ts) => ts is Cons && types_printable(ts),
            Type::Array(t, _) => t.printable(),
            Type::Touple(ts) => types_printable(ts),
            Type::Function(args, ret) => types_printable(args) && ret.printable(),
            _ => true,
        }
    }

    /// Appends the Rust source text to `out`, and tells whether it could:
    /// `false` when a list that Rust needs non-empty is empty, and `out` then holds an unfinished text.
    pub fn write_to(&self, out: &mut String) -> (ok: bool)
        ensures
            ok == self.printable(),
            ok ==> final(out)@ == old(out)@ + self.text(),
        decreases self,
    {
        let ghost start = out@;
        match self {
            Type::Ref(l, t) => {
                out.append("&");
                match l {
                    Some(l) => if !l.write_to(out) {
                        return false;
                    },
                    None => {},
                }
                if !t.write_to(out) {
                    return false;
                }
            },
            Type::RefMut(l, t) => {
                match l {
                    Some(l) => {
                        out.append("&");
                        if !l.write_to(out) {
                            return false;
                        }
                        out.append("mut ");
                    },
                    None => out.append("&mut "),
                }
                if !t.write_to(out) {
                    return false;
                }
            },
            Type::Builtin(b) => if !b.write_to(out) {
                return false;
            },
            Type::Generic(g) => if !g.write_to(out) {
                return false;
            },
            Type::Custom(name) => out.append(name.as_str()),
            Type::Complex(name, ts) => {
                if ts.is_empty() {
                    return false;
                }
                out.append(name.as_str());
                out.append("<");
                if !write_types(ts, ", ", out) {
                    return false;
                }
                out.append(">");
            },
            Type::Array(t, len) => {
                out.append("[");
                if !t.write_to(out) {
                    return false;
                }
                match len {
                    Some(n) => {
                        out.append("; ");
                        push_decimal(out, *n as u128);
                    },
                    None => {},
                }
                out.append("]");
            },
            Type::Touple(ts) => {
                out.append("(");
                if !write_types(ts, ", ", out) {
                    return false;
                }
                out.append(")");
            },
            Type::Function(args, ret) => {
                out.append("fn(");
                if !write_types(args, ", ", out) {
                    return false;
                }
                out.append(") -> ");
                if !ret.write_to(out) {
                    return false;
                }
            },
            Type::SelfT => out.append("Self"),
            Type::SelfA => out.append("self"),
        }
        assert(out@ =~= start + self.text());
        true
    }

    /// The type in Rust source text.
    pub fn to_string(&self) -> (s: String)
        requires
            self.printable(),
        ensures
            s@ == self.text(),
    {
        let mut s = String::new();
        self.write_to(&mut s);
        s
    }
}

/// The texts of the types, in order.
pub open spec fn types_texts(l: List<Type>) -> Seq<Seq<char>>
    decreases l,
{
    match l {
        List::Nil => Seq::empty(),
        List::Cons(h, t) => seq![(*h).text()] + types_texts(*t),
    }
}

/// Every one of the types can be written.
pub open spec fn types_printable(l: List<Type>) -> bool
    decreases l,
{
    match l {
        List::Nil => true,
        List::Cons(h, t) => (*h).printable() && types_printable(*t),
    }
}

/// Appends the types, with `sep` between neighbours.
pub(crate) fn write_types(l: &List<Type>, sep: &str, out: &mut String) -> (ok: bool)
    ensures
        ok == types_printable(*l),
        ok ==> final(out)@ == old(out)@ + join(types_texts(*l), sep@),
    decreases l,
{
    match l {
        List::Nil => {
            assert(out@ =~= old(out)@ + join(types_texts(*l), sep@));
        },
        List::Cons(h, t) => {
            let ghost start = out@;
            if !h.write_to(out) {
                return false;
            }
            match &**t {
                List::Nil => {},
                List::Cons(_, _) => out.append(sep),
            }
            if !write_types(t, sep, out) {
                return false;
            }
            proof {
                lemma_join_cons((*h).text(), types_texts(**t), sep@);
                assert(out@ =~= start + join(types_texts(*l), sep@));
            }
        },
    }
    true
}

/// The lifetimes, each as `'name ` with a space after it.
pub open spec fn lifetimes_text(l: List<String>) -> Seq<char>
    decreases l,
{
    match l {
        List::Nil => Seq::empty(),
        List::Cons(h, t) => "'"@ + (*h)@ + " "@ + lifetimes_text(*t),
    }
}

fn write_lifetimes(l: &List<String>, out: &mut String) -> (ok: bool)
    ensures
        ok,
        final(out)@ == old(out)@ + lifetimes_text(*l),
    decreases l,
{
    let ghost start = out@;
    match l {
        List::Nil => {},
        List::Cons(h, t) => {
            out.append("'");
            out.append(h.as_str());
            out.append(" ");
            if !write_lifetimes(t, out) {
                return false;
            }
        },
    }
    assert(out@ =~= start + lifetimes_text(*l));
    true
}

impl Lifetimes {
    /// The lifetimes in Rust source text.
    pub open spec fn text(self) -> Seq<char> {
        lifetimes_text(self.0)
    }

    /// Appends the Rust source text to `out`; this always succeeds.
    pub fn write_to(&self, out: &mut String) -> (ok: bool)
        ensures
            ok,
            final(out)@ == old(out)@ + self.text(),
    {
        if !write_lifetimes(&self.0, out) {
            return false;
        }
        true
    }

    /// The lifetimes in Rust source text.
    pub fn to_string(&self) -> (s: String)
        ensures
            s@ == self.text(),
    {
        let mut s = String::new();
        self.write_to(&mut s);
        s
    }
}

impl Generic {
    /// The generic parameter in Rust source text.
    pub open spec fn text(self) -> Seq<char> {
        match self {
            Generic::Constrained { name, constraints } => name@ + ": "@ + constraints.text(),
            Generic::Use(name) => name@,
        }
    }

    /// Appends the Rust source text to `out`; this always succeeds.
    pub fn write_to(&self, out: &mut String) -> (ok: bool)
        ensures
            ok,
            final(out)@ == old(out)@ + self.text(),
    {
        let ghost start = out@;
        match self {
            Generic::Constrained { name, constraints } => {
                out.append(name.as_str());
                out.append(": ");
                if !constraints.write_to(out) {
                    return false;
                }
            },
            Generic::Use(name) => out.append(name.as_str()),
        }
        assert(out@ =~= start + self.text());
        true
    }

    /// The generic parameter in Rust source text.
    pub fn to_string(&self) -> (s: String)
        ensures
            s@ == self.text(),
    {
        let mut s = String::new();
        self.write_to(&mut s);
        s
    }
}

/// The texts of the generic parameters, in order.
pub open spec fn generics_texts(l: List<Generic>) -> Seq<Seq<char>>
    decreases l,
{
    match l {
        List::Nil => Seq::empty(),
        List::Cons(h, t) => seq![(*h).text()] + generics_texts(*t),
    }
}

/// Appends the generic parameters, with `sep` between neighbours.
pub(crate) fn write_generics(l: &List<Generic>, sep: &str, out: &mut String) -> (ok: bool)
    ensures
        ok,
        final(out)@ == old(out)@ + join(generics_texts(*l), sep@),
    decreases l,
{
    match l {
        List::Nil => {
            assert(out@ =~= old(out)@ + join(generics_texts(*l), sep@));
        },
        List::Cons(h, t) => {
            let ghost start = out@;
            if !h.write_to(out) {
                return false;
            }
            match &**t {
                List::Nil => {},
                List::Cons(_, _) => out.append(sep),
            }
            if !write_generics(t, sep, out) {
                return false;
            }
            proof {
                lemma_join_cons((*h).text(), generics_texts(**t), sep@);
                assert(out@ =~= start + join(generics_texts(*l), sep@));
            }
        },
    }
    true
}

/// A generic parameter is written as its name, followed, when it has bounds,
/// by `: ` and its bounds.
pub proof fn lemma_generic_text(name: String, c: Constraints)
    ensures
        Generic::Use(name).text() == name@,
        (Generic::Constrained { name, constraints: c }).text() == name@ + ": "@ + c.text(),
{
}

/// Bounds are written one after another with ` + ` between neighbours: none
/// gives no text, one gives its name, and more give the first name, ` + `
/// and the others.
pub proof fn lemma_constraints_text(a: String, rest: List<String>)
    ensures
        Constraints(List::Nil).text() == Seq::<char>::empty(),
        Constraints(List::Cons(Box::new(a), Box::new(List::Nil))).text() == a@,
        rest is Cons ==> Constraints(List::Cons(Box::new(a), Box::new(rest))).text() == a@
            + " + "@ + Constraints(rest).text(),
{
    let one = List::Cons(Box::new(a), Box::new(List::<String>::Nil));
    assert(names_text(List::<String>::Nil) =~= Seq::<Seq<char>>::empty());
    assert(names_text(one) =~= seq![a@] + Seq::<Seq<char>>::empty());
    lemma_join_cons(a@, Seq::<Seq<char>>::empty(), " + "@);
    let l = List::Cons(Box::new(a), Box::new(rest));
    assert(names_text(l) == seq![a@] + names_text(rest));
    lemma_join_cons(a@, names_text(rest), " + "@);
    if rest is Cons {
        assert(names_text(rest).len() > 0);
    }
}

impl Constraints {
    /// The bounds, joined by ` + `.
    pub open spec fn text(self) -> Seq<char> {
        join(names_text(self.0), " + "@)
    }

    /// Appends the Rust source text to `out`; this always succeeds.
    pub fn write_to(&self, out: &mut String) -> (ok: bool)
        ensures
            ok,
            final(out)@ == old(out)@ + self.text(),
    {
        if !write_names(&self.0, " + ", out) {
            return false;
        }
        true
    }

    /// The bounds in Rust source text.
    pub fn to_string(&self) -> (s: String)
        ensures
            s@ == self.text(),
    {
        let mut s = String::new();
        self.write_to(&mut s);
        s
    }
}

impl NamespacedType {
    /// The path in Rust source text, its parts joined by `::`.
    pub open spec fn text(self) -> Seq<char>
        decreases self,
    {
        match self {
            NamespacedType::Space(name, rest) => name.text() + "::"@ + rest.text(),
            NamespacedType::Str(name) => name.text(),
        }
    }

    /// Every part of the path can be written.
    pub open spec fn printable(self) -> bool
        decreases self,
    {
        match self {
            NamespacedType::Space(name, rest) => name.printable() && rest.printable(),
            NamespacedType::Str(name) => name.printable(),
        }
    }

    /// Appends the Rust source text to `out`, and tells whether it could:
    /// `false` when a list that Rust needs non-empty is empty, and `out` then holds an unfinished text.
    pub fn write_to(&self, out: &mut String) -> (ok: bool)
        ensures
            ok == self.printable(),
            ok ==> final(out)@ == old(out)@ + self.text(),
        decreases self,
    {
        let ghost start = out@;
        match self {
            NamespacedType::Space(name, rest) => {
                if !name.write_to(out) {
                    return false;
                }
                out.append("::");
                if !rest.write_to(out) {
                    return false;
                }
            },
            NamespacedType::Str(name) => if !name.write_to(out) {
                return false;
            },
        }
        assert(out@ =~= start + self.text());
        true
    }

    /// The path in Rust source text.
    pub fn to_string(&self) -> (s: String)
        requires
            self.printable(),
        ensures
            s@ == self.text(),
    {
        let mut s = String::new();
        self.write_to(&mut s);
        s
    }
}

impl TypeAlias {
    /// The alias in Rust source text.
    pub open spec fn text(self) -> Seq<char> {
        match self {
            TypeAlias::Alias { name, ty } => "type "@ + name@ + " = "@ + ty.text() + ";"@,
            TypeAlias::Def(name) => "type "@ + name@ + ";"@,
        }
    }

    /// The aliased type can be written.
    pub open spec fn printable(self) -> bool {
        match self {
            TypeAlias::Alias { ty, .. } => ty.printable(),
            TypeAlias::Def(_) => true,
        }
    }

    /// Appends the Rust source text to `out`, and tells whether it could:
    /// `false` when a list that Rust needs non-empty is empty, and `out` then holds an unfinished text.
    pub fn write_to(&self, out: &mut String) -> (ok: bool)
        ensures
            ok == self.printable(),
            ok ==> final(out)@ == old(out)@ + self.text(),
    {
        let ghost start = out@;
        out.append("type ");
        match self {
            TypeAlias::Alias { name, ty } => {
                out.append(name.as_str());
                out.append(" = ");
                if !ty.write_to(out) {
                    return false;
                }
            },
            TypeAlias::Def(name) => out.append(name.as_str()),
        }
        out.append(";");
        assert(out@ =~= start + self.text());
        true
    }

    /// The alias in Rust source text.
    pub fn to_string(&self) -> (s: String)
        requires
            self.printable(),
        ensures
            s@ == self.text(),
    {
        let mut s = String::new();
        self.write_to(&mut s);
        s
    }
}

} // verus!
