use vstd::prelude::*;

use crate::tokenizer::{Keywords, Token};

use super::args::{take_typed_prefix, typed_prefix};
use crate::text::{inside, join, lemma_join_cons};
use super::args::{typed_args_texts, ArgsTyped};
use super::file::File;
use super::structs::{generics_text, written_generics};

use super::file::{file_ops_printable, file_ops_texts, parse_file_op, write_file_ops, FileOps};
use super::list::List;
use super::turbofish::{parse_turbofish, TurboFish};
use super::types::{generics_texts, write_generics, Generic, Type};
use super::{
    agrees, named, at_is, ctx, ident, map_ok, pop, suffix_of, ParseFault, Parsed, Parser, ParserError,
    Problem,
};

verus! {

broadcast use super::lemma_suffix_trans;

/// An implementation block.
#[derive(Debug)]
pub enum Impl {
    /// `(impl Trait -> Type [items])`: the first name is the trait, implemented for the type after '->'.
    Trait {
        lifetimes: List<String>,
        generics: List<Generic>,
        of_trait: TypeName,
        for_type: TypeName,
        body: List<FileOps>,
    },
    /// `(impl Name [items])`
    Funcs { lifetimes: List<String>, generics: List<Generic>, for_type: TypeName, body: List<FileOps> },
}

/// The name of a type or trait: plain, or with a type argument.
#[derive(Debug)]
pub enum TypeName {
    Plain(String),
    Turbo(TurboFish),
}

/// TypeName => TurboFish | Identifier
pub open spec fn parse_type_name(ts: Seq<Token>) -> Parsed<TypeName> {
    if at_is(ts, 1, Token::Keyword(Keywords::TurboStart)) {
        map_ok(parse_turbofish(ts), |t: TurboFish| TypeName::Turbo(t))
    } else {
        map_ok(ident(ts), |n: String| TypeName::Plain(n))
    }
}

/// The items allowed in an `impl` or a trait: functions, imports, attributes, type aliases.
pub open spec fn impl_item(op: FileOps) -> bool {
    op is Use || op is Function || op is Attribute || op is TypeAlias
}

/// Items up to and with ']'; each must be a function, a `use` or an attribute.
pub open spec fn impl_items(ts: Seq<Token>) -> Parsed<List<FileOps>>
    decreases ts.len(), 9nat,
{
    if ts.len() == 0 {
        (Err(ParseFault::MoreTokens), ts)
    } else if ts[0] == Token::BracketClose {
        (Ok(List::Nil), ts.drop_first())
    } else {
        match parse_file_op(ts) {
            (Ok(op), r) => if !impl_item(op) {
                (Err(ParseFault::Invalid(Problem::NotAnImplItem)), r)
            } else if r.len() < ts.len() {
                map_ok(impl_items(r), |rest: List<FileOps>| List::Cons(Box::new(op), Box::new(rest)))
            } else {
                (Err(ParseFault::MoreTokens), r)
            },
            (Err(f), r) => (Err(f), r),
        }
    }
}

/// Impl => '(' 'impl' {Generic | '`' Identifier} TypeName ('->' TypeName)? '[' {FileOps} ']' ')'
pub open spec fn parse_impl(ts: Seq<Token>) -> Parsed<Impl>
    decreases ts.len(), 7nat,
{
    match pop(ts) {
        (Ok(Token::ParenOpen), r) => match pop(r) {
            (Ok(Token::Keyword(Keywords::Impl)), r1) => match typed_prefix(r1) {
                (Ok((lifetimes, generics)), r2) => match parse_type_name(r2) {
                    (Ok(name), r3) => if at_is(r3, 0, Token::Keyword(Keywords::LeftArrow)) {
                        match parse_type_name(r3.drop_first()) {
                            (Ok(t), r4) => if r4.len() < ts.len() {
                                impl_body(r4, lifetimes, generics, name, Some(t))
                            } else {
                                (Err(ParseFault::MoreTokens), r4)
                            },
                            (Err(f), r4) => (Err(f), r4),
                        }
                    } else if r3.len() < ts.len() {
                        impl_body(r3, lifetimes, generics, name, None)
                    } else {
                        (Err(ParseFault::MoreTokens), r3)
                    },
                    (Err(f), r3) => (Err(f), r3),
                },
                (Err(f), r2) => (Err(f), r2),
            },
            (Ok(x), r1) => (Err(ParseFault::Unexpected(x)), r1),
            (Err(f), r1) => (Err(f), r1),
        },
        (Ok(x), r) => (Err(ParseFault::Unexpected(x)), r),
        (Err(f), r) => (Err(f), r),
    }
}

/// '[' {FileOps} ']' ')', and the block: an impl of the trait `name` for
/// `for_type` when a type follows '->', else an impl on the type `name`.
pub open spec fn impl_body(
    ts: Seq<Token>,
    lifetimes: List<String>,
    generics: List<Generic>,
    name: TypeName,
    for_type: Option<TypeName>,
) -> Parsed<Impl>
    decreases ts.len(), 10nat,
{
    match pop(ts) {
        (Ok(Token::BracketOpen), r) => match impl_items(r) {
            (Ok(body), r1) => match pop(r1) {
                (Ok(Token::ParenClose), r2) => (
                    Ok(
                        match for_type {
                            Some(t) => Impl::Trait {
                                lifetimes,
                                generics,
                                of_trait: name,
                                for_type: t,
                                body,
                            },
                            None => Impl::Funcs { lifetimes, generics, for_type: name, body },
                        },
                    ),
                    r2,
                ),
                (Ok(x), r2) => (Err(ParseFault::Unexpected(x)), r2),
                (Err(f), r2) => (Err(f), r2),
            },
            (Err(f), r1) => (Err(f), r1),
        },
        (Ok(x), r) => (Err(ParseFault::Unexpected(x)), r),
        (Err(f), r) => (Err(f), r),
    }
}

impl TypeName {
    /// Parses `Name` or `Name<T>`.
    pub fn try_from(value: &mut Parser) -> (r: Result<TypeName, ParserError>)
        ensures
            agrees(r, parse_type_name(old(value)@).0),
            final(value)@ == parse_type_name(old(value)@).1,
            suffix_of(final(value)@, old(value)@),
            r is Ok ==> final(value)@.len() < old(value)@.len(),
            named(r, "Impl"),
    {
        if matches!(value.nth(1), Some(Token::Keyword(Keywords::TurboStart))) {
            let t = ctx(TurboFish::try_from(value), "Impl")?;
            Ok(TypeName::Turbo(t))
        } else {
            let n = value.pop_ident("Impl")?;
            Ok(TypeName::Plain(n))
        }
    }
}

pub(crate) fn take_impl_items(value: &mut Parser) -> (r: Result<List<FileOps>, ParserError>)
    ensures
        agrees(r, impl_items(old(value)@).0),
        final(value)@ == impl_items(old(value)@).1,
        suffix_of(final(value)@, old(value)@),
        named(r, "Impl"),
    decreases old(value)@.len(), 9nat,
{
    let peek = value.first_err("Impl")?;
    if matches!(peek, Token::BracketClose) {
        value.pop_front();
        return Ok(List::Nil);
    }
    let op = ctx(FileOps::try_from(value), "Impl")?;
    if !matches!(op, FileOps::Use(_) | FileOps::Function(_) | FileOps::Attribute(_) | FileOps::TypeAlias(_)) {
        return Err(ParserError::new("Impl", ParseFault::Invalid(Problem::NotAnImplItem)));
    }
    let rest = take_impl_items(value)?;
    Ok(List::Cons(Box::new(op), Box::new(rest)))
}

fn take_impl_body(
    value: &mut Parser,
    lifetimes: List<String>,
    generics: List<Generic>,
    name: TypeName,
    for_type: Option<TypeName>,
) -> (r: Result<Impl, ParserError>)
    ensures
        agrees(r, impl_body(old(value)@, lifetimes, generics, name, for_type).0),
        final(value)@ == impl_body(old(value)@, lifetimes, generics, name, for_type).1,
        suffix_of(final(value)@, old(value)@),
        r is Ok ==> final(value)@.len() < old(value)@.len(),
        named(r, "Impl"),
    decreases old(value)@.len(), 10nat,
{
    let t = value.pop_front_err("Impl")?;
    if !matches!(t, Token::BracketOpen) {
        return Err(ParserError::new("Impl", ParseFault::Unexpected(t)));
    }
    let body = take_impl_items(value)?;
    let t = value.pop_front_err("Impl")?;
    if !matches!(t, Token::ParenClose) {
        return Err(ParserError::new("Impl", ParseFault::Unexpected(t)));
    }
    match for_type {
        Some(t) => Ok(Impl::Trait { lifetimes, generics, of_trait: name, for_type: t, body }),
        None => Ok(Impl::Funcs { lifetimes, generics, for_type: name, body }),
    }
}

/// An `impl` is written `impl`, its parameters, a space, the trait and
/// ` for ` and the type (or the type alone), then its items as a file
/// writes them, in ` {..}`; a type name as itself. The parameters are
/// nothing when there are none, the generic parameters as a function
/// writes them when there are no lifetimes, and else `<`, each lifetime as
/// `'name` followed by `, `, then the rest as the parameters without that
/// lifetime write it between their brackets, then `>`.
pub proof fn lemma_impl_text(
    ls: List<String>,
    gs: List<Generic>,
    tr: TypeName,
    ty: TypeName,
    body: List<FileOps>,
    l: String,
    name: String,
    t: TurboFish,
)
    ensures
        (Impl::Trait { lifetimes: ls, generics: gs, of_trait: tr, for_type: ty, body }).text()
            == "impl"@ + impl_params_text(ls, gs) + " "@ + tr.text() + " for "@ + ty.text()
            + " {"@ + File(body).text() + "}"@,
        (Impl::Funcs { lifetimes: ls, generics: gs, for_type: ty, body }).text() == "impl"@
            + impl_params_text(ls, gs) + " "@ + ty.text() + " {"@ + File(body).text() + "}"@,
        impl_params_text(List::Nil, gs) == written_generics(gs),
        impl_params_text(List::Cons(Box::new(l), Box::new(ls)), gs) == "<'"@ + l@ + ", "@ + (
        if ls is Nil && gs is Nil {
            Seq::empty()
        } else {
            inside(impl_params_text(ls, gs))
        }) + ">"@,
        TypeName::Plain(name).text() == name@,
        TypeName::Turbo(t).text() == t.text(),
{
    reveal_strlit("<");
    reveal_strlit(">");
    reveal_strlit("'");
    reveal_strlit("<'");
    reveal_strlit("(");
    reveal_strlit(")");
    reveal_strlit("()");
    let at = ArgsTyped { lifetimes: List::Nil, generics: gs, selft: None, args: List::Nil };
    assert(typed_args_texts(List::<(String, Type)>::Nil) =~= Seq::<Seq<char>>::empty());
    assert(at.text() =~= generics_text(gs) + "()"@);
    assert(written_generics(gs) =~= generics_text(gs));
    assert(impl_params_text(List::Nil, gs) =~= generics_text(gs));
    let g = join(generics_texts(gs), ", "@);
    let lc = List::Cons(Box::new(l), Box::new(ls));
    assert(quoted_lifetimes_texts(lc) == seq!["'"@ + l@] + quoted_lifetimes_texts(ls));
    lemma_join_cons("'"@ + l@, quoted_lifetimes_texts(ls), ", "@);
    assert(quoted_lifetimes_texts(List::<String>::Nil) =~= Seq::<Seq<char>>::empty());
    if ls is Cons {
        assert(quoted_lifetimes_texts(ls).len() > 0);
        let p = impl_params_text(ls, gs);
        let jl = join(quoted_lifetimes_texts(ls), ", "@);
        assert(p =~= "<"@ + jl + ", "@ + g + ">"@);
        assert(inside(p) =~= jl + ", "@ + g);
    } else if gs is Cons {
        let p = impl_params_text(ls, gs);
        assert(p =~= "<"@ + g + ">"@);
        assert(inside(p) =~= g);
    }
    assert(impl_params_text(lc, gs) =~= "<'"@ + l@ + ", "@ + (if ls is Nil && gs is Nil {
        Seq::empty()
    } else {
        inside(impl_params_text(ls, gs))
    }) + ">"@);
}

impl Impl {
    /// Parses an implementation block.
    pub fn try_from(value: &mut Parser) -> (r: Result<Impl, ParserError>)
        ensures
            agrees(r, parse_impl(old(value)@).0),
            final(value)@ == parse_impl(old(value)@).1,
            suffix_of(final(value)@, old(value)@),
            r is Ok ==> final(value)@.len() < old(value)@.len(),
            named(r, "Impl"),
        decreases old(value)@.len(), 7nat,
    {
        let t = value.pop_front_err("Impl")?;
        if !matches!(t, Token::ParenOpen) {
            return Err(ParserError::new("Impl", ParseFault::Unexpected(t)));
        }
        let t = value.pop_front_err("Impl")?;
        if !matches!(t, Token::Keyword(Keywords::Impl)) {
            return Err(ParserError::new("Impl", ParseFault::Unexpected(t)));
        }
        let (lifetimes, generics) = ctx(take_typed_prefix(value), "Impl")?;
        let name = TypeName::try_from(value)?;
        if matches!(value.first(), Some(Token::Keyword(Keywords::LeftArrow))) {
            value.pop_front();
            let t = TypeName::try_from(value)?;
            take_impl_body(value, lifetimes, generics, name, Some(t))
        } else {
            take_impl_body(value, lifetimes, generics, name, None)
        }
    }
}

// ---------------------------------------------------------------- rendering

impl TypeName {
    /// The name in Rust source text.
    pub open spec fn text(self) -> Seq<char> {
        match self {
            TypeName::Plain(name) => name@,
            TypeName::Turbo(t) => t.text(),
        }
    }

    /// A type argument, if any, can be written.
    pub open spec fn printable(self) -> bool {
        match self {
            TypeName::Plain(_) => true,
            TypeName::Turbo(t) => t.printable(),
        }
    }

    /// Appends the Rust source text to `out`, and tells whether it could:
    /// `false` when a list that Rust needs non-empty is empty, and `out` then holds an unfinished text.
    pub fn write_to(&self, out: &mut String) -> (ok: bool)
        ensures
            ok == self.printable(),
            ok ==> final(out)@ == old(out)@ + self.text(),
    {
        match self {
            TypeName::Plain(name) => out.append(name.as_str()),
            TypeName::Turbo(t) => if !t.write_to(out) {
                return false;
            },
        }
        true
    }

    /// The name in Rust source text.
    pub fn to_string(&self) -> (s: String)
        requires
            self.printable(),
        ensures
            s@ == self.text(),
    {
        let mut s = String::new();
        self.write_to(&mut s);
        s
    }
}

/// The texts of the lifetimes, each as `'name`, in order.
pub open spec fn quoted_lifetimes_texts(l: List<String>) -> Seq<Seq<char>>
    decreases l,
{
    match l {
        List::Nil => Seq::empty(),
        List::Cons(h, t) => seq!["'"@ + (*h)@] + quoted_lifetimes_texts(*t),
    }
}

/// Appends the lifetimes, each as `'name`, with `sep` between neighbours.
pub(crate) fn write_quoted_lifetimes(l: &List<String>, sep: &str, out: &mut String) -> (ok: bool)
    ensures
        ok,
        final(out)@ == old(out)@ + join(quoted_lifetimes_texts(*l), sep@),
    decreases l,
{
    match l {
        List::Nil => {
            assert(out@ =~= old(out)@ + join(quoted_lifetimes_texts(*l), sep@));
        },
        List::Cons(h, t) => {
            let ghost start = out@;
            out.append("'");
            out.append(h.as_str());
            match &**t {
                List::Nil => {},
                List::Cons(_, _) => out.append(sep),
            }
            if !write_quoted_lifetimes(t, sep, out) {
                return false;
            }
            proof {
                lemma_join_cons("'"@ + (*h)@, quoted_lifetimes_texts(**t), sep@);
                assert(out@ =~= start + join(quoted_lifetimes_texts(*l), sep@));
            }
        },
    }
    true
}

/// The parameters of an impl in Rust source text: the lifetimes, then the
/// generic parameters, in angle brackets; nothing when there are neither.
pub open spec fn impl_params_text(lifetimes: List<String>, generics: List<Generic>) -> Seq<char> {
    if lifetimes is Nil && generics is Nil {
        Seq::empty()
    } else {
        let g = join(generics_texts(generics), ", "@);
        "<"@ + (if lifetimes is Nil {
            g
        } else {
            join(quoted_lifetimes_texts(lifetimes), ", "@) + ", "@ + g
        }) + ">"@
    }
}

fn write_impl_params(lifetimes: &List<String>, generics: &List<Generic>, out: &mut String) -> (ok: bool)
    ensures
        ok,
        final(out)@ == old(out)@ + impl_params_text(*lifetimes, *generics),
{
    let ghost start = out@;
    if !(lifetimes.is_empty() && generics.is_empty()) {
        out.append("<");
        if !lifetimes.is_empty() {
            if !write_quoted_lifetimes(lifetimes, ", ", out) {
                return false;
            }
            out.append(", ");
        }
        if !write_generics(generics, ", ", out) {
            return false;
        }
        out.append(">");
    }
    assert(out@ =~= start + impl_params_text(*lifetimes, *generics));
    true
}

impl Impl {
    /// The impl block in Rust source text, its items on lines of their own.
    pub open spec fn text(self) -> Seq<char>
        decreases self,
    {
        match self {
            Impl::Trait { lifetimes, generics, of_trait, for_type, body } => "impl"@
                + impl_params_text(lifetimes, generics) + " "@ + of_trait.text() + " for "@
                + for_type.text() + " {"@ + join(file_ops_texts(body), "\n"@) + "}"@,
            Impl::Funcs { lifetimes, generics, for_type, body } => "impl"@ + impl_params_text(
                lifetimes,
                generics,
            ) + " "@ + for_type.text() + " {"@ + join(file_ops_texts(body), "\n"@) + "}"@,
        }
    }

    /// The names and every item can be written.
    pub open spec fn printable(self) -> bool
        decreases self,
    {
        match self {
            Impl::Trait { of_trait, for_type, body, .. } => of_trait.printable()
                && for_type.printable() && file_ops_printable(body),
            Impl::Funcs { for_type, body, .. } => for_type.printable() && file_ops_printable(body),
        }
    }

    /// Appends the Rust source text to `out`, and tells whether it could:
    /// `false` when a list that Rust needs non-empty is empty, and `out` then holds an unfinished text.
    pub fn write_to(&self, out: &mut String) -> (ok: bool)
        ensures
            ok == self.printable(),
            ok ==> final(out)@ == old(out)@ + self.text(),
        decreases self,
    {
        let ghost start = out@;
        out.append("impl");
        match self {
            Impl::Trait { lifetimes, generics, of_trait, for_type, body } => {
                if !write_impl_params(lifetimes, generics, out) {
                    return false;
                }
                out.append(" ");
                if !of_trait.write_to(out) {
                    return false;
                }
                out.append(" for ");
                if !for_type.write_to(out) {
                    return false;
                }
                out.append(" {");
                if !write_file_ops(body, "\n", out) {
                    return false;
                }
                out.append("}");
            },
            Impl::Funcs { lifetimes, generics, for_type, body } => {
                if !write_impl_params(lifetimes, generics, out) {
                    return false;
                }
                out.append(" ");
                if !for_type.write_to(out) {
                    return false;
                }
                out.append(" {");
                if !write_file_ops(body, "\n", out) {
                    return false;
                }
                out.append("}");
            },
        }
        assert(out@ =~= start + self.text());
        true
    }

    /// The node in Rust source text.
    pub fn to_string(&self) -> (s: String)
        requires
            self.printable(),
        ensures
            s@ == self.text(),
    {
        let mut s = String::new();
        self.write_to(&mut s);
        s
    }
}

} // verus!
