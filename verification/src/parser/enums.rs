use vstd::prelude::*;

use crate::tokenizer::{Keywords, Token};

use super::attribute::{parse_attribute, Attribute};
use crate::text::{join, lemma_join_cons};
use super::args::{typed_args_texts, ArgsTyped};

use super::list::List;
use super::structs::{
    generics_list, generics_text, parse_struct_fields, take_generics_list, write_generics_list,
    written_generics, StructFields,
};
use super::types::{
    paren_types, take_paren_types, types_printable, types_texts, write_types, Generic, Type,
};
use super::{agrees, named, at_is, ctx, ident, map_ok, pop, suffix_of, ParseFault, Parsed, Parser, ParserError};

verus! {

broadcast use super::lemma_suffix_trans;

/// An enum: `(enum Name :T Variant ..)`.
#[derive(Debug)]
pub struct Enum {
    pub name: String,
    pub generics: List<Generic>,
    pub variants: List<Variant>,
}

/// A variant of an enum.
#[derive(Debug)]
pub enum Variant {
    /// `Name` or `(Name)`
    Simple(String),
    /// `(Name Type ..)`
    WithType(String, List<Type>),
    /// `(Name { field->Type .. })`
    Struct(String, StructFields),
    /// An attribute on a variant.
    Attr(Attribute, Box<Variant>),
}

/// Enum => '(' 'enum' Identifier {Generic} {Variant} ')'
pub open spec fn parse_enum(ts: Seq<Token>) -> Parsed<Enum> {
    match pop(ts) {
        (Ok(Token::ParenOpen), r) => match pop(r) {
            (Ok(Token::Keyword(Keywords::Enum)), r1) => match ident(r1) {
                (Ok(name), r2) => match generics_list(r2) {
                    (Ok(generics), r3) => map_ok(
                        variant_list(r3),
                        |variants: List<Variant>| Enum { name, generics, variants },
                    ),
                    (Err(f), r3) => (Err(f), r3),
                },
                (Err(f), r2) => (Err(f), r2),
            },
            (Ok(x), r1) => (Err(ParseFault::Unexpected(x)), r1),
            (Err(f), r1) => (Err(f), r1),
        },
        (Ok(x), r) => (Err(ParseFault::Unexpected(x)), r),
        (Err(f), r) => (Err(f), r),
    }
}

/// Variants up to and with ')'.
pub open spec fn variant_list(ts: Seq<Token>) -> Parsed<List<Variant>>
    decreases ts.len(), 1nat,
{
    if ts.len() == 0 {
        (Err(ParseFault::MoreTokens), ts)
    } else if ts[0] == Token::ParenClose {
        (Ok(List::Nil), ts.drop_first())
    } else {
        match parse_variant(ts) {
            (Ok(v), r) => if r.len() < ts.len() {
                map_ok(variant_list(r), |rest: List<Variant>| List::Cons(Box::new(v), Box::new(rest)))
            } else {
                (Err(ParseFault::MoreTokens), r)
            },
            (Err(f), r) => (Err(f), r),
        }
    }
}

/// Variant => Attribute Variant | Identifier | '(' Identifier (')' | StructFields ')' | {Type} ')')
pub open spec fn parse_variant(ts: Seq<Token>) -> Parsed<Variant>
    decreases ts.len(), 0nat,
{
    if at_is(ts, 0, Token::Char('#')) {
        match parse_attribute(ts) {
            (Ok(a), r) => if r.len() < ts.len() {
                map_ok(parse_variant(r), |v: Variant| Variant::Attr(a, Box::new(v)))
            } else {
                (Err(ParseFault::MoreTokens), r)
            },
            (Err(f), r) => (Err(f), r),
        }
    } else {
        match pop(ts) {
            (Ok(Token::Identifier(name)), r) => (Ok(Variant::Simple(name)), r),
            (Ok(Token::ParenOpen), r) => match ident(r) {
                (Ok(name), r1) => if r1.len() == 0 {
                    (Err(ParseFault::MoreTokens), r1)
                } else if r1[0] == Token::ParenClose {
                    (Ok(Variant::Simple(name)), r1.drop_first())
                } else if r1[0] == Token::CurlyOpen {
                    match parse_struct_fields(r1) {
                        (Ok(fields), r2) => match pop(r2) {
                            (Ok(Token::ParenClose), r3) => (Ok(Variant::Struct(name, fields)), r3),
                            (Ok(x), r3) => (Err(ParseFault::Unexpected(x)), r3),
                            (Err(f), r3) => (Err(f), r3),
                        },
                        (Err(f), r2) => (Err(f), r2),
                    }
                } else {
                    map_ok(paren_types(r1), |types: List<Type>| Variant::WithType(name, types))
                },
                (Err(f), r1) => (Err(f), r1),
            },
            (Ok(x), r) => (Err(ParseFault::Unexpected(x)), r),
            (Err(f), r) => (Err(f), r),
        }
    }
}

/// An enum is written `enum `, its name, its generic parameters as a
/// function writes them, and its variants in ` {..}` with `, ` between
/// neighbours (the ones after the first as the enum that holds only them);
/// a variant as its name, followed by its types as a tuple type, or a space
/// and its fields; an attribute in front of a variant on a line of its own.
pub proof fn lemma_enum_text(
    name: String,
    gs: List<Generic>,
    v: Variant,
    rest: List<Variant>,
    types: List<Type>,
    fields: StructFields,
    a: Attribute,
)
    ensures
        (Enum { name, generics: gs, variants: List::Nil }).text() == "enum "@ + name@
            + written_generics(gs) + " {}"@,
        (Enum { name, generics: gs, variants: List::Cons(Box::new(v), Box::new(rest)) }).text()
            == "enum "@ + name@ + written_generics(gs) + " {"@ + v.text() + (if rest is Cons {
            ", "@ + (Enum { name, generics: gs, variants: rest }).text().subrange(
                (Enum { name, generics: gs, variants: List::Nil }).text().len() - 1,
                (Enum { name, generics: gs, variants: rest }).text().len() - 1,
            )
        } else {
            Seq::empty()
        }) + "}"@,
        Variant::Simple(name).text() == name@,
        Variant::WithType(name, types).text() == name@ + Type::Touple(types).text(),
        Variant::Struct(name, fields).text() == name@ + " "@ + fields.text(),
        Variant::Attr(a, Box::new(v)).text() == a.text() + "\n"@ + v.text(),
{
    reveal_strlit("(");
    reveal_strlit(")");
    reveal_strlit("()");
    reveal_strlit(" {");
    reveal_strlit("}");
    reveal_strlit(" {}");
    reveal_strlit("<");
    reveal_strlit(">");
    let at = ArgsTyped { lifetimes: List::Nil, generics: gs, selft: None, args: List::Nil };
    assert(typed_args_texts(List::<(String, Type)>::Nil) =~= Seq::<Seq<char>>::empty());
    assert(at.text() =~= generics_text(gs) + "()"@);
    assert(written_generics(gs) =~= generics_text(gs));
    let pre = "enum "@ + name@ + generics_text(gs) + " {"@;
    assert(variants_texts(List::<Variant>::Nil) =~= Seq::<Seq<char>>::empty());
    let e0 = Enum { name, generics: gs, variants: List::Nil };
    assert(e0.text() =~= pre + "}"@);
    assert(e0.text() =~= "enum "@ + name@ + written_generics(gs) + " {}"@);
    let l = List::Cons(Box::new(v), Box::new(rest));
    assert(variants_texts(l) == seq![v.text()] + variants_texts(rest));
    lemma_join_cons(v.text(), variants_texts(rest), ", "@);
    let j = join(variants_texts(rest), ", "@);
    let er = Enum { name, generics: gs, variants: rest };
    assert(er.text() =~= pre + j + "}"@);
    assert(er.text().subrange(e0.text().len() - 1, er.text().len() - 1) =~= j);
    if rest is Cons {
        assert(variants_texts(rest).len() > 0);
    }
    assert((Enum { name, generics: gs, variants: l }).text() =~= "enum "@ + name@
        + written_generics(gs) + " {"@ + v.text() + (if rest is Cons {
        ", "@ + er.text().subrange(e0.text().len() - 1, er.text().len() - 1)
    } else {
        Seq::empty()
    }) + "}"@);
    let jt = join(types_texts(types), ", "@);
    assert(Type::Touple(types).text() =~= "("@ + jt + ")"@);
    assert(Variant::WithType(name, types).text() =~= name@ + Type::Touple(types).text());
}

impl Enum {
    /// Parses an enum definition.
    pub fn try_from(value: &mut Parser) -> (r: Result<Enum, ParserError>)
        ensures
            agrees(r, parse_enum(old(value)@).0),
            final(value)@ == parse_enum(old(value)@).1,
            suffix_of(final(value)@, old(value)@),
            r is Ok ==> final(value)@.len() < old(value)@.len(),
            named(r, "Enum"),
    {
        let t = value.pop_front_err("Enum")?;
        if !matches!(t, Token::ParenOpen) {
            return Err(ParserError::new("Enum", ParseFault::Unexpected(t)));
        }
        let t = value.pop_front_err("Enum")?;
        if !matches!(t, Token::Keyword(Keywords::Enum)) {
            return Err(ParserError::new("Enum", ParseFault::Unexpected(t)));
        }
        let name = value.pop_ident("Enum")?;
        let generics = take_generics_list(value, "Enum")?;
        let variants = take_variant_list(value)?;
        Ok(Enum { name, generics, variants })
    }
}

fn take_variant_list(value: &mut Parser) -> (r: Result<List<Variant>, ParserError>)
    ensures
        agrees(r, variant_list(old(value)@).0),
        final(value)@ == variant_list(old(value)@).1,
        suffix_of(final(value)@, old(value)@),
        named(r, "Enum"),
    decreases old(value)@.len(), 1nat,
{
    let peek = value.first_err("Enum")?;
    if matches!(peek, Token::ParenClose) {
        value.pop_front();
        return Ok(List::Nil);
    }
    let v = ctx(Variant::try_from(value), "Enum")?;
    let rest = take_variant_list(value)?;
    Ok(List::Cons(Box::new(v), Box::new(rest)))
}

impl Variant {
    /// Parses a variant of an enum.
    pub fn try_from(value: &mut Parser) -> (r: Result<Variant, ParserError>)
        ensures
            agrees(r, parse_variant(old(value)@).0),
            final(value)@ == parse_variant(old(value)@).1,
            suffix_of(final(value)@, old(value)@),
            r is Ok ==> final(value)@.len() < old(value)@.len(),
            named(r, "Variant"),
        decreases old(value)@.len(), 0nat,
    {
        if matches!(value.first(), Some(Token::Char('#'))) {
            let a = ctx(Attribute::try_from(value), "Variant")?;
            let v = ctx(Variant::try_from(value), "Variant")?;
            return Ok(Variant::Attr(a, Box::new(v)));
        }
        let t = value.pop_front_err("Variant")?;
        match t {
            Token::Identifier(name) => Ok(Variant::Simple(name)),
            Token::ParenOpen => {
                let name = value.pop_ident("Variant")?;
                let peek = value.first_err("Variant")?;
                if matches!(peek, Token::ParenClose) {
                    value.pop_front();
                    Ok(Variant::Simple(name))
                } else if matches!(peek, Token::CurlyOpen) {
                    let fields = ctx(StructFields::try_from(value), "Variant")?;
                    let t = value.pop_front_err("Variant")?;
                    if !matches!(t, Token::ParenClose) {
                        return Err(ParserError::new("Variant", ParseFault::Unexpected(t)));
                    }
                    Ok(Variant::Struct(name, fields))
                } else {
                    let types = ctx(take_paren_types(value), "Variant")?;
                    Ok(Variant::WithType(name, types))
                }
            },
            t => Err(ParserError::new("Variant", ParseFault::Unexpected(t))),
        }
    }
}

// ---------------------------------------------------------------- rendering

impl Enum {
    /// The enum in Rust source text: `enum Name<G> {A, B}`.
    pub open spec fn text(self) -> Seq<char> {
        "enum "@ + self.name@ + generics_text(self.generics) + " {"@ + join(
            variants_texts(self.variants),
            ", "@,
        ) + "}"@
    }

    /// The enum has a variant, and every variant can be written.
    pub open spec fn printable(self) -> bool {
        self.variants is Cons && variants_printable(self.variants)
    }

    /// Appends the Rust source text to `out`, and tells whether it could:
    /// `false` when a list that Rust needs non-empty is empty, and `out` then holds an unfinished text.
    pub fn write_to(&self, out: &mut String) -> (ok: bool)
        ensures
            ok == self.printable(),
            ok ==> final(out)@ == old(out)@ + self.text(),
    {
        if self.variants.is_empty() {
            return false;
        }
        let ghost start = out@;
        out.append("enum ");
        out.append(self.name.as_str());
        if !write_generics_list(&self.generics, out) {
            return false;
        }
        out.append(" {");
        if !write_variants(&self.variants, ", ", out) {
            return false;
        }
        out.append("}");
        assert(out@ =~= start + self.text());
        true
    }

    /// The node in Rust source text.
    pub fn to_string(&self) -> (s: String)
        requires
            self.printable(),
        ensures
            s@ == self.text(),
    {
        let mut s = String::new();
        self.write_to(&mut s);
        s
    }
}

impl Variant {
    /// The variant in Rust source text.
    pub open spec fn text(self) -> Seq<char>
        decreases self,
    {
        match self {
            Variant::Simple(name) => name@,
            Variant::WithType(name, types) => name@ + "("@ + join(types_texts(types), ", "@) + ")"@,
            Variant::Struct(name, fields) => name@ + " "@ + fields.text(),
            Variant::Attr(a, v) => a.text() + "\n"@ + v.text(),
        }
    }

    /// Every part can be written, and a tuple variant has at least one type.
    pub open spec fn printable(self) -> bool
        decreases self,
    {
        match self {
            Variant::Simple(_) => true,
            Variant::WithType(_, types) => types is Cons && types_printable(types),
            Variant::Struct(_, fields) => fields.printable(),
            Variant::Attr(a, v) => a.printable() && v.printable(),
        }
    }

    /// Appends the Rust source text to `out`, and tells whether it could:
    /// `false` when a list that Rust needs non-empty is empty, and `out` then holds an unfinished text.
    pub fn write_to(&self, out: &mut String) -> (ok: bool)
        ensures
            ok == self.printable(),
            ok ==> final(out)@ == old(out)@ + self.text(),
        decreases self,
    {
        let ghost start = out@;
        match self {
            Variant::Simple(name) => out.append(name.as_str()),
            Variant::WithType(name, types) => {
                if types.is_empty() {
                    return false;
                }
                out.append(name.as_str());
                out.append("(");
                if !write_types(types, ", ", out) {
                    return false;
                }
                out.append(")");
            },
            Variant::Struct(name, fields) => {
                out.append(name.as_str());
                out.append(" ");
                if !fields.write_to(out) {
                    return false;
                }
            },
            Variant::Attr(a, v) => {
                if !a.write_to(out) {
                    return false;
                }
                out.append("\n");
                if !v.write_to(out) {
                    return false;
                }
            },
        }
        assert(out@ =~= start + self.text());
        true
    }

    /// The node in Rust source text.
    pub fn to_string(&self) -> (s: String)
        requires
            self.printable(),
        ensures
            s@ == self.text(),
    {
        let mut s = String::new();
        self.write_to(&mut s);
        s
    }
}

/// The texts of the variants, in order.
pub open spec fn variants_texts(l: List<Variant>) -> Seq<Seq<char>>
    decreases l,
{
    match l {
        List::Nil => Seq::empty(),
        List::Cons(h, t) => seq![(*h).text()] + variants_texts(*t),
    }
}

/// Every one of the variants can be written.
pub open spec fn variants_printable(l: List<Variant>) -> bool
    decreases l,
{
    match l {
        List::Nil => true,
        List::Cons(h, t) => (*h).printable() && variants_printable(*t),
    }
}

/// Appends the variants, with `sep` between neighbours.
pub(crate) fn write_variants(l: &List<Variant>, sep: &str, out: &mut String) -> (ok: bool)
    ensures
        ok == variants_printable(*l),
        ok ==> final(out)@ == old(out)@ + join(variants_texts(*l), sep@),
    decreases l,
{
    match l {
        List::Nil => {
            assert(out@ =~= old(out)@ + join(variants_texts(*l), sep@));
        },
        List::Cons(h, t) => {
            let ghost start = out@;
            if !h.write_to(out) {
                return false;
            }
            match &**t {
                List::Nil => {},
                List::Cons(_, _) => out.append(sep),
            }
            if !write_variants(t, sep, out) {
                return false;
            }
            proof {
                lemma_join_cons((*h).text(), variants_texts(**t), sep@);
                assert(out@ =~= start + join(variants_texts(*l), sep@));
            }
        },
    }
    true
}

} // verus!
