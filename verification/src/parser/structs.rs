use vstd::prelude::*;

use crate::tokenizer::{Keywords, Token};

use super::attribute::{parse_attribute, Attribute};
use crate::text::{inside, join, lemma_join_cons};
use super::args::{typed_args_texts, ArgsTyped};

use super::list::List;
use super::types::{
    generics_texts, parse_generic, parse_type, paren_types, take_paren_types, types_printable,
    types_texts, write_generics, write_types, Generic, Type,
};
use super::{agrees, named, at_is, ctx, ident, map_ok, pop, suffix_of, ParseFault, Parsed, Parser, ParserError};

verus! {

broadcast use super::lemma_suffix_trans;

/// A struct: `(struct Name :T { field->Type .. })` or `(struct Name :T Type ..)`.
#[derive(Debug)]
pub enum Struct {
    Touple { name: String, generics: List<Generic>, types: List<Type> },
    Normal { name: String, generics: List<Generic>, fields: StructFields },
}

/// The named fields of a struct: `{ name->Type .. }`.
#[derive(Debug)]
pub struct StructFields(pub List<StructField>);

/// A named field, possibly with an attribute.
#[derive(Debug)]
pub struct StructField {
    pub attr: Option<Attribute>,
    pub name: String,
    pub ty: Type,
}

/// The generic parameters in front of a struct's or an enum's body.
pub open spec fn generics_list(ts: Seq<Token>) -> Parsed<List<Generic>>
    decreases ts.len(),
{
    if ts.len() == 0 {
        (Err(ParseFault::MoreTokens), ts)
    } else if ts[0] == Token::Char(':') {
        match parse_generic(ts) {
            (Ok(g), r) => if r.len() < ts.len() {
                map_ok(generics_list(r), |rest: List<Generic>| List::Cons(Box::new(g), Box::new(rest)))
            } else {
                (Err(ParseFault::MoreTokens), r)
            },
            (Err(f), r) => (Err(f), r),
        }
    } else {
        (Ok(List::Nil), ts)
    }
}

/// Struct => '(' 'struct' Identifier {Generic} (StructFields ')' | {Type} ')')
pub open spec fn parse_struct(ts: Seq<Token>) -> Parsed<Struct> {
    match pop(ts) {
        (Ok(Token::ParenOpen), r) => match pop(r) {
            (Ok(Token::Keyword(Keywords::Struct)), r1) => match ident(r1) {
                (Ok(name), r2) => match generics_list(r2) {
                    (Ok(generics), r3) => if at_is(r3, 0, Token::CurlyOpen) {
                        match parse_struct_fields(r3) {
                            (Ok(fields), r4) => match pop(r4) {
                                (Ok(Token::ParenClose), r5) => (
                                    Ok(Struct::Normal { name, generics, fields }),
                                    r5,
                                ),
                                (Ok(x), r5) => (Err(ParseFault::Unexpected(x)), r5),
                                (Err(f), r5) => (Err(f), r5),
                            },
                            (Err(f), r4) => (Err(f), r4),
                        }
                    } else if r3.len() == 0 {
                        (Err(ParseFault::MoreTokens), r3)
                    } else {
                        map_ok(
                            paren_types(r3),
                            |types: List<Type>| Struct::Touple { name, generics, types },
                        )
                    },
                    (Err(f), r3) => (Err(f), r3),
                },
                (Err(f), r2) => (Err(f), r2),
            },
            (Ok(x), r1) => (Err(ParseFault::Unexpected(x)), r1),
            (Err(f), r1) => (Err(f), r1),
        },
        (Ok(x), r) => (Err(ParseFault::Unexpected(x)), r),
        (Err(f), r) => (Err(f), r),
    }
}

/// StructFields => '{' {StructField} '}'
pub open spec fn parse_struct_fields(ts: Seq<Token>) -> Parsed<StructFields> {
    match pop(ts) {
        (Ok(Token::CurlyOpen), r) => map_ok(field_list(r), |l: List<StructField>| StructFields(l)),
        (Ok(x), r) => (Err(ParseFault::Unexpected(x)), r),
        (Err(f), r) => (Err(f), r),
    }
}

/// Fields up to and with '}'.
pub open spec fn field_list(ts: Seq<Token>) -> Parsed<List<StructField>>
    decreases ts.len(),
{
    if ts.len() == 0 {
        (Err(ParseFault::MoreTokens), ts)
    } else if ts[0] == Token::CurlyClose {
        (Ok(List::Nil), ts.drop_first())
    } else {
        match parse_struct_field(ts) {
            (Ok(f), r) => if r.len() < ts.len() {
                map_ok(field_list(r), |rest: List<StructField>| List::Cons(Box::new(f), Box::new(rest)))
            } else {
                (Err(ParseFault::MoreTokens), r)
            },
            (Err(e), r) => (Err(e), r),
        }
    }
}

/// The part of a field after its attribute: Identifier '->' Type.
pub open spec fn field_rest(ts: Seq<Token>, attr: Option<Attribute>) -> Parsed<StructField> {
    match ident(ts) {
        (Ok(name), r) => {
            let r1 = if at_is(r, 0, Token::Keyword(Keywords::LeftArrow)) {
                r.drop_first()
            } else {
                r
            };
            map_ok(parse_type(r1), |ty: Type| StructField { attr, name, ty })
        },
        (Err(f), r) => (Err(f), r),
    }
}

/// StructField => Attribute? Identifier '->'? Type
pub open spec fn parse_struct_field(ts: Seq<Token>) -> Parsed<StructField> {
    if ts.len() == 0 {
        (Err(ParseFault::MoreTokens), ts)
    } else if ts[0] == Token::Char('#') {
        match parse_attribute(ts) {
            (Ok(a), r) => field_rest(r, Some(a)),
            (Err(f), r) => (Err(f), r),
        }
    } else {
        field_rest(ts, None)
    }
}

pub(crate) fn take_generics_list(value: &mut Parser, rule: &'static str) -> (r: Result<
    List<Generic>,
    ParserError,
>)
    ensures
        agrees(r, generics_list(old(value)@).0),
        final(value)@ == generics_list(old(value)@).1,
        suffix_of(final(value)@, old(value)@),
        named(r, rule),
    decreases old(value)@.len(),
{
    let peek = value.first_err(rule)?;
    if matches!(peek, Token::Char(':')) {
        let g = ctx(Generic::try_from(value), rule)?;
        let rest = take_generics_list(value, rule)?;
        Ok(List::Cons(Box::new(g), Box::new(rest)))
    } else {
        Ok(List::Nil)
    }
}

/// The generic parameters `gs` as a function writes them in front of its
/// parameters: nothing when there is none, else between `<` and `>`.
pub open spec fn written_generics(gs: List<Generic>) -> Seq<char> {
    let s = (ArgsTyped { lifetimes: List::Nil, generics: gs, selft: None, args: List::Nil }).text();
    s.subrange(0, s.len() - 2)
}

/// A struct is written `struct `, its name and its generic parameters as a
/// function writes them, then its types as a tuple type and `;`, or a space
/// and its fields; fields are written in braces with `, ` between
/// neighbours (the ones after the first as the fields that hold only
/// them), each as its attribute and a line break, if it has one, then
/// `name: Type`.
pub proof fn lemma_struct_text(
    name: String,
    gs: List<Generic>,
    types: List<Type>,
    fields: StructFields,
    f: StructField,
    rest: List<StructField>,
    a: Attribute,
    t: Type,
)
    ensures
        (Struct::Touple { name, generics: gs, types }).text() == "struct "@ + name@
            + written_generics(gs) + Type::Touple(types).text() + ";"@,
        (Struct::Normal { name, generics: gs, fields }).text() == "struct "@ + name@
            + written_generics(gs) + " "@ + fields.text(),
        StructFields(List::Nil).text() == "{}"@,
        StructFields(List::Cons(Box::new(f), Box::new(rest))).text() == "{"@ + f.text() + (
        if rest is Cons {
            ", "@ + inside(StructFields(rest).text())
        } else {
            Seq::empty()
        }) + "}"@,
        (StructField { attr: None, name, ty: t }).text() == name@ + ": "@ + t.text(),
        (StructField { attr: Some(a), name, ty: t }).text() == a.text() + "\n"@ + name@ + ": "@
            + t.text(),
{
    reveal_strlit("(");
    reveal_strlit(")");
    reveal_strlit("()");
    reveal_strlit(");");
    reveal_strlit(";");
    reveal_strlit("{");
    reveal_strlit("}");
    reveal_strlit("{}");
    reveal_strlit("<");
    reveal_strlit(">");
    let at = ArgsTyped { lifetimes: List::Nil, generics: gs, selft: None, args: List::Nil };
    assert(typed_args_texts(List::<(String, Type)>::Nil) =~= Seq::<Seq<char>>::empty());
    assert(at.text() =~= generics_text(gs) + "()"@);
    assert(written_generics(gs) =~= generics_text(gs));
    let jt = join(types_texts(types), ", "@);
    assert(Type::Touple(types).text() =~= "("@ + jt + ")"@);
    assert((Struct::Touple { name, generics: gs, types }).text() =~= "struct "@ + name@
        + written_generics(gs) + Type::Touple(types).text() + ";"@);
    assert(fields_texts(List::<StructField>::Nil) =~= Seq::<Seq<char>>::empty());
    assert(StructFields(List::Nil).text() =~= "{}"@);
    let l = List::Cons(Box::new(f), Box::new(rest));
    assert(fields_texts(l) == seq![f.text()] + fields_texts(rest));
    lemma_join_cons(f.text(), fields_texts(rest), ", "@);
    let j = join(fields_texts(rest), ", "@);
    assert(StructFields(rest).text() =~= "{"@ + j + "}"@);
    assert(inside(StructFields(rest).text()) =~= j);
    if rest is Cons {
        assert(fields_texts(rest).len() > 0);
    }
    assert(StructFields(l).text() =~= "{"@ + f.text() + (if rest is Cons {
        ", "@ + inside(StructFields(rest).text())
    } else {
        Seq::empty()
    }) + "}"@);
}

impl Struct {
    /// Parses a struct definition.
    pub fn try_from(value: &mut Parser) -> (r: Result<Struct, ParserError>)
        ensures
            agrees(r, parse_struct(old(value)@).0),
            final(value)@ == parse_struct(old(value)@).1,
            suffix_of(final(value)@, old(value)@),
            r is Ok ==> final(value)@.len() < old(value)@.len(),
            named(r, "Struct"),
    {
        let t = value.pop_front_err("Struct")?;
        if !matches!(t, Token::ParenOpen) {
            return Err(ParserError::new("Struct", ParseFault::Unexpected(t)));
        }
        let t = value.pop_front_err("Struct")?;
        if !matches!(t, Token::Keyword(Keywords::Struct)) {
            return Err(ParserError::new("Struct", ParseFault::Unexpected(t)));
        }
        let name = value.pop_ident("Struct")?;
        let generics = take_generics_list(value, "Struct")?;
        if matches!(value.first(), Some(Token::CurlyOpen)) {
            let fields = ctx(StructFields::try_from(value), "Struct")?;
            let t = value.pop_front_err("Struct")?;
            if !matches!(t, Token::ParenClose) {
                return Err(ParserError::new("Struct", ParseFault::Unexpected(t)));
            }
            Ok(Struct::Normal { name, generics, fields })
        } else {
            let _ = value.first_err("Struct")?;
            let types = ctx(take_paren_types(value), "Struct")?;
            Ok(Struct::Touple { name, generics, types })
        }
    }
}

impl StructFields {
    /// Parses the named fields of a struct: `{ name->Type .. }`.
    pub fn try_from(value: &mut Parser) -> (r: Result<StructFields, ParserError>)
        ensures
            agrees(r, parse_struct_fields(old(value)@).0),
            final(value)@ == parse_struct_fields(old(value)@).1,
            suffix_of(final(value)@, old(value)@),
            r is Ok ==> final(value)@.len() < old(value)@.len(),
            named(r, "StructFields"),
    {
        let t = value.pop_front_err("StructFields")?;
        if !matches!(t, Token::CurlyOpen) {
            return Err(ParserError::new("StructFields", ParseFault::Unexpected(t)));
        }
        let l = take_field_list(value)?;
        Ok(StructFields(l))
    }
}

fn take_field_list(value: &mut Parser) -> (r: Result<List<StructField>, ParserError>)
    ensures
        agrees(r, field_list(old(value)@).0),
        final(value)@ == field_list(old(value)@).1,
        suffix_of(final(value)@, old(value)@),
        named(r, "StructFields"),
    decreases old(value)@.len(),
{
    let peek = value.first_err("StructFields")?;
    if matches!(peek, Token::CurlyClose) {
        value.pop_front();
        return Ok(List::Nil);
    }
    let f = ctx(StructField::try_from(value), "StructFields")?;
    let rest = take_field_list(value)?;
    Ok(List::Cons(Box::new(f), Box::new(rest)))
}

fn take_field_rest(value: &mut Parser, attr: Option<Attribute>) -> (r: Result<StructField, ParserError>)
    ensures
        agrees(r, field_rest(old(value)@, attr).0),
        final(value)@ == field_rest(old(value)@, attr).1,
        suffix_of(final(value)@, old(value)@),
        r is Ok ==> final(value)@.len() < old(value)@.len(),
        named(r, "StructField"),
{
    let name = value.pop_ident("StructField")?;
    if matches!(value.first(), Some(Token::Keyword(Keywords::LeftArrow))) {
        value.pop_front();
    }
    let ty = ctx(Type::try_from(value), "StructField")?;
    Ok(StructField { attr, name, ty })
}

impl StructField {
    /// Parses a named field.
    pub fn try_from(value: &mut Parser) -> (r: Result<StructField, ParserError>)
        ensures
            agrees(r, parse_struct_field(old(value)@).0),
            final(value)@ == parse_struct_field(old(value)@).1,
            suffix_of(final(value)@, old(value)@),
            r is Ok ==> final(value)@.len() < old(value)@.len(),
            named(r, "StructField"),
    {
        let peek = value.first_err("StructField")?;
        if matches!(peek, Token::Char('#')) {
            let a = ctx(Attribute::try_from(value), "StructField")?;
            take_field_rest(value, Some(a))
        } else {
            take_field_rest(value, None)
        }
    }
}

// ---------------------------------------------------------------- rendering
/// Generic parameters in Rust source text: `<A, B>`, or nothing when there are none.
pub open spec fn generics_text(generics: List<Generic>) -> Seq<char> {
    if generics is Cons {
        "<"@ + join(generics_texts(generics), ", "@) + ">"@
    } else {
        Seq::empty()
    }
}

pub(crate) fn write_generics_list(generics: &List<Generic>, out: &mut String) -> (ok: bool)
    ensures
        ok,
        final(out)@ == old(out)@ + generics_text(*generics),
{
    let ghost start = out@;
    if !generics.is_empty() {
        out.append("<");
        if !write_generics(generics, ", ", out) {
            return false;
        }
        out.append(">");
    }
    assert(out@ =~= start + generics_text(*generics));
    true
}

impl Struct {
    /// The struct in Rust source text.
    pub open spec fn text(self) -> Seq<char> {
        match self {
            Struct::Touple { name, generics, types } => "struct "@ + name@ + generics_text(generics)
                + "("@ + join(types_texts(types), ", "@) + ");"@,
            Struct::Normal { name, generics, fields } => "struct "@ + name@ + generics_text(
                generics,
            ) + " "@ + fields.text(),
        }
    }

    /// Every field type can be written.
    pub open spec fn printable(self) -> bool {
        match self {
            Struct::Touple { types, .. } => types_printable(types),
            Struct::Normal { fields, .. } => fields.printable(),
        }
    }

    /// Appends the Rust source text to `out`, and tells whether it could:
    /// `false` when a list that Rust needs non-empty is empty, and `out` then holds an unfinished text.
    pub fn write_to(&self, out: &mut String) -> (ok: bool)
        ensures
            ok == self.printable(),
            ok ==> final(out)@ == old(out)@ + self.text(),
    {
        let ghost start = out@;
        out.append("struct ");
        match self {
            Struct::Touple { name, generics, types } => {
                out.append(name.as_str());
                if !write_generics_list(generics, out) {
                    return false;
                }
                out.append("(");
                if !write_types(types, ", ", out) {
                    return false;
                }
                out.append(");");
            },
            Struct::Normal { name, generics, fields } => {
                out.append(name.as_str());
                if !write_generics_list(generics, out) {
                    return false;
                }
                out.append(" ");
                if !fields.write_to(out) {
                    return false;
                }
            },
        }
        assert(out@ =~= start + self.text());
        true
    }

    /// The node in Rust source text.
    pub fn to_string(&self) -> (s: String)
        requires
            self.printable(),
        ensures
            s@ == self.text(),
    {
        let mut s = String::new();
        self.write_to(&mut s);
        s
    }
}

impl StructFields {
    /// The fields in Rust source text: `{name: T, ..}`.
    pub open spec fn text(self) -> Seq<char> {
        "{"@ + join(fields_texts(self.0), ", "@) + "}"@
    }

    /// Every field can be written.
    pub open spec fn printable(self) -> bool {
        fields_printable(self.0)
    }

    /// Appends the Rust source text to `out`, and tells whether it could:
    /// `false` when a list that Rust needs non-empty is empty, and `out` then holds an unfinished text.
    pub fn write_to(&self, out: &mut String) -> (ok: bool)
        ensures
            ok == self.printable(),
            ok ==> final(out)@ == old(out)@ + self.text(),
    {
        let ghost start = out@;
        out.append("{");
        if !write_fields(&self.0, ", ", out) {
            return false;
        }
        out.append("}");
        assert(out@ =~= start + self.text());
        true
    }

    /// The node in Rust source text.
    pub fn to_string(&self) -> (s: String)
        requires
            self.printable(),
        ensures
            s@ == self.text(),
    {
        let mut s = String::new();
        self.write_to(&mut s);
        s
    }
}

impl StructField {
    /// The field in Rust source text: its attribute on a line of its own, then `name: T`.
    pub open spec fn text(self) -> Seq<char> {
        let attr = match self.attr {
            Some(a) => a.text() + "\n"@,
            None => Seq::empty(),
        };
        attr + self.name@ + ": "@ + self.ty.text()
    }

    /// The attribute and the type can be written.
    pub open spec fn printable(self) -> bool {
        (self.attr matches Some(a) ==> a.printable()) && self.ty.printable()
    }

    /// Appends the Rust source text to `out`, and tells whether it could:
    /// `false` when a list that Rust needs non-empty is empty, and `out` then holds an unfinished text.
    pub fn write_to(&self, out: &mut String) -> (ok: bool)
        ensures
            ok == self.printable(),
            ok ==> final(out)@ == old(out)@ + self.text(),
    {
        let ghost start = out@;
        match &self.attr {
            Some(a) => {
                if !a.write_to(out) {
                    return false;
                }
                out.append("\n");
            },
            None => {},
        }
        out.append(self.name.as_str());
        out.append(": ");
        if !self.ty.write_to(out) {
            return false;
        }
        assert(out@ =~= start + self.text());
        true
    }

    /// The node in Rust source text.
    pub fn to_string(&self) -> (s: String)
        requires
            self.printable(),
        ensures
            s@ == self.text(),
    {
        let mut s = String::new();
        self.write_to(&mut s);
        s
    }
}

/// The texts of the fields, in order.
pub open spec fn fields_texts(l: List<StructField>) -> Seq<Seq<char>>
    decreases l,
{
    match l {
        List::Nil => Seq::empty(),
        List::Cons(h, t) => seq![(*h).text()] + fields_texts(*t),
    }
}

/// Every one of the fields can be written.
pub open spec fn fields_printable(l: List<StructField>) -> bool
    decreases l,
{
    match l {
        List::Nil => true,
        List::Cons(h, t) => (*h).printable() && fields_printable(*t),
    }
}

/// Appends the fields, with `sep` between neighbours.
pub(crate) fn write_fields(l: &List<StructField>, sep: &str, out: &mut String) -> (ok: bool)
    ensures
        ok == fields_printable(*l),
        ok ==> final(out)@ == old(out)@ + join(fields_texts(*l), sep@),
    decreases l,
{
    match l {
        List::Nil => {
            assert(out@ =~= old(out)@ + join(fields_texts(*l), sep@));
        },
        List::Cons(h, t) => {
            let ghost start = out@;
            if !h.write_to(out) {
                return false;
            }
            match &**t {
                List::Nil => {},
                List::Cons(_, _) => out.append(sep),
            }
            if !write_fields(t, sep, out) {
                return false;
            }
            proof {
                lemma_join_cons((*h).text(), fields_texts(**t), sep@);
                assert(out@ =~= start + join(fields_texts(*l), sep@));
            }
        },
    }
    true
}

} // verus!
