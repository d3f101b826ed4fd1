use vstd::prelude::*;

use crate::tokenizer::{Keywords, Token};

use crate::text::join;

use super::file::{file_ops_printable, file_ops_texts, write_file_ops, File, FileOps};
use super::impls::{impl_items, parse_type_name, take_impl_items, TypeName};
use super::list::List;
use super::{agrees, named, ctx, map_ok, pop, suffix_of, ParseFault, Parsed, Parser, ParserError};

verus! {

broadcast use super::lemma_suffix_trans;

/// A trait: `(trait Name [items])`.
#[derive(Debug)]
pub struct Trait {
    pub name: TypeName,
    pub body: List<FileOps>,
}

/// Trait => '(' 'trait' TypeName '[' {FileOps} ']' ')'
pub open spec fn parse_trait(ts: Seq<Token>) -> Parsed<Trait> {
    match pop(ts) {
        (Ok(Token::ParenOpen), r) => match pop(r) {
            (Ok(Token::Keyword(Keywords::Trait)), r1) => match parse_type_name(r1) {
                (Ok(name), r2) => match pop(r2) {
                    (Ok(Token::BracketOpen), r3) => match impl_items(r3) {
                        (Ok(body), r4) => match pop(r4) {
                            (Ok(Token::ParenClose), r5) => (Ok(Trait { name, body }), r5),
                            (Ok(x), r5) => (Err(ParseFault::Unexpected(x)), r5),
                            (Err(f), r5) => (Err(f), r5),
                        },
                        (Err(f), r4) => (Err(f), r4),
                    },
                    (Ok(x), r3) => (Err(ParseFault::Unexpected(x)), r3),
                    (Err(f), r3) => (Err(f), r3),
                },
                (Err(f), r2) => (Err(f), r2),
            },
            (Ok(x), r1) => (Err(ParseFault::Unexpected(x)), r1),
            (Err(f), r1) => (Err(f), r1),
        },
        (Ok(x), r) => (Err(ParseFault::Unexpected(x)), r),
        (Err(f), r) => (Err(f), r),
    }
}

/// A trait is written `trait `, its name and its items as a file writes
/// them, in ` {..}`.
pub proof fn lemma_trait_text(name: TypeName, body: List<FileOps>)
    ensures
        (Trait { name, body }).text() == "trait "@ + name.text() + " {"@ + File(body).text() + "}"@,
{
}

impl Trait {
    /// Parses a trait definition.
    pub fn try_from(value: &mut Parser) -> (r: Result<Trait, ParserError>)
        ensures
            agrees(r, parse_trait(old(value)@).0),
            final(value)@ == parse_trait(old(value)@).1,
            suffix_of(final(value)@, old(value)@),
            r is Ok ==> final(value)@.len() < old(value)@.len(),
            named(r, "Trait"),
    {
        let t = value.pop_front_err("Trait")?;
        if !matches!(t, Token::ParenOpen) {
            return Err(ParserError::new("Trait", ParseFault::Unexpected(t)));
        }
        let t = value.pop_front_err("Trait")?;
        if !matches!(t, Token::Keyword(Keywords::Trait)) {
            return Err(ParserError::new("Trait", ParseFault::Unexpected(t)));
        }
        let name = ctx(TypeName::try_from(value), "Trait")?;
        let t = value.pop_front_err("Trait")?;
        if !matches!(t, Token::BracketOpen) {
            return Err(ParserError::new("Trait", ParseFault::Unexpected(t)));
        }
        let body = ctx(take_impl_items(value), "Trait")?;
        let t = value.pop_front_err("Trait")?;
        if !matches!(t, Token::ParenClose) {
            return Err(ParserError::new("Trait", ParseFault::Unexpected(t)));
        }
        Ok(Trait { name, body })
    }
}

// ---------------------------------------------------------------- rendering

impl Trait {
    /// The trait in Rust source text, its items on lines of their own.
    pub open spec fn text(self) -> Seq<char> {
        "trait "@ + self.name.text() + " {"@ + join(file_ops_texts(self.body), "\n"@) + "}"@
    }

    /// The name and every item can be written.
    pub open spec fn printable(self) -> bool {
        self.name.printable() && file_ops_printable(self.body)
    }

    /// Appends the Rust source text to `out`, and tells whether it could:
    /// `false` when a list that Rust needs non-empty is empty, and `out` then holds an unfinished text.
    pub fn write_to(&self, out: &mut String) -> (ok: bool)
        ensures
            ok == self.printable(),
            ok ==> final(out)@ == old(out)@ + self.text(),
    {
        let ghost start = out@;
        out.append("trait ");
        if !self.name.write_to(out) {
            return false;
        }
        out.append(" {");
        if !write_file_ops(&self.body, "\n", out) {
            return false;
        }
        out.append("}");
        assert(out@ =~= start + self.text());
        true
    }

    /// The node in Rust source text.
    pub fn to_string(&self) -> (s: String)
        requires
            self.printable(),
        ensures
            s@ == self.text(),
    {
        let mut s = String::new();
        self.write_to(&mut s);
        s
    }
}

} // verus!
