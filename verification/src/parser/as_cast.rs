use vstd::prelude::*;

use crate::tokenizer::{Keywords, Token};

use super::exp::{parse_exp, Exp};
use super::types::{parse_type, Type};
use super::{agrees, named, ctx, pop, suffix_of, ParseFault, Parsed, Parser, ParserError};

verus! {

broadcast use super::lemma_suffix_trans;

/// A cast: `(as exp Type)`.
#[derive(Debug)]
pub struct As {
    pub exp: Exp,
    pub to: Type,
}

/// As => '(' 'as' Exp Type ')'
pub open spec fn parse_as(ts: Seq<Token>) -> Parsed<As>
    decreases ts.len(), 16nat,
{
    match pop(ts) {
        (Ok(Token::ParenOpen), r) => match pop(r) {
            (Ok(Token::Keyword(Keywords::As)), r1) => match parse_exp(r1) {
                (Ok(exp), r2) => match parse_type(r2) {
                    (Ok(to), r3) => match pop(r3) {
                        (Ok(Token::ParenClose), r4) => (Ok(As { exp, to }), r4),
                        (Ok(x), r4) => (Err(ParseFault::Unexpected(x)), r4),
                        (Err(f), r4) => (Err(f), r4),
                    },
                    (Err(f), r3) => (Err(f), r3),
                },
                (Err(f), r2) => (Err(f), r2),
            },
            (Ok(x), r1) => (Err(ParseFault::Unexpected(x)), r1),
            (Err(f), r1) => (Err(f), r1),
        },
        (Ok(x), r) => (Err(ParseFault::Unexpected(x)), r),
        (Err(f), r) => (Err(f), r),
    }
}

/// A cast is written as the value, ` as ` and the type.
pub proof fn lemma_cast_text(e: Exp, t: Type)
    ensures
        (As { exp: e, to: t }).text() == e.text() + " as "@ + t.text(),
{
}

impl As {
    /// Parses a cast: `(as exp Type)`.
    pub fn try_from(value: &mut Parser) -> (r: Result<As, ParserError>)
        ensures
            agrees(r, parse_as(old(value)@).0),
            final(value)@ == parse_as(old(value)@).1,
            suffix_of(final(value)@, old(value)@),
            r is Ok ==> final(value)@.len() < old(value)@.len(),
            named(r, "As"),
        decreases old(value)@.len(), 16nat,
    {
        let t = value.pop_front_err("As")?;
        if !matches!(t, Token::ParenOpen) {
            return Err(ParserError::new("As", ParseFault::Unexpected(t)));
        }
        let t = value.pop_front_err("As")?;
        if !matches!(t, Token::Keyword(Keywords::As)) {
            return Err(ParserError::new("As", ParseFault::Unexpected(t)));
        }
        let exp = ctx(Exp::try_from(value), "As")?;
        let to = ctx(Type::try_from(value), "As")?;
        let t = value.pop_front_err("As")?;
        if !matches!(t, Token::ParenClose) {
            return Err(ParserError::new("As", ParseFault::Unexpected(t)));
        }
        Ok(As { exp, to })
    }
}

// ---------------------------------------------------------------- rendering

impl As {
    /// The cast in Rust source text: `value as Type`.
    pub open spec fn text(self) -> Seq<char>
        decreases self,
    {
        self.exp.text() + " as "@ + self.to.text()
    }

    /// The value and the type can be written.
    pub open spec fn printable(self) -> bool
        decreases self,
    {
        self.exp.printable() && self.to.printable()
    }

    /// Appends the Rust source text to `out`, and tells whether it could:
    /// `false` when a list that Rust needs non-empty is empty, and `out` then holds an unfinished text.
    pub fn write_to(&self, out: &mut String) -> (ok: bool)
        ensures
            ok == self.printable(),
            ok ==> final(out)@ == old(out)@ + self.text(),
        decreases self,
    {
        let ghost start = out@;
        if !self.exp.write_to(out) {
            return false;
        }
        out.append(" as ");
        if !self.to.write_to(out) {
            return false;
        }
        assert(out@ =~= start + self.text());
        true
    }

    /// The node in Rust source text.
    pub fn to_string(&self) -> (s: String)
        requires
            self.printable(),
        ensures
            s@ == self.text(),
    {
        let mut s = String::new();
        self.write_to(&mut s);
        s
    }
}

} // verus!
