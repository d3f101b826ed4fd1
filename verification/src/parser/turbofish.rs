use vstd::prelude::*;

use crate::tokenizer::{Keywords, Token};

use super::types::{parse_type, Type};
use super::{agrees, named, ctx, ident, pop, at_is, suffix_of, ParseFault, Parsed, Parser, ParserError};

verus! {

broadcast use super::lemma_suffix_trans;

/// A name, possibly with a type argument: `name<T>` or `name`.
#[derive(Debug)]
pub enum TurboIden {
    TurboFish(TurboFish),
    Identifier(String),
}

/// A name with a type argument: `name<T>`, Rust's `name::<T>`.
#[derive(Debug)]
pub struct TurboFish(pub String, pub Type);

/// TurboFish => Identifier TurboStart Type '>'
pub open spec fn parse_turbofish(ts: Seq<Token>) -> Parsed<TurboFish> {
    match ident(ts) {
        (Ok(name), r) => match pop(r) {
            (Ok(Token::Keyword(Keywords::TurboStart)), r1) => match parse_type(r1) {
                (Ok(t), r2) => match pop(r2) {
                    (Ok(Token::AngleBracketClose), r3) => (Ok(TurboFish(name, t)), r3),
                    (Ok(x), r3) => (Err(ParseFault::Unexpected(x)), r3),
                    (Err(e), r3) => (Err(e), r3),
                },
                (Err(e), r2) => (Err(e), r2),
            },
            (Ok(x), r1) => (Err(ParseFault::Unexpected(x)), r1),
            (Err(e), r1) => (Err(e), r1),
        },
        (Err(e), r) => (Err(e), r),
    }
}

/// TurboIden => TurboFish | Identifier
pub open spec fn parse_turbo_iden(ts: Seq<Token>) -> Parsed<TurboIden> {
    if at_is(ts, 1, Token::Keyword(Keywords::TurboStart)) {
        match parse_turbofish(ts) {
            (Ok(t), r) => (Ok(TurboIden::TurboFish(t)), r),
            (Err(e), r) => (Err(e), r),
        }
    } else {
        match ident(ts) {
            (Ok(name), r) => (Ok(TurboIden::Identifier(name)), r),
            (Err(e), r) => (Err(e), r),
        }
    }
}

impl TurboFish {
    /// Parses `name<T>`.
    pub fn try_from(value: &mut Parser) -> (r: Result<TurboFish, ParserError>)
        ensures
            agrees(r, parse_turbofish(old(value)@).0),
            final(value)@ == parse_turbofish(old(value)@).1,
            suffix_of(final(value)@, old(value)@),
            r is Ok ==> final(value)@.len() < old(value)@.len(),
            named(r, "TurboFish"),
    {
        let name = value.pop_ident("TurboFish")?;
        let t = value.pop_front_err("TurboFish")?;
        if !matches!(t, Token::Keyword(Keywords::TurboStart)) {
            return Err(ParserError::new("TurboFish", ParseFault::Unexpected(t)));
        }
        let ty = ctx(Type::try_from(value), "TurboFish")?;
        let t = value.pop_front_err("TurboFish")?;
        if !matches!(t, Token::AngleBracketClose) {
            return Err(ParserError::new("TurboFish", ParseFault::Unexpected(t)));
        }
        Ok(TurboFish(name, ty))
    }
}

/// A turbofish is written as the name, `::<`, the type and `>`; a name
/// without one as itself.
pub proof fn lemma_turbofish_text(n: String, t: Type)
    ensures
        TurboFish(n, t).text() == n@ + "::<"@ + t.text() + ">"@,
        TurboIden::TurboFish(TurboFish(n, t)).text() == n@ + "::<"@ + t.text() + ">"@,
        TurboIden::Identifier(n).text() == n@,
{
}

impl TurboIden {
    /// Parses `name<T>` or `name`.
    pub fn try_from(value: &mut Parser) -> (r: Result<TurboIden, ParserError>)
        ensures
            agrees(r, parse_turbo_iden(old(value)@).0),
            final(value)@ == parse_turbo_iden(old(value)@).1,
            suffix_of(final(value)@, old(value)@),
            r is Ok ==> final(value)@.len() < old(value)@.len(),
            named(r, "TurboIden"),
    {
        if matches!(value.nth(1), Some(Token::Keyword(Keywords::TurboStart))) {
            let t = ctx(TurboFish::try_from(value), "TurboIden")?;
            Ok(TurboIden::TurboFish(t))
        } else {
            let name = value.pop_ident("TurboIden")?;
            Ok(TurboIden::Identifier(name))
        }
    }
}

// ---------------------------------------------------------------- rendering

impl TurboFish {
    /// The name with its type argument in Rust source text: `name::<T>`.
    pub open spec fn text(self) -> Seq<char> {
        self.0@ + "::<"@ + self.1.text() + ">"@
    }

    /// The type argument can be written.
    pub open spec fn printable(self) -> bool {
        self.1.printable()
    }

    /// Appends the Rust source text to `out`, and tells whether it could:
    /// `false` when a list that Rust needs non-empty is empty, and `out` then holds an unfinished text.
    pub fn write_to(&self, out: &mut String) -> (ok: bool)
        ensures
            ok == self.printable(),
            ok ==> final(out)@ == old(out)@ + self.text(),
    {
        let ghost start = out@;
        out.append(self.0.as_str());
        out.append("::<");
        if !self.1.write_to(out) {
            return false;
        }
        out.append(">");
        assert(out@ =~= start + self.text());
        true
    }

    /// The name with its type argument in Rust source text.
    pub fn to_string(&self) -> (s: String)
        requires
            self.printable(),
        ensures
            s@ == self.text(),
    {
        let mut s = String::new();
        self.write_to(&mut s);
        s
    }
}

impl TurboIden {
    /// The name in Rust source text.
    pub open spec fn text(self) -> Seq<char> {
        match self {
            TurboIden::TurboFish(t) => t.text(),
            TurboIden::Identifier(name) => name@,
        }
    }

    /// A type argument, if there is one, can be written.
    pub open spec fn printable(self) -> bool {
        match self {
            TurboIden::TurboFish(t) => t.printable(),
            TurboIden::Identifier(_) => true,
        }
    }

    /// Appends the Rust source text to `out`, and tells whether it could:
    /// `false` when a list that Rust needs non-empty is empty, and `out` then holds an unfinished text.
    pub fn write_to(&self, out: &mut String) -> (ok: bool)
        ensures
            ok == self.printable(),
            ok ==> final(out)@ == old(out)@ + self.text(),
    {
        match self {
            TurboIden::TurboFish(t) => if !t.write_to(out) {
                return false;
            },
            TurboIden::Identifier(name) => out.append(name.as_str()),
        }
        true
    }

    /// The name in Rust source text.
    pub fn to_string(&self) -> (s: String)
        requires
            self.printable(),
        ensures
            s@ == self.text(),
    {
        let mut s = String::new();
        self.write_to(&mut s);
        s
    }
}

} // verus!
