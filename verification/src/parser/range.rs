use vstd::prelude::*;

use crate::tokenizer::{Keywords, Token};

use super::exp::{parse_exp, Exp};
use super::{agrees, named, at_is, ctx, map_ok, pop, suffix_of, ParseFault, Parsed, Parser, ParserError};

verus! {

broadcast use super::lemma_suffix_trans;

/// A range: `a..b`, `a..=b`, `a..`.
#[derive(Debug)]
pub enum Range {
    Normal(Exp, Exp),
    Inclusive(Exp, Exp),
    Infinite(Exp),
}

/// Range => ')'? Exp '..' ('=' Exp | ')' | Exp), where the open end is only
/// read after a leading ')'.
pub open spec fn parse_range(ts: Seq<Token>) -> Parsed<Range>
    decreases ts.len(), 21nat,
{
    let paren = at_is(ts, 0, Token::ParenClose);
    let r = if paren {
        ts.drop_first()
    } else {
        ts
    };
    match parse_exp(r) {
        (Ok(start), r1) => match pop(r1) {
            (Ok(Token::DoubleDot), r2) => if r2.len() < ts.len() {
                if at_is(r2, 0, Token::Char('=')) {
                    map_ok(parse_exp(r2.drop_first()), |end: Exp| Range::Inclusive(start, end))
                } else if at_is(r2, 0, Token::ParenClose) && paren {
                    (Ok(Range::Infinite(start)), r2)
                } else {
                    map_ok(parse_exp(r2), |end: Exp| Range::Normal(start, end))
                }
            } else {
                (Err(ParseFault::MoreTokens), r2)
            },
            (Ok(x), r2) => (Err(ParseFault::Unexpected(x)), r2),
            (Err(f), r2) => (Err(f), r2),
        },
        (Err(f), r1) => (Err(f), r1),
    }
}

/// A range is written in parentheses: its start, then `..` and its end,
/// `..=` and its end, or `..` alone when it has no end.
pub proof fn lemma_range_text(s: Exp, e: Exp)
    ensures
        Range::Normal(s, e).text() == "("@ + s.text() + ".."@ + e.text() + ")"@,
        Range::Inclusive(s, e).text() == "("@ + s.text() + "..="@ + e.text() + ")"@,
        Range::Infinite(s).text() == "("@ + s.text() + "..)"@,
{
}

impl Range {
    /// Parses a range (used by range patterns).
    pub fn try_from(value: &mut Parser) -> (r: Result<Range, ParserError>)
        ensures
            agrees(r, parse_range(old(value)@).0),
            final(value)@ == parse_range(old(value)@).1,
            suffix_of(final(value)@, old(value)@),
            r is Ok ==> final(value)@.len() < old(value)@.len(),
            named(r, "Range"),
        decreases old(value)@.len(), 21nat,
    {
        let paren = matches!(value.first(), Some(Token::ParenClose));
        if paren {
            value.pop_front();
        }
        let start = ctx(Exp::try_from(value), "Range")?;
        let next = value.pop_front_err("Range")?;
        if !matches!(next, Token::DoubleDot) {
            return Err(ParserError::new("Range", ParseFault::Unexpected(next)));
        }
        if matches!(value.first(), Some(Token::Char('='))) {
            value.pop_front();
            let end = ctx(Exp::try_from(value), "Range")?;
            Ok(Range::Inclusive(start, end))
        } else if matches!(value.first(), Some(Token::ParenClose)) && paren {
            Ok(Range::Infinite(start))
        } else {
            let end = ctx(Exp::try_from(value), "Range")?;
            Ok(Range::Normal(start, end))
        }
    }
}

// ---------------------------------------------------------------- rendering

impl Range {
    /// The range in Rust source text, in parentheses.
    pub open spec fn text(self) -> Seq<char>
        decreases self,
    {
        match self {
            Range::Normal(s, e) => "("@ + s.text() + ".."@ + e.text() + ")"@,
            Range::Inclusive(s, e) => "("@ + s.text() + "..="@ + e.text() + ")"@,
            Range::Infinite(s) => "("@ + s.text() + "..)"@,
        }
    }

    /// The bounds can be written.
    pub open spec fn printable(self) -> bool
        decreases self,
    {
        match self {
            Range::Normal(s, e) => s.printable() && e.printable(),
            Range::Inclusive(s, e) => s.printable() && e.printable(),
            Range::Infinite(s) => s.printable(),
        }
    }

    /// Appends the Rust source text to `out`, and tells whether it could:
    /// `false` when a list that Rust needs non-empty is empty, and `out` then holds an unfinished text.
    pub fn write_to(&self, out: &mut String) -> (ok: bool)
        ensures
            ok == self.printable(),
            ok ==> final(out)@ == old(out)@ + self.text(),
        decreases self,
    {
        let ghost start = out@;
        out.append("(");
        match self {
            Range::Normal(s, e) => {
                if !s.write_to(out) {
                    return false;
                }
                out.append("..");
                if !e.write_to(out) {
                    return false;
                }
                out.append(")");
            },
            Range::Inclusive(s, e) => {
                if !s.write_to(out) {
                    return false;
                }
                out.append("..=");
                if !e.write_to(out) {
                    return false;
                }
                out.append(")");
            },
            Range::Infinite(s) => {
                if !s.write_to(out) {
                    return false;
                }
                out.append("..)");
            },
        }
        assert(out@ =~= start + self.text());
        true
    }

    /// The node in Rust source text.
    pub fn to_string(&self) -> (s: String)
        requires
            self.printable(),
        ensures
            s@ == self.text(),
    {
        let mut s = String::new();
        self.write_to(&mut s);
        s
    }
}

} // verus!
