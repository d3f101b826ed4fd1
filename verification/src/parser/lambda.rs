use vstd::prelude::*;

use crate::tokenizer::{Keywords, Token};

use super::args::{parse_args, Args};
use super::exp::{parse_exp, Exp};
use super::{agrees, named, ctx, pop, suffix_of, ParseFault, Parsed, Parser, ParserError};

verus! {

broadcast use super::lemma_suffix_trans;

/// `(lambda (x y) body)`.
#[derive(Debug)]
pub struct Lambda {
    pub args: Args,
    pub body: Exp,
}

/// Lambda => '(' 'lambda' Args Exp ')'
pub open spec fn parse_lambda(ts: Seq<Token>) -> Parsed<Lambda>
    decreases ts.len(), 16nat,
{
    match pop(ts) {
        (Ok(Token::ParenOpen), r) => match pop(r) {
            (Ok(Token::Keyword(Keywords::Lambda)), r1) => match parse_args(r1) {
                (Ok(args), r2) => if r2.len() < ts.len() {
                    match parse_exp(r2) {
                        (Ok(body), r3) => match pop(r3) {
                            (Ok(Token::ParenClose), r4) => (Ok(Lambda { args, body }), r4),
                            (Ok(x), r4) => (Err(ParseFault::Unexpected(x)), r4),
                            (Err(f), r4) => (Err(f), r4),
                        },
                        (Err(f), r3) => (Err(f), r3),
                    }
                } else {
                    (Err(ParseFault::MoreTokens), r2)
                },
                (Err(f), r2) => (Err(f), r2),
            },
            (Ok(x), r1) => (Err(ParseFault::Unexpected(x)), r1),
            (Err(f), r1) => (Err(f), r1),
        },
        (Ok(x), r) => (Err(ParseFault::Unexpected(x)), r),
        (Err(f), r) => (Err(f), r),
    }
}

/// A closure is written as its parameters, a space and its body.
pub proof fn lemma_closure_text(a: Args, b: Exp)
    ensures
        (Lambda { args: a, body: b }).text() == a.text() + " "@ + b.text(),
{
}

impl Lambda {
    /// Parses `(lambda (x y) body)`.
    pub fn try_from(value: &mut Parser) -> (r: Result<Lambda, ParserError>)
        ensures
            agrees(r, parse_lambda(old(value)@).0),
            final(value)@ == parse_lambda(old(value)@).1,
            suffix_of(final(value)@, old(value)@),
            r is Ok ==> final(value)@.len() < old(value)@.len(),
            named(r, "Lambda"),
        decreases old(value)@.len(), 16nat,
    {
        let t = value.pop_front_err("Lambda")?;
        if !matches!(t, Token::ParenOpen) {
            return Err(ParserError::new("Lambda", ParseFault::Unexpected(t)));
        }
        let t = value.pop_front_err("Lambda")?;
        if !matches!(t, Token::Keyword(Keywords::Lambda)) {
            return Err(ParserError::new("Lambda", ParseFault::Unexpected(t)));
        }
        let args = ctx(Args::try_from(value), "Lambda")?;
        let body = ctx(Exp::try_from(value), "Lambda")?;
        let t = value.pop_front_err("Lambda")?;
        if !matches!(t, Token::ParenClose) {
            return Err(ParserError::new("Lambda", ParseFault::Unexpected(t)));
        }
        Ok(Lambda { args, body })
    }
}

// ---------------------------------------------------------------- rendering

impl Lambda {
    /// The closure in Rust source text: its parameters, a space, its body.
    pub open spec fn text(self) -> Seq<char>
        decreases self,
    {
        self.args.text() + " "@ + self.body.text()
    }

    /// The closure has a parameter, and its body can be written.
    pub open spec fn printable(self) -> bool
        decreases self,
    {
        self.args.printable() && self.body.printable()
    }

    /// Appends the Rust source text to `out`, and tells whether it could:
    /// `false` when a list that Rust needs non-empty is empty, and `out` then holds an unfinished text.
    pub fn write_to(&self, out: &mut String) -> (ok: bool)
        ensures
            ok == self.printable(),
            ok ==> final(out)@ == old(out)@ + self.text(),
        decreases self,
    {
        let ghost start = out@;
        if !self.args.write_to(out) {
            return false;
        }
        out.append(" ");
        if !self.body.write_to(out) {
            return false;
        }
        assert(out@ =~= start + self.text());
        true
    }

    /// The node in Rust source text.
    pub fn to_string(&self) -> (s: String)
        requires
            self.printable(),
        ensures
            s@ == self.text(),
    {
        let mut s = String::new();
        self.write_to(&mut s);
        s
    }
}

} // verus!
