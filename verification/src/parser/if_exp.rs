use vstd::prelude::*;

use crate::tokenizer::{Keywords, Token};

use super::exp::{parse_exp, Exp};
use super::list::List;
use super::{agrees, named, at_is, ctx, map_ok, pop, suffix_of, ParseFault, Parsed, Parser, ParserError};

verus! {

broadcast use super::lemma_suffix_trans;

/// `(if cond then elif cond2 then2 else otherwise)`; at most one `elif`.
#[derive(Debug)]
pub struct If {
    pub condition: Exp,
    pub true_branch: Exp,
    pub elif_branch: List<(Exp, Exp)>,
    pub false_branch: Exp,
}

/// If => '(' 'if' Exp Exp ('elif' Exp Exp)? 'else'? Exp ')'
pub open spec fn parse_if(ts: Seq<Token>) -> Parsed<If>
    decreases ts.len(), 16nat,
{
    match pop(ts) {
        (Ok(Token::ParenOpen), r) => match pop(r) {
            (Ok(Token::Keyword(Keywords::If)), r1) => match parse_exp(r1) {
                (Ok(c), r2) => if r2.len() < ts.len() {
                    match parse_exp(r2) {
                        (Ok(t), r3) => if r3.len() < ts.len() {
                            if at_is(r3, 0, Token::Keyword(Keywords::Elif)) || at_is(
                                r3,
                                0,
                                Token::Keyword(Keywords::Else),
                            ) {
                                if_rest(r3, c, t)
                            } else {
                                if_last(r3, c, t, List::Nil)
                            }
                        } else {
                            (Err(ParseFault::MoreTokens), r3)
                        },
                        (Err(f), r3) => (Err(f), r3),
                    }
                } else {
                    (Err(ParseFault::MoreTokens), r2)
                },
                (Err(f), r2) => (Err(f), r2),
            },
            (Ok(x), r1) => (Err(ParseFault::Unexpected(x)), r1),
            (Err(f), r1) => (Err(f), r1),
        },
        (Ok(x), r) => (Err(ParseFault::Unexpected(x)), r),
        (Err(f), r) => (Err(f), r),
    }
}

/// After the condition and the first branch: the optional `elif` and the `else`.
pub open spec fn if_rest(ts: Seq<Token>, c: Exp, t: Exp) -> Parsed<If>
    decreases ts.len(), 16nat,
{
    if at_is(ts, 0, Token::Keyword(Keywords::Elif)) {
        match parse_exp(ts.drop_first()) {
            (Ok(c2), r) => if r.len() < ts.len() {
                match parse_exp(r) {
                    (Ok(t2), r1) => if r1.len() < ts.len() {
                        let elifs = List::Cons(Box::new((c2, t2)), Box::new(List::Nil));
                        if at_is(r1, 0, Token::Keyword(Keywords::Else)) {
                            if_else(r1, c, t, elifs)
                        } else {
                            if_last(r1, c, t, elifs)
                        }
                    } else {
                        (Err(ParseFault::MoreTokens), r1)
                    },
                    (Err(f), r1) => (Err(f), r1),
                }
            } else {
                (Err(ParseFault::MoreTokens), r)
            },
            (Err(f), r) => (Err(f), r),
        }
    } else {
        if_else(ts, c, t, List::Nil)
    }
}

/// The last branch without 'else' before it: Exp ')'
pub open spec fn if_last(ts: Seq<Token>, c: Exp, t: Exp, elifs: List<(Exp, Exp)>) -> Parsed<If>
    decreases ts.len(), 21nat,
{
    match parse_exp(ts) {
        (Ok(f), r1) => match pop(r1) {
            (Ok(Token::ParenClose), r2) => (
                Ok(If { condition: c, true_branch: t, elif_branch: elifs, false_branch: f }),
                r2,
            ),
            (Ok(x), r2) => (Err(ParseFault::Unexpected(x)), r2),
            (Err(e), r2) => (Err(e), r2),
        },
        (Err(e), r1) => (Err(e), r1),
    }
}

/// 'else' Exp ')'
pub open spec fn if_else(ts: Seq<Token>, c: Exp, t: Exp, elifs: List<(Exp, Exp)>) -> Parsed<If>
    decreases ts.len(), 15nat,
{
    match pop(ts) {
        (Ok(Token::Keyword(Keywords::Else)), r) => match parse_exp(r) {
            (Ok(f), r1) => match pop(r1) {
                (Ok(Token::ParenClose), r2) => (
                    Ok(If { condition: c, true_branch: t, elif_branch: elifs, false_branch: f }),
                    r2,
                ),
                (Ok(x), r2) => (Err(ParseFault::Unexpected(x)), r2),
                (Err(e), r2) => (Err(e), r2),
            },
            (Err(e), r1) => (Err(e), r1),
        },
        (Ok(x), r) => (Err(ParseFault::Unexpected(x)), r),
        (Err(e), r) => (Err(e), r),
    }
}

/// An `if` is written `if cond {then}`, then its `elif` branches, then
/// ` else {otherwise}`; an `elif` branch is written as ` else ` followed by
/// the `if` that the branch starts.
pub proof fn lemma_if_text(c: Exp, t: Exp, c2: Exp, t2: Exp, rest: List<(Exp, Exp)>, f: Exp)
    ensures
        (If { condition: c, true_branch: t, elif_branch: List::Nil, false_branch: f }).text()
            == "if "@ + c.text() + " {"@ + t.text() + "}"@ + " else {"@ + f.text() + "}"@,
        (If {
            condition: c,
            true_branch: t,
            elif_branch: List::Cons(Box::new((c2, t2)), Box::new(rest)),
            false_branch: f,
        }).text() == "if "@ + c.text() + " {"@ + t.text() + "}"@ + " else "@ + (If {
            condition: c2,
            true_branch: t2,
            elif_branch: rest,
            false_branch: f,
        }).text(),
{
    reveal_strlit(" else ");
    reveal_strlit(" else if ");
    reveal_strlit("if ");
    let i0 = If { condition: c, true_branch: t, elif_branch: List::Nil, false_branch: f };
    assert(i0.text() =~= "if "@ + c.text() + " {"@ + t.text() + "}"@ + " else {"@ + f.text()
        + "}"@);
    let i2 = If { condition: c2, true_branch: t2, elif_branch: rest, false_branch: f };
    let i1 = If {
        condition: c,
        true_branch: t,
        elif_branch: List::Cons(Box::new((c2, t2)), Box::new(rest)),
        false_branch: f,
    };
    assert(i1.text() =~= "if "@ + c.text() + " {"@ + t.text() + "}"@ + " else "@ + i2.text());
}

impl If {
    /// Parses `(if cond then elif cond2 then2 else otherwise)`.
    pub fn try_from(value: &mut Parser) -> (r: Result<If, ParserError>)
        ensures
            agrees(r, parse_if(old(value)@).0),
            final(value)@ == parse_if(old(value)@).1,
            suffix_of(final(value)@, old(value)@),
            r is Ok ==> final(value)@.len() < old(value)@.len(),
            named(r, "If"),
        decreases old(value)@.len(), 16nat,
    {
        let t = value.pop_front_err("If")?;
        if !matches!(t, Token::ParenOpen) {
            return Err(ParserError::new("If", ParseFault::Unexpected(t)));
        }
        let t = value.pop_front_err("If")?;
        if !matches!(t, Token::Keyword(Keywords::If)) {
            return Err(ParserError::new("If", ParseFault::Unexpected(t)));
        }
        let c = ctx(Exp::try_from(value), "If")?;
        let t = ctx(Exp::try_from(value), "If")?;
        if matches!(value.first(), Some(Token::Keyword(Keywords::Elif) | Token::Keyword(Keywords::Else))) {
            take_if_rest(value, c, t)
        } else {
            take_if_last(value, c, t, List::Nil)
        }
    }
}

fn take_if_rest(value: &mut Parser, c: Exp, t: Exp) -> (r: Result<If, ParserError>)
    ensures
        agrees(r, if_rest(old(value)@, c, t).0),
        final(value)@ == if_rest(old(value)@, c, t).1,
        suffix_of(final(value)@, old(value)@),
        named(r, "If"),
    decreases old(value)@.len(), 16nat,
{
    if matches!(value.first(), Some(Token::Keyword(Keywords::Elif))) {
        value.pop_front();
        let c2 = ctx(Exp::try_from(value), "If")?;
        let t2 = ctx(Exp::try_from(value), "If")?;
        let elifs = List::Cons(Box::new((c2, t2)), Box::new(List::Nil));
        if matches!(value.first(), Some(Token::Keyword(Keywords::Else))) {
            take_if_else(value, c, t, elifs)
        } else {
            take_if_last(value, c, t, elifs)
        }
    } else {
        take_if_else(value, c, t, List::Nil)
    }
}

fn take_if_last(value: &mut Parser, c: Exp, then: Exp, elifs: List<(Exp, Exp)>) -> (r: Result<If, ParserError>)
    ensures
        agrees(r, if_last(old(value)@, c, then, elifs).0),
        final(value)@ == if_last(old(value)@, c, then, elifs).1,
        suffix_of(final(value)@, old(value)@),
        named(r, "If"),
    decreases old(value)@.len(), 21nat,
{
    let f = ctx(Exp::try_from(value), "If")?;
    let t = value.pop_front_err("If")?;
    if !matches!(t, Token::ParenClose) {
        return Err(ParserError::new("If", ParseFault::Unexpected(t)));
    }
    Ok(If { condition: c, true_branch: then, elif_branch: elifs, false_branch: f })
}

fn take_if_else(value: &mut Parser, c: Exp, then: Exp, elifs: List<(Exp, Exp)>) -> (r: Result<If, ParserError>)
    ensures
        agrees(r, if_else(old(value)@, c, then, elifs).0),
        final(value)@ == if_else(old(value)@, c, then, elifs).1,
        suffix_of(final(value)@, old(value)@),
        named(r, "If"),
    decreases old(value)@.len(), 15nat,
{
    let t = value.pop_front_err("If")?;
    if !matches!(t, Token::Keyword(Keywords::Else)) {
        return Err(ParserError::new("If", ParseFault::Unexpected(t)));
    }
    let f = ctx(Exp::try_from(value), "If")?;
    let t = value.pop_front_err("If")?;
    if !matches!(t, Token::ParenClose) {
        return Err(ParserError::new("If", ParseFault::Unexpected(t)));
    }
    Ok(If { condition: c, true_branch: then, elif_branch: elifs, false_branch: f })
}

// ---------------------------------------------------------------- rendering

/// The further branches, each as ` else if cond {body}`, one after another.
pub open spec fn elifs_text(l: List<(Exp, Exp)>) -> Seq<char>
    decreases l,
{
    match l {
        List::Nil => Seq::empty(),
        List::Cons(h, t) => " else if "@ + (*h).0.text() + " {"@ + (*h).1.text() + "}"@ + elifs_text(*t),
    }
}

/// Every one of the further branches, each as ` else if cond {body}` can be written.
pub open spec fn elifs_printable(l: List<(Exp, Exp)>) -> bool
    decreases l,
{
    match l {
        List::Nil => true,
        List::Cons(h, t) => (*h).0.printable() && (*h).1.printable() && elifs_printable(*t),
    }
}

fn write_elifs(l: &List<(Exp, Exp)>, out: &mut String) -> (ok: bool)
    ensures
        ok == elifs_printable(*l),
        ok ==> final(out)@ == old(out)@ + elifs_text(*l),
    decreases l,
{
    let ghost start = out@;
    match l {
        List::Nil => {},
        List::Cons(h, t) => {
            out.append(" else if ");
            if !h.0.write_to(out) {
                return false;
            }
            out.append(" {");
            if !h.1.write_to(out) {
                return false;
            }
            out.append("}");
            if !write_elifs(t, out) {
                return false;
            }
        },
    }
    assert(out@ =~= start + elifs_text(*l));
    true
}

impl If {
    /// The conditional in Rust source text.
    pub open spec fn text(self) -> Seq<char>
        decreases self,
    {
        "if "@ + self.condition.text() + " {"@ + self.true_branch.text() + "}"@ + elifs_text(
            self.elif_branch,
        ) + " else {"@ + self.false_branch.text() + "}"@
    }

    /// Every part can be written.
    pub open spec fn printable(self) -> bool
        decreases self,
    {
        &&& self.condition.printable()
        &&& self.true_branch.printable()
        &&& elifs_printable(self.elif_branch)
        &&& self.false_branch.printable()
    }

    /// Appends the Rust source text to `out`, and tells whether it could:
    /// `false` when a list that Rust needs non-empty is empty, and `out` then holds an unfinished text.
    pub fn write_to(&self, out: &mut String) -> (ok: bool)
        ensures
            ok == self.printable(),
            ok ==> final(out)@ == old(out)@ + self.text(),
        decreases self,
    {
        let ghost start = out@;
        out.append("if ");
        if !self.condition.write_to(out) {
            return false;
        }
        out.append(" {");
        if !self.true_branch.write_to(out) {
            return false;
        }
        out.append("}");
        if !write_elifs(&self.elif_branch, out) {
            return false;
        }
        out.append(" else {");
        if !self.false_branch.write_to(out) {
            return false;
        }
        out.append("}");
        assert(out@ =~= start + self.text());
        true
    }

    /// The node in Rust source text.
    pub fn to_string(&self) -> (s: String)
        requires
            self.printable(),
        ensures
            s@ == self.text(),
    {
        let mut s = String::new();
        self.write_to(&mut s);
        s
    }
}

} // verus!
