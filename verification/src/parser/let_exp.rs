use vstd::prelude::*;

use crate::tokenizer::{Keywords, Token};

use super::exp::{parse_exp, Exp};
use super::list::List;
use super::{agrees, named, ctx, ident, map_ok, pop, suffix_of, ParseFault, Parsed, Parser, ParserError};

verus! {

broadcast use super::lemma_suffix_trans;

/// `(let (x 10) body)` or `(let ((x 10) (y 20)) body)`.
#[derive(Debug)]
pub struct Let {
    pub vars: List<(String, Exp)>,
    pub body: Exp,
}

/// Let => '(' 'let' '(' (Identifier Exp ')' | {'(' Identifier Exp ')'} ')') Exp ')'
pub open spec fn parse_let(ts: Seq<Token>) -> Parsed<Let>
    decreases ts.len(), 16nat,
{
    match pop(ts) {
        (Ok(Token::ParenOpen), r) => match pop(r) {
            (Ok(Token::Keyword(Keywords::Let)), r1) => match pop(r1) {
                (Ok(Token::ParenOpen), r2) => match pop(r2) {
                    (Ok(Token::Identifier(name)), r3) => match parse_exp(r3) {
                        (Ok(e), r4) => match pop(r4) {
                            (Ok(Token::ParenClose), r5) => if r5.len() < ts.len() {
                                let_body(
                                    r5,
                                    List::Cons(Box::new((name, e)), Box::new(List::Nil)),
                                )
                            } else {
                                (Err(ParseFault::MoreTokens), r5)
                            },
                            (Ok(x), r5) => (Err(ParseFault::Unexpected(x)), r5),
                            (Err(f), r5) => (Err(f), r5),
                        },
                        (Err(f), r4) => (Err(f), r4),
                    },
                    (Ok(Token::ParenOpen), _) => match let_bindings(r2) {
                        (Ok(vars), r3) => if r3.len() < ts.len() {
                            let_body(r3, vars)
                        } else {
                            (Err(ParseFault::MoreTokens), r3)
                        },
                        (Err(f), r3) => (Err(f), r3),
                    },
                    (Ok(x), r3) => (Err(ParseFault::Unexpected(x)), r3),
                    (Err(f), r3) => (Err(f), r3),
                },
                (Ok(x), r2) => (Err(ParseFault::Unexpected(x)), r2),
                (Err(f), r2) => (Err(f), r2),
            },
            (Ok(x), r1) => (Err(ParseFault::Unexpected(x)), r1),
            (Err(f), r1) => (Err(f), r1),
        },
        (Ok(x), r) => (Err(ParseFault::Unexpected(x)), r),
        (Err(f), r) => (Err(f), r),
    }
}

/// {'(' Identifier Exp ')'} ')'
pub open spec fn let_bindings(ts: Seq<Token>) -> Parsed<List<(String, Exp)>>
    decreases ts.len(), 16nat,
{
    match pop(ts) {
        (Ok(Token::ParenClose), r) => (Ok(List::Nil), r),
        (Ok(Token::ParenOpen), r) => match ident(r) {
            (Ok(name), r1) => match parse_exp(r1) {
                (Ok(e), r2) => match pop(r2) {
                    (Ok(Token::ParenClose), r3) => if r3.len() < ts.len() {
                        map_ok(
                            let_bindings(r3),
                            |rest: List<(String, Exp)>|
                                List::Cons(Box::new((name, e)), Box::new(rest)),
                        )
                    } else {
                        (Err(ParseFault::MoreTokens), r3)
                    },
                    (Ok(x), r3) => (Err(ParseFault::Unexpected(x)), r3),
                    (Err(f), r3) => (Err(f), r3),
                },
                (Err(f), r2) => (Err(f), r2),
            },
            (Err(f), r1) => (Err(f), r1),
        },
        (Ok(x), r) => (Err(ParseFault::Unexpected(x)), r),
        (Err(f), r) => (Err(f), r),
    }
}

/// Exp ')'
pub open spec fn let_body(ts: Seq<Token>, vars: List<(String, Exp)>) -> Parsed<Let>
    decreases ts.len(), 21nat,
{
    match parse_exp(ts) {
        (Ok(body), r) => match pop(r) {
            (Ok(Token::ParenClose), r1) => (Ok(Let { vars, body }), r1),
            (Ok(x), r1) => (Err(ParseFault::Unexpected(x)), r1),
            (Err(f), r1) => (Err(f), r1),
        },
        (Err(f), r) => (Err(f), r),
    }
}

/// A `let` expression is written in braces: each binding as `let name =
/// value;` and a line break, then the body; the bindings after the first
/// are written as the `let` that has only them.
pub proof fn lemma_let_text(n: String, e: Exp, rest: List<(String, Exp)>, body: Exp)
    ensures
        (Let { vars: List::Nil, body }).text() == "{"@ + body.text() + "}"@,
        (Let { vars: List::Cons(Box::new((n, e)), Box::new(rest)), body }).text() == "{"@
            + "let "@ + n@ + " = "@ + e.text() + ";\n"@ + (Let { vars: rest, body }).text().subrange(
            1,
            (Let { vars: rest, body }).text().len() - 1,
        ) + "}"@,
{
    assert(bindings_text(List::<(String, Exp)>::Nil) =~= Seq::<char>::empty());
    assert((Let { vars: List::Nil, body }).text() =~= "{"@ + body.text() + "}"@);
    let s = (Let { vars: rest, body }).text();
    reveal_strlit("{");
    reveal_strlit("}");
    assert(s =~= "{"@ + bindings_text(rest) + body.text() + "}"@);
    assert(s.subrange(1, s.len() - 1) =~= bindings_text(rest) + body.text());
    assert((Let { vars: List::Cons(Box::new((n, e)), Box::new(rest)), body }).text() =~= "{"@
        + "let "@ + n@ + " = "@ + e.text() + ";\n"@ + s.subrange(1, s.len() - 1) + "}"@);
}

impl Let {
    /// Parses `(let (x 10) body)` or `(let ((x 10) (y 20)) body)`.
    pub fn try_from(value: &mut Parser) -> (r: Result<Let, ParserError>)
        ensures
            agrees(r, parse_let(old(value)@).0),
            final(value)@ == parse_let(old(value)@).1,
            suffix_of(final(value)@, old(value)@),
            r is Ok ==> final(value)@.len() < old(value)@.len(),
            named(r, "Let") || named(r, "Let vars") || named(r, "Exp") || named(r, "Self")
            || named(r, "exp"),
        decreases old(value)@.len(), 16nat,
    {
        let t = value.pop_front_err("Let")?;
        if !matches!(t, Token::ParenOpen) {
            return Err(ParserError::new("Let", ParseFault::Unexpected(t)));
        }
        let t = value.pop_front_err("Let")?;
        if !matches!(t, Token::Keyword(Keywords::Let)) {
            return Err(ParserError::new("Let", ParseFault::Unexpected(t)));
        }
        let t = value.pop_front_err("Let")?;
        if !matches!(t, Token::ParenOpen) {
            return Err(ParserError::new("Let", ParseFault::Unexpected(t)));
        }
        let ghost before = value@;
        let next = value.pop_front_err("Let")?;
        match next {
            Token::Identifier(name) => {
                let e = Exp::try_from(value)?;
                let t = value.pop_front_err("Let")?;
                if !matches!(t, Token::ParenClose) {
                    return Err(ParserError::new("Let", ParseFault::Unexpected(t)));
                }
                take_let_body(value, List::Cons(Box::new((name, e)), Box::new(List::Nil)))
            },
            Token::ParenOpen => {
                value.push_front(Token::ParenOpen);
                assert(value@ =~= before);
                let vars = take_let_bindings(value)?;
                take_let_body(value, vars)
            },
            t => Err(ParserError::new("Let", ParseFault::Unexpected(t))),
        }
    }
}

fn take_let_bindings(value: &mut Parser) -> (r: Result<List<(String, Exp)>, ParserError>)
    ensures
        agrees(r, let_bindings(old(value)@).0),
        final(value)@ == let_bindings(old(value)@).1,
        suffix_of(final(value)@, old(value)@),
        named(r, "Let") || named(r, "Let vars") || named(r, "Exp") || named(r, "Self")
            || named(r, "exp"),
    decreases old(value)@.len(), 16nat,
{
    let next = value.pop_front_err("Let")?;
    match next {
        Token::ParenClose => Ok(List::Nil),
        Token::ParenOpen => {
            let name = value.pop_ident("Let")?;
            let e = Exp::try_from(value)?;
            let t = value.pop_front_err("Let vars")?;
            if !matches!(t, Token::ParenClose) {
                return Err(ParserError::new("Let vars", ParseFault::Unexpected(t)));
            }
            let rest = take_let_bindings(value)?;
            Ok(List::Cons(Box::new((name, e)), Box::new(rest)))
        },
        t => Err(ParserError::new("Let", ParseFault::Unexpected(t))),
    }
}

fn take_let_body(value: &mut Parser, vars: List<(String, Exp)>) -> (r: Result<Let, ParserError>)
    ensures
        agrees(r, let_body(old(value)@, vars).0),
        final(value)@ == let_body(old(value)@, vars).1,
        suffix_of(final(value)@, old(value)@),
        named(r, "Let"),
    decreases old(value)@.len(), 21nat,
{
    let body = ctx(Exp::try_from(value), "Let")?;
        let t = value.pop_front_err("Let")?;
        if !matches!(t, Token::ParenClose) {
            return Err(ParserError::new("Let", ParseFault::Unexpected(t)));
        }
    Ok(Let { vars, body })
}

// ---------------------------------------------------------------- rendering

/// The bindings, each as `let name = value;` and a line break, one after another.
pub open spec fn bindings_text(l: List<(String, Exp)>) -> Seq<char>
    decreases l,
{
    match l {
        List::Nil => Seq::empty(),
        List::Cons(h, t) => "let "@ + (*h).0@ + " = "@ + (*h).1.text() + ";\n"@ + bindings_text(*t),
    }
}

/// Every one of the bindings, each as `let name = value;` and a line break can be written.
pub open spec fn bindings_printable(l: List<(String, Exp)>) -> bool
    decreases l,
{
    match l {
        List::Nil => true,
        List::Cons(h, t) => (*h).1.printable() && bindings_printable(*t),
    }
}

fn write_bindings(l: &List<(String, Exp)>, out: &mut String) -> (ok: bool)
    ensures
        ok == bindings_printable(*l),
        ok ==> final(out)@ == old(out)@ + bindings_text(*l),
    decreases l,
{
    let ghost start = out@;
    match l {
        List::Nil => {},
        List::Cons(h, t) => {
            out.append("let ");
            out.append(h.0.as_str());
            out.append(" = ");
            if !h.1.write_to(out) {
                return false;
            }
            out.append(";\n");
            if !write_bindings(t, out) {
                return false;
            }
        },
    }
    assert(out@ =~= start + bindings_text(*l));
    true
}

impl Let {
    /// The bindings and the body in Rust source text, in braces.
    pub open spec fn text(self) -> Seq<char>
        decreases self,
    {
        "{"@ + bindings_text(self.vars) + self.body.text() + "}"@
    }

    /// Every value and the body can be written.
    pub open spec fn printable(self) -> bool
        decreases self,
    {
        bindings_printable(self.vars) && self.body.printable()
    }

    /// Appends the Rust source text to `out`, and tells whether it could:
    /// `false` when a list that Rust needs non-empty is empty, and `out` then holds an unfinished text.
    pub fn write_to(&self, out: &mut String) -> (ok: bool)
        ensures
            ok == self.printable(),
            ok ==> final(out)@ == old(out)@ + self.text(),
        decreases self,
    {
        let ghost start = out@;
        out.append("{");
        if !write_bindings(&self.vars, out) {
            return false;
        }
        if !self.body.write_to(out) {
            return false;
        }
        out.append("}");
        assert(out@ =~= start + self.text());
        true
    }

    /// The node in Rust source text.
    pub fn to_string(&self) -> (s: String)
        requires
            self.printable(),
        ensures
            s@ == self.text(),
    {
        let mut s = String::new();
        self.write_to(&mut s);
        s
    }
}

} // verus!
