use vstd::prelude::*;

use crate::tokenizer::Token;

use super::exp::{parse_exp, Exp};
use crate::text::{join, lemma_join_cons};

use super::list::List;
use super::{agrees, named, ctx, ident, map_ok, pop, suffix_of, ParseFault, Parsed, Parser, ParserError};

verus! {

broadcast use super::lemma_suffix_trans;

/// An attribute: `#![...]` (inner) or `#[...]` (outer).
#[derive(Debug)]
pub enum Attribute {
    Inner(AttributeOps),
    Outer(AttributeOps),
}

/// The content of an attribute: `(name args..)`, `(= name exp)` or `name`.
#[derive(Debug)]
pub enum AttributeOps {
    Command(String, List<AttributeOps>),
    Assignment(String, Exp),
    Identifier(String),
}

/// Attribute => '#' '!'? '[' AttributeOps ']'
pub open spec fn parse_attribute(ts: Seq<Token>) -> Parsed<Attribute>
    decreases ts.len(), 16nat,
{
    match pop(ts) {
        (Ok(Token::Char('#')), r) => match pop(r) {
            (Ok(Token::Char('!')), r1) => match pop(r1) {
                (Ok(Token::BracketOpen), r2) => attribute_body(r2, true),
                (Ok(x), r2) => (Err(ParseFault::Unexpected(x)), r2),
                (Err(f), r2) => (Err(f), r2),
            },
            (Ok(Token::BracketOpen), r1) => attribute_body(r1, false),
            (Ok(x), r1) => (Err(ParseFault::Unexpected(x)), r1),
            (Err(f), r1) => (Err(f), r1),
        },
        (Ok(x), r) => (Err(ParseFault::Unexpected(x)), r),
        (Err(f), r) => (Err(f), r),
    }
}

/// AttributeOps ']'
pub open spec fn attribute_body(ts: Seq<Token>, inner: bool) -> Parsed<Attribute>
    decreases ts.len(), 17nat,
{
    match parse_attribute_ops(ts) {
        (Ok(ops), r) => match pop(r) {
            (Ok(Token::BracketClose), r1) => (
                Ok(
                    if inner {
                        Attribute::Inner(ops)
                    } else {
                        Attribute::Outer(ops)
                    },
                ),
                r1,
            ),
            (Ok(x), r1) => (Err(ParseFault::Unexpected(x)), r1),
            (Err(f), r1) => (Err(f), r1),
        },
        (Err(f), r) => (Err(f), r),
    }
}

/// AttributeOps => '(' Identifier {AttributeOps} ')' | '(' '=' Identifier Exp ')' | Identifier
pub open spec fn parse_attribute_ops(ts: Seq<Token>) -> Parsed<AttributeOps>
    decreases ts.len(), 16nat,
{
    match pop(ts) {
        (Ok(Token::ParenOpen), r) => match pop(r) {
            (Ok(Token::Identifier(name)), r1) => map_ok(
                attribute_args(r1),
                |args: List<AttributeOps>| AttributeOps::Command(name, args),
            ),
            (Ok(Token::Char('=')), r1) => match ident(r1) {
                (Ok(name), r2) => match parse_exp(r2) {
                    (Ok(e), r3) => match pop(r3) {
                        (Ok(Token::ParenClose), r4) => (Ok(AttributeOps::Assignment(name, e)), r4),
                        (Ok(x), r4) => (Err(ParseFault::Unexpected(x)), r4),
                        (Err(f), r4) => (Err(f), r4),
                    },
                    (Err(f), r3) => (Err(f), r3),
                },
                (Err(f), r2) => (Err(f), r2),
            },
            (Ok(x), r1) => (Err(ParseFault::Unexpected(x)), r1),
            (Err(f), r1) => (Err(f), r1),
        },
        (Ok(Token::Identifier(name)), r) => (Ok(AttributeOps::Identifier(name)), r),
        (Ok(x), r) => (Err(ParseFault::Unexpected(x)), r),
        (Err(f), r) => (Err(f), r),
    }
}

/// The arguments of an attribute command, up to and with ')'.
pub open spec fn attribute_args(ts: Seq<Token>) -> Parsed<List<AttributeOps>>
    decreases ts.len(), 17nat,
{
    if ts.len() == 0 {
        (Err(ParseFault::MoreTokens), ts)
    } else if ts[0] == Token::ParenClose {
        (Ok(List::Nil), ts.drop_first())
    } else {
        match parse_attribute_ops(ts) {
            (Ok(op), r) => if r.len() < ts.len() {
                map_ok(
                    attribute_args(r),
                    |rest: List<AttributeOps>| List::Cons(Box::new(op), Box::new(rest)),
                )
            } else {
                (Err(ParseFault::MoreTokens), r)
            },
            (Err(f), r) => (Err(f), r),
        }
    }
}

/// An attribute is written `#![..]` (inner) or `#[..]` around its
/// content; a command as its name and its arguments in parentheses with `, `
/// between neighbours (the ones after the first as the command that has only
/// them), an assignment as `name = value`, a name as itself.
pub proof fn lemma_attribute_text(ops: AttributeOps, o: AttributeOps, rest: List<AttributeOps>, name: String, e: Exp)
    ensures
        Attribute::Inner(ops).text() == "#!["@ + ops.text() + "]"@,
        Attribute::Outer(ops).text() == "#["@ + ops.text() + "]"@,
        AttributeOps::Assignment(name, e).text() == name@ + " = "@ + e.text(),
        AttributeOps::Identifier(name).text() == name@,
        AttributeOps::Command(name, List::Nil).text() == name@ + "()"@,
        AttributeOps::Command(name, List::Cons(Box::new(o), Box::new(rest))).text() == name@ + "("@
            + o.text() + (if rest is Cons {
            ", "@ + AttributeOps::Command(name, rest).text().subrange(
                name@.len() + 1int,
                AttributeOps::Command(name, rest).text().len() - 1,
            )
        } else {
            Seq::empty()
        }) + ")"@,
{
    reveal_strlit("(");
    reveal_strlit(")");
    reveal_strlit("()");
    assert(attr_ops_texts(List::<AttributeOps>::Nil) =~= Seq::<Seq<char>>::empty());
    assert(AttributeOps::Command(name, List::Nil).text() =~= name@ + "()"@);
    let l = List::Cons(Box::new(o), Box::new(rest));
    assert(attr_ops_texts(l) == seq![o.text()] + attr_ops_texts(rest));
    lemma_join_cons(o.text(), attr_ops_texts(rest), ", "@);
    let j = join(attr_ops_texts(rest), ", "@);
    let s = AttributeOps::Command(name, rest).text();
    assert(s =~= name@ + "("@ + j + ")"@);
    assert(s.subrange(name@.len() + 1int, s.len() - 1) =~= j);
    if rest is Cons {
        assert(attr_ops_texts(rest).len() > 0);
    }
    assert(AttributeOps::Command(name, l).text() =~= name@ + "("@ + o.text() + (if rest is Cons {
        ", "@ + s.subrange(name@.len() + 1int, s.len() - 1)
    } else {
        Seq::empty()
    }) + ")"@);
}

impl Attribute {
    /// Parses `#[ops]` or `#![ops]`.
    pub fn try_from(value: &mut Parser) -> (r: Result<Attribute, ParserError>)
        ensures
            agrees(r, parse_attribute(old(value)@).0),
            final(value)@ == parse_attribute(old(value)@).1,
            suffix_of(final(value)@, old(value)@),
            r is Ok ==> final(value)@.len() < old(value)@.len(),
            named(r, "Attribute"),
        decreases old(value)@.len(), 16nat,
    {
        let t = value.pop_front_err("Attribute")?;
        if !matches!(t, Token::Char('#')) {
            return Err(ParserError::new("Attribute", ParseFault::Unexpected(t)));
        }
        let next = value.pop_front_err("Attribute")?;
        match next {
            Token::Char('!') => {
                let t = value.pop_front_err("Attribute")?;
                if !matches!(t, Token::BracketOpen) {
                    return Err(ParserError::new("Attribute", ParseFault::Unexpected(t)));
                }
                take_attribute_body(value, true)
            },
            Token::BracketOpen => take_attribute_body(value, false),
            t => Err(ParserError::new("Attribute", ParseFault::Unexpected(t))),
        }
    }
}

fn take_attribute_body(value: &mut Parser, inner: bool) -> (r: Result<Attribute, ParserError>)
    ensures
        agrees(r, attribute_body(old(value)@, inner).0),
        final(value)@ == attribute_body(old(value)@, inner).1,
        suffix_of(final(value)@, old(value)@),
        named(r, "Attribute"),
    decreases old(value)@.len(), 17nat,
{
    let ops = ctx(AttributeOps::try_from(value), "Attribute")?;
        let t = value.pop_front_err("Attribute")?;
        if !matches!(t, Token::BracketClose) {
            return Err(ParserError::new("Attribute", ParseFault::Unexpected(t)));
        }
    if inner {
        Ok(Attribute::Inner(ops))
    } else {
        Ok(Attribute::Outer(ops))
    }
}

impl AttributeOps {
    /// Parses the content of an attribute.
    pub fn try_from(value: &mut Parser) -> (r: Result<AttributeOps, ParserError>)
        ensures
            agrees(r, parse_attribute_ops(old(value)@).0),
            final(value)@ == parse_attribute_ops(old(value)@).1,
            suffix_of(final(value)@, old(value)@),
            r is Ok ==> final(value)@.len() < old(value)@.len(),
            named(r, "AttributeOps"),
        decreases old(value)@.len(), 16nat,
    {
        let next = value.pop_front_err("AttributeOps")?;
        match next {
            Token::ParenOpen => {
                let next = value.pop_front_err("AttributeOps")?;
                match next {
                    Token::Identifier(name) => {
                        let args = take_attribute_args(value)?;
                        Ok(AttributeOps::Command(name, args))
                    },
                    Token::Char('=') => {
                        let name = value.pop_ident("AttributeOps")?;
                        let e = ctx(Exp::try_from(value), "AttributeOps")?;
                        let t = value.pop_front_err("AttributeOps")?;
                        if !matches!(t, Token::ParenClose) {
                            return Err(ParserError::new("AttributeOps", ParseFault::Unexpected(t)));
                        }
                        Ok(AttributeOps::Assignment(name, e))
                    },
                    t => Err(ParserError::new("AttributeOps", ParseFault::Unexpected(t))),
                }
            },
            Token::Identifier(name) => Ok(AttributeOps::Identifier(name)),
            t => Err(ParserError::new("AttributeOps", ParseFault::Unexpected(t))),
        }
    }
}

fn take_attribute_args(value: &mut Parser) -> (r: Result<List<AttributeOps>, ParserError>)
    ensures
        agrees(r, attribute_args(old(value)@).0),
        final(value)@ == attribute_args(old(value)@).1,
        suffix_of(final(value)@, old(value)@),
        named(r, "AttributeOps"),
    decreases old(value)@.len(), 17nat,
{
    let peek = value.first_err("AttributeOps")?;
    if matches!(peek, Token::ParenClose) {
        value.pop_front();
        return Ok(List::Nil);
    }
    let op = ctx(AttributeOps::try_from(value), "AttributeOps")?;
    let rest = take_attribute_args(value)?;
    Ok(List::Cons(Box::new(op), Box::new(rest)))
}

// ---------------------------------------------------------------- rendering

impl Attribute {
    /// The attribute in Rust source text: `#![..]` or `#[..]`.
    pub open spec fn text(self) -> Seq<char>
        decreases self,
    {
        match self {
            Attribute::Inner(ops) => "#!["@ + ops.text() + "]"@,
            Attribute::Outer(ops) => "#["@ + ops.text() + "]"@,
        }
    }

    /// Its contents can be written.
    pub open spec fn printable(self) -> bool
        decreases self,
    {
        match self {
            Attribute::Inner(ops) => ops.printable(),
            Attribute::Outer(ops) => ops.printable(),
        }
    }

    /// Appends the Rust source text to `out`, and tells whether it could:
    /// `false` when a list that Rust needs non-empty is empty, and `out` then holds an unfinished text.
    pub fn write_to(&self, out: &mut String) -> (ok: bool)
        ensures
            ok == self.printable(),
            ok ==> final(out)@ == old(out)@ + self.text(),
        decreases self,
    {
        let ghost start = out@;
        match self {
            Attribute::Inner(ops) => {
                out.append("#![");
                if !ops.write_to(out) {
                    return false;
                }
            },
            Attribute::Outer(ops) => {
                out.append("#[");
                if !ops.write_to(out) {
                    return false;
                }
            },
        }
        out.append("]");
        assert(out@ =~= start + self.text());
        true
    }

    /// The node in Rust source text.
    pub fn to_string(&self) -> (s: String)
        requires
            self.printable(),
        ensures
            s@ == self.text(),
    {
        let mut s = String::new();
        self.write_to(&mut s);
        s
    }
}

impl AttributeOps {
    /// The contents of an attribute in Rust source text.
    pub open spec fn text(self) -> Seq<char>
        decreases self,
    {
        match self {
            AttributeOps::Command(name, args) => name@ + "("@ + join(attr_ops_texts(args), ", "@) + ")"@,
            AttributeOps::Assignment(name, e) => name@ + " = "@ + e.text(),
            AttributeOps::Identifier(name) => name@,
        }
    }

    /// Every value in it can be written.
    pub open spec fn printable(self) -> bool
        decreases self,
    {
        match self {
            AttributeOps::Command(_, args) => attr_ops_printable(args),
            AttributeOps::Assignment(_, e) => e.printable(),
            AttributeOps::Identifier(_) => true,
        }
    }

    /// Appends the Rust source text to `out`, and tells whether it could:
    /// `false` when a list that Rust needs non-empty is empty, and `out` then holds an unfinished text.
    pub fn write_to(&self, out: &mut String) -> (ok: bool)
        ensures
            ok == self.printable(),
            ok ==> final(out)@ == old(out)@ + self.text(),
        decreases self,
    {
        let ghost start = out@;
        match self {
            AttributeOps::Command(name, args) => {
                out.append(name.as_str());
                out.append("(");
                if !write_attr_ops(args, ", ", out) {
                    return false;
                }
                out.append(")");
            },
            AttributeOps::Assignment(name, e) => {
                out.append(name.as_str());
                out.append(" = ");
                if !e.write_to(out) {
                    return false;
                }
            },
            AttributeOps::Identifier(name) => out.append(name.as_str()),
        }
        assert(out@ =~= start + self.text());
        true
    }

    /// The node in Rust source text.
    pub fn to_string(&self) -> (s: String)
        requires
            self.printable(),
        ensures
            s@ == self.text(),
    {
        let mut s = String::new();
        self.write_to(&mut s);
        s
    }
}

/// The texts of the attribute arguments, in order.
pub open spec fn attr_ops_texts(l: List<AttributeOps>) -> Seq<Seq<char>>
    decreases l,
{
    match l {
        List::Nil => Seq::empty(),
        List::Cons(h, t) => seq![(*h).text()] + attr_ops_texts(*t),
    }
}

/// Every one of the attribute arguments can be written.
pub open spec fn attr_ops_printable(l: List<AttributeOps>) -> bool
    decreases l,
{
    match l {
        List::Nil => true,
        List::Cons(h, t) => (*h).printable() && attr_ops_printable(*t),
    }
}

/// Appends the attribute arguments, with `sep` between neighbours.
pub(crate) fn write_attr_ops(l: &List<AttributeOps>, sep: &str, out: &mut String) -> (ok: bool)
    ensures
        ok == attr_ops_printable(*l),
        ok ==> final(out)@ == old(out)@ + join(attr_ops_texts(*l), sep@),
    decreases l,
{
    match l {
        List::Nil => {
            assert(out@ =~= old(out)@ + join(attr_ops_texts(*l), sep@));
        },
        List::Cons(h, t) => {
            let ghost start = out@;
            if !h.write_to(out) {
                return false;
            }
            match &**t {
                List::Nil => {},
                List::Cons(_, _) => out.append(sep),
            }
            if !write_attr_ops(t, sep, out) {
                return false;
            }
            proof {
                lemma_join_cons((*h).text(), attr_ops_texts(**t), sep@);
                assert(out@ =~= start + join(attr_ops_texts(*l), sep@));
            }
        },
    }
    true
}

} // verus!
