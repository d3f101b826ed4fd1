use vstd::pervasive::unreached;
use vstd::prelude::*;

use crate::tokenizer::{Keywords, Token};

use super::defun::{parse_scope, Scope};
use crate::text::join;

use super::file::{file_ops_printable, file_ops_texts, parse_file_op, write_file_ops, File, FileOps};
use super::list::List;
use super::{agrees, named, ctx, ident, map_ok, pop, suffix_of, ParseFault, Parsed, Parser, ParserError};

verus! {

broadcast use super::lemma_suffix_trans;

/// A module: `(pub? mod name)` or `(pub? mod name [items])`.
#[derive(Debug)]
pub enum Mod {
    Full { scope: Scope, name: String, body: List<FileOps> },
    Header(Scope, String),
}

/// The parser of a module does not stop on these tokens: a scope can be
/// read after the opening '(' (a missing or wrong scope there stops it).
pub open spec fn mod_defined(ts: Seq<Token>) -> bool {
    ts.len() > 0 && ts[0] == Token::ParenOpen ==> parse_scope(ts.drop_first()).0 is Ok
}

/// Items up to and with ']'.
pub open spec fn mod_items(ts: Seq<Token>) -> Parsed<List<FileOps>>
    decreases ts.len(),
{
    if ts.len() == 0 {
        (Err(ParseFault::MoreTokens), ts)
    } else if ts[0] == Token::BracketClose {
        (Ok(List::Nil), ts.drop_first())
    } else {
        match parse_file_op(ts) {
            (Ok(op), r) => if r.len() < ts.len() {
                map_ok(mod_items(r), |rest: List<FileOps>| List::Cons(Box::new(op), Box::new(rest)))
            } else {
                (Err(ParseFault::MoreTokens), r)
            },
            (Err(f), r) => (Err(f), r),
        }
    }
}

/// Mod => '(' Scope 'mod' Identifier (')' | '[' {FileOps} ']' ')')
/// (the grammar is only used where `mod_defined` holds).
pub open spec fn parse_mod(ts: Seq<Token>) -> Parsed<Mod> {
    match pop(ts) {
        (Ok(Token::ParenOpen), r) => match parse_scope(r) {
            (Ok(scope), r1) => match pop(r1) {
                (Ok(Token::Keyword(Keywords::Mod)), r2) => match ident(r2) {
                    (Ok(name), r3) => match pop(r3) {
                        (Ok(Token::ParenClose), r4) => (Ok(Mod::Header(scope, name)), r4),
                        (Ok(Token::BracketOpen), r4) => match mod_items(r4) {
                            (Ok(body), r5) => match pop(r5) {
                                (Ok(Token::ParenClose), r6) => (Ok(Mod::Full { scope, name, body }), r6),
                                (Ok(x), r6) => (Err(ParseFault::Unexpected(x)), r6),
                                (Err(f), r6) => (Err(f), r6),
                            },
                            (Err(f), r5) => (Err(f), r5),
                        },
                        (Ok(x), r4) => (Err(ParseFault::Unexpected(x)), r4),
                        (Err(f), r4) => (Err(f), r4),
                    },
                    (Err(f), r3) => (Err(f), r3),
                },
                (Ok(x), r2) => (Err(ParseFault::Unexpected(x)), r2),
                (Err(f), r2) => (Err(f), r2),
            },
            (Err(f), r1) => (Err(f), r1),
        },
        (Ok(x), r) => (Err(ParseFault::Unexpected(x)), r),
        (Err(f), r) => (Err(f), r),
    }
}

fn take_mod_items(value: &mut Parser) -> (r: Result<List<FileOps>, ParserError>)
    ensures
        agrees(r, mod_items(old(value)@).0),
        final(value)@ == mod_items(old(value)@).1,
        suffix_of(final(value)@, old(value)@),
        named(r, "Mod"),
    decreases old(value)@.len(),
{
    let peek = value.first_err("Mod")?;
    if matches!(peek, Token::BracketClose) {
        value.pop_front();
        return Ok(List::Nil);
    }
    let op = ctx(FileOps::try_from(value), "Mod")?;
    let rest = take_mod_items(value)?;
    Ok(List::Cons(Box::new(op), Box::new(rest)))
}

/// A module is written as its scope, `mod `, its name and its items as a
/// file writes them in ` {..}`, or `;` when it has no body.
pub proof fn lemma_module_text(scope: Scope, name: String, body: List<FileOps>)
    ensures
        (Mod::Full { scope, name, body }).text() == scope.text() + "mod "@ + name@ + " {"@ + File(
            body,
        ).text() + "}"@,
        Mod::Header(scope, name).text() == scope.text() + "mod "@ + name@ + ";"@,
{
}

impl Mod {
    /// Parses a module.
    pub fn try_from(value: &mut Parser) -> (r: Result<Mod, ParserError>)
        requires
            mod_defined(old(value)@),
        ensures
            agrees(r, parse_mod(old(value)@).0),
            final(value)@ == parse_mod(old(value)@).1,
            suffix_of(final(value)@, old(value)@),
            named(r, "Mod"),
    {
        let t = value.pop_front_err("Mod")?;
        if !matches!(t, Token::ParenOpen) {
            return Err(ParserError::new("Mod", ParseFault::Unexpected(t)));
        }
        let scope = match Scope::try_from(value) {
            Ok(s) => s,
            Err(_) => unreached(),
        };
        let t = value.pop_front_err("Mod")?;
        if !matches!(t, Token::Keyword(Keywords::Mod)) {
            return Err(ParserError::new("Mod", ParseFault::Unexpected(t)));
        }
        let name = value.pop_ident("Mod")?;
        let t = value.pop_front_err("Mod")?;
        match t {
            Token::ParenClose => Ok(Mod::Header(scope, name)),
            Token::BracketOpen => {
                let body = take_mod_items(value)?;
                let t = value.pop_front_err("Mod")?;
                if !matches!(t, Token::ParenClose) {
                    return Err(ParserError::new("Mod", ParseFault::Unexpected(t)));
                }
                Ok(Mod::Full { scope, name, body })
            },
            t => Err(ParserError::new("Mod", ParseFault::Unexpected(t))),
        }
    }
}

// ---------------------------------------------------------------- rendering

impl Mod {
    /// The module in Rust source text: its items, one per line, in braces, or
    /// `mod name;` when it has no body.
    pub open spec fn text(self) -> Seq<char> {
        match self {
            Mod::Full { scope, name, body } => scope.text() + "mod "@ + name@ + " {"@ + join(
                file_ops_texts(body),
                "\n"@,
            ) + "}"@,
            Mod::Header(scope, name) => scope.text() + "mod "@ + name@ + ";"@,
        }
    }

    /// Every item can be written.
    pub open spec fn printable(self) -> bool {
        match self {
            Mod::Full { body, .. } => file_ops_printable(body),
            Mod::Header(_, _) => true,
        }
    }

    /// Appends the Rust source text to `out`, and tells whether it could:
    /// `false` when a list that Rust needs non-empty is empty, and `out` then holds an unfinished text.
    pub fn write_to(&self, out: &mut String) -> (ok: bool)
        ensures
            ok == self.printable(),
            ok ==> final(out)@ == old(out)@ + self.text(),
    {
        let ghost start = out@;
        match self {
            Mod::Full { scope, name, body } => {
                if !scope.write_to(out) {
                    return false;
                }
                out.append("mod ");
                out.append(name.as_str());
                out.append(" {");
                if !write_file_ops(body, "\n", out) {
                    return false;
                }
                out.append("}");
            },
            Mod::Header(scope, name) => {
                if !scope.write_to(out) {
                    return false;
                }
                out.append("mod ");
                out.append(name.as_str());
                out.append(";");
            },
        }
        assert(out@ =~= start + self.text());
        true
    }

    /// The node in Rust source text.
    pub fn to_string(&self) -> (s: String)
        requires
            self.printable(),
        ensures
            s@ == self.text(),
    {
        let mut s = String::new();
        self.write_to(&mut s);
        s
    }
}

} // verus!
