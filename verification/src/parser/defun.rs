use vstd::pervasive::unreached;
use vstd::prelude::*;

use crate::tokenizer::{Keywords, Token, Tokens};

use super::args::{parse_args_typed, ArgsTyped};
use super::exp::{parse_exp, Exp};
use super::types::{parse_type, Type};
use super::{
    agrees, named, at_is, ctx, ident, pop, str_eq, suffix_of, ParseFault, Parsed, Parser, ParserError,
    Problem,
};

verus! {

broadcast use super::lemma_suffix_trans;

/// A function: `(pub? defun name (args)->Type body)`, or its header without a body.
#[derive(Debug)]
pub enum Defun {
    Function { scope: Scope, name: String, args: ArgsTyped, return_type: Type, body: Exp },
    Header { scope: Scope, name: String, args: ArgsTyped, return_type: Type },
}

/// The visibility of an item.
#[derive(Debug)]
pub enum Scope {
    /// Private to its file.
    File,
    /// `crate`: visible in the crate.
    Crate,
    /// `pub`: visible everywhere.
    Full,
}

/// Scope => 'pub' | 'our' | 'crate' | nothing (when the next token is no identifier);
/// `our`, the language description's word, is `pub`.
pub open spec fn parse_scope(ts: Seq<Token>) -> Parsed<Scope> {
    if ts.len() == 0 {
        (Err(ParseFault::MoreTokens), ts)
    } else {
        match ts[0] {
            Token::Identifier(name) => if name@ == "crate"@ {
                (Ok(Scope::Crate), ts.drop_first())
            } else if name@ == "pub"@ || name@ == "our"@ {
                (Ok(Scope::Full), ts.drop_first())
            } else {
                (Err(ParseFault::Invalid(Problem::NotAScope(name))), ts)
            },
            _ => (Ok(Scope::File), ts),
        }
    }
}

/// The scope words read as their scopes, taking the word: `pub` and `our`
/// as `pub`, `crate` as `pub(crate)`; any other name is refused as no
/// scope, and a token that is no name reads as a file's own scope and
/// takes nothing.
pub proof fn lemma_scope_words(r: Seq<Token>, name: String, t: Token)
    ensures
        name@ == "pub"@ || name@ == "our"@ ==> parse_scope(seq![Token::Identifier(name)] + r) == (
            Ok::<Scope, ParseFault>(Scope::Full),
            r,
        ),
        name@ == "crate"@ ==> parse_scope(seq![Token::Identifier(name)] + r) == (
            Ok::<Scope, ParseFault>(Scope::Crate),
            r,
        ),
        name@ != "pub"@ && name@ != "our"@ && name@ != "crate"@ ==> parse_scope(
            seq![Token::Identifier(name)] + r,
        ).0 == Err::<Scope, ParseFault>(ParseFault::Invalid(Problem::NotAScope(name))),
        !(t is Identifier) ==> parse_scope(seq![t] + r) == (
            Ok::<Scope, ParseFault>(Scope::File),
            seq![t] + r,
        ),
{
    reveal_strlit("pub");
    reveal_strlit("our");
    reveal_strlit("crate");
    let ts = seq![Token::Identifier(name)] + r;
    assert(ts.drop_first() =~= r);
    assert(ts[0] == Token::Identifier(name));
    assert("pub"@.len() != "crate"@.len());
    assert("our"@.len() != "crate"@.len());
    let tt = seq![t] + r;
    assert(tt[0] == t);
}

/// The parser of a function does not stop on these tokens: a scope can be
/// read after the opening '(' (a missing or wrong scope there stops it).
pub open spec fn defun_defined(ts: Seq<Token>) -> bool {
    ts.len() > 0 && ts[0] == Token::ParenOpen ==> parse_scope(ts.drop_first()).0 is Ok
}

/// Whether a function can be read from these tokens without stopping on its
/// scope (`Parser::function` asks for this).
pub fn defun_readable(tokens: &Tokens) -> (r: bool)
    ensures
        r == defun_defined(tokens.0@),
{
    let t = &tokens.0;
    if t.len() == 0 || !matches!(t[0], Token::ParenOpen) {
        return true;
    }
    if t.len() < 2 {
        return false;
    }
    match &t[1] {
        Token::Identifier(name) => str_eq(name.as_str(), "crate") || str_eq(name.as_str(), "pub")
            || str_eq(name.as_str(), "our"),
        _ => true,
    }
}

/// Defun => '(' Scope 'defun' Identifier ArgsTyped '->' Type (')' | Exp ')')
/// (the grammar is only used where `defun_defined` holds).
pub open spec fn parse_defun(ts: Seq<Token>) -> Parsed<Defun> {
    match pop(ts) {
        (Ok(Token::ParenOpen), r) => match parse_scope(r) {
            (Ok(scope), r1) => match pop(r1) {
                (Ok(Token::Keyword(Keywords::Defun)), r2) => match ident(r2) {
                    (Ok(name), r3) => match parse_args_typed(r3) {
                        (Ok(args), r4) => match pop(r4) {
                            (Ok(Token::Keyword(Keywords::LeftArrow)), r5) => match parse_type(r5) {
                                (Ok(return_type), r6) => if at_is(r6, 0, Token::ParenClose) {
                                    (
                                        Ok(Defun::Header { scope, name, args, return_type }),
                                        r6.drop_first(),
                                    )
                                } else {
                                    match parse_exp(r6) {
                                        (Ok(body), r7) => match pop(r7) {
                                            (Ok(Token::ParenClose), r8) => (
                                                Ok(
                                                    Defun::Function {
                                                        scope,
                                                        name,
                                                        args,
                                                        return_type,
                                                        body,
                                                    },
                                                ),
                                                r8,
                                            ),
                                            (Ok(x), r8) => (Err(ParseFault::Unexpected(x)), r8),
                                            (Err(f), r8) => (Err(f), r8),
                                        },
                                        (Err(f), r7) => (Err(f), r7),
                                    }
                                },
                                (Err(f), r6) => (Err(f), r6),
                            },
                            (Ok(x), r5) => (Err(ParseFault::Unexpected(x)), r5),
                            (Err(f), r5) => (Err(f), r5),
                        },
                        (Err(f), r4) => (Err(f), r4),
                    },
                    (Err(f), r3) => (Err(f), r3),
                },
                (Ok(x), r2) => (Err(ParseFault::Unexpected(x)), r2),
                (Err(f), r2) => (Err(f), r2),
            },
            (Err(f), r1) => (Err(f), r1),
        },
        (Ok(x), r) => (Err(ParseFault::Unexpected(x)), r),
        (Err(f), r) => (Err(f), r),
    }
}

/// A scope is written `pub(crate) ` or `pub ` (nothing for a file's own
/// item); a function as its scope, `fn `, its name, its parameters,
/// ` -> `, its result type and its body in ` {..}`, or `;` when it has no
/// body.
pub proof fn lemma_function_text(scope: Scope, name: String, args: ArgsTyped, rt: Type, body: Exp)
    ensures
        Scope::File.text() == Seq::<char>::empty(),
        Scope::Crate.text() == "pub(crate) "@,
        Scope::Full.text() == "pub "@,
        (Defun::Function { scope, name, args, return_type: rt, body }).text() == scope.text()
            + "fn "@ + name@ + args.text() + " -> "@ + rt.text() + " {"@ + body.text() + "}"@,
        (Defun::Header { scope, name, args, return_type: rt }).text() == scope.text() + "fn "@
            + name@ + args.text() + " -> "@ + rt.text() + ";"@,
{
}

impl Scope {
    /// Reads a scope: `pub` (or `our`), `crate`, or none.
    pub fn try_from(value: &mut Parser) -> (r: Result<Scope, ParserError>)
        ensures
            agrees(r, parse_scope(old(value)@).0),
            final(value)@ == parse_scope(old(value)@).1,
            suffix_of(final(value)@, old(value)@),
            named(r, "Scope") || named(r, "Scope iden"),
    {
        let first = value.first_err("Scope")?;
        match first {
            Token::Identifier(name) => {
                if str_eq(name.as_str(), "crate") {
                    value.pop_front();
                    Ok(Scope::Crate)
                } else if str_eq(name.as_str(), "pub") || str_eq(name.as_str(), "our") {
                    value.pop_front();
                    Ok(Scope::Full)
                } else {
                    Err(
                        ParserError::new(
                            "Scope iden",
                            ParseFault::Invalid(Problem::NotAScope(name.clone())),
                        ),
                    )
                }
            },
            _ => Ok(Scope::File),
        }
    }
}

impl Defun {
    /// Parses a function or a function header.
    pub fn try_from(value: &mut Parser) -> (r: Result<Defun, ParserError>)
        requires
            defun_defined(old(value)@),
        ensures
            agrees(r, parse_defun(old(value)@).0),
            final(value)@ == parse_defun(old(value)@).1,
            suffix_of(final(value)@, old(value)@),
            r is Ok ==> final(value)@.len() < old(value)@.len(),
            named(r, "Defun"),
    {
        let t = value.pop_front_err("Defun")?;
        if !matches!(t, Token::ParenOpen) {
            return Err(ParserError::new("Defun", ParseFault::Unexpected(t)));
        }
        let scope = match Scope::try_from(value) {
            Ok(s) => s,
            Err(_) => unreached(),
        };
        let t = value.pop_front_err("Defun")?;
        if !matches!(t, Token::Keyword(Keywords::Defun)) {
            return Err(ParserError::new("Defun", ParseFault::Unexpected(t)));
        }
        let name = value.pop_ident("Defun")?;
        let args = ctx(ArgsTyped::try_from(value), "Defun")?;
        let t = value.pop_front_err("Defun")?;
        if !matches!(t, Token::Keyword(Keywords::LeftArrow)) {
            return Err(ParserError::new("Defun", ParseFault::Unexpected(t)));
        }
        let return_type = ctx(Type::try_from(value), "Defun")?;
        if matches!(value.first(), Some(Token::ParenClose)) {
            value.pop_front();
            return Ok(Defun::Header { scope, name, args, return_type });
        }
        let body = ctx(Exp::try_from(value), "Defun")?;
        let t = value.pop_front_err("Defun")?;
        if !matches!(t, Token::ParenClose) {
            return Err(ParserError::new("Defun", ParseFault::Unexpected(t)));
        }
        Ok(Defun::Function { scope, name, args, return_type, body })
    }
}

// ---------------------------------------------------------------- rendering

impl Scope {
    /// The visibility in Rust source text, with a trailing space when there is one.
    pub open spec fn text(self) -> Seq<char> {
        match self {
            Scope::File => Seq::empty(),
            Scope::Crate => "pub(crate) "@,
            Scope::Full => "pub "@,
        }
    }

    /// Appends the Rust source text to `out`; this always succeeds.
    pub fn write_to(&self, out: &mut String) -> (ok: bool)
        ensures
            ok,
            final(out)@ == old(out)@ + self.text(),
    {
        match self {
            Scope::File => {
                assert(out@ =~= old(out)@ + self.text());
            },
            Scope::Crate => out.append("pub(crate) "),
            Scope::Full => out.append("pub "),
        }
        true
    }

    /// The visibility in Rust source text.
    pub fn to_string(&self) -> (s: String)
        ensures
            s@ == self.text(),
    {
        let mut s = String::new();
        self.write_to(&mut s);
        s
    }
}

impl Defun {
    /// The function in Rust source text: `fn name(args) -> T {body}`, or its
    /// signature followed by `;` when there is no body.
    pub open spec fn text(self) -> Seq<char> {
        match self {
            Defun::Function { scope, name, args, return_type, body } => scope.text() + "fn "@
                + name@ + args.text() + " -> "@ + return_type.text() + " {"@ + body.text() + "}"@,
            Defun::Header { scope, name, args, return_type } => scope.text() + "fn "@ + name@
                + args.text() + " -> "@ + return_type.text() + ";"@,
        }
    }

    /// The parameters, the result type and the body can be written.
    pub open spec fn printable(self) -> bool {
        match self {
            Defun::Function { args, return_type, body, .. } => args.printable()
                && return_type.printable() && body.printable(),
            Defun::Header { args, return_type, .. } => args.printable() && return_type.printable(),
        }
    }

    /// Appends the Rust source text to `out`, and tells whether it could:
    /// `false` when a list that Rust needs non-empty is empty, and `out` then holds an unfinished text.
    pub fn write_to(&self, out: &mut String) -> (ok: bool)
        ensures
            ok == self.printable(),
            ok ==> final(out)@ == old(out)@ + self.text(),
    {
        let ghost start = out@;
        match self {
            Defun::Function { scope, name, args, return_type, body } => {
                if !scope.write_to(out) {
                    return false;
                }
                out.append("fn ");
                out.append(name.as_str());
                if !args.write_to(out) {
                    return false;
                }
                out.append(" -> ");
                if !return_type.write_to(out) {
                    return false;
                }
                out.append(" {");
                if !body.write_to(out) {
                    return false;
                }
                out.append("}");
            },
            Defun::Header { scope, name, args, return_type } => {
                if !scope.write_to(out) {
                    return false;
                }
                out.append("fn ");
                out.append(name.as_str());
                if !args.write_to(out) {
                    return false;
                }
                out.append(" -> ");
                if !return_type.write_to(out) {
                    return false;
                }
                out.append(";");
            },
        }
        assert(out@ =~= start + self.text());
        true
    }

    /// The node in Rust source text.
    pub fn to_string(&self) -> (s: String)
        requires
            self.printable(),
        ensures
            s@ == self.text(),
    {
        let mut s = String::new();
        self.write_to(&mut s);
        s
    }
}

} // verus!
