use vstd::prelude::*;

use crate::tokenizer::{Keywords, Token};

use crate::text::{join, lemma_join_cons};

use super::list::List;
use super::{agrees, named, at_is, ctx, pop, suffix_of, ParseFault, Parsed, Parser, ParserError};

verus! {

broadcast use super::lemma_suffix_trans;

/// An import: `(use std->collections->VecDeque)`,
/// `(use std->collections->(VecDeque HashMap))`.
#[derive(Debug)]
pub struct Use(pub UsePath);

/// The path of an import.
#[derive(Debug)]
pub enum UsePath {
    Path(String, Box<UsePath>),
    Name(String),
    Multiple(List<UsePath>),
    All,
}

/// UsePath => '*' | Identifier '->' UsePath | Identifier | '(' {UsePath} ')'
pub open spec fn parse_use_path(ts: Seq<Token>) -> Parsed<UsePath>
    decreases ts.len(), 0nat,
{
    if ts.len() == 0 {
        (Err(ParseFault::MoreTokens), ts)
    } else {
        let r = ts.drop_first();
        match ts[0] {
            Token::Char('*') => (Ok(UsePath::All), r),
            Token::Keyword(Keywords::Deref) => (Ok(UsePath::All), r),
            Token::Identifier(name) => if at_is(r, 0, Token::Keyword(Keywords::LeftArrow)) {
                match parse_use_path(r.drop_first()) {
                    (Ok(p), r1) => (Ok(UsePath::Path(name, Box::new(p))), r1),
                    (Err(e), r1) => (Err(e), r1),
                }
            } else {
                (Ok(UsePath::Name(name)), r)
            },
            Token::ParenOpen => match use_paths(r) {
                (Ok(l), r1) => (Ok(UsePath::Multiple(l)), r1),
                (Err(e), r1) => (Err(e), r1),
            },
            t => (Err(ParseFault::Unexpected(t)), r),
        }
    }
}

/// The paths of a group, up to and with its ')'.
pub open spec fn use_paths(ts: Seq<Token>) -> Parsed<List<UsePath>>
    decreases ts.len(), 1nat,
{
    if ts.len() == 0 {
        (Err(ParseFault::MoreTokens), ts)
    } else if ts[0] == Token::ParenClose {
        (Ok(List::Nil), ts.drop_first())
    } else {
        match parse_use_path(ts) {
            (Ok(p), r) => if r.len() < ts.len() {
                match use_paths(r) {
                    (Ok(rest), r1) => (Ok(List::Cons(Box::new(p), Box::new(rest))), r1),
                    (Err(e), r1) => (Err(e), r1),
                }
            } else {
                (Err(ParseFault::MoreTokens), r)
            },
            (Err(e), r) => (Err(e), r),
        }
    }
}

/// Use => '(' 'use' UsePath ')'
pub open spec fn parse_use(ts: Seq<Token>) -> Parsed<Use> {
    match pop(ts) {
        (Ok(Token::ParenOpen), r) => match pop(r) {
            (Ok(Token::Keyword(Keywords::Use)), r1) => match parse_use_path(r1) {
                (Ok(p), r2) => match pop(r2) {
                    (Ok(Token::ParenClose), r3) => (Ok(Use(p)), r3),
                    (Ok(x), r3) => (Err(ParseFault::Unexpected(x)), r3),
                    (Err(e), r3) => (Err(e), r3),
                },
                (Err(e), r2) => (Err(e), r2),
            },
            (Ok(x), r1) => (Err(ParseFault::Unexpected(x)), r1),
            (Err(e), r1) => (Err(e), r1),
        },
        (Ok(x), r) => (Err(ParseFault::Unexpected(x)), r),
        (Err(e), r) => (Err(e), r),
    }
}

impl UsePath {
    /// Parses the path of an import.
    pub fn try_from(value: &mut Parser) -> (r: Result<UsePath, ParserError>)
        ensures
            agrees(r, parse_use_path(old(value)@).0),
            final(value)@ == parse_use_path(old(value)@).1,
            suffix_of(final(value)@, old(value)@),
            r is Ok ==> final(value)@.len() < old(value)@.len(),
            named(r, "UsePath"),
        decreases old(value)@.len(), 0nat,
    {
        let t = value.pop_front_err("UsePath")?;
        match t {
            Token::Char('*') => Ok(UsePath::All),
            Token::Keyword(Keywords::Deref) => Ok(UsePath::All),
            Token::Identifier(name) => {
                if matches!(value.first(), Some(Token::Keyword(Keywords::LeftArrow))) {
                    value.pop_front();
                    let p = ctx(UsePath::try_from(value), "UsePath")?;
                    Ok(UsePath::Path(name, Box::new(p)))
                } else {
                    Ok(UsePath::Name(name))
                }
            },
            Token::ParenOpen => {
                let l = take_use_paths(value)?;
                Ok(UsePath::Multiple(l))
            },
            t => Err(ParserError::new("UsePath", ParseFault::Unexpected(t))),
        }
    }
}

fn take_use_paths(value: &mut Parser) -> (r: Result<List<UsePath>, ParserError>)
    ensures
        agrees(r, use_paths(old(value)@).0),
        final(value)@ == use_paths(old(value)@).1,
        suffix_of(final(value)@, old(value)@),
        named(r, "UsePath"),
    decreases old(value)@.len(), 1nat,
{
    let peek = value.first_err("UsePath")?;
    if matches!(peek, Token::ParenClose) {
        value.pop_front();
        return Ok(List::Nil);
    }
    let p = ctx(UsePath::try_from(value), "UsePath")?;
    let rest = take_use_paths(value)?;
    Ok(List::Cons(Box::new(p), Box::new(rest)))
}

impl Use {
    /// Parses an import.
    pub fn try_from(value: &mut Parser) -> (r: Result<Use, ParserError>)
        ensures
            agrees(r, parse_use(old(value)@).0),
            final(value)@ == parse_use(old(value)@).1,
            suffix_of(final(value)@, old(value)@),
            r is Ok ==> final(value)@.len() < old(value)@.len(),
            named(r, "Use"),
    {
        let t = value.pop_front_err("Use")?;
        if !matches!(t, Token::ParenOpen) {
            return Err(ParserError::new("Use", ParseFault::Unexpected(t)));
        }
        let t = value.pop_front_err("Use")?;
        if !matches!(t, Token::Keyword(Keywords::Use)) {
            return Err(ParserError::new("Use", ParseFault::Unexpected(t)));
        }
        let p = ctx(UsePath::try_from(value), "Use")?;
        let t = value.pop_front_err("Use")?;
        if !matches!(t, Token::ParenClose) {
            return Err(ParserError::new("Use", ParseFault::Unexpected(t)));
        }
        Ok(Use(p))
    }
}

// ---------------------------------------------------------------- rendering

impl UsePath {
    /// The path in Rust source text.
    pub open spec fn text(self) -> Seq<char>
        decreases self,
    {
        match self {
            UsePath::Path(name, rest) => name@ + "::"@ + rest.text(),
            UsePath::Name(name) => name@,
            UsePath::Multiple(paths) => "{"@ + join(use_paths_texts(paths), ", "@) + "}"@,
            UsePath::All => "*"@,
        }
    }

    /// Appends the Rust source text to `out`; this always succeeds.
    pub fn write_to(&self, out: &mut String) -> (ok: bool)
        ensures
            ok,
            final(out)@ == old(out)@ + self.text(),
        decreases self,
    {
        let ghost start = out@;
        match self {
            UsePath::Path(name, rest) => {
                out.append(name.as_str());
                out.append("::");
                if !rest.write_to(out) {
                    return false;
                }
            },
            UsePath::Name(name) => out.append(name.as_str()),
            UsePath::Multiple(paths) => {
                out.append("{");
                if !write_use_paths(paths, ", ", out) {
                    return false;
                }
                out.append("}");
            },
            UsePath::All => out.append("*"),
        }
        assert(out@ =~= start + self.text());
        true
    }

    /// The path in Rust source text.
    pub fn to_string(&self) -> (s: String)
        ensures
            s@ == self.text(),
    {
        let mut s = String::new();
        self.write_to(&mut s);
        s
    }
}

/// The texts of the paths, in order.
/// How an import is written: `use path;`, where a glob is `*`, a name is
/// itself, a step of a path is the name, `::` and the rest, and a group is
/// `{..}` with `, ` between the paths in it (`{}` when it is empty).
pub proof fn lemma_use_text(p: UsePath, n: String, q: UsePath, rest: List<UsePath>)
    ensures
        Use(p).text() == "use "@ + p.text() + ";"@,
        UsePath::All.text() == "*"@,
        UsePath::Name(n).text() == n@,
        UsePath::Path(n, Box::new(q)).text() == n@ + "::"@ + q.text(),
        UsePath::Multiple(List::Nil).text() == "{}"@,
        UsePath::Multiple(List::Cons(Box::new(q), Box::new(rest))).text() == "{"@ + q.text() + (
        if rest is Cons {
            ", "@ + UsePath::Multiple(rest).text().subrange(
                1,
                UsePath::Multiple(rest).text().len() - 1,
            )
        } else {
            Seq::empty()
        }) + "}"@,
{
    reveal_strlit("{");
    reveal_strlit("}");
    reveal_strlit("{}");
    assert(use_paths_texts(List::<UsePath>::Nil) =~= Seq::<Seq<char>>::empty());
    assert(UsePath::Multiple(List::Nil).text() =~= "{}"@);
    let l = List::Cons(Box::new(q), Box::new(rest));
    assert(use_paths_texts(l) == seq![q.text()] + use_paths_texts(rest));
    lemma_join_cons(q.text(), use_paths_texts(rest), ", "@);
    let j = join(use_paths_texts(rest), ", "@);
    let m = UsePath::Multiple(rest).text();
    assert(m =~= "{"@ + j + "}"@);
    assert(m.subrange(1, m.len() - 1) =~= j);
    if rest is Cons {
        assert(use_paths_texts(rest).len() > 0);
    }
    assert(UsePath::Multiple(l).text() =~= "{"@ + q.text() + (if rest is Cons {
        ", "@ + m.subrange(1, m.len() - 1)
    } else {
        Seq::empty()
    }) + "}"@);
}

pub open spec fn use_paths_texts(l: List<UsePath>) -> Seq<Seq<char>>
    decreases l,
{
    match l {
        List::Nil => Seq::empty(),
        List::Cons(h, t) => seq![(*h).text()] + use_paths_texts(*t),
    }
}

/// Appends the paths, with `sep` between neighbours.
pub(crate) fn write_use_paths(l: &List<UsePath>, sep: &str, out: &mut String) -> (ok: bool)
    ensures
        ok,
        final(out)@ == old(out)@ + join(use_paths_texts(*l), sep@),
    decreases l,
{
    match l {
        List::Nil => {
            assert(out@ =~= old(out)@ + join(use_paths_texts(*l), sep@));
        },
        List::Cons(h, t) => {
            let ghost start = out@;
            if !h.write_to(out) {
                return false;
            }
            match &**t {
                List::Nil => {},
                List::Cons(_, _) => out.append(sep),
            }
            if !write_use_paths(t, sep, out) {
                return false;
            }
            proof {
                lemma_join_cons((*h).text(), use_paths_texts(**t), sep@);
                assert(out@ =~= start + join(use_paths_texts(*l), sep@));
            }
        },
    }
    true
}

impl Use {
    /// The import in Rust source text: `use path;`.
    pub open spec fn text(self) -> Seq<char> {
        "use "@ + self.0.text() + ";"@
    }

    /// Appends the Rust source text to `out`; this always succeeds.
    pub fn write_to(&self, out: &mut String) -> (ok: bool)
        ensures
            ok,
            final(out)@ == old(out)@ + self.text(),
    {
        let ghost start = out@;
        out.append("use ");
        if !self.0.write_to(out) {
            return false;
        }
        out.append(";");
        assert(out@ =~= start + self.text());
        true
    }

    /// The import in Rust source text.
    pub fn to_string(&self) -> (s: String)
        ensures
            s@ == self.text(),
    {
        let mut s = String::new();
        self.write_to(&mut s);
        s
    }
}

} // verus!
