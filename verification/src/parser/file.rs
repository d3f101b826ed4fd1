use vstd::prelude::*;

use crate::tokenizer::{Keywords, Token};

use super::attribute::{parse_attribute, Attribute};
use super::defun::{parse_defun, Defun};
use super::enums::{parse_enum, Enum};
use super::impls::{parse_impl, Impl};
use crate::text::{join, lemma_join_cons};

use super::list::List;
use super::structs::{parse_struct, Struct};
use super::types::{parse_type_alias, TypeAlias};
use super::uses::{parse_use, Use};
use super::{agrees, named, ctx, map_ok, str_eq, suffix_of, ParseFault, Parsed, Parser, ParserError};

verus! {

broadcast use super::lemma_suffix_trans;

/// A source file: its items, in order.
#[derive(Debug)]
pub struct File(pub List<FileOps>);

/// An item of a file.
#[derive(Debug)]
pub enum FileOps {
    Use(Use),
    Struct(Struct),
    Enum(Enum),
    Function(Defun),
    Attribute(Attribute),
    Impl(Impl),
    TypeAlias(TypeAlias),
}

/// FileOps => Attribute | Use | Enum | Struct | Defun | Impl | TypeAlias, chosen by the token after '('.
pub open spec fn parse_file_op(ts: Seq<Token>) -> Parsed<FileOps>
    decreases ts.len(), 8nat,
{
    if ts.len() > 0 && ts[0] == Token::Char('#') {
        map_ok(parse_attribute(ts), |a: Attribute| FileOps::Attribute(a))
    } else if ts.len() < 2 {
        (Err(ParseFault::MoreTokens), ts)
    } else {
        match ts[1] {
            Token::Keyword(Keywords::Use) => map_ok(parse_use(ts), |u: Use| FileOps::Use(u)),
            Token::Keyword(Keywords::Enum) => map_ok(parse_enum(ts), |e: Enum| FileOps::Enum(e)),
            Token::Keyword(Keywords::Struct) => map_ok(
                parse_struct(ts),
                |s: Struct| FileOps::Struct(s),
            ),
            Token::Keyword(Keywords::Defun) => map_ok(
                parse_defun(ts),
                |d: Defun| FileOps::Function(d),
            ),
            Token::Identifier(name) => if name@ == "pub"@ || name@ == "crate"@ || name@ == "our"@ {
                map_ok(parse_defun(ts), |d: Defun| FileOps::Function(d))
            } else {
                (Err(ParseFault::Unexpected(ts[1])), ts)
            },
            Token::Keyword(Keywords::Impl) => map_ok(parse_impl(ts), |i: Impl| FileOps::Impl(i)),
            Token::Keyword(Keywords::Type) => map_ok(
                parse_type_alias(ts),
                |t: TypeAlias| FileOps::TypeAlias(t),
            ),
            t => (Err(ParseFault::Unexpected(t)), ts),
        }
    }
}

/// An item is chosen by the token after its `(`: `use`, `enum`, `struct`,
/// `defun` (or a scope word `pub`, `crate`, `our`), `impl` and `type` read
/// as the item of that kind, and `#` in front as an attribute; a file reads
/// its items one after another until the tokens run out.
pub proof fn lemma_item_forms(ts: Seq<Token>, name: String)
    ensures
        ts.len() >= 2 && ts[0] != Token::Char('#') && ts[1] == Token::Keyword(Keywords::Use)
            && parse_use(ts).0 is Ok ==> parse_file_op(ts) == (
            Ok::<FileOps, ParseFault>(FileOps::Use(parse_use(ts).0->Ok_0)),
            parse_use(ts).1,
        ),
        ts.len() >= 2 && ts[0] != Token::Char('#') && ts[1] == Token::Keyword(Keywords::Enum)
            && parse_enum(ts).0 is Ok ==> parse_file_op(ts) == (
            Ok::<FileOps, ParseFault>(FileOps::Enum(parse_enum(ts).0->Ok_0)),
            parse_enum(ts).1,
        ),
        ts.len() >= 2 && ts[0] != Token::Char('#') && ts[1] == Token::Keyword(Keywords::Struct)
            && parse_struct(ts).0 is Ok ==> parse_file_op(ts) == (
            Ok::<FileOps, ParseFault>(FileOps::Struct(parse_struct(ts).0->Ok_0)),
            parse_struct(ts).1,
        ),
        ts.len() >= 2 && ts[0] != Token::Char('#') && (ts[1] == Token::Keyword(Keywords::Defun) || (
        ts[1] == Token::Identifier(name) && (name@ == "pub"@ || name@ == "crate"@ || name@
            == "our"@))) && parse_defun(ts).0 is Ok ==> parse_file_op(ts) == (
            Ok::<FileOps, ParseFault>(FileOps::Function(parse_defun(ts).0->Ok_0)),
            parse_defun(ts).1,
        ),
        ts.len() >= 2 && ts[0] != Token::Char('#') && ts[1] == Token::Keyword(Keywords::Impl)
            && parse_impl(ts).0 is Ok ==> parse_file_op(ts) == (
            Ok::<FileOps, ParseFault>(FileOps::Impl(parse_impl(ts).0->Ok_0)),
            parse_impl(ts).1,
        ),
        ts.len() >= 2 && ts[0] != Token::Char('#') && ts[1] == Token::Keyword(Keywords::Type)
            && parse_type_alias(ts).0 is Ok ==> parse_file_op(ts) == (
            Ok::<FileOps, ParseFault>(FileOps::TypeAlias(parse_type_alias(ts).0->Ok_0)),
            parse_type_alias(ts).1,
        ),
        ts.len() > 0 && ts[0] == Token::Char('#') && parse_attribute(ts).0 is Ok ==> parse_file_op(ts)
            == (
            Ok::<FileOps, ParseFault>(FileOps::Attribute(parse_attribute(ts).0->Ok_0)),
            parse_attribute(ts).1,
        ),
        parse_file(Seq::empty()) == (Ok::<File, ParseFault>(File(List::Nil)), Seq::<Token>::empty()),
{
}

/// Items until the tokens run out.
pub open spec fn file_items(ts: Seq<Token>) -> Parsed<List<FileOps>>
    decreases ts.len(),
{
    if ts.len() == 0 {
        (Ok(List::Nil), ts)
    } else {
        match parse_file_op(ts) {
            (Ok(op), r) => if r.len() < ts.len() {
                map_ok(file_items(r), |rest: List<FileOps>| List::Cons(Box::new(op), Box::new(rest)))
            } else {
                (Err(ParseFault::MoreTokens), r)
            },
            (Err(f), r) => (Err(f), r),
        }
    }
}

/// File => {FileOps}
pub open spec fn parse_file(ts: Seq<Token>) -> Parsed<File> {
    map_ok(file_items(ts), |l: List<FileOps>| File(l))
}

impl FileOps {
    /// Parses an item of a file.
    pub fn try_from(value: &mut Parser) -> (r: Result<FileOps, ParserError>)
        ensures
            agrees(r, parse_file_op(old(value)@).0),
            final(value)@ == parse_file_op(old(value)@).1,
            suffix_of(final(value)@, old(value)@),
            r is Ok ==> final(value)@.len() < old(value)@.len(),
            named(r, "FileOps"),
        decreases old(value)@.len(), 8nat,
    {
        if matches!(value.first(), Some(Token::Char('#'))) {
            let a = ctx(Attribute::try_from(value), "FileOps")?;
            return Ok(FileOps::Attribute(a));
        }
        let second = match value.nth(1) {
            Some(t) => t,
            None => return Err(ParserError::new("FileOps", ParseFault::MoreTokens)),
        };
        match second {
            Token::Keyword(Keywords::Use) => {
                let u = ctx(Use::try_from(value), "FileOps")?;
                Ok(FileOps::Use(u))
            },
            Token::Keyword(Keywords::Enum) => {
                let e = ctx(Enum::try_from(value), "FileOps")?;
                Ok(FileOps::Enum(e))
            },
            Token::Keyword(Keywords::Struct) => {
                let s = ctx(Struct::try_from(value), "FileOps")?;
                Ok(FileOps::Struct(s))
            },
            Token::Keyword(Keywords::Defun) => {
                let d = ctx(Defun::try_from(value), "FileOps")?;
                Ok(FileOps::Function(d))
            },
            Token::Identifier(name) => {
                if str_eq(name.as_str(), "pub") || str_eq(name.as_str(), "crate") || str_eq(
                    name.as_str(),
                    "our",
                ) {
                    let d = ctx(Defun::try_from(value), "FileOps")?;
                    Ok(FileOps::Function(d))
                } else {
                    Err(ParserError::new("FileOps", ParseFault::Unexpected(second.copy())))
                }
            },
            Token::Keyword(Keywords::Impl) => {
                let i = ctx(Impl::try_from(value), "FileOps")?;
                Ok(FileOps::Impl(i))
            },
            Token::Keyword(Keywords::Type) => {
                let t = ctx(TypeAlias::try_from(value), "FileOps")?;
                Ok(FileOps::TypeAlias(t))
            },
            t => Err(ParserError::new("FileOps", ParseFault::Unexpected(t.copy()))),
        }
    }
}

fn take_file_items(value: &mut Parser) -> (r: Result<List<FileOps>, ParserError>)
    ensures
        agrees(r, file_items(old(value)@).0),
        final(value)@ == file_items(old(value)@).1,
        suffix_of(final(value)@, old(value)@),
        named(r, "File"),
    decreases old(value)@.len(),
{
    if value.len() == 0 {
        return Ok(List::Nil);
    }
    let op = ctx(FileOps::try_from(value), "File")?;
    let rest = take_file_items(value)?;
    Ok(List::Cons(Box::new(op), Box::new(rest)))
}

/// A file is read to its end: when the items parse, no token is left over.
pub proof fn lemma_file_reads_all(ts: Seq<Token>)
    ensures
        parse_file(ts).0 is Ok ==> parse_file(ts).1.len() == 0,
{
    lemma_file_items_read_all(ts);
}

proof fn lemma_file_items_read_all(ts: Seq<Token>)
    ensures
        file_items(ts).0 is Ok ==> file_items(ts).1.len() == 0,
    decreases ts.len(),
{
    if ts.len() > 0 {
        if let (Ok(_), r) = parse_file_op(ts) {
            if r.len() < ts.len() {
                lemma_file_items_read_all(r);
            }
        }
    }
}

/// A file is written as its items, one per line, each as the item itself:
/// no item gives no text, and an item in front of others is followed by a
/// line break and what the others give.
pub proof fn lemma_file_text(
    o: FileOps,
    rest: List<FileOps>,
    u: Use,
    s: Struct,
    e: Enum,
    f: Defun,
    a: Attribute,
    i: Impl,
    t: TypeAlias,
)
    ensures
        File(List::Nil).text() == Seq::<char>::empty(),
        File(List::Cons(Box::new(o), Box::new(rest))).text() == o.text() + (if rest is Cons {
            "\n"@ + File(rest).text()
        } else {
            Seq::empty()
        }),
        FileOps::Use(u).text() == u.text(),
        FileOps::Struct(s).text() == s.text(),
        FileOps::Enum(e).text() == e.text(),
        FileOps::Function(f).text() == f.text(),
        FileOps::Attribute(a).text() == a.text(),
        FileOps::Impl(i).text() == i.text(),
        FileOps::TypeAlias(t).text() == t.text(),
{
    assert(file_ops_texts(List::<FileOps>::Nil) =~= Seq::<Seq<char>>::empty());
    let l = List::Cons(Box::new(o), Box::new(rest));
    assert(file_ops_texts(l) == seq![o.text()] + file_ops_texts(rest));
    lemma_join_cons(o.text(), file_ops_texts(rest), "\n"@);
    if rest is Cons {
        assert(file_ops_texts(rest).len() > 0);
    }
}

impl File {
    /// Parses a whole file: items until the tokens run out.
    pub fn try_from(value: &mut Parser) -> (r: Result<File, ParserError>)
        ensures
            agrees(r, parse_file(old(value)@).0),
            final(value)@ == parse_file(old(value)@).1,
            suffix_of(final(value)@, old(value)@),
            r is Ok ==> final(value)@.len() == 0,
            named(r, "File"),
    {
        proof {
            lemma_file_reads_all(value@);
        }
        let l = take_file_items(value)?;
        Ok(File(l))
    }
}

// ---------------------------------------------------------------- rendering

impl FileOps {
    /// The item in Rust source text.
    pub open spec fn text(self) -> Seq<char>
        decreases self,
    {
        match self {
            FileOps::Use(u) => u.text(),
            FileOps::Struct(s) => s.text(),
            FileOps::Enum(e) => e.text(),
            FileOps::Function(f) => f.text(),
            FileOps::Attribute(a) => a.text(),
            FileOps::Impl(i) => i.text(),
            FileOps::TypeAlias(t) => t.text(),
        }
    }

    /// The item can be written.
    pub open spec fn printable(self) -> bool
        decreases self,
    {
        match self {
            FileOps::Use(_) => true,
            FileOps::Struct(s) => s.printable(),
            FileOps::Enum(e) => e.printable(),
            FileOps::Function(f) => f.printable(),
            FileOps::Attribute(a) => a.printable(),
            FileOps::Impl(i) => i.printable(),
            FileOps::TypeAlias(t) => t.printable(),
        }
    }

    /// Appends the Rust source text to `out`, and tells whether it could:
    /// `false` when a list that Rust needs non-empty is empty, and `out` then holds an unfinished text.
    pub fn write_to(&self, out: &mut String) -> (ok: bool)
        ensures
            ok == self.printable(),
            ok ==> final(out)@ == old(out)@ + self.text(),
        decreases self,
    {
        match self {
            FileOps::Use(u) => if !u.write_to(out) {
                return false;
            },
            FileOps::Struct(s) => if !s.write_to(out) {
                return false;
            },
            FileOps::Enum(e) => if !e.write_to(out) {
                return false;
            },
            FileOps::Function(f) => if !f.write_to(out) {
                return false;
            },
            FileOps::Attribute(a) => if !a.write_to(out) {
                return false;
            },
            FileOps::Impl(i) => if !i.write_to(out) {
                return false;
            },
            FileOps::TypeAlias(t) => if !t.write_to(out) {
                return false;
            },
        }
        true
    }

    /// The node in Rust source text.
    pub fn to_string(&self) -> (s: String)
        requires
            self.printable(),
        ensures
            s@ == self.text(),
    {
        let mut s = String::new();
        self.write_to(&mut s);
        s
    }
}

/// The texts of the items, in order.
pub open spec fn file_ops_texts(l: List<FileOps>) -> Seq<Seq<char>>
    decreases l,
{
    match l {
        List::Nil => Seq::empty(),
        List::Cons(h, t) => seq![(*h).text()] + file_ops_texts(*t),
    }
}

/// Every one of the items can be written.
pub open spec fn file_ops_printable(l: List<FileOps>) -> bool
    decreases l,
{
    match l {
        List::Nil => true,
        List::Cons(h, t) => (*h).printable() && file_ops_printable(*t),
    }
}

/// Appends the items, with `sep` between neighbours.
pub(crate) fn write_file_ops(l: &List<FileOps>, sep: &str, out: &mut String) -> (ok: bool)
    ensures
        ok == file_ops_printable(*l),
        ok ==> final(out)@ == old(out)@ + join(file_ops_texts(*l), sep@),
    decreases l,
{
    match l {
        List::Nil => {
            assert(out@ =~= old(out)@ + join(file_ops_texts(*l), sep@));
        },
        List::Cons(h, t) => {
            let ghost start = out@;
            if !h.write_to(out) {
                return false;
            }
            match &**t {
                List::Nil => {},
                List::Cons(_, _) => out.append(sep),
            }
            if !write_file_ops(t, sep, out) {
                return false;
            }
            proof {
                lemma_join_cons((*h).text(), file_ops_texts(**t), sep@);
                assert(out@ =~= start + join(file_ops_texts(*l), sep@));
            }
        },
    }
    true
}

impl File {
    /// The file in Rust source text: its items, one per line.
    pub open spec fn text(self) -> Seq<char> {
        join(file_ops_texts(self.0), "\n"@)
    }

    /// Every item can be written.
    pub open spec fn printable(self) -> bool {
        file_ops_printable(self.0)
    }

    /// Appends the Rust source text to `out`, and tells whether it could:
    /// `false` when a list that Rust needs non-empty is empty, and `out` then holds an unfinished text.
    pub fn write_to(&self, out: &mut String) -> (ok: bool)
        ensures
            ok == self.printable(),
            ok ==> final(out)@ == old(out)@ + self.text(),
    {
        if !write_file_ops(&self.0, "\n", out) {
            return false;
        }
        true
    }

    /// The node in Rust source text.
    pub fn to_string(&self) -> (s: String)
        requires
            self.printable(),
        ensures
            s@ == self.text(),
    {
        let mut s = String::new();
        self.write_to(&mut s);
        s
    }
}

} // verus!
