pub mod args;
pub mod as_cast;
pub mod attribute;
pub mod defun;
pub mod do_block;
pub mod enums;
pub mod exp;
pub mod file;
pub mod if_exp;
pub mod impls;
pub mod lambda;
pub mod let_exp;
pub mod list;
pub mod matching;
pub mod module;
pub mod range;
pub mod structs;
pub mod traits;
pub mod turbofish;
pub mod types;
pub mod uses;

use std::collections::VecDeque;

use vstd::pervasive::unreached;
use vstd::prelude::*;

use crate::tokenizer::{Token, Tokens};

use self::defun::{defun_defined, parse_defun, Defun};
use self::enums::{parse_enum, Enum};
use self::exp::{parse_exp, Exp};
use self::file::{parse_file, File};
use self::structs::{parse_struct, Struct};

verus! {

/// What went wrong when a parse failed.
#[derive(Debug)]
pub enum ParseFault {
    /// The tokens ran out.
    MoreTokens,
    /// This token does not fit where it stands.
    Unexpected(Token),
    /// The tokens are well formed but break a rule of the language.
    Invalid(Problem),
}

/// The rules of the language that a parse can break.
#[derive(Debug)]
pub enum Problem {
    /// A generic parameter stands after a named argument.
    GenericAmongArgs,
    /// An argument without a type stands where arguments need one.
    UntypedArg,
    /// An argument with a type, or `self`, stands where plain names are needed.
    TypedArg,
    /// A reference argument that is not a reference to `self`.
    RefNotSelf,
    /// A word other than `pub`, `our` or `crate` stands where a scope may.
    NotAScope(String),
    /// A range pattern whose bounds are not literals.
    RangeNotLiteral,
    /// An item other than a function, a `use`, an attribute or a type alias inside an `impl` or a trait.
    NotAnImplItem,
    /// An array repetition `[; n]` without the repeated expression.
    MissingArrayElement,
}

/// A parse error: the fault, and the grammar rules that were being parsed
/// when it happened, innermost first.
#[derive(Debug)]
pub struct ParserError {
    pub stack: Vec<&'static str>,
    pub err: ParseFault,
}

impl ParserError {
    /// The fault that this error reports.
    pub open spec fn fault(&self) -> ParseFault {
        self.err
    }

    /// The grammar rules that were being parsed, innermost first.
    pub open spec fn trace(&self) -> Seq<&'static str> {
        self.stack@
    }

    /// A new error raised while parsing `name`.
    pub fn new(name: &'static str, err: ParseFault) -> (r: ParserError)
        ensures
            r.fault() == err,
            r.trace() == seq![name],
    {
        let mut stack = Vec::new();
        stack.push(name);
        ParserError { stack, err }
    }

    /// The same error, noting that it passed through the rule `name`.
    pub fn with(self, name: &'static str) -> (r: ParserError)
        ensures
            r.fault() == self.fault(),
            r.trace() == self.trace().push(name),
    {
        let mut e = self;
        e.stack.push(name);
        e
    }

    /// The fault that this error reports.
    pub fn err(&self) -> (r: &ParseFault)
        ensures
            *r == self.fault(),
    {
        &self.err
    }

    /// The error as text: what went wrong, a ':', then the rules it passed
    /// through, innermost first, each after a space.
    pub open spec fn message_text(&self) -> Seq<char> {
        fault_text(self.err) + ":"@ + names_after_spaces(self.stack@)
    }

    /// The error as text.
    pub fn message(&self) -> (s: String)
        ensures
            s@ == self.message_text(),
    {
        let mut s = String::new();
        write_fault(&self.err, &mut s);
        s.append(":");
        let ghost start = s@;
        let mut i: usize = 0;
        while i < self.stack.len()
            invariant
                i <= self.stack.len(),
                s@ == start + names_after_spaces(self.stack@.take(i as int)),
            decreases self.stack.len() - i,
        {
            s.append(" ");
            s.append(self.stack[i]);
            proof {
                assert(self.stack@.take(i + 1).drop_last() =~= self.stack@.take(i as int));
            }
            i = i + 1;
        }
        assert(self.stack@.take(i as int) =~= self.stack@);
        s
    }

    /// The grammar rules that were being parsed, innermost first.
    pub fn stack(&self) -> (r: &Vec<&'static str>)
        ensures
            r@ == self.trace(),
    {
        &self.stack
    }
}

/// An error reads as its fault's text, `:`, and then each rule it passed
/// through, innermost first, after a space; the faults' texts are the ones
/// listed here.
pub proof fn lemma_error_text(e: ParserError, names: Seq<&'static str>, n: &'static str, t: Token, name: String)
    ensures
        e.message_text() == fault_text(e.err) + ":"@ + names_after_spaces(e.stack@),
        names_after_spaces(Seq::empty()) == Seq::<char>::empty(),
        names_after_spaces(names.push(n)) == names_after_spaces(names) + " "@ + n@,
        fault_text(ParseFault::MoreTokens) == "Expected more tokens"@,
        fault_text(ParseFault::Unexpected(t)) == "Unexpected token"@,
        fault_text(ParseFault::Invalid(Problem::GenericAmongArgs))
            == "Expected a named arg, got a generic, those should be defined before named args"@,
        fault_text(ParseFault::Invalid(Problem::UntypedArg)) == "Expected named arg, got a simple arg"@,
        fault_text(ParseFault::Invalid(Problem::TypedArg)) == "Expected just simple args"@,
        fault_text(ParseFault::Invalid(Problem::RefNotSelf)) == "Expected a reference to self"@,
        fault_text(ParseFault::Invalid(Problem::NotAScope(name))) == "Expected pub or crate, got \""@
            + name@ + "\""@,
        fault_text(ParseFault::Invalid(Problem::RangeNotLiteral))
            == "Expected literal bounds in a range pattern"@,
        fault_text(ParseFault::Invalid(Problem::NotAnImplItem))
            == "Expected function, use, type alias or attribute"@,
        fault_text(ParseFault::Invalid(Problem::MissingArrayElement))
            == "Expected an element before ';'"@,
{
    assert(names.push(n).drop_last() =~= names);
}

/// Each name after a space, one after another.
pub open spec fn names_after_spaces(names: Seq<&'static str>) -> Seq<char>
    decreases names.len(),
{
    if names.len() == 0 {
        Seq::empty()
    } else {
        names_after_spaces(names.drop_last()) + " "@ + names.last()@
    }
}

/// What went wrong, as text.
pub open spec fn fault_text(f: ParseFault) -> Seq<char> {
    match f {
        ParseFault::MoreTokens => "Expected more tokens"@,
        ParseFault::Unexpected(_) => "Unexpected token"@,
        ParseFault::Invalid(Problem::GenericAmongArgs) => "Expected a named arg, got a generic, those should be defined before named args"@,
        ParseFault::Invalid(Problem::UntypedArg) => "Expected named arg, got a simple arg"@,
        ParseFault::Invalid(Problem::TypedArg) => "Expected just simple args"@,
        ParseFault::Invalid(Problem::RefNotSelf) => "Expected a reference to self"@,
        ParseFault::Invalid(Problem::NotAScope(name)) => "Expected pub or crate, got \""@ + name@
            + "\""@,
        ParseFault::Invalid(Problem::RangeNotLiteral) => "Expected literal bounds in a range pattern"@,
        ParseFault::Invalid(Problem::NotAnImplItem) => "Expected function, use, type alias or attribute"@,
        ParseFault::Invalid(Problem::MissingArrayElement) => "Expected an element before ';'"@,
    }
}

fn write_fault(f: &ParseFault, out: &mut String)
    ensures
        final(out)@ == old(out)@ + fault_text(*f),
{
    match f {
        ParseFault::MoreTokens => out.append("Expected more tokens"),
        ParseFault::Unexpected(_) => out.append("Unexpected token"),
        ParseFault::Invalid(p) => match p {
            Problem::GenericAmongArgs => out.append("Expected a named arg, got a generic, those should be defined before named args"),
            Problem::UntypedArg => out.append("Expected named arg, got a simple arg"),
            Problem::TypedArg => out.append("Expected just simple args"),
            Problem::RefNotSelf => out.append("Expected a reference to self"),
            Problem::NotAScope(name) => {
                out.append("Expected pub or crate, got \"");
                out.append(name.as_str());
                out.append("\"");
                assert(out@ =~= old(out)@ + fault_text(*f));
            },
            Problem::RangeNotLiteral => out.append("Expected literal bounds in a range pattern"),
            Problem::NotAnImplItem => out.append("Expected function, use, type alias or attribute"),
            Problem::MissingArrayElement => out.append("Expected an element before ';'"),
        },
    }
}

/// The outcome of a grammar function: a value or the fault, and the tokens left.
pub type Parsed<T> = (Result<T, ParseFault>, Seq<Token>);

/// An executable parse result agrees with the grammar's result.
pub open spec fn agrees<T>(r: Result<T, ParserError>, s: Result<T, ParseFault>) -> bool {
    match r {
        Ok(v) => s == Ok::<T, ParseFault>(v),
        Err(e) => s == Err::<T, ParseFault>(e.fault()),
    }
}

/// An error, if there is one, names `rule` last in its trace: `rule` raised it
/// or was the last rule that it passed through.
pub open spec fn named<T>(r: Result<T, ParserError>, rule: &'static str) -> bool {
    r matches Err(e) ==> e.trace().len() > 0 && e.trace().last() == rule
}

/// `o` carries the same value or the same fault as `r`.
pub open spec fn same<T>(o: Result<T, ParserError>, r: Result<T, ParserError>) -> bool {
    match (o, r) {
        (Ok(a), Ok(b)) => a == b,
        (Err(a), Err(b)) => a.fault() == b.fault(),
        _ => false,
    }
}

/// Notes the rule `name` on the error of a failed result.
pub fn ctx<T>(r: Result<T, ParserError>, name: &'static str) -> (o: Result<T, ParserError>)
    ensures
        same(o, r),
        o matches Err(e) ==> r matches Err(e0) && e.trace() == e0.trace().push(name),
{
    match r {
        Ok(v) => Ok(v),
        Err(e) => Err(e.with(name)),
    }
}

/// The grammar result with `f` applied to a successfully parsed value.
pub open spec fn map_ok<A, B>(p: Parsed<A>, f: spec_fn(A) -> B) -> Parsed<B> {
    (
        match p.0 {
            Ok(a) => Ok(f(a)),
            Err(e) => Err(e),
        },
        p.1,
    )
}

/// `r` is what is left of `ts` after some tokens were taken from its front.
pub open spec fn suffix_of(r: Seq<Token>, ts: Seq<Token>) -> bool {
    &&& r.len() <= ts.len()
    &&& r =~= ts.subrange(ts.len() - r.len(), ts.len() as int)
}

pub broadcast proof fn lemma_suffix_trans(a: Seq<Token>, b: Seq<Token>, c: Seq<Token>)
    requires
        #[trigger] suffix_of(a, b),
        #[trigger] suffix_of(b, c),
    ensures
        suffix_of(a, c),
{
    assert forall|i: int| 0 <= i < a.len() implies a[i] == c[c.len() - a.len() + i] by {
        assert(a[i] == b[b.len() - a.len() + i]);
    }
}

/// Putting back in front the token that was taken from the front gives the
/// tokens that were there before: `push_front` undoes `pop_front`.
pub proof fn lemma_push_front_undoes_pop(ts: Seq<Token>)
    requires
        ts.len() > 0,
    ensures
        pop(ts).0 matches Ok(t) && seq![t] + pop(ts).1 == ts,
{
    assert(seq![ts[0]] + ts.drop_first() =~= ts);
}

/// Taking the first token.
pub open spec fn pop(ts: Seq<Token>) -> Parsed<Token> {
    if ts.len() == 0 {
        (Err(ParseFault::MoreTokens), ts)
    } else {
        (Ok(ts[0]), ts.drop_first())
    }
}

/// Taking the first token, which must be an identifier; its name.
pub open spec fn ident(ts: Seq<Token>) -> Parsed<String> {
    if ts.len() == 0 {
        (Err(ParseFault::MoreTokens), ts)
    } else {
        match ts[0] {
            Token::Identifier(s) => (Ok(s), ts.drop_first()),
            t => (Err(ParseFault::Unexpected(t)), ts.drop_first()),
        }
    }
}

/// The `n`-th token is `t`.
pub open spec fn at_is(ts: Seq<Token>, n: int, t: Token) -> bool {
    0 <= n < ts.len() && ts[n] == t
}

/// Whether two string slices hold the same characters, compared one by one.
pub(crate) fn str_eq(a: &str, b: &str) -> (r: bool)
    ensures
        r == (a@ == b@),
{
    let n = a.unicode_len();
    if n != b.unicode_len() {
        return false;
    }
    let mut i: usize = 0;
    while i < n
        invariant
            n == a@.len(),
            n == b@.len(),
            i <= n,
            forall|j: int| 0 <= j < i ==> a@[j] == b@[j],
        decreases n - i,
    {
        if a.get_char(i) != b.get_char(i) {
            return false;
        }
        i = i + 1;
    }
    assert(a@ =~= b@);
    true
}

/// The state of a parse: the tokens that are still to be read.
#[derive(Debug)]
pub struct Parser {
    tokens: VecDeque<Token>,
}

impl View for Parser {
    type V = Seq<Token>;

    closed spec fn view(&self) -> Seq<Token> {
        self.tokens@
    }
}

impl Parser {
    /// A parser over the given tokens.
    pub fn new(tokens: Tokens) -> (p: Parser)
        ensures
            p@ == tokens.0@,
    {
        let ghost orig = tokens.0@;
        let mut v = tokens.0;
        let mut dq: VecDeque<Token> = VecDeque::new();
        while v.len() > 0
            invariant
                v@ + dq@ == orig,
            decreases v.len(),
        {
            let t = v.pop().unwrap();
            dq.push_front(t);
            assert(v@ + dq@ =~= orig);
        }
        assert(dq@ =~= orig);
        Parser { tokens: dq }
    }

    /// The first token, if there is one.
    pub fn first(&self) -> (r: Option<&Token>)
        ensures
            match r {
                Some(t) => self@.len() > 0 && *t == self@[0],
                None => self@.len() == 0,
            },
    {
        if self.tokens.len() > 0 {
            Some(&self.tokens[0])
        } else {
            None
        }
    }

    /// The `nth` token (counting from 0), if there is one.
    pub fn nth(&self, nth: usize) -> (r: Option<&Token>)
        ensures
            match r {
                Some(t) => nth < self@.len() && *t == self@[nth as int],
                None => self@.len() <= nth,
            },
    {
        if self.tokens.len() > nth {
            Some(&self.tokens[nth])
        } else {
            None
        }
    }

    /// The number of tokens left.
    pub fn len(&self) -> (r: usize)
        ensures
            r == self@.len(),
    {
        self.tokens.len()
    }

    /// The first token, or an error raised in `func` when there is none.
    pub fn first_err(&self, func: &'static str) -> (r: Result<&Token, ParserError>)
        ensures
            match r {
                Ok(t) => self@.len() > 0 && *t == self@[0],
                Err(e) => self@.len() == 0 && e.fault() == ParseFault::MoreTokens && e.trace()
                    == seq![func],
            },
    {
        if self.tokens.len() > 0 {
            Ok(&self.tokens[0])
        } else {
            Err(ParserError::new(func, ParseFault::MoreTokens))
        }
    }

    /// Takes the first token, if there is one.
    pub fn pop_front(&mut self) -> (r: Option<Token>)
        ensures
            match r {
                Some(t) => old(self)@.len() > 0 && t == old(self)@[0] && final(self)@
                    == old(self)@.drop_first(),
                None => old(self)@.len() == 0 && final(self)@ == old(self)@,
            },
            suffix_of(final(self)@, old(self)@),
    {
        let r = self.tokens.pop_front();
        proof {
            if r is Some {
                assert(self@ =~= old(self)@.drop_first());
            }
        }
        r
    }

    /// Takes the first token, or reports an error raised in `func` when there is none.
    pub fn pop_front_err(&mut self, func: &'static str) -> (r: Result<Token, ParserError>)
        ensures
            agrees(r, pop(old(self)@).0),
            final(self)@ == pop(old(self)@).1,
            suffix_of(final(self)@, old(self)@),
            r matches Err(e) ==> e.trace() == seq![func],
    {
        match self.pop_front() {
            Some(t) => Ok(t),
            None => Err(ParserError::new(func, ParseFault::MoreTokens)),
        }
    }

    /// Takes the first token, which must be an identifier, and gives its name.
    pub fn pop_ident(&mut self, func: &'static str) -> (r: Result<String, ParserError>)
        ensures
            agrees(r, ident(old(self)@).0),
            final(self)@ == ident(old(self)@).1,
            suffix_of(final(self)@, old(self)@),
            r matches Err(e) ==> e.trace() == seq![func],
    {
        match self.pop_front() {
            Some(Token::Identifier(s)) => Ok(s),
            Some(t) => Err(ParserError::new(func, ParseFault::Unexpected(t))),
            None => Err(ParserError::new(func, ParseFault::MoreTokens)),
        }
    }

    /// Puts a token back in front.
    pub fn push_front(&mut self, t: Token)
        ensures
            final(self)@ == seq![t] + old(self)@,
    {
        self.tokens.push_front(t);
    }

    /// Parses the tokens as a file: items until the tokens run out.
    pub fn file(tokens: Tokens) -> (r: Result<File, ParserError>)
        ensures
            agrees(r, parse_file(tokens.0@).0),
            named(r, "File"),
    {
        File::try_from(&mut Parser::new(tokens))
    }

    /// Parses the first item of the tokens as an enum.
    pub fn enum_def(tokens: Tokens) -> (r: Result<Enum, ParserError>)
        ensures
            agrees(r, parse_enum(tokens.0@).0),
            named(r, "Enum"),
    {
        Enum::try_from(&mut Parser::new(tokens))
    }

    /// Parses the first item of the tokens as a struct.
    pub fn struct_def(tokens: Tokens) -> (r: Result<Struct, ParserError>)
        ensures
            agrees(r, parse_struct(tokens.0@).0),
            named(r, "Struct"),
    {
        Struct::try_from(&mut Parser::new(tokens))
    }

    /// Parses the first item of the tokens as a function.
    pub fn function(tokens: Tokens) -> (r: Result<Defun, ParserError>)
        requires
            defun_defined(tokens.0@),
        ensures
            agrees(r, parse_defun(tokens.0@).0),
            named(r, "Defun"),
    {
        Defun::try_from(&mut Parser::new(tokens))
    }

    /// Parses the first expression of the tokens.
    pub fn expression(tokens: Tokens) -> (r: Result<Exp, ParserError>)
        ensures
            agrees(r, parse_exp(tokens.0@).0),
            named(r, "Exp") || named(r, "Self") || named(r, "exp"),
    {
        Exp::try_from(&mut Parser::new(tokens))
    }

    /// Parses the remaining tokens as a file and writes it as Rust source text.
    pub fn to_file_str(&mut self) -> (s: String)
        requires
            parse_file(old(self)@).0 matches Ok(f) && f.printable(),
        ensures
            parse_file(old(self)@).0 matches Ok(f) && s@ == f.text(),
            final(self)@ == parse_file(old(self)@).1,
    {
        match File::try_from(self) {
            Ok(file) => file.to_string(),
            Err(_) => unreached(),
        }
    }
}

} // verus!
