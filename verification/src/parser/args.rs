use vstd::prelude::*;

use crate::tokenizer::{Keywords, Token};

use crate::text::{inside, join, lemma_join_cons};

use super::list::{names_text, write_names, List};
use super::types::{generics_texts, parse_generic, parse_type, write_generics, Generic, Type};
use super::{
    agrees, named, at_is, ctx, ident, pop, str_eq, suffix_of, ParseFault, Parsed, Parser, ParserError,
    Problem,
};

verus! {

broadcast use super::lemma_suffix_trans;

/// One argument in an argument list.
#[derive(Debug)]
pub enum Arg {
    Generic(Generic),
    Named(String, Type),
    Simple(String),
    SelfA(Type),
}

/// The typed arguments of a function: lifetimes, generics, the receiver, named arguments.
#[derive(Debug)]
pub struct ArgsTyped {
    pub lifetimes: List<String>,
    pub generics: List<Generic>,
    pub selft: Option<Type>,
    pub args: List<(String, Type)>,
}

/// The untyped arguments of a lambda.
#[derive(Debug)]
pub struct Args(pub List<String>);

/// `t` is a reference, shared or mutable, to `self`.
pub open spec fn is_self_ref(t: Type) -> bool {
    match t {
        Type::Ref(_, inner) => *inner matches Type::SelfA,
        Type::RefMut(_, inner) => *inner matches Type::SelfA,
        _ => false,
    }
}

/// Arg => 'self' | '&' Type | Generic | Identifier ('->' Type)?
pub open spec fn parse_arg(ts: Seq<Token>) -> Parsed<Arg> {
    if ts.len() == 0 {
        (Err(ParseFault::MoreTokens), ts)
    } else {
        let r = ts.drop_first();
        match ts[0] {
            Token::Identifier(name) => if name@ == "self"@ {
                (Ok(Arg::SelfA(Type::SelfA)), r)
            } else if at_is(r, 0, Token::Keyword(Keywords::LeftArrow)) {
                match parse_type(r.drop_first()) {
                    (Ok(t), r1) => (Ok(Arg::Named(name, t)), r1),
                    (Err(e), r1) => (Err(e), r1),
                }
            } else {
                (Ok(Arg::Simple(name)), r)
            },
            Token::Ref => match parse_type(ts) {
                (Ok(t), r1) => if is_self_ref(t) {
                    (Ok(Arg::SelfA(t)), r1)
                } else {
                    (Err(ParseFault::Invalid(Problem::RefNotSelf)), r1)
                },
                (Err(e), r1) => (Err(e), r1),
            },
            Token::Char(':') => match parse_generic(ts) {
                (Ok(g), r1) => (Ok(Arg::Generic(g)), r1),
                (Err(e), r1) => (Err(e), r1),
            },
            t => (Err(ParseFault::Unexpected(t)), r),
        }
    }
}

/// The lifetimes and generics in front of typed arguments.
pub open spec fn typed_prefix(ts: Seq<Token>) -> Parsed<(List<String>, List<Generic>)>
    decreases ts.len(),
{
    if ts.len() == 0 {
        (Err(ParseFault::MoreTokens), ts)
    } else if ts[0] == Token::Char(':') {
        match parse_generic(ts) {
            (Ok(g), r) => if r.len() < ts.len() {
                match typed_prefix(r) {
                    (Ok((ls, gs)), r1) => (Ok((ls, List::Cons(Box::new(g), Box::new(gs)))), r1),
                    (Err(e), r1) => (Err(e), r1),
                }
            } else {
                (Err(ParseFault::MoreTokens), r)
            },
            (Err(e), r) => (Err(e), r),
        }
    } else if ts[0] == Token::BackTick {
        match ident(ts.drop_first()) {
            (Ok(l), r) => match typed_prefix(r) {
                (Ok((ls, gs)), r1) => (Ok((List::Cons(Box::new(l), Box::new(ls)), gs)), r1),
                (Err(e), r1) => (Err(e), r1),
            },
            (Err(e), r) => (Err(e), r),
        }
    } else {
        (Ok((List::Nil, List::Nil)), ts)
    }
}

/// The receiver and named arguments of typed arguments, up to and with ')'.
/// When `self` is given more than once, the last one counts.
pub open spec fn typed_body(ts: Seq<Token>) -> Parsed<(Option<Type>, List<(String, Type)>)>
    decreases ts.len(),
{
    if at_is(ts, 0, Token::ParenClose) {
        (Ok((None, List::Nil)), ts.drop_first())
    } else {
        match parse_arg(ts) {
            (Ok(Arg::Generic(_)), r) => (Err(ParseFault::Invalid(Problem::GenericAmongArgs)), r),
            (Ok(Arg::Simple(_)), r) => (Err(ParseFault::Invalid(Problem::UntypedArg)), r),
            (Ok(a), r) => if r.len() < ts.len() {
                match typed_body(r) {
                    (Ok((s, args)), r1) => match a {
                        Arg::Named(n, t) => (
                            Ok((s, List::Cons(Box::new((n, t)), Box::new(args)))),
                            r1,
                        ),
                        Arg::SelfA(t) => (
                            Ok((if s is Some { s } else { Some(t) }, args)),
                            r1,
                        ),
                        _ => (Ok((s, args)), r1),
                    },
                    (Err(e), r1) => (Err(e), r1),
                }
            } else {
                (Err(ParseFault::MoreTokens), r)
            },
            (Err(e), r) => (Err(e), r),
        }
    }
}

/// ArgsTyped => '(' {Generic | '`' Identifier} {Arg} ')'
pub open spec fn parse_args_typed(ts: Seq<Token>) -> Parsed<ArgsTyped> {
    match pop(ts) {
        (Ok(Token::ParenOpen), r) => match typed_prefix(r) {
            (Ok((ls, gs)), r1) => match typed_body(r1) {
                (Ok((s, args)), r2) => (
                    Ok(ArgsTyped { lifetimes: ls, generics: gs, selft: s, args }),
                    r2,
                ),
                (Err(e), r2) => (Err(e), r2),
            },
            (Err(e), r1) => (Err(e), r1),
        },
        (Ok(t), r) => (Err(ParseFault::Unexpected(t)), r),
        (Err(e), r) => (Err(e), r),
    }
}

/// The names of untyped arguments, up to and with ')'.
pub open spec fn plain_names(ts: Seq<Token>) -> Parsed<List<String>>
    decreases ts.len(),
{
    if at_is(ts, 0, Token::ParenClose) {
        (Ok(List::Nil), ts.drop_first())
    } else {
        match parse_arg(ts) {
            (Ok(Arg::Simple(n)), r) => if r.len() < ts.len() {
                match plain_names(r) {
                    (Ok(rest), r1) => (Ok(List::Cons(Box::new(n), Box::new(rest))), r1),
                    (Err(e), r1) => (Err(e), r1),
                }
            } else {
                (Err(ParseFault::MoreTokens), r)
            },
            (Ok(_), r) => (Err(ParseFault::Invalid(Problem::TypedArg)), r),
            (Err(e), r) => (Err(e), r),
        }
    }
}

/// Args => '(' {Identifier} ')'
pub open spec fn parse_args(ts: Seq<Token>) -> Parsed<Args> {
    match pop(ts) {
        (Ok(Token::ParenOpen), r) => match plain_names(r) {
            (Ok(names), r1) => (Ok(Args(names)), r1),
            (Err(e), r1) => (Err(e), r1),
        },
        (Ok(t), r) => (Err(ParseFault::Unexpected(t)), r),
        (Err(e), r) => (Err(e), r),
    }
}

impl Arg {
    /// Parses one argument.
    pub fn try_from(value: &mut Parser) -> (r: Result<Arg, ParserError>)
        ensures
            agrees(r, parse_arg(old(value)@).0),
            final(value)@ == parse_arg(old(value)@).1,
            suffix_of(final(value)@, old(value)@),
            r is Ok ==> final(value)@.len() < old(value)@.len(),
            named(r, "Arg") || named(r, "Arg name") || named(r, "Arg type"),
    {
        let next = value.pop_front_err("Arg")?;
        match next {
            Token::Identifier(name) => {
                if str_eq(name.as_str(), "self") {
                    return Ok(Arg::SelfA(Type::SelfA));
                }
                if !matches!(value.first(), Some(Token::Keyword(Keywords::LeftArrow))) {
                    return Ok(Arg::Simple(name));
                }
                value.pop_front();
                let t = ctx(Type::try_from(value), "Arg type")?;
                Ok(Arg::Named(name, t))
            },
            Token::Ref => {
                value.push_front(Token::Ref);
                assert(value@ =~= old(value)@);
                let t = ctx(Type::try_from(value), "Arg")?;
                let self_ref = match &t {
                    Type::Ref(_, inner) => matches!(**inner, Type::SelfA),
                    Type::RefMut(_, inner) => matches!(**inner, Type::SelfA),
                    _ => false,
                };
                if self_ref {
                    Ok(Arg::SelfA(t))
                } else {
                    Err(ParserError::new("Arg", ParseFault::Invalid(Problem::RefNotSelf)))
                }
            },
            Token::Char(':') => {
                value.push_front(Token::Char(':'));
                assert(value@ =~= old(value)@);
                let g = ctx(Generic::try_from(value), "Arg")?;
                Ok(Arg::Generic(g))
            },
            t => Err(ParserError::new("Arg name", ParseFault::Unexpected(t))),
        }
    }
}

pub(crate) fn take_typed_prefix(value: &mut Parser) -> (r: Result<(List<String>, List<Generic>), ParserError>)
    ensures
        agrees(r, typed_prefix(old(value)@).0),
        final(value)@ == typed_prefix(old(value)@).1,
        suffix_of(final(value)@, old(value)@),
        named(r, "ArgsTyped"),
    decreases old(value)@.len(),
{
    let peek = value.first_err("ArgsTyped")?;
    if matches!(peek, Token::Char(':')) {
        let g = ctx(Generic::try_from(value), "ArgsTyped")?;
        let (ls, gs) = take_typed_prefix(value)?;
        Ok((ls, List::Cons(Box::new(g), Box::new(gs))))
    } else if matches!(peek, Token::BackTick) {
        value.pop_front();
        let l = value.pop_ident("ArgsTyped")?;
        let (ls, gs) = take_typed_prefix(value)?;
        Ok((List::Cons(Box::new(l), Box::new(ls)), gs))
    } else {
        Ok((List::Nil, List::Nil))
    }
}

fn take_typed_body(value: &mut Parser) -> (r: Result<(Option<Type>, List<(String, Type)>), ParserError>)
    ensures
        agrees(r, typed_body(old(value)@).0),
        final(value)@ == typed_body(old(value)@).1,
        suffix_of(final(value)@, old(value)@),
        named(r, "ArgsTyped"),
    decreases old(value)@.len(),
{
    if matches!(value.first(), Some(Token::ParenClose)) {
        value.pop_front();
        return Ok((None, List::Nil));
    }
    let arg = ctx(Arg::try_from(value), "ArgsTyped")?;
    match arg {
        Arg::Generic(_) => Err(
            ParserError::new("ArgsTyped", ParseFault::Invalid(Problem::GenericAmongArgs)),
        ),
        Arg::Simple(_) => Err(ParserError::new("ArgsTyped", ParseFault::Invalid(Problem::UntypedArg))),
        Arg::Named(n, t) => {
            let (s, args) = take_typed_body(value)?;
            Ok((s, List::Cons(Box::new((n, t)), Box::new(args))))
        },
        Arg::SelfA(t) => {
            let (s, args) = take_typed_body(value)?;
            let s = match s {
                Some(s) => Some(s),
                None => Some(t),
            };
            Ok((s, args))
        },
    }
}

impl ArgsTyped {
    /// Parses the typed argument list of a function.
    pub fn try_from(value: &mut Parser) -> (r: Result<ArgsTyped, ParserError>)
        ensures
            agrees(r, parse_args_typed(old(value)@).0),
            final(value)@ == parse_args_typed(old(value)@).1,
            suffix_of(final(value)@, old(value)@),
            r is Ok ==> final(value)@.len() < old(value)@.len(),
            named(r, "ArgsTyped"),
    {
        let t = value.pop_front_err("ArgsTyped")?;
        if !matches!(t, Token::ParenOpen) {
            return Err(ParserError::new("ArgsTyped", ParseFault::Unexpected(t)));
        }
        let (lifetimes, generics) = take_typed_prefix(value)?;
        let (selft, args) = take_typed_body(value)?;
        Ok(ArgsTyped { lifetimes, generics, selft, args })
    }
}

fn take_plain_names(value: &mut Parser) -> (r: Result<List<String>, ParserError>)
    ensures
        agrees(r, plain_names(old(value)@).0),
        final(value)@ == plain_names(old(value)@).1,
        suffix_of(final(value)@, old(value)@),
        named(r, "Args") || named(r, "Args arg"),
    decreases old(value)@.len(),
{
    if matches!(value.first(), Some(Token::ParenClose)) {
        value.pop_front();
        return Ok(List::Nil);
    }
    let arg = ctx(Arg::try_from(value), "Args")?;
    match arg {
        Arg::Simple(n) => {
            let rest = take_plain_names(value)?;
            Ok(List::Cons(Box::new(n), Box::new(rest)))
        },
        _ => Err(ParserError::new("Args arg", ParseFault::Invalid(Problem::TypedArg))),
    }
}

impl Args {
    /// Parses the argument names of a lambda.
    pub fn try_from(value: &mut Parser) -> (r: Result<Args, ParserError>)
        ensures
            agrees(r, parse_args(old(value)@).0),
            final(value)@ == parse_args(old(value)@).1,
            suffix_of(final(value)@, old(value)@),
            r is Ok ==> final(value)@.len() < old(value)@.len(),
            named(r, "Args") || named(r, "Args arg"),
    {
        let t = value.pop_front_err("Args")?;
        if !matches!(t, Token::ParenOpen) {
            return Err(ParserError::new("Args", ParseFault::Unexpected(t)));
        }
        let names = take_plain_names(value)?;
        Ok(Args(names))
    }
}

// ---------------------------------------------------------------- rendering

/// The texts of the named arguments, each as `name: Type`, in order.
pub open spec fn typed_args_texts(l: List<(String, Type)>) -> Seq<Seq<char>>
    decreases l,
{
    match l {
        List::Nil => Seq::empty(),
        List::Cons(h, t) => seq![(*h).0@ + ": "@ + (*h).1.text()] + typed_args_texts(*t),
    }
}

/// Every one of the named arguments, each as `name: Type` can be written.
pub open spec fn typed_args_printable(l: List<(String, Type)>) -> bool
    decreases l,
{
    match l {
        List::Nil => true,
        List::Cons(h, t) => (*h).1.printable() && typed_args_printable(*t),
    }
}

/// Appends the named arguments, each as `name: Type`, with `sep` between neighbours.
pub(crate) fn write_typed_args(l: &List<(String, Type)>, sep: &str, out: &mut String) -> (ok: bool)
    ensures
        ok == typed_args_printable(*l),
        ok ==> final(out)@ == old(out)@ + join(typed_args_texts(*l), sep@),
    decreases l,
{
    match l {
        List::Nil => {
            assert(out@ =~= old(out)@ + join(typed_args_texts(*l), sep@));
        },
        List::Cons(h, t) => {
            let ghost start = out@;
            out.append(h.0.as_str());
            out.append(": ");
            if !h.1.write_to(out) {
                return false;
            }
            match &**t {
                List::Nil => {},
                List::Cons(_, _) => out.append(sep),
            }
            if !write_typed_args(t, sep, out) {
                return false;
            }
            proof {
                lemma_join_cons((*h).0@ + ": "@ + (*h).1.text(), typed_args_texts(**t), sep@);
                assert(out@ =~= start + join(typed_args_texts(*l), sep@));
            }
        },
    }
    true
}

impl ArgsTyped {
    /// The parameter list in Rust source text: `<G, ..>(self, name: T, ..)`.
    /// The lifetimes are not written.
    pub open spec fn text(self) -> Seq<char> {
        let generics = if self.generics is Cons {
            "<"@ + join(generics_texts(self.generics), ", "@) + ">"@
        } else {
            Seq::empty()
        };
        let receiver = match self.selft {
            Some(t) => t.text() + if self.args is Cons {
                ", "@
            } else {
                Seq::empty()
            },
            None => Seq::empty(),
        };
        generics + "("@ + receiver + join(typed_args_texts(self.args), ", "@) + ")"@
    }

    /// Every type in the list can be written.
    pub open spec fn printable(self) -> bool {
        &&& (self.selft matches Some(t) ==> t.printable())
        &&& typed_args_printable(self.args)
    }

    /// Appends the Rust source text to `out`, and tells whether it could:
    /// `false` when a list that Rust needs non-empty is empty, and `out` then holds an unfinished text.
    pub fn write_to(&self, out: &mut String) -> (ok: bool)
        ensures
            ok == self.printable(),
            ok ==> final(out)@ == old(out)@ + self.text(),
    {
        let ghost start = out@;
        if !self.generics.is_empty() {
            out.append("<");
            if !write_generics(&self.generics, ", ", out) {
                return false;
            }
            out.append(">");
        }
        out.append("(");
        match &self.selft {
            Some(t) => {
                if !t.write_to(out) {
                    return false;
                }
                if !self.args.is_empty() {
                    out.append(", ");
                }
            },
            None => {},
        }
        if !write_typed_args(&self.args, ", ", out) {
            return false;
        }
        out.append(")");
        assert(out@ =~= start + self.text());
        true
    }

    /// The parameter list in Rust source text.
    pub fn to_string(&self) -> (s: String)
        requires
            self.printable(),
        ensures
            s@ == self.text(),
    {
        let mut s = String::new();
        self.write_to(&mut s);
        s
    }
}

/// Named arguments are written `name: Type`, with `, ` between neighbours:
/// no argument gives `()`, and an argument in front of others gives `(`,
/// `name: Type`, `, ` and what the others give inside their parentheses.
pub proof fn lemma_named_args_text(
    ls: List<String>,
    n: String,
    ty: Type,
    rest: List<(String, Type)>,
)
    ensures
        (ArgsTyped { lifetimes: ls, generics: List::Nil, selft: None, args: List::Nil }).text()
            == "()"@,
        (ArgsTyped {
            lifetimes: ls,
            generics: List::Nil,
            selft: None,
            args: List::Cons(Box::new((n, ty)), Box::new(rest)),
        }).text() == "("@ + n@ + ": "@ + ty.text() + (if rest is Cons {
            ", "@ + inside(
                (ArgsTyped { lifetimes: ls, generics: List::Nil, selft: None, args: rest }).text(),
            )
        } else {
            Seq::empty()
        }) + ")"@,
{
    reveal_strlit("(");
    reveal_strlit(")");
    reveal_strlit("()");
    reveal_strlit("<");
    reveal_strlit(">");
    let a0 = ArgsTyped { lifetimes: ls, generics: List::Nil, selft: None, args: List::Nil };
    assert(typed_args_texts(List::<(String, Type)>::Nil) =~= Seq::<Seq<char>>::empty());
    assert(a0.text() =~= "()"@);
    let l = List::Cons(Box::new((n, ty)), Box::new(rest));
    let h = n@ + ": "@ + ty.text();
    assert(typed_args_texts(l) == seq![h] + typed_args_texts(rest));
    lemma_join_cons(h, typed_args_texts(rest), ", "@);
    let ar = ArgsTyped { lifetimes: ls, generics: List::Nil, selft: None, args: rest };
    let j = join(typed_args_texts(rest), ", "@);
    assert(ar.text() =~= "("@ + j + ")"@);
    assert(inside(ar.text()) =~= j);
    if rest is Cons {
        assert(typed_args_texts(rest).len() > 0);
    }
    let al = ArgsTyped { lifetimes: ls, generics: List::Nil, selft: None, args: l };
    assert(al.text() =~= "("@ + n@ + ": "@ + ty.text() + (if rest is Cons {
        ", "@ + inside(ar.text())
    } else {
        Seq::empty()
    }) + ")"@);
}

/// A receiver is written first: before named arguments it is followed by
/// `, `, and the named arguments follow as they are written without it.
pub proof fn lemma_receiver_text(ls: List<String>, t: Type, args: List<(String, Type)>)
    ensures
        (ArgsTyped { lifetimes: ls, generics: List::Nil, selft: Some(t), args }).text() == "("@
            + t.text() + (if args is Cons {
            ", "@
        } else {
            Seq::empty()
        }) + inside(
            (ArgsTyped { lifetimes: ls, generics: List::Nil, selft: None, args }).text(),
        ) + ")"@,
{
    reveal_strlit("(");
    reveal_strlit(")");
    reveal_strlit("()");
    reveal_strlit("<");
    reveal_strlit(">");
    let j = join(typed_args_texts(args), ", "@);
    let b = ArgsTyped { lifetimes: ls, generics: List::Nil, selft: None, args };
    assert(b.text() =~= "("@ + j + ")"@);
    assert(inside(b.text()) =~= j);
    let a = ArgsTyped { lifetimes: ls, generics: List::Nil, selft: Some(t), args };
    assert(a.text() =~= "("@ + t.text() + (if args is Cons {
        ", "@
    } else {
        Seq::empty()
    }) + j + ")"@);
}

/// Generic parameters are written first, between `<` and `>` with `, `
/// between neighbours, and the rest is written as without them; the
/// lifetimes are not written at all.
pub proof fn lemma_generic_params_text(
    ls: List<String>,
    ls2: List<String>,
    g: Generic,
    gs: List<Generic>,
    selft: Option<Type>,
    args: List<(String, Type)>,
)
    ensures
        (ArgsTyped { lifetimes: ls, generics: gs, selft, args }).text() == (ArgsTyped {
            lifetimes: ls2,
            generics: gs,
            selft,
            args,
        }).text(),
        (ArgsTyped {
            lifetimes: ls,
            generics: List::Cons(Box::new(g), Box::new(gs)),
            selft,
            args,
        }).text() == "<"@ + g.text() + (if gs is Cons {
            ", "@ + generic_list(ls, gs)
        } else {
            Seq::empty()
        }) + ">"@ + (ArgsTyped { lifetimes: ls, generics: List::Nil, selft, args }).text(),
{
    reveal_strlit("(");
    reveal_strlit(")");
    reveal_strlit("()");
    reveal_strlit("<");
    reveal_strlit(">");
    let jg = join(generics_texts(gs), ", "@);
    assert(generics_texts(List::Cons(Box::new(g), Box::new(gs))) == seq![g.text()]
        + generics_texts(gs));
    lemma_join_cons(g.text(), generics_texts(gs), ", "@);
    if gs is Cons {
        assert(generics_texts(gs).len() > 0);
        let p = ArgsTyped { lifetimes: ls, generics: gs, selft: None, args: List::Nil };
        assert(typed_args_texts(List::<(String, Type)>::Nil) =~= Seq::<Seq<char>>::empty());
        assert(p.text() =~= "<"@ + jg + ">"@ + "()"@);
        assert(generic_list(ls, gs) =~= jg);
    }
    let a = ArgsTyped {
        lifetimes: ls,
        generics: List::Cons(Box::new(g), Box::new(gs)),
        selft,
        args,
    };
    let a0 = ArgsTyped { lifetimes: ls, generics: List::Nil, selft, args };
    assert(a.text() =~= "<"@ + g.text() + (if gs is Cons {
        ", "@ + generic_list(ls, gs)
    } else {
        Seq::empty()
    }) + ">"@ + a0.text());
}

/// The generic parameters `gs` as written between `<` and `>`, read off the
/// parameter list that holds only them.
pub open spec fn generic_list(ls: List<String>, gs: List<Generic>) -> Seq<char> {
    let s = (ArgsTyped { lifetimes: ls, generics: gs, selft: None, args: List::Nil }).text();
    s.subrange(1, s.len() - 3)
}

/// The parameters of a closure are written between `|` and `|`, with `, `
/// between neighbours.
pub proof fn lemma_closure_params_text(a: String, rest: List<String>)
    ensures
        Args(List::Nil).text() == "||"@,
        Args(List::Cons(Box::new(a), Box::new(rest))).text() == "|"@ + a@ + (if rest is Cons {
            ", "@ + inside(Args(rest).text())
        } else {
            Seq::empty()
        }) + "|"@,
{
    reveal_strlit("|");
    reveal_strlit("||");
    assert(names_text(List::<String>::Nil) =~= Seq::<Seq<char>>::empty());
    assert(Args(List::Nil).text() =~= "||"@);
    let l = List::Cons(Box::new(a), Box::new(rest));
    assert(names_text(l) == seq![a@] + names_text(rest));
    lemma_join_cons(a@, names_text(rest), ", "@);
    let j = join(names_text(rest), ", "@);
    assert(Args(rest).text() =~= "|"@ + j + "|"@);
    assert(inside(Args(rest).text()) =~= j);
    if rest is Cons {
        assert(names_text(rest).len() > 0);
    }
    assert(Args(l).text() =~= "|"@ + a@ + (if rest is Cons {
        ", "@ + inside(Args(rest).text())
    } else {
        Seq::empty()
    }) + "|"@);
}

impl Args {
    /// The parameters of a closure in Rust source text: `|a, b|`.
    pub open spec fn text(self) -> Seq<char> {
        "|"@ + join(names_text(self.0), ", "@) + "|"@
    }

    /// There is at least one parameter.
    pub open spec fn printable(self) -> bool {
        self.0 is Cons
    }

    /// Appends the Rust source text to `out`, and tells whether it could:
    /// `false` when a list that Rust needs non-empty is empty, and `out` then holds an unfinished text.
    pub fn write_to(&self, out: &mut String) -> (ok: bool)
        ensures
            ok == self.printable(),
            ok ==> final(out)@ == old(out)@ + self.text(),
    {
        if self.0.is_empty() {
            return false;
        }
        let ghost start = out@;
        out.append("|");
        if !write_names(&self.0, ", ", out) {
            return false;
        }
        out.append("|");
        assert(out@ =~= start + self.text());
        true
    }

    /// The parameters in Rust source text.
    pub fn to_string(&self) -> (s: String)
        requires
            self.printable(),
        ensures
            s@ == self.text(),
    {
        let mut s = String::new();
        self.write_to(&mut s);
        s
    }
}

} // verus!
