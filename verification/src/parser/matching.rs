use vstd::pervasive::unreached;
use vstd::prelude::*;

use crate::tokenizer::{Keywords, Literals, Token};

use super::exp::{parse_exp, Exp};
use crate::text::{inside, join, lemma_join_cons};

use super::list::List;
use super::range::{parse_range, Range};
use super::types::{parse_namespaced, NamespacedType};
use super::{
    agrees, named, at_is, ctx, ident, map_ok, pop, suffix_of, ParseFault, Parsed, Parser, ParserError,
    Problem,
};

verus! {

broadcast use super::lemma_suffix_trans;

/// `(match exp (pattern result) (pattern if guard result) ..)`.
#[derive(Debug)]
pub struct Match {
    pub against: Exp,
    pub branches: List<Branch>,
}

/// One arm of a `match`.
#[derive(Debug)]
pub struct Branch {
    pub pattern: Pattern,
    pub check: Option<Exp>,
    pub ret: Exp,
}

/// A pattern.
#[derive(Debug)]
pub enum Pattern {
    Variable(String),
    Literal(Literals),
    Touple(List<Pattern>),
    Array(List<Pattern>),
    Capture(String, Box<Pattern>),
    Range(Range),
    Enum(NamespacedType),
    EnumVars(NamespacedType, List<Pattern>),
    Struct(NamespacedType, List<FieldPattern>),
    Rest,
    Or(List<Pattern>),
}

/// A field of a struct pattern: `name -> pattern` or `name`.
#[derive(Debug)]
pub enum FieldPattern {
    Named(String, Pattern),
    Short(String),
}

/// Match => '(' 'match' Exp {Branch} ')'
pub open spec fn parse_match(ts: Seq<Token>) -> Parsed<Match>
    decreases ts.len(), 16nat,
{
    match pop(ts) {
        (Ok(Token::ParenOpen), r) => match pop(r) {
            (Ok(Token::Keyword(Keywords::Match)), r1) => match parse_exp(r1) {
                (Ok(against), r2) => if r2.len() < ts.len() {
                    map_ok(match_branches(r2), |branches: List<Branch>| Match { against, branches })
                } else {
                    (Err(ParseFault::MoreTokens), r2)
                },
                (Err(f), r2) => (Err(f), r2),
            },
            (Ok(x), r1) => (Err(ParseFault::Unexpected(x)), r1),
            (Err(f), r1) => (Err(f), r1),
        },
        (Ok(x), r) => (Err(ParseFault::Unexpected(x)), r),
        (Err(f), r) => (Err(f), r),
    }
}

/// Branches up to and with ')'.
pub open spec fn match_branches(ts: Seq<Token>) -> Parsed<List<Branch>>
    decreases ts.len(), 17nat,
{
    if ts.len() == 0 {
        (Err(ParseFault::MoreTokens), ts)
    } else if ts[0] == Token::ParenClose {
        (Ok(List::Nil), ts.drop_first())
    } else {
        match parse_branch(ts) {
            (Ok(b), r) => if r.len() < ts.len() {
                map_ok(match_branches(r), |rest: List<Branch>| List::Cons(Box::new(b), Box::new(rest)))
            } else {
                (Err(ParseFault::MoreTokens), r)
            },
            (Err(f), r) => (Err(f), r),
        }
    }
}

/// A pattern of one token that may carry its guard inside parentheses:
/// a name or a literal.
pub open spec fn simple_pattern(t: Token) -> Option<Pattern> {
    match t {
        Token::Identifier(n) => Some(Pattern::Variable(n)),
        Token::Literal(l) => Some(Pattern::Literal(l)),
        _ => None,
    }
}

/// The arm opens with `(name if guard)`: a simple pattern with its guard in parentheses.
pub open spec fn guarded_start(r: Seq<Token>) -> bool {
    &&& r.len() > 2
    &&& r[0] == Token::ParenOpen
    &&& simple_pattern(r[1]) is Some
    &&& r[2] == Token::Keyword(Keywords::If)
}

/// Branch => '(' Pattern ('if' Exp)? Exp ')' | '(' '(' (Identifier | literal) 'if' Exp ')' Exp ')'
pub open spec fn parse_branch(ts: Seq<Token>) -> Parsed<Branch>
    decreases ts.len(), 16nat,
{
    match pop(ts) {
        (Ok(Token::ParenOpen), r) => if guarded_start(r) {
            match parse_exp(r.skip(3)) {
                (Ok(check), r1) => match pop(r1) {
                    (Ok(Token::ParenClose), r2) => if r2.len() < ts.len() {
                        branch_end(r2, simple_pattern(r[1])->0, Some(check))
                    } else {
                        (Err(ParseFault::MoreTokens), r2)
                    },
                    (Ok(x), r2) => (Err(ParseFault::Unexpected(x)), r2),
                    (Err(f), r2) => (Err(f), r2),
                },
                (Err(f), r1) => (Err(f), r1),
            }
        } else {
            match parse_pattern(r) {
                (Ok(pattern), r1) => if r1.len() < ts.len() {
                    if at_is(r1, 0, Token::Keyword(Keywords::If)) {
                        match parse_exp(r1.drop_first()) {
                            (Ok(check), r2) => if r2.len() < ts.len() {
                                branch_end(r2, pattern, Some(check))
                            } else {
                                (Err(ParseFault::MoreTokens), r2)
                            },
                            (Err(f), r2) => (Err(f), r2),
                        }
                    } else {
                        branch_end(r1, pattern, None)
                    }
                } else {
                    (Err(ParseFault::MoreTokens), r1)
                },
                (Err(f), r1) => (Err(f), r1),
            }
        },
        (Ok(x), r) => (Err(ParseFault::Unexpected(x)), r),
        (Err(f), r) => (Err(f), r),
    }
}

/// The result of a branch and its ')'.
pub open spec fn branch_end(ts: Seq<Token>, pattern: Pattern, check: Option<Exp>) -> Parsed<Branch>
    decreases ts.len(), 21nat,
{
    match parse_exp(ts) {
        (Ok(ret), r) => match pop(r) {
            (Ok(Token::ParenClose), r1) => (Ok(Branch { pattern, check, ret }), r1),
            (Ok(x), r1) => (Err(ParseFault::Unexpected(x)), r1),
            (Err(f), r1) => (Err(f), r1),
        },
        (Err(f), r) => (Err(f), r),
    }
}

/// The bounds of a range pattern are literals.
pub open spec fn literal_range(r: Range) -> bool {
    match r {
        Range::Normal(s, e) => s is Literal && e is Literal,
        Range::Inclusive(s, e) => s is Literal && e is Literal,
        Range::Infinite(s) => s is Literal,
    }
}

/// Pattern => Identifier '@' Pattern | NamespacedType | Identifier | Range | literal
///          | '[' {Pattern} ']' | '<' {Pattern} '>' | '..' | '(' ... ')'
pub open spec fn parse_pattern(ts: Seq<Token>) -> Parsed<Pattern>
    decreases ts.len(), 22nat,
{
    if ts.len() == 0 {
        (Err(ParseFault::MoreTokens), ts)
    } else {
        let r = ts.drop_first();
        match ts[0] {
            Token::Identifier(name) => if at_is(r, 0, Token::Char('@')) {
                map_ok(parse_pattern(r.drop_first()), |p: Pattern| Pattern::Capture(name, Box::new(p)))
            } else if at_is(r, 0, Token::Keyword(Keywords::LeftArrow)) {
                map_ok(parse_namespaced(ts), |n: NamespacedType| Pattern::Enum(n))
            } else {
                (Ok(Pattern::Variable(name)), r)
            },
            Token::Literal(l) => if (l is Int || l is Char) && at_is(r, 0, Token::DoubleDot) {
                match parse_range(ts) {
                    (Ok(range), r1) => if literal_range(range) {
                        (Ok(Pattern::Range(range)), r1)
                    } else {
                        (Err(ParseFault::Invalid(Problem::RangeNotLiteral)), r1)
                    },
                    (Err(f), r1) => (Err(f), r1),
                }
            } else {
                (Ok(Pattern::Literal(l)), r)
            },
            Token::BracketOpen => map_ok(
                pattern_items(r, Token::BracketClose),
                |l: List<Pattern>| Pattern::Array(l),
            ),
            Token::AngleBracketOpen => map_ok(
                pattern_items(r, Token::AngleBracketClose),
                |l: List<Pattern>| Pattern::Touple(l),
            ),
            Token::DoubleDot => (Ok(Pattern::Rest), r),
            Token::ParenOpen => paren_pattern(r),
            t => (Err(ParseFault::Unexpected(t)), r),
        }
    }
}

/// Patterns up to and with `close`.
pub open spec fn pattern_items(ts: Seq<Token>, close: Token) -> Parsed<List<Pattern>>
    decreases ts.len(), 23nat,
{
    if ts.len() == 0 {
        (Err(ParseFault::MoreTokens), ts)
    } else if ts[0] == close {
        (Ok(List::Nil), ts.drop_first())
    } else {
        match parse_pattern(ts) {
            (Ok(p), r) => if r.len() < ts.len() {
                map_ok(
                    pattern_items(r, close),
                    |rest: List<Pattern>| List::Cons(Box::new(p), Box::new(rest)),
                )
            } else {
                (Err(ParseFault::MoreTokens), r)
            },
            (Err(f), r) => (Err(f), r),
        }
    }
}

/// A pattern in parentheses, after its '('.
pub open spec fn paren_pattern(ts: Seq<Token>) -> Parsed<Pattern>
    decreases ts.len(), 22nat,
{
    if ts.len() == 0 {
        (Err(ParseFault::MoreTokens), ts)
    } else {
        let r = ts.drop_first();
        match ts[0] {
            Token::Keyword(Keywords::Or) => map_ok(
                pattern_items(r, Token::ParenClose),
                |l: List<Pattern>| Pattern::Or(l),
            ),
            Token::Identifier(name) => if !at_is(r, 0, Token::ParenClose) {
                match parse_namespaced(ts) {
                    (Ok(ns), r1) => if r1.len() < ts.len() {
                        named_pattern(r1, ns)
                    } else {
                        (Err(ParseFault::MoreTokens), r1)
                    },
                    (Err(f), r1) => (Err(f), r1),
                }
            } else {
                paren_close(r, Pattern::Variable(name))
            },
            Token::Literal(l) => paren_close(r, Pattern::Literal(l)),
            Token::ParenOpen => match parse_pattern(r) {
                (Ok(p), r1) => paren_close(r1, p),
                (Err(f), r1) => (Err(f), r1),
            },
            t => (Err(ParseFault::Unexpected(t)), r),
        }
    }
}

/// ')' after a pattern.
pub open spec fn paren_close(ts: Seq<Token>, p: Pattern) -> Parsed<Pattern> {
    match pop(ts) {
        (Ok(Token::ParenClose), r) => (Ok(p), r),
        (Ok(x), r) => (Err(ParseFault::Unexpected(x)), r),
        (Err(f), r) => (Err(f), r),
    }
}

/// The rest of a pattern in parentheses after a path: ')', '{' fields '}' ')', or patterns ')'.
pub open spec fn named_pattern(ts: Seq<Token>, ns: NamespacedType) -> Parsed<Pattern>
    decreases ts.len(), 24nat,
{
    if ts.len() == 0 {
        (Err(ParseFault::MoreTokens), ts)
    } else if ts[0] == Token::ParenClose {
        (Ok(Pattern::Enum(ns)), ts.drop_first())
    } else if ts[0] == Token::CurlyOpen {
        match field_patterns(ts.drop_first()) {
            (Ok(fields), r) => paren_close(r, Pattern::Struct(ns, fields)),
            (Err(f), r) => (Err(f), r),
        }
    } else {
        map_ok(pattern_items(ts, Token::ParenClose), |l: List<Pattern>| Pattern::EnumVars(ns, l))
    }
}

/// The fields of a struct pattern, up to and with '}'.
pub open spec fn field_patterns(ts: Seq<Token>) -> Parsed<List<FieldPattern>>
    decreases ts.len(), 22nat,
{
    if ts.len() == 0 {
        (Err(ParseFault::MoreTokens), ts)
    } else if ts[0] == Token::CurlyClose {
        (Ok(List::Nil), ts.drop_first())
    } else if at_is(ts, 1, Token::Keyword(Keywords::LeftArrow)) {
        match ident(ts) {
            (Ok(name), r) => match parse_pattern(r.drop_first()) {
                (Ok(p), r1) => if r1.len() < ts.len() {
                    map_ok(
                        field_patterns(r1),
                        |rest: List<FieldPattern>|
                            List::Cons(Box::new(FieldPattern::Named(name, p)), Box::new(rest)),
                    )
                } else {
                    (Err(ParseFault::MoreTokens), r1)
                },
                (Err(f), r1) => (Err(f), r1),
            },
            (Err(f), r) => (Err(f), r),
        }
    } else {
        match ident(ts) {
            (Ok(name), r) => map_ok(
                field_patterns(r),
                |rest: List<FieldPattern>|
                    List::Cons(Box::new(FieldPattern::Short(name)), Box::new(rest)),
            ),
            (Err(f), r) => (Err(f), r),
        }
    }
}

/// A pattern is written as: a name, a literal, a range, an enum path or
/// `..` as itself; a capture as the name, `@` and the pattern; a tuple in
/// parentheses with `, ` between neighbours (the ones after the first as
/// the tuple of only them); an array as the same list in brackets; an enum
/// variant with values as its path and the same list as a tuple;
/// alternatives with `| ` between neighbours; a field as `name: pattern` or
/// its name alone.
pub proof fn lemma_pattern_text(
    p: Pattern,
    rest: List<Pattern>,
    ps: List<Pattern>,
    name: String,
    lit: Literals,
    r: Range,
    path: NamespacedType,
)
    ensures
        Pattern::Variable(name).text() == name@,
        Pattern::Literal(lit).text() == lit.text(),
        Pattern::Range(r).text() == r.text(),
        Pattern::Enum(path).text() == path.text(),
        Pattern::Rest.text() == ".."@,
        Pattern::Capture(name, Box::new(p)).text() == name@ + "@"@ + p.text(),
        Pattern::Touple(List::Nil).text() == "()"@,
        Pattern::Touple(List::Cons(Box::new(p), Box::new(rest))).text() == "("@ + p.text() + (
        if rest is Cons {
            ", "@ + inside(Pattern::Touple(rest).text())
        } else {
            Seq::empty()
        }) + ")"@,
        Pattern::Array(ps).text() == "["@ + inside(Pattern::Touple(ps).text()) + "]"@,
        Pattern::EnumVars(path, ps).text() == path.text() + Pattern::Touple(ps).text(),
        Pattern::Or(List::Nil).text() == Seq::<char>::empty(),
        Pattern::Or(List::Cons(Box::new(p), Box::new(rest))).text() == p.text() + (
        if rest is Cons {
            "| "@ + Pattern::Or(rest).text()
        } else {
            Seq::empty()
        }),
        FieldPattern::Named(name, p).text() == name@ + ": "@ + p.text(),
        FieldPattern::Short(name).text() == name@,
{
    reveal_strlit("(");
    reveal_strlit(")");
    reveal_strlit("()");
    assert(patterns_texts(List::<Pattern>::Nil) =~= Seq::<Seq<char>>::empty());
    assert(Pattern::Touple(List::Nil).text() =~= "()"@);
    let l = List::Cons(Box::new(p), Box::new(rest));
    assert(patterns_texts(l) == seq![p.text()] + patterns_texts(rest));
    lemma_join_cons(p.text(), patterns_texts(rest), ", "@);
    lemma_join_cons(p.text(), patterns_texts(rest), "| "@);
    let j = join(patterns_texts(rest), ", "@);
    assert(Pattern::Touple(rest).text() =~= "("@ + j + ")"@);
    assert(inside(Pattern::Touple(rest).text()) =~= j);
    if rest is Cons {
        assert(patterns_texts(rest).len() > 0);
    }
    assert(Pattern::Touple(l).text() =~= "("@ + p.text() + (if rest is Cons {
        ", "@ + inside(Pattern::Touple(rest).text())
    } else {
        Seq::empty()
    }) + ")"@);
    let jp = join(patterns_texts(ps), ", "@);
    assert(Pattern::Touple(ps).text() =~= "("@ + jp + ")"@);
    assert(inside(Pattern::Touple(ps).text()) =~= jp);
    assert(Pattern::EnumVars(path, ps).text() =~= path.text() + Pattern::Touple(ps).text());
    assert(Pattern::Or(List::Nil).text() =~= Seq::<char>::empty());
}

/// A struct pattern is written as its path and, in braces, its fields with
/// `, ` between neighbours (the ones after the first as the pattern that
/// has only them).
pub proof fn lemma_struct_pattern_text(path: NamespacedType, f: FieldPattern, rest: List<FieldPattern>)
    ensures
        Pattern::Struct(path, List::Nil).text() == path.text() + "{}"@,
        Pattern::Struct(path, List::Cons(Box::new(f), Box::new(rest))).text() == path.text() + "{"@
            + f.text() + (if rest is Cons {
            ", "@ + Pattern::Struct(path, rest).text().subrange(
                path.text().len() + 1int,
                Pattern::Struct(path, rest).text().len() - 1,
            )
        } else {
            Seq::empty()
        }) + "}"@,
{
    reveal_strlit("{");
    reveal_strlit("}");
    reveal_strlit("{}");
    assert(field_patterns_texts(List::<FieldPattern>::Nil) =~= Seq::<Seq<char>>::empty());
    assert(Pattern::Struct(path, List::Nil).text() =~= path.text() + "{}"@);
    let l = List::Cons(Box::new(f), Box::new(rest));
    assert(field_patterns_texts(l) == seq![f.text()] + field_patterns_texts(rest));
    lemma_join_cons(f.text(), field_patterns_texts(rest), ", "@);
    let j = join(field_patterns_texts(rest), ", "@);
    let s = Pattern::Struct(path, rest).text();
    assert(s =~= path.text() + "{"@ + j + "}"@);
    assert(s.subrange(path.text().len() + 1int, s.len() - 1) =~= j);
    if rest is Cons {
        assert(field_patterns_texts(rest).len() > 0);
    }
    assert(Pattern::Struct(path, l).text() =~= path.text() + "{"@ + f.text() + (if rest is Cons {
        ", "@ + s.subrange(path.text().len() + 1int, s.len() - 1)
    } else {
        Seq::empty()
    }) + "}"@);
}

/// A `match` is written `match value {`, each branch on a new line followed
/// by `,`, then `}`; a branch as its pattern, ` if ` and its guard when it
/// has one, ` => ` and its result.
pub proof fn lemma_match_text(a: Exp, b: Branch, rest: List<Branch>, p: Pattern, g: Exp, ret: Exp)
    ensures
        (Match { against: a, branches: List::Nil }).text() == "match "@ + a.text() + " {}"@,
        (Match { against: a, branches: List::Cons(Box::new(b), Box::new(rest)) }).text()
            == "match "@ + a.text() + " {"@ + "\n"@ + b.text() + ","@ + (Match {
            against: a,
            branches: rest,
        }).text().subrange(
            a.text().len() + 8int,
            (Match { against: a, branches: rest }).text().len() - 1,
        ) + "}"@,
        (Branch { pattern: p, check: None, ret }).text() == p.text() + " => "@ + ret.text(),
        (Branch { pattern: p, check: Some(g), ret }).text() == p.text() + " if "@ + g.text()
            + " => "@ + ret.text(),
{
    reveal_strlit("match ");
    reveal_strlit(" {");
    reveal_strlit("}");
    reveal_strlit(" {}");
    assert(branches_text(List::<Branch>::Nil) =~= Seq::<char>::empty());
    assert((Match { against: a, branches: List::Nil }).text() =~= "match "@ + a.text() + " {}"@);
    let s = (Match { against: a, branches: rest }).text();
    assert(s =~= "match "@ + a.text() + " {"@ + branches_text(rest) + "}"@);
    assert(s.subrange(a.text().len() + 8int, s.len() - 1) =~= branches_text(rest));
    assert((Match { against: a, branches: List::Cons(Box::new(b), Box::new(rest)) }).text()
        =~= "match "@ + a.text() + " {"@ + "\n"@ + b.text() + ","@ + s.subrange(
        a.text().len() + 8int,
        s.len() - 1,
    ) + "}"@);
}

impl Match {
    /// Parses `(match exp (pattern result) ..)`.
    pub fn try_from(value: &mut Parser) -> (r: Result<Match, ParserError>)
        ensures
            agrees(r, parse_match(old(value)@).0),
            final(value)@ == parse_match(old(value)@).1,
            suffix_of(final(value)@, old(value)@),
            r is Ok ==> final(value)@.len() < old(value)@.len(),
            named(r, "Match"),
        decreases old(value)@.len(), 16nat,
    {
        let t = value.pop_front_err("Match")?;
        if !matches!(t, Token::ParenOpen) {
            return Err(ParserError::new("Match", ParseFault::Unexpected(t)));
        }
        let t = value.pop_front_err("Match")?;
        if !matches!(t, Token::Keyword(Keywords::Match)) {
            return Err(ParserError::new("Match", ParseFault::Unexpected(t)));
        }
        let against = ctx(Exp::try_from(value), "Match")?;
        let branches = take_branches(value)?;
        Ok(Match { against, branches })
    }
}

fn take_branches(value: &mut Parser) -> (r: Result<List<Branch>, ParserError>)
    ensures
        agrees(r, match_branches(old(value)@).0),
        final(value)@ == match_branches(old(value)@).1,
        suffix_of(final(value)@, old(value)@),
        named(r, "Match"),
    decreases old(value)@.len(), 17nat,
{
    let peek = value.first_err("Match")?;
    if matches!(peek, Token::ParenClose) {
        value.pop_front();
        return Ok(List::Nil);
    }
    let b = ctx(Branch::try_from(value), "Match")?;
    let rest = take_branches(value)?;
    Ok(List::Cons(Box::new(b), Box::new(rest)))
}

impl Branch {
    /// Parses one arm of a `match`.
    pub fn try_from(value: &mut Parser) -> (r: Result<Branch, ParserError>)
        ensures
            agrees(r, parse_branch(old(value)@).0),
            final(value)@ == parse_branch(old(value)@).1,
            suffix_of(final(value)@, old(value)@),
            r is Ok ==> final(value)@.len() < old(value)@.len(),
            named(r, "Branch") || named(r, "Branch close"),
        decreases old(value)@.len(), 16nat,
    {
        let t = value.pop_front_err("Branch")?;
        if !matches!(t, Token::ParenOpen) {
            return Err(ParserError::new("Branch", ParseFault::Unexpected(t)));
        }
        if matches!(value.first(), Some(Token::ParenOpen)) && matches!(
            value.nth(1),
            Some(Token::Identifier(_) | Token::Literal(_)),
        ) && matches!(value.nth(2), Some(Token::Keyword(Keywords::If))) {
            value.pop_front();
            let pattern = match value.pop_front() {
                Some(Token::Identifier(n)) => Pattern::Variable(n),
                Some(Token::Literal(l)) => Pattern::Literal(l),
                _ => unreached(),
            };
            value.pop_front();
            let check = ctx(Exp::try_from(value), "Branch")?;
            let t = value.pop_front_err("Branch")?;
            if !matches!(t, Token::ParenClose) {
                return Err(ParserError::new("Branch", ParseFault::Unexpected(t)));
            }
            return take_branch_end(value, pattern, Some(check));
        }
        let pattern = ctx(Pattern::try_from(value), "Branch")?;
        if matches!(value.first(), Some(Token::Keyword(Keywords::If))) {
            value.pop_front();
            let check = ctx(Exp::try_from(value), "Branch")?;
            take_branch_end(value, pattern, Some(check))
        } else {
            take_branch_end(value, pattern, None)
        }
    }
}

fn take_branch_end(value: &mut Parser, pattern: Pattern, check: Option<Exp>) -> (r: Result<Branch, ParserError>)
    ensures
        agrees(r, branch_end(old(value)@, pattern, check).0),
        final(value)@ == branch_end(old(value)@, pattern, check).1,
        suffix_of(final(value)@, old(value)@),
        named(r, "Branch") || named(r, "Branch close"),
    decreases old(value)@.len(), 21nat,
{
    let ret = ctx(Exp::try_from(value), "Branch")?;
    let t = value.pop_front_err("Branch close")?;
    if !matches!(t, Token::ParenClose) {
        return Err(ParserError::new("Branch close", ParseFault::Unexpected(t)));
    }
    Ok(Branch { pattern, check, ret })
}

impl Pattern {
    /// Parses a pattern.
    pub fn try_from(value: &mut Parser) -> (r: Result<Pattern, ParserError>)
        ensures
            agrees(r, parse_pattern(old(value)@).0),
            final(value)@ == parse_pattern(old(value)@).1,
            suffix_of(final(value)@, old(value)@),
            r is Ok ==> final(value)@.len() < old(value)@.len(),
            named(r, "Pattern"),
        decreases old(value)@.len(), 22nat,
    {
        let ghost before = value@;
        let next = value.pop_front_err("Pattern")?;
        match next {
            Token::Identifier(name) => {
                if matches!(value.first(), Some(Token::Char('@'))) {
                    value.pop_front();
                    let p = ctx(Pattern::try_from(value), "Pattern")?;
                    Ok(Pattern::Capture(name, Box::new(p)))
                } else if matches!(value.first(), Some(Token::Keyword(Keywords::LeftArrow))) {
                    value.push_front(Token::Identifier(name));
                    assert(value@ =~= before);
                    let n = ctx(NamespacedType::try_from(value), "Pattern")?;
                    Ok(Pattern::Enum(n))
                } else {
                    Ok(Pattern::Variable(name))
                }
            },
            Token::Literal(l) => {
                if matches!(l, Literals::Int(_) | Literals::Char(_)) && matches!(
                    value.first(),
                    Some(Token::DoubleDot)
                ) {
                    value.push_front(Token::Literal(l));
                    assert(value@ =~= before);
                    let range = ctx(Range::try_from(value), "Pattern")?;
                    let literal = match &range {
                        Range::Normal(s, e) => matches!(s, Exp::Literal(_)) && matches!(e, Exp::Literal(_)),
                        Range::Inclusive(s, e) => matches!(s, Exp::Literal(_)) && matches!(e, Exp::Literal(_)),
                        Range::Infinite(s) => matches!(s, Exp::Literal(_)),
                    };
                    if literal {
                        Ok(Pattern::Range(range))
                    } else {
                        Err(ParserError::new("Pattern", ParseFault::Invalid(Problem::RangeNotLiteral)))
                    }
                } else {
                    Ok(Pattern::Literal(l))
                }
            },
            Token::BracketOpen => {
                let l = take_pattern_items(value, Token::BracketClose)?;
                Ok(Pattern::Array(l))
            },
            Token::AngleBracketOpen => {
                let l = take_pattern_items(value, Token::AngleBracketClose)?;
                Ok(Pattern::Touple(l))
            },
            Token::DoubleDot => Ok(Pattern::Rest),
            Token::ParenOpen => take_paren_pattern(value),
            t => Err(ParserError::new("Pattern", ParseFault::Unexpected(t))),
        }
    }
}

fn take_pattern_items(value: &mut Parser, close: Token) -> (r: Result<List<Pattern>, ParserError>)
    requires
        close == Token::BracketClose || close == Token::AngleBracketClose || close
            == Token::ParenClose,
    ensures
        agrees(r, pattern_items(old(value)@, close).0),
        final(value)@ == pattern_items(old(value)@, close).1,
        suffix_of(final(value)@, old(value)@),
        named(r, "Pattern"),
    decreases old(value)@.len(), 23nat,
{
    let peek = value.first_err("Pattern")?;
    let at_close = match close {
        Token::BracketClose => matches!(peek, Token::BracketClose),
        Token::AngleBracketClose => matches!(peek, Token::AngleBracketClose),
        _ => matches!(peek, Token::ParenClose),
    };
    if at_close {
        value.pop_front();
        return Ok(List::Nil);
    }
    let p = ctx(Pattern::try_from(value), "Pattern")?;
    let rest = take_pattern_items(value, close)?;
    Ok(List::Cons(Box::new(p), Box::new(rest)))
}

fn take_paren_close(value: &mut Parser, p: Pattern) -> (r: Result<Pattern, ParserError>)
    ensures
        agrees(r, paren_close(old(value)@, p).0),
        final(value)@ == paren_close(old(value)@, p).1,
        suffix_of(final(value)@, old(value)@),
        named(r, "Pattern"),
{
    let t = value.pop_front_err("Pattern")?;
    if !matches!(t, Token::ParenClose) {
        return Err(ParserError::new("Pattern", ParseFault::Unexpected(t)));
    }
    Ok(p)
}

fn take_paren_pattern(value: &mut Parser) -> (r: Result<Pattern, ParserError>)
    ensures
        agrees(r, paren_pattern(old(value)@).0),
        final(value)@ == paren_pattern(old(value)@).1,
        suffix_of(final(value)@, old(value)@),
        named(r, "Pattern"),
    decreases old(value)@.len(), 22nat,
{
    let ghost before = value@;
    let next = value.pop_front_err("Pattern")?;
    match next {
        Token::Keyword(Keywords::Or) => {
            let l = take_pattern_items(value, Token::ParenClose)?;
            Ok(Pattern::Or(l))
        },
        Token::Identifier(name) => {
            if !matches!(value.first(), Some(Token::ParenClose)) {
                value.push_front(Token::Identifier(name));
                assert(value@ =~= before);
                let ns = ctx(NamespacedType::try_from(value), "Pattern")?;
                take_named_pattern(value, ns)
            } else {
                take_paren_close(value, Pattern::Variable(name))
            }
        },
        Token::Literal(l) => take_paren_close(value, Pattern::Literal(l)),
        Token::ParenOpen => {
            let p = ctx(Pattern::try_from(value), "Pattern")?;
            take_paren_close(value, p)
        },
        t => Err(ParserError::new("Pattern", ParseFault::Unexpected(t))),
    }
}

fn take_named_pattern(value: &mut Parser, ns: NamespacedType) -> (r: Result<Pattern, ParserError>)
    ensures
        agrees(r, named_pattern(old(value)@, ns).0),
        final(value)@ == named_pattern(old(value)@, ns).1,
        suffix_of(final(value)@, old(value)@),
        named(r, "Pattern"),
    decreases old(value)@.len(), 24nat,
{
    let peek = value.first_err("Pattern")?;
    if matches!(peek, Token::ParenClose) {
        value.pop_front();
        Ok(Pattern::Enum(ns))
    } else if matches!(peek, Token::CurlyOpen) {
        value.pop_front();
        let fields = take_field_patterns(value)?;
        take_paren_close(value, Pattern::Struct(ns, fields))
    } else {
        let l = take_pattern_items(value, Token::ParenClose)?;
        Ok(Pattern::EnumVars(ns, l))
    }
}

fn take_field_patterns(value: &mut Parser) -> (r: Result<List<FieldPattern>, ParserError>)
    ensures
        agrees(r, field_patterns(old(value)@).0),
        final(value)@ == field_patterns(old(value)@).1,
        suffix_of(final(value)@, old(value)@),
        named(r, "Pattern"),
    decreases old(value)@.len(), 22nat,
{
    let peek = value.first_err("Pattern")?;
    if matches!(peek, Token::CurlyClose) {
        value.pop_front();
        return Ok(List::Nil);
    }
    if matches!(value.nth(1), Some(Token::Keyword(Keywords::LeftArrow))) {
        let name = value.pop_ident("Pattern")?;
        value.pop_front();
        let p = ctx(Pattern::try_from(value), "Pattern")?;
        let rest = take_field_patterns(value)?;
        Ok(List::Cons(Box::new(FieldPattern::Named(name, p)), Box::new(rest)))
    } else {
        let name = value.pop_ident("Pattern")?;
        let rest = take_field_patterns(value)?;
        Ok(List::Cons(Box::new(FieldPattern::Short(name)), Box::new(rest)))
    }
}

// ---------------------------------------------------------------- rendering

/// The match arms, each on a new line and followed by a comma, one after another.
pub open spec fn branches_text(l: List<Branch>) -> Seq<char>
    decreases l,
{
    match l {
        List::Nil => Seq::empty(),
        List::Cons(h, t) => "\n"@ + (*h).text() + ","@ + branches_text(*t),
    }
}

/// Every one of the match arms, each on a new line and followed by a comma can be written.
pub open spec fn branches_printable(l: List<Branch>) -> bool
    decreases l,
{
    match l {
        List::Nil => true,
        List::Cons(h, t) => (*h).printable() && branches_printable(*t),
    }
}

fn write_branches(l: &List<Branch>, out: &mut String) -> (ok: bool)
    ensures
        ok == branches_printable(*l),
        ok ==> final(out)@ == old(out)@ + branches_text(*l),
    decreases l,
{
    let ghost start = out@;
    match l {
        List::Nil => {},
        List::Cons(h, t) => {
            out.append("\n");
            if !h.write_to(out) {
                return false;
            }
            out.append(",");
            if !write_branches(t, out) {
                return false;
            }
        },
    }
    assert(out@ =~= start + branches_text(*l));
    true
}

impl Match {
    /// The match in Rust source text.
    pub open spec fn text(self) -> Seq<char>
        decreases self,
    {
        "match "@ + self.against.text() + " {"@ + branches_text(self.branches) + "}"@
    }

    /// The scrutinee and every arm can be written.
    pub open spec fn printable(self) -> bool
        decreases self,
    {
        self.against.printable() && branches_printable(self.branches)
    }

    /// Appends the Rust source text to `out`, and tells whether it could:
    /// `false` when a list that Rust needs non-empty is empty, and `out` then holds an unfinished text.
    pub fn write_to(&self, out: &mut String) -> (ok: bool)
        ensures
            ok == self.printable(),
            ok ==> final(out)@ == old(out)@ + self.text(),
        decreases self,
    {
        let ghost start = out@;
        out.append("match ");
        if !self.against.write_to(out) {
            return false;
        }
        out.append(" {");
        if !write_branches(&self.branches, out) {
            return false;
        }
        out.append("}");
        assert(out@ =~= start + self.text());
        true
    }

    /// The node in Rust source text.
    pub fn to_string(&self) -> (s: String)
        requires
            self.printable(),
        ensures
            s@ == self.text(),
    {
        let mut s = String::new();
        self.write_to(&mut s);
        s
    }
}

impl Branch {
    /// The arm in Rust source text: `pattern if guard => value`.
    pub open spec fn text(self) -> Seq<char>
        decreases self,
    {
        self.pattern.text() + match self.check {
            Some(c) => " if "@ + c.text(),
            None => Seq::empty(),
        } + " => "@ + self.ret.text()
    }

    /// The pattern, the guard and the value can be written.
    pub open spec fn printable(self) -> bool
        decreases self,
    {
        &&& self.pattern.printable()
        &&& (self.check matches Some(c) ==> c.printable())
        &&& self.ret.printable()
    }

    /// Appends the Rust source text to `out`, and tells whether it could:
    /// `false` when a list that Rust needs non-empty is empty, and `out` then holds an unfinished text.
    pub fn write_to(&self, out: &mut String) -> (ok: bool)
        ensures
            ok == self.printable(),
            ok ==> final(out)@ == old(out)@ + self.text(),
        decreases self,
    {
        let ghost start = out@;
        if !self.pattern.write_to(out) {
            return false;
        }
        match &self.check {
            Some(c) => {
                out.append(" if ");
                if !c.write_to(out) {
                    return false;
                }
            },
            None => {},
        }
        out.append(" => ");
        if !self.ret.write_to(out) {
            return false;
        }
        assert(out@ =~= start + self.text());
        true
    }

    /// The node in Rust source text.
    pub fn to_string(&self) -> (s: String)
        requires
            self.printable(),
        ensures
            s@ == self.text(),
    {
        let mut s = String::new();
        self.write_to(&mut s);
        s
    }
}

impl Pattern {
    /// The pattern in Rust source text.
    pub open spec fn text(self) -> Seq<char>
        decreases self,
    {
        match self {
            Pattern::Variable(v) => v@,
            Pattern::Literal(l) => l.text(),
            Pattern::Touple(ps) => "("@ + join(patterns_texts(ps), ", "@) + ")"@,
            Pattern::Array(ps) => "["@ + join(patterns_texts(ps), ", "@) + "]"@,
            Pattern::Capture(name, p) => name@ + "@"@ + p.text(),
            Pattern::Range(r) => r.text(),
            Pattern::Enum(path) => path.text(),
            Pattern::EnumVars(path, ps) => path.text() + "("@ + join(patterns_texts(ps), ", "@) + ")"@,
            Pattern::Struct(path, fields) => path.text() + "{"@ + join(
                field_patterns_texts(fields),
                ", "@,
            ) + "}"@,
            Pattern::Rest => ".."@,
            Pattern::Or(ps) => join(patterns_texts(ps), "| "@),
        }
    }

    /// Every part of the pattern can be written.
    pub open spec fn printable(self) -> bool
        decreases self,
    {
        match self {
            Pattern::Touple(ps) => patterns_printable(ps),
            Pattern::Array(ps) => patterns_printable(ps),
            Pattern::Capture(_, p) => p.printable(),
            Pattern::Range(r) => r.printable(),
            Pattern::Enum(path) => path.printable(),
            Pattern::EnumVars(path, ps) => path.printable() && patterns_printable(ps),
            Pattern::Struct(path, fields) => path.printable() && field_patterns_printable(fields),
            Pattern::Or(ps) => patterns_printable(ps),
            _ => true,
        }
    }

    /// Appends the Rust source text to `out`, and tells whether it could:
    /// `false` when a list that Rust needs non-empty is empty, and `out` then holds an unfinished text.
    pub fn write_to(&self, out: &mut String) -> (ok: bool)
        ensures
            ok == self.printable(),
            ok ==> final(out)@ == old(out)@ + self.text(),
        decreases self,
    {
        let ghost start = out@;
        match self {
            Pattern::Variable(v) => out.append(v.as_str()),
            Pattern::Literal(l) => if !l.write_to(out) {
                return false;
            },
            Pattern::Touple(ps) => {
                out.append("(");
                if !write_patterns(ps, ", ", out) {
                    return false;
                }
                out.append(")");
            },
            Pattern::Array(ps) => {
                out.append("[");
                if !write_patterns(ps, ", ", out) {
                    return false;
                }
                out.append("]");
            },
            Pattern::Capture(name, p) => {
                out.append(name.as_str());
                out.append("@");
                if !p.write_to(out) {
                    return false;
                }
            },
            Pattern::Range(r) => if !r.write_to(out) {
                return false;
            },
            Pattern::Enum(path) => if !path.write_to(out) {
                return false;
            },
            Pattern::EnumVars(path, ps) => {
                if !path.write_to(out) {
                    return false;
                }
                out.append("(");
                if !write_patterns(ps, ", ", out) {
                    return false;
                }
                out.append(")");
            },
            Pattern::Struct(path, fields) => {
                if !path.write_to(out) {
                    return false;
                }
                out.append("{");
                if !write_field_patterns(fields, ", ", out) {
                    return false;
                }
                out.append("}");
            },
            Pattern::Rest => out.append(".."),
            Pattern::Or(ps) => if !write_patterns(ps, "| ", out) {
                return false;
            },
        }
        assert(out@ =~= start + self.text());
        true
    }

    /// The node in Rust source text.
    pub fn to_string(&self) -> (s: String)
        requires
            self.printable(),
        ensures
            s@ == self.text(),
    {
        let mut s = String::new();
        self.write_to(&mut s);
        s
    }
}

/// The texts of the patterns, in order.
pub open spec fn patterns_texts(l: List<Pattern>) -> Seq<Seq<char>>
    decreases l,
{
    match l {
        List::Nil => Seq::empty(),
        List::Cons(h, t) => seq![(*h).text()] + patterns_texts(*t),
    }
}

/// Every one of the patterns can be written.
pub open spec fn patterns_printable(l: List<Pattern>) -> bool
    decreases l,
{
    match l {
        List::Nil => true,
        List::Cons(h, t) => (*h).printable() && patterns_printable(*t),
    }
}

/// Appends the patterns, with `sep` between neighbours.
pub(crate) fn write_patterns(l: &List<Pattern>, sep: &str, out: &mut String) -> (ok: bool)
    ensures
        ok == patterns_printable(*l),
        ok ==> final(out)@ == old(out)@ + join(patterns_texts(*l), sep@),
    decreases l,
{
    match l {
        List::Nil => {
            assert(out@ =~= old(out)@ + join(patterns_texts(*l), sep@));
        },
        List::Cons(h, t) => {
            let ghost start = out@;
            if !h.write_to(out) {
                return false;
            }
            match &**t {
                List::Nil => {},
                List::Cons(_, _) => out.append(sep),
            }
            if !write_patterns(t, sep, out) {
                return false;
            }
            proof {
                lemma_join_cons((*h).text(), patterns_texts(**t), sep@);
                assert(out@ =~= start + join(patterns_texts(*l), sep@));
            }
        },
    }
    true
}

impl FieldPattern {
    /// The field in Rust source text: `name: pattern` or `name`.
    pub open spec fn text(self) -> Seq<char>
        decreases self,
    {
        match self {
            FieldPattern::Named(name, p) => name@ + ": "@ + p.text(),
            FieldPattern::Short(name) => name@,
        }
    }

    /// Its pattern, if any, can be written.
    pub open spec fn printable(self) -> bool
        decreases self,
    {
        match self {
            FieldPattern::Named(_, p) => p.printable(),
            FieldPattern::Short(_) => true,
        }
    }

    /// Appends the Rust source text to `out`, and tells whether it could:
    /// `false` when a list that Rust needs non-empty is empty, and `out` then holds an unfinished text.
    pub fn write_to(&self, out: &mut String) -> (ok: bool)
        ensures
            ok == self.printable(),
            ok ==> final(out)@ == old(out)@ + self.text(),
        decreases self,
    {
        let ghost start = out@;
        match self {
            FieldPattern::Named(name, p) => {
                out.append(name.as_str());
                out.append(": ");
                if !p.write_to(out) {
                    return false;
                }
            },
            FieldPattern::Short(name) => out.append(name.as_str()),
        }
        assert(out@ =~= start + self.text());
        true
    }
}

/// The texts of the field patterns, in order.
pub open spec fn field_patterns_texts(l: List<FieldPattern>) -> Seq<Seq<char>>
    decreases l,
{
    match l {
        List::Nil => Seq::empty(),
        List::Cons(h, t) => seq![(*h).text()] + field_patterns_texts(*t),
    }
}

/// Every one of the field patterns can be written.
pub open spec fn field_patterns_printable(l: List<FieldPattern>) -> bool
    decreases l,
{
    match l {
        List::Nil => true,
        List::Cons(h, t) => (*h).printable() && field_patterns_printable(*t),
    }
}

/// Appends the field patterns, with `sep` between neighbours.
pub(crate) fn write_field_patterns(l: &List<FieldPattern>, sep: &str, out: &mut String) -> (ok: bool)
    ensures
        ok == field_patterns_printable(*l),
        ok ==> final(out)@ == old(out)@ + join(field_patterns_texts(*l), sep@),
    decreases l,
{
    match l {
        List::Nil => {
            assert(out@ =~= old(out)@ + join(field_patterns_texts(*l), sep@));
        },
        List::Cons(h, t) => {
            let ghost start = out@;
            if !h.write_to(out) {
                return false;
            }
            match &**t {
                List::Nil => {},
                List::Cons(_, _) => out.append(sep),
            }
            if !write_field_patterns(t, sep, out) {
                return false;
            }
            proof {
                lemma_join_cons((*h).text(), field_patterns_texts(**t), sep@);
                assert(out@ =~= start + join(field_patterns_texts(*l), sep@));
            }
        },
    }
    true
}

} // verus!
