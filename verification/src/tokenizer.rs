use vstd::pervasive::unreached;
use vstd::prelude::*;

use crate::parser::str_eq;
use crate::text::{decimal, digit, push_char, push_decimal};

verus! {

/// The token stream of a source text.
#[derive(Debug, PartialEq, Eq)]
pub struct Tokens(pub Vec<Token>);

impl Tokens {
    /// Wraps a vector of tokens.
    pub fn from(value: Vec<Token>) -> (r: Tokens)
        ensures
            r.0@ == value@,
    {
        Tokens(value)
    }
}

/// One lexical unit of the language.
#[derive(Debug, PartialEq, Eq)]
pub enum Token {
    BackTick,
    Literal(Literals),
    Keyword(Keywords),
    Type(BuiltinTypes),
    DoubleDot,
    Ref,
    Char(char),
    Slash,
    ParenOpen,
    ParenClose,
    BracketOpen,
    BracketClose,
    AngleBracketOpen,
    AngleBracketClose,
    CurlyOpen,
    CurlyClose,
    Identifier(String),
}

impl Token {
    /// A copy of this token, equal to it.
    pub fn copy(&self) -> (r: Token)
        ensures
            r == *self,
    {
        match self {
            Token::BackTick => Token::BackTick,
            Token::Literal(l) => Token::Literal(l.copy()),
            Token::Keyword(k) => Token::Keyword(*k),
            Token::Type(t) => Token::Type(*t),
            Token::DoubleDot => Token::DoubleDot,
            Token::Ref => Token::Ref,
            Token::Char(c) => Token::Char(*c),
            Token::Slash => Token::Slash,
            Token::ParenOpen => Token::ParenOpen,
            Token::ParenClose => Token::ParenClose,
            Token::BracketOpen => Token::BracketOpen,
            Token::BracketClose => Token::BracketClose,
            Token::AngleBracketOpen => Token::AngleBracketOpen,
            Token::AngleBracketClose => Token::AngleBracketClose,
            Token::CurlyOpen => Token::CurlyOpen,
            Token::CurlyClose => Token::CurlyClose,
            Token::Identifier(s) => Token::Identifier(s.clone()),
        }
    }
}

/// An integer literal: a sign (`true` for negative) and a magnitude.
#[derive(Debug, PartialEq, Eq)]
pub struct Int(pub bool, pub u128);

/// A literal value.
#[derive(Debug, PartialEq, Eq)]
pub enum Literals {
    Int(Int),
    String(String),
    Char(char),
    Bool(bool),
}

impl Literals {
    /// A copy of this literal, equal to it.
    pub fn copy(&self) -> (r: Literals)
        ensures
            r == *self,
    {
        match self {
            Literals::Int(Int(neg, n)) => Literals::Int(Int(*neg, *n)),
            Literals::String(s) => Literals::String(s.clone()),
            Literals::Char(c) => Literals::Char(*c),
            Literals::Bool(b) => Literals::Bool(*b),
        }
    }
}

/// The reserved words and multi-character operators.
#[derive(Debug, PartialEq, Eq, Structural, Clone, Copy)]
pub enum Keywords {
    TurboStart,
    If,
    Else,
    Elif,
    Match,
    Defun,
    Lambda,
    Let,
    Struct,
    Enum,
    Use,
    For,
    Loop,
    While,
    Break,
    Impl,
    As,
    Continue,
    LeftArrow,
    RightArrow,
    Return,
    Do,
    Mut,
    Deref,
    Not,
    And,
    Or,
    Xor,
    BitwiseAnd,
    BitwiseOr,
    /// Opens a type alias; the scan gives none (it reads `type` as a name).
    Type,
    /// Opens a trait; the scan gives none (it reads `trait` as a name).
    Trait,
    /// Opens a module; the scan gives none (it reads `mod` as a name).
    Mod,
}

/// The types that the language knows by name.
#[derive(Debug, PartialEq, Eq, Structural, Clone, Copy)]
pub enum BuiltinTypes {
    U8,
    U16,
    U32,
    U64,
    U128,
    I8,
    I16,
    I32,
    I64,
    I128,
    String,
    Char,
    Bool,
}

impl Int {
    /// The literal as Rust writes it: a minus sign when negative, then the digits.
    pub open spec fn text(self) -> Seq<char> {
        if self.0 {
            "-"@ + decimal(self.1 as nat)
        } else {
            decimal(self.1 as nat)
        }
    }

    /// Appends the Rust source text to `out`; this always succeeds.
    pub fn write_to(&self, out: &mut String) -> (ok: bool)
        ensures
            ok,
            final(out)@ == old(out)@ + self.text(),
    {
        if self.0 {
            out.append("-");
        }
        push_decimal(out, self.1);
        proof {
            if self.0 {
                assert(out@ =~= old(out)@ + self.text());
            }
        }
        true
    }

    /// The literal as Rust source text.
    pub fn to_string(&self) -> (s: String)
        ensures
            s@ == self.text(),
    {
        let mut s = String::new();
        self.write_to(&mut s);
        s
    }
}

impl Literals {
    /// The literal as Rust writes it.
    pub open spec fn text(self) -> Seq<char> {
        match self {
            Literals::Int(i) => i.text(),
            Literals::String(s) => "\""@ + s@ + "\""@,
            Literals::Char(c) => "'"@ + seq![c] + "'"@,
            Literals::Bool(true) => "true"@,
            Literals::Bool(false) => "false"@,
        }
    }

    /// Appends the Rust source text to `out`; this always succeeds.
    pub fn write_to(&self, out: &mut String) -> (ok: bool)
        ensures
            ok,
            final(out)@ == old(out)@ + self.text(),
    {
        let ghost start = out@;
        match self {
            Literals::Int(i) => if !i.write_to(out) {
                return false;
            },
            Literals::String(s) => {
                out.append("\"");
                out.append(s.as_str());
                out.append("\"");
                assert(out@ =~= start + self.text());
            },
            Literals::Char(c) => {
                out.append("'");
                push_char(out, *c);
                out.append("'");
                assert(out@ =~= start + self.text());
            },
            Literals::Bool(b) => {
                if *b {
                    out.append("true");
                } else {
                    out.append("false");
                }
            },
        }
        true
    }

    /// The literal as Rust source text.
    pub fn to_string(&self) -> (s: String)
        ensures
            s@ == self.text(),
    {
        let mut s = String::new();
        self.write_to(&mut s);
        s
    }
}

impl BuiltinTypes {
    /// The name of the type in Rust source text.
    pub open spec fn text(self) -> Seq<char> {
        match self {
            BuiltinTypes::U8 => "u8"@,
            BuiltinTypes::U16 => "u16"@,
            BuiltinTypes::U32 => "u32"@,
            BuiltinTypes::U64 => "u64"@,
            BuiltinTypes::U128 => "k128"@,
            BuiltinTypes::I8 => "i8"@,
            BuiltinTypes::I16 => "i16"@,
            BuiltinTypes::I32 => "i32"@,
            BuiltinTypes::I64 => "i64"@,
            BuiltinTypes::I128 => "i128"@,
            BuiltinTypes::String => "String"@,
            BuiltinTypes::Char => "char"@,
            BuiltinTypes::Bool => "bool"@,
        }
    }

    fn name(&self) -> (r: &'static str)
        ensures
            r@ == self.text(),
    {
        match self {
            BuiltinTypes::U8 => "u8",
            BuiltinTypes::U16 => "u16",
            BuiltinTypes::U32 => "u32",
            BuiltinTypes::U64 => "u64",
            BuiltinTypes::U128 => "k128",
            BuiltinTypes::I8 => "i8",
            BuiltinTypes::I16 => "i16",
            BuiltinTypes::I32 => "i32",
            BuiltinTypes::I64 => "i64",
            BuiltinTypes::I128 => "i128",
            BuiltinTypes::String => "String",
            BuiltinTypes::Char => "char",
            BuiltinTypes::Bool => "bool",
        }
    }

    /// Appends the Rust source text to `out`; this always succeeds.
    pub fn write_to(&self, out: &mut String) -> (ok: bool)
        ensures
            ok,
            final(out)@ == old(out)@ + self.text(),
    {
        out.append(self.name());
        true
    }

    /// The name of the type in Rust source text.
    pub fn to_string(&self) -> (s: String)
        ensures
            s@ == self.text(),
    {
        String::from_str(self.name())
    }
}

// ---------------------------------------------------------------- views

/// A token as a mathematical value: names and string literals as character sequences.
pub enum TokenView {
    BackTick,
    Literal(LiteralView),
    Keyword(Keywords),
    Type(BuiltinTypes),
    DoubleDot,
    Ref,
    Char(char),
    Slash,
    ParenOpen,
    ParenClose,
    BracketOpen,
    BracketClose,
    AngleBracketOpen,
    AngleBracketClose,
    CurlyOpen,
    CurlyClose,
    Identifier(Seq<char>),
}

/// A literal as a mathematical value.
pub enum LiteralView {
    Int(bool, u128),
    String(Seq<char>),
    Char(char),
    Bool(bool),
}

impl View for Literals {
    type V = LiteralView;

    open spec fn view(&self) -> LiteralView {
        match self {
            Literals::Int(Int(neg, n)) => LiteralView::Int(*neg, *n),
            Literals::String(s) => LiteralView::String(s@),
            Literals::Char(c) => LiteralView::Char(*c),
            Literals::Bool(b) => LiteralView::Bool(*b),
        }
    }
}

impl View for Token {
    type V = TokenView;

    open spec fn view(&self) -> TokenView {
        match self {
            Token::BackTick => TokenView::BackTick,
            Token::Literal(l) => TokenView::Literal(l@),
            Token::Keyword(k) => TokenView::Keyword(*k),
            Token::Type(t) => TokenView::Type(*t),
            Token::DoubleDot => TokenView::DoubleDot,
            Token::Ref => TokenView::Ref,
            Token::Char(c) => TokenView::Char(*c),
            Token::Slash => TokenView::Slash,
            Token::ParenOpen => TokenView::ParenOpen,
            Token::ParenClose => TokenView::ParenClose,
            Token::BracketOpen => TokenView::BracketOpen,
            Token::BracketClose => TokenView::BracketClose,
            Token::AngleBracketOpen => TokenView::AngleBracketOpen,
            Token::AngleBracketClose => TokenView::AngleBracketClose,
            Token::CurlyOpen => TokenView::CurlyOpen,
            Token::CurlyClose => TokenView::CurlyClose,
            Token::Identifier(s) => TokenView::Identifier(s@),
        }
    }
}

/// The views of a sequence of tokens.
pub open spec fn views(ts: Seq<Token>) -> Seq<TokenView> {
    ts.map_values(|t: Token| t@)
}

impl View for Tokens {
    type V = Seq<TokenView>;

    open spec fn view(&self) -> Seq<TokenView> {
        views(self.0@)
    }
}

// ---------------------------------------------------------------- the scanner, as a specification

/// `char::is_ascii_alphanumeric`.
pub open spec fn is_alnum(c: char) -> bool {
    ||| ('a' as u32 <= c as u32 && c as u32 <= 'z' as u32)
    ||| ('A' as u32 <= c as u32 && c as u32 <= 'Z' as u32)
    ||| is_digit(c)
}

/// `char::is_ascii_digit`.
pub open spec fn is_digit(c: char) -> bool {
    '0' as u32 <= c as u32 && c as u32 <= '9' as u32
}

/// The value of a decimal digit.
pub open spec fn digit_value(c: char) -> int {
    c as u32 - '0' as u32
}

/// The number of decimal digits at the front of `cs`.
pub open spec fn digit_run(cs: Seq<char>) -> nat
    decreases cs.len(),
{
    if cs.len() > 0 && is_digit(cs[0]) {
        1 + digit_run(cs.drop_first())
    } else {
        0
    }
}

/// `acc` followed by the digits `ds`, read in base ten.
pub open spec fn read_digits(acc: int, ds: Seq<char>) -> int
    decreases ds.len(),
{
    if ds.len() == 0 {
        acc
    } else {
        read_digits(acc * 10 + digit_value(ds[0]), ds.drop_first())
    }
}

/// The number read from the digits at the front of `cs`, after `start`.
pub open spec fn number_at(start: int, cs: Seq<char>) -> int {
    read_digits(start, cs.take(digit_run(cs) as int))
}

/// The body of a string literal, after its opening quote: the characters
/// kept (a backslash stays, and the character after it loses its meaning)
/// and how many are consumed, the closing quote included when there is one.
pub open spec fn string_body(cs: Seq<char>, escaped: bool) -> (Seq<char>, nat)
    decreases cs.len(),
{
    if cs.len() == 0 {
        (Seq::empty(), 0)
    } else if cs[0] == '"' && !escaped {
        (Seq::empty(), 1)
    } else {
        let (lit, n) = string_body(cs.drop_first(), cs[0] == '\\' && !escaped);
        (seq![cs[0]] + lit, n + 1)
    }
}

/// The position of the first line break.
pub open spec fn newline_at(cs: Seq<char>) -> Option<nat>
    decreases cs.len(),
{
    if cs.len() == 0 {
        None
    } else if cs[0] == '\n' {
        Some(0)
    } else {
        match newline_at(cs.drop_first()) {
            Some(k) => Some(k + 1),
            None => None,
        }
    }
}

/// A character that may stand in a name.
pub open spec fn is_name_char(c: char) -> bool {
    ||| is_alnum(c)
    ||| c == '!' || c == '@' || c == '#' || c == '$' || c == '%' || c == '^'
    ||| c == '&' || c == '*' || c == '-' || c == '_' || c == '=' || c == '+'
    ||| c == ',' || c == '.' || c == '<' || c == '>' || c == '?'
}

/// A word that is a name: not empty, and made of name characters only.
pub open spec fn is_name(w: Seq<char>) -> bool {
    w.len() > 0 && forall|i: int| 0 <= i < w.len() ==> is_name_char(#[trigger] w[i])
}

/// The tokens that a word stands for: a keyword, a literal or a builtin type
/// when it is one of their spellings, else a name, or nothing when it is not one.
/// `define` is a second spelling of `defun`, the one the language description
/// uses. `type`, `trait` and `mod` are names: the scan gives no keyword for
/// them, so the readers of type aliases, traits and modules, which open with
/// such keywords, take tokens that were put together without the scan.
pub open spec fn word_tokens(w: Seq<char>) -> Seq<TokenView> {
    if w == "`"@ {
        seq![TokenView::BackTick]
    } else if w == "if"@ {
        seq![TokenView::Keyword(Keywords::If)]
    } else if w == "else"@ {
        seq![TokenView::Keyword(Keywords::Else)]
    } else if w == "elif"@ {
        seq![TokenView::Keyword(Keywords::Elif)]
    } else if w == "match"@ {
        seq![TokenView::Keyword(Keywords::Match)]
    } else if w == "defun"@ {
        seq![TokenView::Keyword(Keywords::Defun)]
    } else if w == "define"@ {
        seq![TokenView::Keyword(Keywords::Defun)]
    } else if w == "lambda"@ {
        seq![TokenView::Keyword(Keywords::Lambda)]
    } else if w == "let"@ {
        seq![TokenView::Keyword(Keywords::Let)]
    } else if w == "struct"@ {
        seq![TokenView::Keyword(Keywords::Struct)]
    } else if w == "enum"@ {
        seq![TokenView::Keyword(Keywords::Enum)]
    } else if w == "use"@ {
        seq![TokenView::Keyword(Keywords::Use)]
    } else if w == "for"@ {
        seq![TokenView::Keyword(Keywords::For)]
    } else if w == "loop"@ {
        seq![TokenView::Keyword(Keywords::Loop)]
    } else if w == "while"@ {
        seq![TokenView::Keyword(Keywords::While)]
    } else if w == "break"@ {
        seq![TokenView::Keyword(Keywords::Break)]
    } else if w == "impl"@ {
        seq![TokenView::Keyword(Keywords::Impl)]
    } else if w == "as"@ {
        seq![TokenView::Keyword(Keywords::As)]
    } else if w == "continue"@ {
        seq![TokenView::Keyword(Keywords::Continue)]
    } else if w == "mut"@ {
        seq![TokenView::Keyword(Keywords::Mut)]
    } else if w == "return"@ {
        seq![TokenView::Keyword(Keywords::Return)]
    } else if w == "do"@ {
        seq![TokenView::Keyword(Keywords::Do)]
    } else if w == "not"@ {
        seq![TokenView::Keyword(Keywords::Not)]
    } else if w == "and"@ {
        seq![TokenView::Keyword(Keywords::And)]
    } else if w == "or"@ {
        seq![TokenView::Keyword(Keywords::Or)]
    } else if w == "xor"@ {
        seq![TokenView::Keyword(Keywords::Xor)]
    } else if w == "band"@ {
        seq![TokenView::Keyword(Keywords::BitwiseAnd)]
    } else if w == "bor"@ {
        seq![TokenView::Keyword(Keywords::BitwiseOr)]
    } else if w == "true"@ {
        seq![TokenView::Literal(LiteralView::Bool(true))]
    } else if w == "false"@ {
        seq![TokenView::Literal(LiteralView::Bool(false))]
    } else if w == "u8"@ {
        seq![TokenView::Type(BuiltinTypes::U8)]
    } else if w == "u16"@ {
        seq![TokenView::Type(BuiltinTypes::U16)]
    } else if w == "u32"@ {
        seq![TokenView::Type(BuiltinTypes::U32)]
    } else if w == "u64"@ {
        seq![TokenView::Type(BuiltinTypes::U64)]
    } else if w == "u128"@ {
        seq![TokenView::Type(BuiltinTypes::U128)]
    } else if w == "i8"@ {
        seq![TokenView::Type(BuiltinTypes::I8)]
    } else if w == "i16"@ {
        seq![TokenView::Type(BuiltinTypes::I16)]
    } else if w == "i32"@ {
        seq![TokenView::Type(BuiltinTypes::I32)]
    } else if w == "i64"@ {
        seq![TokenView::Type(BuiltinTypes::I64)]
    } else if w == "i128"@ {
        seq![TokenView::Type(BuiltinTypes::I128)]
    } else if w == "string"@ {
        seq![TokenView::Type(BuiltinTypes::String)]
    } else if w == "char"@ {
        seq![TokenView::Type(BuiltinTypes::Char)]
    } else if w == "bool"@ {
        seq![TokenView::Type(BuiltinTypes::Bool)]
    } else if is_name(w) {
        seq![TokenView::Identifier(w)]
    } else {
        Seq::empty()
    }
}

/// How the scan of a word ends.
pub enum WordEnd {
    /// The word's characters, and how many characters after its first one it took.
    Word(Seq<char>, nat),
    /// As `Word`, and the word is followed right away by `->`, which was taken too.
    Arrow(Seq<char>, nat),
    /// The text ended right after a `-` in the word.
    Refused,
}

/// The same end, with `n` more characters taken.
pub open spec fn shift(e: WordEnd, n: nat) -> WordEnd {
    match e {
        WordEnd::Word(w, k) => WordEnd::Word(w, k + n),
        WordEnd::Arrow(w, k) => WordEnd::Arrow(w, k + n),
        WordEnd::Refused => WordEnd::Refused,
    }
}

/// The scan of a word after its first characters `chs`: letters, digits,
/// `_` and `!` are kept; a `-` keeps the character after it too, unless that
/// is `>` (the word ends before `->`) or another `-` (a comment up to the end
/// of the line, which is skipped); `comment` says that a comment is being skipped.
pub open spec fn scan_word(chs: Seq<char>, cs: Seq<char>, comment: bool) -> WordEnd
    decreases cs.len(),
{
    if cs.len() == 0 {
        WordEnd::Word(chs, 0)
    } else if comment {
        shift(scan_word(chs, cs.drop_first(), cs[0] != '\n'), 1)
    } else {
        let p = cs[0];
        if !(is_alnum(p) || p == '-' || p == '_' || p == '!') {
            WordEnd::Word(chs, 0)
        } else if p == '-' {
            if cs.len() < 2 {
                WordEnd::Refused
            } else if cs[1] == '-' {
                shift(scan_word(chs, cs.skip(2), true), 2)
            } else if cs[1] == '>' {
                WordEnd::Arrow(chs, 2)
            } else {
                shift(scan_word(chs + seq!['-', cs[1]], cs.skip(2), false), 2)
            }
        } else {
            shift(scan_word(chs.push(p), cs.drop_first(), false), 1)
        }
    }
}

/// One step of the scan: the tokens found at the front of the text and the
/// number of characters they take, or a refusal, or no end (a panic or an
/// endless loop).
pub enum Step {
    Emit(Seq<TokenView>, nat),
    Refuse(Seq<char>),
    Stuck,
}

/// A single token taking `n` characters.
pub open spec fn one(t: TokenView, n: nat) -> Step {
    Step::Emit(seq![t], n)
}

/// The text `r` starts with `x`.
pub open spec fn next_is(r: Seq<char>, x: char) -> bool {
    r.len() > 0 && r[0] == x
}

/// The step at the front of a non-empty text.
pub open spec fn step(cs: Seq<char>) -> Step {
    let c = cs[0];
    let r = cs.drop_first();
    if c == '(' {
        one(TokenView::ParenOpen, 1)
    } else if c == ')' {
        one(TokenView::ParenClose, 1)
    } else if c == '[' {
        one(TokenView::BracketOpen, 1)
    } else if c == '<' && next_is(r, '-') {
        one(TokenView::Keyword(Keywords::RightArrow), 2)
    } else if c == '<' {
        one(TokenView::AngleBracketOpen, 1)
    } else if c == '>' {
        one(TokenView::AngleBracketClose, 1)
    } else if c == ']' {
        one(TokenView::BracketClose, 1)
    } else if c == '{' {
        one(TokenView::CurlyOpen, 1)
    } else if c == '}' {
        one(TokenView::CurlyClose, 1)
    } else if c == '/' {
        one(TokenView::Slash, 1)
    } else if c == '\'' {
        if r.len() == 0 {
            Step::Stuck
        } else if r.len() >= 2 && r[1] == '\'' {
            one(TokenView::Literal(LiteralView::Char(r[0])), 3)
        } else {
            Step::Refuse("unfinished closing single quote"@)
        }
    } else if c == '"' {
        let (lit, n) = string_body(r, false);
        one(TokenView::Literal(LiteralView::String(lit)), n + 1)
    } else if c == '&' {
        one(TokenView::Ref, 1)
    } else if c == '.' && next_is(r, '.') {
        one(TokenView::DoubleDot, 2)
    } else if c == '-' && next_is(r, '-') {
        match newline_at(r.drop_first()) {
            Some(k) => Step::Emit(Seq::empty(), k + 3),
            None => Step::Stuck,
        }
    } else if c == '-' && r.len() > 0 && is_digit(r[0]) {
        let v = number_at(0, r);
        if v <= u128::MAX {
            one(TokenView::Literal(LiteralView::Int(true, v as u128)), 1 + digit_run(r))
        } else {
            Step::Stuck
        }
    } else if c == '-' && next_is(r, '>') {
        one(TokenView::Keyword(Keywords::LeftArrow), 2)
    } else if c == '\n' {
        Step::Emit(Seq::empty(), 1)
    } else if c == '*' && !next_is(r, ' ') {
        one(TokenView::Keyword(Keywords::Deref), 1)
    } else if is_digit(c) {
        let v = number_at(digit_value(c), r);
        if v <= u128::MAX {
            one(TokenView::Literal(LiteralView::Int(false, v as u128)), 1 + digit_run(r))
        } else {
            Step::Stuck
        }
    } else if is_alnum(c) || c == '_' {
        match scan_word(seq![c], r, false) {
            WordEnd::Word(w, n) => if r.len() > n && r[n as int] == '<' {
                Step::Emit(word_tokens(w).push(TokenView::Keyword(Keywords::TurboStart)), n + 2)
            } else {
                Step::Emit(word_tokens(w), n + 1)
            },
            WordEnd::Arrow(w, n) => Step::Emit(
                word_tokens(w).push(TokenView::Keyword(Keywords::LeftArrow)),
                n + 1,
            ),
            WordEnd::Refused => Step::Refuse("Expected more chars"@),
        }
    } else if c != ' ' {
        one(TokenView::Char(c), 1)
    } else {
        Step::Emit(Seq::empty(), 1)
    }
}

/// The outcome of scanning a whole text.
pub enum Lexed {
    /// The text's tokens.
    Tokens(Seq<TokenView>),
    /// The text is refused with this message.
    Refused(Seq<char>),
    /// The scan does not end normally: it panics or loops forever.
    Stuck,
}

/// The tokens `ts` in front of an outcome.
pub open spec fn after(ts: Seq<TokenView>, l: Lexed) -> Lexed {
    match l {
        Lexed::Tokens(rest) => Lexed::Tokens(ts + rest),
        other => other,
    }
}

/// The scan of a text: step after step until the text is used up.
pub open spec fn lex(cs: Seq<char>) -> Lexed
    decreases cs.len(),
{
    if cs.len() == 0 {
        Lexed::Tokens(Seq::empty())
    } else {
        match step(cs) {
            Step::Emit(ts, n) => if 1 <= n <= cs.len() {
                after(ts, lex(cs.skip(n as int)))
            } else {
                Lexed::Stuck
            },
            Step::Refuse(m) => Lexed::Refused(m),
            Step::Stuck => Lexed::Stuck,
        }
    }
}

// ---------------------------------------------------------------- the scanner

/// The characters of a text, in order.
fn chars_of(s: &str) -> (v: Vec<char>)
    ensures
        v@ == s@,
{
    let mut v: Vec<char> = Vec::new();
    for c in it: s.chars()
        invariant
            v@ == it.seq().take(it.index() as int),
    {
        v.push(c);
        assert(v@ =~= it.seq().take(it.index() + 1));
    }
    v
}

fn is_digit_char(c: char) -> (r: bool)
    ensures
        r == is_digit(c),
{
    let n = c as u32;
    48 <= n && n <= 57
}

fn is_alnum_char(c: char) -> (r: bool)
    ensures
        r == is_alnum(c),
{
    let n = c as u32;
    (97 <= n && n <= 122) || (65 <= n && n <= 90) || is_digit_char(c)
}

fn is_name_char_exec(c: char) -> (r: bool)
    ensures
        r == is_name_char(c),
{
    is_alnum_char(c) || c == '!' || c == '@' || c == '#' || c == '$' || c == '%' || c == '^'
        || c == '&' || c == '*' || c == '-' || c == '_' || c == '=' || c == '+' || c == ','
        || c == '.' || c == '<' || c == '>' || c == '?'
}

proof fn lemma_read_digits_grows(acc: int, ds: Seq<char>)
    requires
        acc >= 0,
        forall|i: int| 0 <= i < ds.len() ==> is_digit(#[trigger] ds[i]),
    ensures
        read_digits(acc, ds) >= acc,
    decreases ds.len(),
{
    if ds.len() > 0 {
        lemma_read_digits_grows(acc * 10 + digit_value(ds[0]), ds.drop_first());
    }
}

proof fn lemma_digit_run_digits(cs: Seq<char>)
    ensures
        digit_run(cs) <= cs.len(),
        forall|i: int| 0 <= i < digit_run(cs) ==> is_digit(#[trigger] cs[i]),
        digit_run(cs) < cs.len() ==> !is_digit(cs[digit_run(cs) as int]),
    decreases cs.len(),
{
    if cs.len() > 0 && is_digit(cs[0]) {
        let r = cs.drop_first();
        lemma_digit_run_digits(r);
        assert forall|i: int| 0 <= i < digit_run(cs) implies is_digit(#[trigger] cs[i]) by {
            if i > 0 {
                assert(cs[i] == r[i - 1]);
            }
        }
        if digit_run(cs) < cs.len() {
            assert(cs[digit_run(cs) as int] == r[digit_run(r) as int]);
        }
    }
}

/// Reading a number one digit further.
proof fn lemma_number_step(acc: int, cs: Seq<char>)
    requires
        cs.len() > 0,
        is_digit(cs[0]),
    ensures
        number_at(acc, cs) == number_at(acc * 10 + digit_value(cs[0]), cs.drop_first()),
        digit_run(cs) == 1 + digit_run(cs.drop_first()),
{
    lemma_digit_run_digits(cs);
    assert(cs.take(digit_run(cs) as int).drop_first() =~= cs.drop_first().take(
        digit_run(cs.drop_first()) as int,
    ));
}

/// A number only grows as digits are read.
proof fn lemma_number_grows(acc: int, cs: Seq<char>)
    requires
        acc >= 0,
    ensures
        number_at(acc, cs) >= acc,
{
    lemma_digit_run_digits(cs);
    lemma_read_digits_grows(acc, cs.take(digit_run(cs) as int));
}

/// Reads the decimal digits at position `i` after the value `start`;
/// `None` where the value does not fit in a `u128`.
fn read_int(v: &Vec<char>, i: usize, start: u128) -> (r: Option<(u128, usize)>)
    requires
        i <= v.len(),
    ensures
        match r {
            Some((num, j)) => number_at(start as int, v@.skip(i as int)) == num && j == i
                + digit_run(v@.skip(i as int)),
            None => number_at(start as int, v@.skip(i as int)) > u128::MAX,
        },
{
    let mut num = start;
    let mut j = i;
    while j < v.len() && is_digit_char(v[j])
        invariant
            i <= j <= v.len(),
            digit_run(v@.skip(i as int)) == (j - i) + digit_run(v@.skip(j as int)),
            number_at(start as int, v@.skip(i as int)) == number_at(num as int, v@.skip(j as int)),
        decreases v.len() - j,
    {
        let ghost cs = v@.skip(j as int);
        assert(cs[0] == v@[j as int]);
        assert(cs.drop_first() =~= v@.skip(j + 1));
        let d = (v[j] as u32 - 48) as u128;
        proof {
            lemma_number_step(num as int, cs);
            lemma_number_grows(num * 10 + d, cs.drop_first());
        }
        match num.checked_mul(10) {
            Some(m) => match m.checked_add(d) {
                Some(x) => {
                    num = x;
                },
                None => {
                    return None;
                },
            },
            None => {
                return None;
            },
        }
        j = j + 1;
    }
    assert(v@.skip(j as int).take(0) =~= Seq::<char>::empty());
    Some((num, j))
}

/// Reads the body of a string literal that starts at position `i`, after its quote.
fn read_string(v: &Vec<char>, i: usize) -> (r: (String, usize))
    requires
        i <= v.len(),
    ensures
        string_body(v@.skip(i as int), false) == (r.0@, (r.1 - i) as nat),
        i <= r.1 <= v.len(),
{
    let ghost cs0 = v@.skip(i as int);
    let mut lit = String::new();
    let mut escaped = false;
    let mut j = i;
    while j < v.len()
        invariant
            i <= j <= v.len(),
            cs0 == v@.skip(i as int),
            string_body(cs0, false).0 == lit@ + string_body(v@.skip(j as int), escaped).0,
            string_body(cs0, false).1 == (j - i) + string_body(v@.skip(j as int), escaped).1,
        decreases v.len() - j,
    {
        let c = v[j];
        let ghost cs = v@.skip(j as int);
        assert(cs[0] == c);
        assert(cs.drop_first() =~= v@.skip(j + 1));
        if c == '"' && !escaped {
            assert(string_body(cs, escaped) == (Seq::<char>::empty(), 1nat));
            assert(lit@ + Seq::<char>::empty() =~= lit@);
            assert(string_body(cs0, false).0 == lit@);
            assert(string_body(cs0, false).1 == (j + 1 - i) as nat);
            assert(cs0 == v@.skip(i as int));
            return (lit, j + 1);
        }
        let ghost before = lit@;
        let ghost esc0 = escaped;
        push_char(&mut lit, c);
        escaped = c == '\\' && !escaped;
        proof {
            let x = string_body(v@.skip(j + 1), escaped);
            assert(string_body(cs, esc0) == (seq![c] + x.0, x.1 + 1));
            assert(before + (seq![c] + x.0) =~= lit@ + x.0);
        }
        j = j + 1;
    }
    assert(v@.skip(j as int) =~= Seq::<char>::empty());
    assert(lit@ + Seq::<char>::empty() =~= lit@);
    (lit, j)
}

/// The position of the first line break at or after position `i`.
fn find_newline(v: &Vec<char>, i: usize) -> (r: Option<usize>)
    requires
        i <= v.len(),
    ensures
        match newline_at(v@.skip(i as int)) {
            Some(k) => r matches Some(p) && p == i + k,
            None => r is None,
        },
        r matches Some(p) ==> i <= p < v.len(),
{
    let mut j = i;
    while j < v.len()
        invariant
            i <= j <= v.len(),
            newline_at(v@.skip(i as int)) == match newline_at(v@.skip(j as int)) {
                Some(k) => Some(k + (j - i) as nat),
                None => None::<nat>,
            },
        decreases v.len() - j,
    {
        let ghost cs = v@.skip(j as int);
        assert(cs[0] == v@[j as int]);
        assert(cs.drop_first() =~= v@.skip(j + 1));
        if v[j] == '\n' {
            return Some(j);
        }
        j = j + 1;
    }
    assert(v@.skip(j as int) =~= Seq::<char>::empty());
    None
}

/// How the scan of a word ends, in executable form.
enum WordScan {
    /// The word and the position right after it.
    Word(String, usize),
    /// The word and the position right after the `->` that follows it.
    Arrow(String, usize),
    Refused,
}

proof fn lemma_shift_shift(e: WordEnd, a: nat, b: nat)
    ensures
        shift(shift(e, a), b) == shift(e, a + b),
{
}

/// Scans a word whose first character `first` stands right before position `i`.
fn read_word(v: &Vec<char>, i: usize, first: char) -> (r: WordScan)
    requires
        i <= v.len(),
    ensures
        match (r, scan_word(seq![first], v@.skip(i as int), false)) {
            (WordScan::Word(w, j), WordEnd::Word(sw, n)) => w@ == sw && j == i + n,
            (WordScan::Arrow(w, j), WordEnd::Arrow(sw, n)) => w@ == sw && j == i + n,
            (WordScan::Refused, WordEnd::Refused) => true,
            _ => false,
        },
        match r {
            WordScan::Word(_, j) => i <= j <= v.len(),
            WordScan::Arrow(_, j) => i <= j <= v.len(),
            WordScan::Refused => true,
        },
{
    let mut word = String::new();
    push_char(&mut word, first);
    assert(word@ =~= seq![first]);
    let mut comment = false;
    let mut j = i;
    loop
        invariant
            i <= j <= v.len(),
            scan_word(seq![first], v@.skip(i as int), false) == shift(
                scan_word(word@, v@.skip(j as int), comment),
                (j - i) as nat,
            ),
        decreases v.len() - j,
    {
        let ghost cs = v@.skip(j as int);
        if j >= v.len() {
            return WordScan::Word(word, j);
        }
        assert(cs[0] == v@[j as int]);
        assert(cs.drop_first() =~= v@.skip(j + 1));
        let p = v[j];
        if comment {
            proof {
                lemma_shift_shift(scan_word(word@, v@.skip(j + 1), p != '\n'), 1, (j - i) as nat);
            }
            comment = p != '\n';
            j = j + 1;
        } else if !(is_alnum_char(p) || p == '-' || p == '_' || p == '!') {
            return WordScan::Word(word, j);
        } else if p == '-' {
            if j + 1 >= v.len() {
                return WordScan::Refused;
            }
            let q = v[j + 1];
            assert(cs[1] == q);
            assert(cs.skip(2) =~= v@.skip(j + 2));
            if q == '-' {
                proof {
                    lemma_shift_shift(scan_word(word@, v@.skip(j + 2), true), 2, (j - i) as nat);
                }
                comment = true;
                j = j + 2;
            } else if q == '>' {
                return WordScan::Arrow(word, j + 2);
            } else {
                let ghost before = word@;
                push_char(&mut word, '-');
                push_char(&mut word, q);
                assert(word@ =~= before + seq!['-', q]);
                proof {
                    lemma_shift_shift(scan_word(word@, v@.skip(j + 2), false), 2, (j - i) as nat);
                }
                j = j + 2;
            }
        } else {
            push_char(&mut word, p);
            proof {
                lemma_shift_shift(scan_word(word@, v@.skip(j + 1), false), 1, (j - i) as nat);
            }
            j = j + 1;
        }
    }
}

/// A vector of one token.
fn single(t: Token) -> (r: Vec<Token>)
    ensures
        views(r@) == seq![t@],
{
    let mut r = Vec::new();
    r.push(t);
    assert(views(r@) =~= seq![t@]);
    r
}

/// Whether the characters form a name.
fn is_name_exec(w: &str) -> (r: bool)
    ensures
        r == is_name(w@),
{
    let cs = chars_of(w);
    if cs.len() == 0 {
        return false;
    }
    let mut k: usize = 0;
    while k < cs.len()
        invariant
            k <= cs.len(),
            cs@ == w@,
            forall|m: int| 0 <= m < k ==> is_name_char(#[trigger] cs@[m]),
        decreases cs.len() - k,
    {
        if !is_name_char_exec(cs[k]) {
            return false;
        }
        k = k + 1;
    }
    true
}

/// The tokens that a word stands for.
fn word_tokens_exec(w: &String) -> (r: Vec<Token>)
    ensures
        views(r@) == word_tokens(w@),
{
    let s = w.as_str();
    if str_eq(s, "`") {
        single(Token::BackTick)
    } else if str_eq(s, "if") {
        single(Token::Keyword(Keywords::If))
    } else if str_eq(s, "else") {
        single(Token::Keyword(Keywords::Else))
    } else if str_eq(s, "elif") {
        single(Token::Keyword(Keywords::Elif))
    } else if str_eq(s, "match") {
        single(Token::Keyword(Keywords::Match))
    } else if str_eq(s, "defun") {
        single(Token::Keyword(Keywords::Defun))
    } else if str_eq(s, "define") {
        single(Token::Keyword(Keywords::Defun))
    } else if str_eq(s, "lambda") {
        single(Token::Keyword(Keywords::Lambda))
    } else if str_eq(s, "let") {
        single(Token::Keyword(Keywords::Let))
    } else if str_eq(s, "struct") {
        single(Token::Keyword(Keywords::Struct))
    } else if str_eq(s, "enum") {
        single(Token::Keyword(Keywords::Enum))
    } else if str_eq(s, "use") {
        single(Token::Keyword(Keywords::Use))
    } else if str_eq(s, "for") {
        single(Token::Keyword(Keywords::For))
    } else if str_eq(s, "loop") {
        single(Token::Keyword(Keywords::Loop))
    } else if str_eq(s, "while") {
        single(Token::Keyword(Keywords::While))
    } else if str_eq(s, "break") {
        single(Token::Keyword(Keywords::Break))
    } else if str_eq(s, "impl") {
        single(Token::Keyword(Keywords::Impl))
    } else if str_eq(s, "as") {
        single(Token::Keyword(Keywords::As))
    } else if str_eq(s, "continue") {
        single(Token::Keyword(Keywords::Continue))
    } else if str_eq(s, "mut") {
        single(Token::Keyword(Keywords::Mut))
    } else if str_eq(s, "return") {
        single(Token::Keyword(Keywords::Return))
    } else if str_eq(s, "do") {
        single(Token::Keyword(Keywords::Do))
    } else if str_eq(s, "not") {
        single(Token::Keyword(Keywords::Not))
    } else if str_eq(s, "and") {
        single(Token::Keyword(Keywords::And))
    } else if str_eq(s, "or") {
        single(Token::Keyword(Keywords::Or))
    } else if str_eq(s, "xor") {
        single(Token::Keyword(Keywords::Xor))
    } else if str_eq(s, "band") {
        single(Token::Keyword(Keywords::BitwiseAnd))
    } else if str_eq(s, "bor") {
        single(Token::Keyword(Keywords::BitwiseOr))
    } else if str_eq(s, "true") {
        single(Token::Literal(Literals::Bool(true)))
    } else if str_eq(s, "false") {
        single(Token::Literal(Literals::Bool(false)))
    } else if str_eq(s, "u8") {
        single(Token::Type(BuiltinTypes::U8))
    } else if str_eq(s, "u16") {
        single(Token::Type(BuiltinTypes::U16))
    } else if str_eq(s, "u32") {
        single(Token::Type(BuiltinTypes::U32))
    } else if str_eq(s, "u64") {
        single(Token::Type(BuiltinTypes::U64))
    } else if str_eq(s, "u128") {
        single(Token::Type(BuiltinTypes::U128))
    } else if str_eq(s, "i8") {
        single(Token::Type(BuiltinTypes::I8))
    } else if str_eq(s, "i16") {
        single(Token::Type(BuiltinTypes::I16))
    } else if str_eq(s, "i32") {
        single(Token::Type(BuiltinTypes::I32))
    } else if str_eq(s, "i64") {
        single(Token::Type(BuiltinTypes::I64))
    } else if str_eq(s, "i128") {
        single(Token::Type(BuiltinTypes::I128))
    } else if str_eq(s, "string") {
        single(Token::Type(BuiltinTypes::String))
    } else if str_eq(s, "char") {
        single(Token::Type(BuiltinTypes::Char))
    } else if str_eq(s, "bool") {
        single(Token::Type(BuiltinTypes::Bool))
    } else if is_name_exec(s) {
        single(Token::Identifier(w.clone()))
    } else {
        let r = Vec::new();
        assert(views(r@) =~= Seq::<TokenView>::empty());
        r
    }
}

/// One step of the scan, in executable form.
enum Scanned {
    /// The tokens found and the number of characters they take.
    Emit(Vec<Token>, usize),
    Refuse(&'static str),
    Stuck,
}

/// The executable step agrees with the step of the specification.
spec fn scanned_is(r: Scanned, s: Step) -> bool {
    match (r, s) {
        (Scanned::Emit(ts, n), Step::Emit(sts, sn)) => views(ts@) == sts && n == sn,
        (Scanned::Refuse(e), Step::Refuse(m)) => e@ == m,
        (Scanned::Stuck, Step::Stuck) => true,
        _ => false,
    }
}

fn emit_one(t: Token, n: usize) -> (r: Scanned)
    ensures
        r matches Scanned::Emit(ts, k) && views(ts@) == seq![t@] && k == n,
{
    Scanned::Emit(single(t), n)
}

fn emit_none(n: usize) -> (r: Scanned)
    ensures
        r matches Scanned::Emit(ts, k) && views(ts@) == Seq::<TokenView>::empty() && k == n,
{
    let ts: Vec<Token> = Vec::new();
    assert(views(ts@) =~= Seq::<TokenView>::empty());
    Scanned::Emit(ts, n)
}

/// The step of the scan at position `i`.
fn lex_step(v: &Vec<char>, i: usize) -> (r: Scanned)
    requires
        i < v.len(),
    ensures
        scanned_is(r, step(v@.skip(i as int))),
{
    let ghost cs = v@.skip(i as int);
    let ghost r = cs.drop_first();
    assert(cs[0] == v@[i as int]);
    assert(r =~= v@.skip(i + 1));
    let c = v[i];
    let next: Option<char> = if i + 1 < v.len() {
        Some(v[i + 1])
    } else {
        None
    };
    assert(next matches Some(x) ==> next_is(r, x));
    assert(next is None ==> r.len() == 0);
    if c == '(' {
        emit_one(Token::ParenOpen, 1)
    } else if c == ')' {
        emit_one(Token::ParenClose, 1)
    } else if c == '[' {
        emit_one(Token::BracketOpen, 1)
    } else if c == '<' && next == Some('-') {
        emit_one(Token::Keyword(Keywords::RightArrow), 2)
    } else if c == '<' {
        emit_one(Token::AngleBracketOpen, 1)
    } else if c == '>' {
        emit_one(Token::AngleBracketClose, 1)
    } else if c == ']' {
        emit_one(Token::BracketClose, 1)
    } else if c == '{' {
        emit_one(Token::CurlyOpen, 1)
    } else if c == '}' {
        emit_one(Token::CurlyClose, 1)
    } else if c == '/' {
        emit_one(Token::Slash, 1)
    } else if c == '\'' {
        if i + 1 >= v.len() {
            Scanned::Stuck
        } else if i + 2 < v.len() && v[i + 2] == '\'' {
            assert(r[1] == v@[i + 2]);
            emit_one(Token::Literal(Literals::Char(v[i + 1])), 3)
        } else {
            Scanned::Refuse("unfinished closing single quote")
        }
    } else if c == '"' {
        let (lit, j) = read_string(v, i + 1);
        emit_one(Token::Literal(Literals::String(lit)), j - i)
    } else if c == '&' {
        emit_one(Token::Ref, 1)
    } else if c == '.' && next == Some('.') {
        emit_one(Token::DoubleDot, 2)
    } else if c == '-' && next == Some('-') {
        assert(r.drop_first() =~= v@.skip(i + 2));
        match find_newline(v, i + 2) {
            Some(p) => emit_none(p - i + 1),
            None => Scanned::Stuck,
        }
    } else if c == '-' && i + 1 < v.len() && is_digit_char(v[i + 1]) {
        match read_int(v, i + 1, 0) {
            Some((num, j)) => emit_one(Token::Literal(Literals::Int(Int(true, num))), j - i),
            None => Scanned::Stuck,
        }
    } else if c == '-' && next == Some('>') {
        emit_one(Token::Keyword(Keywords::LeftArrow), 2)
    } else if c == '\n' {
        emit_none(1)
    } else if c == '*' && next != Some(' ') {
        emit_one(Token::Keyword(Keywords::Deref), 1)
    } else if is_digit_char(c) {
        let d = (c as u32 - 48) as u128;
        assert(d == digit_value(c));
        match read_int(v, i + 1, d) {
            Some((num, j)) => emit_one(Token::Literal(Literals::Int(Int(false, num))), j - i),
            None => Scanned::Stuck,
        }
    } else if is_alnum_char(c) || c == '_' {
        match read_word(v, i + 1, c) {
            WordScan::Word(w, j) => {
                let mut ts = word_tokens_exec(&w);
                assert(j < v.len() ==> r[j - i - 1] == v@[j as int]);
                if j < v.len() && v[j] == '<' {
                    let ghost before = ts@;
                    ts.push(Token::Keyword(Keywords::TurboStart));
                    assert(views(ts@) =~= views(before).push(
                        TokenView::Keyword(Keywords::TurboStart),
                    ));
                    Scanned::Emit(ts, j - i + 1)
                } else {
                    Scanned::Emit(ts, j - i)
                }
            },
            WordScan::Arrow(w, j) => {
                let mut ts = word_tokens_exec(&w);
                let ghost before = ts@;
                ts.push(Token::Keyword(Keywords::LeftArrow));
                assert(views(ts@) =~= views(before).push(TokenView::Keyword(Keywords::LeftArrow)));
                Scanned::Emit(ts, j - i)
            },
            WordScan::Refused => Scanned::Refuse("Expected more chars"),
        }
    } else if c != ' ' {
        emit_one(Token::Char(c), 1)
    } else {
        emit_none(1)
    }
}

/// Tokens in front of tokens, and their views.
proof fn lemma_views_append(a: Seq<Token>, b: Seq<Token>)
    ensures
        views(a + b) == views(a) + views(b),
{
    assert(views(a + b) =~= views(a) + views(b));
}

proof fn lemma_after_after(a: Seq<TokenView>, b: Seq<TokenView>, l: Lexed)
    ensures
        after(a, after(b, l)) == after(a + b, l),
{
    match l {
        Lexed::Tokens(rest) => {
            assert(a + (b + rest) =~= (a + b) + rest);
        },
        _ => {},
    }
}

/// The scan of a whole text; `None` where it does not end normally.
fn lex_chars(v: &Vec<char>) -> (r: Option<Result<Vec<Token>, &'static str>>)
    ensures
        match lex(v@) {
            Lexed::Tokens(ts) => r matches Some(Ok(t)) && views(t@) == ts,
            Lexed::Refused(m) => r matches Some(Err(e)) && e@ == m,
            Lexed::Stuck => r is None,
        },
{
    let mut toks: Vec<Token> = Vec::new();
    let mut i: usize = 0;
    assert(v@.skip(0) =~= v@);
    assert(views(toks@) =~= Seq::<TokenView>::empty());
    assert(after(Seq::<TokenView>::empty(), lex(v@)) =~= lex(v@)) by {
        match lex(v@) {
            Lexed::Tokens(ts) => {
                assert(Seq::<TokenView>::empty() + ts =~= ts);
            },
            _ => {},
        }
    }
    while i < v.len()
        invariant
            i <= v.len(),
            lex(v@) == after(views(toks@), lex(v@.skip(i as int))),
        decreases v.len() - i,
    {
        let ghost cs = v@.skip(i as int);
        match lex_step(v, i) {
            Scanned::Emit(ts, n) => {
                if n < 1 || n > v.len() - i {
                    return None;
                }
                assert(cs.skip(n as int) =~= v@.skip(i + n));
                let ghost old_toks = toks@;
                let ghost new_ts = ts@;
                let mut ts = ts;
                toks.append(&mut ts);
                proof {
                    assert(toks@ == old_toks + new_ts);
                    lemma_views_append(old_toks, new_ts);
                    lemma_after_after(views(old_toks), views(new_ts), lex(v@.skip(i + n)));
                }
                i = i + n;
            },
            Scanned::Refuse(m) => {
                return Some(Err(m));
            },
            Scanned::Stuck => {
                return None;
            },
        }
    }
    assert(v@.skip(i as int) =~= Seq::<char>::empty());
    assert(views(toks@) + Seq::<TokenView>::empty() =~= views(toks@));
    Some(Ok(toks))
}

impl Tokens {
    /// Scans a text into tokens. A text is refused where a character literal
    /// is left open (`"unfinished closing single quote"`) or where a word ends
    /// in `-` at the very end (`"Expected more chars"`). The text must be one on
    /// which the scan ends: a `'` as its last character, an integer literal too
    /// large for a `u128`, or a `--` comment not closed by a line break are left out.
    pub fn from_str(s: &str) -> (r: Result<Tokens, &'static str>)
        requires
            !(lex(s@) is Stuck),
        ensures
            match lex(s@) {
                Lexed::Tokens(ts) => r matches Ok(t) && t@ == ts,
                Lexed::Refused(m) => r matches Err(e) && e@ == m,
                Lexed::Stuck => false,
            },
    {
        match Tokens::checked_from_str(s) {
            Some(r) => r,
            None => unreached(),
        }
    }

    /// Scans a text into tokens, as `from_str` does, and gives `None` on the
    /// texts on which that scan would not end.
    pub fn checked_from_str(s: &str) -> (r: Option<Result<Tokens, &'static str>>)
        ensures
            match lex(s@) {
                Lexed::Tokens(ts) => r matches Some(Ok(t)) && t@ == ts,
                Lexed::Refused(m) => r matches Some(Err(e)) && e@ == m,
                Lexed::Stuck => r is None,
            },
    {
        let v = chars_of(s);
        match lex_chars(&v) {
            Some(Ok(toks)) => Some(Ok(Tokens(toks))),
            Some(Err(e)) => Some(Err(e)),
            None => None,
        }
    }
}

// ---------------------------------------------------------------- round trips

proof fn lemma_read_digits_push(acc: int, ds: Seq<char>, d: char)
    ensures
        read_digits(acc, ds.push(d)) == read_digits(acc, ds) * 10 + digit_value(d),
    decreases ds.len(),
{
    if ds.len() > 0 {
        assert(ds.push(d)[0] == ds[0]);
        assert(ds.push(d).drop_first() =~= ds.drop_first().push(d));
        lemma_read_digits_push(acc * 10 + digit_value(ds[0]), ds.drop_first(), d);
        assert(read_digits(acc, ds.push(d)) == read_digits(
            acc * 10 + digit_value(ds[0]),
            ds.push(d).drop_first(),
        ));
    } else {
        assert(ds.push(d)[0] == d);
        assert(ds.push(d).drop_first() =~= Seq::<char>::empty());
        assert(read_digits(acc * 10 + digit_value(d), Seq::<char>::empty()) == acc * 10
            + digit_value(d));
        assert(read_digits(acc, ds.push(d)) == read_digits(
            acc * 10 + digit_value(d),
            ds.push(d).drop_first(),
        ));
    }
}

proof fn lemma_decimal(n: nat)
    ensures
        decimal(n).len() >= 1,
        forall|i: int| 0 <= i < decimal(n).len() ==> is_digit(#[trigger] decimal(n)[i]),
        read_digits(0, decimal(n)) == n,
    decreases n,
{
    if n < 10 {
        assert(read_digits(0, decimal(n)) == read_digits(digit_value(digit(n)), decimal(n).drop_first()));
        assert(decimal(n).drop_first() =~= Seq::<char>::empty());
    } else {
        lemma_decimal(n / 10);
        lemma_read_digits_push(0, decimal(n / 10), digit(n % 10));
        assert forall|i: int| 0 <= i < decimal(n).len() implies is_digit(#[trigger] decimal(n)[i]) by {
            if i < decimal(n / 10).len() {
                assert(decimal(n)[i] == decimal(n / 10)[i]);
            }
        }
    }
}

proof fn lemma_digit_run_all(cs: Seq<char>)
    requires
        forall|i: int| 0 <= i < cs.len() ==> is_digit(#[trigger] cs[i]),
    ensures
        digit_run(cs) == cs.len(),
    decreases cs.len(),
{
    if cs.len() > 0 {
        assert(is_digit(cs[0]));
        assert forall|i: int| 0 <= i < cs.drop_first().len() implies is_digit(
            #[trigger] cs.drop_first()[i],
        ) by {
            assert(cs.drop_first()[i] == cs[i + 1]);
        }
        lemma_digit_run_all(cs.drop_first());
    }
}

/// The scan of a text that is one step long.
proof fn lemma_lex_one(cs: Seq<char>, t: TokenView)
    requires
        cs.len() > 0,
        step(cs) == one(t, cs.len()),
    ensures
        lex(cs) == Lexed::Tokens(seq![t]),
{
    assert(cs.skip(cs.len() as int) =~= Seq::<char>::empty());
    assert(lex(cs.skip(cs.len() as int)) == Lexed::Tokens(Seq::empty()));
    assert(seq![t] + Seq::<TokenView>::empty() =~= seq![t]);
}

/// A literal, written as Rust source text and scanned again, gives back the
/// very same literal; for a string literal, when its characters followed by a
/// quote are read back whole by the scanner (no quote in it stands unescaped,
/// and it does not end in a backslash that would escape the closing quote).
pub proof fn lemma_literal_round_trip(l: Literals)
    requires
        l matches Literals::String(s) ==> string_body(s@.push('"'), false) == (s@, s@.len() + 1),
    ensures
        lex(l.text()) == Lexed::Tokens(seq![TokenView::Literal(l@)]),
{
    match l {
        Literals::Int(Int(neg, n)) => {
            lemma_decimal(n as nat);
            let ds = decimal(n as nat);
            lemma_digit_run_all(ds);
            assert(ds.take(ds.len() as int) =~= ds);
            if neg {
                reveal_strlit("-");
                let cs = "-"@ + ds;
                assert(cs.drop_first() =~= ds);
                assert(cs[0] == '-');
                assert(is_digit(ds[0]));
                assert(number_at(0, ds) == n);
                lemma_lex_one(cs, TokenView::Literal(l@));
            } else {
                let r = ds.drop_first();
                assert forall|i: int| 0 <= i < r.len() implies is_digit(#[trigger] r[i]) by {
                    assert(r[i] == ds[i + 1]);
                }
                lemma_digit_run_all(r);
                assert(r.take(r.len() as int) =~= r);
                assert(is_digit(ds[0]));
                assert(read_digits(0, ds) == read_digits(digit_value(ds[0]), r));
                assert(number_at(digit_value(ds[0]), r) == n);
                lemma_lex_one(ds, TokenView::Literal(l@));
            }
        },
        Literals::Char(c) => {
            reveal_strlit("'");
            let cs = "'"@ + seq![c] + "'"@;
            assert(cs.drop_first() =~= seq![c, '\'']);
            assert(cs[0] == '\'');
            lemma_lex_one(cs, TokenView::Literal(l@));
        },
        Literals::String(s) => {
            reveal_strlit("\"");
            let cs = "\""@ + s@ + "\""@;
            assert(cs.drop_first() =~= s@.push('"'));
            assert(cs[0] == '"');
            lemma_lex_one(cs, TokenView::Literal(l@));
        },
        Literals::Bool(b) => {
            reveal_strlit("`");
            reveal_strlit("if");
            reveal_strlit("else");
            reveal_strlit("elif");
            reveal_strlit("match");
            reveal_strlit("defun");
            reveal_strlit("define");
            reveal_strlit("lambda");
            reveal_strlit("let");
            reveal_strlit("struct");
            reveal_strlit("enum");
            reveal_strlit("use");
            reveal_strlit("for");
            reveal_strlit("loop");
            reveal_strlit("while");
            reveal_strlit("break");
            reveal_strlit("impl");
            reveal_strlit("as");
            reveal_strlit("continue");
            reveal_strlit("mut");
            reveal_strlit("return");
            reveal_strlit("do");
            reveal_strlit("not");
            reveal_strlit("and");
            reveal_strlit("or");
            reveal_strlit("xor");
            reveal_strlit("band");
            reveal_strlit("bor");
            reveal_strlit("type");
            reveal_strlit("trait");
            reveal_strlit("mod");
            reveal_strlit("true");
            reveal_strlit("false");
            if b {
                lemma_word_round_trip("true"@, TokenView::Literal(l@));
            } else {
                lemma_word_round_trip("false"@, TokenView::Literal(l@));
            }
        },
    }
}

// ---------------------------------------------------------------- layout

proof fn lemma_after_empty(l: Lexed)
    ensures
        after(Seq::empty(), l) == l,
{
    if let Lexed::Tokens(ts) = l {
        assert(Seq::<TokenView>::empty() + ts =~= ts);
    }
}

proof fn lemma_newline_at_first(body: Seq<char>, rest: Seq<char>)
    requires
        forall|i: int| 0 <= i < body.len() ==> body[i] != '\n',
    ensures
        newline_at(body + seq!['\n'] + rest) == Some(body.len()),
    decreases body.len(),
{
    let cs = body + seq!['\n'] + rest;
    if body.len() > 0 {
        assert(cs[0] == body[0]);
        assert(cs.drop_first() =~= body.drop_first() + seq!['\n'] + rest);
        lemma_newline_at_first(body.drop_first(), rest);
    } else {
        assert(cs[0] == '\n');
    }
}

/// A space or a line break gives no token: the scan of a text that starts
/// with one is the scan of the rest.
pub proof fn lemma_blank_skipped(c: char, rest: Seq<char>)
    requires
        c == ' ' || c == '\n',
    ensures
        lex(seq![c] + rest) == lex(rest),
{
    let cs = seq![c] + rest;
    assert(cs[0] == c);
    assert(cs.skip(1) =~= rest);
    assert(step(cs) == Step::Emit(Seq::empty(), 1));
    lemma_after_empty(lex(rest));
}

/// A comment, from `--` to the end of its line, gives no token: the scan of
/// a text that starts with one is the scan of what follows the line break.
pub proof fn lemma_comment_skipped(body: Seq<char>, rest: Seq<char>)
    requires
        forall|i: int| 0 <= i < body.len() ==> body[i] != '\n',
    ensures
        lex(seq!['-', '-'] + body + seq!['\n'] + rest) == lex(rest),
{
    let cs = seq!['-', '-'] + body + seq!['\n'] + rest;
    assert(cs[0] == '-');
    assert(cs.drop_first()[0] == '-');
    assert(cs.drop_first().drop_first() =~= body + seq!['\n'] + rest);
    lemma_newline_at_first(body, rest);
    assert(cs.skip(body.len() + 3 as int) =~= rest);
    assert(step(cs) == Step::Emit(Seq::empty(), body.len() + 3));
    lemma_after_empty(lex(rest));
}

// ---------------------------------------------------------------- names of the builtin types

proof fn lemma_scan_plain_word(chs: Seq<char>, cs: Seq<char>)
    requires
        forall|i: int| 0 <= i < cs.len() ==> is_alnum(#[trigger] cs[i]),
    ensures
        scan_word(chs, cs, false) == WordEnd::Word(chs + cs, cs.len()),
    decreases cs.len(),
{
    if cs.len() == 0 {
        assert(chs + cs =~= chs);
    } else {
        assert(is_alnum(cs[0]));
        assert forall|i: int| 0 <= i < cs.drop_first().len() implies is_alnum(
            #[trigger] cs.drop_first()[i],
        ) by {
            assert(cs.drop_first()[i] == cs[i + 1]);
        }
        lemma_scan_plain_word(chs.push(cs[0]), cs.drop_first());
        assert(chs.push(cs[0]) + cs.drop_first() =~= chs + cs);
    }
}

/// A word of letters and digits that starts with a letter, and stands for one
/// token, scans as that token.
proof fn lemma_word_round_trip(cs: Seq<char>, t: TokenView)
    requires
        cs.len() > 0,
        forall|i: int| 0 <= i < cs.len() ==> is_alnum(#[trigger] cs[i]),
        !is_digit(cs[0]),
        word_tokens(cs) == seq![t],
    ensures
        lex(cs) == Lexed::Tokens(seq![t]),
{
    let r = cs.drop_first();
    assert(is_alnum(cs[0]));
    assert forall|i: int| 0 <= i < r.len() implies is_alnum(#[trigger] r[i]) by {
        assert(r[i] == cs[i + 1]);
    }
    lemma_scan_plain_word(seq![cs[0]], r);
    assert(seq![cs[0]] + r =~= cs);
    assert(step(cs) == one(t, cs.len()));
    lemma_lex_one(cs, t);
}

/// A character that a word keeps after its first one, besides `-`.
pub open spec fn is_word_char(c: char) -> bool {
    is_alnum(c) || c == '_' || c == '!'
}

proof fn lemma_scan_word_chars(chs: Seq<char>, cs: Seq<char>)
    requires
        forall|i: int| 0 <= i < cs.len() ==> is_word_char(#[trigger] cs[i]),
    ensures
        scan_word(chs, cs, false) == WordEnd::Word(chs + cs, cs.len()),
    decreases cs.len(),
{
    if cs.len() == 0 {
        assert(chs + cs =~= chs);
    } else {
        assert(is_word_char(cs[0]));
        assert forall|i: int| 0 <= i < cs.drop_first().len() implies is_word_char(
            #[trigger] cs.drop_first()[i],
        ) by {
            assert(cs.drop_first()[i] == cs[i + 1]);
        }
        lemma_scan_word_chars(chs.push(cs[0]), cs.drop_first());
        assert(chs.push(cs[0]) + cs.drop_first() =~= chs + cs);
    }
}

/// A text that is one word (a letter or `_`, then letters, digits, `_` or
/// `!`) scans as exactly one token, the one that the word stands for: the
/// scan does not split the word, at an underscore or anywhere else.
pub proof fn lemma_word_scans_whole(cs: Seq<char>)
    requires
        cs.len() > 0,
        (is_alnum(cs[0]) && !is_digit(cs[0])) || cs[0] == '_',
        forall|i: int| 1 <= i < cs.len() ==> is_word_char(#[trigger] cs[i]),
    ensures
        word_tokens(cs).len() == 1,
        lex(cs) == Lexed::Tokens(word_tokens(cs)),
{
    assert forall|i: int| 0 <= i < cs.len() implies is_name_char(#[trigger] cs[i]) by {
        if i > 0 {
            assert(is_word_char(cs[i]));
        }
    }
    assert(is_name(cs));
    assert(word_tokens(cs).len() == 1);
    let r = cs.drop_first();
    assert forall|i: int| 0 <= i < r.len() implies is_word_char(#[trigger] r[i]) by {
        assert(r[i] == cs[i + 1]);
    }
    lemma_scan_word_chars(seq![cs[0]], r);
    assert(seq![cs[0]] + r =~= cs);
    let t = word_tokens(cs)[0];
    assert(word_tokens(cs) =~= seq![t]);
    assert(step(cs) == one(t, cs.len()));
    lemma_lex_one(cs, t);
}

proof fn lemma_scan_word_then(chs: Seq<char>, cs: Seq<char>, rest: Seq<char>)
    requires
        forall|i: int| 0 <= i < cs.len() ==> is_word_char(#[trigger] cs[i]),
        rest.len() > 0,
    ensures
        !is_word_char(rest[0]) && rest[0] != '-' ==> scan_word(chs, cs + rest, false)
            == WordEnd::Word(chs + cs, cs.len()),
        rest.len() >= 2 && rest[0] == '-' && rest[1] == '>' ==> scan_word(chs, cs + rest, false)
            == WordEnd::Arrow(chs + cs, cs.len() + 2),
    decreases cs.len(),
{
    if cs.len() == 0 {
        assert(cs + rest =~= rest);
        assert(chs + cs =~= chs);
    } else {
        assert(is_word_char(cs[0]));
        assert forall|i: int| 0 <= i < cs.drop_first().len() implies is_word_char(
            #[trigger] cs.drop_first()[i],
        ) by {
            assert(cs.drop_first()[i] == cs[i + 1]);
        }
        lemma_scan_word_then(chs.push(cs[0]), cs.drop_first(), rest);
        assert((cs + rest).drop_first() =~= cs.drop_first() + rest);
        assert((cs + rest)[0] == cs[0]);
        assert(chs.push(cs[0]) + cs.drop_first() =~= chs + cs);
    }
}

/// A word right before `<` scans as the word's token and the start of a
/// turbofish; right before `->`, as the word's token and an arrow: the
/// word ends there and keeps all its characters.
pub proof fn lemma_word_before_angle_or_arrow(cs: Seq<char>)
    requires
        cs.len() > 0,
        (is_alnum(cs[0]) && !is_digit(cs[0])) || cs[0] == '_',
        forall|i: int| 1 <= i < cs.len() ==> is_word_char(#[trigger] cs[i]),
    ensures
        lex(cs.push('<')) == Lexed::Tokens(
            word_tokens(cs).push(TokenView::Keyword(Keywords::TurboStart)),
        ),
        lex(cs + "->"@) == Lexed::Tokens(
            word_tokens(cs).push(TokenView::Keyword(Keywords::LeftArrow)),
        ),
{
    reveal_strlit("->");
    let r0 = cs.drop_first();
    assert forall|i: int| 0 <= i < r0.len() implies is_word_char(#[trigger] r0[i]) by {
        assert(r0[i] == cs[i + 1]);
    }
    assert(seq![cs[0]] + r0 =~= cs);
    let a = cs.push('<');
    assert(a.drop_first() =~= r0 + seq!['<']);
    lemma_scan_word_then(seq![cs[0]], r0, seq!['<']);
    assert(a[0] == cs[0]);
    let ta = word_tokens(cs).push(TokenView::Keyword(Keywords::TurboStart));
    assert(step(a) == Step::Emit(ta, a.len()));
    assert(a.skip(a.len() as int) =~= Seq::<char>::empty());
    assert(ta + Seq::<TokenView>::empty() =~= ta);
    assert(lex(a.skip(a.len() as int)) == Lexed::Tokens(Seq::empty()));
    assert(lex(a) == after(ta, lex(a.skip(a.len() as int))));
    let b = cs + "->"@;
    assert(b.drop_first() =~= r0 + "->"@);
    lemma_scan_word_then(seq![cs[0]], r0, "->"@);
    assert(b[0] == cs[0]);
    let tb = word_tokens(cs).push(TokenView::Keyword(Keywords::LeftArrow));
    assert(step(b) == Step::Emit(tb, b.len()));
    assert(b.skip(b.len() as int) =~= Seq::<char>::empty());
    assert(tb + Seq::<TokenView>::empty() =~= tb);
    assert(lex(b.skip(b.len() as int)) == Lexed::Tokens(Seq::empty()));
    assert(lex(b) == after(tb, lex(b.skip(b.len() as int))));
}

/// The brackets, `/`, `&`, `..`, `<-`, `->` and a lone `*` scan each as
/// their own token.
pub proof fn lemma_punctuation_scans()
    ensures
        lex("("@) == Lexed::Tokens(seq![TokenView::ParenOpen]),
        lex(")"@) == Lexed::Tokens(seq![TokenView::ParenClose]),
        lex("["@) == Lexed::Tokens(seq![TokenView::BracketOpen]),
        lex("]"@) == Lexed::Tokens(seq![TokenView::BracketClose]),
        lex("<"@) == Lexed::Tokens(seq![TokenView::AngleBracketOpen]),
        lex(">"@) == Lexed::Tokens(seq![TokenView::AngleBracketClose]),
        lex("{"@) == Lexed::Tokens(seq![TokenView::CurlyOpen]),
        lex("}"@) == Lexed::Tokens(seq![TokenView::CurlyClose]),
        lex("/"@) == Lexed::Tokens(seq![TokenView::Slash]),
        lex("&"@) == Lexed::Tokens(seq![TokenView::Ref]),
        lex(".."@) == Lexed::Tokens(seq![TokenView::DoubleDot]),
        lex("<-"@) == Lexed::Tokens(seq![TokenView::Keyword(Keywords::RightArrow)]),
        lex("->"@) == Lexed::Tokens(seq![TokenView::Keyword(Keywords::LeftArrow)]),
        lex("*"@) == Lexed::Tokens(seq![TokenView::Keyword(Keywords::Deref)]),
{
    reveal_strlit("(");
    reveal_strlit(")");
    reveal_strlit("[");
    reveal_strlit("]");
    reveal_strlit("<");
    reveal_strlit(">");
    reveal_strlit("{");
    reveal_strlit("}");
    reveal_strlit("/");
    reveal_strlit("&");
    reveal_strlit("..");
    reveal_strlit("<-");
    reveal_strlit("->");
    reveal_strlit("*");
    lemma_lex_one("("@, TokenView::ParenOpen);
    lemma_lex_one(")"@, TokenView::ParenClose);
    lemma_lex_one("["@, TokenView::BracketOpen);
    lemma_lex_one("]"@, TokenView::BracketClose);
    lemma_lex_one("<"@, TokenView::AngleBracketOpen);
    lemma_lex_one(">"@, TokenView::AngleBracketClose);
    lemma_lex_one("{"@, TokenView::CurlyOpen);
    lemma_lex_one("}"@, TokenView::CurlyClose);
    lemma_lex_one("/"@, TokenView::Slash);
    lemma_lex_one("&"@, TokenView::Ref);
    lemma_lex_one(".."@, TokenView::DoubleDot);
    lemma_lex_one("<-"@, TokenView::Keyword(Keywords::RightArrow));
    lemma_lex_one("->"@, TokenView::Keyword(Keywords::LeftArrow));
    lemma_lex_one("*"@, TokenView::Keyword(Keywords::Deref));
}

/// Any other character that is no letter, digit, `_`, quote, blank or line
/// break scans as the character itself.
pub proof fn lemma_other_char_scans(c: char)
    requires
        !is_alnum(c),
        c != '_' && c != ' ' && c != '\n' && c != '\'' && c != '"',
        c != '(' && c != ')' && c != '[' && c != ']' && c != '<' && c != '>',
        c != '{' && c != '}' && c != '/' && c != '&' && c != '*',
    ensures
        lex(seq![c]) == Lexed::Tokens(seq![TokenView::Char(c)]),
{
    assert(!is_digit(c));
    lemma_lex_one(seq![c], TokenView::Char(c));
}

/// Each reserved word scans as its keyword (`define` as `defun`, `band`
/// and `bor` as the bitwise operators), and `true` and `false` as the
/// boolean literals.
#[verifier::rlimit(40)]
pub proof fn lemma_reserved_words_scan()
    ensures
        lex("if"@) == Lexed::Tokens(seq![TokenView::Keyword(Keywords::If)]),
        lex("else"@) == Lexed::Tokens(seq![TokenView::Keyword(Keywords::Else)]),
        lex("elif"@) == Lexed::Tokens(seq![TokenView::Keyword(Keywords::Elif)]),
        lex("match"@) == Lexed::Tokens(seq![TokenView::Keyword(Keywords::Match)]),
        lex("defun"@) == Lexed::Tokens(seq![TokenView::Keyword(Keywords::Defun)]),
        lex("define"@) == Lexed::Tokens(seq![TokenView::Keyword(Keywords::Defun)]),
        lex("lambda"@) == Lexed::Tokens(seq![TokenView::Keyword(Keywords::Lambda)]),
        lex("let"@) == Lexed::Tokens(seq![TokenView::Keyword(Keywords::Let)]),
        lex("struct"@) == Lexed::Tokens(seq![TokenView::Keyword(Keywords::Struct)]),
        lex("enum"@) == Lexed::Tokens(seq![TokenView::Keyword(Keywords::Enum)]),
        lex("use"@) == Lexed::Tokens(seq![TokenView::Keyword(Keywords::Use)]),
        lex("for"@) == Lexed::Tokens(seq![TokenView::Keyword(Keywords::For)]),
        lex("loop"@) == Lexed::Tokens(seq![TokenView::Keyword(Keywords::Loop)]),
        lex("while"@) == Lexed::Tokens(seq![TokenView::Keyword(Keywords::While)]),
        lex("break"@) == Lexed::Tokens(seq![TokenView::Keyword(Keywords::Break)]),
        lex("impl"@) == Lexed::Tokens(seq![TokenView::Keyword(Keywords::Impl)]),
        lex("as"@) == Lexed::Tokens(seq![TokenView::Keyword(Keywords::As)]),
        lex("continue"@) == Lexed::Tokens(seq![TokenView::Keyword(Keywords::Continue)]),
        lex("mut"@) == Lexed::Tokens(seq![TokenView::Keyword(Keywords::Mut)]),
        lex("return"@) == Lexed::Tokens(seq![TokenView::Keyword(Keywords::Return)]),
        lex("do"@) == Lexed::Tokens(seq![TokenView::Keyword(Keywords::Do)]),
        lex("not"@) == Lexed::Tokens(seq![TokenView::Keyword(Keywords::Not)]),
        lex("and"@) == Lexed::Tokens(seq![TokenView::Keyword(Keywords::And)]),
        lex("or"@) == Lexed::Tokens(seq![TokenView::Keyword(Keywords::Or)]),
        lex("xor"@) == Lexed::Tokens(seq![TokenView::Keyword(Keywords::Xor)]),
        lex("band"@) == Lexed::Tokens(seq![TokenView::Keyword(Keywords::BitwiseAnd)]),
        lex("bor"@) == Lexed::Tokens(seq![TokenView::Keyword(Keywords::BitwiseOr)]),
        lex("true"@) == Lexed::Tokens(seq![TokenView::Literal(LiteralView::Bool(true))]),
        lex("false"@) == Lexed::Tokens(seq![TokenView::Literal(LiteralView::Bool(false))]),
{
    reveal_strlit("`");
    reveal_strlit("if");
    reveal_strlit("else");
    reveal_strlit("elif");
    reveal_strlit("match");
    reveal_strlit("defun");
    reveal_strlit("define");
    reveal_strlit("lambda");
    reveal_strlit("let");
    reveal_strlit("struct");
    reveal_strlit("enum");
    reveal_strlit("use");
    reveal_strlit("for");
    reveal_strlit("loop");
    reveal_strlit("while");
    reveal_strlit("break");
    reveal_strlit("impl");
    reveal_strlit("as");
    reveal_strlit("continue");
    reveal_strlit("mut");
    reveal_strlit("return");
    reveal_strlit("do");
    reveal_strlit("not");
    reveal_strlit("and");
    reveal_strlit("or");
    reveal_strlit("xor");
    reveal_strlit("band");
    reveal_strlit("bor");
    reveal_strlit("type");
    reveal_strlit("trait");
    reveal_strlit("mod");
    reveal_strlit("true");
    reveal_strlit("false");
    reveal_strlit("u8");
    reveal_strlit("u16");
    reveal_strlit("u32");
    reveal_strlit("u64");
    reveal_strlit("u128");
    reveal_strlit("i8");
    reveal_strlit("i16");
    reveal_strlit("i32");
    reveal_strlit("i64");
    reveal_strlit("i128");
    reveal_strlit("string");
    reveal_strlit("char");
    reveal_strlit("bool");
    lemma_word_round_trip("if"@, TokenView::Keyword(Keywords::If));
    lemma_word_round_trip("else"@, TokenView::Keyword(Keywords::Else));
    lemma_word_round_trip("elif"@, TokenView::Keyword(Keywords::Elif));
    lemma_word_round_trip("match"@, TokenView::Keyword(Keywords::Match));
    lemma_word_round_trip("defun"@, TokenView::Keyword(Keywords::Defun));
    lemma_word_round_trip("define"@, TokenView::Keyword(Keywords::Defun));
    lemma_word_round_trip("lambda"@, TokenView::Keyword(Keywords::Lambda));
    lemma_word_round_trip("let"@, TokenView::Keyword(Keywords::Let));
    lemma_word_round_trip("struct"@, TokenView::Keyword(Keywords::Struct));
    lemma_word_round_trip("enum"@, TokenView::Keyword(Keywords::Enum));
    lemma_word_round_trip("use"@, TokenView::Keyword(Keywords::Use));
    lemma_word_round_trip("for"@, TokenView::Keyword(Keywords::For));
    lemma_word_round_trip("loop"@, TokenView::Keyword(Keywords::Loop));
    lemma_word_round_trip("while"@, TokenView::Keyword(Keywords::While));
    lemma_word_round_trip("break"@, TokenView::Keyword(Keywords::Break));
    lemma_word_round_trip("impl"@, TokenView::Keyword(Keywords::Impl));
    lemma_word_round_trip("as"@, TokenView::Keyword(Keywords::As));
    lemma_word_round_trip("continue"@, TokenView::Keyword(Keywords::Continue));
    lemma_word_round_trip("mut"@, TokenView::Keyword(Keywords::Mut));
    lemma_word_round_trip("return"@, TokenView::Keyword(Keywords::Return));
    lemma_word_round_trip("do"@, TokenView::Keyword(Keywords::Do));
    lemma_word_round_trip("not"@, TokenView::Keyword(Keywords::Not));
    lemma_word_round_trip("and"@, TokenView::Keyword(Keywords::And));
    lemma_word_round_trip("or"@, TokenView::Keyword(Keywords::Or));
    lemma_word_round_trip("xor"@, TokenView::Keyword(Keywords::Xor));
    lemma_word_round_trip("band"@, TokenView::Keyword(Keywords::BitwiseAnd));
    lemma_word_round_trip("bor"@, TokenView::Keyword(Keywords::BitwiseOr));
    lemma_word_round_trip("true"@, TokenView::Literal(LiteralView::Bool(true)));
    lemma_word_round_trip("false"@, TokenView::Literal(LiteralView::Bool(false)));
}

/// Each builtin type's name in the language scans as that type.
#[verifier::rlimit(40)]
pub proof fn lemma_type_names_scan()
    ensures
        lex("u8"@) == Lexed::Tokens(seq![TokenView::Type(BuiltinTypes::U8)]),
        lex("u16"@) == Lexed::Tokens(seq![TokenView::Type(BuiltinTypes::U16)]),
        lex("u32"@) == Lexed::Tokens(seq![TokenView::Type(BuiltinTypes::U32)]),
        lex("u64"@) == Lexed::Tokens(seq![TokenView::Type(BuiltinTypes::U64)]),
        lex("u128"@) == Lexed::Tokens(seq![TokenView::Type(BuiltinTypes::U128)]),
        lex("i8"@) == Lexed::Tokens(seq![TokenView::Type(BuiltinTypes::I8)]),
        lex("i16"@) == Lexed::Tokens(seq![TokenView::Type(BuiltinTypes::I16)]),
        lex("i32"@) == Lexed::Tokens(seq![TokenView::Type(BuiltinTypes::I32)]),
        lex("i64"@) == Lexed::Tokens(seq![TokenView::Type(BuiltinTypes::I64)]),
        lex("i128"@) == Lexed::Tokens(seq![TokenView::Type(BuiltinTypes::I128)]),
        lex("string"@) == Lexed::Tokens(seq![TokenView::Type(BuiltinTypes::String)]),
        lex("char"@) == Lexed::Tokens(seq![TokenView::Type(BuiltinTypes::Char)]),
        lex("bool"@) == Lexed::Tokens(seq![TokenView::Type(BuiltinTypes::Bool)]),
{
    reveal_strlit("`");
    reveal_strlit("if");
    reveal_strlit("else");
    reveal_strlit("elif");
    reveal_strlit("match");
    reveal_strlit("defun");
    reveal_strlit("define");
    reveal_strlit("lambda");
    reveal_strlit("let");
    reveal_strlit("struct");
    reveal_strlit("enum");
    reveal_strlit("use");
    reveal_strlit("for");
    reveal_strlit("loop");
    reveal_strlit("while");
    reveal_strlit("break");
    reveal_strlit("impl");
    reveal_strlit("as");
    reveal_strlit("continue");
    reveal_strlit("mut");
    reveal_strlit("return");
    reveal_strlit("do");
    reveal_strlit("not");
    reveal_strlit("and");
    reveal_strlit("or");
    reveal_strlit("xor");
    reveal_strlit("band");
    reveal_strlit("bor");
    reveal_strlit("type");
    reveal_strlit("trait");
    reveal_strlit("mod");
    reveal_strlit("true");
    reveal_strlit("false");
    reveal_strlit("u8");
    reveal_strlit("u16");
    reveal_strlit("u32");
    reveal_strlit("u64");
    reveal_strlit("u128");
    reveal_strlit("i8");
    reveal_strlit("i16");
    reveal_strlit("i32");
    reveal_strlit("i64");
    reveal_strlit("i128");
    reveal_strlit("string");
    reveal_strlit("char");
    reveal_strlit("bool");
    lemma_word_round_trip("u8"@, TokenView::Type(BuiltinTypes::U8));
    lemma_word_round_trip("u16"@, TokenView::Type(BuiltinTypes::U16));
    lemma_word_round_trip("u32"@, TokenView::Type(BuiltinTypes::U32));
    lemma_word_round_trip("u64"@, TokenView::Type(BuiltinTypes::U64));
    lemma_word_round_trip("u128"@, TokenView::Type(BuiltinTypes::U128));
    lemma_word_round_trip("i8"@, TokenView::Type(BuiltinTypes::I8));
    lemma_word_round_trip("i16"@, TokenView::Type(BuiltinTypes::I16));
    lemma_word_round_trip("i32"@, TokenView::Type(BuiltinTypes::I32));
    lemma_word_round_trip("i64"@, TokenView::Type(BuiltinTypes::I64));
    lemma_word_round_trip("i128"@, TokenView::Type(BuiltinTypes::I128));
    assert("string"@[3] != "struct"@[3]);
    assert("string"@[0] != "lambda"@[0]);
    assert("string"@[0] != "return"@[0]);
    assert("string"@[0] != "define"@[0]);
    assert(word_tokens("string"@) == seq![TokenView::Type(BuiltinTypes::String)]);
    lemma_word_round_trip("string"@, TokenView::Type(BuiltinTypes::String));
    lemma_word_round_trip("char"@, TokenView::Type(BuiltinTypes::Char));
    lemma_word_round_trip("bool"@, TokenView::Type(BuiltinTypes::Bool));
}

/// The name written for each builtin type (`u128` is written `k128`, and
/// the language's `string` is written `String`).
pub proof fn lemma_builtin_type_text()
    ensures
        BuiltinTypes::U8.text() == "u8"@,
        BuiltinTypes::U16.text() == "u16"@,
        BuiltinTypes::U32.text() == "u32"@,
        BuiltinTypes::U64.text() == "u64"@,
        BuiltinTypes::U128.text() == "k128"@,
        BuiltinTypes::I8.text() == "i8"@,
        BuiltinTypes::I16.text() == "i16"@,
        BuiltinTypes::I32.text() == "i32"@,
        BuiltinTypes::I64.text() == "i64"@,
        BuiltinTypes::I128.text() == "i128"@,
        BuiltinTypes::String.text() == "String"@,
        BuiltinTypes::Char.text() == "char"@,
        BuiltinTypes::Bool.text() == "bool"@,
{
}

/// The name that Rust source text gives a builtin type scans back as that
/// type, for every builtin type but `u128` (written `k128`) and `String`
/// (which the language spells `string`).
pub proof fn lemma_builtin_name_round_trip(b: BuiltinTypes)
    requires
        b != BuiltinTypes::U128,
        b != BuiltinTypes::String,
    ensures
        lex(b.text()) == Lexed::Tokens(seq![TokenView::Type(b)]),
{
    reveal_strlit("`");
    reveal_strlit("if");
    reveal_strlit("else");
    reveal_strlit("elif");
    reveal_strlit("match");
    reveal_strlit("defun");
    reveal_strlit("define");
    reveal_strlit("lambda");
    reveal_strlit("let");
    reveal_strlit("struct");
    reveal_strlit("enum");
    reveal_strlit("use");
    reveal_strlit("for");
    reveal_strlit("loop");
    reveal_strlit("while");
    reveal_strlit("break");
    reveal_strlit("impl");
    reveal_strlit("as");
    reveal_strlit("continue");
    reveal_strlit("mut");
    reveal_strlit("return");
    reveal_strlit("do");
    reveal_strlit("not");
    reveal_strlit("and");
    reveal_strlit("or");
    reveal_strlit("xor");
    reveal_strlit("band");
    reveal_strlit("bor");
    reveal_strlit("type");
    reveal_strlit("trait");
    reveal_strlit("mod");
    reveal_strlit("true");
    reveal_strlit("false");
    reveal_strlit("u8");
    reveal_strlit("u16");
    reveal_strlit("u32");
    reveal_strlit("u64");
    reveal_strlit("u128");
    reveal_strlit("i8");
    reveal_strlit("i16");
    reveal_strlit("i32");
    reveal_strlit("i64");
    reveal_strlit("i128");
    reveal_strlit("string");
    reveal_strlit("char");
    reveal_strlit("bool");
    match b {
        BuiltinTypes::U8 => lemma_word_round_trip("u8"@, TokenView::Type(b)),
        BuiltinTypes::U16 => lemma_word_round_trip("u16"@, TokenView::Type(b)),
        BuiltinTypes::U32 => lemma_word_round_trip("u32"@, TokenView::Type(b)),
        BuiltinTypes::U64 => lemma_word_round_trip("u64"@, TokenView::Type(b)),
        BuiltinTypes::I8 => lemma_word_round_trip("i8"@, TokenView::Type(b)),
        BuiltinTypes::I16 => lemma_word_round_trip("i16"@, TokenView::Type(b)),
        BuiltinTypes::I32 => lemma_word_round_trip("i32"@, TokenView::Type(b)),
        BuiltinTypes::I64 => lemma_word_round_trip("i64"@, TokenView::Type(b)),
        BuiltinTypes::I128 => lemma_word_round_trip("i128"@, TokenView::Type(b)),
        BuiltinTypes::Char => lemma_word_round_trip("char"@, TokenView::Type(b)),
        BuiltinTypes::Bool => lemma_word_round_trip("bool"@, TokenView::Type(b)),
        _ => {},
    }
}

} // verus!
