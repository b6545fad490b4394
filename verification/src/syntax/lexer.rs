//! The Pkl lexer: cutting source text into tokens.
//!
//! At each place the longest match wins, and among matches of one length a
//! keyword beats an identifier and a doc comment beats a line comment. Tabs
//! are skipped. Number tokens carry their value, or for floats their text
//! without underscores; the other tokens carry the text the grammar keeps.
use vstd::prelude::*;
use super::lexing::{LexFault, LexingError};
use super::literals::{parse_i64_radix, remove_underscores, spec_parse_i64, strip_underscores, int_error_text};
use crate::text::{ascii_digit, ascii_letter, chars_to_string, slice_of, str_to_chars};

verus! {

/// A Pkl token.
#[derive(Debug, Clone, PartialEq)]
pub enum PklToken {
    BlankIdentifier,
    Space,
    NewLine,
    EqualSign,
    Bool(bool),
    OpenBrace,
    CloseBrace,
    OpenParen,
    CloseParen,
    Comma,
    New,
    Import,
    As,
    Dot,
    Null,
    Int(i64),
    HexInt(i64),
    BinaryInt(i64),
    OctalInt(i64),
    Float(String),
    FunctionCall(String),
    Identifier(String),
    IllegalIdentifier(String),
    LineComment(String),
    DocComment(String),
    MultilineComment(String),
    String(String),
    MultiLineString(String),
}

/// What a token holds, with its texts as character sequences.
pub enum Lexeme {
    BlankIdentifier,
    Space,
    NewLine,
    EqualSign,
    Bool(bool),
    OpenBrace,
    CloseBrace,
    OpenParen,
    CloseParen,
    Comma,
    New,
    Import,
    As,
    Dot,
    Null,
    Int(i64),
    HexInt(i64),
    BinaryInt(i64),
    OctalInt(i64),
    Float(Seq<char>),
    FunctionCall(Seq<char>),
    Identifier(Seq<char>),
    IllegalIdentifier(Seq<char>),
    LineComment(Seq<char>),
    DocComment(Seq<char>),
    MultilineComment(Seq<char>),
    String(Seq<char>),
    MultiLineString(Seq<char>),
}

impl View for PklToken {
    type V = Lexeme;

    open spec fn view(&self) -> Lexeme {
        match self {
            PklToken::BlankIdentifier => Lexeme::BlankIdentifier,
            PklToken::Space => Lexeme::Space,
            PklToken::NewLine => Lexeme::NewLine,
            PklToken::EqualSign => Lexeme::EqualSign,
            PklToken::Bool(b) => Lexeme::Bool(*b),
            PklToken::OpenBrace => Lexeme::OpenBrace,
            PklToken::CloseBrace => Lexeme::CloseBrace,
            PklToken::OpenParen => Lexeme::OpenParen,
            PklToken::CloseParen => Lexeme::CloseParen,
            PklToken::Comma => Lexeme::Comma,
            PklToken::New => Lexeme::New,
            PklToken::Import => Lexeme::Import,
            PklToken::As => Lexeme::As,
            PklToken::Dot => Lexeme::Dot,
            PklToken::Null => Lexeme::Null,
            PklToken::Int(v) => Lexeme::Int(*v),
            PklToken::HexInt(v) => Lexeme::HexInt(*v),
            PklToken::BinaryInt(v) => Lexeme::BinaryInt(*v),
            PklToken::OctalInt(v) => Lexeme::OctalInt(*v),
            PklToken::Float(t) => Lexeme::Float(t@),
            PklToken::FunctionCall(t) => Lexeme::FunctionCall(t@),
            PklToken::Identifier(t) => Lexeme::Identifier(t@),
            PklToken::IllegalIdentifier(t) => Lexeme::IllegalIdentifier(t@),
            PklToken::LineComment(t) => Lexeme::LineComment(t@),
            PklToken::DocComment(t) => Lexeme::DocComment(t@),
            PklToken::MultilineComment(t) => Lexeme::MultilineComment(t@),
            PklToken::String(t) => Lexeme::String(t@),
            PklToken::MultiLineString(t) => Lexeme::MultiLineString(t@),
        }
    }
}

// ───────────────────────── character classes ─────────────────────────

pub open spec fn char_at(s: Seq<char>, i: int, c: char) -> bool {
    0 <= i < s.len() && s[i] == c
}

/// Class 0: decimal digits; 1: hex digits; 2: binary digits; 3: octal
/// digits; anything else: the characters of an identifier after its first.
pub open spec fn in_class(k: u8, c: char) -> bool {
    if k == 0 {
        ascii_digit(c)
    } else if k == 1 {
        ascii_digit(c) || ('a' <= c && c <= 'f') || ('A' <= c && c <= 'F')
    } else if k == 2 {
        c == '0' || c == '1'
    } else if k == 3 {
        '0' <= c && c <= '7'
    } else {
        ascii_letter(c) || ascii_digit(c) || c == '_'
    }
}

/// The end of the run of class-`k` characters from `j`.
pub open spec fn class_run_end(s: Seq<char>, j: int, k: u8) -> int
    decreases s.len() - j,
{
    if 0 <= j < s.len() && in_class(k, s[j]) {
        class_run_end(s, j + 1, k)
    } else {
        j
    }
}

/// The end of the longest `(_?d)*` from `j`, `d` a class-`k` digit.
pub open spec fn digits_tail_end(s: Seq<char>, j: int, k: u8) -> int
    decreases s.len() - j,
{
    if 0 <= j < s.len() && in_class(k, s[j]) {
        digits_tail_end(s, j + 1, k)
    } else if 0 <= j && j + 1 < s.len() && s[j] == '_' && in_class(k, s[j + 1]) {
        digits_tail_end(s, j + 2, k)
    } else {
        j
    }
}

/// The end of `d(_?d)*` from `j`, or 0 where no digit stands at `j`.
pub open spec fn digits_end(s: Seq<char>, j: int, k: u8) -> int {
    if 0 <= j < s.len() && in_class(k, s[j]) {
        digits_tail_end(s, j + 1, k)
    } else {
        0
    }
}

// ───────────────────────── the token patterns ─────────────────────────
// Each gives the end of its longest match at `i`, or 0 where it has none.

pub open spec fn sign_end(s: Seq<char>, i: int) -> int {
    if char_at(s, i, '-') {
        i + 1
    } else {
        i
    }
}

/// `-?\d+(?:_?\d)*`
pub open spec fn int_end(s: Seq<char>, i: int) -> int {
    digits_end(s, sign_end(s, i), 0)
}

/// `-?0p d+(?:_?d)*` with the prefix letter `p` and digits of class `k`.
pub open spec fn radix_end(s: Seq<char>, i: int, p: char, k: u8) -> int {
    let j = sign_end(s, i);
    if char_at(s, j, '0') && char_at(s, j + 1, p) {
        digits_end(s, j + 2, k)
    } else {
        0
    }
}

/// The end of an optional exponent `[eE][+-]?\d+(?:_?\d)*` at `m`.
pub open spec fn exponent_end(s: Seq<char>, m: int) -> int {
    if char_at(s, m, 'e') || char_at(s, m, 'E') {
        let q = if char_at(s, m + 1, '+') || char_at(s, m + 1, '-') {
            m + 2
        } else {
            m + 1
        };
        let d = digits_end(s, q, 0);
        if d > 0 {
            d
        } else {
            m
        }
    } else {
        m
    }
}

/// `-?(?:0|[1-9]+(?:_?\d)*)?(?:\.\d+(?:_?\d)*)(?:[eE][+-]?\d+(?:_?\d)*)?`
pub open spec fn float_end(s: Seq<char>, i: int) -> int {
    let j = sign_end(s, i);
    let k = if char_at(s, j, '0') {
        j + 1
    } else if 0 <= j < s.len() && '1' <= s[j] && s[j] <= '9' {
        digits_tail_end(s, j + 1, 0)
    } else {
        j
    };
    if char_at(s, k, '.') {
        let f = digits_end(s, k + 1, 0);
        if f > 0 {
            exponent_end(s, f)
        } else {
            0
        }
    } else {
        0
    }
}

/// `[a-zA-Z][a-zA-Z0-9_]*` or `(_|\$)[a-zA-Z0-9_]+`
pub open spec fn ident_end(s: Seq<char>, i: int) -> int {
    if 0 <= i < s.len() && ascii_letter(s[i]) {
        class_run_end(s, i + 1, 4)
    } else if char_at(s, i, '_') || char_at(s, i, '$') {
        let w = class_run_end(s, i + 1, 4);
        if w > i + 1 {
            w
        } else {
            0
        }
    } else {
        0
    }
}

/// An identifier followed by `(`.
pub open spec fn call_end(s: Seq<char>, i: int) -> int {
    let n = ident_end(s, i);
    if n > 0 && char_at(s, n, '(') {
        n + 1
    } else {
        0
    }
}

/// A one-character escape after the backslash at `m - 1`: the quote `q`, a
/// backslash, or one of `bnfrt`.
pub open spec fn simple_escape(s: Seq<char>, m: int, q: char) -> bool {
    char_at(s, m, q) || char_at(s, m, '\\') || char_at(s, m, 'b') || char_at(s, m, 'n')
        || char_at(s, m, 'f') || char_at(s, m, 'r') || char_at(s, m, 't')
}

/// The end of the escape whose backslash is at `j`: a simple escape, or
/// `\u{` hex digits `}`; 0 where there is none.
pub open spec fn escape_end(s: Seq<char>, j: int, q: char) -> int {
    if simple_escape(s, j + 1, q) {
        j + 2
    } else if char_at(s, j + 1, 'u') && char_at(s, j + 2, '{') {
        let h = class_run_end(s, j + 3, 1);
        if h > j + 3 && char_at(s, h, '}') {
            h + 1
        } else {
            0
        }
    } else {
        0
    }
}

/// The end of a quoted body from `j` up to and including the closing `q`.
pub open spec fn quoted_close(s: Seq<char>, j: int, q: char) -> int
    decreases s.len() - j,
{
    if j < 0 || j >= s.len() {
        0
    } else if s[j] == q {
        j + 1
    } else if s[j] == '\\' {
        let e = escape_end(s, j, q);
        if j < e && e <= s.len() {
            quoted_close(s, e, q)
        } else {
            0
        }
    } else {
        quoted_close(s, j + 1, q)
    }
}

/// A text quoted by `q`, with escapes.
pub open spec fn quoted_end(s: Seq<char>, i: int, q: char) -> int {
    if char_at(s, i, q) {
        quoted_close(s, i + 1, q)
    } else {
        0
    }
}

/// A back-quoted identifier followed by `(`.
pub open spec fn quoted_call_end(s: Seq<char>, i: int) -> int {
    let n = quoted_end(s, i, '`');
    if n > 0 && char_at(s, n, '(') {
        n + 1
    } else {
        0
    }
}

/// The end of a multi-line string body from `j` up to and including `"""`.
pub open spec fn multi_close(s: Seq<char>, j: int) -> int
    decreases s.len() - j,
{
    if j < 0 || j >= s.len() {
        0
    } else if s[j] == '"' {
        if char_at(s, j + 1, '"') && char_at(s, j + 2, '"') {
            j + 3
        } else {
            0
        }
    } else if s[j] == '\\' {
        if simple_escape(s, j + 1, '"') {
            multi_close(s, j + 2)
        } else {
            0
        }
    } else {
        multi_close(s, j + 1)
    }
}

/// `"""…"""`
pub open spec fn multi_end(s: Seq<char>, i: int) -> int {
    if char_at(s, i, '"') && char_at(s, i + 1, '"') && char_at(s, i + 2, '"') {
        multi_close(s, i + 3)
    } else {
        0
    }
}

/// The end of the run of characters other than a newline or a backslash.
pub open spec fn comment_text_end(s: Seq<char>, j: int) -> int
    decreases s.len() - j,
{
    if 0 <= j < s.len() && s[j] != '\n' && s[j] != '\\' {
        comment_text_end(s, j + 1)
    } else {
        j
    }
}

/// `//[^\n\\]*`
pub open spec fn line_comment_end(s: Seq<char>, i: int) -> int {
    if char_at(s, i, '/') && char_at(s, i + 1, '/') {
        comment_text_end(s, i + 2)
    } else {
        0
    }
}

/// `///[^\n\\]*`
pub open spec fn doc_comment_end(s: Seq<char>, i: int) -> int {
    if char_at(s, i, '/') && char_at(s, i + 1, '/') && char_at(s, i + 2, '/') {
        comment_text_end(s, i + 3)
    } else {
        0
    }
}

/// The end of a block comment's body from `j` up to and including `*/`.
pub open spec fn block_close(s: Seq<char>, j: int) -> int
    decreases s.len() - j,
{
    if j < 0 || j + 1 >= s.len() {
        0
    } else if s[j] == '*' && s[j + 1] == '/' {
        j + 2
    } else {
        block_close(s, j + 1)
    }
}

/// `/* … */`, ending at the first `*/`.
pub open spec fn block_comment_end(s: Seq<char>, i: int) -> int {
    if char_at(s, i, '/') && char_at(s, i + 1, '*') {
        block_close(s, i + 2)
    } else {
        0
    }
}

// ───────────────────────── keywords and punctuation ─────────────────────────

pub open spec fn fixed_count() -> int {
    19
}

/// The fixed tokens; at most one of them matches at any place.
pub open spec fn fixed_word(idx: int) -> Seq<char> {
    if idx == 0 {
        "-Infinity"@
    } else if idx == 1 {
        "Infinity"@
    } else if idx == 2 {
        "NaN"@
    } else if idx == 3 {
        "import"@
    } else if idx == 4 {
        "false"@
    } else if idx == 5 {
        "true"@
    } else if idx == 6 {
        "null"@
    } else if idx == 7 {
        "new"@
    } else if idx == 8 {
        "as"@
    } else if idx == 9 {
        "_"@
    } else if idx == 10 {
        " "@
    } else if idx == 11 {
        "\n"@
    } else if idx == 12 {
        "="@
    } else if idx == 13 {
        "{"@
    } else if idx == 14 {
        "}"@
    } else if idx == 15 {
        "("@
    } else if idx == 16 {
        ")"@
    } else if idx == 17 {
        ","@
    } else {
        "."@
    }
}

pub open spec fn fixed_lexeme(idx: int) -> Lexeme {
    if idx == 0 {
        Lexeme::Float("-Infinity"@)
    } else if idx == 1 {
        Lexeme::Float("Infinity"@)
    } else if idx == 2 {
        Lexeme::Float("NaN"@)
    } else if idx == 3 {
        Lexeme::Import
    } else if idx == 4 {
        Lexeme::Bool(false)
    } else if idx == 5 {
        Lexeme::Bool(true)
    } else if idx == 6 {
        Lexeme::Null
    } else if idx == 7 {
        Lexeme::New
    } else if idx == 8 {
        Lexeme::As
    } else if idx == 9 {
        Lexeme::BlankIdentifier
    } else if idx == 10 {
        Lexeme::Space
    } else if idx == 11 {
        Lexeme::NewLine
    } else if idx == 12 {
        Lexeme::EqualSign
    } else if idx == 13 {
        Lexeme::OpenBrace
    } else if idx == 14 {
        Lexeme::CloseBrace
    } else if idx == 15 {
        Lexeme::OpenParen
    } else if idx == 16 {
        Lexeme::CloseParen
    } else if idx == 17 {
        Lexeme::Comma
    } else {
        Lexeme::Dot
    }
}

/// `w` stands at `i` in `s`.
pub open spec fn word_at(s: Seq<char>, i: int, w: Seq<char>) -> bool {
    0 <= i && i + w.len() <= s.len() && s.subrange(i, i + w.len()) == w
}

/// The first fixed token from `idx` on that stands at `i`, or `fixed_count()`.
pub open spec fn fixed_from(s: Seq<char>, i: int, idx: int) -> int
    decreases fixed_count() - idx,
{
    if idx >= fixed_count() {
        fixed_count()
    } else if word_at(s, i, fixed_word(idx)) {
        idx
    } else {
        fixed_from(s, i, idx + 1)
    }
}

pub open spec fn fixed_end(s: Seq<char>, i: int) -> int {
    let idx = fixed_from(s, i, 0);
    if idx < fixed_count() {
        i + fixed_word(idx).len()
    } else {
        0
    }
}

// ───────────────────────── choosing the token ─────────────────────────

/// The token patterns, highest priority first.
#[derive(Clone, Copy)]
pub enum Pattern {
    Fixed,
    DocComment,
    LineComment,
    BlockComment,
    Int,
    HexInt,
    BinaryInt,
    OctalInt,
    Float,
    FunctionCall,
    QuotedCall,
    Identifier,
    IllegalIdentifier,
    Str,
    MultiStr,
}

/// The later candidate wins only by being longer.
pub open spec fn pick(a: (Pattern, int), b: (Pattern, int)) -> (Pattern, int) {
    if b.1 > a.1 {
        b
    } else {
        a
    }
}

/// The pattern of the longest match at `i` (the first in priority order
/// among the longest) and the match's end; the end is 0 where nothing
/// matches.
pub open spec fn best_match(s: Seq<char>, i: int) -> (Pattern, int) {
    let c = (Pattern::Fixed, fixed_end(s, i));
    let c = pick(c, (Pattern::DocComment, doc_comment_end(s, i)));
    let c = pick(c, (Pattern::LineComment, line_comment_end(s, i)));
    let c = pick(c, (Pattern::BlockComment, block_comment_end(s, i)));
    let c = pick(c, (Pattern::Int, int_end(s, i)));
    let c = pick(c, (Pattern::HexInt, radix_end(s, i, 'x', 1)));
    let c = pick(c, (Pattern::BinaryInt, radix_end(s, i, 'b', 2)));
    let c = pick(c, (Pattern::OctalInt, radix_end(s, i, 'o', 3)));
    let c = pick(c, (Pattern::Float, float_end(s, i)));
    let c = pick(c, (Pattern::FunctionCall, call_end(s, i)));
    let c = pick(c, (Pattern::QuotedCall, quoted_call_end(s, i)));
    let c = pick(c, (Pattern::Identifier, ident_end(s, i)));
    let c = pick(c, (Pattern::IllegalIdentifier, quoted_end(s, i, '`')));
    let c = pick(c, (Pattern::Str, quoted_end(s, i, '"')));
    pick(c, (Pattern::MultiStr, multi_end(s, i)))
}

// ───────────────────────── the token a match gives ─────────────────────────

/// What one match gives: a token, a lexing error, or a panic. A token's text
/// is cut from the source by byte offsets, and the cut panics where it falls
/// inside a character or its ends are out of order; negating `i64::MIN`
/// overflows.
pub enum Step {
    Token(Lexeme),
    Fault(LexFault),
    Panic,
}

pub open spec fn is_ascii(c: char) -> bool {
    (c as u32) < 128
}

/// A decimal integer: the text without underscores, read as an `i64`.
pub open spec fn int_step(raw: Seq<char>) -> Step {
    let c = strip_underscores(raw);
    match spec_parse_i64(c, 10) {
        Some(v) => Step::Token(Lexeme::Int(v)),
        None => Step::Fault(LexFault::InvalidInteger(int_error_text(c, 10))),
    }
}

pub open spec fn radix_lexeme(radix: u32, v: i64) -> Lexeme {
    if radix == 16 {
        Lexeme::HexInt(v)
    } else if radix == 2 {
        Lexeme::BinaryInt(v)
    } else {
        Lexeme::OctalInt(v)
    }
}

/// A prefixed integer: the digits after `0x`, `0b` or `0o` without
/// underscores, read in the base, and negated after a leading `-`.
pub open spec fn radix_step(raw: Seq<char>, radix: u32) -> Step {
    let neg = raw.len() > 0 && raw[0] == '-';
    let c = strip_underscores(raw.skip(if neg { 3 } else { 2 }));
    match spec_parse_i64(c, radix as int) {
        Some(v) => if !neg {
            Step::Token(radix_lexeme(radix, v))
        } else if v == i64::MIN {
            Step::Panic
        } else {
            Step::Token(radix_lexeme(radix, (0 - v) as i64))
        },
        None => Step::Fault(LexFault::InvalidInteger(int_error_text(c, radix))),
    }
}

/// A multi-line string: a newline must follow the opening quotes and come
/// before the closing ones; the body lies between them.
pub open spec fn multi_step(raw: Seq<char>) -> Step {
    let n = raw.len();
    if !is_ascii(raw[3]) {
        Step::Panic
    } else if raw[3] != '\n' {
        Step::Fault(LexFault::ExpectedNewLineAfterMultilineStringStart)
    } else if !is_ascii(raw[n - 4]) {
        Step::Panic
    } else if raw[n - 4] != '\n' {
        Step::Fault(LexFault::ExpectedNewLineBeforeMultilineStringEnd)
    } else if n < 8 {
        Step::Panic
    } else {
        Step::Token(Lexeme::MultiLineString(raw.subrange(4, n - 4)))
    }
}

/// The token the match of `p` over `s[i..e]` gives.
pub open spec fn step_of(s: Seq<char>, i: int, p: Pattern, e: int) -> Step {
    let raw = s.subrange(i, e);
    let n = raw.len();
    match p {
        Pattern::Fixed => Step::Token(fixed_lexeme(fixed_from(s, i, 0))),
        Pattern::DocComment => if n < 4 || !is_ascii(raw[n - 1]) {
            Step::Panic
        } else {
            Step::Token(Lexeme::DocComment(raw.subrange(3, n - 1)))
        },
        Pattern::LineComment => if n < 3 || !is_ascii(raw[n - 1]) {
            Step::Panic
        } else {
            Step::Token(Lexeme::LineComment(raw.subrange(2, n - 1)))
        },
        Pattern::BlockComment => Step::Token(Lexeme::MultilineComment(raw.subrange(2, n - 2))),
        Pattern::Int => int_step(raw),
        Pattern::HexInt => radix_step(raw, 16),
        Pattern::BinaryInt => radix_step(raw, 2),
        Pattern::OctalInt => radix_step(raw, 8),
        Pattern::Float => Step::Token(Lexeme::Float(strip_underscores(raw))),
        Pattern::FunctionCall => Step::Token(Lexeme::FunctionCall(raw.subrange(0, n - 1))),
        Pattern::QuotedCall => Step::Token(Lexeme::FunctionCall(raw.subrange(1, n - 2))),
        Pattern::Identifier => Step::Token(Lexeme::Identifier(raw)),
        Pattern::IllegalIdentifier => Step::Token(Lexeme::IllegalIdentifier(raw.subrange(1, n - 1))),
        Pattern::Str => Step::Token(Lexeme::String(raw.subrange(1, n - 1))),
        Pattern::MultiStr => multi_step(raw),
    }
}

// ───────────────────────── the whole source ─────────────────────────

/// The outcome of lexing: the tokens, the first error, or a panic.
pub enum LexOutcome {
    Tokens(Seq<Lexeme>),
    Failed(LexFault),
    Panics,
}

pub open spec fn prepend(ts: Seq<Lexeme>, o: LexOutcome) -> LexOutcome {
    match o {
        LexOutcome::Tokens(rest) => LexOutcome::Tokens(ts + rest),
        other => other,
    }
}

/// Lexing `s` from `i` on.
pub open spec fn lex_from(s: Seq<char>, i: int) -> LexOutcome
    decreases s.len() - i,
{
    if i < 0 || i >= s.len() {
        LexOutcome::Tokens(seq![])
    } else if s[i] == '\t' {
        lex_from(s, i + 1)
    } else {
        let (p, e) = best_match(s, i);
        if e <= i || e > s.len() {
            LexOutcome::Failed(LexFault::DefaultLexingError)
        } else {
            match step_of(s, i, p, e) {
                Step::Token(t) => prepend(seq![t], lex_from(s, e)),
                Step::Fault(f) => LexOutcome::Failed(f),
                Step::Panic => LexOutcome::Panics,
            }
        }
    }
}

/// Lexing the whole source.
pub open spec fn spec_lex(s: Seq<char>) -> LexOutcome {
    lex_from(s, 0)
}

pub open spec fn lexemes(ts: Seq<PklToken>) -> Seq<Lexeme> {
    ts.map_values(|t: PklToken| t@)
}


/// The end that pattern `p` gives at `i`.
pub open spec fn pattern_end(s: Seq<char>, i: int, p: Pattern) -> int {
    match p {
        Pattern::Fixed => fixed_end(s, i),
        Pattern::DocComment => doc_comment_end(s, i),
        Pattern::LineComment => line_comment_end(s, i),
        Pattern::BlockComment => block_comment_end(s, i),
        Pattern::Int => int_end(s, i),
        Pattern::HexInt => radix_end(s, i, 'x', 1),
        Pattern::BinaryInt => radix_end(s, i, 'b', 2),
        Pattern::OctalInt => radix_end(s, i, 'o', 3),
        Pattern::Float => float_end(s, i),
        Pattern::FunctionCall => call_end(s, i),
        Pattern::QuotedCall => quoted_call_end(s, i),
        Pattern::Identifier => ident_end(s, i),
        Pattern::IllegalIdentifier => quoted_end(s, i, '`'),
        Pattern::Str => quoted_end(s, i, '"'),
        Pattern::MultiStr => multi_end(s, i),
    }
}

// ───────────────────────── facts about the patterns ─────────────────────────

proof fn lemma_digits_tail(s: Seq<char>, j: int, k: u8)
    ensures
        digits_tail_end(s, j, k) >= j,
    decreases s.len() - j,
{
    if 0 <= j < s.len() && in_class(k, s[j]) {
        lemma_digits_tail(s, j + 1, k);
    } else if 0 <= j && j + 1 < s.len() && s[j] == '_' && in_class(k, s[j + 1]) {
        lemma_digits_tail(s, j + 2, k);
    }
}

proof fn lemma_quoted_close(s: Seq<char>, j: int, q: char)
    ensures
        quoted_close(s, j, q) == 0 || quoted_close(s, j, q) > j,
    decreases s.len() - j,
{
    if j < 0 || j >= s.len() {
    } else if s[j] == q {
    } else if s[j] == '\\' {
        let e = escape_end(s, j, q);
        if j < e && e <= s.len() {
            lemma_quoted_close(s, e, q);
        }
    } else {
        lemma_quoted_close(s, j + 1, q);
    }
}

proof fn lemma_multi_close(s: Seq<char>, j: int)
    ensures
        multi_close(s, j) == 0 || multi_close(s, j) >= j + 3,
    decreases s.len() - j,
{
    if j < 0 || j >= s.len() {
    } else if s[j] == '"' {
    } else if s[j] == '\\' {
        if simple_escape(s, j + 1, '"') {
            lemma_multi_close(s, j + 2);
        }
    } else {
        lemma_multi_close(s, j + 1);
    }
}

proof fn lemma_block_close(s: Seq<char>, j: int)
    ensures
        block_close(s, j) == 0 || block_close(s, j) >= j + 2,
    decreases s.len() - j,
{
    if j < 0 || j + 1 >= s.len() {
    } else if s[j] == '*' && s[j + 1] == '/' {
    } else {
        lemma_block_close(s, j + 1);
    }
}

// ───────────────────────── matching, executably ─────────────────────────

fn char_is(s: &Vec<char>, i: usize, c: char) -> (r: bool)
    ensures
        r == char_at(s@, i as int, c),
{
    i < s.len() && s[i] == c
}

fn class_has(k: u8, c: char) -> (r: bool)
    ensures
        r == in_class(k, c),
{
    if k == 0 {
        '0' <= c && c <= '9'
    } else if k == 1 {
        ('0' <= c && c <= '9') || ('a' <= c && c <= 'f') || ('A' <= c && c <= 'F')
    } else if k == 2 {
        c == '0' || c == '1'
    } else if k == 3 {
        '0' <= c && c <= '7'
    } else {
        ('a' <= c && c <= 'z') || ('A' <= c && c <= 'Z') || ('0' <= c && c <= '9') || c == '_'
    }
}

fn run_end(s: &Vec<char>, j: usize, k: u8) -> (r: usize)
    requires
        s@.len() + 8 <= usize::MAX,
        j <= s@.len(),
    ensures
        r as int == class_run_end(s@, j as int, k),
        j <= r <= s@.len(),
{
    let mut m = j;
    while m < s.len() && class_has(k, s[m])
        invariant
            s@.len() + 8 <= usize::MAX,
            j <= m <= s@.len(),
            class_run_end(s@, j as int, k) == class_run_end(s@, m as int, k),
        decreases s@.len() - m,
    {
        m = m + 1;
    }
    m
}

fn tail_end(s: &Vec<char>, j: usize, k: u8) -> (r: usize)
    requires
        s@.len() + 8 <= usize::MAX,
        j <= s@.len(),
    ensures
        r as int == digits_tail_end(s@, j as int, k),
        j <= r <= s@.len(),
{
    let mut m = j;
    while m < s.len() && (class_has(k, s[m]) || (m + 1 < s.len() && s[m] == '_' && class_has(k, s[m + 1])))
        invariant
            s@.len() + 8 <= usize::MAX,
            j <= m <= s@.len(),
            digits_tail_end(s@, j as int, k) == digits_tail_end(s@, m as int, k),
        decreases s@.len() - m,
    {
        if class_has(k, s[m]) {
            m = m + 1;
        } else {
            m = m + 2;
        }
    }
    m
}

fn digits_at(s: &Vec<char>, j: usize, k: u8) -> (r: usize)
    requires
        s@.len() + 8 <= usize::MAX,
        j <= s@.len(),
    ensures
        r as int == digits_end(s@, j as int, k),
        r <= s@.len(),
{
    if j < s.len() && class_has(k, s[j]) {
        tail_end(s, j + 1, k)
    } else {
        0
    }
}

fn sign_at(s: &Vec<char>, i: usize) -> (r: usize)
    requires
        s@.len() + 8 <= usize::MAX,
        i < s@.len(),
    ensures
        r as int == sign_end(s@, i as int),
        i <= r <= s@.len(),
{
    if char_is(s, i, '-') {
        i + 1
    } else {
        i
    }
}

fn radix_at(s: &Vec<char>, i: usize, p: char, k: u8) -> (r: usize)
    requires
        s@.len() + 8 <= usize::MAX,
        i < s@.len(),
    ensures
        r as int == radix_end(s@, i as int, p, k),
        r <= s@.len(),
{
    let j = sign_at(s, i);
    if char_is(s, j, '0') && char_is(s, j + 1, p) {
        digits_at(s, j + 2, k)
    } else {
        0
    }
}

fn exponent_at(s: &Vec<char>, m: usize) -> (r: usize)
    requires
        s@.len() + 8 <= usize::MAX,
        m <= s@.len(),
    ensures
        r as int == exponent_end(s@, m as int),
        r <= s@.len(),
{
    if char_is(s, m, 'e') || char_is(s, m, 'E') {
        let q = if char_is(s, m + 1, '+') || char_is(s, m + 1, '-') {
            m + 2
        } else {
            m + 1
        };
        let d = digits_at(s, q, 0);
        if d > 0 {
            d
        } else {
            m
        }
    } else {
        m
    }
}

fn float_at(s: &Vec<char>, i: usize) -> (r: usize)
    requires
        s@.len() + 8 <= usize::MAX,
        i < s@.len(),
    ensures
        r as int == float_end(s@, i as int),
        r <= s@.len(),
{
    let j = sign_at(s, i);
    let k = if char_is(s, j, '0') {
        j + 1
    } else if j < s.len() && '1' <= s[j] && s[j] <= '9' {
        tail_end(s, j + 1, 0)
    } else {
        j
    };
    if char_is(s, k, '.') {
        let f = digits_at(s, k + 1, 0);
        if f > 0 {
            exponent_at(s, f)
        } else {
            0
        }
    } else {
        0
    }
}

fn ident_at(s: &Vec<char>, i: usize) -> (r: usize)
    requires
        s@.len() + 8 <= usize::MAX,
        i < s@.len(),
    ensures
        r as int == ident_end(s@, i as int),
        r <= s@.len(),
{
    let c = s[i];
    if ('a' <= c && c <= 'z') || ('A' <= c && c <= 'Z') {
        run_end(s, i + 1, 4)
    } else if c == '_' || c == '$' {
        let w = run_end(s, i + 1, 4);
        if w > i + 1 {
            w
        } else {
            0
        }
    } else {
        0
    }
}

fn call_at(s: &Vec<char>, i: usize) -> (r: usize)
    requires
        s@.len() + 8 <= usize::MAX,
        i < s@.len(),
    ensures
        r as int == call_end(s@, i as int),
        r <= s@.len(),
{
    let n = ident_at(s, i);
    if n > 0 && char_is(s, n, '(') {
        n + 1
    } else {
        0
    }
}

fn simple_escape_at(s: &Vec<char>, m: usize, q: char) -> (r: bool)
    ensures
        r == simple_escape(s@, m as int, q),
{
    char_is(s, m, q) || char_is(s, m, '\\') || char_is(s, m, 'b') || char_is(s, m, 'n')
        || char_is(s, m, 'f') || char_is(s, m, 'r') || char_is(s, m, 't')
}

fn escape_at(s: &Vec<char>, j: usize, q: char) -> (r: usize)
    requires
        s@.len() + 8 <= usize::MAX,
        j < s@.len(),
    ensures
        r as int == escape_end(s@, j as int, q),
        r <= s@.len(),
{
    if simple_escape_at(s, j + 1, q) {
        j + 2
    } else if char_is(s, j + 1, 'u') && char_is(s, j + 2, '{') {
        let h = run_end(s, j + 3, 1);
        if h > j + 3 && char_is(s, h, '}') {
            h + 1
        } else {
            0
        }
    } else {
        0
    }
}

fn quoted_close_at(s: &Vec<char>, j: usize, q: char) -> (r: usize)
    requires
        s@.len() + 8 <= usize::MAX,
        j <= s@.len(),
    ensures
        r as int == quoted_close(s@, j as int, q),
        r <= s@.len(),
{
    let mut m = j;
    while m < s.len() && s[m] != q
        invariant
            s@.len() + 8 <= usize::MAX,
            j <= m <= s@.len(),
            quoted_close(s@, j as int, q) == quoted_close(s@, m as int, q),
        decreases s@.len() - m,
    {
        if s[m] == '\\' {
            let e = escape_at(s, m, q);
            if e > m {
                m = e;
            } else {
                return 0;
            }
        } else {
            m = m + 1;
        }
    }
    if m < s.len() {
        m + 1
    } else {
        0
    }
}

fn quoted_at(s: &Vec<char>, i: usize, q: char) -> (r: usize)
    requires
        s@.len() + 8 <= usize::MAX,
        i < s@.len(),
    ensures
        r as int == quoted_end(s@, i as int, q),
        r <= s@.len(),
{
    if s[i] == q {
        quoted_close_at(s, i + 1, q)
    } else {
        0
    }
}

fn quoted_call_at(s: &Vec<char>, i: usize) -> (r: usize)
    requires
        s@.len() + 8 <= usize::MAX,
        i < s@.len(),
    ensures
        r as int == quoted_call_end(s@, i as int),
        r <= s@.len(),
{
    let n = quoted_at(s, i, '`');
    if n > 0 && char_is(s, n, '(') {
        n + 1
    } else {
        0
    }
}

fn multi_close_at(s: &Vec<char>, j: usize) -> (r: usize)
    requires
        s@.len() + 8 <= usize::MAX,
        j <= s@.len(),
    ensures
        r as int == multi_close(s@, j as int),
        r <= s@.len(),
{
    let mut m = j;
    while m < s.len() && s[m] != '"'
        invariant
            s@.len() + 8 <= usize::MAX,
            j <= m <= s@.len(),
            multi_close(s@, j as int) == multi_close(s@, m as int),
        decreases s@.len() - m,
    {
        if s[m] == '\\' {
            if simple_escape_at(s, m + 1, '"') {
                m = m + 2;
            } else {
                return 0;
            }
        } else {
            m = m + 1;
        }
    }
    if m < s.len() && char_is(s, m + 1, '"') && char_is(s, m + 2, '"') {
        m + 3
    } else {
        0
    }
}

fn multi_at(s: &Vec<char>, i: usize) -> (r: usize)
    requires
        s@.len() + 8 <= usize::MAX,
        i < s@.len(),
    ensures
        r as int == multi_end(s@, i as int),
        r <= s@.len(),
{
    if char_is(s, i, '"') && char_is(s, i + 1, '"') && char_is(s, i + 2, '"') {
        multi_close_at(s, i + 3)
    } else {
        0
    }
}

fn comment_text_at(s: &Vec<char>, j: usize) -> (r: usize)
    requires
        s@.len() + 8 <= usize::MAX,
        j <= s@.len(),
    ensures
        r as int == comment_text_end(s@, j as int),
        r <= s@.len(),
{
    let mut m = j;
    while m < s.len() && s[m] != '\n' && s[m] != '\\'
        invariant
            s@.len() + 8 <= usize::MAX,
            j <= m <= s@.len(),
            comment_text_end(s@, j as int) == comment_text_end(s@, m as int),
        decreases s@.len() - m,
    {
        m = m + 1;
    }
    m
}

fn line_comment_at(s: &Vec<char>, i: usize) -> (r: usize)
    requires
        s@.len() + 8 <= usize::MAX,
        i < s@.len(),
    ensures
        r as int == line_comment_end(s@, i as int),
        r <= s@.len(),
{
    if char_is(s, i, '/') && char_is(s, i + 1, '/') {
        comment_text_at(s, i + 2)
    } else {
        0
    }
}

fn doc_comment_at(s: &Vec<char>, i: usize) -> (r: usize)
    requires
        s@.len() + 8 <= usize::MAX,
        i < s@.len(),
    ensures
        r as int == doc_comment_end(s@, i as int),
        r <= s@.len(),
{
    if char_is(s, i, '/') && char_is(s, i + 1, '/') && char_is(s, i + 2, '/') {
        comment_text_at(s, i + 3)
    } else {
        0
    }
}

fn block_comment_at(s: &Vec<char>, i: usize) -> (r: usize)
    requires
        s@.len() + 8 <= usize::MAX,
        i < s@.len(),
    ensures
        r as int == block_comment_end(s@, i as int),
        r <= s@.len(),
{
    if !(char_is(s, i, '/') && char_is(s, i + 1, '*')) {
        return 0;
    }
    let j = i + 2;
    let mut m = j;
    while m + 1 < s.len() && !(s[m] == '*' && s[m + 1] == '/')
        invariant
            s@.len() + 8 <= usize::MAX,
            j <= m <= s@.len(),
            block_close(s@, j as int) == block_close(s@, m as int),
        decreases s@.len() - m,
    {
        m = m + 1;
    }
    if m + 1 < s.len() {
        m + 2
    } else {
        0
    }
}

fn word_at_exec(s: &Vec<char>, i: usize, w: &str) -> (r: bool)
    requires
        s@.len() + 8 <= usize::MAX,
        i <= s@.len(),
    ensures
        r == word_at(s@, i as int, w@),
{
    let n = w.unicode_len();
    if n > s.len() - i {
        return false;
    }
    let mut k: usize = 0;
    while k < n
        invariant
            s@.len() + 8 <= usize::MAX,
            k <= n,
            n == w@.len(),
            i + n <= s@.len(),
            s@.subrange(i as int, i + k) =~= w@.take(k as int),
        decreases n - k,
    {
        if s[i + k] != w.get_char(k) {
            proof {
                assert(s@.subrange(i as int, i + n)[k as int] == s@[i + k]);
            }
            return false;
        }
        k = k + 1;
    }
    proof {
        assert(w@.take(n as int) =~= w@);
    }
    true
}

fn fixed_word_of(idx: usize) -> (r: &'static str)
    ensures
        r@ == fixed_word(idx as int),
{
    if idx == 0 {
        "-Infinity"
    } else if idx == 1 {
        "Infinity"
    } else if idx == 2 {
        "NaN"
    } else if idx == 3 {
        "import"
    } else if idx == 4 {
        "false"
    } else if idx == 5 {
        "true"
    } else if idx == 6 {
        "null"
    } else if idx == 7 {
        "new"
    } else if idx == 8 {
        "as"
    } else if idx == 9 {
        "_"
    } else if idx == 10 {
        " "
    } else if idx == 11 {
        "\n"
    } else if idx == 12 {
        "="
    } else if idx == 13 {
        "{"
    } else if idx == 14 {
        "}"
    } else if idx == 15 {
        "("
    } else if idx == 16 {
        ")"
    } else if idx == 17 {
        ","
    } else {
        "."
    }
}

fn fixed_token(idx: usize) -> (r: PklToken)
    ensures
        r@ == fixed_lexeme(idx as int),
{
    if idx == 0 {
        PklToken::Float("-Infinity".to_string())
    } else if idx == 1 {
        PklToken::Float("Infinity".to_string())
    } else if idx == 2 {
        PklToken::Float("NaN".to_string())
    } else if idx == 3 {
        PklToken::Import
    } else if idx == 4 {
        PklToken::Bool(false)
    } else if idx == 5 {
        PklToken::Bool(true)
    } else if idx == 6 {
        PklToken::Null
    } else if idx == 7 {
        PklToken::New
    } else if idx == 8 {
        PklToken::As
    } else if idx == 9 {
        PklToken::BlankIdentifier
    } else if idx == 10 {
        PklToken::Space
    } else if idx == 11 {
        PklToken::NewLine
    } else if idx == 12 {
        PklToken::EqualSign
    } else if idx == 13 {
        PklToken::OpenBrace
    } else if idx == 14 {
        PklToken::CloseBrace
    } else if idx == 15 {
        PklToken::OpenParen
    } else if idx == 16 {
        PklToken::CloseParen
    } else if idx == 17 {
        PklToken::Comma
    } else {
        PklToken::Dot
    }
}

fn fixed_index(s: &Vec<char>, i: usize) -> (r: usize)
    requires
        s@.len() + 8 <= usize::MAX,
        i <= s@.len(),
    ensures
        r as int == fixed_from(s@, i as int, 0),
        r < 19 ==> word_at(s@, i as int, fixed_word(r as int)),
{
    let mut idx: usize = 0;
    while idx < 19
        invariant
            s@.len() + 8 <= usize::MAX,
            i <= s@.len(),
            idx <= 19,
            fixed_from(s@, i as int, 0) == fixed_from(s@, i as int, idx as int),
        decreases 19 - idx,
    {
        if word_at_exec(s, i, fixed_word_of(idx)) {
            return idx;
        }
        idx = idx + 1;
    }
    19
}

fn fixed_at(s: &Vec<char>, i: usize) -> (r: usize)
    requires
        s@.len() + 8 <= usize::MAX,
        i <= s@.len(),
    ensures
        r as int == fixed_end(s@, i as int),
        r <= s@.len(),
{
    let idx = fixed_index(s, i);
    if idx < 19 {
        i + fixed_word_of(idx).unicode_len()
    } else {
        0
    }
}


fn best_at(s: &Vec<char>, i: usize) -> (r: (Pattern, usize))
    requires
        s@.len() + 8 <= usize::MAX,
        i < s@.len(),
    ensures
        r.0 == best_match(s@, i as int).0,
        r.1 as int == best_match(s@, i as int).1,
        r.1 as int == pattern_end(s@, i as int, r.0),
        r.1 <= s@.len(),
{
    let mut c = (Pattern::Fixed, fixed_at(s, i));
    let e = doc_comment_at(s, i);
    if e > c.1 {
        c = (Pattern::DocComment, e);
    }
    let e = line_comment_at(s, i);
    if e > c.1 {
        c = (Pattern::LineComment, e);
    }
    let e = block_comment_at(s, i);
    if e > c.1 {
        c = (Pattern::BlockComment, e);
    }
    let e = digits_at(s, sign_at(s, i), 0);
    if e > c.1 {
        c = (Pattern::Int, e);
    }
    let e = radix_at(s, i, 'x', 1);
    if e > c.1 {
        c = (Pattern::HexInt, e);
    }
    let e = radix_at(s, i, 'b', 2);
    if e > c.1 {
        c = (Pattern::BinaryInt, e);
    }
    let e = radix_at(s, i, 'o', 3);
    if e > c.1 {
        c = (Pattern::OctalInt, e);
    }
    let e = float_at(s, i);
    if e > c.1 {
        c = (Pattern::Float, e);
    }
    let e = call_at(s, i);
    if e > c.1 {
        c = (Pattern::FunctionCall, e);
    }
    let e = quoted_call_at(s, i);
    if e > c.1 {
        c = (Pattern::QuotedCall, e);
    }
    let e = ident_at(s, i);
    if e > c.1 {
        c = (Pattern::Identifier, e);
    }
    let e = quoted_at(s, i, '`');
    if e > c.1 {
        c = (Pattern::IllegalIdentifier, e);
    }
    let e = quoted_at(s, i, '"');
    if e > c.1 {
        c = (Pattern::Str, e);
    }
    let e = multi_at(s, i);
    if e > c.1 {
        c = (Pattern::MultiStr, e);
    }
    c
}

/// The token of the match of `p` over `s[i..e]`.
fn token_at(s: &Vec<char>, i: usize, p: Pattern, e: usize) -> (r: Result<PklToken, LexingError>)
    requires
        s@.len() + 8 <= usize::MAX,
        i < e <= s@.len(),
        e as int == pattern_end(s@, i as int, p),
        !(step_of(s@, i as int, p, e as int) is Panic),
    ensures
        match step_of(s@, i as int, p, e as int) {
            Step::Token(t) => (r matches Ok(x) && x@ == t),
            Step::Fault(f) => (r matches Err(x) && x@ == f),
            Step::Panic => true,
        },
{
    let raw = slice_of(s, i, e);
    let n = raw.len();
    proof {
        assert(raw@ == s@.subrange(i as int, e as int));
    }
    match p {
        Pattern::Fixed => {
            let idx = fixed_index(s, i);
            Ok(fixed_token(idx))
        },
        Pattern::DocComment => Ok(PklToken::DocComment(chars_to_string(&slice_of(&raw, 3, n - 1)))),
        Pattern::LineComment => Ok(PklToken::LineComment(chars_to_string(&slice_of(&raw, 2, n - 1)))),
        Pattern::BlockComment => {
            proof {
                lemma_block_close(s@, i + 2);
            }
            Ok(PklToken::MultilineComment(chars_to_string(&slice_of(&raw, 2, n - 2))))
        },
        Pattern::Int => {
            let clean = chars_to_string(&remove_underscores(&raw));
            match parse_i64_radix(clean.as_str(), 10) {
                Ok(v) => Ok(PklToken::Int(v)),
                Err(m) => Err(LexingError::InvalidInteger(m)),
            }
        },
        Pattern::HexInt => radix_token(s, i, e, 16),
        Pattern::BinaryInt => radix_token(s, i, e, 2),
        Pattern::OctalInt => radix_token(s, i, e, 8),
        Pattern::Float => Ok(PklToken::Float(chars_to_string(&remove_underscores(&raw)))),
        Pattern::FunctionCall => Ok(PklToken::FunctionCall(chars_to_string(&slice_of(&raw, 0, n - 1)))),
        Pattern::QuotedCall => {
            proof {
                lemma_quoted_close(s@, i + 1, '`');
            }
            Ok(PklToken::FunctionCall(chars_to_string(&slice_of(&raw, 1, n - 2))))
        },
        Pattern::Identifier => Ok(PklToken::Identifier(chars_to_string(&raw))),
        Pattern::IllegalIdentifier => {
            proof {
                lemma_quoted_close(s@, i + 1, '`');
            }
            Ok(PklToken::IllegalIdentifier(chars_to_string(&slice_of(&raw, 1, n - 1))))
        },
        Pattern::Str => {
            proof {
                lemma_quoted_close(s@, i + 1, '"');
            }
            Ok(PklToken::String(chars_to_string(&slice_of(&raw, 1, n - 1))))
        },
        Pattern::MultiStr => {
            proof {
                lemma_multi_close(s@, i + 3);
            }
            if raw[3] != '\n' {
                Err(LexingError::ExpectedNewLineAfterMultilineStringStart)
            } else if raw[n - 4] != '\n' {
                Err(LexingError::ExpectedNewLineBeforeMultilineStringEnd)
            } else {
                Ok(PklToken::MultiLineString(chars_to_string(&slice_of(&raw, 4, n - 4))))
            }
        },
    }
}

/// A prefixed integer token over `s[i..e]` in the base.
fn radix_token(s: &Vec<char>, i: usize, e: usize, radix: u32) -> (r: Result<PklToken, LexingError>)
    requires
        s@.len() + 8 <= usize::MAX,
        i < e <= s@.len(),
        radix == 16 || radix == 2 || radix == 8,
        e as int == radix_end(s@, i as int, if radix == 16 { 'x' } else if radix == 2 { 'b' } else { 'o' },
            if radix == 16 { 1u8 } else if radix == 2 { 2u8 } else { 3u8 }),
        !(radix_step(s@.subrange(i as int, e as int), radix) is Panic),
    ensures
        match radix_step(s@.subrange(i as int, e as int), radix) {
            Step::Token(t) => (r matches Ok(x) && x@ == t),
            Step::Fault(f) => (r matches Err(x) && x@ == f),
            Step::Panic => true,
        },
{
    let raw = slice_of(s, i, e);
    let n = raw.len();
    let neg = raw[0] == '-';
    let start: usize = if neg { 3 } else { 2 };
    proof {
        let j = sign_end(s@, i as int);
        let k: u8 = if radix == 16 { 1u8 } else if radix == 2 { 2u8 } else { 3u8 };
        lemma_digits_tail(s@, j + 3, k);
        assert(raw@[0] == s@[i as int]);
    }
    let digits = slice_of(&raw, start, n);
    let clean = chars_to_string(&remove_underscores(&digits));
    proof {
        assert(digits@ =~= raw@.skip(start as int));
    }
    match parse_i64_radix(clean.as_str(), radix) {
        Ok(v) => {
            if !neg {
                Ok(radix_token_of(radix, v))
            } else if v == i64::MIN {
                // ruled out by the precondition: negating it overflows
                Err(LexingError::DefaultLexingError)
            } else {
                Ok(radix_token_of(radix, -v))
            }
        },
        Err(m) => Err(LexingError::InvalidInteger(m)),
    }
}

fn radix_token_of(radix: u32, v: i64) -> (r: PklToken)
    ensures
        r@ == radix_lexeme(radix, v),
{
    if radix == 16 {
        PklToken::HexInt(v)
    } else if radix == 2 {
        PklToken::BinaryInt(v)
    } else {
        PklToken::OctalInt(v)
    }
}

/// Cuts `source` into tokens: at each place the longest match (keywords
/// before identifiers and doc comments before line comments where lengths
/// tie), skipping tabs, and stopping at the first error. Inputs whose
/// reading panics (an empty line comment, a comment or multi-line string
/// cut inside a character) are left out.
pub fn lex(source: &str) -> (r: Result<Vec<PklToken>, LexingError>)
    requires
        source@.len() + 8 <= usize::MAX,
        !(spec_lex(source@) is Panics),
    ensures
        r matches Ok(ts) ==> spec_lex(source@) == LexOutcome::Tokens(lexemes(ts@)),
        r matches Err(e) ==> spec_lex(source@) == LexOutcome::Failed(e@),
{
    let s = str_to_chars(source);
    let mut toks: Vec<PklToken> = Vec::new();
    let mut i: usize = 0;
    proof {
        assert(lexemes(toks@) =~= seq![]);
        assert(prepend(seq![], lex_from(s@, 0)) == lex_from(s@, 0)) by {
            match lex_from(s@, 0) {
                LexOutcome::Tokens(rest) => {
                    assert(Seq::<Lexeme>::empty() + rest =~= rest);
                },
                _ => {},
            }
        }
    }
    while i < s.len()
        invariant
            s@ == source@,
            s@.len() + 8 <= usize::MAX,
            i <= s@.len(),
            !(spec_lex(source@) is Panics),
            spec_lex(source@) == prepend(lexemes(toks@), lex_from(s@, i as int)),
        decreases s@.len() - i,
    {
        if s[i] == '\t' {
            i = i + 1;
        } else {
            let (p, e) = best_at(&s, i);
            if e <= i {
                return Err(LexingError::DefaultLexingError);
            }
            let ghost rest = lex_from(s@, e as int);
            proof {
                if step_of(s@, i as int, p, e as int) is Panic {
                    assert(lex_from(s@, i as int) == LexOutcome::Panics);
                }
            }
            match token_at(&s, i, p, e) {
                Ok(t) => {
                    proof {
                        let before = lexemes(toks@);
                        assert(lexemes(toks@.push(t)) =~= before.push(t@));
                        match rest {
                            LexOutcome::Tokens(r2) => {
                                assert(before + (seq![t@] + r2) =~= before.push(t@) + r2);
                            },
                            _ => {},
                        }
                    }
                    toks.push(t);
                    i = e;
                },
                Err(err) => {
                    return Err(err);
                },
            }
        }
    }
    proof {
        assert(lexemes(toks@) + seq![] =~= lexemes(toks@));
    }
    Ok(toks)
}


// ───────────────────────── laws ─────────────────────────

/// A hexadecimal digit.
pub open spec fn is_hex_digit(c: char) -> bool {
    ('0' <= c && c <= '9') || ('a' <= c && c <= 'f') || ('A' <= c && c <= 'F')
}

/// The number of hexadecimal digits in a row from `j` in `b`.
pub open spec fn hex_run(b: Seq<char>, j: int) -> int
    decreases b.len() - j,
{
    if 0 <= j < b.len() && is_hex_digit(b[j]) {
        1 + hex_run(b, j + 1)
    } else {
        0
    }
}

/// From `k` on, `b` is made of characters other than `"` and `\`, of the
/// one-character escapes `\"`, `\\`, `\b`, `\n`, `\f`, `\r` and `\t`, and of
/// the escapes `\u{…}` with one or more hexadecimal digits.
pub open spec fn escaped_body_from(b: Seq<char>, k: int) -> bool
    decreases b.len() - k,
{
    if k < 0 || k >= b.len() {
        k == b.len()
    } else if b[k] == '\\' {
        if k + 1 < b.len() && (b[k + 1] == '"' || b[k + 1] == '\\' || b[k + 1] == 'b' || b[k + 1] == 'n'
            || b[k + 1] == 'f' || b[k + 1] == 'r' || b[k + 1] == 't') {
            escaped_body_from(b, k + 2)
        } else if k + 2 < b.len() && b[k + 1] == 'u' && b[k + 2] == '{' {
            let h = hex_run(b, k + 3);
            h > 0 && k + 3 + h < b.len() && b[k + 3 + h] == '}' && escaped_body_from(b, k + 4 + h)
        } else {
            false
        }
    } else if b[k] == '"' {
        false
    } else {
        escaped_body_from(b, k + 1)
    }
}

/// A well-formed string body: plain characters and escapes.
pub open spec fn plain_escaped_body(b: Seq<char>) -> bool {
    escaped_body_from(b, 0)
}

proof fn lemma_hex_run_in_source(s: Seq<char>, b: Seq<char>, j: int)
    requires
        s == seq!['"'] + b + seq!['"'],
        0 <= j <= b.len(),
    ensures
        class_run_end(s, j + 1, 1) == j + 1 + hex_run(b, j),
    decreases b.len() - j,
{
    if j < b.len() {
        assert(s[j + 1] == b[j]);
        if is_hex_digit(b[j]) {
            lemma_hex_run_in_source(s, b, j + 1);
        }
    } else {
        assert(s[j + 1] == '"');
    }
}

proof fn lemma_quoted_body_closes(s: Seq<char>, b: Seq<char>, k: int)
    requires
        s == seq!['"'] + b + seq!['"'],
        0 <= k <= b.len(),
        escaped_body_from(b, k),
    ensures
        quoted_close(s, k + 1, '"') == s.len(),
    decreases b.len() - k,
{
    if k == b.len() {
        assert(s[k + 1] == '"');
    } else {
        assert(s[k + 1] == b[k]);
        if b[k] == '\\' {
            assert(s[k + 2] == b[k + 1]);
            if b[k + 1] == '"' || b[k + 1] == '\\' || b[k + 1] == 'b' || b[k + 1] == 'n' || b[k + 1] == 'f'
                || b[k + 1] == 'r' || b[k + 1] == 't' {
                assert(simple_escape(s, k + 2, '"'));
                assert(escape_end(s, k + 1, '"') == k + 3);
                lemma_quoted_body_closes(s, b, k + 2);
            } else {
                let h = hex_run(b, k + 3);
                assert(s[k + 3] == b[k + 2]);
                assert(!simple_escape(s, k + 2, '"'));
                lemma_hex_run_in_source(s, b, k + 3);
                assert(s[k + 4 + h] == b[k + 3 + h]);
                assert(escape_end(s, k + 1, '"') == k + 5 + h);
                lemma_quoted_body_closes(s, b, k + 4 + h);
            }
        } else {
            lemma_quoted_body_closes(s, b, k + 1);
        }
    }
}

#[verifier::spinoff_prover]
proof fn lemma_no_fixed_word_at_quote(s: Seq<char>, idx: int)
    requires
        s.len() > 0,
        s[0] == '"',
        0 <= idx,
    ensures
        fixed_from(s, 0, idx) == fixed_count(),
    decreases fixed_count() - idx,
{
    reveal_strlit("-Infinity");
    reveal_strlit("Infinity");
    reveal_strlit("NaN");
    reveal_strlit("import");
    reveal_strlit("false");
    reveal_strlit("true");
    reveal_strlit("null");
    reveal_strlit("new");
    reveal_strlit("as");
    reveal_strlit("_");
    reveal_strlit(" ");
    reveal_strlit("\n");
    reveal_strlit("=");
    reveal_strlit("{");
    reveal_strlit("}");
    reveal_strlit("(");
    reveal_strlit(")");
    reveal_strlit(",");
    reveal_strlit(".");
    if idx < fixed_count() {
        let w = fixed_word(idx);
        assert(w.len() > 0 && w[0] != '"');
        if word_at(s, 0, w) {
            assert(s.subrange(0, w.len() as int)[0] == s[0]);
        }
        lemma_no_fixed_word_at_quote(s, idx + 1);
    }
}

/// A double-quoted string whose body holds only plain characters and the
/// escapes `\"`, `\\`, `\b`, `\n`, `\f`, `\r`, `\t` and `\u{…}` lexes to
/// one `String` token carrying the body as written.
#[verifier::spinoff_prover]
pub proof fn lemma_quoted_string_is_one_token(b: Seq<char>)
    requires
        plain_escaped_body(b),
    ensures
        spec_lex(seq!['"'] + b + seq!['"']) == LexOutcome::Tokens(seq![Lexeme::String(b)]),
{
    let s = seq!['"'] + b + seq!['"'];
    let n = s.len() as int;
    assert(s[0] == '"');
    lemma_quoted_body_closes(s, b, 0);
    lemma_no_fixed_word_at_quote(s, 0);
    assert(quoted_end(s, 0, '"') == n);
    assert(multi_end(s, 0) == 0) by {
        if b.len() > 0 {
            assert(s[1] == b[0]);
        }
    }
    assert(best_match(s, 0) == (Pattern::Str, n));
    assert(s.subrange(0, n).subrange(1, n - 1) =~= b);
    assert(lex_from(s, n) == LexOutcome::Tokens(seq![]));
    assert(seq![Lexeme::String(b)] + Seq::<Lexeme>::empty() =~= seq![Lexeme::String(b)]);
}

} // verus!
