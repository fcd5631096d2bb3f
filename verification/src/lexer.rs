//! The lexical grammar: what the next lexeme of a source is.
//!
//! Blanks and `//` comments separate lexemes. A lexeme is a punctuation mark
//! of one or two characters, a string between double quotes, a number (digits,
//! then optionally a dot and more digits), a word (a keyword or an
//! identifier), the end of the input, or an error: a string that is never
//! closed, or a character that begins nothing.

use vstd::prelude::*;
use crate::token::TokenType;

verus! {

pub open spec fn is_digit(c: char) -> bool {
    '0' <= c <= '9'
}

pub open spec fn is_word_start(c: char) -> bool {
    ('a' <= c <= 'z') || ('A' <= c <= 'Z') || c == '_'
}

pub open spec fn is_word_part(c: char) -> bool {
    is_word_start(c) || is_digit(c)
}

pub open spec fn is_blank(c: char) -> bool {
    c == ' ' || c == '\r' || c == '\t' || c == '\n'
}

/// The first position from `pos` on that holds no digit.
pub open spec fn digits_end(src: Seq<char>, pos: int) -> int
    decreases src.len() - pos,
{
    if 0 <= pos < src.len() && is_digit(src[pos]) {
        digits_end(src, pos + 1)
    } else {
        pos
    }
}

/// The first position from `pos` on that holds no character of a word.
pub open spec fn word_end(src: Seq<char>, pos: int) -> int
    decreases src.len() - pos,
{
    if 0 <= pos < src.len() && is_word_part(src[pos]) {
        word_end(src, pos + 1)
    } else {
        pos
    }
}

/// The position of the first double quote from `pos` on, or the length of
/// the source if there is none.
pub open spec fn quote_position(src: Seq<char>, pos: int) -> int
    decreases src.len() - pos,
{
    if 0 <= pos < src.len() && src[pos] != '"' {
        quote_position(src, pos + 1)
    } else {
        pos
    }
}

/// The number of line ends in `src[from..to]`.
pub open spec fn newlines(src: Seq<char>, from: int, to: int) -> int
    decreases to - from,
{
    if 0 <= from < to <= src.len() {
        newlines(src, from, to - 1) + if src[to - 1] == '\n' {
            1int
        } else {
            0int
        }
    } else {
        0
    }
}

/// Where the next lexeme starts, and on which line: blanks and comments are
/// passed over, and each line end counts. `in_comment` says that `pos` lies
/// inside a comment, which runs up to the end of its line.
pub open spec fn skip_trivia(src: Seq<char>, pos: int, line: int, in_comment: bool) -> (int, int)
    decreases src.len() - pos, if in_comment { 1int } else { 0int },
{
    if pos < 0 || pos >= src.len() {
        (pos, line)
    } else if in_comment {
        if src[pos] == '\n' {
            skip_trivia(src, pos, line, false)
        } else {
            skip_trivia(src, pos + 1, line, true)
        }
    } else if src[pos] == '\n' {
        skip_trivia(src, pos + 1, line + 1, false)
    } else if is_blank(src[pos]) {
        skip_trivia(src, pos + 1, line, false)
    } else if src[pos] == '/' && pos + 1 < src.len() && src[pos + 1] == '/' {
        skip_trivia(src, pos + 2, line, true)
    } else {
        (pos, line)
    }
}

/// The kind of a word: one of the sixteen keywords, or an identifier.
pub open spec fn word_kind(text: Seq<char>) -> TokenType {
    if text == "and"@ {
        TokenType::AND
    } else if text == "class"@ {
        TokenType::CLASS
    } else if text == "else"@ {
        TokenType::ELSE
    } else if text == "false"@ {
        TokenType::FALSE
    } else if text == "for"@ {
        TokenType::FOR
    } else if text == "fun"@ {
        TokenType::FUN
    } else if text == "if"@ {
        TokenType::IF
    } else if text == "nil"@ {
        TokenType::NIL
    } else if text == "or"@ {
        TokenType::OR
    } else if text == "print"@ {
        TokenType::PRINT
    } else if text == "return"@ {
        TokenType::RETURN
    } else if text == "super"@ {
        TokenType::SUPER
    } else if text == "this"@ {
        TokenType::THIS
    } else if text == "true"@ {
        TokenType::TRUE
    } else if text == "var"@ {
        TokenType::VAR
    } else if text == "while"@ {
        TokenType::WHILE
    } else {
        TokenType::IDENTIFIER
    }
}

/// What a lexeme is.
pub enum LexKind {
    /// A token of the given kind.
    Token(TokenType),
    /// A string whose closing quote is missing.
    UnterminatedString,
    /// A character with which no token begins.
    UnexpectedCharacter,
}

/// A lexeme: its kind, the span `start..end` that it covers, and the line on
/// which it ends.
pub struct Lexeme {
    pub kind: LexKind,
    pub start: int,
    pub end: int,
    pub line: int,
}

/// The kind of the mark that begins with `c`, where `eq` says that `=` follows it.
pub open spec fn mark_kind(c: char, eq: bool) -> Option<TokenType> {
    if c == '(' {
        Some(TokenType::LEFT_PAREN)
    } else if c == ')' {
        Some(TokenType::RIGHT_PAREN)
    } else if c == '{' {
        Some(TokenType::LEFT_BRACE)
    } else if c == '}' {
        Some(TokenType::RIGHT_BRACE)
    } else if c == ';' {
        Some(TokenType::SEMICOLON)
    } else if c == ',' {
        Some(TokenType::COMMA)
    } else if c == '.' {
        Some(TokenType::DOT)
    } else if c == '-' {
        Some(TokenType::MINUS)
    } else if c == '+' {
        Some(TokenType::PLUS)
    } else if c == '/' {
        Some(TokenType::SLASH)
    } else if c == '*' {
        Some(TokenType::STAR)
    } else if c == '!' {
        Some(if eq { TokenType::BANG_EQUAL } else { TokenType::BANG })
    } else if c == '=' {
        Some(if eq { TokenType::EQUAL_EQUAL } else { TokenType::EQUAL })
    } else if c == '<' {
        Some(if eq { TokenType::LESS_EQUAL } else { TokenType::LESS })
    } else if c == '>' {
        Some(if eq { TokenType::GREATER_EQUAL } else { TokenType::GREATER })
    } else {
        None
    }
}

/// Whether a mark of this kind is two characters long.
pub open spec fn is_double_mark(kind: TokenType) -> bool {
    kind == TokenType::BANG_EQUAL || kind == TokenType::EQUAL_EQUAL || kind
        == TokenType::LESS_EQUAL || kind == TokenType::GREATER_EQUAL
}

/// Where a number that starts at `start` ends: after its digits, and after
/// the fraction if a dot and at least one digit follow them.
pub open spec fn number_end(src: Seq<char>, start: int) -> int {
    let whole = digits_end(src, start);
    if whole + 1 < src.len() && src[whole] == '.' && is_digit(src[whole + 1]) {
        digits_end(src, whole + 1)
    } else {
        whole
    }
}

/// The lexeme that begins at `start`, where something other than a blank or a
/// comment stands, if `start` is inside the source.
pub open spec fn lexeme_at(src: Seq<char>, start: int, line: int) -> Lexeme {
    if start < 0 || start >= src.len() {
        Lexeme { kind: LexKind::Token(TokenType::EOF), start, end: start, line }
    } else {
        let c = src[start];
        let eq = start + 1 < src.len() && src[start + 1] == '=';
        if mark_kind(c, eq) is Some {
            let kind = mark_kind(c, eq)->0;
            Lexeme {
                kind: LexKind::Token(kind),
                start,
                end: if is_double_mark(kind) { start + 2 } else { start + 1 },
                line,
            }
        } else if c == '"' {
            let close = quote_position(src, start + 1);
            if close < src.len() {
                Lexeme {
                    kind: LexKind::Token(TokenType::STRING),
                    start,
                    end: close + 1,
                    line: line + newlines(src, start + 1, close),
                }
            } else {
                Lexeme {
                    kind: LexKind::UnterminatedString,
                    start,
                    end: close,
                    line: line + newlines(src, start + 1, close),
                }
            }
        } else if is_digit(c) {
            Lexeme { kind: LexKind::Token(TokenType::NUMBER), start, end: number_end(src, start), line }
        } else if is_word_start(c) {
            let end = word_end(src, start);
            Lexeme { kind: LexKind::Token(word_kind(src.subrange(start, end))), start, end, line }
        } else {
            Lexeme { kind: LexKind::UnexpectedCharacter, start, end: start + 1, line }
        }
    }
}

/// The next lexeme from `pos` on, where the line count stands at `line`.
pub open spec fn next_lexeme(src: Seq<char>, pos: int, line: int) -> Lexeme {
    let (start, at_line) = skip_trivia(src, pos, line, false);
    lexeme_at(src, start, at_line)
}

/// A lexeme never ends before the position from which it was looked for, and
/// ends inside the source; all but the end of the input are not empty.
pub proof fn lexeme_bounds(src: Seq<char>, pos: int, line: int)
    requires
        0 <= pos <= src.len(),
    ensures
        pos <= next_lexeme(src, pos, line).start <= next_lexeme(src, pos, line).end <= src.len(),
        line <= next_lexeme(src, pos, line).line,
        next_lexeme(src, pos, line).line - line <= next_lexeme(src, pos, line).end - pos,
        next_lexeme(src, pos, line).kind != LexKind::Token(TokenType::EOF) ==> next_lexeme(
            src,
            pos,
            line,
        ).start < next_lexeme(src, pos, line).end,
        next_lexeme(src, pos, line).kind == LexKind::Token(TokenType::EOF) ==> next_lexeme(
            src,
            pos,
            line,
        ).end == src.len(),
        next_lexeme(src, pos, line).kind == LexKind::Token(TokenType::STRING) ==> next_lexeme(
            src,
            pos,
            line,
        ).start + 2 <= next_lexeme(src, pos, line).end,
{
    trivia_bounds(src, pos, line, false);
    let (start, at_line) = skip_trivia(src, pos, line, false);
    if start < src.len() {
        digits_bounds(src, start);
        let whole = digits_end(src, start);
        if whole + 1 < src.len() {
            digits_bounds(src, whole + 1);
        }
        word_bounds(src, start);
        quote_bounds(src, start + 1);
        newlines_bounds(src, start + 1, quote_position(src, start + 1));
        reveal_strlit("and");
        reveal_strlit("class");
        reveal_strlit("else");
        reveal_strlit("false");
        reveal_strlit("for");
        reveal_strlit("fun");
        reveal_strlit("if");
        reveal_strlit("nil");
        reveal_strlit("or");
        reveal_strlit("print");
        reveal_strlit("return");
        reveal_strlit("super");
        reveal_strlit("this");
        reveal_strlit("true");
        reveal_strlit("var");
        reveal_strlit("while");
    }
}

pub proof fn trivia_bounds(src: Seq<char>, pos: int, line: int, in_comment: bool)
    requires
        0 <= pos <= src.len(),
    ensures
        pos <= skip_trivia(src, pos, line, in_comment).0 <= src.len(),
        line <= skip_trivia(src, pos, line, in_comment).1,
        skip_trivia(src, pos, line, in_comment).1 - line <= skip_trivia(src, pos, line, in_comment).0
            - pos,
    decreases src.len() - pos, if in_comment { 1int } else { 0int },
{
    if pos >= src.len() {
    } else if in_comment {
        if src[pos] == '\n' {
            trivia_bounds(src, pos, line, false);
        } else {
            trivia_bounds(src, pos + 1, line, true);
        }
    } else if src[pos] == '\n' {
        trivia_bounds(src, pos + 1, line + 1, false);
    } else if is_blank(src[pos]) {
        trivia_bounds(src, pos + 1, line, false);
    } else if src[pos] == '/' && pos + 1 < src.len() && src[pos + 1] == '/' {
        trivia_bounds(src, pos + 2, line, true);
    }
}

pub proof fn digits_bounds(src: Seq<char>, pos: int)
    requires
        0 <= pos <= src.len(),
    ensures
        pos <= digits_end(src, pos) <= src.len(),
        pos < src.len() && is_digit(src[pos]) ==> pos < digits_end(src, pos),
    decreases src.len() - pos,
{
    if pos < src.len() && is_digit(src[pos]) {
        digits_bounds(src, pos + 1);
    }
}

pub proof fn word_bounds(src: Seq<char>, pos: int)
    requires
        0 <= pos <= src.len(),
    ensures
        pos <= word_end(src, pos) <= src.len(),
        pos < src.len() && is_word_part(src[pos]) ==> pos < word_end(src, pos),
    decreases src.len() - pos,
{
    if pos < src.len() && is_word_part(src[pos]) {
        word_bounds(src, pos + 1);
    }
}

pub proof fn quote_bounds(src: Seq<char>, pos: int)
    requires
        0 <= pos <= src.len(),
    ensures
        pos <= quote_position(src, pos) <= src.len(),
    decreases src.len() - pos,
{
    if pos < src.len() && src[pos] != '"' {
        quote_bounds(src, pos + 1);
    }
}

pub proof fn newlines_bounds(src: Seq<char>, from: int, to: int)
    requires
        0 <= from <= to <= src.len(),
    ensures
        0 <= newlines(src, from, to) <= to - from,
    decreases to - from,
{
    if from < to {
        newlines_bounds(src, from, to - 1);
    }
}

/// Where the passing over of blanks and comments stops inside the source, a
/// lexeme begins: neither a blank nor a comment stands there.
pub proof fn trivia_stops_at_a_lexeme(src: Seq<char>, pos: int, line: int, in_comment: bool)
    requires
        0 <= pos <= src.len(),
    ensures
        ({
            let stop = skip_trivia(src, pos, line, in_comment).0;
            stop < src.len() ==> !is_blank(src[stop]) && !(src[stop] == '/' && stop + 1 < src.len()
                && src[stop + 1] == '/')
        }),
    decreases src.len() - pos, if in_comment { 1int } else { 0int },
{
    if pos >= src.len() {
    } else if in_comment {
        if src[pos] == '\n' {
            trivia_stops_at_a_lexeme(src, pos, line, false);
        } else {
            trivia_stops_at_a_lexeme(src, pos + 1, line, true);
        }
    } else if src[pos] == '\n' {
        trivia_stops_at_a_lexeme(src, pos + 1, line + 1, false);
    } else if is_blank(src[pos]) {
        trivia_stops_at_a_lexeme(src, pos + 1, line, false);
    } else if src[pos] == '/' && pos + 1 < src.len() && src[pos + 1] == '/' {
        trivia_stops_at_a_lexeme(src, pos + 2, line, true);
    }
}

proof fn digits_in_slice(src: Seq<char>, a: int, b: int, p: int)
    requires
        0 <= a <= p <= b <= src.len(),
    ensures
        digits_end(src.subrange(a, b), p - a) == if digits_end(src, p) <= b {
            digits_end(src, p) - a
        } else {
            b - a
        },
    decreases b - p,
{
    digits_bounds(src, p);
    if p < b && is_digit(src[p]) {
        assert(src.subrange(a, b)[p - a] == src[p]);
        digits_in_slice(src, a, b, p + 1);
    }
}

proof fn word_in_slice(src: Seq<char>, a: int, b: int, p: int)
    requires
        0 <= a <= p <= b <= src.len(),
    ensures
        word_end(src.subrange(a, b), p - a) == if word_end(src, p) <= b {
            word_end(src, p) - a
        } else {
            b - a
        },
    decreases b - p,
{
    word_bounds(src, p);
    if p < b && is_word_part(src[p]) {
        assert(src.subrange(a, b)[p - a] == src[p]);
        word_in_slice(src, a, b, p + 1);
    }
}

proof fn quote_in_slice(src: Seq<char>, a: int, b: int, p: int)
    requires
        0 <= a <= p <= b <= src.len(),
    ensures
        quote_position(src.subrange(a, b), p - a) == if quote_position(src, p) <= b {
            quote_position(src, p) - a
        } else {
            b - a
        },
    decreases b - p,
{
    quote_bounds(src, p);
    if p < b && src[p] != '"' {
        assert(src.subrange(a, b)[p - a] == src[p]);
        quote_in_slice(src, a, b, p + 1);
    }
}

/// Scanning the text of a token, from any line count `anew`, gives that
/// token again: the same kind, over the whole text. A scan neither splits a
/// token that it made nor joins anything to it.
pub proof fn rescanning_gives_the_same_token(src: Seq<char>, pos: int, line: int, anew: int)
    requires
        0 <= pos <= src.len(),
        next_lexeme(src, pos, line).kind is Token,
        next_lexeme(src, pos, line).kind != LexKind::Token(TokenType::EOF),
    ensures
        ({
            let lx = next_lexeme(src, pos, line);
            let text = src.subrange(lx.start, lx.end);
            let again = next_lexeme(text, 0, anew);
            &&& again.kind == lx.kind
            &&& again.start == 0
            &&& again.end == text.len()
        }),
{
    let lx = next_lexeme(src, pos, line);
    let text = src.subrange(lx.start, lx.end);
    lexeme_bounds(src, pos, line);
    trivia_bounds(src, pos, line, false);
    trivia_stops_at_a_lexeme(src, pos, line, false);
    let start = lx.start;
    let c = src[start];
    assert(text[0] == c);
    assert(text.len() >= 2 ==> text[1] == src[start + 1]);
    let eq = start + 1 < src.len() && src[start + 1] == '=';
    if mark_kind(c, eq) is Some {
        assert(skip_trivia(text, 0, anew, false) == (0int, anew));
    } else if c == '"' {
        quote_bounds(src, start + 1);
        quote_in_slice(src, start, lx.end, start + 1);
        assert(skip_trivia(text, 0, anew, false) == (0int, anew));
    } else if is_digit(c) {
        let whole = digits_end(src, start);
        digits_bounds(src, start);
        digits_in_slice(src, start, lx.end, start);
        if whole + 1 < src.len() && src[whole] == '.' && is_digit(src[whole + 1]) {
            digits_bounds(src, whole + 1);
            digits_in_slice(src, start, lx.end, whole + 1);
            assert(text[whole - start] == src[whole]);
            assert(text[whole + 1 - start] == src[whole + 1]);
        }
        assert(skip_trivia(text, 0, anew, false) == (0int, anew));
    } else {
        word_bounds(src, start);
        word_in_slice(src, start, lx.end, start);
        assert(text.subrange(0, text.len() as int) =~= text);
        assert(skip_trivia(text, 0, anew, false) == (0int, anew));
    }
}

/// The lexeme `lx` moved by `by` positions.
pub open spec fn shifted(lx: Lexeme, by: int) -> Lexeme {
    Lexeme { kind: lx.kind, start: lx.start + by, end: lx.end + by, line: lx.line }
}

proof fn digits_stop(src: Seq<char>, p: int, q: int)
    requires
        0 <= p <= q < src.len(),
        !is_digit(src[q]),
    ensures
        digits_end(src, p) <= q,
    decreases q - p,
{
    if p < q && is_digit(src[p]) {
        digits_stop(src, p + 1, q);
    }
}

proof fn word_stops(src: Seq<char>, p: int, q: int)
    requires
        0 <= p <= q < src.len(),
        !is_word_part(src[q]),
    ensures
        word_end(src, p) <= q,
    decreases q - p,
{
    if p < q && is_word_part(src[p]) {
        word_stops(src, p + 1, q);
    }
}

proof fn newlines_in_slice(src: Seq<char>, a: int, b: int, from: int, to: int)
    requires
        0 <= a <= from <= to <= b <= src.len(),
    ensures
        newlines(src.subrange(a, b), from - a, to - a) == newlines(src, from, to),
    decreases to - from,
{
    if from < to {
        newlines_in_slice(src, a, b, from, to - 1);
        assert(src.subrange(a, b)[to - 1 - a] == src[to - 1]);
    }
}

proof fn trivia_in_suffix(src: Seq<char>, a: int, pos: int, line: int, in_comment: bool)
    requires
        0 <= a <= pos <= src.len(),
    ensures
        skip_trivia(src.subrange(a, src.len() as int), pos - a, line, in_comment) == (
            skip_trivia(src, pos, line, in_comment).0 - a,
            skip_trivia(src, pos, line, in_comment).1,
        ),
    decreases src.len() - pos, if in_comment { 1int } else { 0int },
{
    let rest = src.subrange(a, src.len() as int);
    if pos < src.len() {
        assert(rest[pos - a] == src[pos]);
        if pos + 1 < src.len() {
            assert(rest[pos + 1 - a] == src[pos + 1]);
        }
        if in_comment {
            if src[pos] == '\n' {
                trivia_in_suffix(src, a, pos, line, false);
            } else {
                trivia_in_suffix(src, a, pos + 1, line, true);
            }
        } else if src[pos] == '\n' {
            trivia_in_suffix(src, a, pos + 1, line + 1, false);
        } else if is_blank(src[pos]) {
            trivia_in_suffix(src, a, pos + 1, line, false);
        } else if src[pos] == '/' && pos + 1 < src.len() && src[pos + 1] == '/' {
            trivia_in_suffix(src, a, pos + 2, line, true);
        }
    }
}

/// What is scanned from a position on depends on nothing before it: the
/// next lexeme of a source from `pos` on is the next lexeme of the rest of the
/// source from `a` on, moved by `a`.
pub proof fn lexeme_in_suffix(src: Seq<char>, a: int, pos: int, line: int)
    requires
        0 <= a <= pos <= src.len(),
    ensures
        next_lexeme(src, pos, line) == shifted(
            next_lexeme(src.subrange(a, src.len() as int), pos - a, line),
            a,
        ),
{
    let n = src.len() as int;
    let rest = src.subrange(a, n);
    trivia_in_suffix(src, a, pos, line, false);
    trivia_bounds(src, pos, line, false);
    let (start, at_line) = skip_trivia(src, pos, line, false);
    if start < n {
        assert(rest[start - a] == src[start]);
        if start + 1 < n {
            assert(rest[start + 1 - a] == src[start + 1]);
        }
        let c = src[start];
        let eq = start + 1 < n && src[start + 1] == '=';
        if mark_kind(c, eq) is Some {
        } else if c == '"' {
            quote_bounds(src, start + 1);
            quote_in_slice(src, a, n, start + 1);
            let close = quote_position(src, start + 1);
            newlines_in_slice(src, a, n, start + 1, close);
        } else if is_digit(c) {
            digits_bounds(src, start);
            digits_in_slice(src, a, n, start);
            let whole = digits_end(src, start);
            if whole < n {
                assert(rest[whole - a] == src[whole]);
            }
            if whole + 1 < n {
                assert(rest[whole + 1 - a] == src[whole + 1]);
                digits_bounds(src, whole + 1);
                digits_in_slice(src, a, n, whole + 1);
            }
        } else if is_word_start(c) {
            word_bounds(src, start);
            word_in_slice(src, a, n, start);
            let end = word_end(src, start);
            assert(rest.subrange(start - a, end - a) =~= src.subrange(start, end));
        }
    }
}

/// A token that fills a text is found again where a blank and anything else
/// follow the text: what stands behind the blank changes nothing.
pub proof fn lexeme_before_a_blank(text: Seq<char>, rest: Seq<char>, line: int)
    requires
        next_lexeme(text, 0, line).kind is Token,
        next_lexeme(text, 0, line).kind != LexKind::Token(TokenType::EOF),
        next_lexeme(text, 0, line).start == 0,
        next_lexeme(text, 0, line).end == text.len(),
    ensures
        next_lexeme(text + seq![' '] + rest, 0, line) == next_lexeme(text, 0, line),
{
    let whole = text + seq![' '] + rest;
    let b = text.len() as int;
    assert(whole.subrange(0, b) =~= text);
    assert(whole[b] == ' ');
    lexeme_bounds(text, 0, line);
    trivia_bounds(text, 0, line, false);
    assert(whole[0] == text[0]);
    if b >= 2 {
        assert(whole[1] == text[1]);
    }
    let c = text[0];
    assert(skip_trivia(text, 0, line, false) == (0int, line));
    assert(skip_trivia(whole, 0, line, false) == (0int, line));
    let eq = 1 < b && text[1] == '=';
    if mark_kind(c, eq) is Some {
    } else if c == '"' {
        quote_bounds(whole, 1);
        quote_bounds(text, 1);
        quote_in_slice(whole, 0, b, 1);
        let close = quote_position(text, 1);
        newlines_in_slice(whole, 0, b, 1, close);
    } else if is_digit(c) {
        digits_bounds(text, 0);
        digits_bounds(whole, 0);
        digits_in_slice(whole, 0, b, 0);
        let first = digits_end(text, 0);
        digits_stop(whole, 0, b);
        if first < b {
            assert(whole[first] == text[first]);
            assert(first + 1 < b);
            assert(whole[first + 1] == text[first + 1]);
            digits_bounds(text, first + 1);
            digits_bounds(whole, first + 1);
            digits_in_slice(whole, 0, b, first + 1);
            digits_stop(whole, first + 1, b);
        }
    } else if is_word_start(c) {
        word_bounds(text, 0);
        word_bounds(whole, 0);
        word_in_slice(whole, 0, b, 0);
        word_stops(whole, 0, b);
        assert(text.subrange(0, b) =~= text);
    }
}

} // verus!
