//! The incremental scanner: one token for each call, from a cursor that moves
//! through the source.

use vstd::prelude::*;
use crate::custom_error::{CompileError, CompileErrorView};
use crate::lexer::{
    digits_end, is_blank, is_digit, is_word_start, lexeme_at, newlines, next_lexeme, number_end,
    quote_position, skip_trivia, word_end, word_kind, LexKind, Lexeme, quote_bounds, trivia_bounds,
};
use crate::text::{chars_of, string_of};
use crate::token::{Token, TokenType};
use vstd::string::StringExecFns;

verus! {

/// The error that the scanner reports for a lexeme that is no token.
pub open spec fn lexeme_error(src: Seq<char>, lx: Lexeme) -> CompileErrorView {
    CompileErrorView {
        line: lx.line as nat,
        literal: src.subrange(lx.start, lx.end),
        msg: if lx.kind == LexKind::UnterminatedString {
            "unterminated string"@
        } else {
            "unexpected character"@
        },
    }
}

/// The token that the scanner makes of a lexeme that is one.
pub open spec fn lexeme_token(lx: Lexeme) -> Token {
    Token {
        typ: match lx.kind {
            LexKind::Token(kind) => kind,
            _ => TokenType::EOF,
        },
        start: lx.start as usize,
        end: lx.end as usize,
        line: lx.line as usize,
    }
}

/// A text is a given word exactly if it has the word's length, begins as the
/// word does and ends in the word's tail.
proof fn word_by_parts(text: Seq<char>, word: Seq<char>, k: int, tail: Seq<char>)
    requires
        0 <= k <= word.len(),
        tail.len() == word.len() - k,
        forall|i: int| 0 <= i < tail.len() ==> tail[i] == word[k + i],
    ensures
        text == word <==> {
            &&& text.len() == word.len()
            &&& forall|i: int| 0 <= i < k ==> text[i] == word[i]
            &&& text.subrange(k, k + tail.len()) == tail
        },
{
    if text.len() == word.len() {
        if text == word {
            assert(text.subrange(k, k + tail.len()) =~= tail);
        }
        if (forall|i: int| 0 <= i < k ==> text[i] == word[i]) && text.subrange(k, k + tail.len())
            == tail {
            assert forall|i: int| 0 <= i < text.len() implies text[i] == word[i] by {
                if i >= k {
                    assert(text.subrange(k, k + tail.len())[i - k] == tail[i - k]);
                }
            }
            assert(text =~= word);
        }
    }
}

pub fn is_digit_char(c: char) -> (r: bool)
    ensures
        r == is_digit(c),
{
    c >= '0' && c <= '9'
}

pub fn is_blank_char(c: char) -> (r: bool)
    ensures
        r == is_blank(c),
{
    c == ' ' || c == '\r' || c == '\t' || c == '\n'
}

/// A cursor over the characters of a source.
pub struct Scanner {
    start: usize,
    current: usize,
    line: usize,
    source: Vec<char>,
}

impl Scanner {
    /// The characters of the source.
    pub closed spec fn text(&self) -> Seq<char> {
        self.source@
    }

    /// The position of the cursor.
    pub closed spec fn position(&self) -> int {
        self.current as int
    }

    /// The position at which the last lexeme began.
    pub closed spec fn mark(&self) -> int {
        self.start as int
    }

    /// The line on which the cursor stands, counted from 1.
    pub closed spec fn line_count(&self) -> int {
        self.line as int
    }

    /// The cursor lies inside the source, behind the start of the last lexeme,
    /// no more line ends were counted than characters were passed, and the
    /// line count fits a `usize`.
    pub closed spec fn well_formed(&self) -> bool {
        &&& self.start <= self.current <= self.source.len() < usize::MAX
        &&& 1 <= self.line <= self.current + 1
    }

    /// What a well-formed scanner's cursor and line count are bounded by.
    pub proof fn bounds(&self)
        requires
            self.well_formed(),
        ensures
            0 <= self.mark() <= self.position() <= self.text().len() < usize::MAX,
            1 <= self.line_count() <= self.position() + 1,
    {
    }

    /// A scanner at the start of `source`, on line 1.
    pub fn new(source: String) -> (r: Self)
        requires
            source@.len() < usize::MAX,
        ensures
            r.well_formed(),
            r.text() == source@,
            r.position() == 0,
            r.mark() == 0,
            r.line_count() == 1,
    {
        Self { start: 0, current: 0, line: 1, source: chars_of(source.as_str()) }
    }

    /// The characters of the source.
    pub fn source(&self) -> (r: &Vec<char>)
        ensures
            r@ == self.text(),
    {
        &self.source
    }

    /// How far the cursor has come.
    pub fn offset(&self) -> (r: usize)
        ensures
            r == self.position(),
    {
        self.current
    }

    fn get(&self, index: usize) -> (c: char)
        requires
            index < self.source.len(),
        ensures
            c == self.source@[index as int],
    {
        self.source[index]
    }

    fn advance(&mut self) -> (c: char)
        requires
            old(self).well_formed(),
            old(self).current < old(self).source.len(),
        ensures
            final(self).well_formed(),
            final(self).source == old(self).source,
            final(self).start == old(self).start,
            final(self).line == old(self).line,
            final(self).current == old(self).current + 1,
            c == old(self).source@[old(self).current as int],
    {
        self.current += 1;
        self.get(self.current - 1)
    }

    /// The character under the cursor, or NUL at the end.
    fn peek(&self) -> (c: char)
        ensures
            self.current < self.source.len() ==> c == self.source@[self.current as int],
            self.current >= self.source.len() ==> c == '\0',
    {
        if self.current < self.source.len() {
            self.get(self.current)
        } else {
            '\0'
        }
    }

    /// The character behind the one under the cursor, if there is one.
    fn peek_next(&self) -> (c: Option<char>)
        requires
            self.well_formed(),
        ensures
            self.current + 1 < self.source.len() ==> c == Some(self.source@[self.current + 1]),
            self.current + 1 >= self.source.len() ==> c.is_none(),
    {
        if self.current < self.source.len() && self.current + 1 < self.source.len() {
            Some(self.get(self.current + 1))
        } else {
            None
        }
    }

    /// Passes the character under the cursor if it is `expected`.
    fn is_match(&mut self, expected: char) -> (r: bool)
        requires
            old(self).well_formed(),
        ensures
            final(self).well_formed(),
            final(self).source == old(self).source,
            final(self).start == old(self).start,
            final(self).line == old(self).line,
            r == (old(self).current < old(self).source.len()
                && old(self).source@[old(self).current as int] == expected),
            final(self).current == if r {
                old(self).current + 1
            } else {
                old(self).current as int
            },
    {
        if self.is_at_end() {
            return false;
        }
        if self.peek() != expected {
            return false;
        }
        self.current += 1;
        true
    }

    fn is_at_end(&self) -> (r: bool)
        ensures
            r == (self.current >= self.source.len()),
    {
        self.current >= self.source.len()
    }

    fn is_legal_ident(c: char) -> (r: bool)
        ensures
            r == is_word_start(c),
    {
        (c >= 'a' && c <= 'z') || (c >= 'A' && c <= 'Z') || c == '_'
    }

    /// Passes over blanks and comments, counting the line ends.
    fn skip_whitespace(&mut self)
        requires
            old(self).well_formed(),
        ensures
            final(self).well_formed(),
            final(self).source == old(self).source,
            (final(self).current as int, final(self).line as int) == skip_trivia(
                old(self).source@,
                old(self).current as int,
                old(self).line as int,
                false,
            ),
    {
        let ghost goal = skip_trivia(self.source@, self.current as int, self.line as int, false);
        loop
            invariant
                self.well_formed(),
                self.source == old(self).source,
                self.current <= self.source.len(),
                skip_trivia(self.source@, self.current as int, self.line as int, false) == goal,
            ensures
                self.well_formed(),
                self.source == old(self).source,
                (self.current as int, self.line as int) == goal,
            decreases self.source.len() - self.current,
        {
            if self.is_at_end() {
                break ;
            }
            let c = self.peek();
            if c == '\n' {
                self.current += 1;
                self.line += 1;
            } else if is_blank_char(c) {
                self.current += 1;
            } else if c == '/' {
                let next = self.peek_next();
                if next == Some('/') {
                    let ghost before = self.current;
                    self.current += 2;
                    while !self.is_at_end() && self.peek() != '\n'
                        invariant
                            self.well_formed(),
                            before < self.current,
                            self.source == old(self).source,
                            self.current <= self.source.len(),
                            skip_trivia(self.source@, self.current as int, self.line as int, true)
                                == goal,
                        decreases self.source.len() - self.current,
                    {
                        self.current += 1;
                    }
                } else {
                    break ;
                }
            } else {
                break ;
            }
        }
    }

    /// Scans the rest of a number whose first digit was passed.
    fn scan_number(&mut self) -> (r: Result<Token, CompileError>)
        requires
            old(self).well_formed(),
            old(self).start + 1 == old(self).current,
            is_digit(old(self).source@[old(self).start as int]),
        ensures
            final(self).well_formed(),
            final(self).source == old(self).source,
            final(self).start == old(self).start,
            final(self).line == old(self).line,
            final(self).current == number_end(old(self).source@, old(self).start as int),
            r == Ok::<Token, CompileError>(
                Token {
                    typ: TokenType::NUMBER,
                    start: final(self).start,
                    end: final(self).current,
                    line: final(self).line,
                },
            ),
    {
        while is_digit_char(self.peek())
            invariant
                self.well_formed(),
                self.source == old(self).source,
                self.start == old(self).start,
                self.line == old(self).line,
                self.start < self.current,
                digits_end(self.source@, self.current as int) == digits_end(
                    self.source@,
                    self.start as int,
                ),
            decreases self.source.len() - self.current,
        {
            self.current += 1;
        }
        let next = self.peek_next();
        let fraction = match next {
            Some(d) => self.peek() == '.' && is_digit_char(d),
            None => false,
        };
        if fraction {
            self.current += 1;
            while is_digit_char(self.peek())
                invariant
                    self.well_formed(),
                    self.source == old(self).source,
                    self.start == old(self).start,
                    self.line == old(self).line,
                    self.start < self.current,
                    digits_end(self.source@, self.current as int) == number_end(
                        self.source@,
                        self.start as int,
                    ),
                decreases self.source.len() - self.current,
            {
                self.current += 1;
            }
        }
        self.make_token(TokenType::NUMBER)
    }

    /// Scans the rest of a string whose opening quote was passed.
    fn scan_string(&mut self) -> (r: Result<Token, CompileError>)
        requires
            old(self).well_formed(),
            old(self).start + 1 == old(self).current,
            old(self).source@[old(self).start as int] == '"',
        ensures
            final(self).well_formed(),
            final(self).source == old(self).source,
            final(self).start == old(self).start,
            ({
                let lx = lexeme_at(old(self).source@, old(self).start as int, old(self).line as int);
                &&& final(self).current == lx.end
                &&& final(self).line == lx.line
                &&& lx.kind == LexKind::Token(TokenType::STRING) ==> r == Ok::<Token, CompileError>(
                    lexeme_token(lx),
                )
                &&& lx.kind != LexKind::Token(TokenType::STRING) ==> r is Err && r->Err_0@
                    == lexeme_error(old(self).source@, lx)
            }),
    {
        proof {
            quote_bounds(self.source@, self.start + 1);
        }
        while !self.is_at_end() && self.peek() != '"'
            invariant
                self.well_formed(),
                self.source == old(self).source,
                self.start == old(self).start,
                self.start < self.current <= self.source.len(),
                quote_position(self.source@, self.current as int) == quote_position(
                    self.source@,
                    self.start + 1,
                ),
                self.line == old(self).line + newlines(
                    self.source@,
                    self.start + 1,
                    self.current as int,
                ),
            decreases self.source.len() - self.current,
        {
            if self.peek() == '\n' {
                self.current += 1;
                self.line += 1;
            } else {
                self.current += 1;
            }
        }
        if self.is_match('"') {
            self.make_token(TokenType::STRING)
        } else {
            Err(
                CompileError::new(
                    self.line,
                    string_of(&self.source, self.start, self.current),
                    String::from_str("unterminated string"),
                ),
            )
        }
    }

    /// Scans the rest of a word whose first character was passed.
    fn scan_ident(&mut self) -> (r: Result<Token, CompileError>)
        requires
            old(self).well_formed(),
            old(self).start + 1 == old(self).current,
            is_word_start(old(self).source@[old(self).start as int]),
        ensures
            final(self).well_formed(),
            final(self).source == old(self).source,
            final(self).start == old(self).start,
            final(self).line == old(self).line,
            final(self).current == word_end(old(self).source@, old(self).start as int),
            r == Ok::<Token, CompileError>(
                Token {
                    typ: word_kind(
                        old(self).source@.subrange(
                            final(self).start as int,
                            final(self).current as int,
                        ),
                    ),
                    start: final(self).start,
                    end: final(self).current,
                    line: final(self).line,
                },
            ),
    {
        while Self::is_legal_ident(self.peek()) || is_digit_char(self.peek())
            invariant
                self.well_formed(),
                self.source == old(self).source,
                self.start == old(self).start,
                self.line == old(self).line,
                self.start < self.current,
                word_end(self.source@, self.current as int) == word_end(
                    self.source@,
                    self.start as int,
                ),
            decreases self.source.len() - self.current,
        {
            self.current += 1;
        }
        let typ = self.scan_ident_type();
        self.make_token(typ)
    }

    /// The kind of the word between the mark and the cursor.
    fn scan_ident_type(&self) -> (r: TokenType)
        requires
            self.well_formed(),
            self.start < self.current,
        ensures
            r == word_kind(self.source@.subrange(self.start as int, self.current as int)),
    {
        let ghost text = self.source@.subrange(self.start as int, self.current as int);
        proof {
            reveal_strlit("and");
            reveal_strlit("class");
            reveal_strlit("else");
            reveal_strlit("false");
            reveal_strlit("for");
            reveal_strlit("fun");
            reveal_strlit("if");
            reveal_strlit("nil");
            reveal_strlit("or");
            reveal_strlit("print");
            reveal_strlit("return");
            reveal_strlit("super");
            reveal_strlit("this");
            reveal_strlit("true");
            reveal_strlit("var");
            reveal_strlit("while");
            reveal_strlit("nd");
            reveal_strlit("lass");
            reveal_strlit("lse");
            reveal_strlit("f");
            reveal_strlit("il");
            reveal_strlit("r");
            reveal_strlit("rint");
            reveal_strlit("eturn");
            reveal_strlit("uper");
            reveal_strlit("ar");
            reveal_strlit("hile");
            reveal_strlit("n");
            reveal_strlit("is");
            reveal_strlit("ue");
            assert(text[0] == self.source@[self.start as int]);
            assert(text.len() >= 2 ==> text[1] == self.source@[self.start + 1]);
        }
        let first = self.get(self.start);
        let r = if first == 'a' {
            self.check_keyword(1, 2, "nd", TokenType::AND)
        } else if first == 'c' {
            self.check_keyword(1, 4, "lass", TokenType::CLASS)
        } else if first == 'e' {
            self.check_keyword(1, 3, "lse", TokenType::ELSE)
        } else if first == 'i' {
            self.check_keyword(1, 1, "f", TokenType::IF)
        } else if first == 'n' {
            self.check_keyword(1, 2, "il", TokenType::NIL)
        } else if first == 'o' {
            self.check_keyword(1, 1, "r", TokenType::OR)
        } else if first == 'p' {
            self.check_keyword(1, 4, "rint", TokenType::PRINT)
        } else if first == 'r' {
            self.check_keyword(1, 5, "eturn", TokenType::RETURN)
        } else if first == 's' {
            self.check_keyword(1, 4, "uper", TokenType::SUPER)
        } else if first == 'v' {
            self.check_keyword(1, 2, "ar", TokenType::VAR)
        } else if first == 'w' {
            self.check_keyword(1, 4, "hile", TokenType::WHILE)
        } else if first == 'f' && self.current - self.start > 1 {
            let second = self.get(self.start + 1);
            if second == 'a' {
                self.check_keyword(2, 3, "lse", TokenType::FALSE)
            } else if second == 'o' {
                self.check_keyword(2, 1, "r", TokenType::FOR)
            } else if second == 'u' {
                self.check_keyword(2, 1, "n", TokenType::FUN)
            } else {
                TokenType::IDENTIFIER
            }
        } else if first == 't' && self.current - self.start > 1 {
            let second = self.get(self.start + 1);
            if second == 'h' {
                self.check_keyword(2, 2, "is", TokenType::THIS)
            } else if second == 'r' {
                self.check_keyword(2, 2, "ue", TokenType::TRUE)
            } else {
                TokenType::IDENTIFIER
            }
        } else {
            TokenType::IDENTIFIER
        };
        proof {
            word_by_parts(text, "and"@, 1, "nd"@);
            word_by_parts(text, "class"@, 1, "lass"@);
            word_by_parts(text, "else"@, 1, "lse"@);
            word_by_parts(text, "if"@, 1, "f"@);
            word_by_parts(text, "nil"@, 1, "il"@);
            word_by_parts(text, "or"@, 1, "r"@);
            word_by_parts(text, "print"@, 1, "rint"@);
            word_by_parts(text, "return"@, 1, "eturn"@);
            word_by_parts(text, "super"@, 1, "uper"@);
            word_by_parts(text, "var"@, 1, "ar"@);
            word_by_parts(text, "while"@, 1, "hile"@);
            word_by_parts(text, "false"@, 2, "lse"@);
            word_by_parts(text, "for"@, 2, "r"@);
            word_by_parts(text, "fun"@, 2, "n"@);
            word_by_parts(text, "this"@, 2, "is"@);
            word_by_parts(text, "true"@, 2, "ue"@);
        }
        r
    }

    /// `typ` if the word is `skip + len` long and ends in `rest`, else `IDENTIFIER`.
    fn check_keyword(&self, skip: usize, len: usize, rest: &str, typ: TokenType) -> (r: TokenType)
        requires
            self.well_formed(),
            rest@.len() == len,
            skip + len <= 8,
        ensures
            r == if self.current - self.start == skip + len && self.source@.subrange(
                self.start as int,
                self.current as int,
            ).subrange(skip as int, skip + len) == rest@ {
                typ
            } else {
                TokenType::IDENTIFIER
            },
    {
        if self.current - self.start != skip + len {
            return TokenType::IDENTIFIER;
        }
        let from = self.start + skip;
        let ghost tail = self.source@.subrange(self.start as int, self.current as int).subrange(
            skip as int,
            skip + len,
        );
        let mut i: usize = 0;
        while i < len
            invariant
                i <= len,
                rest@.len() == len,
                from == self.start + skip,
                self.current - self.start == skip + len,
                self.current <= self.source.len(),
                tail == self.source@.subrange(self.start as int, self.current as int).subrange(
                    skip as int,
                    skip + len,
                ),
                tail.subrange(0, i as int) == rest@.subrange(0, i as int),
            decreases len - i,
        {
            if self.get(from + i) != rest.get_char(i) {
                assert(tail[i as int] != rest@[i as int]);
                return TokenType::IDENTIFIER;
            }
            i += 1;
            assert(tail.subrange(0, i as int) =~= rest@.subrange(0, i as int));
        }
        assert(rest@.subrange(0, len as int) =~= rest@);
        assert(tail.subrange(0, len as int) =~= tail);
        typ
    }

    fn make_token(&self, typ: TokenType) -> (r: Result<Token, CompileError>)
        ensures
            r == Ok::<Token, CompileError>(
                Token { typ, start: self.start, end: self.current, line: self.line },
            ),
    {
        Ok(Token { typ, start: self.start, end: self.current, line: self.line })
    }

    /// A token of kind `typ1` if `expected` follows and is passed, else of kind `typ2`.
    fn make_token_with_check(&mut self, typ1: TokenType, typ2: TokenType, expected: char) -> (r:
        Result<Token, CompileError>)
        requires
            old(self).well_formed(),
        ensures
            final(self).well_formed(),
            final(self).source == old(self).source,
            final(self).start == old(self).start,
            final(self).line == old(self).line,
            ({
                let follows = old(self).current < old(self).source.len()
                    && old(self).source@[old(self).current as int] == expected;
                &&& final(self).current == if follows {
                    old(self).current + 1
                } else {
                    old(self).current as int
                }
                &&& r == Ok::<Token, CompileError>(
                    Token {
                        typ: if follows {
                            typ1
                        } else {
                            typ2
                        },
                        start: final(self).start,
                        end: final(self).current,
                        line: final(self).line,
                    },
                )
            }),
    {
        if self.is_match(expected) {
            self.make_token(typ1)
        } else {
            self.make_token(typ2)
        }
    }

    /// Scans the next lexeme: a token, or the error for a string that is never
    /// closed or for a character that begins no token. Either way the cursor
    /// moves behind the lexeme, so that the next call goes on from there.
    pub fn scan_token(&mut self) -> (r: Result<Token, CompileError>)
        requires
            old(self).well_formed(),
        ensures
            final(self).well_formed(),
            final(self).text() == old(self).text(),
            ({
                let lx = next_lexeme(
                    old(self).text(),
                    old(self).position(),
                    old(self).line_count(),
                );
                &&& final(self).position() == lx.end
                &&& final(self).line_count() == lx.line
                &&& final(self).mark() == lx.start
                &&& lx.kind is Token ==> r == Ok::<Token, CompileError>(lexeme_token(lx))
                &&& !(lx.kind is Token) ==> r is Err && r->Err_0@ == lexeme_error(
                    old(self).text(),
                    lx,
                )
            }),
    {
        self.skip_whitespace();
        proof {
            trivia_bounds(old(self).source@, old(self).current as int, old(self).line as int, false);
        }
        self.start = self.current;
        if self.is_at_end() {
            return self.make_token(TokenType::EOF);
        }
        let ch = self.advance();
        if ch == '(' {
            self.make_token(TokenType::LEFT_PAREN)
        } else if ch == ')' {
            self.make_token(TokenType::RIGHT_PAREN)
        } else if ch == '{' {
            self.make_token(TokenType::LEFT_BRACE)
        } else if ch == '}' {
            self.make_token(TokenType::RIGHT_BRACE)
        } else if ch == ';' {
            self.make_token(TokenType::SEMICOLON)
        } else if ch == ',' {
            self.make_token(TokenType::COMMA)
        } else if ch == '.' {
            self.make_token(TokenType::DOT)
        } else if ch == '-' {
            self.make_token(TokenType::MINUS)
        } else if ch == '+' {
            self.make_token(TokenType::PLUS)
        } else if ch == '/' {
            self.make_token(TokenType::SLASH)
        } else if ch == '*' {
            self.make_token(TokenType::STAR)
        } else if ch == '!' {
            self.make_token_with_check(TokenType::BANG_EQUAL, TokenType::BANG, '=')
        } else if ch == '=' {
            self.make_token_with_check(TokenType::EQUAL_EQUAL, TokenType::EQUAL, '=')
        } else if ch == '<' {
            self.make_token_with_check(TokenType::LESS_EQUAL, TokenType::LESS, '=')
        } else if ch == '>' {
            self.make_token_with_check(TokenType::GREATER_EQUAL, TokenType::GREATER, '=')
        } else if ch == '"' {
            self.scan_string()
        } else if is_digit_char(ch) {
            self.scan_number()
        } else if Self::is_legal_ident(ch) {
            self.scan_ident()
        } else {
            Err(
                CompileError::new(
                    self.line,
                    string_of(&self.source, self.start, self.current),
                    String::from_str("unexpected character"),
                ),
            )
        }
    }
}

} // verus!
