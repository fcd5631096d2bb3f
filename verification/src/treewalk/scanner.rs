//! The scanner of the tree-walking back end: the whole source at once, as
//! tokens that own their text.

use vstd::prelude::*;
use crate::custom_error::{CompileError, CompileErrorView};
use crate::lexer::{lexeme_bounds, next_lexeme, LexKind, Lexeme};
use crate::number::{kernel_computes, kernel_total, Arith, NumOp, NumOpView};
use crate::scanner::lexeme_error;
use crate::text::string_of;
use crate::token::TokenType;
use crate::treewalk::token::{token_views, Token, TokenView};
use crate::treewalk::token_type::{Object, ObjectView};
use vstd::string::StringExecFns;

verus! {

/// The token of a lexeme of kind `kind`: its text is the lexeme, a string
/// holds what stands between its quotes, a number what its text stands for.
pub open spec fn token_of(src: Seq<char>, lx: Lexeme, kind: TokenType, ar: Arith) -> TokenView {
    let lexeme = src.subrange(lx.start, lx.end);
    TokenView {
        ttype: kind,
        lexeme,
        literal: if kind == TokenType::STRING {
            ObjectView::Str(src.subrange(lx.start + 1, lx.end - 1))
        } else if kind == TokenType::NUMBER {
            ObjectView::Num(ar(NumOpView::Literal(lexeme)))
        } else {
            ObjectView::Nil
        },
        line: lx.line as usize,
    }
}

/// The token that ends every scan.
pub open spec fn end_token(line: int) -> TokenView {
    TokenView { ttype: TokenType::EOF, lexeme: " "@, literal: ObjectView::Nil, line: line as usize }
}

/// The tokens of `src` from `pos` on, behind those already found: one for
/// each lexeme up to the end of the input, which gives the last one. The first
/// lexeme that is no token ends the scan with its error.
pub open spec fn scanned(src: Seq<char>, pos: int, line: int, ar: Arith, found: Seq<TokenView>)
    -> Result<Seq<TokenView>, CompileErrorView>
    decreases src.len() - pos,
{
    let lx = next_lexeme(src, pos, line);
    match lx.kind {
        LexKind::Token(kind) => if kind == TokenType::EOF || !(pos < lx.end <= src.len()) {
            Ok(found.push(end_token(lx.line)))
        } else {
            scanned(src, lx.end, lx.line, ar, found.push(token_of(src, lx, kind, ar)))
        },
        _ => Err(lexeme_error(src, lx)),
    }
}

/// The view of the result of a scan.
pub open spec fn scan_view(r: Result<Vec<Token>, CompileError>) -> Result<
    Seq<TokenView>,
    CompileErrorView,
> {
    match r {
        Ok(tokens) => Ok(token_views(tokens@)),
        Err(e) => Err(e@),
    }
}

/// A scanner over one source.
pub struct Scanner {
    cursor: crate::scanner::Scanner,
}

impl Scanner {
    /// The characters of the source.
    pub closed spec fn text(&self) -> Seq<char> {
        self.cursor.text()
    }

    /// How far the scan has come.
    pub closed spec fn position(&self) -> int {
        self.cursor.position()
    }

    /// The line on which the scan stands, counted from 1.
    pub closed spec fn line_count(&self) -> int {
        self.cursor.line_count()
    }

    pub closed spec fn well_formed(&self) -> bool {
        self.cursor.well_formed()
    }

    /// A scanner at the start of `source`, on line 1.
    pub fn new(source: &str) -> (r: Self)
        requires
            source@.len() < usize::MAX,
        ensures
            r.well_formed(),
            r.text() == source@,
            r.position() == 0,
            r.line_count() == 1,
    {
        Scanner { cursor: crate::scanner::Scanner::new(String::from_str(source)) }
    }

    /// Scans what is left of the source. Whatever arithmetic `ar` the kernel
    /// computes, the result is what `scanned` gives for `ar`: the tokens up to
    /// and with the one for the end of the input, or the first error.
    pub fn scan_tokens<K: Fn(NumOp) -> u64>(&mut self, kernel: &K) -> (r: Result<
        Vec<Token>,
        CompileError,
    >)
        requires
            old(self).well_formed(),
            kernel_total(kernel),
        ensures
            final(self).well_formed(),
            final(self).text() == old(self).text(),
            forall|ar: Arith| #[trigger]
                kernel_computes(kernel, ar) ==> scan_view(r) == scanned(
                    old(self).text(),
                    old(self).position(),
                    old(self).line_count(),
                    ar,
                    Seq::empty(),
                ),
    {
        let mut tokens: Vec<Token> = Vec::new();
        let ghost src = self.text();
        assert(token_views(tokens@) =~= Seq::empty());
        proof {
            self.cursor.bounds();
        }
        loop
            invariant
                self.well_formed(),
                self.text() == src,
                src == old(self).text(),
                kernel_total(kernel),
                0 <= self.position() <= src.len(),
                forall|ar: Arith| #[trigger]
                    kernel_computes(kernel, ar) ==> scanned(
                        src,
                        self.position(),
                        self.line_count(),
                        ar,
                        token_views(tokens@),
                    ) == scanned(
                        src,
                        old(self).position(),
                        old(self).line_count(),
                        ar,
                        Seq::empty(),
                    ),
            decreases src.len() - self.position(),
        {
            proof {
                lexeme_bounds(src, self.position(), self.line_count());
            }
            let ghost lx = next_lexeme(src, self.position(), self.line_count());
            let ghost before = token_views(tokens@);
            let t = match self.cursor.scan_token() {
                Ok(t) => t,
                Err(e) => {
                    return Err(e);
                },
            };
            proof {
                self.cursor.bounds();
            }
            if t.typ == TokenType::EOF {
                tokens.push(Token::new(TokenType::EOF, String::from_str(" "), Object::Nil, t.line));
                assert(token_views(tokens@) =~= before.push(end_token(lx.line)));
                return Ok(tokens);
            }
            let lexeme = string_of(self.cursor.source(), t.start, t.end);
            let literal = match t.typ {
                TokenType::STRING => Object::Str(t.get_literal(self.cursor.source())),
                TokenType::NUMBER => Object::Num(kernel(NumOp::Literal(lexeme.clone()))),
                _ => Object::Nil,
            };
            tokens.push(Token::new(t.typ, lexeme, literal, t.line));
            assert forall|ar: Arith| #[trigger] kernel_computes(kernel, ar) implies token_views(
                tokens@,
            ) == before.push(token_of(src, lx, t.typ, ar)) by {
                assert(token_views(tokens@) =~= before.push(token_of(src, lx, t.typ, ar)));
            }
        }
    }
}

/// A scan that succeeds ends with the token for the end of the input, and
/// holds no other such token behind those that were found before.
pub proof fn end_comes_once(src: Seq<char>, pos: int, line: int, ar: Arith, found: Seq<TokenView>)
    requires
        0 <= pos <= src.len(),
    ensures
        scanned(src, pos, line, ar, found) matches Ok(tokens) ==> {
            &&& tokens.len() > found.len()
            &&& tokens.last().ttype == TokenType::EOF
            &&& forall|i: int|
                found.len() <= i < tokens.len() - 1 ==> (#[trigger] tokens[i]).ttype
                    != TokenType::EOF
            &&& forall|i: int| 0 <= i < found.len() ==> #[trigger] tokens[i] == found[i]
        },
    decreases src.len() - pos,
{
    let lx = next_lexeme(src, pos, line);
    lexeme_bounds(src, pos, line);
    match lx.kind {
        LexKind::Token(kind) => {
            if !(kind == TokenType::EOF || !(pos < lx.end <= src.len())) {
                let next = found.push(token_of(src, lx, kind, ar));
                end_comes_once(src, lx.end, lx.line, ar, next);
                match scanned(src, lx.end, lx.line, ar, next) {
                    Ok(tokens) => {
                        assert forall|i: int| found.len() <= i < tokens.len() - 1 implies (
                        #[trigger] tokens[i]).ttype != TokenType::EOF by {
                            if i == found.len() {
                                assert(tokens[i] == next[i]);
                            }
                        }
                        assert forall|i: int| 0 <= i < found.len() implies #[trigger] tokens[i]
                            == found[i] by {
                            assert(tokens[i] == next[i]);
                        }
                    },
                    Err(_) => {},
                }
            }
        },
        _ => {},
    }
}

/// Two tokens agree in everything but the line on which they stand.
pub open spec fn same_token(a: TokenView, b: TokenView) -> bool {
    a.ttype == b.ttype && a.lexeme == b.lexeme && a.literal == b.literal
}

/// Two sequences of tokens agree, token for token, in everything but the lines.
pub open spec fn same_tokens(a: Seq<TokenView>, b: Seq<TokenView>) -> bool {
    &&& a.len() == b.len()
    &&& forall|i: int| 0 <= i < a.len() ==> same_token(#[trigger] a[i], b[i])
}

/// The texts of the tokens, one after the other, with a blank behind each.
pub open spec fn spaced(tokens: Seq<TokenView>) -> Seq<char>
    decreases tokens.len(),
{
    if tokens.len() == 0 {
        Seq::empty()
    } else {
        tokens[0].lexeme + seq![' '] + spaced(tokens.drop_first())
    }
}

/// The tokens found before a scan stand before those that the scan finds.
proof fn found_stand_first(src: Seq<char>, pos: int, line: int, ar: Arith, found: Seq<TokenView>)
    requires
        0 <= pos <= src.len(),
    ensures
        scanned(src, pos, line, ar, found) == match scanned(src, pos, line, ar, Seq::empty()) {
            Ok(tokens) => Ok::<Seq<TokenView>, CompileErrorView>(found + tokens),
            Err(e) => Err(e),
        },
    decreases src.len() - pos,
{
    let lx = next_lexeme(src, pos, line);
    lexeme_bounds(src, pos, line);
    let none = Seq::<TokenView>::empty();
    match lx.kind {
        LexKind::Token(kind) => {
            if kind == TokenType::EOF || !(pos < lx.end <= src.len()) {
                assert(found.push(end_token(lx.line)) =~= found + none.push(end_token(lx.line)));
            } else {
                let t = token_of(src, lx, kind, ar);
                found_stand_first(src, lx.end, lx.line, ar, found.push(t));
                found_stand_first(src, lx.end, lx.line, ar, none.push(t));
                match scanned(src, lx.end, lx.line, ar, none) {
                    Ok(tokens) => {
                        assert(found.push(t) + tokens =~= found + (none.push(t) + tokens));
                    },
                    Err(_) => {},
                }
            }
        },
        _ => {},
    }
}

/// What a scan finds from a position on depends on nothing before it.
proof fn scan_of_the_rest(src: Seq<char>, a: int, pos: int, line: int, ar: Arith)
    requires
        0 <= a <= pos <= src.len(),
    ensures
        scanned(src, pos, line, ar, Seq::empty()) == scanned(
            src.subrange(a, src.len() as int),
            pos - a,
            line,
            ar,
            Seq::empty(),
        ),
    decreases src.len() - pos,
{
    let rest = src.subrange(a, src.len() as int);
    let lx = next_lexeme(src, pos, line);
    let moved = next_lexeme(rest, pos - a, line);
    crate::lexer::lexeme_in_suffix(src, a, pos, line);
    lexeme_bounds(src, pos, line);
    let none = Seq::<TokenView>::empty();
    assert(rest.subrange(moved.start, moved.end) =~= src.subrange(lx.start, lx.end));
    match lx.kind {
        LexKind::Token(kind) => {
            if !(kind == TokenType::EOF || !(pos < lx.end <= src.len())) {
                if kind == TokenType::STRING {
                    assert(rest.subrange(moved.start + 1, moved.end - 1) =~= src.subrange(
                        lx.start + 1,
                        lx.end - 1,
                    ));
                }
                let t = token_of(src, lx, kind, ar);
                assert(t == token_of(rest, moved, kind, ar));
                found_stand_first(src, lx.end, lx.line, ar, none.push(t));
                found_stand_first(rest, moved.end, moved.line, ar, none.push(t));
                scan_of_the_rest(src, a, lx.end, lx.line, ar);
            }
        },
        _ => {},
    }
}

/// A blank at the start of a source changes nothing in what a scan finds.
proof fn scan_behind_a_blank(rest: Seq<char>, line: int, ar: Arith)
    ensures
        scanned(seq![' '] + rest, 0, line, ar, Seq::empty()) == scanned(
            rest,
            0,
            line,
            ar,
            Seq::empty(),
        ),
{
    let whole = seq![' '] + rest;
    assert(whole[0] == ' ');
    assert(whole.subrange(1, whole.len() as int) =~= rest);
    assert(next_lexeme(whole, 0, line) == next_lexeme(whole, 1, line));
    lexeme_bounds(whole, 1, line);
    scan_of_the_rest(whole, 1, 1, line, ar);
}

/// The token of a text that one token fills: what `token_of` makes of the
/// lexeme that covers the text.
pub open spec fn token_of_text(text: Seq<char>, kind: TokenType, line: int, ar: Arith) -> TokenView {
    token_of(
        text,
        Lexeme { kind: LexKind::Token(kind), start: 0, end: text.len() as int, line },
        kind,
        ar,
    )
}

/// Where a token fills a text and a blank follows, a scan finds that token
/// and then what it finds in the rest.
proof fn scan_of_a_token_and_the_rest(
    text: Seq<char>,
    behind: Seq<char>,
    kind: TokenType,
    anew: int,
    ar: Arith,
)
    requires
        kind != TokenType::EOF,
        next_lexeme(text, 0, anew).kind == LexKind::Token(kind),
        next_lexeme(text, 0, anew).start == 0,
        next_lexeme(text, 0, anew).end == text.len(),
    ensures
        scanned(text + seq![' '] + behind, 0, anew, ar, Seq::empty()) == match scanned(
            behind,
            0,
            next_lexeme(text, 0, anew).line,
            ar,
            Seq::empty(),
        ) {
            Ok(tail) => Ok::<Seq<TokenView>, CompileErrorView>(
                seq![token_of_text(text, kind, next_lexeme(text, 0, anew).line, ar)] + tail,
            ),
            Err(e) => Err(e),
        },
{
    let none = Seq::<TokenView>::empty();
    let whole = text + seq![' '] + behind;
    let b = text.len() as int;
    crate::lexer::lexeme_before_a_blank(text, behind, anew);
    lexeme_bounds(text, 0, anew);
    let first = next_lexeme(whole, 0, anew);
    assert(whole.subrange(0, b) =~= text);
    assert(text.subrange(0, b) =~= text);
    if kind == TokenType::STRING {
        assert(whole.subrange(1, b - 1) =~= text.subrange(1, b - 1));
    }
    let u = token_of(whole, first, kind, ar);
    assert(u == token_of_text(text, kind, first.line, ar));
    assert(scanned(whole, 0, anew, ar, none) == scanned(whole, b, first.line, ar, none.push(u)));
    found_stand_first(whole, b, first.line, ar, none.push(u));
    scan_of_the_rest(whole, b, b, first.line, ar);
    assert(whole.subrange(b, whole.len() as int) =~= seq![' '] + behind);
    scan_behind_a_blank(behind, first.line, ar);
    assert(none.push(u) =~= seq![u]);
}

/// Scanning the texts of the tokens of a scan, set one after the other with
/// a blank between them, gives the same tokens again: no token is made up,
/// none is dropped, and each keeps its kind, its text and its value. Only the
/// lines may differ, since the texts stand on other lines than before.
pub proof fn rescanning_the_lexemes_gives_the_same_tokens(
    src: Seq<char>,
    pos: int,
    line: int,
    anew: int,
    ar: Arith,
)
    requires
        0 <= pos <= src.len(),
        scanned(src, pos, line, ar, Seq::empty()) is Ok,
    ensures
        ({
            let tokens = scanned(src, pos, line, ar, Seq::empty())->Ok_0;
            let again = scanned(spaced(tokens.drop_last()), 0, anew, ar, Seq::empty());
            again is Ok && same_tokens(again->Ok_0, tokens)
        }),
    decreases src.len() - pos,
{
    let none = Seq::<TokenView>::empty();
    let tokens = scanned(src, pos, line, ar, none)->Ok_0;
    let lx = next_lexeme(src, pos, line);
    lexeme_bounds(src, pos, line);
    match lx.kind {
        LexKind::Token(kind) => {
            if kind == TokenType::EOF || !(pos < lx.end <= src.len()) {
                assert(tokens =~= seq![end_token(lx.line)]);
                assert(tokens.drop_last() =~= none);
                let nothing = spaced(none);
                assert(nothing.len() == 0);
                assert(next_lexeme(nothing, 0, anew).kind == LexKind::Token(TokenType::EOF));
            } else {
                let t = token_of(src, lx, kind, ar);
                let text = src.subrange(lx.start, lx.end);
                found_stand_first(src, lx.end, lx.line, ar, none.push(t));
                end_comes_once(src, lx.end, lx.line, ar, none);
                let rest = scanned(src, lx.end, lx.line, ar, none)->Ok_0;
                assert(tokens =~= none.push(t) + rest);
                assert(tokens.drop_last() =~= none.push(t) + rest.drop_last());
                assert(tokens.drop_last().drop_first() =~= rest.drop_last());
                let behind = spaced(rest.drop_last());
                assert(spaced(tokens.drop_last()) == text + seq![' '] + behind);
                crate::lexer::rescanning_gives_the_same_token(src, pos, line, anew);
                let after = next_lexeme(text, 0, anew).line;
                scan_of_a_token_and_the_rest(text, behind, kind, anew, ar);
                rescanning_the_lexemes_gives_the_same_tokens(src, lx.end, lx.line, after, ar);
                let u = token_of_text(text, kind, after, ar);
                if kind == TokenType::STRING {
                    assert(text.subrange(1, text.len() - 1) =~= src.subrange(
                        lx.start + 1,
                        lx.end - 1,
                    ));
                }
                assert(text.subrange(0, text.len() as int) =~= text);
                assert(same_token(u, t));
            }
        },
        _ => {},
    }
}

} // verus!
