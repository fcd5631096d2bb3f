//! The single-pass compiler: it reads the tokens of an expression one after
//! the other and writes the bytecode that computes it.
//!
//! Each kind of token has a rule: how an expression that begins with it is
//! compiled, how the token continues an expression as an operator, and how
//! tightly it binds then. [`parse_from`] says what compiling at a given
//! binding strength writes; [`Compiler::compile`] does it.

use vstd::prelude::*;
use crate::chunk::{Chunk, ChunkError, ChunkView, OpCode, MAX_CONSTANTS};
use crate::custom_error::{CompileError, CompileErrorView};
use crate::lexer::{next_lexeme, lexeme_bounds};
use crate::number::{kernel_computes, kernel_total, Arith, NumOp, NumOpView};
use crate::scanner::{lexeme_error, lexeme_token, Scanner};
use crate::token::{Precedence, Token, TokenType};
use crate::value::{Value, ValueView};
use vstd::string::StringExecFns;

verus! {

/// How a token is compiled.
#[derive(Clone, Copy, Debug, PartialEq, Eq, Structural)]
pub enum ParseFn {
    /// An expression in parentheses.
    Grouping,
    /// A sign before an operand.
    Unary,
    /// A number literal.
    Number,
    /// An operator between two operands.
    Binary,
}

/// The rule of a kind of token: how it begins an expression, how it continues
/// one, and how tightly it binds as an operator.
#[derive(Clone, Copy, Debug, PartialEq, Eq, Structural)]
pub struct ParseRule {
    pub prefix: Option<ParseFn>,
    pub infix: Option<ParseFn>,
    pub precedence: Precedence,
}

/// The table of rules.
pub open spec fn rule_of(typ: TokenType) -> ParseRule {
    match typ {
        TokenType::LEFT_PAREN => ParseRule {
            prefix: Some(ParseFn::Grouping),
            infix: None,
            precedence: Precedence::Lowest,
        },
        TokenType::MINUS => ParseRule {
            prefix: Some(ParseFn::Unary),
            infix: Some(ParseFn::Binary),
            precedence: Precedence::Term,
        },
        TokenType::PLUS => ParseRule {
            prefix: None,
            infix: Some(ParseFn::Binary),
            precedence: Precedence::Term,
        },
        TokenType::SLASH => ParseRule {
            prefix: None,
            infix: Some(ParseFn::Binary),
            precedence: Precedence::Factor,
        },
        TokenType::STAR => ParseRule {
            prefix: None,
            infix: Some(ParseFn::Binary),
            precedence: Precedence::Factor,
        },
        TokenType::NUMBER => ParseRule {
            prefix: Some(ParseFn::Number),
            infix: None,
            precedence: Precedence::Lowest,
        },
        _ => ParseRule { prefix: None, infix: None, precedence: Precedence::Lowest },
    }
}

/// The state of a compilation: where the scanner stands, the token under
/// consideration and the one before it, what was written so far, and the
/// errors of the scanner that were passed over.
pub struct CompilerView {
    pub pos: int,
    pub line: int,
    pub current: Token,
    pub previous: Token,
    pub chunk: ChunkView,
    pub diagnostics: Seq<CompileErrorView>,
}

/// The outcome of a step of the compilation: the error, if there was one.
pub open spec fn failure(r: Result<(), CompileError>) -> Option<CompileErrorView> {
    match r {
        Ok(_) => None,
        Err(e) => Some(e@),
    }
}

/// The error with message `msg` at token `at`.
pub open spec fn error_at(src: Seq<char>, at: Token, msg: Seq<char>) -> CompileErrorView {
    CompileErrorView { line: at.line as nat, literal: at.literal_spec(src), msg }
}

/// The next token from `pos` on. Lexemes that are no tokens are passed over,
/// and the error of each is added to `diagnostics`.
pub open spec fn next_token(src: Seq<char>, pos: int, line: int, diagnostics: Seq<CompileErrorView>)
    -> (Token, int, int, Seq<CompileErrorView>)
    decreases src.len() - pos,
{
    let lx = next_lexeme(src, pos, line);
    if lx.kind is Token || !(pos < lx.end <= src.len()) {
        (lexeme_token(lx), lx.end, lx.line, diagnostics)
    } else {
        next_token(src, lx.end, lx.line, diagnostics.push(lexeme_error(src, lx)))
    }
}

/// The state after one token was taken: the current token becomes the
/// previous one, and the next token of the source the current one.
pub open spec fn advanced(src: Seq<char>, s: CompilerView) -> CompilerView {
    let (token, pos, line, diagnostics) = next_token(src, s.pos, s.line, s.diagnostics);
    CompilerView { pos, line, current: token, previous: s.current, chunk: s.chunk, diagnostics }
}

/// The state after instruction `op` was written, on the line of the previous token.
pub open spec fn emitted(s: CompilerView, op: OpCode) -> CompilerView {
    CompilerView {
        chunk: ChunkView {
            code: s.chunk.code.push(op),
            lines: s.chunk.lines.push(s.previous.line),
            constants: s.chunk.constants,
        },
        ..s
    }
}

/// The state after `typ` was expected: the token is taken if it is the
/// current one, else the error with message `msg` is raised there.
pub open spec fn consumed(src: Seq<char>, s: CompilerView, typ: TokenType, msg: Seq<char>) -> (
    CompilerView,
    Option<CompileErrorView>,
) {
    if s.current.typ == typ {
        (advanced(src, s), None)
    } else {
        (s, Some(error_at(src, s.current, msg)))
    }
}

/// The state after the constant `value` was added to the pool and the
/// instruction that loads it was written. A full pool is an error.
pub open spec fn constant_emitted(src: Seq<char>, s: CompilerView, value: ValueView) -> (
    CompilerView,
    Option<CompileErrorView>,
) {
    if s.chunk.constants.len() >= MAX_CONSTANTS {
        (s, Some(error_at(src, s.previous, "too many constants in one chunk"@)))
    } else {
        let index = s.chunk.constants.len() as u8;
        let with_constant = CompilerView {
            chunk: ChunkView { constants: s.chunk.constants.push(value), ..s.chunk },
            ..s
        };
        (emitted(with_constant, OpCode::Constant(index)), None)
    }
}

/// The instruction of a binary operator.
pub open spec fn binary_instruction(typ: TokenType) -> Option<OpCode> {
    match typ {
        TokenType::PLUS => Some(OpCode::Add),
        TokenType::MINUS => Some(OpCode::Sub),
        TokenType::STAR => Some(OpCode::Mul),
        TokenType::SLASH => Some(OpCode::Div),
        _ => None,
    }
}

/// The current token of `b` starts behind that of `a`, inside the source.
pub open spec fn follows(src: Seq<char>, a: CompilerView, b: CompilerView) -> bool {
    a.current.start < b.current.start <= src.len()
}

/// The current token of `b` starts no earlier than that of `a`, inside the source.
pub open spec fn reaches(src: Seq<char>, a: CompilerView, b: CompilerView) -> bool {
    a.current.start <= b.current.start <= src.len()
}

/// What compiling at binding strength `prec` does: one token is taken and
/// compiled by its prefix rule (a token without one is an error: an
/// expression was expected), then operators that bind at least as tightly as
/// `prec` are taken with their right operands, one after the other.
///
/// A token starts behind the one before it, so the tests `follows` and
/// `reaches` never fail in a state that the compiler reaches (see `sound`);
/// they are what makes the recursion end.
pub open spec fn parse_from(src: Seq<char>, s: CompilerView, prec: Precedence, ar: Arith) -> (
    CompilerView,
    Option<CompileErrorView>,
)
    decreases src.len() - s.current.start, 1int,
{
    let s1 = advanced(src, s);
    let rule = rule_of(s1.previous.typ);
    if rule.prefix is None || !follows(src, s, s1) {
        (s1, Some(error_at(src, s1.previous, "expect expression"@)))
    } else {
        let (s2, failed) = applied(src, s1, rule.prefix->0, ar);
        if failed is Some || !reaches(src, s1, s2) {
            (s2, failed)
        } else {
            operators_from(src, s2, prec, ar)
        }
    }
}

/// The operators that bind at least as tightly as `prec`, each with its right
/// operand, from the current token on.
pub open spec fn operators_from(src: Seq<char>, s: CompilerView, prec: Precedence, ar: Arith) -> (
    CompilerView,
    Option<CompileErrorView>,
)
    decreases src.len() - s.current.start, 0int,
{
    let rule = rule_of(s.current.typ);
    if prec == Precedence::Lowest || prec.level() > rule.precedence.level() {
        (s, None)
    } else {
        let s1 = advanced(src, s);
        if rule.infix is None || !follows(src, s, s1) {
            (s1, Some(error_at(src, s1.previous, "expect expression"@)))
        } else {
            let (s2, failed) = applied(src, s1, rule.infix->0, ar);
            if failed is Some || !follows(src, s, s2) {
                (s2, failed)
            } else {
                operators_from(src, s2, prec, ar)
            }
        }
    }
}

/// What the rule `rule` does for the previous token.
pub open spec fn applied(src: Seq<char>, s: CompilerView, rule: ParseFn, ar: Arith) -> (
    CompilerView,
    Option<CompileErrorView>,
)
    decreases src.len() - s.current.start, 2int,
{
    match rule {
        ParseFn::Grouping => {
            let (s1, failed) = parse_from(src, s, Precedence::Assign, ar);
            if failed is Some {
                (s1, failed)
            } else {
                consumed(src, s1, TokenType::RIGHT_PAREN, "expect ')' after expression"@)
            }
        },
        ParseFn::Unary => {
            let (s1, failed) = parse_from(src, s, Precedence::Unary, ar);
            if failed is Some {
                (s1, failed)
            } else if s.previous.typ == TokenType::MINUS {
                (emitted(s1, OpCode::Neg), None)
            } else {
                (s1, None)
            }
        },
        ParseFn::Number => constant_emitted(
            src,
            s,
            ValueView::Number(ar(NumOpView::Literal(s.previous.literal_spec(src)))),
        ),
        ParseFn::Binary => {
            let own = rule_of(s.previous.typ).precedence;
            if own == Precedence::Primary {
                (s, Some(error_at(src, s.previous, "expect expression"@)))
            } else {
                let (s1, failed) = parse_from(src, s, own.tighter(), ar);
                if failed is Some {
                    (s1, failed)
                } else {
                    match binary_instruction(s.previous.typ) {
                        Some(op) => (emitted(s1, op), None),
                        None => (s1, None),
                    }
                }
            }
        },
    }
}

/// What compiling a whole source does: the first token is taken, one
/// expression is compiled, the end of the input is expected behind it, and a
/// `Return` is written so that the machine hands back the value.
pub open spec fn compiled(src: Seq<char>, s: CompilerView, ar: Arith) -> (
    CompilerView,
    Option<CompileErrorView>,
) {
    let s1 = advanced(src, s);
    let (s2, failed) = parse_from(src, s1, Precedence::Assign, ar);
    if failed is Some {
        (s2, failed)
    } else {
        let (s3, missing) = consumed(src, s2, TokenType::EOF, "expect end of expression"@);
        if missing is Some {
            (s3, missing)
        } else {
            (emitted(s3, OpCode::Return), None)
        }
    }
}

/// A token lies before the scanner and is not empty unless it is the end of
/// the input.
pub open spec fn token_sound(src: Seq<char>, t: Token, pos: int) -> bool {
    &&& t.within(src)
    &&& t.end <= pos
    &&& t.typ != TokenType::EOF ==> t.start < t.end
}

/// What holds of every state that the compiler reaches.
pub open spec fn sound(src: Seq<char>, s: CompilerView) -> bool {
    &&& 0 <= s.pos <= src.len() < usize::MAX
    &&& 1 <= s.line <= s.pos + 1
    &&& token_sound(src, s.current, s.pos)
    &&& token_sound(src, s.previous, s.pos)
    &&& s.previous.start <= s.current.start
    &&& s.chunk.code.len() == s.chunk.lines.len()
    &&& s.chunk.constants.len() <= MAX_CONSTANTS
    &&& s.chunk.constants_valid()
}

/// The next token lies at or behind the position from which it was looked
/// for, inside the source, and is empty only if it is the end of the input.
pub proof fn next_token_bounds(
    src: Seq<char>,
    pos: int,
    line: int,
    diagnostics: Seq<CompileErrorView>,
)
    requires
        0 <= pos <= src.len() < usize::MAX,
        1 <= line <= pos + 1,
    ensures
        ({
            let (token, behind, at_line, _) = next_token(src, pos, line, diagnostics);
            &&& pos <= token.start <= token.end == behind <= src.len()
            &&& 1 <= at_line <= behind + 1
            &&& token.line == at_line
            &&& token.typ != TokenType::EOF ==> token.start < token.end
            &&& token.typ == TokenType::STRING ==> token.start + 2 <= token.end
        }),
    decreases src.len() - pos,
{
    let lx = next_lexeme(src, pos, line);
    lexeme_bounds(src, pos, line);
    if !(lx.kind is Token || !(pos < lx.end <= src.len())) {
        next_token_bounds(src, lx.end, lx.line, diagnostics.push(lexeme_error(src, lx)));
    }
}

/// Taking a token leads from a sound state to a sound state whose current
/// token starts at or behind the one before, and behind it unless that was
/// the end of the input: the tests that end the recursion of `parse_from`
/// hold in every state that the compiler reaches.
pub proof fn advanced_moves_on(src: Seq<char>, s: CompilerView)
    requires
        sound(src, s),
    ensures
        sound(src, advanced(src, s)),
        reaches(src, s, advanced(src, s)),
        s.current.typ != TokenType::EOF ==> follows(src, s, advanced(src, s)),
        advanced(src, s).chunk == s.chunk,
        advanced(src, s).previous == s.current,
{
    next_token_bounds(src, s.pos, s.line, s.diagnostics);
}

/// The compiler of one source.
pub struct Compiler {
    chunk: Chunk,
    current: Token,
    previous: Token,
    scanner: Scanner,
    diagnostics: Vec<CompileError>,
}

impl View for Compiler {
    type V = CompilerView;

    closed spec fn view(&self) -> CompilerView {
        CompilerView {
            pos: self.scanner.position(),
            line: self.scanner.line_count(),
            current: self.current,
            previous: self.previous,
            chunk: self.chunk@,
            diagnostics: Seq::new(self.diagnostics@.len(), |i: int| self.diagnostics@[i]@),
        }
    }
}

impl Compiler {
    /// The characters of the source.
    pub closed spec fn text(&self) -> Seq<char> {
        self.scanner.text()
    }

    /// The scanner and the chunk are well formed, and the state is sound.
    pub closed spec fn well_formed(&self) -> bool {
        &&& self.scanner.well_formed()
        &&& self.chunk.well_formed()
        &&& sound(self.text(), self@)
    }

    /// A compiler at the start of `source`, with nothing written.
    pub fn new(source: String) -> (r: Self)
        requires
            source@.len() < usize::MAX,
        ensures
            r.well_formed(),
            r.text() == source@,
            r@.pos == 0,
            r@.line == 1,
            r@.current == (Token { typ: TokenType::EOF, start: 0, end: 0, line: 0 }),
            r@.previous == r@.current,
            r@.chunk.code == Seq::<OpCode>::empty(),
            r@.chunk.lines == Seq::<usize>::empty(),
            r@.chunk.constants == Seq::<ValueView>::empty(),
            r@.diagnostics == Seq::<CompileErrorView>::empty(),
    {
        let blank = Token { typ: TokenType::EOF, start: 0, end: 0, line: 0 };
        let r = Self {
            chunk: Chunk::new(),
            current: blank,
            previous: blank,
            scanner: Scanner::new(source),
            diagnostics: Vec::new(),
        };
        assert(r@.diagnostics =~= Seq::<CompileErrorView>::empty());
        r
    }

    /// The rule of a kind of token.
    pub fn get_rule(typ: TokenType) -> (r: ParseRule)
        ensures
            r == rule_of(typ),
    {
        match typ {
            TokenType::LEFT_PAREN => ParseRule {
                prefix: Some(ParseFn::Grouping),
                infix: None,
                precedence: Precedence::Lowest,
            },
            TokenType::MINUS => ParseRule {
                prefix: Some(ParseFn::Unary),
                infix: Some(ParseFn::Binary),
                precedence: Precedence::Term,
            },
            TokenType::PLUS => ParseRule {
                prefix: None,
                infix: Some(ParseFn::Binary),
                precedence: Precedence::Term,
            },
            TokenType::SLASH => ParseRule {
                prefix: None,
                infix: Some(ParseFn::Binary),
                precedence: Precedence::Factor,
            },
            TokenType::STAR => ParseRule {
                prefix: None,
                infix: Some(ParseFn::Binary),
                precedence: Precedence::Factor,
            },
            TokenType::NUMBER => ParseRule {
                prefix: Some(ParseFn::Number),
                infix: None,
                precedence: Precedence::Lowest,
            },
            _ => ParseRule { prefix: None, infix: None, precedence: Precedence::Lowest },
        }
    }

    /// Takes one token.
    fn advance(&mut self)
        requires
            old(self).well_formed(),
        ensures
            final(self).well_formed(),
            final(self).text() == old(self).text(),
            final(self)@ == advanced(old(self).text(), old(self)@),
            old(self)@.current.typ != TokenType::EOF ==> final(self)@.current.start > old(
                self,
            )@.current.start,
            final(self)@.current.start >= old(self)@.current.start,
    {
        self.previous = self.current;
        let ghost src = self.text();
        let ghost goal = advanced(src, old(self)@);
        loop
            invariant_except_break
                next_token(src, self@.pos, self@.line, self@.diagnostics) == next_token(
                    src,
                    old(self)@.pos,
                    old(self)@.line,
                    old(self)@.diagnostics,
                ),
            invariant
                goal == advanced(src, old(self)@),
                self.scanner.well_formed(),
                self.chunk.well_formed(),
                self.text() == src,
                src == old(self).text(),
                src.len() < usize::MAX,
                old(self).well_formed(),
                self.chunk == old(self).chunk,
                self.previous == old(self).current,
                old(self)@.pos <= self@.pos <= src.len(),
                1 <= self@.line <= self@.pos + 1,
            ensures
                self.well_formed(),
                self.text() == src,
                self@ == goal,
                old(self)@.current.typ != TokenType::EOF ==> self@.current.start > old(
                    self,
                )@.current.start,
                self@.current.start >= old(self)@.current.start,
            decreases src.len() - self@.pos,
        {
            proof {
                lexeme_bounds(src, self@.pos, self@.line);
            }
            let ghost before = self@;
            match self.scanner.scan_token() {
                Ok(t) => {
                    self.current = t;
                    assert(self@.diagnostics =~= before.diagnostics);
                    break ;
                },
                Err(e) => {
                    self.diagnostics.push(e);
                    assert(self@.diagnostics =~= before.diagnostics.push(e@));
                },
            }
        }
    }

    /// Compiles one expression.
    fn expression<K: Fn(NumOp) -> u64>(&mut self, kernel: &K) -> (r: Result<(), CompileError>)
        requires
            old(self).well_formed(),
            kernel_total(kernel),
        ensures
            final(self).well_formed(),
            final(self).text() == old(self).text(),
            final(self)@.current.start >= old(self)@.current.start,
            forall|ar: Arith| #[trigger]
                kernel_computes(kernel, ar) ==> (final(self)@, failure(r)) == parse_from(
                    old(self).text(),
                    old(self)@,
                    Precedence::Assign,
                    ar,
                ),
        decreases old(self).text().len() - old(self)@.current.start, 2int,
    {
        self.parse_precedence(Precedence::Assign, kernel)
    }

    /// Takes the current token if it is of kind `typ`, else raises an error there.
    fn consume(&mut self, typ: TokenType, msg: &str) -> (r: Result<(), CompileError>)
        requires
            old(self).well_formed(),
        ensures
            final(self).well_formed(),
            final(self).text() == old(self).text(),
            final(self)@.current.start >= old(self)@.current.start,
            (final(self)@, failure(r)) == consumed(old(self).text(), old(self)@, typ, msg@),
    {
        if self.current.typ == typ {
            self.advance();
            Ok(())
        } else {
            Err(self.raise_at_current(msg))
        }
    }

    /// The error with message `msg` at the current token.
    fn raise_at_current(&self, msg: &str) -> (r: CompileError)
        requires
            self.well_formed(),
        ensures
            r@ == error_at(self.text(), self@.current, msg@),
    {
        CompileError::new(
            self.current.line,
            self.current.get_literal(self.scanner.source()),
            String::from_str(msg),
        )
    }

    /// The error with message `msg` at the previous token.
    fn raise_at_previous(&self, msg: &str) -> (r: CompileError)
        requires
            self.well_formed(),
        ensures
            r@ == error_at(self.text(), self@.previous, msg@),
    {
        CompileError::new(
            self.previous.line,
            self.previous.get_literal(self.scanner.source()),
            String::from_str(msg),
        )
    }

    /// Compiles what binds at least as tightly as `precedence`.
    fn parse_precedence<K: Fn(NumOp) -> u64>(&mut self, precedence: Precedence, kernel: &K) -> (r:
        Result<(), CompileError>)
        requires
            old(self).well_formed(),
            kernel_total(kernel),
        ensures
            final(self).well_formed(),
            final(self).text() == old(self).text(),
            final(self)@.current.start >= old(self)@.current.start,
            forall|ar: Arith| #[trigger]
                kernel_computes(kernel, ar) ==> (final(self)@, failure(r)) == parse_from(
                    old(self).text(),
                    old(self)@,
                    precedence,
                    ar,
                ),
        decreases old(self).text().len() - old(self)@.current.start, 1int,
    {
        let ghost src = self.text();
        self.advance();
        let ghost s1 = self@;
        let prefix_rule = match Self::get_rule(self.previous.typ).prefix {
            Some(f) => f,
            None => {
                return Err(self.raise_at_previous("expect expression"));
            },
        };
        match self.apply(prefix_rule, kernel) {
            Ok(()) => {},
            Err(e) => {
                return Err(e);
            },
        }
        loop
            invariant
                self.well_formed(),
                self.text() == src,
                src == old(self).text(),
                kernel_total(kernel),
                self@.current.start > old(self)@.current.start,
                forall|ar: Arith| #[trigger]
                    kernel_computes(kernel, ar) ==> operators_from(src, self@, precedence, ar)
                        == parse_from(src, old(self)@, precedence, ar),
            decreases src.len() - self@.current.start,
        {
            let rule = Self::get_rule(self.current.typ);
            if precedence.rank() == 0 || !precedence.at_most(&rule.precedence) {
                return Ok(());
            }
            self.advance();
            let infix_rule = match rule.infix {
                Some(f) => f,
                None => {
                    return Err(self.raise_at_previous("expect expression"));
                },
            };
            match self.apply(infix_rule, kernel) {
                Ok(()) => {},
                Err(e) => {
                    return Err(e);
                },
            }
        }
    }

    /// Applies a rule to the previous token.
    fn apply<K: Fn(NumOp) -> u64>(&mut self, rule: ParseFn, kernel: &K) -> (r: Result<
        (),
        CompileError,
    >)
        requires
            old(self).well_formed(),
            kernel_total(kernel),
        ensures
            final(self).well_formed(),
            final(self).text() == old(self).text(),
            final(self)@.current.start >= old(self)@.current.start,
            forall|ar: Arith| #[trigger]
                kernel_computes(kernel, ar) ==> (final(self)@, failure(r)) == applied(
                    old(self).text(),
                    old(self)@,
                    rule,
                    ar,
                ),
        decreases old(self).text().len() - old(self)@.current.start, 4int,
    {
        match rule {
            ParseFn::Grouping => self.grouping(kernel),
            ParseFn::Unary => self.unary(kernel),
            ParseFn::Number => self.number(kernel),
            ParseFn::Binary => self.binary(kernel),
        }
    }

    /// Compiles the expression in the source and a final `Return`. The first
    /// error ends the compilation. Whatever arithmetic `ar` the kernel
    /// computes, the compiler ends in the state that `compiled` gives for `ar`.
    pub fn compile<K: Fn(NumOp) -> u64>(&mut self, kernel: &K) -> (r: Result<(), CompileError>)
        requires
            old(self).well_formed(),
            kernel_total(kernel),
        ensures
            final(self).well_formed(),
            final(self).text() == old(self).text(),
            forall|ar: Arith| #[trigger]
                kernel_computes(kernel, ar) ==> (final(self)@, failure(r)) == compiled(
                    old(self).text(),
                    old(self)@,
                    ar,
                ),
    {
        self.advance();
        match self.expression(kernel) {
            Ok(()) => {},
            Err(e) => {
                return Err(e);
            },
        }
        match self.consume(TokenType::EOF, "expect end of expression") {
            Ok(()) => {},
            Err(e) => {
                return Err(e);
            },
        }
        self.emit_byte(OpCode::Return);
        Ok(())
    }

    /// Writes one instruction, on the line of the previous token.
    pub fn emit_byte(&mut self, typ: OpCode)
        requires
            old(self).well_formed(),
            typ matches OpCode::Constant(k) ==> k < old(self)@.chunk.constants.len(),
        ensures
            final(self).well_formed(),
            final(self).text() == old(self).text(),
            final(self)@ == emitted(old(self)@, typ),
    {
        self.chunk.write_chunk(typ, self.previous.line);
    }

    /// Adds a constant to the pool and writes the instruction that loads it.
    pub fn emit_const(&mut self, value: Value) -> (r: Result<(), CompileError>)
        requires
            old(self).well_formed(),
        ensures
            final(self).well_formed(),
            final(self).text() == old(self).text(),
            (final(self)@, failure(r)) == constant_emitted(old(self).text(), old(self)@, value@),
    {
        match self.make_const(value) {
            Ok(offset) => {
                self.emit_byte(OpCode::Constant(offset));
                Ok(())
            },
            Err(_) => Err(self.raise_at_previous("too many constants in one chunk")),
        }
    }

    /// Adds a constant to the pool and returns its index. A full pool refuses.
    pub fn make_const(&mut self, value: Value) -> (r: Result<u8, ChunkError>)
        requires
            old(self).well_formed(),
        ensures
            final(self).well_formed(),
            final(self).text() == old(self).text(),
            old(self)@.chunk.constants.len() < MAX_CONSTANTS ==> r == Ok::<u8, ChunkError>(
                old(self)@.chunk.constants.len() as u8,
            ) && final(self)@ == (CompilerView {
                chunk: ChunkView {
                    constants: old(self)@.chunk.constants.push(value@),
                    ..old(self)@.chunk
                },
                ..old(self)@
            }),
            old(self)@.chunk.constants.len() >= MAX_CONSTANTS ==> r == Err::<u8, ChunkError>(
                ChunkError::TooManyConstants,
            ) && final(self)@ == old(self)@,
    {
        self.chunk.write_constant(value)
    }

    /// The chunk that was written.
    pub fn return_chunk(self) -> (r: Chunk)
        requires
            self.well_formed(),
        ensures
            r.well_formed(),
            r@ == self@.chunk,
            r@.constants_valid(),
    {
        self.chunk
    }

    /// The errors of the scanner that were passed over, and the chunk that
    /// was written.
    pub fn finish(self) -> (r: (Vec<CompileError>, Chunk))
        requires
            self.well_formed(),
        ensures
            r.1.well_formed(),
            r.1@ == self@.chunk,
            r.1@.constants_valid(),
            r.0@.len() == self@.diagnostics.len(),
            forall|i: int| 0 <= i < r.0@.len() ==> (#[trigger] r.0@[i])@ == self@.diagnostics[i],
    {
        (self.diagnostics, self.chunk)
    }

    /// The errors of the scanner that were passed over so far.
    pub fn diagnostics(&self) -> (r: &Vec<CompileError>)
        ensures
            r@.len() == self@.diagnostics.len(),
            forall|i: int| 0 <= i < r@.len() ==> (#[trigger] r@[i])@ == self@.diagnostics[i],
    {
        &self.diagnostics
    }

    /// Compiles an expression in parentheses.
    fn grouping<K: Fn(NumOp) -> u64>(&mut self, kernel: &K) -> (r: Result<(), CompileError>)
        requires
            old(self).well_formed(),
            kernel_total(kernel),
        ensures
            final(self).well_formed(),
            final(self).text() == old(self).text(),
            final(self)@.current.start >= old(self)@.current.start,
            forall|ar: Arith| #[trigger]
                kernel_computes(kernel, ar) ==> (final(self)@, failure(r)) == applied(
                    old(self).text(),
                    old(self)@,
                    ParseFn::Grouping,
                    ar,
                ),
        decreases old(self).text().len() - old(self)@.current.start, 3int,
    {
        match self.expression(kernel) {
            Ok(()) => {},
            Err(e) => {
                return Err(e);
            },
        }
        self.consume(TokenType::RIGHT_PAREN, "expect ')' after expression")
    }

    /// Compiles an operand with a sign before it.
    fn unary<K: Fn(NumOp) -> u64>(&mut self, kernel: &K) -> (r: Result<(), CompileError>)
        requires
            old(self).well_formed(),
            kernel_total(kernel),
        ensures
            final(self).well_formed(),
            final(self).text() == old(self).text(),
            final(self)@.current.start >= old(self)@.current.start,
            forall|ar: Arith| #[trigger]
                kernel_computes(kernel, ar) ==> (final(self)@, failure(r)) == applied(
                    old(self).text(),
                    old(self)@,
                    ParseFn::Unary,
                    ar,
                ),
        decreases old(self).text().len() - old(self)@.current.start, 3int,
    {
        let op_type = self.previous.typ;
        match self.parse_precedence(Precedence::Unary, kernel) {
            Ok(()) => {},
            Err(e) => {
                return Err(e);
            },
        }
        match op_type {
            TokenType::MINUS => self.emit_byte(OpCode::Neg),
            _ => {},
        }
        Ok(())
    }

    /// Compiles a number literal: its value, as the kernel reads it, becomes a constant.
    fn number<K: Fn(NumOp) -> u64>(&mut self, kernel: &K) -> (r: Result<(), CompileError>)
        requires
            old(self).well_formed(),
            kernel_total(kernel),
        ensures
            final(self).well_formed(),
            final(self).text() == old(self).text(),
            final(self)@.current.start >= old(self)@.current.start,
            forall|ar: Arith| #[trigger]
                kernel_computes(kernel, ar) ==> (final(self)@, failure(r)) == applied(
                    old(self).text(),
                    old(self)@,
                    ParseFn::Number,
                    ar,
                ),
    {
        let text = self.previous.get_literal(self.scanner.source());
        let value = kernel(NumOp::Literal(text));
        self.emit_const(Value::Number(value))
    }

    /// Compiles the right operand of a binary operator, then the operator.
    fn binary<K: Fn(NumOp) -> u64>(&mut self, kernel: &K) -> (r: Result<(), CompileError>)
        requires
            old(self).well_formed(),
            kernel_total(kernel),
        ensures
            final(self).well_formed(),
            final(self).text() == old(self).text(),
            final(self)@.current.start >= old(self)@.current.start,
            forall|ar: Arith| #[trigger]
                kernel_computes(kernel, ar) ==> (final(self)@, failure(r)) == applied(
                    old(self).text(),
                    old(self)@,
                    ParseFn::Binary,
                    ar,
                ),
        decreases old(self).text().len() - old(self)@.current.start, 3int,
    {
        let op_type = self.previous.typ;
        let rule = Self::get_rule(op_type);
        if rule.precedence.rank() == 10 {
            return Err(self.raise_at_previous("expect expression"));
        }
        // The right operand binds one level tighter: operators of one level
        // group from the left.
        let tighter = Precedence::higher(&rule.precedence);
        match self.parse_precedence(tighter, kernel) {
            Ok(()) => {},
            Err(e) => {
                return Err(e);
            },
        }
        match op_type {
            TokenType::PLUS => self.emit_byte(OpCode::Add),
            TokenType::MINUS => self.emit_byte(OpCode::Sub),
            TokenType::STAR => self.emit_byte(OpCode::Mul),
            TokenType::SLASH => self.emit_byte(OpCode::Div),
            _ => {},
        }
        Ok(())
    }
}

} // verus!
