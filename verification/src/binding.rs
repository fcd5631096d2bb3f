//! How operators bind in the code that the compiler writes.
//!
//! The machine takes the operands of an instruction from the stack, so the
//! code of an operator stands behind the code of both operands. Of two
//! operators in a row the tighter one is written first, and of two of the
//! same level the left one.

use vstd::prelude::*;
use crate::chunk::{ChunkView, OpCode, MAX_CONSTANTS};
use crate::compile::{
    advanced, advanced_moves_on, applied, binary_instruction, constant_emitted, emitted,
    operators_from, parse_from, rule_of, sound, CompilerView, ParseFn,
};
use crate::custom_error::CompileErrorView;
use crate::number::{Arith, NumOpView};
use crate::token::{Precedence, TokenType};
use crate::value::ValueView;

verus! {

/// Whether a token of kind `t` is `+` or `-`.
pub open spec fn is_term_operator(t: TokenType) -> bool {
    t == TokenType::PLUS || t == TokenType::MINUS
}

/// Whether a token of kind `t` is `*` or `/`.
pub open spec fn is_factor_operator(t: TokenType) -> bool {
    t == TokenType::STAR || t == TokenType::SLASH
}

/// The state after `n` more tokens were taken.
pub open spec fn taken(src: Seq<char>, s: CompilerView, n: nat) -> CompilerView
    decreases n,
{
    if n == 0 {
        s
    } else {
        advanced(src, taken(src, s, (n - 1) as nat))
    }
}

/// The state `s` with the chunk `chunk` in the place of its own.
pub open spec fn with_chunk(s: CompilerView, chunk: ChunkView) -> CompilerView {
    CompilerView { chunk, ..s }
}

/// The chunk with the number that the previous token of `s` stands for as a
/// new constant, and the instruction that loads it.
pub open spec fn with_number(src: Seq<char>, s: CompilerView, chunk: ChunkView, ar: Arith)
    -> ChunkView {
    ChunkView {
        code: chunk.code.push(OpCode::Constant(chunk.constants.len() as u8)),
        lines: chunk.lines.push(s.previous.line),
        constants: chunk.constants.push(
            ValueView::Number(ar(NumOpView::Literal(s.previous.literal_spec(src)))),
        ),
    }
}

/// The chunk with instruction `op` behind it, on the line of the previous
/// token of `s`.
pub open spec fn with_instruction(s: CompilerView, chunk: ChunkView, op: OpCode) -> ChunkView {
    ChunkView { code: chunk.code.push(op), lines: chunk.lines.push(s.previous.line), ..chunk }
}

/// The states after one to five tokens are sound and lie one behind the other.
proof fn five_tokens_on(src: Seq<char>, s: CompilerView)
    requires
        sound(src, s),
    ensures
        sound(src, taken(src, s, 1)),
        sound(src, taken(src, s, 2)),
        sound(src, taken(src, s, 3)),
        sound(src, taken(src, s, 4)),
        sound(src, taken(src, s, 5)),
        taken(src, s, 1) == advanced(src, s),
        taken(src, s, 2) == advanced(src, taken(src, s, 1)),
        taken(src, s, 3) == advanced(src, taken(src, s, 2)),
        taken(src, s, 4) == advanced(src, taken(src, s, 3)),
        taken(src, s, 5) == advanced(src, taken(src, s, 4)),
{
    reveal_with_fuel(taken, 6);
    advanced_moves_on(src, s);
    advanced_moves_on(src, taken(src, s, 1));
    advanced_moves_on(src, taken(src, s, 2));
    advanced_moves_on(src, taken(src, s, 3));
    advanced_moves_on(src, taken(src, s, 4));
}

/// A number behind which no operator of strength `prec` or more follows is
/// compiled to one constant and the instruction that loads it.
proof fn number_alone(src: Seq<char>, s: CompilerView, prec: Precedence, chunk: ChunkView, ar: Arith)
    requires
        sound(src, s),
        s.current.typ == TokenType::NUMBER,
        prec.level() > rule_of(advanced(src, s).current.typ).precedence.level(),
        chunk.constants.len() < MAX_CONSTANTS,
    ensures
        parse_from(src, with_chunk(s, chunk), prec, ar) == (
            with_chunk(advanced(src, s), with_number(src, advanced(src, s), chunk, ar)),
            None::<CompileErrorView>,
        ),
{
    advanced_moves_on(src, s);
    let s1 = advanced(src, with_chunk(s, chunk));
    assert(s1 == with_chunk(advanced(src, s), chunk));
    let value = ValueView::Number(ar(NumOpView::Literal(s1.previous.literal_spec(src))));
    let done = with_chunk(advanced(src, s), with_number(src, advanced(src, s), chunk, ar));
    assert(constant_emitted(src, s1, value) == (
        done,
        None::<CompileErrorView>,
    ));
    assert(applied(src, s1, ParseFn::Number, ar) == (
        done,
        None::<CompileErrorView>,
    ));
    assert(operators_from(src, done, prec, ar) == (
        done,
        None::<CompileErrorView>,
    ));
}

/// A tighter operator is written first: for `a + b * c` the machine
/// multiplies before it adds. Where a number, `+` or `-`, a number, `*` or
/// `/`, a number and a token that is no operator come next and the pool has
/// room for three constants, what is written is the three constants, then
/// the instruction of the second operator, then that of the first.
pub proof fn tighter_operator_is_written_first(src: Seq<char>, s: CompilerView, ar: Arith)
    requires
        sound(src, s),
        s.chunk.constants.len() + 3 <= MAX_CONSTANTS,
        s.current.typ == TokenType::NUMBER,
        is_term_operator(taken(src, s, 1).current.typ),
        taken(src, s, 2).current.typ == TokenType::NUMBER,
        is_factor_operator(taken(src, s, 3).current.typ),
        taken(src, s, 4).current.typ == TokenType::NUMBER,
        rule_of(taken(src, s, 5).current.typ).precedence == Precedence::Lowest,
    ensures
        ({
            let (after, failed) = parse_from(src, s, Precedence::Assign, ar);
            let k = s.chunk.constants.len() as u8;
            &&& failed is None
            &&& after.chunk.code == s.chunk.code + seq![
                OpCode::Constant(k),
                OpCode::Constant((k + 1) as u8),
                OpCode::Constant((k + 2) as u8),
                binary_instruction(taken(src, s, 3).current.typ)->0,
                binary_instruction(taken(src, s, 1).current.typ)->0,
            ]
        }),
{
    let none = None::<CompileErrorView>;
    five_tokens_on(src, s);
    let s1 = taken(src, s, 1);
    let s2 = taken(src, s, 2);
    let s3 = taken(src, s, 3);
    let s4 = taken(src, s, 4);
    let s5 = taken(src, s, 5);
    advanced_moves_on(src, s);
    advanced_moves_on(src, s1);
    advanced_moves_on(src, s2);
    advanced_moves_on(src, s3);
    advanced_moves_on(src, s4);
    let c1 = with_number(src, s1, s.chunk, ar);
    let c2 = with_number(src, s3, c1, ar);
    let c3 = with_number(src, s5, c2, ar);
    let op1 = binary_instruction(s1.current.typ)->0;
    let op2 = binary_instruction(s3.current.typ)->0;
    let c4 = with_instruction(s5, c3, op2);
    let c5 = with_instruction(s5, c4, op1);
    // the third number, behind which nothing binds
    number_alone(src, s4, Precedence::Unary, c2, ar);
    let e = with_chunk(s4, c2);
    let g = with_chunk(s5, c3);
    assert(parse_from(src, e, Precedence::Unary, ar) == (g, none));
    // the second operator with its right operand
    assert(e.previous == s3.current);
    assert(rule_of(e.previous.typ).precedence == Precedence::Factor);
    assert(Precedence::Factor.tighter() == Precedence::Unary);
    let h = with_chunk(s5, c4);
    assert(emitted(g, op2) == h);
    assert(applied(src, e, ParseFn::Binary, ar) == (h, none));
    assert(operators_from(src, h, Precedence::Factor, ar) == (h, none));
    let d = with_chunk(s3, c2);
    assert(advanced(src, d) == e);
    assert(operators_from(src, d, Precedence::Factor, ar) == (h, none));
    // the second number
    let b = with_chunk(s2, c1);
    let c = with_chunk(s3, c1);
    assert(advanced(src, b) == c);
    let second = ValueView::Number(ar(NumOpView::Literal(c.previous.literal_spec(src))));
    assert(constant_emitted(src, c, second) == (d, none));
    assert(applied(src, c, ParseFn::Number, ar) == (d, none));
    assert(parse_from(src, b, Precedence::Factor, ar) == (h, none));
    // the first operator with its right operand
    assert(b.previous == s1.current);
    assert(rule_of(b.previous.typ).precedence == Precedence::Term);
    assert(Precedence::Term.tighter() == Precedence::Factor);
    let i = with_chunk(s5, c5);
    assert(emitted(h, op1) == i);
    assert(applied(src, b, ParseFn::Binary, ar) == (i, none));
    assert(operators_from(src, i, Precedence::Assign, ar) == (i, none));
    let a1 = with_chunk(s1, c1);
    assert(advanced(src, a1) == b);
    assert(operators_from(src, a1, Precedence::Assign, ar) == (i, none));
    // the first number
    let first = ValueView::Number(ar(NumOpView::Literal(s1.previous.literal_spec(src))));
    assert(constant_emitted(src, s1, first) == (a1, none));
    assert(applied(src, s1, ParseFn::Number, ar) == (a1, none));
    assert(parse_from(src, s, Precedence::Assign, ar) == (i, none));
    let k = s.chunk.constants.len() as u8;
    assert(c5.code =~= s.chunk.code + seq![
        OpCode::Constant(k),
        OpCode::Constant((k + 1) as u8),
        OpCode::Constant((k + 2) as u8),
        op2,
        op1,
    ]);
}

/// Operators of one level are written from the left: for `a - b - c` the
/// machine subtracts `b` from `a` before it subtracts `c`. Where a number, an
/// operator, a number, an operator of the same level, a number and a token
/// that is no operator come next and the pool has room for three constants,
/// what is written is two constants, the instruction of the first operator,
/// the third constant, and the instruction of the second operator.
pub proof fn same_level_is_written_from_the_left(src: Seq<char>, s: CompilerView, ar: Arith)
    requires
        sound(src, s),
        s.chunk.constants.len() + 3 <= MAX_CONSTANTS,
        s.current.typ == TokenType::NUMBER,
        taken(src, s, 2).current.typ == TokenType::NUMBER,
        taken(src, s, 4).current.typ == TokenType::NUMBER,
        (is_term_operator(taken(src, s, 1).current.typ) && is_term_operator(
            taken(src, s, 3).current.typ,
        )) || (is_factor_operator(taken(src, s, 1).current.typ) && is_factor_operator(
            taken(src, s, 3).current.typ,
        )),
        rule_of(taken(src, s, 5).current.typ).precedence == Precedence::Lowest,
    ensures
        ({
            let (after, failed) = parse_from(src, s, Precedence::Assign, ar);
            let k = s.chunk.constants.len() as u8;
            &&& failed is None
            &&& after.chunk.code == s.chunk.code + seq![
                OpCode::Constant(k),
                OpCode::Constant((k + 1) as u8),
                binary_instruction(taken(src, s, 1).current.typ)->0,
                OpCode::Constant((k + 2) as u8),
                binary_instruction(taken(src, s, 3).current.typ)->0,
            ]
        }),
{
    let none = None::<CompileErrorView>;
    five_tokens_on(src, s);
    let s1 = taken(src, s, 1);
    let s2 = taken(src, s, 2);
    let s3 = taken(src, s, 3);
    let s4 = taken(src, s, 4);
    let s5 = taken(src, s, 5);
    advanced_moves_on(src, s);
    advanced_moves_on(src, s1);
    advanced_moves_on(src, s2);
    advanced_moves_on(src, s3);
    advanced_moves_on(src, s4);
    let own = rule_of(s1.current.typ).precedence;
    assert(own == rule_of(s3.current.typ).precedence);
    assert(own == Precedence::Term || own == Precedence::Factor);
    let op1 = binary_instruction(s1.current.typ)->0;
    let op2 = binary_instruction(s3.current.typ)->0;
    let c1 = with_number(src, s1, s.chunk, ar);
    let c2 = with_number(src, s3, c1, ar);
    let c3 = with_instruction(s3, c2, op1);
    let c4 = with_number(src, s5, c3, ar);
    let c5 = with_instruction(s5, c4, op2);
    // the third number and the second operator
    number_alone(src, s4, own.tighter(), c3, ar);
    let e = with_chunk(s4, c3);
    let g = with_chunk(s5, c4);
    assert(parse_from(src, e, own.tighter(), ar) == (g, none));
    assert(e.previous == s3.current);
    let i = with_chunk(s5, c5);
    assert(emitted(g, op2) == i);
    assert(applied(src, e, ParseFn::Binary, ar) == (i, none));
    assert(operators_from(src, i, Precedence::Assign, ar) == (i, none));
    let d = with_chunk(s3, c3);
    assert(advanced(src, d) == e);
    assert(operators_from(src, d, Precedence::Assign, ar) == (i, none));
    // the second number and the first operator
    number_alone(src, s2, own.tighter(), c1, ar);
    let b = with_chunk(s2, c1);
    let c = with_chunk(s3, c2);
    assert(parse_from(src, b, own.tighter(), ar) == (c, none));
    assert(b.previous == s1.current);
    assert(emitted(c, op1) == d);
    assert(applied(src, b, ParseFn::Binary, ar) == (d, none));
    let a1 = with_chunk(s1, c1);
    assert(advanced(src, a1) == b);
    assert(operators_from(src, a1, Precedence::Assign, ar) == (i, none));
    // the first number
    let first = ValueView::Number(ar(NumOpView::Literal(s1.previous.literal_spec(src))));
    assert(constant_emitted(src, s1, first) == (a1, none));
    assert(applied(src, s1, ParseFn::Number, ar) == (a1, none));
    assert(parse_from(src, s, Precedence::Assign, ar) == (i, none));
    let k = s.chunk.constants.len() as u8;
    assert(c5.code =~= s.chunk.code + seq![
        OpCode::Constant(k),
        OpCode::Constant((k + 1) as u8),
        op1,
        OpCode::Constant((k + 2) as u8),
        op2,
    ]);
}

} // verus!
