//! What the compiler guarantees to the machine.
//!
//! The machine checks every access, so a chunk of any origin runs without
//! harm. For a chunk that the compiler wrote the checks never fail: every
//! constant that an instruction names is in the pool, no instruction finds
//! the stack too short, too full or an operand of the wrong kind, and the
//! code ends in a `Return`. Such a run ends with a number. The stack cannot
//! overflow because every value on it was loaded from a constant of its own,
//! and the pool holds no more constants than the stack holds values.

use vstd::prelude::*;
use crate::chunk::{ChunkView, OpCode, MAX_CONSTANTS};
use crate::compile::{
    advanced, applied, binary_instruction, compiled, consumed, emitted, follows, operators_from,
    parse_from, reaches, rule_of, CompilerView, ParseFn,
};
use crate::number::Arith;
use crate::token::{Precedence, TokenType};
use crate::value::ValueView;
use crate::vm::{run_from, step, RuntimeErrorKind, Step, MAX_STACK};

verus! {

/// `small` is the beginning of `big`.
pub open spec fn begins<A>(small: Seq<A>, big: Seq<A>) -> bool {
    &&& small.len() <= big.len()
    &&& forall|i: int| 0 <= i < small.len() ==> small[i] == big[i]
}

/// How the instructions of a stretch of code end.
pub enum Passage {
    /// All were executed, and left this stack.
    Through(Seq<ValueView>),
    /// One of them stopped with an error.
    Fault(RuntimeErrorKind),
    /// One of them was a `Return`.
    Halted,
}

/// What the instructions `code[from..to]` do to `stack`, one after the other.
pub open spec fn passage(
    pool: Seq<ValueView>,
    code: Seq<OpCode>,
    from: int,
    to: int,
    stack: Seq<ValueView>,
    ar: Arith,
) -> Passage
    decreases to - from,
{
    if from < 0 || from >= to || to > code.len() {
        Passage::Through(stack)
    } else {
        match step(pool, code[from], stack, ar) {
            Step::Go(next) => passage(pool, code, from + 1, to, next, ar),
            Step::Halt(_, _) => Passage::Halted,
            Step::Fault(kind) => Passage::Fault(kind),
        }
    }
}

/// The outcome `p` of a stretch that began with `stack` shows one number
/// more on the stack and nothing else changed.
pub open spec fn one_more(p: Passage, stack: Seq<ValueView>) -> bool {
    match p {
        Passage::Through(after) => after.len() == stack.len() + 1 && after.drop_last() == stack
            && after.last() is Number,
        _ => false,
    }
}

/// The outcome `p` of a stretch that began with `stack` shows another number
/// in the place of the top one and nothing else changed.
pub open spec fn top_replaced(p: Passage, stack: Seq<ValueView>) -> bool {
    match p {
        Passage::Through(after) => after.len() == stack.len() && after.len() > 0
            && after.drop_last() == stack.drop_last() && after.last() is Number,
        _ => false,
    }
}

/// On every stack with room for `room` more values, the stretch
/// `code[from..to]` pushes one number.
pub open spec fn pushes_a_number(
    pool: Seq<ValueView>,
    code: Seq<OpCode>,
    from: int,
    to: int,
    room: int,
    ar: Arith,
) -> bool {
    forall|stack: Seq<ValueView>|
        stack.len() + room <= MAX_STACK ==> #[trigger] one_more(
            passage(pool, code, from, to, stack, ar),
            stack,
        )
}

/// On every stack with a number on top and room for `room` more values, the
/// stretch `code[from..to]` puts a number in the place of the top one.
pub open spec fn replaces_the_top(
    pool: Seq<ValueView>,
    code: Seq<OpCode>,
    from: int,
    to: int,
    room: int,
    ar: Arith,
) -> bool {
    forall|stack: Seq<ValueView>|
        stack.len() > 0 && stack.last() is Number && stack.len() + room <= MAX_STACK
            ==> #[trigger] top_replaced(passage(pool, code, from, to, stack, ar), stack)
}

/// The number of constants that were added from `early` to `late`.
pub open spec fn added(early: CompilerView, late: CompilerView) -> int {
    late.chunk.constants.len() - early.chunk.constants.len()
}

/// The chunk `late` holds what `early` holds, and possibly more behind it,
/// and its pool is within its bound if that of `early` is.
pub open spec fn grown(early: CompilerView, late: CompilerView) -> bool {
    &&& begins(early.chunk.code, late.chunk.code)
    &&& begins(early.chunk.constants, late.chunk.constants)
    &&& early.chunk.constants.len() <= MAX_CONSTANTS ==> late.chunk.constants.len()
        <= MAX_CONSTANTS
}

/// A stretch is passed by passing its first part and then the rest.
pub proof fn passage_in_two(
    pool: Seq<ValueView>,
    code: Seq<OpCode>,
    from: int,
    mid: int,
    to: int,
    stack: Seq<ValueView>,
    ar: Arith,
)
    requires
        0 <= from <= mid <= to <= code.len(),
    ensures
        passage(pool, code, from, to, stack, ar) == match passage(pool, code, from, mid, stack, ar) {
            Passage::Through(between) => passage(pool, code, mid, to, between, ar),
            other => other,
        },
    decreases mid - from,
{
    if from < mid {
        match step(pool, code[from], stack, ar) {
            Step::Go(next) => {
                passage_in_two(pool, code, from + 1, mid, to, next, ar);
            },
            _ => {},
        }
    }
}

/// A run that stands before a stretch of code goes on behind it with the
/// stack that the stretch leaves, or ends with the error of the stretch.
pub proof fn run_passes(chunk: ChunkView, from: int, to: int, stack: Seq<ValueView>, ar: Arith)
    requires
        0 <= from <= to <= chunk.code.len(),
    ensures
        match passage(chunk.constants, chunk.code, from, to, stack, ar) {
            Passage::Through(after) => run_from(chunk, from, stack, ar) == run_from(
                chunk,
                to,
                after,
                ar,
            ),
            Passage::Fault(kind) => run_from(chunk, from, stack, ar).result is Err && run_from(
                chunk,
                from,
                stack,
                ar,
            ).result->Err_0.kind == kind,
            Passage::Halted => true,
        },
    decreases to - from,
{
    if from < to {
        match step(chunk.constants, chunk.code[from], stack, ar) {
            Step::Go(next) => {
                run_passes(chunk, from + 1, to, next, ar);
            },
            _ => {},
        }
    }
}

/// What the compiler writes for an operand pushes one number, whatever was
/// written before and whatever is written behind it.
pub proof fn operand_pushes_a_number(
    src: Seq<char>,
    s: CompilerView,
    prec: Precedence,
    ar: Arith,
    code: Seq<OpCode>,
    pool: Seq<ValueView>,
)
    ensures
        grown(s, parse_from(src, s, prec, ar).0),
        ({
            let (after, failed) = parse_from(src, s, prec, ar);
            &&& failed is None ==> added(s, after) >= 1
            &&& failed is None && begins(after.chunk.code, code) && begins(
                after.chunk.constants,
                pool,
            ) ==> pushes_a_number(
                pool,
                code,
                s.chunk.code.len() as int,
                after.chunk.code.len() as int,
                added(s, after),
                ar,
            )
        }),
    decreases src.len() - s.current.start, 1int,
{
    let s1 = advanced(src, s);
    let rule = rule_of(s1.previous.typ);
    if !(rule.prefix is None || !follows(src, s, s1)) {
        rule_applies(src, s1, rule.prefix->0, ar, code, pool);
        let (s2, failed) = applied(src, s1, rule.prefix->0, ar);
        if !(failed is Some || !reaches(src, s1, s2)) {
            operators_replace_the_top(src, s2, prec, ar, code, pool);
            let (s3, last) = operators_from(src, s2, prec, ar);
            if last is None && begins(s3.chunk.code, code) && begins(s3.chunk.constants, pool) {
                let from = s.chunk.code.len() as int;
                let mid = s2.chunk.code.len() as int;
                let to = s3.chunk.code.len() as int;
                assert forall|stack: Seq<ValueView>|
                    stack.len() + added(s, s3) <= MAX_STACK implies #[trigger] one_more(
                    passage(pool, code, from, to, stack, ar),
                    stack,
                ) by {
                    passage_in_two(pool, code, from, mid, to, stack, ar);
                    let first = passage(pool, code, from, mid, stack, ar);
                    assert(one_more(first, stack));
                    match first {
                        Passage::Through(between) => {
                            assert(top_replaced(passage(pool, code, mid, to, between, ar), between));
                        },
                        _ => {},
                    }
                }
            }
        }
    }
}

/// What the compiler writes for the operators behind an operand puts a
/// number in the place of the operand's.
pub proof fn operators_replace_the_top(
    src: Seq<char>,
    s: CompilerView,
    prec: Precedence,
    ar: Arith,
    code: Seq<OpCode>,
    pool: Seq<ValueView>,
)
    ensures
        grown(s, operators_from(src, s, prec, ar).0),
        ({
            let (after, failed) = operators_from(src, s, prec, ar);
            failed is None && begins(after.chunk.code, code) && begins(after.chunk.constants, pool)
                ==> replaces_the_top(
                pool,
                code,
                s.chunk.code.len() as int,
                after.chunk.code.len() as int,
                added(s, after),
                ar,
            )
        }),
    decreases src.len() - s.current.start, 0int,
{
    let rule = rule_of(s.current.typ);
    let from = s.chunk.code.len() as int;
    if prec == Precedence::Lowest || prec.level() > rule.precedence.level() {
        assert forall|stack: Seq<ValueView>|
            stack.len() > 0 && stack.last() is Number && stack.len() + 0 <= MAX_STACK
                implies #[trigger] top_replaced(
            passage(pool, code, from, from, stack, ar),
            stack,
        ) by {}
    } else {
        let s1 = advanced(src, s);
        if !(rule.infix is None || !follows(src, s, s1)) {
            rule_applies(src, s1, rule.infix->0, ar, code, pool);
            let (s2, failed) = applied(src, s1, rule.infix->0, ar);
            if !(failed is Some || !follows(src, s, s2)) {
                operators_replace_the_top(src, s2, prec, ar, code, pool);
                let (s3, last) = operators_from(src, s2, prec, ar);
                if last is None && begins(s3.chunk.code, code) && begins(s3.chunk.constants, pool) {
                    let mid = s2.chunk.code.len() as int;
                    let to = s3.chunk.code.len() as int;
                    assert forall|stack: Seq<ValueView>|
                        stack.len() > 0 && stack.last() is Number && stack.len() + added(s, s3)
                            <= MAX_STACK implies #[trigger] top_replaced(
                        passage(pool, code, from, to, stack, ar),
                        stack,
                    ) by {
                        passage_in_two(pool, code, from, mid, to, stack, ar);
                        let first = passage(pool, code, from, mid, stack, ar);
                        assert(top_replaced(first, stack));
                        match first {
                            Passage::Through(between) => {
                                assert(top_replaced(
                                    passage(pool, code, mid, to, between, ar),
                                    between,
                                ));
                            },
                            _ => {},
                        }
                    }
                }
            }
        }
    }
}

/// What a rule writes: a binary operator's rule puts a number in the place
/// of the left operand's, every other rule pushes one.
pub proof fn rule_applies(
    src: Seq<char>,
    s: CompilerView,
    rule: ParseFn,
    ar: Arith,
    code: Seq<OpCode>,
    pool: Seq<ValueView>,
)
    requires
        rule == ParseFn::Binary ==> binary_instruction(s.previous.typ) is Some,
    ensures
        grown(s, applied(src, s, rule, ar).0),
        ({
            let (after, failed) = applied(src, s, rule, ar);
            let from = s.chunk.code.len() as int;
            let to = after.chunk.code.len() as int;
            &&& failed is None ==> added(s, after) >= 1
            &&& failed is None && begins(after.chunk.code, code) && begins(
                after.chunk.constants,
                pool,
            ) ==> if rule == ParseFn::Binary {
                replaces_the_top(pool, code, from, to, added(s, after), ar)
            } else {
                pushes_a_number(pool, code, from, to, added(s, after), ar)
            }
        }),
    decreases src.len() - s.current.start, 2int,
{
    let from = s.chunk.code.len() as int;
    let (after, failed) = applied(src, s, rule, ar);
    let to = after.chunk.code.len() as int;
    let fits = failed is None && begins(after.chunk.code, code) && begins(
        after.chunk.constants,
        pool,
    );
    match rule {
        ParseFn::Grouping => {
            operand_pushes_a_number(src, s, Precedence::Assign, ar, code, pool);
        },
        ParseFn::Unary => {
            operand_pushes_a_number(src, s, Precedence::Unary, ar, code, pool);
            let (s1, inner) = parse_from(src, s, Precedence::Unary, ar);
            if fits && s.previous.typ == TokenType::MINUS {
                let mid = s1.chunk.code.len() as int;
                assert(code[mid] == OpCode::Neg) by {
                    assert(after.chunk.code[mid] == OpCode::Neg);
                }
                assert forall|stack: Seq<ValueView>|
                    stack.len() + added(s, after) <= MAX_STACK implies #[trigger] one_more(
                    passage(pool, code, from, to, stack, ar),
                    stack,
                ) by {
                    passage_in_two(pool, code, from, mid, to, stack, ar);
                    let first = passage(pool, code, from, mid, stack, ar);
                    assert(one_more(first, stack));
                    match first {
                        Passage::Through(between) => {
                            let last = step(pool, code[mid], between, ar);
                            assert(passage(pool, code, mid + 1, to, last->Go_0, ar)
                                == Passage::Through(last->Go_0));
                            assert(last->Go_0.drop_last() =~= stack);
                        },
                        _ => {},
                    }
                }
            }
        },
        ParseFn::Number => {
            if fits {
                let index = s.chunk.constants.len() as int;
                assert(code[from] == OpCode::Constant(index as u8)) by {
                    assert(after.chunk.code[from] == OpCode::Constant(index as u8));
                }
                assert(pool[index] is Number) by {
                    assert(after.chunk.constants[index] is Number);
                }
                assert forall|stack: Seq<ValueView>|
                    stack.len() + added(s, after) <= MAX_STACK implies #[trigger] one_more(
                    passage(pool, code, from, to, stack, ar),
                    stack,
                ) by {
                    let first = step(pool, code[from], stack, ar);
                    assert(first is Go);
                    if first is Go {
                        assert(passage(pool, code, from + 1, to, first->Go_0, ar)
                            == Passage::Through(first->Go_0));
                        assert(first->Go_0.drop_last() =~= stack);
                    }
                }
            }
        },
        ParseFn::Binary => {
            let own = rule_of(s.previous.typ).precedence;
            if own != Precedence::Primary {
                operand_pushes_a_number(src, s, own.tighter(), ar, code, pool);
                let (s1, inner) = parse_from(src, s, own.tighter(), ar);
                if fits {
                    let mid = s1.chunk.code.len() as int;
                    let op = binary_instruction(s.previous.typ)->0;
                    assert(code[mid] == op) by {
                        assert(after.chunk.code[mid] == op);
                    }
                    assert forall|stack: Seq<ValueView>|
                        stack.len() > 0 && stack.last() is Number && stack.len() + added(s, after)
                            <= MAX_STACK implies #[trigger] top_replaced(
                        passage(pool, code, from, to, stack, ar),
                        stack,
                    ) by {
                        passage_in_two(pool, code, from, mid, to, stack, ar);
                        let first = passage(pool, code, from, mid, stack, ar);
                        assert(one_more(first, stack));
                        match first {
                            Passage::Through(between) => {
                                assert(between[between.len() - 2] == stack.last()) by {
                                    assert(between.drop_last()[stack.len() - 1] == stack.last());
                                }
                                let last = step(pool, code[mid], between, ar);
                                assert(last is Go);
                                assert(passage(pool, code, mid + 1, to, last->Go_0, ar)
                                    == Passage::Through(last->Go_0));
                                assert(last->Go_0.drop_last() =~= stack.drop_last());
                            },
                            _ => {},
                        }
                    }
                }
            }
        },
    }
}

/// A chunk that the compiler wrote for a whole source runs, from where the
/// writing began and with an empty stack, to a number as its result: no
/// error ends the run.
pub proof fn compiled_code_runs_to_a_number(src: Seq<char>, s: CompilerView, ar: Arith)
    requires
        compiled(src, s, ar).1 is None,
        s.chunk.constants.len() <= MAX_CONSTANTS,
    ensures
        ({
            let chunk = compiled(src, s, ar).0.chunk;
            let end = run_from(chunk, s.chunk.code.len() as int, Seq::empty(), ar);
            end.result is Ok && end.result->Ok_0 is Number
        }),
{
    let s1 = advanced(src, s);
    let (s2, failed) = parse_from(src, s1, Precedence::Assign, ar);
    let (s3, missing) = consumed(src, s2, TokenType::EOF, "expect end of expression"@);
    let last = emitted(s3, OpCode::Return);
    let chunk = last.chunk;
    let from = s.chunk.code.len() as int;
    let to = s2.chunk.code.len() as int;
    operand_pushes_a_number(src, s1, Precedence::Assign, ar, chunk.code, chunk.constants);
    assert(chunk.code[to] == OpCode::Return);
    let none = Seq::<ValueView>::empty();
    assert(one_more(passage(chunk.constants, chunk.code, from, to, none, ar), none));
    run_passes(chunk, from, to, none, ar);
}

} // verus!
