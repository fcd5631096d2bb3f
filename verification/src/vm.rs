//! The stack machine that runs a chunk of bytecode.

use vstd::prelude::*;
use crate::chunk::{Chunk, ChunkView, OpCode};
use crate::number::{
    kernel_computes, kernel_total, negated, num_less, number_lt, number_neg, Arith, NumOp,
    NumOpView,
};
use crate::value::{Value, ValueView};
use vstd::string::StringExecFns;

verus! {

/// The number of values that the operand stack can hold.
pub const MAX_STACK: usize = 256;

/// Why the machine stopped without a result.
#[derive(Clone, Copy, Debug, PartialEq, Eq, Structural)]
pub enum RuntimeErrorKind {
    /// `Neg` found something other than a number.
    OperandMustBeNumber,
    /// An arithmetic instruction or a comparison found something other than
    /// two numbers.
    OperandsMustBeNumbers,
    /// `Add` found neither two numbers nor two strings.
    OperandsMustBeNumbersOrStrings,
    /// A value was pushed onto a full stack.
    StackOverflow,
    /// An instruction needed more values than the stack held.
    StackUnderflow,
    /// A `Constant` instruction carried an index that the pool does not hold.
    BadConstant,
    /// The instructions ended without a `Return`.
    MissingReturn,
}

impl RuntimeErrorKind {
    /// What went wrong, in words.
    pub open spec fn message_spec(self) -> Seq<char> {
        match self {
            RuntimeErrorKind::OperandMustBeNumber => "operand must be number"@,
            RuntimeErrorKind::OperandsMustBeNumbers => "operands must be numbers"@,
            RuntimeErrorKind::OperandsMustBeNumbersOrStrings =>
                "operands must be two numbers or two strings"@,
            RuntimeErrorKind::StackOverflow => "internal error: operand stack overflow"@,
            RuntimeErrorKind::StackUnderflow => "internal error: operand stack underflow"@,
            RuntimeErrorKind::BadConstant => "internal error: constant index out of range"@,
            RuntimeErrorKind::MissingReturn => "internal error: instructions end without return"@,
        }
    }

    /// What went wrong, in words.
    pub fn message(&self) -> (r: &'static str)
        ensures
            r@ == self.message_spec(),
    {
        match self {
            RuntimeErrorKind::OperandMustBeNumber => "operand must be number",
            RuntimeErrorKind::OperandsMustBeNumbers => "operands must be numbers",
            RuntimeErrorKind::OperandsMustBeNumbersOrStrings =>
                "operands must be two numbers or two strings",
            RuntimeErrorKind::StackOverflow => "internal error: operand stack overflow",
            RuntimeErrorKind::StackUnderflow => "internal error: operand stack underflow",
            RuntimeErrorKind::BadConstant => "internal error: constant index out of range",
            RuntimeErrorKind::MissingReturn => "internal error: instructions end without return",
        }
    }

    /// Whether the error shows a fault of the compiler, not of the program.
    pub open spec fn is_internal(self) -> bool {
        self == RuntimeErrorKind::StackOverflow || self == RuntimeErrorKind::StackUnderflow || self
            == RuntimeErrorKind::BadConstant || self == RuntimeErrorKind::MissingReturn
    }
}

/// A runtime error: what went wrong, and the source line of the instruction
/// at which it did (0 where the instructions had ended).
#[derive(Clone, Copy, Debug, PartialEq, Eq, Structural)]
pub struct RuntimeError {
    pub line: usize,
    pub kind: RuntimeErrorKind,
}

/// What one instruction does to the stack.
pub enum Step {
    /// The machine goes on with this stack.
    Go(Seq<ValueView>),
    /// The machine returns this value and leaves this stack.
    Halt(ValueView, Seq<ValueView>),
    /// The machine stops with an error.
    Fault(RuntimeErrorKind),
}

/// The stack with `v` on top, unless it is full.
pub open spec fn pushed(stack: Seq<ValueView>, v: ValueView) -> Step {
    if stack.len() >= MAX_STACK {
        Step::Fault(RuntimeErrorKind::StackOverflow)
    } else {
        Step::Go(stack.push(v))
    }
}

/// What an instruction with two operands makes of them: `b` was on top of `a`.
pub open spec fn combined(ins: OpCode, a: ValueView, b: ValueView, ar: Arith) -> Result<
    ValueView,
    RuntimeErrorKind,
> {
    match ins {
        OpCode::Equal => Ok(ValueView::Boolean(a.equal_to(b))),
        OpCode::Add => match (a, b) {
            (ValueView::Number(x), ValueView::Number(y)) => Ok(
                ValueView::Number(ar(NumOpView::Add(x, y))),
            ),
            (ValueView::Str(x), ValueView::Str(y)) => Ok(ValueView::Str(x + y)),
            _ => Err(RuntimeErrorKind::OperandsMustBeNumbersOrStrings),
        },
        _ => match (a, b) {
            (ValueView::Number(x), ValueView::Number(y)) => Ok(
                match ins {
                    OpCode::Sub => ValueView::Number(ar(NumOpView::Sub(x, y))),
                    OpCode::Mul => ValueView::Number(ar(NumOpView::Mul(x, y))),
                    OpCode::Div => ValueView::Number(ar(NumOpView::Div(x, y))),
                    OpCode::Greater => ValueView::Boolean(num_less(y, x)),
                    _ => ValueView::Boolean(num_less(x, y)),
                },
            ),
            _ => Err(RuntimeErrorKind::OperandsMustBeNumbers),
        },
    }
}

/// Whether the instruction takes two operands from the stack.
pub open spec fn is_binary(ins: OpCode) -> bool {
    ins == OpCode::Add || ins == OpCode::Sub || ins == OpCode::Mul || ins == OpCode::Div || ins
        == OpCode::Greater || ins == OpCode::Less || ins == OpCode::Equal
}

/// What instruction `ins` does to `stack`, over the given constants.
pub open spec fn step(constants: Seq<ValueView>, ins: OpCode, stack: Seq<ValueView>, ar: Arith)
    -> Step {
    match ins {
        OpCode::Return => if stack.len() == 0 {
            Step::Fault(RuntimeErrorKind::StackUnderflow)
        } else {
            Step::Halt(stack.last(), stack.drop_last())
        },
        OpCode::Constant(k) => if k < constants.len() {
            pushed(stack, constants[k as int])
        } else {
            Step::Fault(RuntimeErrorKind::BadConstant)
        },
        OpCode::True => pushed(stack, ValueView::Boolean(true)),
        OpCode::False => pushed(stack, ValueView::Boolean(false)),
        OpCode::Nil => pushed(stack, ValueView::Nil),
        OpCode::Neg => if stack.len() == 0 {
            Step::Fault(RuntimeErrorKind::StackUnderflow)
        } else {
            match stack.last() {
                ValueView::Number(n) => Step::Go(
                    stack.drop_last().push(ValueView::Number(negated(n))),
                ),
                _ => Step::Fault(RuntimeErrorKind::OperandMustBeNumber),
            }
        },
        OpCode::Not => if stack.len() == 0 {
            Step::Fault(RuntimeErrorKind::StackUnderflow)
        } else {
            Step::Go(stack.drop_last().push(ValueView::Boolean(stack.last().is_falsey())))
        },
        _ => if stack.len() < 2 {
            Step::Fault(RuntimeErrorKind::StackUnderflow)
        } else {
            match combined(ins, stack[stack.len() - 2], stack.last(), ar) {
                Ok(v) => Step::Go(stack.drop_last().drop_last().push(v)),
                Err(kind) => Step::Fault(kind),
            }
        },
    }
}

/// How a run ends: with the value of the `Return` or with an error, the
/// counter at the instruction that ended it, and the stack that is left
/// (empty after an error).
pub struct RunEnd {
    pub result: Result<ValueView, RuntimeError>,
    pub ip: int,
    pub stack: Seq<ValueView>,
}

/// The line of the instruction at `ip`, or 0 if there is none.
pub open spec fn line_at(chunk: ChunkView, ip: int) -> usize {
    if 0 <= ip < chunk.lines.len() {
        chunk.lines[ip]
    } else {
        0
    }
}

/// The run of `chunk` from instruction `ip` with the given stack: one
/// instruction after the other, until a `Return` or an error.
pub open spec fn run_from(chunk: ChunkView, ip: int, stack: Seq<ValueView>, ar: Arith) -> RunEnd
    decreases chunk.code.len() - ip,
{
    if ip < 0 || ip >= chunk.code.len() {
        RunEnd {
            result: Err(RuntimeError { line: 0, kind: RuntimeErrorKind::MissingReturn }),
            ip,
            stack: Seq::empty(),
        }
    } else {
        match step(chunk.constants, chunk.code[ip], stack, ar) {
            Step::Go(next) => run_from(chunk, ip + 1, next, ar),
            Step::Halt(value, rest) => RunEnd { result: Ok(value), ip, stack: rest },
            Step::Fault(kind) => RunEnd {
                result: Err(RuntimeError { line: line_at(chunk, ip), kind }),
                ip,
                stack: Seq::empty(),
            },
        }
    }
}

/// The view of a result of the machine.
pub open spec fn result_view(r: Result<Value, RuntimeError>) -> Result<ValueView, RuntimeError> {
    match r {
        Ok(v) => Ok(v@),
        Err(e) => Err(e),
    }
}

/// The machine: a chunk, the operand stack, and the counter that points to
/// the next instruction.
pub struct VM {
    chunk: Chunk,
    stack: Vec<Value>,
    ip: usize,
}

impl VM {
    /// The chunk that the machine runs.
    pub closed spec fn program(&self) -> ChunkView {
        self.chunk@
    }

    /// The operand stack, the top last.
    pub closed spec fn operands(&self) -> Seq<ValueView> {
        Seq::new(self.stack@.len(), |i: int| self.stack@[i]@)
    }

    /// The index of the next instruction.
    pub closed spec fn counter(&self) -> int {
        self.ip as int
    }

    /// The chunk is well formed and the stack is within its bound.
    pub closed spec fn well_formed(&self) -> bool {
        &&& self.chunk.well_formed()
        &&& self.stack@.len() <= MAX_STACK
    }

    /// A machine at the first instruction of `chunk`, with an empty stack.
    pub fn new(chunk: Chunk) -> (r: Self)
        requires
            chunk.well_formed(),
        ensures
            r.well_formed(),
            r.program() == chunk@,
            r.operands() == Seq::<ValueView>::empty(),
            r.counter() == 0,
    {
        let r = Self { chunk, stack: Vec::new(), ip: 0 };
        assert(r.operands() =~= Seq::<ValueView>::empty());
        r
    }

    /// The number of values on the stack.
    pub fn depth(&self) -> (r: usize)
        ensures
            r == self.operands().len(),
    {
        self.stack.len()
    }

    /// Pushes a value, unless the stack is full.
    fn push(&mut self, value: Value) -> (r: Result<(), RuntimeErrorKind>)
        requires
            old(self).well_formed(),
        ensures
            final(self).well_formed(),
            final(self).chunk == old(self).chunk,
            final(self).ip == old(self).ip,
            match pushed(old(self).operands(), value@) {
                Step::Go(next) => r is Ok && final(self).operands() == next,
                Step::Fault(kind) => r == Err::<(), RuntimeErrorKind>(kind) && final(self).operands()
                    == old(self).operands(),
                _ => false,
            },
    {
        if self.stack.len() >= MAX_STACK {
            return Err(RuntimeErrorKind::StackOverflow);
        }
        self.stack.push(value);
        assert(self.operands() =~= old(self).operands().push(value@));
        Ok(())
    }

    /// Takes the top value off the stack, if there is one.
    fn pop(&mut self) -> (r: Option<Value>)
        requires
            old(self).well_formed(),
        ensures
            final(self).well_formed(),
            final(self).chunk == old(self).chunk,
            final(self).ip == old(self).ip,
            old(self).operands().len() == 0 ==> r is None && final(self).operands()
                == old(self).operands(),
            old(self).operands().len() > 0 ==> r is Some && r->0@ == old(self).operands().last()
                && final(self).operands() == old(self).operands().drop_last(),
    {
        let r = self.stack.pop();
        assert(self.operands() =~= if old(self).operands().len() == 0 {
            old(self).operands()
        } else {
            old(self).operands().drop_last()
        });
        r
    }

    /// The value `offset` places below the top, if the stack reaches that far.
    fn peek(&self, offset: usize) -> (r: Option<&Value>)
        ensures
            offset < self.operands().len() ==> r is Some && r->0@ == self.operands()[
                self.operands().len() - 1 - offset
            ],
            offset >= self.operands().len() ==> r is None,
    {
        if offset < self.stack.len() {
            Some(&self.stack[self.stack.len() - 1 - offset])
        } else {
            None
        }
    }

    /// The error of the given kind at the current instruction. The stack is emptied.
    fn raise(&mut self, kind: RuntimeErrorKind) -> (r: RuntimeError)
        requires
            old(self).well_formed(),
        ensures
            final(self).well_formed(),
            final(self).chunk == old(self).chunk,
            final(self).ip == old(self).ip,
            final(self).operands() == Seq::<ValueView>::empty(),
            r == (RuntimeError { line: line_at(old(self).program(), old(self).counter()), kind }),
    {
        let line = match self.chunk.get_line_nu(self.ip) {
            Some(l) => l,
            None => 0,
        };
        self.stack.clear();
        assert(self.operands() =~= Seq::<ValueView>::empty());
        RuntimeError { line, kind }
    }

    /// What an instruction with two operands makes of them.
    fn combine<K: Fn(NumOp) -> u64>(ins: OpCode, a: Value, b: Value, kernel: &K) -> (r: Result<
        Value,
        RuntimeErrorKind,
    >)
        requires
            kernel_total(kernel),
            is_binary(ins),
        ensures
            forall|ar: Arith| #[trigger]
                kernel_computes(kernel, ar) ==> match combined(ins, a@, b@, ar) {
                    Ok(v) => r is Ok && r->Ok_0@ == v,
                    Err(kind) => r == Err::<Value, RuntimeErrorKind>(kind),
                },
    {
        match ins {
            OpCode::Equal => Ok(Value::Boolean(a.equals(&b))),
            OpCode::Add => match (a, b) {
                (Value::Number(x), Value::Number(y)) => Ok(Value::Number(kernel(NumOp::Add(x, y)))),
                (Value::Str(x), Value::Str(y)) => Ok(Value::Str(x.concat(y.as_str()))),
                _ => Err(RuntimeErrorKind::OperandsMustBeNumbersOrStrings),
            },
            _ => match (a, b) {
                (Value::Number(x), Value::Number(y)) => Ok(
                    match ins {
                        OpCode::Sub => Value::Number(kernel(NumOp::Sub(x, y))),
                        OpCode::Mul => Value::Number(kernel(NumOp::Mul(x, y))),
                        OpCode::Div => Value::Number(kernel(NumOp::Div(x, y))),
                        OpCode::Greater => Value::Boolean(number_lt(y, x)),
                        _ => Value::Boolean(number_lt(x, y)),
                    },
                ),
                _ => Err(RuntimeErrorKind::OperandsMustBeNumbers),
            },
        }
    }

    /// Executes one instruction on the stack. `Ok(Some(v))` is the value of a
    /// `Return`; after an error the stack is as the instruction left it.
    fn execute<K: Fn(NumOp) -> u64>(&mut self, ins: OpCode, kernel: &K) -> (r: Result<
        Option<Value>,
        RuntimeErrorKind,
    >)
        requires
            old(self).well_formed(),
            kernel_total(kernel),
        ensures
            final(self).well_formed(),
            final(self).chunk == old(self).chunk,
            final(self).ip == old(self).ip,
            forall|ar: Arith| #[trigger]
                kernel_computes(kernel, ar) ==> match step(
                    old(self).program().constants,
                    ins,
                    old(self).operands(),
                    ar,
                ) {
                    Step::Go(next) => r == Ok::<Option<Value>, RuntimeErrorKind>(None)
                        && final(self).operands() == next,
                    Step::Halt(value, rest) => r is Ok && r->Ok_0 is Some && r->Ok_0->0@ == value
                        && final(self).operands() == rest,
                    Step::Fault(kind) => r == Err::<Option<Value>, RuntimeErrorKind>(kind),
                },
    {
        match ins {
            OpCode::Return => match self.pop() {
                Some(v) => Ok(Some(v)),
                None => Err(RuntimeErrorKind::StackUnderflow),
            },
            OpCode::Constant(k) => match self.chunk.get_constant(k as usize) {
                Some(v) => match self.push(v) {
                    Ok(()) => Ok(None),
                    Err(kind) => Err(kind),
                },
                None => Err(RuntimeErrorKind::BadConstant),
            },
            OpCode::True => match self.push(Value::Boolean(true)) {
                Ok(()) => Ok(None),
                Err(kind) => Err(kind),
            },
            OpCode::False => match self.push(Value::Boolean(false)) {
                Ok(()) => Ok(None),
                Err(kind) => Err(kind),
            },
            OpCode::Nil => match self.push(Value::Nil) {
                Ok(()) => Ok(None),
                Err(kind) => Err(kind),
            },
            OpCode::Neg => match self.pop() {
                Some(Value::Number(n)) => {
                    let pushed = self.push(Value::Number(number_neg(n)));
                    Ok(None)
                },
                Some(_) => Err(RuntimeErrorKind::OperandMustBeNumber),
                None => Err(RuntimeErrorKind::StackUnderflow),
            },
            OpCode::Not => match self.pop() {
                Some(v) => {
                    let pushed = self.push(Value::Boolean(v.is_false()));
                    Ok(None)
                },
                None => Err(RuntimeErrorKind::StackUnderflow),
            },
            _ => {
                if self.stack.len() < 2 {
                    return Err(RuntimeErrorKind::StackUnderflow);
                }
                let b = self.pop();
                let a = self.pop();
                match (a, b) {
                    (Some(a), Some(b)) => match Self::combine(ins, a, b, kernel) {
                        Ok(v) => {
                            let pushed = self.push(v);
                            Ok(None)
                        },
                        Err(kind) => Err(kind),
                    },
                    _ => Err(RuntimeErrorKind::StackUnderflow),
                }
            },
        }
    }

    /// Runs the chunk from the current instruction until a `Return` hands
    /// back the value on top of the stack, or until an error. Numbers are added,
    /// subtracted, multiplied and divided by the kernel: whatever arithmetic
    /// `ar` the kernel computes, the run ends as `run_from` says for `ar`.
    pub fn run<K: Fn(NumOp) -> u64>(&mut self, kernel: &K) -> (r: Result<Value, RuntimeError>)
        requires
            old(self).well_formed(),
            kernel_total(kernel),
        ensures
            final(self).well_formed(),
            final(self).program() == old(self).program(),
            forall|ar: Arith| #[trigger]
                kernel_computes(kernel, ar) ==> (RunEnd {
                    result: result_view(r),
                    ip: final(self).counter(),
                    stack: final(self).operands(),
                }) == run_from(old(self).program(), old(self).counter(), old(self).operands(), ar),
    {
        loop
            invariant
                self.well_formed(),
                self.chunk == old(self).chunk,
                kernel_total(kernel),
                forall|ar: Arith| #[trigger]
                    kernel_computes(kernel, ar) ==> run_from(
                        self.program(),
                        self.counter(),
                        self.operands(),
                        ar,
                    ) == run_from(
                        old(self).program(),
                        old(self).counter(),
                        old(self).operands(),
                        ar,
                    ),
            decreases self.chunk@.code.len() - self.ip,
        {
            let ins = match self.chunk.fetch(self.ip) {
                Some(ins) => ins,
                None => {
                    let e = self.raise(RuntimeErrorKind::MissingReturn);
                    return Err(e);
                },
            };
            match self.execute(ins, kernel) {
                Ok(Some(v)) => {
                    return Ok(v);
                },
                Ok(None) => {
                    proof {
                        self.chunk.length_fits();
                    }
                    self.ip += 1;
                },
                Err(kind) => {
                    let e = self.raise(kind);
                    return Err(e);
                },
            }
        }
    }
}

/// `Add` joins two strings and adds two numbers; any other pair of operands,
/// such as a string and a number in either order, is an error.
pub proof fn add_takes_two_of_a_kind(a: ValueView, b: ValueView, ar: Arith)
    ensures
        a is Str && b is Str ==> combined(OpCode::Add, a, b, ar) == Ok::<
            ValueView,
            RuntimeErrorKind,
        >(ValueView::Str(a->Str_0 + b->Str_0)),
        a is Number && b is Number ==> combined(OpCode::Add, a, b, ar) is Ok && combined(
            OpCode::Add,
            a,
            b,
            ar,
        )->Ok_0 is Number,
        !(a is Str && b is Str) && !(a is Number && b is Number) ==> combined(
            OpCode::Add,
            a,
            b,
            ar,
        ) == Err::<ValueView, RuntimeErrorKind>(RuntimeErrorKind::OperandsMustBeNumbersOrStrings),
{
}

} // verus!
