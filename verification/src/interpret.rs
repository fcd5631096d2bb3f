//! From a source to its value, by way of the bytecode: compile, then run.

use vstd::prelude::*;
use crate::chunk::ChunkView;
use crate::compile::{compiled, Compiler, CompilerView};
use crate::custom_error::{CompileError, CompileErrorView};
use crate::number::{kernel_computes, kernel_total, Arith, NumOp};
use crate::safety::compiled_code_runs_to_a_number;
use crate::token::{Token, TokenType};
use crate::value::{Value, ValueView};
use crate::vm::{run_from, RuntimeError, VM};

verus! {

/// Why a source has no value.
#[derive(Debug)]
pub enum InterpretError {
    /// The source is no expression.
    Compile(CompileError),
    /// The machine stopped with an error.
    Runtime(RuntimeError),
}

/// Why a source has no value, with texts as sequences of characters.
pub enum InterpretErrorView {
    Compile(CompileErrorView),
    Runtime(RuntimeError),
}

impl View for InterpretError {
    type V = InterpretErrorView;

    open spec fn view(&self) -> InterpretErrorView {
        match self {
            InterpretError::Compile(e) => InterpretErrorView::Compile(e@),
            InterpretError::Runtime(e) => InterpretErrorView::Runtime(*e),
        }
    }
}

/// What came of a source: the errors of the scanner that were passed over,
/// and the value or the error that ended the work.
pub struct Interpreted {
    pub diagnostics: Vec<CompileError>,
    pub result: Result<Value, InterpretError>,
}

/// The state of a compiler before it has read anything.
pub open spec fn fresh() -> CompilerView {
    CompilerView {
        pos: 0,
        line: 1,
        current: Token { typ: TokenType::EOF, start: 0, end: 0, line: 0 },
        previous: Token { typ: TokenType::EOF, start: 0, end: 0, line: 0 },
        chunk: ChunkView { code: Seq::empty(), lines: Seq::empty(), constants: Seq::empty() },
        diagnostics: Seq::empty(),
    }
}

/// The value of a source, or the error that keeps it from having one: what
/// the machine makes of what the compiler wrote.
pub open spec fn value_of(src: Seq<char>, ar: Arith) -> Result<ValueView, InterpretErrorView> {
    let (after, failed) = compiled(src, fresh(), ar);
    match failed {
        Some(e) => Err(InterpretErrorView::Compile(e)),
        None => match run_from(after.chunk, 0, Seq::empty(), ar).result {
            Ok(v) => Ok(v),
            Err(e) => Err(InterpretErrorView::Runtime(e)),
        },
    }
}

pub open spec fn result_view(r: Result<Value, InterpretError>) -> Result<
    ValueView,
    InterpretErrorView,
> {
    match r {
        Ok(v) => Ok(v@),
        Err(e) => Err(e@),
    }
}

/// A source that compiles has a value, and the value is a number: the
/// machine never stops with an error on what the compiler wrote.
pub proof fn a_value_is_a_number(src: Seq<char>, ar: Arith)
    ensures
        match value_of(src, ar) {
            Ok(v) => v is Number,
            Err(e) => e is Compile,
        },
{
    if compiled(src, fresh(), ar).1 is None {
        compiled_code_runs_to_a_number(src, fresh(), ar);
    }
}

/// Compiles the expression in `source` and runs the code. Whatever
/// arithmetic `ar` the kernel computes, the result is `value_of` the source
/// for `ar`, which is a number or the error of the compiler, and the
/// diagnostics are the errors of the scanner that the compiler passed over.
pub fn interpret<K: Fn(NumOp) -> u64>(source: String, kernel: &K) -> (r: Interpreted)
    requires
        source@.len() < usize::MAX,
        kernel_total(kernel),
    ensures
        forall|ar: Arith| #[trigger]
            kernel_computes(kernel, ar) ==> {
                &&& result_view(r.result) == value_of(source@, ar)
                &&& !(r.result matches Err(InterpretError::Runtime(_)))
                &&& r.diagnostics@.len() == compiled(source@, fresh(), ar).0.diagnostics.len()
                &&& forall|i: int|
                    0 <= i < r.diagnostics@.len() ==> (#[trigger] r.diagnostics@[i])@ == compiled(
                        source@,
                        fresh(),
                        ar,
                    ).0.diagnostics[i]
            },
{
    proof {
        assert forall|ar: Arith| #[trigger] kernel_computes(kernel, ar) implies !(value_of(
            source@,
            ar,
        ) matches Err(InterpretErrorView::Runtime(_))) by {
            a_value_is_a_number(source@, ar);
        }
    }
    let mut compiler = Compiler::new(source);
    assert(compiler@ == fresh());
    let done = compiler.compile(kernel);
    let (diagnostics, chunk) = compiler.finish();
    match done {
        Err(e) => Interpreted { diagnostics, result: Err(InterpretError::Compile(e)) },
        Ok(()) => {
            let mut vm = VM::new(chunk);
            match vm.run(kernel) {
                Ok(v) => Interpreted { diagnostics, result: Ok(v) },
                Err(e) => Interpreted { diagnostics, result: Err(InterpretError::Runtime(e)) },
            }
        },
    }
}

} // verus!
