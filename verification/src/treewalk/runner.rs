//! From a source to what it prints: scan, parse, run.

use vstd::prelude::*;
use crate::custom_error::{CompileError, CompileErrorView};
use crate::number::{kernel_computes, kernel_total, Arith, NumOp};
use crate::treewalk::callable::Callable;
use crate::treewalk::evaluate::{object_views, Interpreter};
use crate::treewalk::grammar::{program, ParseErrorView};
use crate::treewalk::parser::{error_views, ParseError, Parser};
use crate::treewalk::runtime_error::{RuntimeError, RuntimeErrorView};
use crate::treewalk::scanner::{scanned, Scanner};
use crate::treewalk::semantics::{run, shown_name, Context, World};
use crate::treewalk::token_type::{Object, ObjectView};

verus! {

/// Why the run of a source ended early.
#[derive(Debug)]
pub enum RunError {
    /// The source holds what is no token; nothing was run.
    Scan(CompileError),
    /// A statement failed; the statements before it were run.
    Runtime(RuntimeError),
}

/// Why the run of a source ended early, with texts as sequences of characters.
pub enum RunErrorView {
    Scan(CompileErrorView),
    Runtime(RuntimeErrorView),
}

impl View for RunError {
    type V = RunErrorView;

    open spec fn view(&self) -> RunErrorView {
        match self {
            RunError::Scan(e) => RunErrorView::Scan(e@),
            RunError::Runtime(e) => RunErrorView::Runtime(e@),
        }
    }
}

impl RunError {
    /// The diagnostic for the error.
    pub fn to_string(&self) -> (r: String)
        ensures
            r@ == match self@ {
                RunErrorView::Scan(e) => e.rendering(),
                RunErrorView::Runtime(e) => e.rendering(),
            },
    {
        match self {
            RunError::Scan(e) => e.to_string(),
            RunError::Runtime(e) => e.to_string(),
        }
    }
}

/// What came of a source: the errors that the parser reported and recovered
/// from, the values that were printed, and how the run ended.
pub struct Report {
    pub parse_errors: Vec<ParseError>,
    pub printed: Vec<Object>,
    pub outcome: Result<(), RunError>,
}

/// What running a source in world `w` comes to: the world afterwards, the
/// errors of the parser, and how the run ended. A source that cannot be
/// scanned is not run at all; what can be scanned is parsed, and each
/// statement that could be parsed is run in turn.
pub open spec fn outcome_of(w: World, src: Seq<char>, depth: nat, cx: Context) -> (
    World,
    Seq<ParseErrorView>,
    Result<(), RunErrorView>,
) {
    match scanned(src, 0, 1, cx.ar, Seq::empty()) {
        Err(e) => (w, Seq::empty(), Err(RunErrorView::Scan(e))),
        Ok(tokens) => {
            let (stmts, _, errors) = program(tokens, 0, Seq::empty(), Seq::empty());
            let (after, r) = run(w, stmts, 0, depth, cx);
            (
                after,
                errors,
                match r {
                    Ok(_) => Ok(()),
                    Err(e) => Err(RunErrorView::Runtime(e)),
                },
            )
        },
    }
}

pub open spec fn outcome_view(r: Result<(), RunError>) -> Result<(), RunErrorView> {
    match r {
        Ok(_) => Ok(()),
        Err(e) => Err(e@),
    }
}

/// Runs sources one after the other in one interpreter, so that a source sees
/// what the sources before it defined.
pub struct Runner {
    interpreter: Interpreter,
}

impl Runner {
    /// The interpreter in which the sources run.
    pub closed spec fn interpreter(&self) -> Interpreter {
        self.interpreter
    }

    pub open spec fn well_formed(&self) -> bool {
        self.interpreter().well_formed()
    }

    /// A runner with a new interpreter.
    pub fn new() -> (r: Self)
        ensures
            r.well_formed(),
            r.interpreter()@.output == Seq::<ObjectView>::empty(),
    {
        Runner { interpreter: Interpreter::new() }
    }

    /// Sets the reading that the function `clock` gives: the bits of a number.
    pub fn set_clock(&mut self, bits: u64)
        ensures
            final(self).interpreter()@ == old(self).interpreter()@,
            final(self).well_formed() == old(self).well_formed(),
            final(self).interpreter().clock() == bits,
            final(self).interpreter().depth_limit() == old(self).interpreter().depth_limit(),
            final(self).interpreter().loop_limit() == old(self).interpreter().loop_limit(),
    {
        self.interpreter.set_clock(bits);
    }

    /// The name under which a function value is shown.
    pub fn shown_name(&self, callee: &Callable) -> (r: String)
        ensures
            r@ == shown_name(self.interpreter()@, *callee),
    {
        self.interpreter.shown_name(callee)
    }

    /// Scans, parses and runs a source, and hands out what was printed.
    /// Whatever arithmetic `ar` the kernel computes, the report and the world
    /// afterwards are what `outcome_of` gives for `ar`; nothing that was
    /// printed stays behind in the interpreter.
    pub fn run<K: Fn(NumOp) -> u64>(&mut self, source: &str, kernel: &K) -> (r: Report)
        requires
            old(self).well_formed(),
            source@.len() < usize::MAX,
            kernel_total(kernel),
        ensures
            final(self).interpreter().succeeds(&old(self).interpreter()),
            forall|ar: Arith| #[trigger]
                kernel_computes(kernel, ar) ==> ({
                    let (after, errors, outcome) = outcome_of(
                        old(self).interpreter()@,
                        source@,
                        old(self).interpreter().depth_limit(),
                        old(self).interpreter().context(ar),
                    );
                    &&& final(self).interpreter()@ == (World { output: Seq::empty(), ..after })
                    &&& object_views(r.printed@) == after.output
                    &&& error_views(r.parse_errors@) == errors
                    &&& outcome_view(r.outcome) == outcome
                }),
    {
        let mut scanner = Scanner::new(source);
        let tokens = match scanner.scan_tokens(kernel) {
            Ok(tokens) => tokens,
            Err(e) => {
                let printed = self.interpreter.take_output();
                let parse_errors: Vec<ParseError> = Vec::new();
                assert(error_views(parse_errors@) =~= Seq::<ParseErrorView>::empty());
                return Report { parse_errors, printed, outcome: Err(RunError::Scan(e)) };
            },
        };
        let mut parser = Parser::new(tokens);
        let stmts = parser.parse();
        let parse_errors = parser.take_errors();
        let outcome = match self.interpreter.interpreter(stmts, kernel) {
            Ok(()) => Ok(()),
            Err(e) => Err(RunError::Runtime(e)),
        };
        let printed = self.interpreter.take_output();
        Report { parse_errors, printed, outcome }
    }
}

} // verus!
