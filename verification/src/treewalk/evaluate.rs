//! The interpreter: it evaluates the syntax tree as `semantics` says.

use std::rc::Rc;
use vstd::prelude::*;
use crate::number::{kernel_computes, kernel_total, Arith, NumOp};
use crate::token::TokenType;
use crate::treewalk::callable::{BuiltinFunc, Callable, FuncType, Native};
use crate::treewalk::environment::{defined, extended, Environ, ScopeView};
use crate::treewalk::expressions::{call_view, expr_views, Expr};
use crate::treewalk::runtime_error::{Fault, RuntimeError, RuntimeErrorView};
use crate::treewalk::semantics::{
    binary_result, bind, call_value, eval, eval_all, exec, exec_all, fail, plan_call, repeat, run,
    shown_name, unary_result, CallPlan, Context, FuncView, Signal, World,
};
use crate::treewalk::statement::{block_view, stmt_views, Stmt};
use crate::treewalk::token::Token;
use crate::treewalk::token_type::{Object, ObjectView};
use vstd::string::StringExecFns;

verus! {

/// What ends the execution of a statement early: an error, or the value of a
/// `return` on its way to the call that it ends.
#[derive(Debug)]
pub enum RuntimeMsg {
    Fail(RuntimeError),
    Ret(Object),
}

impl View for RuntimeMsg {
    type V = Signal;

    open spec fn view(&self) -> Signal {
        match self {
            RuntimeMsg::Fail(e) => Signal::Fail(e@),
            RuntimeMsg::Ret(v) => Signal::Ret(v@),
        }
    }
}

pub open spec fn value_outcome(r: Result<Object, RuntimeMsg>) -> Result<ObjectView, Signal> {
    match r {
        Ok(v) => Ok(v@),
        Err(s) => Err(s@),
    }
}

pub open spec fn unit_outcome(r: Result<(), RuntimeMsg>) -> Result<(), Signal> {
    match r {
        Ok(_) => Ok(()),
        Err(s) => Err(s@),
    }
}

pub open spec fn run_outcome(r: Result<(), RuntimeError>) -> Result<(), RuntimeErrorView> {
    match r {
        Ok(_) => Ok(()),
        Err(e) => Err(e@),
    }
}

/// The views of a list of values.
pub open spec fn object_views(values: Seq<Object>) -> Seq<ObjectView> {
    Seq::new(values.len(), |i: int| values[i]@)
}

/// The views of a table of functions.
pub open spec fn func_views(functions: Seq<Rc<FuncType>>) -> Seq<FuncView> {
    Seq::new(functions.len(), |i: int| (*functions[i])@)
}

/// How deep calls may be nested unless the caller sets another limit.
pub const DEFAULT_DEPTH: usize = 200;

/// How often a loop may repeat unless the caller sets another limit.
pub const DEFAULT_LOOP_LIMIT: u64 = 0xffff_ffff_ffff_ffff;

/// Another handle to the function behind `f`, made by `Rc::clone` of the
/// standard library. That the new handle leads to the same function is what
/// the documentation of `Rc::clone` says; Verus is told so here without proof.
#[verifier::external_body]
fn share(f: &Rc<FuncType>) -> (r: Rc<FuncType>)
    ensures
        r == *f,
{
    Rc::clone(f)
}

/// The interpreter: the scopes, the scope in which execution stands, the
/// functions that were declared, and what was printed and not yet taken.
pub struct Interpreter {
    environ: Environ,
    environment: usize,
    functions: Vec<Rc<FuncType>>,
    output: Vec<Object>,
    clock: u64,
    depth_limit: usize,
    loop_limit: u64,
}

impl View for Interpreter {
    type V = World;

    closed spec fn view(&self) -> World {
        World {
            scopes: self.environ@,
            functions: func_views(self.functions@),
            output: object_views(self.output@),
            current: self.environment as int,
        }
    }
}

impl BuiltinFunc {
    /// What the function gives for `args`: the clock gives its reading.
    pub fn call(&self, interpreter: &Interpreter, args: Vec<Object>) -> (r: Object)
        ensures
            r@ == match self.body {
                Native::Clock => ObjectView::Num(interpreter.clock()),
            },
    {
        match self.body {
            Native::Clock => Object::Num(interpreter.clock),
        }
    }
}

impl FuncType {
    /// Runs the function on `args`, with calls nested at most `depth` deep
    /// inside it: a new scope inside the scope of the declaration takes the
    /// arguments, the body is executed there, and execution goes back to the
    /// scope of the call. The value is that of the `return` that ended the
    /// body, or nil.
    pub fn call<K: Fn(NumOp) -> u64>(
        &self,
        interpreter: &mut Interpreter,
        args: Vec<Object>,
        kernel: &K,
        depth: usize,
    ) -> (r: Result<Object, RuntimeMsg>)
        requires
            old(interpreter).well_formed(),
            kernel_total(kernel),
            args@.len() == self@.params.len(),
        ensures
            final(interpreter).succeeds(old(interpreter)),
            forall|ar: Arith| #[trigger]
                kernel_computes(kernel, ar) ==> ({
                    let w = old(interpreter)@;
                    let inside = World {
                        scopes: bind(
                            extended(w.scopes, self@.closure),
                            w.scopes.len() as int,
                            self@.params,
                            object_views(args@),
                            args@.len() as int,
                        ),
                        current: w.scopes.len() as int,
                        ..w
                    };
                    let (after, done) = exec(
                        inside,
                        self@.body,
                        depth as nat,
                        old(interpreter).context(ar),
                    );
                    (final(interpreter)@, value_outcome(r)) == (
                        World { current: w.current, ..after },
                        call_value(done),
                    )
                }),
        decreases depth, 3nat,
    {
        let caller = interpreter.environment;
        interpreter.enter(self.closure());
        interpreter.bind_arguments(self, args);
        let done = interpreter.execute_at(self.body(), kernel, depth);
        interpreter.leave(caller);
        match done {
            Err(RuntimeMsg::Fail(e)) => Err(RuntimeMsg::Fail(e)),
            Err(RuntimeMsg::Ret(ret)) => Ok(ret),
            Ok(()) => Ok(Object::Nil),
        }
    }
}

impl Interpreter {
    pub closed spec fn well_formed(&self) -> bool {
        self.environ.well_formed()
    }

    /// The reading of the clock that the function `clock` gives.
    pub closed spec fn clock(&self) -> u64 {
        self.clock
    }

    /// How deep calls may be nested.
    pub closed spec fn depth_limit(&self) -> nat {
        self.depth_limit as nat
    }

    /// How often a loop may repeat.
    pub closed spec fn loop_limit(&self) -> nat {
        self.loop_limit as nat
    }

    /// What a run of this interpreter is given from outside, with the
    /// arithmetic `ar`.
    pub open spec fn context(&self, ar: Arith) -> Context {
        Context { ar, clock: self.clock(), loop_limit: self.loop_limit() }
    }

    /// The interpreter is well formed and has the clock and the limits of `other`.
    pub open spec fn succeeds(&self, other: &Interpreter) -> bool {
        &&& self.well_formed()
        &&& self.clock() == other.clock()
        &&& self.depth_limit() == other.depth_limit()
        &&& self.loop_limit() == other.loop_limit()
    }

    /// An interpreter whose global scope defines `clock`, the function of no
    /// arguments that gives the reading of the clock.
    pub fn new() -> (r: Self)
        ensures
            r.well_formed(),
            r@ == (World {
                scopes: seq![
                    ScopeView {
                        bindings: Map::empty().insert(
                            "clock"@,
                            ObjectView::Callable(
                                Callable::Builtin(BuiltinFunc { body: Native::Clock, arity: 0 }),
                            ),
                        ),
                        enclosing: None,
                    },
                ],
                functions: Seq::empty(),
                output: Seq::empty(),
                current: 0,
            }),
            r.clock() == 0,
            r.depth_limit() == DEFAULT_DEPTH,
            r.loop_limit() == DEFAULT_LOOP_LIMIT,
    {
        let mut environ = Environ::new();
        let builtin_clock_func = Object::Callable(
            Callable::Builtin(BuiltinFunc::new(Native::Clock, 0)),
        );
        environ.define(0, String::from_str("clock"), builtin_clock_func);
        let r = Interpreter {
            environ,
            environment: 0,
            functions: Vec::new(),
            output: Vec::new(),
            clock: 0,
            depth_limit: DEFAULT_DEPTH,
            loop_limit: DEFAULT_LOOP_LIMIT,
        };
        assert(r@.functions =~= Seq::empty());
        assert(r@.output =~= Seq::empty());
        assert(r@.scopes =~= seq![
            ScopeView {
                bindings: Map::empty().insert(
                    "clock"@,
                    ObjectView::Callable(
                        Callable::Builtin(BuiltinFunc { body: Native::Clock, arity: 0 }),
                    ),
                ),
                enclosing: None,
            },
        ]);
        r
    }

    /// Sets the reading that the function `clock` gives: the bits of a number.
    pub fn set_clock(&mut self, bits: u64)
        ensures
            final(self)@ == old(self)@,
            final(self).well_formed() == old(self).well_formed(),
            final(self).clock() == bits,
            final(self).depth_limit() == old(self).depth_limit(),
            final(self).loop_limit() == old(self).loop_limit(),
    {
        self.clock = bits;
    }

    /// Sets how deep calls may be nested and how often a loop may repeat.
    pub fn set_limits(&mut self, depth: usize, iterations: u64)
        ensures
            final(self)@ == old(self)@,
            final(self).well_formed() == old(self).well_formed(),
            final(self).clock() == old(self).clock(),
            final(self).depth_limit() == depth,
            final(self).loop_limit() == iterations,
    {
        self.depth_limit = depth;
        self.loop_limit = iterations;
    }

    /// Hands out what was printed since the last call, in order.
    pub fn take_output(&mut self) -> (r: Vec<Object>)
        ensures
            object_views(r@) == old(self)@.output,
            final(self)@ == (World { output: Seq::empty(), ..old(self)@ }),
            final(self).succeeds(old(self)) == old(self).well_formed(),
    {
        let mut out: Vec<Object> = Vec::new();
        std::mem::swap(&mut out, &mut self.output);
        assert(self@.output =~= Seq::empty());
        out
    }

    /// The name under which `callee` appears in an error: the name of a
    /// declared function, and a fixed text for a function that the
    /// interpreter brings along.
    pub fn shown_name(&self, callee: &Callable) -> (r: String)
        ensures
            r@ == shown_name(self@, *callee),
    {
        match callee {
            Callable::Builtin(_) => String::from_str("<builtin function>"),
            Callable::Function(id) => if *id < self.functions.len() {
                self.functions[*id].name().lexeme.clone()
            } else {
                String::new()
            },
        }
    }

    /// The scope in which execution stands.
    pub fn environment(&self) -> (r: usize)
        ensures
            r == self@.current,
    {
        self.environment
    }

    fn check_operand(op: &Token, operand: &Object) -> (r: Result<(), RuntimeMsg>)
        ensures
            operand@ is Num ==> r is Ok,
            !(operand@ is Num) ==> r is Err && r->Err_0@ == fail(Fault::OperandMustBeNumber, op@),
    {
        match operand {
            Object::Num(_) => Ok(()),
            _ => Err(
                RuntimeMsg::Fail(RuntimeError::at(Fault::OperandMustBeNumber, op.line, &op.lexeme)),
            ),
        }
    }

    fn check_operands(op: &Token, lhs: &Object, rhs: &Object) -> (r: Result<(), RuntimeMsg>)
        ensures
            lhs@ is Num && rhs@ is Num ==> r is Ok,
            !(lhs@ is Num && rhs@ is Num) ==> r is Err && r->Err_0@ == fail(
                Fault::OperandsMustBeNumbers,
                op@,
            ),
    {
        match lhs {
            Object::Num(_) => match rhs {
                Object::Num(_) => Ok(()),
                _ => Err(
                    RuntimeMsg::Fail(
                        RuntimeError::at(Fault::OperandsMustBeNumbers, op.line, &op.lexeme),
                    ),
                ),
            },
            _ => Err(
                RuntimeMsg::Fail(RuntimeError::at(Fault::OperandsMustBeNumbers, op.line, &op.lexeme)),
            ),
        }
    }

    fn check_addition(op: &Token, lhs: &Object, rhs: &Object) -> (r: Result<(), RuntimeMsg>)
        ensures
            (lhs@ is Str && rhs@ is Str) || (lhs@ is Num && rhs@ is Num) ==> r is Ok,
            !((lhs@ is Str && rhs@ is Str) || (lhs@ is Num && rhs@ is Num)) ==> r is Err
                && r->Err_0@ == fail(Fault::OperandsMustBeNumbersOrStrings, op@),
    {
        let fits = match lhs {
            Object::Str(_) => matches!(rhs, Object::Str(_)),
            Object::Num(_) => matches!(rhs, Object::Num(_)),
            _ => false,
        };
        if fits {
            Ok(())
        } else {
            Err(
                RuntimeMsg::Fail(
                    RuntimeError::at(Fault::OperandsMustBeNumbersOrStrings, op.line, &op.lexeme),
                ),
            )
        }
    }

    /// The value of a unary operator applied to `rhs`.
    fn unary(operator: &Token, rhs: Object) -> (r: Result<Object, RuntimeMsg>)
        ensures
            value_outcome(r) == unary_result(operator@, rhs@),
    {
        match operator.ttype {
            TokenType::MINUS => {
                match Self::check_operand(operator, &rhs) {
                    Ok(()) => {},
                    Err(e) => {
                        return Err(e);
                    },
                }
                Ok(rhs.neg())
            },
            TokenType::BANG => Ok(rhs.not()),
            _ => Ok(Object::Nil),
        }
    }

    /// The value of a binary operator between `lhs` and `rhs`.
    fn binary<K: Fn(NumOp) -> u64>(op: &Token, lhs: Object, rhs: Object, kernel: &K) -> (r: Result<
        Object,
        RuntimeMsg,
    >)
        requires
            kernel_total(kernel),
        ensures
            forall|ar: Arith| #[trigger]
                kernel_computes(kernel, ar) ==> value_outcome(r) == binary_result(
                    op@,
                    lhs@,
                    rhs@,
                    ar,
                ),
    {
        match op.ttype {
            TokenType::PLUS => {
                match Self::check_addition(op, &lhs, &rhs) {
                    Ok(()) => {},
                    Err(e) => {
                        return Err(e);
                    },
                }
                return Ok(lhs.add(rhs, kernel));
            },
            TokenType::EQUAL_EQUAL => {
                return Ok(Object::Bool(lhs.equals(&rhs)));
            },
            TokenType::BANG_EQUAL => {
                return Ok(Object::Bool(!lhs.equals(&rhs)));
            },
            _ => {},
        }
        match Self::check_operands(op, &lhs, &rhs) {
            Ok(()) => {},
            Err(e) => {
                return Err(e);
            },
        }
        let res = match op.ttype {
            TokenType::MINUS => lhs.sub(rhs, kernel),
            TokenType::SLASH => lhs.div(rhs, kernel),
            TokenType::STAR => lhs.mul(rhs, kernel),
            TokenType::GREATER => Object::Bool(rhs.less_than(&lhs)),
            TokenType::GREATER_EQUAL => Object::Bool(rhs.less_equal(&lhs)),
            TokenType::LESS => Object::Bool(lhs.less_than(&rhs)),
            TokenType::LESS_EQUAL => Object::Bool(lhs.less_equal(&rhs)),
            _ => Object::Nil,
        };
        Ok(res)
    }

    /// Adds a value to what was printed.
    fn emit(&mut self, value: Object)
        ensures
            final(self)@ == (World { output: old(self)@.output.push(value@), ..old(self)@ }),
            final(self).succeeds(old(self)) == old(self).well_formed(),
    {
        self.output.push(value);
        assert(self@.output =~= old(self)@.output.push(value@));
    }

    /// Adds a function to the table and returns its place.
    fn remember(&mut self, f: FuncType) -> (r: usize)
        ensures
            final(self)@ == (World { functions: old(self)@.functions.push(f@), ..old(self)@ }),
            final(self).succeeds(old(self)) == old(self).well_formed(),
            r == old(self)@.functions.len(),
    {
        let r = self.functions.len();
        self.functions.push(Rc::new(f));
        assert(self@.functions =~= old(self)@.functions.push(f@));
        r
    }

    /// Binds `name` to `value` in the scope in which execution stands.
    fn define_here(&mut self, name: String, value: Object)
        requires
            old(self).well_formed(),
        ensures
            final(self)@ == (World {
                scopes: defined(old(self)@.scopes, old(self)@.current, name@, value@),
                ..old(self)@
            }),
            final(self).succeeds(old(self)),
    {
        self.environ.define(self.environment, name, value);
    }

    /// Makes a new scope inside `enclosing` and lets execution stand in it.
    fn enter(&mut self, enclosing: usize)
        requires
            old(self).well_formed(),
        ensures
            final(self)@ == (World {
                scopes: extended(old(self)@.scopes, enclosing as int),
                current: old(self)@.scopes.len() as int,
                ..old(self)@
            }),
            final(self).succeeds(old(self)),
    {
        let scope = self.environ.child(enclosing);
        self.environment = scope;
    }

    /// Lets execution stand in scope `scope`.
    fn leave(&mut self, scope: usize)
        ensures
            final(self)@ == (World { current: scope as int, ..old(self)@ }),
            final(self).succeeds(old(self)) == old(self).well_formed(),
    {
        self.environment = scope;
    }

    /// Binds the parameters of `func` to `arguments` in the current scope.
    fn bind_arguments(&mut self, func: &FuncType, arguments: Vec<Object>)
        requires
            old(self).well_formed(),
            arguments@.len() == func@.params.len(),
        ensures
            final(self)@ == (World {
                scopes: bind(
                    old(self)@.scopes,
                    old(self)@.current,
                    func@.params,
                    object_views(arguments@),
                    arguments@.len() as int,
                ),
                ..old(self)@
            }),
            final(self).succeeds(old(self)),
    {
        let mut i: usize = 0;
        let ghost values = object_views(arguments@);
        while i < arguments.len()
            invariant
                i <= arguments@.len(),
                arguments@.len() == func@.params.len(),
                values == object_views(arguments@),
                self.succeeds(old(self)),
                self@ == (World {
                    scopes: bind(
                        old(self)@.scopes,
                        old(self)@.current,
                        func@.params,
                        values,
                        i as int,
                    ),
                    ..old(self)@
                }),
            decreases arguments.len() - i,
        {
            let name = func.param(i).lexeme.clone();
            let value = arguments[i].duplicate();
            self.define_here(name, value);
            i += 1;
        }
    }

    /// Calls `callee` with `arguments`, at the call whose closing parenthesis
    /// is `paren`.
    fn call<K: Fn(NumOp) -> u64>(
        &mut self,
        callee: Object,
        arguments: Vec<Object>,
        paren: &Token,
        kernel: &K,
        depth: usize,
    ) -> (r: Result<Object, RuntimeMsg>)
        requires
            old(self).well_formed(),
            kernel_total(kernel),
        ensures
            final(self).succeeds(old(self)),
            forall|ar: Arith| #[trigger]
                kernel_computes(kernel, ar) ==> (final(self)@, value_outcome(r)) == (
                    match plan_call(
                        old(self)@,
                        callee@,
                        object_views(arguments@),
                        paren@,
                        old(self).context(ar),
                    ) {
                        CallPlan::Done(r) => (old(self)@, r),
                        CallPlan::Run { world, body, caller } => if depth == 0 {
                            (old(self)@, Err(fail(Fault::TooDeep, paren@)))
                        } else {
                            let (w3, r) = exec(
                                world,
                                body,
                                (depth - 1) as nat,
                                old(self).context(ar),
                            );
                            (World { current: caller, ..w3 }, call_value(r))
                        },
                    }
                ),
        decreases depth, 0nat,
    {
        match callee {
            Object::Callable(Callable::Builtin(b)) => {
                if arguments.len() != b.arity() {
                    return Err(
                        RuntimeMsg::Fail(
                            RuntimeError {
                                kind: Fault::ArityMismatch,
                                line: paren.line,
                                lexeme: String::from_str("<builtin function>"),
                                expected: b.arity(),
                                got: arguments.len(),
                            },
                        ),
                    );
                }
                Ok(b.call(self, arguments))
            },
            Object::Callable(Callable::Function(id)) => {
                if id >= self.functions.len() {
                    return Err(
                        RuntimeMsg::Fail(
                            RuntimeError::at(Fault::UnknownFunction, paren.line, &paren.lexeme),
                        ),
                    );
                }
                let func = share(&self.functions[id]);
                if arguments.len() != func.arity() {
                    return Err(
                        RuntimeMsg::Fail(
                            RuntimeError {
                                kind: Fault::ArityMismatch,
                                line: paren.line,
                                lexeme: func.name().lexeme.clone(),
                                expected: func.arity(),
                                got: arguments.len(),
                            },
                        ),
                    );
                }
                if depth == 0 {
                    return Err(
                        RuntimeMsg::Fail(
                            RuntimeError::at(Fault::TooDeep, paren.line, &paren.lexeme),
                        ),
                    );
                }
                func.call(self, arguments, kernel, depth - 1)
            },
            _ => Err(
                RuntimeMsg::Fail(RuntimeError::at(Fault::NotCallable, paren.line, &paren.lexeme)),
            ),
        }
    }

    /// Evaluates an expression, with calls nested at most `depth` deep.
    /// Whatever arithmetic `ar` the kernel computes, the value and the world
    /// afterwards are what `eval` gives for `ar`.
    #[verifier::loop_isolation(false)]
    pub fn evaluate<K: Fn(NumOp) -> u64>(&mut self, expr: &Expr, kernel: &K, depth: usize) -> (r:
        Result<Object, RuntimeMsg>)
        requires
            old(self).well_formed(),
            kernel_total(kernel),
        ensures
            final(self).succeeds(old(self)),
            forall|ar: Arith| #[trigger]
                kernel_computes(kernel, ar) ==> (final(self)@, value_outcome(r)) == eval(
                    old(self)@,
                    expr@,
                    depth as nat,
                    old(self).context(ar),
                ),
        decreases depth, 1nat, expr, 0nat,
    {
        match expr {
            Expr::Literal(value) => Ok(value.duplicate()),
            Expr::Grouping(inner) => self.evaluate(inner, kernel, depth),
            Expr::Unary(operator, right) => {
                let rhs = match self.evaluate(right, kernel, depth) {
                    Ok(v) => v,
                    Err(e) => {
                        return Err(e);
                    },
                };
                Self::unary(operator, rhs)
            },
            Expr::Binary(left, op, right) => {
                let lhs = match self.evaluate(left, kernel, depth) {
                    Ok(v) => v,
                    Err(e) => {
                        return Err(e);
                    },
                };
                let rhs = match self.evaluate(right, kernel, depth) {
                    Ok(v) => v,
                    Err(e) => {
                        return Err(e);
                    },
                };
                Self::binary(op, lhs, rhs, kernel)
            },
            Expr::Variable(name) => match self.environ.get(self.environment, name) {
                Ok(v) => Ok(v),
                Err(e) => Err(RuntimeMsg::Fail(e)),
            },
            Expr::Assign(name, value) => {
                let value = match self.evaluate(value, kernel, depth) {
                    Ok(v) => v,
                    Err(e) => {
                        return Err(e);
                    },
                };
                match self.environ.assign(self.environment, name, value.duplicate()) {
                    Ok(()) => Ok(value),
                    Err(e) => Err(RuntimeMsg::Fail(e)),
                }
            },
            Expr::Logical(lhs, operator, rhs) => {
                let left = match self.evaluate(lhs, kernel, depth) {
                    Ok(v) => v,
                    Err(e) => {
                        return Err(e);
                    },
                };
                if operator.ttype == TokenType::OR {
                    if left.is_true() {
                        return Ok(left);
                    }
                } else if !left.is_true() {
                    return Ok(left);
                }
                self.evaluate(rhs, kernel, depth)
            },
            Expr::Call(callee, paren, args) => {
                proof {
                    call_view(**callee, *paren, *args);
                }
                let function = match self.evaluate(callee, kernel, depth) {
                    Ok(v) => v,
                    Err(e) => {
                        return Err(e);
                    },
                };
                let ghost w1 = self@;
                let mut arguments: Vec<Object> = Vec::new();
                let mut i: usize = 0;
                assert(object_views(arguments@) =~= Seq::empty());
                while i < args.len()
                    invariant
                        *expr matches Expr::Call(_, _, a) && a == *args,
                        i <= args.len(),
                        self.succeeds(old(self)),
                        kernel_total(kernel),
                        forall|ar: Arith| #[trigger]
                            kernel_computes(kernel, ar) ==> eval_all(
                                self@,
                                expr_views(args@),
                                i as int,
                                object_views(arguments@),
                                depth as nat,
                                old(self).context(ar),
                            ) == eval_all(
                                w1,
                                expr_views(args@),
                                0,
                                Seq::empty(),
                                depth as nat,
                                old(self).context(ar),
                            ),
                    decreases args.len() - i,
                {
                    let ghost before = object_views(arguments@);
                    let value = match self.evaluate(&args[i], kernel, depth) {
                        Ok(v) => v,
                        Err(e) => {
                            return Err(e);
                        },
                    };
                    arguments.push(value);
                    assert(object_views(arguments@) =~= before.push(value@));
                    i += 1;
                }
                self.call(function, arguments, paren, kernel, depth)
            },
            Expr::Empty => Err(
                RuntimeMsg::Fail(
                    RuntimeError {
                        kind: Fault::EmptyExpression,
                        line: 0,
                        lexeme: String::new(),
                        expected: 0,
                        got: 0,
                    },
                ),
            ),
        }
    }

    /// Executes a statement, with calls nested at most `depth` deep.
    #[verifier::loop_isolation(false)]
    fn execute_at<K: Fn(NumOp) -> u64>(&mut self, stmt: &Stmt, kernel: &K, depth: usize) -> (r:
        Result<(), RuntimeMsg>)
        requires
            old(self).well_formed(),
            kernel_total(kernel),
        ensures
            final(self).succeeds(old(self)),
            forall|ar: Arith| #[trigger]
                kernel_computes(kernel, ar) ==> (final(self)@, unit_outcome(r)) == exec(
                    old(self)@,
                    stmt@,
                    depth as nat,
                    old(self).context(ar),
                ),
        decreases depth, 2nat, stmt, 0nat,
    {
        match stmt {
            Stmt::Expression(expr) => {
                match self.evaluate(expr, kernel, depth) {
                    Ok(_) => Ok(()),
                    Err(e) => Err(e),
                }
            },
            Stmt::Print(expr) => {
                let value = match self.evaluate(expr, kernel, depth) {
                    Ok(v) => v,
                    Err(e) => {
                        return Err(e);
                    },
                };
                self.emit(value);
                Ok(())
            },
            Stmt::Var(name, initializer) => {
                let value = if let Expr::Empty = **initializer {
                    Object::Nil
                } else {
                    match self.evaluate(initializer, kernel, depth) {
                        Ok(v) => v,
                        Err(e) => {
                            return Err(e);
                        },
                    }
                };
                self.define_here(name.lexeme.clone(), value);
                Ok(())
            },
            Stmt::Block(blocks) => {
                proof {
                    block_view(*blocks);
                }
                let previous = self.environment;
                self.enter(previous);
                let ghost inner = self@;
                let mut i: usize = 0;
                while i < blocks.len()
                    invariant
                        *stmt matches Stmt::Block(a) && a == *blocks,
                        i <= blocks.len(),
                        self.succeeds(old(self)),
                        kernel_total(kernel),
                        forall|ar: Arith| #[trigger]
                            kernel_computes(kernel, ar) ==> exec_all(
                                self@,
                                stmt_views(blocks@),
                                i as int,
                                depth as nat,
                                old(self).context(ar),
                            ) == exec_all(
                                inner,
                                stmt_views(blocks@),
                                0,
                                depth as nat,
                                old(self).context(ar),
                            ),
                    decreases blocks.len() - i,
                {
                    match self.execute_at(&blocks[i], kernel, depth) {
                        Ok(()) => {},
                        Err(e) => {
                            self.leave(previous);
                            return Err(e);
                        },
                    }
                    i += 1;
                }
                self.leave(previous);
                Ok(())
            },
            Stmt::IfStmt(condition, then, els) => {
                let eval_res = match self.evaluate(condition, kernel, depth) {
                    Ok(v) => v,
                    Err(e) => {
                        return Err(e);
                    },
                };
                if eval_res.is_true() {
                    return self.execute_at(then, kernel, depth);
                }
                self.execute_at(els, kernel, depth)
            },
            Stmt::WhileStmt(condition, body) => {
                let mut left = self.loop_limit;
                loop
                    invariant
                        *stmt matches Stmt::WhileStmt(c, b) && c == *condition && b == *body,
                        self.succeeds(old(self)),
                        kernel_total(kernel),
                        left <= old(self).loop_limit(),
                        forall|ar: Arith| #[trigger]
                            kernel_computes(kernel, ar) ==> repeat(
                                self@,
                                stmt@,
                                left as nat,
                                depth as nat,
                                old(self).context(ar),
                            ) == exec(old(self)@, stmt@, depth as nat, old(self).context(ar)),
                    decreases left,
                {
                    let go = match self.evaluate(condition, kernel, depth) {
                        Ok(v) => v.is_true(),
                        Err(e) => {
                            return Err(e);
                        },
                    };
                    if !go {
                        return Ok(());
                    }
                    if left == 0 {
                        return Err(
                            RuntimeMsg::Fail(
                                RuntimeError {
                                    kind: Fault::TooManyIterations,
                                    line: 0,
                                    lexeme: String::new(),
                                    expected: 0,
                                    got: 0,
                                },
                            ),
                        );
                    }
                    match self.execute_at(body, kernel, depth) {
                        Ok(()) => {},
                        Err(e) => {
                            return Err(e);
                        },
                    }
                    left -= 1;
                }
            },
            Stmt::Function(name, _, _) => {
                let id = self.remember(FuncType::new(stmt, self.environment));
                self.define_here(name.lexeme.clone(), Object::Callable(Callable::Function(id)));
                Ok(())
            },
            Stmt::ReturnStmt(_, value) => {
                let ret = if let Expr::Empty = **value {
                    Object::Nil
                } else {
                    match self.evaluate(value, kernel, depth) {
                        Ok(v) => v,
                        Err(e) => {
                            return Err(e);
                        },
                    }
                };
                Err(RuntimeMsg::Ret(ret))
            },
            Stmt::Empty => Ok(()),
        }
    }

    /// Executes a statement. Whatever arithmetic `ar` the kernel computes,
    /// the outcome and the world afterwards are what `exec` gives for `ar`,
    /// with calls nested as deep as the interpreter's limit allows.
    pub fn execute<K: Fn(NumOp) -> u64>(&mut self, stmt: &Stmt, kernel: &K) -> (r: Result<
        (),
        RuntimeMsg,
    >)
        requires
            old(self).well_formed(),
            kernel_total(kernel),
        ensures
            final(self).succeeds(old(self)),
            forall|ar: Arith| #[trigger]
                kernel_computes(kernel, ar) ==> (final(self)@, unit_outcome(r)) == exec(
                    old(self)@,
                    stmt@,
                    old(self).depth_limit(),
                    old(self).context(ar),
                ),
    {
        self.execute_at(stmt, kernel, self.depth_limit)
    }

    /// Runs a program: its statements in order, up to the first error, which
    /// is handed back. A `return` outside any function ends its statement
    /// and nothing else. Whatever arithmetic `ar` the kernel computes, the
    /// outcome and the world afterwards are what `run` gives for `ar`.
    pub fn interpreter<K: Fn(NumOp) -> u64>(&mut self, stmts: Vec<Stmt>, kernel: &K) -> (r: Result<
        (),
        RuntimeError,
    >)
        requires
            old(self).well_formed(),
            kernel_total(kernel),
        ensures
            final(self).succeeds(old(self)),
            forall|ar: Arith| #[trigger]
                kernel_computes(kernel, ar) ==> (final(self)@, run_outcome(r)) == run(
                    old(self)@,
                    stmt_views(stmts@),
                    0,
                    old(self).depth_limit(),
                    old(self).context(ar),
                ),
    {
        let mut i: usize = 0;
        while i < stmts.len()
            invariant
                i <= stmts.len(),
                self.succeeds(old(self)),
                kernel_total(kernel),
                forall|ar: Arith| #[trigger]
                    kernel_computes(kernel, ar) ==> run(
                        self@,
                        stmt_views(stmts@),
                        i as int,
                        old(self).depth_limit(),
                        old(self).context(ar),
                    ) == run(
                        old(self)@,
                        stmt_views(stmts@),
                        0,
                        old(self).depth_limit(),
                        old(self).context(ar),
                    ),
            decreases stmts.len() - i,
        {
            match self.execute(&stmts[i], kernel) {
                Err(RuntimeMsg::Fail(e)) => {
                    return Err(e);
                },
                _ => {},
            }
            i += 1;
        }
        Ok(())
    }
}

} // verus!
