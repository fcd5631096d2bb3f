//! What a program means: the value of each expression and the effect of each
//! statement on the world in which it runs.
//!
//! The world is the scopes, the functions that were declared, what was
//! printed, and the scope in which execution stands. A call may go `depth`
//! functions deep and a loop may repeat `loop_limit` times; what goes beyond
//! ends with an error, so that every run ends.

use vstd::prelude::*;
use crate::number::{num_less, num_less_equal, Arith};
use crate::token::TokenType;
use crate::treewalk::callable::{Callable, Native};
use crate::treewalk::environment::{assigned, defined, extended, holder, lookup, ScopeView};
use crate::treewalk::expressions::ExprView;
use crate::treewalk::runtime_error::{fault_at, Fault, RuntimeErrorView};
use crate::treewalk::statement::StmtView;
use crate::treewalk::token::TokenView;
use crate::treewalk::token_type::ObjectView;

verus! {

/// A declared function: its name, its parameters, its body, and the scope in
/// which it was declared, where its free variables are looked up.
pub struct FuncView {
    pub name: TokenView,
    pub params: Seq<TokenView>,
    pub body: StmtView,
    pub closure: int,
}

/// The world in which a program runs.
pub struct World {
    /// All scopes; scope 0 is the global one.
    pub scopes: Seq<ScopeView>,
    /// The functions that were declared, in the order of their declaration.
    pub functions: Seq<FuncView>,
    /// The values that were printed, in order.
    pub output: Seq<ObjectView>,
    /// The scope in which execution stands.
    pub current: int,
}

/// What a run is given from outside: the arithmetic, the reading of the
/// clock, and the number of times that a loop may repeat.
pub struct Context {
    pub ar: Arith,
    pub clock: u64,
    pub loop_limit: nat,
}

/// What ends the execution of a statement early: an error, or the value of a
/// `return`, which travels up to the call that it ends.
pub enum Signal {
    Fail(RuntimeErrorView),
    Ret(ObjectView),
}

pub type Evaluated = (World, Result<ObjectView, Signal>);

pub type Executed = (World, Result<(), Signal>);

/// The error of the given kind at `token`.
pub open spec fn fail(kind: Fault, token: TokenView) -> Signal {
    Signal::Fail(fault_at(kind, token.line, token.lexeme))
}

/// The error of the given kind where no token is at hand.
pub open spec fn fail_nowhere(kind: Fault) -> Signal {
    Signal::Fail(fault_at(kind, 0, Seq::empty()))
}

/// The name under which something that can be called appears in an error.
pub open spec fn shown_name(w: World, c: Callable) -> Seq<char> {
    match c {
        Callable::Builtin(_) => "<builtin function>"@,
        Callable::Function(id) => if id < w.functions.len() {
            w.functions[id as int].name.lexeme
        } else {
            Seq::empty()
        },
    }
}

/// The error for a call with `got` arguments of a function that takes `expected`.
pub open spec fn arity_error(paren: TokenView, name: Seq<char>, expected: usize, got: usize)
    -> Signal {
    Signal::Fail(
        RuntimeErrorView {
            kind: Fault::ArityMismatch,
            line: paren.line,
            lexeme: name,
            expected,
            got,
        },
    )
}

/// The value of a unary operator applied to `v`: `-` takes a number, `!`
/// takes anything.
pub open spec fn unary_result(op: TokenView, v: ObjectView) -> Result<ObjectView, Signal> {
    if op.ttype == TokenType::MINUS {
        if v is Num {
            Ok(v.negative())
        } else {
            Err(fail(Fault::OperandMustBeNumber, op))
        }
    } else if op.ttype == TokenType::BANG {
        Ok(v.inverted())
    } else {
        Ok(ObjectView::Nil)
    }
}

/// The value of a binary operator between `l` and `r`. `+` takes two
/// strings or two numbers. `==` and `!=` take any two values. Every other
/// operator takes two numbers.
pub open spec fn binary_result(op: TokenView, l: ObjectView, r: ObjectView, ar: Arith) -> Result<
    ObjectView,
    Signal,
> {
    if op.ttype == TokenType::PLUS {
        if (l is Str && r is Str) || (l is Num && r is Num) {
            Ok(l.sum(r, ar))
        } else {
            Err(fail(Fault::OperandsMustBeNumbersOrStrings, op))
        }
    } else if op.ttype == TokenType::EQUAL_EQUAL {
        Ok(ObjectView::Bool(l.equal_to(r)))
    } else if op.ttype == TokenType::BANG_EQUAL {
        Ok(ObjectView::Bool(!l.equal_to(r)))
    } else if !(l is Num && r is Num) {
        Err(fail(Fault::OperandsMustBeNumbers, op))
    } else if op.ttype == TokenType::MINUS {
        Ok(l.difference(r, ar))
    } else if op.ttype == TokenType::SLASH {
        Ok(l.quotient(r, ar))
    } else if op.ttype == TokenType::STAR {
        Ok(l.product(r, ar))
    } else if op.ttype == TokenType::GREATER {
        Ok(ObjectView::Bool(num_less(r.as_number(), l.as_number())))
    } else if op.ttype == TokenType::GREATER_EQUAL {
        Ok(ObjectView::Bool(num_less_equal(r.as_number(), l.as_number())))
    } else if op.ttype == TokenType::LESS {
        Ok(ObjectView::Bool(num_less(l.as_number(), r.as_number())))
    } else if op.ttype == TokenType::LESS_EQUAL {
        Ok(ObjectView::Bool(num_less_equal(l.as_number(), r.as_number())))
    } else {
        Ok(ObjectView::Nil)
    }
}

/// The scopes after the first `n` parameters were bound to the first `n`
/// arguments in scope `scope`.
pub open spec fn bind(
    scopes: Seq<ScopeView>,
    scope: int,
    params: Seq<TokenView>,
    args: Seq<ObjectView>,
    n: int,
) -> Seq<ScopeView>
    decreases n,
{
    if n <= 0 || n > params.len() || n > args.len() {
        scopes
    } else {
        defined(bind(scopes, scope, params, args, n - 1), scope, params[n - 1].lexeme, args[n - 1])
    }
}

/// What a call comes to before any body runs.
pub enum CallPlan {
    /// The call is over: it failed, or a function that the interpreter
    /// brings along gave its value.
    Done(Result<ObjectView, Signal>),
    /// The body runs in the given world, which stands in a new scope that
    /// holds the arguments; then execution goes back to scope `caller`.
    Run { world: World, body: StmtView, caller: int },
}

/// What calling `callee` with `args` comes to, at the call whose closing
/// parenthesis is `paren`. Only what can be called is called, and only with
/// as many arguments as it takes. The body of a declared function runs in a
/// new scope inside the scope of its declaration, not inside that of the call.
pub open spec fn plan_call(
    w: World,
    callee: ObjectView,
    args: Seq<ObjectView>,
    paren: TokenView,
    cx: Context,
) -> CallPlan {
    match callee {
        ObjectView::Callable(Callable::Builtin(b)) => if args.len() != b.arity {
            CallPlan::Done(
                Err(
                    arity_error(
                        paren,
                        shown_name(w, Callable::Builtin(b)),
                        b.arity,
                        args.len() as usize,
                    ),
                ),
            )
        } else {
            match b.body {
                Native::Clock => CallPlan::Done(Ok(ObjectView::Num(cx.clock))),
            }
        },
        ObjectView::Callable(Callable::Function(id)) => if id >= w.functions.len() {
            CallPlan::Done(Err(fail(Fault::UnknownFunction, paren)))
        } else {
            let f = w.functions[id as int];
            if args.len() != f.params.len() {
                CallPlan::Done(
                    Err(
                        arity_error(
                            paren,
                            f.name.lexeme,
                            f.params.len() as usize,
                            args.len() as usize,
                        ),
                    ),
                )
            } else {
                CallPlan::Run {
                    world: World {
                        scopes: bind(
                            extended(w.scopes, f.closure),
                            w.scopes.len() as int,
                            f.params,
                            args,
                            args.len() as int,
                        ),
                        current: w.scopes.len() as int,
                        ..w
                    },
                    body: f.body,
                    caller: w.current,
                }
            }
        },
        _ => CallPlan::Done(Err(fail(Fault::NotCallable, paren))),
    }
}

/// What a call gives once its body has run: the value of the `return` that
/// ended it, nil if none did, or the error.
pub open spec fn call_value(r: Result<(), Signal>) -> Result<ObjectView, Signal> {
    match r {
        Ok(_) => Ok(ObjectView::Nil),
        Err(Signal::Ret(v)) => Ok(v),
        Err(Signal::Fail(e)) => Err(Signal::Fail(e)),
    }
}

/// The value of expression `e` in world `w`, and the world after it.
pub open spec fn eval(w: World, e: ExprView, depth: nat, cx: Context) -> Evaluated
    decreases depth, 0nat, e, 0nat,
{
    match e {
        ExprView::Literal(v) => (w, Ok(v)),
        ExprView::Grouping(inner) => eval(w, *inner, depth, cx),
        ExprView::Unary(op, right) => {
            let (w1, r) = eval(w, *right, depth, cx);
            match r {
                Err(s) => (w1, Err(s)),
                Ok(v) => (w1, unary_result(op, v)),
            }
        },
        ExprView::Binary(left, op, right) => {
            let (w1, l) = eval(w, *left, depth, cx);
            match l {
                Err(s) => (w1, Err(s)),
                Ok(x) => {
                    let (w2, r) = eval(w1, *right, depth, cx);
                    match r {
                        Err(s) => (w2, Err(s)),
                        Ok(y) => (w2, binary_result(op, x, y, cx.ar)),
                    }
                },
            }
        },
        ExprView::Variable(name) => (
            w,
            match lookup(w.scopes, w.current, name.lexeme) {
                Some(v) => Ok(v),
                None => Err(fail(Fault::UndefinedVariable, name)),
            },
        ),
        ExprView::Assign(name, value) => {
            let (w1, r) = eval(w, *value, depth, cx);
            match r {
                Err(s) => (w1, Err(s)),
                Ok(v) => if holder(w1.scopes, w1.current, name.lexeme) is Some {
                    (
                        World {
                            scopes: assigned(w1.scopes, w1.current, name.lexeme, v),
                            ..w1
                        },
                        Ok(v),
                    )
                } else {
                    (w1, Err(fail(Fault::UndefinedVariable, name)))
                },
            }
        },
        ExprView::Logical(left, op, right) => {
            let (w1, l) = eval(w, *left, depth, cx);
            match l {
                Err(s) => (w1, Err(s)),
                Ok(x) => if (op.ttype == TokenType::OR) == x.is_truthy() {
                    (w1, Ok(x))
                } else {
                    eval(w1, *right, depth, cx)
                },
            }
        },
        ExprView::Call(callee, paren, args) => {
            let (w1, c) = eval(w, *callee, depth, cx);
            match c {
                Err(s) => (w1, Err(s)),
                Ok(f) => {
                    let (w2, values) = eval_all(w1, args, 0, Seq::empty(), depth, cx);
                    match values {
                        Err(s) => (w2, Err(s)),
                        Ok(vs) => match plan_call(w2, f, vs, paren, cx) {
                            CallPlan::Done(r) => (w2, r),
                            CallPlan::Run { world, body, caller } => if depth == 0 {
                                (w2, Err(fail(Fault::TooDeep, paren)))
                            } else {
                                let (w3, r) = exec(world, body, (depth - 1) as nat, cx);
                                (World { current: caller, ..w3 }, call_value(r))
                            },
                        },
                    }
                },
            }
        },
        ExprView::Empty => (w, Err(fail_nowhere(Fault::EmptyExpression))),
    }
}

/// The values of the expressions `args[i..]`, in order, behind those in `found`.
pub open spec fn eval_all(
    w: World,
    args: Seq<ExprView>,
    i: int,
    found: Seq<ObjectView>,
    depth: nat,
    cx: Context,
) -> (World, Result<Seq<ObjectView>, Signal>)
    decreases depth, 0nat, args, args.len() - i,
{
    if i < 0 || i >= args.len() {
        (w, Ok(found))
    } else {
        let (w1, r) = eval(w, args[i], depth, cx);
        match r {
            Err(s) => (w1, Err(s)),
            Ok(v) => eval_all(w1, args, i + 1, found.push(v), depth, cx),
        }
    }
}

/// The effect of statement `s` on world `w`.
pub open spec fn exec(w: World, s: StmtView, depth: nat, cx: Context) -> Executed
    decreases depth, 1nat, s, cx.loop_limit + 1,
{
    match s {
        StmtView::Expression(e) => {
            let (w1, r) = eval(w, e, depth, cx);
            match r {
                Err(s) => (w1, Err(s)),
                Ok(_) => (w1, Ok(())),
            }
        },
        StmtView::Print(e) => {
            let (w1, r) = eval(w, e, depth, cx);
            match r {
                Err(s) => (w1, Err(s)),
                Ok(v) => (World { output: w1.output.push(v), ..w1 }, Ok(())),
            }
        },
        StmtView::Var(name, first) => {
            let (w1, r) = if first is Empty {
                (w, Ok(ObjectView::Nil))
            } else {
                eval(w, first, depth, cx)
            };
            match r {
                Err(s) => (w1, Err(s)),
                Ok(v) => (
                    World { scopes: defined(w1.scopes, w1.current, name.lexeme, v), ..w1 },
                    Ok(()),
                ),
            }
        },
        StmtView::Block(stmts) => {
            let inner = World {
                scopes: extended(w.scopes, w.current),
                current: w.scopes.len() as int,
                ..w
            };
            let (w1, r) = exec_all(inner, stmts, 0, depth, cx);
            (World { current: w.current, ..w1 }, r)
        },
        StmtView::IfStmt(condition, then, els) => {
            let (w1, r) = eval(w, condition, depth, cx);
            match r {
                Err(s) => (w1, Err(s)),
                Ok(v) => if v.is_truthy() {
                    exec(w1, *then, depth, cx)
                } else {
                    exec(w1, *els, depth, cx)
                },
            }
        },
        StmtView::WhileStmt(_, _) => repeat(w, s, cx.loop_limit, depth, cx),
        StmtView::Function(name, params, body) => (
            World {
                functions: w.functions.push(
                    FuncView { name, params, body: *body, closure: w.current },
                ),
                scopes: defined(
                    w.scopes,
                    w.current,
                    name.lexeme,
                    ObjectView::Callable(Callable::Function(w.functions.len() as usize)),
                ),
                ..w
            },
            Ok(()),
        ),
        StmtView::ReturnStmt(keyword, value) => {
            let (w1, r) = if value is Empty {
                (w, Ok(ObjectView::Nil))
            } else {
                eval(w, value, depth, cx)
            };
            match r {
                Err(s) => (w1, Err(s)),
                Ok(v) => (w1, Err(Signal::Ret(v))),
            }
        },
        StmtView::Empty => (w, Ok(())),
    }
}

/// The effect of the statements `stmts[i..]`, one after the other, up to the
/// first that ends early.
pub open spec fn exec_all(w: World, stmts: Seq<StmtView>, i: int, depth: nat, cx: Context)
    -> Executed
    decreases depth, 1nat, stmts, stmts.len() - i,
{
    if i < 0 || i >= stmts.len() {
        (w, Ok(()))
    } else {
        let (w1, r) = exec(w, stmts[i], depth, cx);
        match r {
            Err(s) => (w1, Err(s)),
            Ok(_) => exec_all(w1, stmts, i + 1, depth, cx),
        }
    }
}

/// The effect of the loop `s` when it may repeat `left` more times: as long
/// as the condition is true the body runs.
pub open spec fn repeat(w: World, s: StmtView, left: nat, depth: nat, cx: Context) -> Executed
    decreases depth, 1nat, s, left,
{
    match s {
        StmtView::WhileStmt(condition, body) => {
            let (w1, r) = eval(w, condition, depth, cx);
            match r {
                Err(e) => (w1, Err(e)),
                Ok(v) => if !v.is_truthy() {
                    (w1, Ok(()))
                } else if left == 0 {
                    (w1, Err(fail_nowhere(Fault::TooManyIterations)))
                } else {
                    let (w2, done) = exec(w1, *body, depth, cx);
                    match done {
                        Err(e) => (w2, Err(e)),
                        Ok(_) => repeat(w2, s, (left - 1) as nat, depth, cx),
                    }
                },
            }
        },
        _ => (w, Ok(())),
    }
}

/// The effect of the statements `stmts[i..]` of a program. An error ends the
/// run. A `return` outside any function ends its statement and nothing else.
pub open spec fn run(w: World, stmts: Seq<StmtView>, i: int, depth: nat, cx: Context) -> (
    World,
    Result<(), RuntimeErrorView>,
)
    decreases stmts.len() - i,
{
    if i < 0 || i >= stmts.len() {
        (w, Ok(()))
    } else {
        let (w1, r) = exec(w, stmts[i], depth, cx);
        match r {
            Err(Signal::Fail(e)) => (w1, Err(e)),
            _ => run(w1, stmts, i + 1, depth, cx),
        }
    }
}

/// Binding arguments changes no scope but `scope`, and leaves the number of
/// scopes and what encloses each as they were.
pub proof fn bind_keeps_shape(
    scopes: Seq<ScopeView>,
    scope: int,
    params: Seq<TokenView>,
    args: Seq<ObjectView>,
    n: int,
)
    ensures
        bind(scopes, scope, params, args, n).len() == scopes.len(),
        forall|i: int|
            0 <= i < scopes.len() ==> (#[trigger] bind(scopes, scope, params, args, n)[i]).enclosing
                == scopes[i].enclosing,
        forall|i: int|
            0 <= i < scopes.len() && i != scope ==> #[trigger] bind(scopes, scope, params, args, n)[i]
                == scopes[i],
    decreases n,
{
    if !(n <= 0 || n > params.len() || n > args.len()) {
        bind_keeps_shape(scopes, scope, params, args, n - 1);
    }
}

/// Reading a variable that no scope from the current one outwards defines
/// fails with the error that names the variable and its line, and changes
/// nothing.
pub proof fn undefined_variable_fails(w: World, name: TokenView, depth: nat, cx: Context)
    requires
        holder(w.scopes, w.current, name.lexeme) is None,
    ensures
        eval(w, ExprView::Variable(name), depth, cx) == (
            w,
            Err::<ObjectView, Signal>(
                Signal::Fail(fault_at(Fault::UndefinedVariable, name.line, name.lexeme)),
            ),
        ),
{
}

/// A declared function that is called with another number of arguments than
/// it has parameters is not run: the call fails with the error that states
/// both numbers.
pub proof fn arity_mismatch_fails(
    w: World,
    id: usize,
    args: Seq<ObjectView>,
    paren: TokenView,
    cx: Context,
)
    requires
        id < w.functions.len(),
        args.len() != w.functions[id as int].params.len(),
    ensures
        plan_call(w, ObjectView::Callable(Callable::Function(id)), args, paren, cx)
            == CallPlan::Done(
            Err(
                Signal::Fail(
                    RuntimeErrorView {
                        kind: Fault::ArityMismatch,
                        line: paren.line,
                        lexeme: w.functions[id as int].name.lexeme,
                        expected: w.functions[id as int].params.len() as usize,
                        got: args.len() as usize,
                    },
                ),
            ),
        ),
{
}

/// The body of a declared function runs in a new scope whose enclosing scope
/// is the one in which the function was declared, wherever the call stands;
/// no scope that existed before the call is changed by binding the
/// arguments, and execution goes back to the scope of the call.
pub proof fn call_runs_in_declaring_scope(
    w: World,
    id: usize,
    args: Seq<ObjectView>,
    paren: TokenView,
    cx: Context,
)
    requires
        id < w.functions.len(),
        args.len() == w.functions[id as int].params.len(),
    ensures
        plan_call(w, ObjectView::Callable(Callable::Function(id)), args, paren, cx) is Run,
        ({
            let plan = plan_call(w, ObjectView::Callable(Callable::Function(id)), args, paren, cx);
            let world = plan->world;
            &&& plan->body == w.functions[id as int].body
            &&& plan->caller == w.current
            &&& world.current == w.scopes.len()
            &&& world.scopes.len() == w.scopes.len() + 1
            &&& world.scopes[world.current].enclosing == Some(w.functions[id as int].closure)
            &&& forall|i: int| 0 <= i < w.scopes.len() ==> #[trigger] world.scopes[i] == w.scopes[i]
        }),
{
    let f = w.functions[id as int];
    bind_keeps_shape(
        extended(w.scopes, f.closure),
        w.scopes.len() as int,
        f.params,
        args,
        args.len() as int,
    );
}

/// After a block, whether it ended early or not, execution stands in the
/// scope in which it stood before: what the block declared is out of reach.
pub proof fn block_restores_scope(w: World, stmts: Seq<StmtView>, depth: nat, cx: Context)
    ensures
        exec(w, StmtView::Block(stmts), depth, cx).0.current == w.current,
{
}

/// `+` joins two strings and adds two numbers; a string and a number, in
/// either order, are an error that names the operator and its line.
pub proof fn addition_takes_two_of_a_kind(op: TokenView, l: ObjectView, r: ObjectView, ar: Arith)
    requires
        op.ttype == TokenType::PLUS,
    ensures
        l is Str && r is Str ==> binary_result(op, l, r, ar) == Ok::<ObjectView, Signal>(
            ObjectView::Str(l->Str_0 + r->Str_0),
        ),
        l is Num && r is Num ==> binary_result(op, l, r, ar) is Ok && binary_result(
            op,
            l,
            r,
            ar,
        )->Ok_0 is Num,
        !(l is Str && r is Str) && !(l is Num && r is Num) ==> binary_result(op, l, r, ar)
            == Err::<ObjectView, Signal>(
            Signal::Fail(fault_at(Fault::OperandsMustBeNumbersOrStrings, op.line, op.lexeme)),
        ),
{
}

} // verus!
