//! Names stay in their scopes.
//!
//! Running code never removes a scope and never changes what encloses one. A
//! statement can give new names to the scope in which it stands, and to no
//! other scope that was there before it; an expression and a block give new
//! names to none. So a block, a loop or a call leaves the names that can be
//! seen around it as they were: what it declared is out of reach afterwards.

use vstd::prelude::*;
use crate::treewalk::environment::{assigned, defined, extended, holder, ScopeView};
use crate::treewalk::expressions::ExprView;
use crate::treewalk::callable::Callable;
use crate::treewalk::semantics::{
    bind_keeps_shape, eval, eval_all, exec, exec_all, plan_call, repeat, CallPlan, Context, World,
};
use crate::treewalk::statement::StmtView;
use crate::treewalk::token::TokenView;
use crate::treewalk::token_type::ObjectView;

verus! {

/// From `before` to `after` no scope was lost, execution stands where it
/// stood, every scope of `before` is enclosed as it was, and every scope of
/// `before` other than `open` defines the names that it defined.
pub open spec fn keeps_names(before: World, after: World, open: int) -> bool {
    &&& before.scopes.len() <= after.scopes.len()
    &&& after.current == before.current
    &&& forall|i: int|
        0 <= i < before.scopes.len() ==> (#[trigger] after.scopes[i]).enclosing
            == before.scopes[i].enclosing
    &&& forall|i: int|
        0 <= i < before.scopes.len() && i != open ==> (#[trigger] after.scopes[i]).bindings.dom()
            == before.scopes[i].bindings.dom()
}

/// What holds from a first world to a second and from the second to a third
/// holds from the first to the third.
pub proof fn keeps_names_in_turn(a: World, b: World, c: World, open: int)
    requires
        keeps_names(a, b, open) || keeps_names(a, b, -1),
        keeps_names(b, c, open) || keeps_names(b, c, -1),
    ensures
        keeps_names(a, c, open),
{
    assert forall|i: int| 0 <= i < a.scopes.len() implies (#[trigger] c.scopes[i]).enclosing
        == a.scopes[i].enclosing by {
        assert(b.scopes[i].enclosing == a.scopes[i].enclosing);
    }
    assert forall|i: int| 0 <= i < a.scopes.len() && i != open implies (
    #[trigger] c.scopes[i]).bindings.dom() == a.scopes[i].bindings.dom() by {
        assert(b.scopes[i].bindings.dom() == a.scopes[i].bindings.dom());
    }
}

/// A definition gives a name to its own scope only.
proof fn definition_opens_one_scope(w: World, name: Seq<char>, value: ObjectView)
    ensures
        keeps_names(w, World { scopes: defined(w.scopes, w.current, name, value), ..w }, w.current),
{
}

/// An assignment gives no scope a name that it did not have.
proof fn assignment_opens_no_scope(w: World, name: Seq<char>, value: ObjectView)
    ensures
        keeps_names(w, World { scopes: assigned(w.scopes, w.current, name, value), ..w }, -1),
{
    let after = assigned(w.scopes, w.current, name, value);
    holder_is_a_scope(w.scopes, w.current, name);
    match holder(w.scopes, w.current, name) {
        Some(h) => {
            assert(w.scopes[h].bindings.insert(name, value).dom() =~= w.scopes[h].bindings.dom());
        },
        None => {},
    }
}

/// The scope in which a name is found is one of the scopes, and defines the name.
proof fn holder_is_a_scope(scopes: Seq<ScopeView>, scope: int, name: Seq<char>)
    ensures
        holder(scopes, scope, name) matches Some(h) ==> 0 <= h < scopes.len()
            && scopes[h].bindings.contains_key(name),
    decreases scope,
{
    if 0 <= scope < scopes.len() && !scopes[scope].bindings.contains_key(name) {
        match scopes[scope].enclosing {
            Some(outer) => {
                if 0 <= outer < scope {
                    holder_is_a_scope(scopes, outer, name);
                }
            },
            None => {},
        }
    }
}

/// An expression gives no scope that was there before it a new name.
pub proof fn expression_keeps_names(w: World, e: ExprView, depth: nat, cx: Context)
    ensures
        keeps_names(w, eval(w, e, depth, cx).0, -1),
    decreases depth, 1nat, e, 0nat,
{
    match e {
        ExprView::Literal(_) => {},
        ExprView::Grouping(inner) => {
            expression_keeps_names(w, *inner, depth, cx);
        },
        ExprView::Unary(_, right) => {
            expression_keeps_names(w, *right, depth, cx);
        },
        ExprView::Binary(left, _, right) => {
            expression_keeps_names(w, *left, depth, cx);
            let (w1, l) = eval(w, *left, depth, cx);
            if l is Ok {
                expression_keeps_names(w1, *right, depth, cx);
                keeps_names_in_turn(w, w1, eval(w1, *right, depth, cx).0, -1);
            }
        },
        ExprView::Variable(_) => {},
        ExprView::Assign(name, value) => {
            expression_keeps_names(w, *value, depth, cx);
            let (w1, r) = eval(w, *value, depth, cx);
            match r {
                Ok(v) => {
                    assignment_opens_no_scope(w1, name.lexeme, v);
                    keeps_names_in_turn(
                        w,
                        w1,
                        World { scopes: assigned(w1.scopes, w1.current, name.lexeme, v), ..w1 },
                        -1,
                    );
                },
                Err(_) => {},
            }
        },
        ExprView::Logical(left, _, right) => {
            expression_keeps_names(w, *left, depth, cx);
            let (w1, l) = eval(w, *left, depth, cx);
            if l is Ok {
                expression_keeps_names(w1, *right, depth, cx);
                keeps_names_in_turn(w, w1, eval(w1, *right, depth, cx).0, -1);
            }
        },
        ExprView::Call(callee, paren, args) => {
            expression_keeps_names(w, *callee, depth, cx);
            let (w1, c) = eval(w, *callee, depth, cx);
            match c {
                Ok(f) => {
                    expressions_keep_names(w1, args, 0, Seq::empty(), depth, cx);
                    let (w2, values) = eval_all(w1, args, 0, Seq::empty(), depth, cx);
                    keeps_names_in_turn(w, w1, w2, -1);
                    match values {
                        Ok(vs) => {
                            call_keeps_names(w2, f, vs, paren, depth, cx);
                            keeps_names_in_turn(w, w2, eval(w, e, depth, cx).0, -1);
                        },
                        Err(_) => {},
                    }
                },
                Err(_) => {},
            }
        },
        ExprView::Empty => {},
    }
}

/// The body of a call gives no scope that was there before the call a new name.
proof fn call_keeps_names(
    w: World,
    callee: ObjectView,
    args: Seq<ObjectView>,
    paren: TokenView,
    depth: nat,
    cx: Context,
)
    ensures
        match plan_call(w, callee, args, paren, cx) {
            CallPlan::Done(_) => true,
            CallPlan::Run { world, body, caller } => depth > 0 ==> keeps_names(
                w,
                World { current: caller, ..exec(world, body, (depth - 1) as nat, cx).0 },
                -1,
            ),
        },
    decreases depth, 0nat,
{
    match plan_call(w, callee, args, paren, cx) {
        CallPlan::Done(_) => {},
        CallPlan::Run { world, body, caller } => {
            if depth > 0 {
                let id = callee->Callable_0->Function_0;
                let f = w.functions[id as int];
                let n = w.scopes.len() as int;
                bind_keeps_shape(extended(w.scopes, f.closure), n, f.params, args, args.len() as int);
                statement_keeps_names(world, body, (depth - 1) as nat, cx);
                let after = exec(world, body, (depth - 1) as nat, cx).0;
                let back = World { current: caller, ..after };
                assert forall|i: int| 0 <= i < w.scopes.len() implies (
                #[trigger] back.scopes[i]).enclosing == w.scopes[i].enclosing by {
                    assert(world.scopes[i] == w.scopes[i]);
                }
                assert forall|i: int| 0 <= i < w.scopes.len() implies (
                #[trigger] back.scopes[i]).bindings.dom() == w.scopes[i].bindings.dom() by {
                    assert(world.scopes[i] == w.scopes[i]);
                }
            }
        },
    }
}

/// Expressions in a row give no scope that was there before them a new name.
pub proof fn expressions_keep_names(
    w: World,
    args: Seq<ExprView>,
    i: int,
    found: Seq<ObjectView>,
    depth: nat,
    cx: Context,
)
    ensures
        keeps_names(w, eval_all(w, args, i, found, depth, cx).0, -1),
    decreases depth, 1nat, args, args.len() - i,
{
    if 0 <= i < args.len() {
        expression_keeps_names(w, args[i], depth, cx);
        let (w1, r) = eval(w, args[i], depth, cx);
        match r {
            Ok(v) => {
                expressions_keep_names(w1, args, i + 1, found.push(v), depth, cx);
                keeps_names_in_turn(
                    w,
                    w1,
                    eval_all(w1, args, i + 1, found.push(v), depth, cx).0,
                    -1,
                );
            },
            Err(_) => {},
        }
    }
}

/// A statement gives new names to the scope in which it stands, and to no
/// other scope that was there before it.
pub proof fn statement_keeps_names(w: World, s: StmtView, depth: nat, cx: Context)
    ensures
        keeps_names(w, exec(w, s, depth, cx).0, w.current),
        s is Block ==> keeps_names(w, exec(w, s, depth, cx).0, -1),
    decreases depth, 2nat, s, cx.loop_limit + 1,
{
    match s {
        StmtView::Expression(e) => {
            expression_keeps_names(w, e, depth, cx);
        },
        StmtView::Print(e) => {
            expression_keeps_names(w, e, depth, cx);
        },
        StmtView::Var(name, first) => {
            if first is Empty {
                definition_opens_one_scope(w, name.lexeme, ObjectView::Nil);
            } else {
                expression_keeps_names(w, first, depth, cx);
                let (w1, r) = eval(w, first, depth, cx);
                match r {
                    Ok(v) => {
                        definition_opens_one_scope(w1, name.lexeme, v);
                        keeps_names_in_turn(
                            w,
                            w1,
                            World { scopes: defined(w1.scopes, w1.current, name.lexeme, v), ..w1 },
                            w.current,
                        );
                    },
                    Err(_) => {},
                }
            }
        },
        StmtView::Block(stmts) => {
            let n = w.scopes.len() as int;
            let inner = World { scopes: extended(w.scopes, w.current), current: n, ..w };
            statements_keep_names(inner, stmts, 0, depth, cx);
            let (w1, _) = exec_all(inner, stmts, 0, depth, cx);
            let back = World { current: w.current, ..w1 };
            assert forall|i: int| 0 <= i < w.scopes.len() implies (
            #[trigger] back.scopes[i]).enclosing == w.scopes[i].enclosing by {
                assert(inner.scopes[i] == w.scopes[i]);
            }
            assert forall|i: int| 0 <= i < w.scopes.len() implies (
            #[trigger] back.scopes[i]).bindings.dom() == w.scopes[i].bindings.dom() by {
                assert(inner.scopes[i] == w.scopes[i]);
            }
        },
        StmtView::IfStmt(condition, then, els) => {
            expression_keeps_names(w, condition, depth, cx);
            let (w1, r) = eval(w, condition, depth, cx);
            match r {
                Ok(v) => {
                    if v.is_truthy() {
                        statement_keeps_names(w1, *then, depth, cx);
                        keeps_names_in_turn(w, w1, exec(w1, *then, depth, cx).0, w.current);
                    } else {
                        statement_keeps_names(w1, *els, depth, cx);
                        keeps_names_in_turn(w, w1, exec(w1, *els, depth, cx).0, w.current);
                    }
                },
                Err(_) => {},
            }
        },
        StmtView::WhileStmt(_, _) => {
            loop_keeps_names(w, s, cx.loop_limit, depth, cx);
        },
        StmtView::Function(name, _, _) => {
            definition_opens_one_scope(
                World { functions: exec(w, s, depth, cx).0.functions, ..w },
                name.lexeme,
                ObjectView::Callable(Callable::Function(w.functions.len() as usize)),
            );
        },
        StmtView::ReturnStmt(_, value) => {
            if !(value is Empty) {
                expression_keeps_names(w, value, depth, cx);
            }
        },
        StmtView::Empty => {},
    }
}

/// Statements in a row give new names to the scope in which they stand, and
/// to no other scope that was there before them.
pub proof fn statements_keep_names(w: World, stmts: Seq<StmtView>, i: int, depth: nat, cx: Context)
    ensures
        keeps_names(w, exec_all(w, stmts, i, depth, cx).0, w.current),
    decreases depth, 2nat, stmts, stmts.len() - i,
{
    if 0 <= i < stmts.len() {
        statement_keeps_names(w, stmts[i], depth, cx);
        let (w1, r) = exec(w, stmts[i], depth, cx);
        if r is Ok {
            statements_keep_names(w1, stmts, i + 1, depth, cx);
            keeps_names_in_turn(w, w1, exec_all(w1, stmts, i + 1, depth, cx).0, w.current);
        }
    }
}

/// A loop gives new names to the scope in which it stands, and to no other
/// scope that was there before it.
pub proof fn loop_keeps_names(w: World, s: StmtView, left: nat, depth: nat, cx: Context)
    ensures
        keeps_names(w, repeat(w, s, left, depth, cx).0, w.current),
    decreases depth, 2nat, s, left,
{
    match s {
        StmtView::WhileStmt(condition, body) => {
            expression_keeps_names(w, condition, depth, cx);
            let (w1, r) = eval(w, condition, depth, cx);
            match r {
                Ok(v) => {
                    if v.is_truthy() && left > 0 {
                        statement_keeps_names(w1, *body, depth, cx);
                        let (w2, done) = exec(w1, *body, depth, cx);
                        keeps_names_in_turn(w, w1, w2, w.current);
                        if done is Ok {
                            loop_keeps_names(w2, s, (left - 1) as nat, depth, cx);
                            keeps_names_in_turn(
                                w,
                                w2,
                                repeat(w2, s, (left - 1) as nat, depth, cx).0,
                                w.current,
                            );
                        }
                    }
                },
                Err(_) => {},
            }
        },
        _ => {},
    }
}

/// Where no scope got a new name, every name is found from every scope
/// where it was found before.
pub proof fn same_names_are_seen(before: World, after: World, scope: int, name: Seq<char>)
    requires
        keeps_names(before, after, -1),
        scope < before.scopes.len(),
    ensures
        holder(after.scopes, scope, name) == holder(before.scopes, scope, name),
    decreases scope,
{
    if 0 <= scope {
        assert(after.scopes[scope].bindings.dom() == before.scopes[scope].bindings.dom());
        assert(after.scopes[scope].enclosing == before.scopes[scope].enclosing);
        if !before.scopes[scope].bindings.contains_key(name) {
            match before.scopes[scope].enclosing {
                Some(outer) => {
                    if 0 <= outer < scope {
                        same_names_are_seen(before, after, outer, name);
                    }
                },
                None => {},
            }
        }
    }
}

/// After a block, however it ended, the names that can be seen from the
/// scope around it are the ones that could be seen before, each in the scope
/// where it was: a variable that the block declared, such as the counter of a
/// `for` loop, is out of reach.
pub proof fn a_block_declares_nothing_outside(
    w: World,
    stmts: Seq<StmtView>,
    depth: nat,
    cx: Context,
    name: Seq<char>,
)
    requires
        w.current < w.scopes.len(),
    ensures
        holder(exec(w, StmtView::Block(stmts), depth, cx).0.scopes, w.current, name) == holder(
            w.scopes,
            w.current,
            name,
        ),
{
    statement_keeps_names(w, StmtView::Block(stmts), depth, cx);
    same_names_are_seen(w, exec(w, StmtView::Block(stmts), depth, cx).0, w.current, name);
}

} // verus!
