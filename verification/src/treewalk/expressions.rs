//! The expressions of the syntax tree.

use vstd::prelude::*;
use crate::treewalk::token::{Token, TokenView};
use crate::treewalk::token_type::{Object, ObjectView};

verus! {

/// An expression. Each node owns its parts.
#[derive(Debug)]
pub enum Expr {
    Binary(Box<Expr>, Token, Box<Expr>),
    Call(Box<Expr>, Token, Vec<Expr>),
    Grouping(Box<Expr>),
    Literal(Object),
    Unary(Token, Box<Expr>),
    Variable(Token),
    Assign(Token, Box<Expr>),
    Logical(Box<Expr>, Token, Box<Expr>),
    /// No expression, where one may be left out.
    Empty,
}

/// An expression with its texts and lists as sequences.
pub enum ExprView {
    Binary(Box<ExprView>, TokenView, Box<ExprView>),
    Call(Box<ExprView>, TokenView, Seq<ExprView>),
    Grouping(Box<ExprView>),
    Literal(ObjectView),
    Unary(TokenView, Box<ExprView>),
    Variable(TokenView),
    Assign(TokenView, Box<ExprView>),
    Logical(Box<ExprView>, TokenView, Box<ExprView>),
    Empty,
}

impl View for Expr {
    type V = ExprView;

    open spec fn view(&self) -> ExprView {
        self.model()
    }
}

impl Expr {
    /// The expression with its texts and lists as sequences.
    pub open spec fn model(&self) -> ExprView
        decreases self,
    {
        match self {
            Expr::Binary(l, op, r) => ExprView::Binary(Box::new(l.model()), op@, Box::new(r.model())),
            Expr::Call(callee, paren, args) => ExprView::Call(
                Box::new(callee.model()),
                paren@,
                Seq::new(
                    args.len() as nat,
                    |i: int|
                        if 0 <= i < args.len() {
                            args[i].model()
                        } else {
                            ExprView::Empty
                        },
                ),
            ),
            Expr::Grouping(e) => ExprView::Grouping(Box::new(e.model())),
            Expr::Literal(v) => ExprView::Literal(v@),
            Expr::Unary(op, e) => ExprView::Unary(op@, Box::new(e.model())),
            Expr::Variable(name) => ExprView::Variable(name@),
            Expr::Assign(name, e) => ExprView::Assign(name@, Box::new(e.model())),
            Expr::Logical(l, op, r) => ExprView::Logical(
                Box::new(l.model()),
                op@,
                Box::new(r.model()),
            ),
            Expr::Empty => ExprView::Empty,
        }
    }
}

/// The views of a list of expressions.
pub open spec fn expr_views(exprs: Seq<Expr>) -> Seq<ExprView> {
    Seq::new(exprs.len(), |i: int| exprs[i]@)
}

/// The view of a call is the call of the views.
pub proof fn call_view(callee: Expr, paren: Token, args: Vec<Expr>)
    ensures
        Expr::Call(Box::new(callee), paren, args)@ == ExprView::Call(
            Box::new(callee@),
            paren@,
            expr_views(args@),
        ),
{
    assert(Expr::Call(Box::new(callee), paren, args)@->Call_2 =~= expr_views(args@));
}

impl Expr {
    /// A copy of the expression.
    pub fn duplicate(&self) -> (r: Self)
        ensures
            r@ == self@,
        decreases self,
    {
        match self {
            Expr::Binary(l, op, r) => Expr::Binary(
                Box::new(l.duplicate()),
                op.duplicate(),
                Box::new(r.duplicate()),
            ),
            Expr::Call(callee, paren, args) => {
                let mut copies: Vec<Expr> = Vec::new();
                let mut i: usize = 0;
                while i < args.len()
                    invariant
                        *self matches Expr::Call(_, _, a) && a == *args,
                        i <= args.len(),
                        copies@.len() == i,
                        forall|j: int| 0 <= j < i ==> (#[trigger] copies@[j])@ == args@[j]@,
                    decreases args.len() - i,
                {
                    copies.push(args[i].duplicate());
                    i += 1;
                }
                let r = Expr::Call(Box::new(callee.duplicate()), paren.duplicate(), copies);
                assert(r@->Call_2 =~= self@->Call_2);
                r
            },
            Expr::Grouping(e) => Expr::Grouping(Box::new(e.duplicate())),
            Expr::Literal(v) => Expr::Literal(v.duplicate()),
            Expr::Unary(op, e) => Expr::Unary(op.duplicate(), Box::new(e.duplicate())),
            Expr::Variable(name) => Expr::Variable(name.duplicate()),
            Expr::Assign(name, e) => Expr::Assign(name.duplicate(), Box::new(e.duplicate())),
            Expr::Logical(l, op, r) => Expr::Logical(
                Box::new(l.duplicate()),
                op.duplicate(),
                Box::new(r.duplicate()),
            ),
            Expr::Empty => Expr::Empty,
        }
    }
}

} // verus!
