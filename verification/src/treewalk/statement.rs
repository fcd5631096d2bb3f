//! The statements of the syntax tree.

use vstd::prelude::*;
use crate::treewalk::expressions::{Expr, ExprView};
use crate::treewalk::token::{token_views, Token, TokenView};

verus! {

/// A statement. Each node owns its parts.
#[derive(Debug)]
pub enum Stmt {
    Print(Box<Expr>),
    Expression(Box<Expr>),
    /// A function: its name, its parameters, and its body, which is a block.
    Function(Token, Vec<Token>, Box<Stmt>),
    Block(Vec<Stmt>),
    /// A variable: its name and the expression for its first value, if any.
    Var(Token, Box<Expr>),
    /// A condition, what is done if it holds, and what is done else, if anything.
    IfStmt(Box<Expr>, Box<Stmt>, Box<Stmt>),
    WhileStmt(Box<Expr>, Box<Stmt>),
    /// The keyword and the expression for the value, if any.
    ReturnStmt(Token, Box<Expr>),
    /// No statement: what the parser leaves where it found an error, and
    /// what stands for a branch that is left out. Executing it does nothing.
    Empty,
}

/// A statement with its texts and lists as sequences.
pub enum StmtView {
    Print(ExprView),
    Expression(ExprView),
    Function(TokenView, Seq<TokenView>, Box<StmtView>),
    Block(Seq<StmtView>),
    Var(TokenView, ExprView),
    IfStmt(ExprView, Box<StmtView>, Box<StmtView>),
    WhileStmt(ExprView, Box<StmtView>),
    ReturnStmt(TokenView, ExprView),
    Empty,
}

impl View for Stmt {
    type V = StmtView;

    open spec fn view(&self) -> StmtView {
        self.model()
    }
}

/// The views of a list of statements.
pub open spec fn stmt_views(stmts: Seq<Stmt>) -> Seq<StmtView> {
    Seq::new(stmts.len(), |i: int| stmts[i]@)
}

/// The view of a block is the block of the views.
pub proof fn block_view(stmts: Vec<Stmt>)
    ensures
        Stmt::Block(stmts)@ == StmtView::Block(stmt_views(stmts@)),
{
    assert(Stmt::Block(stmts)@->Block_0 =~= stmt_views(stmts@));
}

impl Stmt {
    /// The statement with its texts and lists as sequences.
    pub open spec fn model(&self) -> StmtView
        decreases self,
    {
        match self {
            Stmt::Print(e) => StmtView::Print(e@),
            Stmt::Expression(e) => StmtView::Expression(e@),
            Stmt::Function(name, params, body) => StmtView::Function(
                name@,
                token_views(params@),
                Box::new(body.model()),
            ),
            Stmt::Block(stmts) => StmtView::Block(
                Seq::new(
                    stmts.len() as nat,
                    |i: int|
                        if 0 <= i < stmts.len() {
                            stmts[i].model()
                        } else {
                            StmtView::Empty
                        },
                ),
            ),
            Stmt::Var(name, e) => StmtView::Var(name@, e@),
            Stmt::IfStmt(c, then, els) => StmtView::IfStmt(
                c@,
                Box::new(then.model()),
                Box::new(els.model()),
            ),
            Stmt::WhileStmt(c, body) => StmtView::WhileStmt(c@, Box::new(body.model())),
            Stmt::ReturnStmt(keyword, e) => StmtView::ReturnStmt(keyword@, e@),
            Stmt::Empty => StmtView::Empty,
        }
    }

    /// A copy of the statement.
    pub fn duplicate(&self) -> (r: Self)
        ensures
            r@ == self@,
        decreases self,
    {
        match self {
            Stmt::Print(e) => Stmt::Print(Box::new(e.duplicate())),
            Stmt::Expression(e) => Stmt::Expression(Box::new(e.duplicate())),
            Stmt::Function(name, params, body) => {
                let mut copies: Vec<Token> = Vec::new();
                let mut i: usize = 0;
                while i < params.len()
                    invariant
                        i <= params.len(),
                        copies@.len() == i,
                        forall|j: int| 0 <= j < i ==> (#[trigger] copies@[j])@ == params@[j]@,
                    decreases params.len() - i,
                {
                    copies.push(params[i].duplicate());
                    i += 1;
                }
                let r = Stmt::Function(name.duplicate(), copies, Box::new(body.duplicate()));
                assert(r@->Function_1 =~= self@->Function_1);
                r
            },
            Stmt::Block(stmts) => {
                let mut copies: Vec<Stmt> = Vec::new();
                let mut i: usize = 0;
                while i < stmts.len()
                    invariant
                        *self matches Stmt::Block(a) && a == *stmts,
                        i <= stmts.len(),
                        copies@.len() == i,
                        forall|j: int| 0 <= j < i ==> (#[trigger] copies@[j])@ == stmts@[j]@,
                    decreases stmts.len() - i,
                {
                    copies.push(stmts[i].duplicate());
                    i += 1;
                }
                let r = Stmt::Block(copies);
                assert(r@->Block_0 =~= self@->Block_0);
                r
            },
            Stmt::Var(name, e) => Stmt::Var(name.duplicate(), Box::new(e.duplicate())),
            Stmt::IfStmt(c, then, els) => Stmt::IfStmt(
                Box::new(c.duplicate()),
                Box::new(then.duplicate()),
                Box::new(els.duplicate()),
            ),
            Stmt::WhileStmt(c, body) => Stmt::WhileStmt(
                Box::new(c.duplicate()),
                Box::new(body.duplicate()),
            ),
            Stmt::ReturnStmt(keyword, e) => Stmt::ReturnStmt(
                keyword.duplicate(),
                Box::new(e.duplicate()),
            ),
            Stmt::Empty => Stmt::Empty,
        }
    }
}

} // verus!
