//! What can be called: functions that a program declares, and the functions
//! that the interpreter brings along.

use vstd::prelude::*;
use crate::token::TokenType;
use crate::treewalk::semantics::FuncView;
use crate::treewalk::statement::Stmt;
use crate::treewalk::token::{token_views, Token};
use crate::treewalk::token_type::Object;
use vstd::string::StringExecFns;

verus! {

/// The functions that the interpreter brings along.
#[derive(Clone, Copy, Debug, PartialEq, Eq, Structural)]
pub enum Native {
    /// The reading of the clock, in milliseconds, as a number.
    Clock,
}

/// A function that the interpreter brings along: what it computes and how
/// many arguments it takes.
#[derive(Clone, Copy, Debug, PartialEq, Eq, Structural)]
pub struct BuiltinFunc {
    pub body: Native,
    pub arity: usize,
}

impl BuiltinFunc {
    pub fn new(body: Native, arity: usize) -> (r: Self)
        ensures
            r == (BuiltinFunc { body, arity }),
    {
        Self { body, arity }
    }

    /// The number of arguments that the function takes.
    pub fn arity(&self) -> (r: usize)
        ensures
            r == self.arity,
    {
        self.arity
    }
}

/// A value that can be called: a declared function, known by its place in
/// the interpreter's table of functions, or a function that the interpreter
/// brings along.
#[derive(Clone, Copy, Debug, PartialEq, Eq, Structural)]
pub enum Callable {
    Function(usize),
    Builtin(BuiltinFunc),
}

/// A declared function: a copy of its declaration, and the scope in which
/// the declaration was executed.
pub struct FuncType {
    name: Token,
    params: Vec<Token>,
    body: Stmt,
    closure: usize,
}

impl View for FuncType {
    type V = FuncView;

    closed spec fn view(&self) -> FuncView {
        FuncView {
            name: self.name@,
            params: token_views(self.params@),
            body: self.body@,
            closure: self.closure as int,
        }
    }
}

impl FuncType {
    /// The function that `definition` declares in scope `closure`.
    pub fn new(definition: &Stmt, closure: usize) -> (r: Self)
        requires
            definition@ is Function,
        ensures
            r@ == (FuncView {
                name: definition@->Function_0,
                params: definition@->Function_1,
                body: *definition@->Function_2,
                closure: closure as int,
            }),
    {
        match definition.duplicate() {
            Stmt::Function(name, params, body) => FuncType { name, params, body: *body, closure },
            _ => FuncType {
                name: Token::new(TokenType::EOF, String::from_str(" "), Object::Nil, 0),
                params: Vec::new(),
                body: Stmt::Empty,
                closure,
            },
        }
    }

    /// The number of arguments that the function takes.
    pub fn arity(&self) -> (r: usize)
        ensures
            r == self@.params.len(),
    {
        self.params.len()
    }

    /// The name of the function.
    pub fn name(&self) -> (r: &Token)
        ensures
            r@ == self@.name,
    {
        &self.name
    }

    /// The parameter at place `i`.
    pub fn param(&self, i: usize) -> (r: &Token)
        requires
            i < self@.params.len(),
        ensures
            r@ == self@.params[i as int],
    {
        &self.params[i]
    }

    /// The body of the function.
    pub fn body(&self) -> (r: &Stmt)
        ensures
            r@ == self@.body,
    {
        &self.body
    }

    /// The scope in which the function was declared.
    pub fn closure(&self) -> (r: usize)
        ensures
            r == self@.closure,
    {
        self.closure
    }
}

} // verus!
