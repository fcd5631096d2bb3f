//! The errors of the tree-walking interpreter.

use vstd::prelude::*;
use crate::text::{decimal, push_decimal, push_text};

verus! {

/// What went wrong while a program ran.
#[derive(Clone, Copy, Debug, PartialEq, Eq, Structural)]
pub enum Fault {
    /// The operand of a unary minus is no number.
    OperandMustBeNumber,
    /// An operand of an arithmetic operator or of a comparison is no number.
    OperandsMustBeNumbers,
    /// The operands of `+` are neither two numbers nor two strings.
    OperandsMustBeNumbersOrStrings,
    /// A variable is read or assigned that no enclosing scope defines.
    UndefinedVariable,
    /// A function is called with another number of arguments than it takes.
    ArityMismatch,
    /// Something is called that is no function.
    NotCallable,
    /// An expression is evaluated where none stands.
    EmptyExpression,
    /// Calls and expressions are nested deeper than the interpreter allows.
    TooDeep,
    /// A loop ran more often than the interpreter allows.
    TooManyIterations,
    /// A function value refers to no function that the interpreter knows.
    UnknownFunction,
}

/// A runtime error: what went wrong, the line and the text of the token at
/// which it did, and for a call the number of arguments that the function
/// takes and the number that it was given.
#[derive(Debug)]
pub struct RuntimeError {
    pub kind: Fault,
    pub line: usize,
    pub lexeme: String,
    pub expected: usize,
    pub got: usize,
}

/// A runtime error with its text as a sequence of characters.
pub struct RuntimeErrorView {
    pub kind: Fault,
    pub line: usize,
    pub lexeme: Seq<char>,
    pub expected: usize,
    pub got: usize,
}

impl View for RuntimeError {
    type V = RuntimeErrorView;

    open spec fn view(&self) -> RuntimeErrorView {
        RuntimeErrorView {
            kind: self.kind,
            line: self.line,
            lexeme: self.lexeme@,
            expected: self.expected,
            got: self.got,
        }
    }
}

/// The error of the given kind at a token with the given line and text.
pub open spec fn fault_at(kind: Fault, line: usize, lexeme: Seq<char>) -> RuntimeErrorView {
    RuntimeErrorView { kind, line, lexeme, expected: 0, got: 0 }
}

impl RuntimeErrorView {
    /// The diagnostic for the error.
    pub open spec fn rendering(self) -> Seq<char> {
        let place = "line "@ + decimal(self.line as nat) + ": "@;
        match self.kind {
            Fault::OperandMustBeNumber | Fault::OperandsMustBeNumbers => place + "operand of "@
                + self.lexeme + " must be number."@,
            Fault::OperandsMustBeNumbersOrStrings => place + "operand of "@ + self.lexeme
                + " must be number or string."@,
            Fault::UndefinedVariable => place + "Undefined variable "@ + self.lexeme,
            Fault::ArityMismatch => place + "In function: "@ + self.lexeme + ", expected "@
                + decimal(self.expected as nat) + " arguments, got "@ + decimal(self.got as nat)
                + "."@,
            Fault::NotCallable => place + "value is not callable."@,
            Fault::EmptyExpression => place + "None value during evaluating expression."@,
            Fault::TooDeep => place + "evaluation is nested too deeply."@,
            Fault::TooManyIterations => place + "loop ran too often."@,
            Fault::UnknownFunction => place + "internal error: unknown function."@,
        }
    }
}

impl RuntimeError {
    /// The error of the given kind at a token with the given line and text.
    pub fn at(kind: Fault, line: usize, lexeme: &String) -> (r: Self)
        ensures
            r@ == fault_at(kind, line, lexeme@),
    {
        RuntimeError { kind, line, lexeme: lexeme.clone(), expected: 0, got: 0 }
    }

    /// The diagnostic for the error.
    pub fn to_string(&self) -> (r: String)
        ensures
            r@ == self@.rendering(),
    {
        let mut s = String::new();
        push_text(&mut s, "line ");
        push_decimal(&mut s, self.line);
        push_text(&mut s, ": ");
        match self.kind {
            Fault::OperandMustBeNumber | Fault::OperandsMustBeNumbers => {
                push_text(&mut s, "operand of ");
                push_text(&mut s, self.lexeme.as_str());
                push_text(&mut s, " must be number.");
            },
            Fault::OperandsMustBeNumbersOrStrings => {
                push_text(&mut s, "operand of ");
                push_text(&mut s, self.lexeme.as_str());
                push_text(&mut s, " must be number or string.");
            },
            Fault::UndefinedVariable => {
                push_text(&mut s, "Undefined variable ");
                push_text(&mut s, self.lexeme.as_str());
            },
            Fault::ArityMismatch => {
                push_text(&mut s, "In function: ");
                push_text(&mut s, self.lexeme.as_str());
                push_text(&mut s, ", expected ");
                push_decimal(&mut s, self.expected);
                push_text(&mut s, " arguments, got ");
                push_decimal(&mut s, self.got);
                push_text(&mut s, ".");
            },
            Fault::NotCallable => {
                push_text(&mut s, "value is not callable.");
            },
            Fault::EmptyExpression => {
                push_text(&mut s, "None value during evaluating expression.");
            },
            Fault::TooDeep => {
                push_text(&mut s, "evaluation is nested too deeply.");
            },
            Fault::TooManyIterations => {
                push_text(&mut s, "loop ran too often.");
            },
            Fault::UnknownFunction => {
                push_text(&mut s, "internal error: unknown function.");
            },
        }
        assert(s@ =~= self@.rendering());
        s
    }
}

} // verus!
