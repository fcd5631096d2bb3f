//! The error of the bytecode compiler.

use vstd::prelude::*;
use crate::text::{push_decimal, push_text, decimal};

verus! {

/// A compile error: the line, the text at which it was found, and what was
/// expected there.
#[derive(Debug)]
pub struct CompileError {
    line: usize,
    msg: String,
    literal: String,
}

/// A compile error with its texts as sequences of characters.
pub struct CompileErrorView {
    pub line: nat,
    pub literal: Seq<char>,
    pub msg: Seq<char>,
}

impl View for CompileError {
    type V = CompileErrorView;

    closed spec fn view(&self) -> CompileErrorView {
        CompileErrorView { line: self.line as nat, literal: self.literal@, msg: self.msg@ }
    }
}

impl CompileErrorView {
    /// The diagnostic `[line N] Error at TEXT: MESSAGE`.
    pub open spec fn rendering(self) -> Seq<char> {
        "[line "@ + decimal(self.line) + "] Error at "@ + self.literal + ": "@ + self.msg
    }
}

impl CompileError {
    pub fn new(line: usize, literal: String, msg: String) -> (r: Self)
        ensures
            r@ == (CompileErrorView { line: line as nat, literal: literal@, msg: msg@ }),
    {
        Self { line, literal, msg }
    }

    /// The line on which the error was found.
    pub fn line(&self) -> (r: usize)
        ensures
            r == self@.line,
    {
        self.line
    }

    /// The text at which the error was found.
    pub fn literal(&self) -> (r: &String)
        ensures
            r@ == self@.literal,
    {
        &self.literal
    }

    /// What was expected.
    pub fn msg(&self) -> (r: &String)
        ensures
            r@ == self@.msg,
    {
        &self.msg
    }

    /// The diagnostic `[line N] Error at TEXT: MESSAGE`.
    pub fn to_string(&self) -> (r: String)
        ensures
            r@ == self@.rendering(),
    {
        let mut s = String::new();
        push_text(&mut s, "[line ");
        push_decimal(&mut s, self.line);
        push_text(&mut s, "] Error at ");
        push_text(&mut s, self.literal.as_str());
        push_text(&mut s, ": ");
        push_text(&mut s, self.msg.as_str());
        assert(s@ =~= self@.rendering());
        s
    }
}

} // verus!
