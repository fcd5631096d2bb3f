//! Tokens that own their text and, for a string or a number, its value.

use vstd::prelude::*;
use crate::token::TokenType;
use crate::treewalk::token_type::{Object, ObjectView};

verus! {

/// A token: its kind, its text, the value of a literal, and its line.
#[derive(Clone, Debug)]
pub struct Token {
    pub ttype: TokenType,
    pub lexeme: String,
    pub literal: Object,
    pub line: usize,
}

/// A token with its texts as sequences of characters.
pub struct TokenView {
    pub ttype: TokenType,
    pub lexeme: Seq<char>,
    pub literal: ObjectView,
    pub line: usize,
}

impl View for Token {
    type V = TokenView;

    open spec fn view(&self) -> TokenView {
        TokenView {
            ttype: self.ttype,
            lexeme: self.lexeme@,
            literal: self.literal@,
            line: self.line,
        }
    }
}

impl Token {
    pub fn new(ttype: TokenType, lexeme: String, literal: Object, line: usize) -> (r: Self)
        ensures
            r@ == (TokenView { ttype, lexeme: lexeme@, literal: literal@, line }),
    {
        Token { ttype, lexeme, literal, line }
    }

    /// A copy of the token.
    pub fn duplicate(&self) -> (r: Self)
        ensures
            r@ == self@,
    {
        Token {
            ttype: self.ttype,
            lexeme: self.lexeme.clone(),
            literal: self.literal.duplicate(),
            line: self.line,
        }
    }
}

/// The views of a sequence of tokens.
pub open spec fn token_views(tokens: Seq<Token>) -> Seq<TokenView> {
    Seq::new(tokens.len(), |i: int| tokens[i]@)
}

} // verus!
