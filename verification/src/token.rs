//! Token kinds, operator precedence, and the tokens of the incremental
//! scanner, which hold a span of the source instead of a copy of its text.

use vstd::prelude::*;
use crate::text::{push_decimal, push_text, string_of, decimal};

verus! {

/// The kinds of token of the language.
#[allow(non_camel_case_types)]
#[derive(Clone, Copy, Debug, PartialEq, Eq, Structural)]
pub enum TokenType {
    LEFT_PAREN,
    RIGHT_PAREN,
    LEFT_BRACE,
    RIGHT_BRACE,
    COMMA,
    DOT,
    MINUS,
    PLUS,
    SEMICOLON,
    SLASH,
    STAR,
    BANG,
    BANG_EQUAL,
    EQUAL,
    EQUAL_EQUAL,
    GREATER,
    GREATER_EQUAL,
    LESS,
    LESS_EQUAL,
    IDENTIFIER,
    STRING,
    NUMBER,
    AND,
    CLASS,
    ELSE,
    FALSE,
    FUN,
    FOR,
    IF,
    NIL,
    OR,
    PRINT,
    RETURN,
    SUPER,
    THIS,
    TRUE,
    VAR,
    WHILE,
    EOF,
}

impl Default for TokenType {
    fn default() -> (r: Self)
        ensures
            r == TokenType::EOF,
    {
        TokenType::EOF
    }
}

impl TokenType {
    /// The name of the kind, as diagnostics show it.
    pub open spec fn name_spec(self) -> Seq<char> {
        match self {
            TokenType::LEFT_PAREN => "LEFT_PAREN"@,
            TokenType::RIGHT_PAREN => "RIGHT_PAREN"@,
            TokenType::LEFT_BRACE => "LEFT_BRACE"@,
            TokenType::RIGHT_BRACE => "RIGHT_BRACE"@,
            TokenType::COMMA => "COMMA"@,
            TokenType::DOT => "DOT"@,
            TokenType::MINUS => "MINUS"@,
            TokenType::PLUS => "PLUS"@,
            TokenType::SEMICOLON => "SEMICOLON"@,
            TokenType::SLASH => "SLASH"@,
            TokenType::STAR => "STAR"@,
            TokenType::BANG => "BANG"@,
            TokenType::BANG_EQUAL => "BANG_EQUAL"@,
            TokenType::EQUAL => "EQUAL"@,
            TokenType::EQUAL_EQUAL => "EQUAL_EQUAL"@,
            TokenType::GREATER => "GREATER"@,
            TokenType::GREATER_EQUAL => "GREATER_EQUAL"@,
            TokenType::LESS => "LESS"@,
            TokenType::LESS_EQUAL => "LESS_EQUAL"@,
            TokenType::IDENTIFIER => "IDENTIFIER"@,
            TokenType::STRING => "STRING"@,
            TokenType::NUMBER => "NUMBER"@,
            TokenType::AND => "AND"@,
            TokenType::CLASS => "CLASS"@,
            TokenType::ELSE => "ELSE"@,
            TokenType::FALSE => "FALSE"@,
            TokenType::FUN => "FUN"@,
            TokenType::FOR => "FOR"@,
            TokenType::IF => "IF"@,
            TokenType::NIL => "NIL"@,
            TokenType::OR => "OR"@,
            TokenType::PRINT => "PRINT"@,
            TokenType::RETURN => "RETURN"@,
            TokenType::SUPER => "SUPER"@,
            TokenType::THIS => "THIS"@,
            TokenType::TRUE => "TRUE"@,
            TokenType::VAR => "VAR"@,
            TokenType::WHILE => "WHILE"@,
            TokenType::EOF => "EOF"@,
        }
    }

    /// The name of the kind, as diagnostics show it.
    pub fn name(&self) -> (r: &'static str)
        ensures
            r@ == self.name_spec(),
    {
        match self {
            TokenType::LEFT_PAREN => "LEFT_PAREN",
            TokenType::RIGHT_PAREN => "RIGHT_PAREN",
            TokenType::LEFT_BRACE => "LEFT_BRACE",
            TokenType::RIGHT_BRACE => "RIGHT_BRACE",
            TokenType::COMMA => "COMMA",
            TokenType::DOT => "DOT",
            TokenType::MINUS => "MINUS",
            TokenType::PLUS => "PLUS",
            TokenType::SEMICOLON => "SEMICOLON",
            TokenType::SLASH => "SLASH",
            TokenType::STAR => "STAR",
            TokenType::BANG => "BANG",
            TokenType::BANG_EQUAL => "BANG_EQUAL",
            TokenType::EQUAL => "EQUAL",
            TokenType::EQUAL_EQUAL => "EQUAL_EQUAL",
            TokenType::GREATER => "GREATER",
            TokenType::GREATER_EQUAL => "GREATER_EQUAL",
            TokenType::LESS => "LESS",
            TokenType::LESS_EQUAL => "LESS_EQUAL",
            TokenType::IDENTIFIER => "IDENTIFIER",
            TokenType::STRING => "STRING",
            TokenType::NUMBER => "NUMBER",
            TokenType::AND => "AND",
            TokenType::CLASS => "CLASS",
            TokenType::ELSE => "ELSE",
            TokenType::FALSE => "FALSE",
            TokenType::FUN => "FUN",
            TokenType::FOR => "FOR",
            TokenType::IF => "IF",
            TokenType::NIL => "NIL",
            TokenType::OR => "OR",
            TokenType::PRINT => "PRINT",
            TokenType::RETURN => "RETURN",
            TokenType::SUPER => "SUPER",
            TokenType::THIS => "THIS",
            TokenType::TRUE => "TRUE",
            TokenType::VAR => "VAR",
            TokenType::WHILE => "WHILE",
            TokenType::EOF => "EOF",
        }
    }
}

/// The binding strength of an operator, from the loosest to the tightest.
#[derive(PartialEq, Eq, PartialOrd, Ord, Debug, Clone, Copy, Structural)]
pub enum Precedence {
    Lowest,
    Assign,
    Or,
    And,
    Equality,
    Comparison,
    Term,
    Factor,
    Unary,
    Call,
    Primary,
}

impl Precedence {
    /// The place of the level in the order, `Lowest` at 0 and `Primary` at 10.
    pub open spec fn level(self) -> nat {
        match self {
            Precedence::Lowest => 0,
            Precedence::Assign => 1,
            Precedence::Or => 2,
            Precedence::And => 3,
            Precedence::Equality => 4,
            Precedence::Comparison => 5,
            Precedence::Term => 6,
            Precedence::Factor => 7,
            Precedence::Unary => 8,
            Precedence::Call => 9,
            Precedence::Primary => 10,
        }
    }

    /// The place of the level in the order, `Lowest` at 0 and `Primary` at 10.
    pub fn rank(&self) -> (r: u8)
        ensures
            r == self.level(),
    {
        match self {
            Precedence::Lowest => 0,
            Precedence::Assign => 1,
            Precedence::Or => 2,
            Precedence::And => 3,
            Precedence::Equality => 4,
            Precedence::Comparison => 5,
            Precedence::Term => 6,
            Precedence::Factor => 7,
            Precedence::Unary => 8,
            Precedence::Call => 9,
            Precedence::Primary => 10,
        }
    }

    /// The level one step tighter; `Primary`, the tightest, stands for itself.
    pub open spec fn tighter(self) -> Precedence {
        match self {
            Precedence::Lowest => Precedence::Assign,
            Precedence::Assign => Precedence::Or,
            Precedence::Or => Precedence::And,
            Precedence::And => Precedence::Equality,
            Precedence::Equality => Precedence::Comparison,
            Precedence::Comparison => Precedence::Term,
            Precedence::Term => Precedence::Factor,
            Precedence::Factor => Precedence::Unary,
            Precedence::Unary => Precedence::Call,
            _ => Precedence::Primary,
        }
    }

    /// The level one step tighter. There is none above `Primary`.
    pub fn higher(prec: &Self) -> (r: Self)
        requires
            *prec != Precedence::Primary,
        ensures
            r == prec.tighter(),
            r.level() == prec.level() + 1,
    {
        match prec {
            Precedence::Lowest => Precedence::Assign,
            Precedence::Assign => Precedence::Or,
            Precedence::Or => Precedence::And,
            Precedence::And => Precedence::Equality,
            Precedence::Equality => Precedence::Comparison,
            Precedence::Comparison => Precedence::Term,
            Precedence::Term => Precedence::Factor,
            Precedence::Factor => Precedence::Unary,
            Precedence::Unary => Precedence::Call,
            _ => Precedence::Primary,
        }
    }

    /// Whether `self` binds at most as tightly as `other`.
    pub fn at_most(&self, other: &Self) -> (r: bool)
        ensures
            r == (self.level() <= other.level()),
    {
        self.rank() <= other.rank()
    }
}

/// A level is known by its place in the order.
pub proof fn level_is_injective(a: Precedence, b: Precedence)
    requires
        a.level() == b.level(),
    ensures
        a == b,
{
}

/// A token of the incremental scanner: a kind, the span `start..end` of the
/// source that it covers, and the line on which it ends.
#[derive(Default, Debug, Clone, Copy)]
pub struct Token {
    pub typ: TokenType,
    pub start: usize,
    pub end: usize,
    pub line: usize,
}

impl Token {
    /// The span lies inside the source, and a string has room for its quotes.
    pub open spec fn within(self, source: Seq<char>) -> bool {
        &&& self.start <= self.end <= source.len()
        &&& self.typ == TokenType::STRING ==> self.start + 2 <= self.end
    }

    /// The text of the token: its span, without the quotes for a string.
    pub open spec fn literal_spec(self, source: Seq<char>) -> Seq<char> {
        if self.typ == TokenType::STRING {
            source.subrange(self.start + 1, self.end - 1)
        } else {
            source.subrange(self.start as int, self.end as int)
        }
    }

    /// The rendering `[KIND: 'text' | line]` of the token.
    pub open spec fn rendering(self, source: Seq<char>) -> Seq<char> {
        "["@ + self.typ.name_spec() + ": '"@ + self.literal_spec(source) + "' | "@ + decimal(
            self.line as nat,
        ) + "]"@
    }

    /// Whether the span lies inside the source.
    pub fn is_within(&self, source: &Vec<char>) -> (r: bool)
        ensures
            r == self.within(source@),
    {
        if self.start > self.end || self.end > source.len() {
            return false;
        }
        match self.typ {
            TokenType::STRING => self.end - self.start >= 2,
            _ => true,
        }
    }

    /// The kind, the text and the line as a readable string.
    pub fn to_string(&self, source: &Vec<char>) -> (r: String)
        requires
            self.within(source@),
        ensures
            r@ == self.rendering(source@),
    {
        let mut s = String::new();
        push_text(&mut s, "[");
        push_text(&mut s, self.typ.name());
        push_text(&mut s, ": '");
        let text = self.get_literal(source);
        push_text(&mut s, text.as_str());
        push_text(&mut s, "' | ");
        push_decimal(&mut s, self.line);
        push_text(&mut s, "]");
        assert(s@ =~= self.rendering(source@));
        s
    }

    /// The text of the token, taken from the source.
    pub fn get_literal(&self, source: &Vec<char>) -> (r: String)
        requires
            self.within(source@),
        ensures
            r@ == self.literal_spec(source@),
    {
        match self.typ {
            TokenType::STRING => string_of(source, self.start + 1, self.end - 1),
            _ => string_of(source, self.start, self.end),
        }
    }
}

} // verus!
