//! The parser: from tokens to the syntax tree that `grammar` says they stand for.

use vstd::prelude::*;
use crate::text::{decimal, push_decimal, push_text};
use crate::token::TokenType;
use crate::treewalk::expressions::{call_view, expr_views, Expr, ExprView};
use crate::treewalk::grammar;
use crate::treewalk::grammar::{ParseErrorKind, ParseErrorView, MAX_ARGUMENTS, LEVELS};
use crate::treewalk::scanner::end_token;
use crate::treewalk::statement::{block_view, stmt_views, Stmt, StmtView};
use crate::treewalk::token::{token_views, Token, TokenView};
use crate::treewalk::token_type::Object;
use vstd::string::StringExecFns;

verus! {

impl ParseErrorKind {
    /// What was wrong, in words.
    pub open spec fn message_spec(self) -> Seq<char> {
        match self {
            ParseErrorKind::ExpectSemicolonAfterReturn =>
                "Expect semicolon after return statement."@,
            ParseErrorKind::ExpectLeftParenAfterIf => "Expect `(` after keyword if."@,
            ParseErrorKind::ExpectRightParenAfterCondition => "Expect `)` after condition expr."@,
            ParseErrorKind::ExpectLeftParenAfterWhile => "Expect `(` after keyword while."@,
            ParseErrorKind::ExpectLeftParenAfterFor => "Expect `(` after keyword for."@,
            ParseErrorKind::ExpectSemicolonInFor => "Expect `;`."@,
            ParseErrorKind::ExpectRightParenAfterFor => "Expect `)` after for clause."@,
            ParseErrorKind::ExpectRightBraceAfterBlock => "Expect } after block"@,
            ParseErrorKind::ExpectFunctionName => "Expect function name."@,
            ParseErrorKind::ExpectLeftParenAfterFunctionName => "Expect `(` after function name."@,
            ParseErrorKind::ExpectParameterName => "Expect parameter name."@,
            ParseErrorKind::TooManyParameters => "Maximum parameter counts are limited to 255."@,
            ParseErrorKind::ExpectRightParenAfterParameters => "Expect `)` after parameters."@,
            ParseErrorKind::ExpectLeftBraceBeforeBody => "Expect `{` before function body."@,
            ParseErrorKind::ExpectVariableName => "Expect variable name."@,
            ParseErrorKind::ExpectSemicolonAfterVariable =>
                "Expect `;` after variable declaration."@,
            ParseErrorKind::ExpectSemicolonAfterValue => "Expect `;` after value."@,
            ParseErrorKind::ExpectSemicolonAfterExpression => "Expect `;` after expression."@,
            ParseErrorKind::InvalidAssignmentTarget => "Invalid assignment target."@,
            ParseErrorKind::TooManyArguments => "Maximum argument counts are limited to 255."@,
            ParseErrorKind::ExpectRightParenAfterArguments => "Expect `)` after arguments."@,
            ParseErrorKind::ExpectRightParenAfterExpression => "Expect ')' after expression."@,
            ParseErrorKind::ExpectExpression => "Expect expression"@,
        }
    }

    /// What was wrong, in words.
    pub fn message(&self) -> (r: &'static str)
        ensures
            r@ == self.message_spec(),
    {
        match self {
            ParseErrorKind::ExpectSemicolonAfterReturn => "Expect semicolon after return statement.",
            ParseErrorKind::ExpectLeftParenAfterIf => "Expect `(` after keyword if.",
            ParseErrorKind::ExpectRightParenAfterCondition => "Expect `)` after condition expr.",
            ParseErrorKind::ExpectLeftParenAfterWhile => "Expect `(` after keyword while.",
            ParseErrorKind::ExpectLeftParenAfterFor => "Expect `(` after keyword for.",
            ParseErrorKind::ExpectSemicolonInFor => "Expect `;`.",
            ParseErrorKind::ExpectRightParenAfterFor => "Expect `)` after for clause.",
            ParseErrorKind::ExpectRightBraceAfterBlock => "Expect } after block",
            ParseErrorKind::ExpectFunctionName => "Expect function name.",
            ParseErrorKind::ExpectLeftParenAfterFunctionName => "Expect `(` after function name.",
            ParseErrorKind::ExpectParameterName => "Expect parameter name.",
            ParseErrorKind::TooManyParameters => "Maximum parameter counts are limited to 255.",
            ParseErrorKind::ExpectRightParenAfterParameters => "Expect `)` after parameters.",
            ParseErrorKind::ExpectLeftBraceBeforeBody => "Expect `{` before function body.",
            ParseErrorKind::ExpectVariableName => "Expect variable name.",
            ParseErrorKind::ExpectSemicolonAfterVariable => "Expect `;` after variable declaration.",
            ParseErrorKind::ExpectSemicolonAfterValue => "Expect `;` after value.",
            ParseErrorKind::ExpectSemicolonAfterExpression => "Expect `;` after expression.",
            ParseErrorKind::InvalidAssignmentTarget => "Invalid assignment target.",
            ParseErrorKind::TooManyArguments => "Maximum argument counts are limited to 255.",
            ParseErrorKind::ExpectRightParenAfterArguments => "Expect `)` after arguments.",
            ParseErrorKind::ExpectRightParenAfterExpression => "Expect ')' after expression.",
            ParseErrorKind::ExpectExpression => "Expect expression",
        }
    }
}

/// A parse error: the line and the text of the token at which it was found,
/// whether that token was the end of the input, and what was wrong.
#[derive(Debug)]
pub struct ParseError {
    pub line: usize,
    pub lexeme: String,
    pub at_end: bool,
    pub kind: ParseErrorKind,
}

impl View for ParseError {
    type V = ParseErrorView;

    open spec fn view(&self) -> ParseErrorView {
        ParseErrorView {
            line: self.line,
            lexeme: self.lexeme@,
            at_end: self.at_end,
            kind: self.kind,
        }
    }
}

impl ParseErrorView {
    /// The diagnostic `line N at 'TEXT': MESSAGE`, or `line N at the end:
    /// MESSAGE` for an error at the end of the input.
    pub open spec fn rendering(self) -> Seq<char> {
        if self.at_end {
            "line "@ + decimal(self.line as nat) + " at the end: "@ + self.kind.message_spec()
        } else {
            "line "@ + decimal(self.line as nat) + " at '"@ + self.lexeme + "': "@
                + self.kind.message_spec()
        }
    }
}

impl ParseError {
    /// The diagnostic for the error.
    pub fn to_string(&self) -> (r: String)
        ensures
            r@ == self@.rendering(),
    {
        let mut s = String::new();
        push_text(&mut s, "line ");
        push_decimal(&mut s, self.line);
        if self.at_end {
            push_text(&mut s, " at the end: ");
        } else {
            push_text(&mut s, " at '");
            push_text(&mut s, self.lexeme.as_str());
            push_text(&mut s, "': ");
        }
        push_text(&mut s, self.kind.message());
        assert(s@ =~= self@.rendering());
        s
    }
}

/// The views of a list of parse errors.
pub open spec fn error_views(errors: Seq<ParseError>) -> Seq<ParseErrorView> {
    Seq::new(errors.len(), |i: int| errors[i]@)
}

pub open spec fn expr_outcome(r: Result<Expr, ParseError>) -> Result<ExprView, ParseErrorView> {
    match r {
        Ok(e) => Ok(e@),
        Err(e) => Err(e@),
    }
}

pub open spec fn stmt_outcome(r: Result<Stmt, ParseError>) -> Result<StmtView, ParseErrorView> {
    match r {
        Ok(s) => Ok(s@),
        Err(e) => Err(e@),
    }
}

pub open spec fn token_outcome(r: Result<Token, ParseError>) -> Result<TokenView, ParseErrorView> {
    match r {
        Ok(t) => Ok(t@),
        Err(e) => Err(e@),
    }
}

/// A parser over a sequence of tokens.
pub struct Parser {
    tokens: Vec<Token>,
    current: usize,
    errors: Vec<ParseError>,
    end: Token,
}

impl Parser {
    /// The tokens.
    pub closed spec fn input(&self) -> Seq<TokenView> {
        token_views(self.tokens@)
    }

    /// The position of the next token.
    pub closed spec fn position(&self) -> int {
        self.current as int
    }

    /// The errors that were reported and recovered from.
    pub closed spec fn reported(&self) -> Seq<ParseErrorView> {
        error_views(self.errors@)
    }

    pub closed spec fn well_formed(&self) -> bool {
        &&& self.current <= self.tokens@.len()
        &&& self.end@ == end_token(0)
    }

    /// The parser reads the same tokens as `other` and has reported the same errors.
    pub open spec fn continues(&self, other: &Parser) -> bool {
        &&& self.well_formed()
        &&& self.input() == other.input()
        &&& self.reported() == other.reported()
        &&& other.position() <= self.position() <= self.input().len()
    }

    /// The parser reads the same tokens as `other`, at or behind its position.
    pub open spec fn proceeds(&self, other: &Parser) -> bool {
        &&& self.well_formed()
        &&& self.input() == other.input()
        &&& other.position() <= self.position() <= self.input().len()
    }

    /// A parser at the first of `tokens`.
    pub fn new(tokens: Vec<Token>) -> (r: Self)
        ensures
            r.well_formed(),
            r.input() == token_views(tokens@),
            r.position() == 0,
            r.reported() == Seq::<ParseErrorView>::empty(),
    {
        let r = Parser {
            tokens,
            current: 0,
            errors: Vec::new(),
            end: Token::new(TokenType::EOF, String::from_str(" "), Object::Nil, 0),
        };
        assert(r.reported() =~= Seq::<ParseErrorView>::empty());
        r
    }

    /// The errors that were reported and recovered from.
    pub fn errors(&self) -> (r: &Vec<ParseError>)
        ensures
            error_views(r@) == self.reported(),
    {
        &self.errors
    }

    /// Hands out the errors that were reported and recovered from.
    pub fn take_errors(self) -> (r: Vec<ParseError>)
        ensures
            error_views(r@) == self.reported(),
    {
        self.errors
    }

    fn peek(&self) -> (r: &Token)
        requires
            self.well_formed(),
        ensures
            r@ == grammar::at(self.input(), self.position()),
    {
        if self.current < self.tokens.len() {
            &self.tokens[self.current]
        } else {
            &self.end
        }
    }

    fn is_at_end(&self) -> (r: bool)
        requires
            self.well_formed(),
        ensures
            r == grammar::is_end(self.input(), self.position()),
            !r ==> self.position() < self.input().len() && self.current < self.tokens.len(),
    {
        self.peek().ttype == TokenType::EOF
    }

    fn previous(&self) -> (r: Token)
        requires
            self.well_formed(),
        ensures
            r@ == grammar::at(self.input(), self.position() - 1),
    {
        if self.current >= 1 && self.current - 1 < self.tokens.len() {
            self.tokens[self.current - 1].duplicate()
        } else {
            self.end.duplicate()
        }
    }

    /// Passes the next token if it is of kind `ttype`.
    fn is_match(&mut self, ttype: TokenType) -> (r: bool)
        requires
            old(self).well_formed(),
        ensures
            final(self).continues(old(self)),
            r == grammar::check(old(self).input(), old(self).position(), ttype),
            final(self).position() == if r {
                old(self).position() + 1
            } else {
                old(self).position()
            },
    {
        if self.check(ttype) {
            self.current += 1;
            true
        } else {
            false
        }
    }

    fn check(&self, ttype: TokenType) -> (r: bool)
        requires
            self.well_formed(),
        ensures
            r == grammar::check(self.input(), self.position(), ttype),
            r ==> self.position() < self.input().len() && self.current < self.tokens.len(),
    {
        if self.is_at_end() {
            false
        } else {
            self.peek().ttype == ttype
        }
    }

    fn advance(&mut self) -> (r: Token)
        requires
            old(self).well_formed(),
        ensures
            final(self).continues(old(self)),
            final(self).position() == grammar::step(old(self).input(), old(self).position()),
            r@ == grammar::at(final(self).input(), final(self).position() - 1),
    {
        if !self.is_at_end() {
            self.current += 1;
        }
        self.previous()
    }

    fn consume(&mut self, ttype: TokenType, kind: ParseErrorKind) -> (r: Result<Token, ParseError>)
        requires
            old(self).well_formed(),
        ensures
            final(self).continues(old(self)),
            (token_outcome(r), final(self).position()) == grammar::expect(
                old(self).input(),
                old(self).position(),
                ttype,
                kind,
            ),
    {
        if self.check(ttype) {
            Ok(self.advance())
        } else {
            Err(self.error(self.peek(), kind))
        }
    }

    fn error(&self, token: &Token, kind: ParseErrorKind) -> (r: ParseError)
        ensures
            r@ == grammar::error_at(token@, kind),
    {
        ParseError {
            line: token.line,
            lexeme: token.lexeme.clone(),
            at_end: token.ttype == TokenType::EOF,
            kind,
        }
    }

    /// Passes over tokens up to the next place where a statement may begin.
    fn synchronize(&mut self)
        requires
            old(self).well_formed(),
        ensures
            final(self).continues(old(self)),
            final(self).position() == grammar::synchronize(old(self).input(), old(self).position()),
            !grammar::is_end(old(self).input(), old(self).position()) ==> final(self).position()
                > old(self).position(),
    {
        let _ = self.advance();
        while !self.is_at_end()
            invariant
                self.continues(old(self)),
                self.position() >= grammar::step(old(self).input(), old(self).position()),
                grammar::resume(self.input(), self.position()) == grammar::synchronize(
                    old(self).input(),
                    old(self).position(),
                ),
            ensures
                self.position() == grammar::synchronize(old(self).input(), old(self).position()),
            decreases self.tokens@.len() - self.current,
        {
            if self.previous().ttype == TokenType::SEMICOLON {
                break ;
            }
            match self.peek().ttype {
                TokenType::CLASS
                | TokenType::FUN
                | TokenType::VAR
                | TokenType::FOR
                | TokenType::IF
                | TokenType::WHILE
                | TokenType::PRINT
                | TokenType::RETURN => {
                    break ;
                },
                _ => {},
            }
            let _ = self.advance();
        }
    }

    fn expressions(&mut self) -> (r: Result<Expr, ParseError>)
        requires
            old(self).well_formed(),
        ensures
            final(self).continues(old(self)),
            (expr_outcome(r), final(self).position()) == grammar::expression(
                old(self).input(),
                old(self).position(),
            ),
            r is Ok ==> final(self).position() > old(self).position(),
        decreases old(self).tokens@.len() - old(self).current, 40int,
    {
        self.assignment()
    }

    fn assignment(&mut self) -> (r: Result<Expr, ParseError>)
        requires
            old(self).well_formed(),
        ensures
            final(self).continues(old(self)),
            (expr_outcome(r), final(self).position()) == grammar::assignment(
                old(self).input(),
                old(self).position(),
            ),
            r is Ok ==> final(self).position() > old(self).position(),
        decreases old(self).tokens@.len() - old(self).current, 39int,
    {
        let expr = match self.or() {
            Ok(e) => e,
            Err(e) => {
                return Err(e);
            },
        };
        if self.is_match(TokenType::EQUAL) {
            let equals = self.previous();
            let value = match self.assignment() {
                Ok(v) => v,
                Err(e) => {
                    return Err(e);
                },
            };
            match expr {
                Expr::Variable(name) => {
                    return Ok(Expr::Assign(name, Box::new(value)));
                },
                _ => {
                    return Err(self.error(&equals, ParseErrorKind::InvalidAssignmentTarget));
                },
            }
        }
        Ok(expr)
    }

    fn or(&mut self) -> (r: Result<Expr, ParseError>)
        requires
            old(self).well_formed(),
        ensures
            final(self).continues(old(self)),
            (expr_outcome(r), final(self).position()) == grammar::infix(
                old(self).input(),
                old(self).position(),
                0,
            ),
            r is Ok ==> final(self).position() > old(self).position(),
        decreases old(self).tokens@.len() - old(self).current, 38int,
    {
        self.infix(0)
    }

    fn and(&mut self) -> (r: Result<Expr, ParseError>)
        requires
            old(self).well_formed(),
        ensures
            final(self).continues(old(self)),
            (expr_outcome(r), final(self).position()) == grammar::infix(
                old(self).input(),
                old(self).position(),
                1,
            ),
            r is Ok ==> final(self).position() > old(self).position(),
        decreases old(self).tokens@.len() - old(self).current, 35int,
    {
        self.infix(1)
    }

    fn equality(&mut self) -> (r: Result<Expr, ParseError>)
        requires
            old(self).well_formed(),
        ensures
            final(self).continues(old(self)),
            (expr_outcome(r), final(self).position()) == grammar::infix(
                old(self).input(),
                old(self).position(),
                2,
            ),
            r is Ok ==> final(self).position() > old(self).position(),
        decreases old(self).tokens@.len() - old(self).current, 32int,
    {
        self.infix(2)
    }

    fn comparison(&mut self) -> (r: Result<Expr, ParseError>)
        requires
            old(self).well_formed(),
        ensures
            final(self).continues(old(self)),
            (expr_outcome(r), final(self).position()) == grammar::infix(
                old(self).input(),
                old(self).position(),
                3,
            ),
            r is Ok ==> final(self).position() > old(self).position(),
        decreases old(self).tokens@.len() - old(self).current, 29int,
    {
        self.infix(3)
    }

    fn term(&mut self) -> (r: Result<Expr, ParseError>)
        requires
            old(self).well_formed(),
        ensures
            final(self).continues(old(self)),
            (expr_outcome(r), final(self).position()) == grammar::infix(
                old(self).input(),
                old(self).position(),
                4,
            ),
            r is Ok ==> final(self).position() > old(self).position(),
        decreases old(self).tokens@.len() - old(self).current, 26int,
    {
        self.infix(4)
    }

    fn factor(&mut self) -> (r: Result<Expr, ParseError>)
        requires
            old(self).well_formed(),
        ensures
            final(self).continues(old(self)),
            (expr_outcome(r), final(self).position()) == grammar::infix(
                old(self).input(),
                old(self).position(),
                5,
            ),
            r is Ok ==> final(self).position() > old(self).position(),
        decreases old(self).tokens@.len() - old(self).current, 23int,
    {
        self.infix(5)
    }

    /// The operand of an operator of the given level.
    fn operand(&mut self, level: u8) -> (r: Result<Expr, ParseError>)
        requires
            old(self).well_formed(),
            level < LEVELS,
        ensures
            final(self).continues(old(self)),
            (expr_outcome(r), final(self).position()) == grammar::infix(
                old(self).input(),
                old(self).position(),
                level + 1,
            ),
            r is Ok ==> final(self).position() > old(self).position(),
        decreases old(self).tokens@.len() - old(self).current, 36 - 3 * level,
    {
        if level == 0 {
            self.and()
        } else if level == 1 {
            self.equality()
        } else if level == 2 {
            self.comparison()
        } else if level == 3 {
            self.term()
        } else if level == 4 {
            self.factor()
        } else {
            self.unary()
        }
    }

    /// Whether the next token is an operator of the given level.
    fn at_operator(&self, level: u8) -> (r: bool)
        requires
            self.well_formed(),
        ensures
            r == (!grammar::is_end(self.input(), self.position()) && grammar::is_operator(
                level as int,
                grammar::at(self.input(), self.position()).ttype,
            )),
            r ==> self.position() < self.input().len(),
    {
        if self.is_at_end() {
            return false;
        }
        let t = self.peek().ttype;
        if level == 0 {
            t == TokenType::OR
        } else if level == 1 {
            t == TokenType::AND
        } else if level == 2 {
            t == TokenType::BANG_EQUAL || t == TokenType::EQUAL_EQUAL
        } else if level == 3 {
            t == TokenType::GREATER || t == TokenType::GREATER_EQUAL || t == TokenType::LESS || t
                == TokenType::LESS_EQUAL
        } else if level == 4 {
            t == TokenType::MINUS || t == TokenType::PLUS
        } else if level == 5 {
            t == TokenType::SLASH || t == TokenType::STAR
        } else {
            false
        }
    }

    /// The operands of the given level with the operators between them.
    fn infix(&mut self, level: u8) -> (r: Result<Expr, ParseError>)
        requires
            old(self).well_formed(),
            level < LEVELS,
        ensures
            final(self).continues(old(self)),
            (expr_outcome(r), final(self).position()) == grammar::infix(
                old(self).input(),
                old(self).position(),
                level as int,
            ),
            r is Ok ==> final(self).position() > old(self).position(),
        decreases old(self).tokens@.len() - old(self).current, 37 - 3 * level,
    {
        let mut expr = match self.operand(level) {
            Ok(e) => e,
            Err(e) => {
                return Err(e);
            },
        };
        while self.at_operator(level)
            invariant
                self.continues(old(self)),
                level < LEVELS,
                self.position() > old(self).position(),
                grammar::infix_rest(self.input(), self.position(), level as int, expr@)
                    == grammar::infix(old(self).input(), old(self).position(), level as int),
            decreases self.tokens@.len() - self.current,
        {
            let operator = self.advance();
            let right = match self.operand(level) {
                Ok(e) => e,
                Err(e) => {
                    return Err(e);
                },
            };
            expr = if level <= 1 {
                Expr::Logical(Box::new(expr), operator, Box::new(right))
            } else {
                Expr::Binary(Box::new(expr), operator, Box::new(right))
            };
        }
        Ok(expr)
    }

    fn unary(&mut self) -> (r: Result<Expr, ParseError>)
        requires
            old(self).well_formed(),
        ensures
            final(self).continues(old(self)),
            (expr_outcome(r), final(self).position()) == grammar::unary(
                old(self).input(),
                old(self).position(),
            ),
            r is Ok ==> final(self).position() > old(self).position(),
        decreases old(self).tokens@.len() - old(self).current, 5int,
    {
        if self.check(TokenType::BANG) || self.check(TokenType::MINUS) {
            let operator = self.advance();
            let right = match self.unary() {
                Ok(e) => e,
                Err(e) => {
                    return Err(e);
                },
            };
            return Ok(Expr::Unary(operator, Box::new(right)));
        }
        self.call()
    }

    fn call(&mut self) -> (r: Result<Expr, ParseError>)
        requires
            old(self).well_formed(),
        ensures
            final(self).continues(old(self)),
            (expr_outcome(r), final(self).position()) == grammar::call(
                old(self).input(),
                old(self).position(),
            ),
            r is Ok ==> final(self).position() > old(self).position(),
        decreases old(self).tokens@.len() - old(self).current, 4int,
    {
        let mut expr = match self.primary() {
            Ok(e) => e,
            Err(e) => {
                return Err(e);
            },
        };
        loop
            invariant
                self.continues(old(self)),
                self.position() > old(self).position(),
                grammar::call_rest(self.input(), self.position(), expr@) == grammar::call(
                    old(self).input(),
                    old(self).position(),
                ),
            decreases self.tokens@.len() - self.current,
        {
            if self.is_match(TokenType::LEFT_PAREN) {
                expr = match self.to_call(expr) {
                    Ok(e) => e,
                    Err(e) => {
                        return Err(e);
                    },
                };
            } else {
                return Ok(expr);
            }
        }
    }

    fn to_call(&mut self, callee: Expr) -> (r: Result<Expr, ParseError>)
        requires
            old(self).well_formed(),
        ensures
            final(self).continues(old(self)),
            (expr_outcome(r), final(self).position()) == grammar::to_call(
                old(self).input(),
                old(self).position(),
                callee@,
            ),
            r is Ok ==> final(self).position() > old(self).position(),
        decreases old(self).tokens@.len() - old(self).current, 45int,
    {
        let mut args: Vec<Expr> = Vec::new();
        if !self.check(TokenType::RIGHT_PAREN) {
            let first = match self.expressions() {
                Ok(e) => e,
                Err(e) => {
                    return Err(e);
                },
            };
            args.push(first);
            assert(expr_views(args@) =~= seq![first@]);
            loop
                invariant
                    self.continues(old(self)),
                    self.position() > old(self).position(),
                    grammar::more_arguments(
                        self.input(),
                        self.position(),
                        callee@,
                        expr_views(args@),
                    ) == grammar::to_call(old(self).input(), old(self).position(), callee@),
                ensures
                    self.continues(old(self)),
                    grammar::close_call(self.input(), self.position(), callee@, expr_views(args@))
                        == grammar::to_call(old(self).input(), old(self).position(), callee@),
                decreases self.tokens@.len() - self.current,
            {
                if !self.is_match(TokenType::COMMA) {
                    break ;
                }
                if args.len() >= MAX_ARGUMENTS {
                    return Err(self.error(self.peek(), ParseErrorKind::TooManyArguments));
                }
                let next = match self.expressions() {
                    Ok(e) => e,
                    Err(e) => {
                        return Err(e);
                    },
                };
                let ghost before = expr_views(args@);
                args.push(next);
                assert(expr_views(args@) =~= before.push(next@));
            }
        } else {
            assert(expr_views(args@) =~= Seq::<ExprView>::empty());
        }
        let paren = match self.consume(
            TokenType::RIGHT_PAREN,
            ParseErrorKind::ExpectRightParenAfterArguments,
        ) {
            Ok(t) => t,
            Err(e) => {
                return Err(e);
            },
        };
        proof {
            call_view(callee, paren, args);
        }
        Ok(Expr::Call(Box::new(callee), paren, args))
    }

    fn primary(&mut self) -> (r: Result<Expr, ParseError>)
        requires
            old(self).well_formed(),
        ensures
            final(self).continues(old(self)),
            (expr_outcome(r), final(self).position()) == grammar::primary(
                old(self).input(),
                old(self).position(),
            ),
            r is Ok ==> final(self).position() > old(self).position(),
        decreases old(self).tokens@.len() - old(self).current, 3int,
    {
        if self.is_match(TokenType::FALSE) {
            return Ok(Expr::Literal(Object::Bool(false)));
        }
        if self.is_match(TokenType::TRUE) {
            return Ok(Expr::Literal(Object::Bool(true)));
        }
        if self.is_match(TokenType::NIL) {
            return Ok(Expr::Literal(Object::Nil));
        }
        if self.check(TokenType::STRING) || self.check(TokenType::NUMBER) {
            let t = self.advance();
            return Ok(Expr::Literal(t.literal));
        }
        if self.is_match(TokenType::LEFT_PAREN) {
            let expr = match self.expressions() {
                Ok(e) => e,
                Err(e) => {
                    return Err(e);
                },
            };
            match self.consume(
                TokenType::RIGHT_PAREN,
                ParseErrorKind::ExpectRightParenAfterExpression,
            ) {
                Ok(_) => {},
                Err(e) => {
                    return Err(e);
                },
            }
            return Ok(Expr::Grouping(Box::new(expr)));
        }
        if self.is_match(TokenType::IDENTIFIER) {
            return Ok(Expr::Variable(self.previous()));
        }
        Err(self.error(self.peek(), ParseErrorKind::ExpectExpression))
    }

    /// An expression and the token of kind `ttype` that must follow it.
    fn expression_then(&mut self, ttype: TokenType, kind: ParseErrorKind) -> (r: Result<
        Expr,
        ParseError,
    >)
        requires
            old(self).well_formed(),
        ensures
            final(self).continues(old(self)),
            (expr_outcome(r), final(self).position()) == grammar::expression_then(
                old(self).input(),
                old(self).position(),
                ttype,
                kind,
            ),
            r is Ok ==> final(self).position() > old(self).position() + 1,
    {
        let value = match self.expressions() {
            Ok(e) => e,
            Err(e) => {
                return Err(e);
            },
        };
        match self.consume(ttype, kind) {
            Ok(_) => Ok(value),
            Err(e) => Err(e),
        }
    }

    /// An expression, unless the token of kind `ttype` comes next; then that token.
    fn optional_then(&mut self, ttype: TokenType, kind: ParseErrorKind) -> (r: Result<
        Expr,
        ParseError,
    >)
        requires
            old(self).well_formed(),
        ensures
            final(self).continues(old(self)),
            (expr_outcome(r), final(self).position()) == grammar::optional_then(
                old(self).input(),
                old(self).position(),
                ttype,
                kind,
            ),
            r is Ok ==> final(self).position() > old(self).position(),
    {
        if self.is_match(ttype) {
            Ok(Expr::Empty)
        } else {
            self.expression_then(ttype, kind)
        }
    }

    fn statement(&mut self) -> (r: Result<Stmt, ParseError>)
        requires
            old(self).well_formed(),
        ensures
            final(self).proceeds(old(self)),
            (stmt_outcome(r), final(self).position(), final(self).reported()) == grammar::statement(
                old(self).input(),
                old(self).position(),
                old(self).reported(),
            ),
            r is Ok ==> final(self).position() > old(self).position(),
        decreases old(self).tokens@.len() - old(self).current, 60int,
    {
        if self.is_match(TokenType::PRINT) {
            return self.print_statement();
        }
        if self.is_match(TokenType::LEFT_BRACE) {
            return self.block();
        }
        if self.is_match(TokenType::IF) {
            return self.if_stmt();
        }
        if self.is_match(TokenType::WHILE) {
            return self.while_stmt();
        }
        if self.is_match(TokenType::FOR) {
            return self.for_stmt();
        }
        if self.is_match(TokenType::RETURN) {
            return self.return_stmt();
        }
        self.expression_statement()
    }

    fn return_stmt(&mut self) -> (r: Result<Stmt, ParseError>)
        requires
            old(self).well_formed(),
        ensures
            final(self).continues(old(self)),
            (stmt_outcome(r), final(self).position()) == grammar::return_stmt(
                old(self).input(),
                old(self).position(),
            ),
            r is Ok ==> final(self).position() > old(self).position(),
    {
        let keyword = self.previous();
        match self.optional_then(
            TokenType::SEMICOLON,
            ParseErrorKind::ExpectSemicolonAfterReturn,
        ) {
            Ok(value) => Ok(Stmt::ReturnStmt(keyword, Box::new(value))),
            Err(e) => Err(e),
        }
    }

    /// The condition in parentheses that follows a keyword.
    fn condition(&mut self, missing: ParseErrorKind) -> (r: Result<Expr, ParseError>)
        requires
            old(self).well_formed(),
        ensures
            final(self).continues(old(self)),
            (expr_outcome(r), final(self).position()) == grammar::condition(
                old(self).input(),
                old(self).position(),
                missing,
            ),
            r is Ok ==> final(self).position() > old(self).position(),
    {
        match self.consume(TokenType::LEFT_PAREN, missing) {
            Ok(_) => {},
            Err(e) => {
                return Err(e);
            },
        }
        self.expression_then(
            TokenType::RIGHT_PAREN,
            ParseErrorKind::ExpectRightParenAfterCondition,
        )
    }

    #[verifier::rlimit(40)]
    #[verifier::spinoff_prover]
    fn if_stmt(&mut self) -> (r: Result<Stmt, ParseError>)
        requires
            old(self).well_formed(),
        ensures
            final(self).proceeds(old(self)),
            (stmt_outcome(r), final(self).position(), final(self).reported()) == grammar::if_stmt(
                old(self).input(),
                old(self).position(),
                old(self).reported(),
            ),
            r is Ok ==> final(self).position() > old(self).position(),
        decreases old(self).tokens@.len() - old(self).current, 59int,
    {
        let ghost tokens = self.input();
        let ghost p0 = self.position();
        let ghost seen = self.reported();
        let condition = match self.condition(ParseErrorKind::ExpectLeftParenAfterIf) {
            Ok(e) => e,
            Err(e) => {
                return Err(e);
            },
        };
        let ghost p1 = self.position();
        let then = match self.statement() {
            Ok(s) => s,
            Err(e) => {
                return Err(e);
            },
        };
        let ghost p2 = self.position();
        let ghost seen2 = self.reported();
        assert(grammar::statement(tokens, p1, seen) == (
            Ok::<StmtView, ParseErrorView>(then@),
            p2,
            seen2,
        ));
        if self.is_match(TokenType::ELSE) {
            let els = match self.statement() {
                Ok(s) => s,
                Err(e) => {
                    return Err(e);
                },
            };
            let r = Stmt::IfStmt(Box::new(condition), Box::new(then), Box::new(els));
            assert(r@ == StmtView::IfStmt(condition@, Box::new(then@), Box::new(els@)));
            Ok(r)
        } else {
            let r = Stmt::IfStmt(Box::new(condition), Box::new(then), Box::new(Stmt::Empty));
            assert(Stmt::Empty@ == StmtView::Empty);
            assert(r@ == StmtView::IfStmt(condition@, Box::new(then@), Box::new(StmtView::Empty)));
            Ok(r)
        }
    }

    fn while_stmt(&mut self) -> (r: Result<Stmt, ParseError>)
        requires
            old(self).well_formed(),
        ensures
            final(self).proceeds(old(self)),
            (stmt_outcome(r), final(self).position(), final(self).reported())
                == grammar::while_stmt(
                old(self).input(),
                old(self).position(),
                old(self).reported(),
            ),
            r is Ok ==> final(self).position() > old(self).position(),
        decreases old(self).tokens@.len() - old(self).current, 59int,
    {
        let condition = match self.condition(ParseErrorKind::ExpectLeftParenAfterWhile) {
            Ok(e) => e,
            Err(e) => {
                return Err(e);
            },
        };
        let body = match self.statement() {
            Ok(s) => s,
            Err(e) => {
                return Err(e);
            },
        };
        Ok(Stmt::WhileStmt(Box::new(condition), Box::new(body)))
    }

    /// The first statement of a `for`.
    fn for_initializer(&mut self) -> (r: Result<Stmt, ParseError>)
        requires
            old(self).well_formed(),
        ensures
            final(self).continues(old(self)),
            (stmt_outcome(r), final(self).position()) == grammar::for_initializer(
                old(self).input(),
                old(self).position(),
            ),
            r is Ok ==> final(self).position() > old(self).position(),
    {
        if self.is_match(TokenType::SEMICOLON) {
            Ok(Stmt::Empty)
        } else if self.is_match(TokenType::VAR) {
            self.var_decl()
        } else {
            self.expression_statement()
        }
    }

    /// The loop that a `for` statement stands for.
    fn desugar_for(first: Stmt, condition: Expr, action: Expr, body: Stmt) -> (r: Stmt)
        ensures
            r@ == grammar::desugared_for(first@, condition@, action@, body@),
    {
        let stepped = if let Expr::Empty = action {
            body
        } else {
            let ghost want = seq![body@, StmtView::Expression(action@)];
            let parts = vec![body, Stmt::Expression(Box::new(action))];
            proof {
                block_view(parts);
                assert(stmt_views(parts@) =~= want);
            }
            Stmt::Block(parts)
        };
        let repeated = if let Expr::Empty = condition {
            Stmt::WhileStmt(Box::new(Expr::Literal(Object::Bool(true))), Box::new(stepped))
        } else {
            Stmt::WhileStmt(Box::new(condition), Box::new(stepped))
        };
        if let Stmt::Empty = first {
            repeated
        } else {
            let ghost want = seq![first@, repeated@];
            let parts = vec![first, repeated];
            proof {
                block_view(parts);
                assert(stmt_views(parts@) =~= want);
            }
            Stmt::Block(parts)
        }
    }

    fn for_stmt(&mut self) -> (r: Result<Stmt, ParseError>)
        requires
            old(self).well_formed(),
        ensures
            final(self).proceeds(old(self)),
            (stmt_outcome(r), final(self).position(), final(self).reported()) == grammar::for_stmt(
                old(self).input(),
                old(self).position(),
                old(self).reported(),
            ),
            r is Ok ==> final(self).position() > old(self).position(),
        decreases old(self).tokens@.len() - old(self).current, 59int,
    {
        match self.consume(TokenType::LEFT_PAREN, ParseErrorKind::ExpectLeftParenAfterFor) {
            Ok(_) => {},
            Err(e) => {
                return Err(e);
            },
        }
        let initializer = match self.for_initializer() {
            Ok(s) => s,
            Err(e) => {
                return Err(e);
            },
        };
        let condition = match self.optional_then(
            TokenType::SEMICOLON,
            ParseErrorKind::ExpectSemicolonInFor,
        ) {
            Ok(e) => e,
            Err(e) => {
                return Err(e);
            },
        };
        let action = match self.optional_then(
            TokenType::RIGHT_PAREN,
            ParseErrorKind::ExpectRightParenAfterFor,
        ) {
            Ok(e) => e,
            Err(e) => {
                return Err(e);
            },
        };
        let body = match self.statement() {
            Ok(s) => s,
            Err(e) => {
                return Err(e);
            },
        };
        Ok(Self::desugar_for(initializer, condition, action, body))
    }

    /// The rest of a block whose opening brace was passed.
    fn block(&mut self) -> (r: Result<Stmt, ParseError>)
        requires
            old(self).well_formed(),
        ensures
            final(self).proceeds(old(self)),
            (stmt_outcome(r), final(self).position(), final(self).reported()) == grammar::block(
                old(self).input(),
                old(self).position(),
                old(self).reported(),
                Seq::empty(),
            ),
            r is Ok ==> final(self).position() > old(self).position(),
        decreases old(self).tokens@.len() - old(self).current, 62int,
    {
        let mut res: Vec<Stmt> = Vec::new();
        assert(stmt_views(res@) =~= Seq::<StmtView>::empty());
        while !self.check(TokenType::RIGHT_BRACE) && !self.is_at_end()
            invariant
                self.proceeds(old(self)),
                grammar::block(self.input(), self.position(), self.reported(), stmt_views(res@))
                    == grammar::block(
                    old(self).input(),
                    old(self).position(),
                    old(self).reported(),
                    Seq::empty(),
                ),
            decreases self.tokens@.len() - self.current,
        {
            let ghost before = stmt_views(res@);
            let s = self.declaration();
            res.push(s);
            assert(stmt_views(res@) =~= before.push(s@));
        }
        match self.consume(TokenType::RIGHT_BRACE, ParseErrorKind::ExpectRightBraceAfterBlock) {
            Ok(_) => {},
            Err(e) => {
                return Err(e);
            },
        }
        proof {
            block_view(res);
        }
        Ok(Stmt::Block(res))
    }

    /// A declaration or a statement; after an error, the empty statement.
    fn declaration(&mut self) -> (r: Stmt)
        requires
            old(self).well_formed(),
        ensures
            final(self).proceeds(old(self)),
            (r@, final(self).position(), final(self).reported()) == grammar::declaration(
                old(self).input(),
                old(self).position(),
                old(self).reported(),
            ),
            !grammar::is_end(old(self).input(), old(self).position()) ==> final(self).position()
                > old(self).position(),
        decreases old(self).tokens@.len() - old(self).current, 61int,
    {
        let res = if self.is_match(TokenType::VAR) {
            self.var_decl()
        } else if self.is_match(TokenType::FUN) {
            self.fun_decl()
        } else {
            self.statement()
        };
        match res {
            Ok(s) => s,
            Err(e) => {
                let ghost before = self.reported();
                self.errors.push(e);
                assert(self.reported() =~= before.push(e@));
                self.synchronize();
                assert(Stmt::Empty@ == StmtView::Empty);
                Stmt::Empty
            },
        }
    }

    /// The parameters of a function, up to the closing parenthesis.
    fn parameters(&mut self) -> (r: Result<Vec<Token>, ParseError>)
        requires
            old(self).well_formed(),
        ensures
            final(self).continues(old(self)),
            (
                match r {
                    Ok(p) => Ok(token_views(p@)),
                    Err(e) => Err(e@),
                },
                final(self).position(),
            ) == grammar::parameters(old(self).input(), old(self).position()),
    {
        let mut params: Vec<Token> = Vec::new();
        if self.check(TokenType::RIGHT_PAREN) {
            assert(token_views(params@) =~= Seq::<TokenView>::empty());
            return Ok(params);
        }
        let first = match self.consume(
            TokenType::IDENTIFIER,
            ParseErrorKind::ExpectParameterName,
        ) {
            Ok(t) => t,
            Err(e) => {
                return Err(e);
            },
        };
        params.push(first);
        assert(token_views(params@) =~= seq![first@]);
        loop
            invariant
                self.continues(old(self)),
                grammar::more_parameters(self.input(), self.position(), token_views(params@))
                    == grammar::parameters(old(self).input(), old(self).position()),
            decreases self.tokens@.len() - self.current,
        {
            if !self.is_match(TokenType::COMMA) {
                return Ok(params);
            }
            if params.len() >= MAX_ARGUMENTS {
                return Err(self.error(self.peek(), ParseErrorKind::TooManyParameters));
            }
            let next = match self.consume(
                TokenType::IDENTIFIER,
                ParseErrorKind::ExpectParameterName,
            ) {
                Ok(t) => t,
                Err(e) => {
                    return Err(e);
                },
            };
            let ghost before = token_views(params@);
            params.push(next);
            assert(token_views(params@) =~= before.push(next@));
        }
    }

    /// The rest of a function whose keyword was passed.
    fn fun_decl(&mut self) -> (r: Result<Stmt, ParseError>)
        requires
            old(self).well_formed(),
        ensures
            final(self).proceeds(old(self)),
            (stmt_outcome(r), final(self).position(), final(self).reported()) == grammar::fun_decl(
                old(self).input(),
                old(self).position(),
                old(self).reported(),
            ),
            r is Ok ==> final(self).position() > old(self).position(),
        decreases old(self).tokens@.len() - old(self).current, 63int,
    {
        let name = match self.consume(TokenType::IDENTIFIER, ParseErrorKind::ExpectFunctionName) {
            Ok(t) => t,
            Err(e) => {
                return Err(e);
            },
        };
        match self.consume(
            TokenType::LEFT_PAREN,
            ParseErrorKind::ExpectLeftParenAfterFunctionName,
        ) {
            Ok(_) => {},
            Err(e) => {
                return Err(e);
            },
        }
        let params = match self.parameters() {
            Ok(p) => p,
            Err(e) => {
                return Err(e);
            },
        };
        match self.consume(
            TokenType::RIGHT_PAREN,
            ParseErrorKind::ExpectRightParenAfterParameters,
        ) {
            Ok(_) => {},
            Err(e) => {
                return Err(e);
            },
        }
        match self.consume(TokenType::LEFT_BRACE, ParseErrorKind::ExpectLeftBraceBeforeBody) {
            Ok(_) => {},
            Err(e) => {
                return Err(e);
            },
        }
        let block = match self.block() {
            Ok(b) => b,
            Err(e) => {
                return Err(e);
            },
        };
        Ok(Stmt::Function(name, params, Box::new(block)))
    }

    /// The rest of the declaration of a variable whose keyword was passed.
    fn var_decl(&mut self) -> (r: Result<Stmt, ParseError>)
        requires
            old(self).well_formed(),
        ensures
            final(self).continues(old(self)),
            (stmt_outcome(r), final(self).position()) == grammar::var_decl(
                old(self).input(),
                old(self).position(),
            ),
            r is Ok ==> final(self).position() > old(self).position(),
    {
        let name = match self.consume(TokenType::IDENTIFIER, ParseErrorKind::ExpectVariableName) {
            Ok(t) => t,
            Err(e) => {
                return Err(e);
            },
        };
        let initializer = if self.is_match(TokenType::EQUAL) {
            match self.expressions() {
                Ok(e) => e,
                Err(e) => {
                    return Err(e);
                },
            }
        } else {
            Expr::Empty
        };
        match self.consume(TokenType::SEMICOLON, ParseErrorKind::ExpectSemicolonAfterVariable) {
            Ok(_) => {},
            Err(e) => {
                return Err(e);
            },
        }
        Ok(Stmt::Var(name, Box::new(initializer)))
    }

    fn print_statement(&mut self) -> (r: Result<Stmt, ParseError>)
        requires
            old(self).well_formed(),
        ensures
            final(self).continues(old(self)),
            (stmt_outcome(r), final(self).position()) == grammar::print_statement(
                old(self).input(),
                old(self).position(),
            ),
            r is Ok ==> final(self).position() > old(self).position(),
    {
        match self.expression_then(TokenType::SEMICOLON, ParseErrorKind::ExpectSemicolonAfterValue) {
            Ok(value) => Ok(Stmt::Print(Box::new(value))),
            Err(e) => Err(e),
        }
    }

    fn expression_statement(&mut self) -> (r: Result<Stmt, ParseError>)
        requires
            old(self).well_formed(),
        ensures
            final(self).continues(old(self)),
            (stmt_outcome(r), final(self).position()) == grammar::expression_statement(
                old(self).input(),
                old(self).position(),
            ),
            r is Ok ==> final(self).position() > old(self).position(),
    {
        match self.expression_then(
            TokenType::SEMICOLON,
            ParseErrorKind::ExpectSemicolonAfterExpression,
        ) {
            Ok(value) => Ok(Stmt::Expression(Box::new(value))),
            Err(e) => Err(e),
        }
    }

    /// Parses the tokens up to the end of the input: one statement for each
    /// declaration or statement of the program, the empty statement where
    /// one could not be parsed. The errors are kept for `errors`. No error
    /// keeps the parser from reaching the end of the input.
    pub fn parse(&mut self) -> (r: Vec<Stmt>)
        requires
            old(self).well_formed(),
        ensures
            final(self).proceeds(old(self)),
            grammar::is_end(final(self).input(), final(self).position()),
            (stmt_views(r@), final(self).position(), final(self).reported()) == grammar::program(
                old(self).input(),
                old(self).position(),
                old(self).reported(),
                Seq::empty(),
            ),
    {
        let mut stmts: Vec<Stmt> = Vec::new();
        assert(stmt_views(stmts@) =~= Seq::<StmtView>::empty());
        while !self.is_at_end()
            invariant
                self.proceeds(old(self)),
                grammar::program(self.input(), self.position(), self.reported(), stmt_views(stmts@))
                    == grammar::program(
                    old(self).input(),
                    old(self).position(),
                    old(self).reported(),
                    Seq::empty(),
                ),
            decreases self.tokens@.len() - self.current,
        {
            let ghost before = stmt_views(stmts@);
            let s = self.declaration();
            stmts.push(s);
            assert(stmt_views(stmts@) =~= before.push(s@));
        }
        stmts
    }
}

} // verus!
