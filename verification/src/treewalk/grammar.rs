//! The grammar: which syntax tree a sequence of tokens stands for.
//!
//! Every function here takes the tokens and a position, and gives what is
//! parsed from that position on together with the position behind it.
//! A position outside the tokens counts as the end of the input.
//!
//! Expressions, from the loosest binding to the tightest: assignment (which
//! groups from the right), `or`, `and`, equality, comparison, term, factor
//! (which group from the left), unary, call, primary. A parse never moves
//! backwards; the tests `onward` and `ahead` state this where the recursion
//! needs it to end, and never fail (see `Parser`, whose functions prove it).

use vstd::prelude::*;
use crate::token::TokenType;
use crate::treewalk::expressions::ExprView;
use crate::treewalk::scanner::end_token;
use crate::treewalk::statement::StmtView;
use crate::treewalk::token::TokenView;
use crate::treewalk::token_type::ObjectView;

verus! {

/// What the parser found wrong.
#[derive(Clone, Copy, Debug, PartialEq, Eq, Structural)]
pub enum ParseErrorKind {
    ExpectSemicolonAfterReturn,
    ExpectLeftParenAfterIf,
    ExpectRightParenAfterCondition,
    ExpectLeftParenAfterWhile,
    ExpectLeftParenAfterFor,
    ExpectSemicolonInFor,
    ExpectRightParenAfterFor,
    ExpectRightBraceAfterBlock,
    ExpectFunctionName,
    ExpectLeftParenAfterFunctionName,
    ExpectParameterName,
    TooManyParameters,
    ExpectRightParenAfterParameters,
    ExpectLeftBraceBeforeBody,
    ExpectVariableName,
    ExpectSemicolonAfterVariable,
    ExpectSemicolonAfterValue,
    ExpectSemicolonAfterExpression,
    InvalidAssignmentTarget,
    TooManyArguments,
    ExpectRightParenAfterArguments,
    ExpectRightParenAfterExpression,
    ExpectExpression,
}

/// The most arguments of a call, and the most parameters of a function.
pub const MAX_ARGUMENTS: usize = 255;

/// A parse error: the line and the text of the token at which it was found,
/// whether that token was the end of the input, and what was wrong.
pub struct ParseErrorView {
    pub line: usize,
    pub lexeme: Seq<char>,
    pub at_end: bool,
    pub kind: ParseErrorKind,
}

/// The outcome of parsing an expression or a token, and the position behind it.
pub type Parsed<T> = (Result<T, ParseErrorView>, int);

/// The outcome of parsing a statement, the position behind it, and the
/// errors that were reported and recovered from so far.
pub type ParsedStmt = (Result<StmtView, ParseErrorView>, int, Seq<ParseErrorView>);

/// The token at `pos`; outside the tokens, the end of the input.
pub open spec fn at(tokens: Seq<TokenView>, pos: int) -> TokenView {
    if 0 <= pos < tokens.len() {
        tokens[pos]
    } else {
        end_token(0)
    }
}

pub open spec fn is_end(tokens: Seq<TokenView>, pos: int) -> bool {
    at(tokens, pos).ttype == TokenType::EOF
}

/// Whether the token at `pos` is of kind `t` and not the end of the input.
pub open spec fn check(tokens: Seq<TokenView>, pos: int, t: TokenType) -> bool {
    !is_end(tokens, pos) && at(tokens, pos).ttype == t
}

/// The position behind the token at `pos`: the end of the input is never passed.
pub open spec fn step(tokens: Seq<TokenView>, pos: int) -> int {
    if is_end(tokens, pos) {
        pos
    } else {
        pos + 1
    }
}

pub open spec fn error_at(token: TokenView, kind: ParseErrorKind) -> ParseErrorView {
    ParseErrorView {
        line: token.line,
        lexeme: token.lexeme,
        at_end: token.ttype == TokenType::EOF,
        kind,
    }
}

/// The token of kind `t` at `pos`, or the error `kind` there.
pub open spec fn expect(tokens: Seq<TokenView>, pos: int, t: TokenType, kind: ParseErrorKind)
    -> Parsed<TokenView> {
    if check(tokens, pos, t) {
        (Ok(at(tokens, pos)), pos + 1)
    } else {
        (Err(error_at(at(tokens, pos), kind)), pos)
    }
}

/// `to` lies at or behind `from`, inside the tokens.
pub open spec fn onward(tokens: Seq<TokenView>, from: int, to: int) -> bool {
    from <= to <= tokens.len()
}

/// `to` lies behind `from`, inside the tokens.
pub open spec fn ahead(tokens: Seq<TokenView>, from: int, to: int) -> bool {
    from < to <= tokens.len()
}

/// The number of levels of binary operators.
pub const LEVELS: u8 = 6;

/// Whether a token of kind `t` is an operator of the given level: 0 for
/// `or`, 1 for `and`, 2 for equality, 3 for comparison, 4 for terms and 5
/// for factors.
pub open spec fn is_operator(level: int, t: TokenType) -> bool {
    if level == 0 {
        t == TokenType::OR
    } else if level == 1 {
        t == TokenType::AND
    } else if level == 2 {
        t == TokenType::BANG_EQUAL || t == TokenType::EQUAL_EQUAL
    } else if level == 3 {
        t == TokenType::GREATER || t == TokenType::GREATER_EQUAL || t == TokenType::LESS || t
            == TokenType::LESS_EQUAL
    } else if level == 4 {
        t == TokenType::MINUS || t == TokenType::PLUS
    } else if level == 5 {
        t == TokenType::SLASH || t == TokenType::STAR
    } else {
        false
    }
}

/// The node for operator `op` of the given level between `left` and `right`:
/// `or` and `and` give a logical node, the others a binary one.
pub open spec fn joined(level: int, left: ExprView, op: TokenView, right: ExprView) -> ExprView {
    if level <= 1 {
        ExprView::Logical(Box::new(left), op, Box::new(right))
    } else {
        ExprView::Binary(Box::new(left), op, Box::new(right))
    }
}

pub open spec fn expression(tokens: Seq<TokenView>, pos: int) -> Parsed<ExprView>
    decreases tokens.len() - pos, 20int,
{
    assignment(tokens, pos)
}

/// An assignment, or what binds tighter. The target must be a variable.
pub open spec fn assignment(tokens: Seq<TokenView>, pos: int) -> Parsed<ExprView>
    decreases tokens.len() - pos, 19int,
{
    let (left, p1) = infix(tokens, pos, 0);
    match left {
        Err(e) => (Err(e), p1),
        Ok(target) => if check(tokens, p1, TokenType::EQUAL) && onward(tokens, pos, p1) {
            let (value, p2) = assignment(tokens, p1 + 1);
            match value {
                Err(e) => (Err(e), p2),
                Ok(v) => match target {
                    ExprView::Variable(name) => (Ok(ExprView::Assign(name, Box::new(v))), p2),
                    _ => (
                        Err(error_at(at(tokens, p1), ParseErrorKind::InvalidAssignmentTarget)),
                        p2,
                    ),
                },
            }
        } else {
            (Ok(target), p1)
        },
    }
}

/// The operands of the given level with the operators of that level between
/// them, grouped from the left. Behind the last level stand the unary
/// expressions.
pub open spec fn infix(tokens: Seq<TokenView>, pos: int, level: int) -> Parsed<ExprView>
    decreases tokens.len() - pos, if 0 <= level < LEVELS {
        18 - level
    } else {
        6
    },
{
    if level < 0 || level >= LEVELS {
        unary(tokens, pos)
    } else {
        let (left, p1) = infix(tokens, pos, level + 1);
        match left {
            Err(e) => (Err(e), p1),
            Ok(l) => if onward(tokens, pos, p1) {
                infix_rest(tokens, p1, level, l)
            } else {
                (Ok(l), p1)
            },
        }
    }
}

/// What follows the operand `left`: each operator of the level takes the
/// next operand and makes a new left operand with it.
pub open spec fn infix_rest(tokens: Seq<TokenView>, pos: int, level: int, left: ExprView)
    -> Parsed<ExprView>
    decreases tokens.len() - pos, 0int,
{
    if !is_end(tokens, pos) && is_operator(level, at(tokens, pos).ttype) && 0 <= level < LEVELS {
        let (right, p1) = infix(tokens, pos + 1, level + 1);
        match right {
            Err(e) => (Err(e), p1),
            Ok(r) => {
                let node = joined(level, left, at(tokens, pos), r);
                if ahead(tokens, pos, p1) {
                    infix_rest(tokens, p1, level, node)
                } else {
                    (Ok(node), p1)
                }
            },
        }
    } else {
        (Ok(left), pos)
    }
}

pub open spec fn unary(tokens: Seq<TokenView>, pos: int) -> Parsed<ExprView>
    decreases tokens.len() - pos, 5int,
{
    if check(tokens, pos, TokenType::BANG) || check(tokens, pos, TokenType::MINUS) {
        let (right, p1) = unary(tokens, pos + 1);
        match right {
            Err(e) => (Err(e), p1),
            Ok(r) => (Ok(ExprView::Unary(at(tokens, pos), Box::new(r))), p1),
        }
    } else {
        call(tokens, pos)
    }
}

/// A primary expression and the calls that follow it.
pub open spec fn call(tokens: Seq<TokenView>, pos: int) -> Parsed<ExprView>
    decreases tokens.len() - pos, 4int,
{
    let (callee, p1) = primary(tokens, pos);
    match callee {
        Err(e) => (Err(e), p1),
        Ok(c) => if onward(tokens, pos, p1) {
            call_rest(tokens, p1, c)
        } else {
            (Ok(c), p1)
        },
    }
}

pub open spec fn call_rest(tokens: Seq<TokenView>, pos: int, callee: ExprView) -> Parsed<ExprView>
    decreases tokens.len() - pos, 0int,
{
    if check(tokens, pos, TokenType::LEFT_PAREN) {
        let (made, p1) = to_call(tokens, pos + 1, callee);
        match made {
            Err(e) => (Err(e), p1),
            Ok(c) => if ahead(tokens, pos, p1) {
                call_rest(tokens, p1, c)
            } else {
                (Ok(c), p1)
            },
        }
    } else {
        (Ok(callee), pos)
    }
}

/// The call of `callee` whose opening parenthesis stands before `pos`.
pub open spec fn to_call(tokens: Seq<TokenView>, pos: int, callee: ExprView) -> Parsed<ExprView>
    decreases tokens.len() - pos, 25int,
{
    if check(tokens, pos, TokenType::RIGHT_PAREN) {
        close_call(tokens, pos, callee, Seq::empty())
    } else {
        let (first, p1) = expression(tokens, pos);
        match first {
            Err(e) => (Err(e), p1),
            Ok(a) => if onward(tokens, pos, p1) {
                more_arguments(tokens, p1, callee, seq![a])
            } else {
                (Ok(a), p1)
            },
        }
    }
}

/// The arguments behind the ones in `args`, each after a comma, and the
/// closing parenthesis. A call takes at most `MAX_ARGUMENTS` arguments.
pub open spec fn more_arguments(
    tokens: Seq<TokenView>,
    pos: int,
    callee: ExprView,
    args: Seq<ExprView>,
) -> Parsed<ExprView>
    decreases tokens.len() - pos, 0int,
{
    if check(tokens, pos, TokenType::COMMA) {
        if args.len() >= MAX_ARGUMENTS {
            (Err(error_at(at(tokens, pos + 1), ParseErrorKind::TooManyArguments)), pos + 1)
        } else {
            let (next, p1) = expression(tokens, pos + 1);
            match next {
                Err(e) => (Err(e), p1),
                Ok(a) => if ahead(tokens, pos, p1) {
                    more_arguments(tokens, p1, callee, args.push(a))
                } else {
                    (Ok(a), p1)
                },
            }
        }
    } else {
        close_call(tokens, pos, callee, args)
    }
}

pub open spec fn close_call(tokens: Seq<TokenView>, pos: int, callee: ExprView, args: Seq<ExprView>)
    -> Parsed<ExprView> {
    match expect(tokens, pos, TokenType::RIGHT_PAREN, ParseErrorKind::ExpectRightParenAfterArguments) {
        (Ok(paren), p1) => (Ok(ExprView::Call(Box::new(callee), paren, args)), p1),
        (Err(e), p1) => (Err(e), p1),
    }
}

/// A literal, an expression in parentheses, or a variable.
pub open spec fn primary(tokens: Seq<TokenView>, pos: int) -> Parsed<ExprView>
    decreases tokens.len() - pos, 3int,
{
    if check(tokens, pos, TokenType::FALSE) {
        (Ok(ExprView::Literal(ObjectView::Bool(false))), pos + 1)
    } else if check(tokens, pos, TokenType::TRUE) {
        (Ok(ExprView::Literal(ObjectView::Bool(true))), pos + 1)
    } else if check(tokens, pos, TokenType::NIL) {
        (Ok(ExprView::Literal(ObjectView::Nil)), pos + 1)
    } else if check(tokens, pos, TokenType::STRING) || check(tokens, pos, TokenType::NUMBER) {
        (Ok(ExprView::Literal(at(tokens, pos).literal)), pos + 1)
    } else if check(tokens, pos, TokenType::LEFT_PAREN) {
        let (inner, p1) = expression(tokens, pos + 1);
        match inner {
            Err(e) => (Err(e), p1),
            Ok(e) => match expect(
                tokens,
                p1,
                TokenType::RIGHT_PAREN,
                ParseErrorKind::ExpectRightParenAfterExpression,
            ) {
                (Ok(_), p2) => (Ok(ExprView::Grouping(Box::new(e))), p2),
                (Err(e), p2) => (Err(e), p2),
            },
        }
    } else if check(tokens, pos, TokenType::IDENTIFIER) {
        (Ok(ExprView::Variable(at(tokens, pos))), pos + 1)
    } else {
        (Err(error_at(at(tokens, pos), ParseErrorKind::ExpectExpression)), pos)
    }
}

/// An expression and the token of kind `t` that must follow it.
pub open spec fn expression_then(
    tokens: Seq<TokenView>,
    pos: int,
    t: TokenType,
    kind: ParseErrorKind,
) -> Parsed<ExprView> {
    let (value, p1) = expression(tokens, pos);
    match value {
        Err(e) => (Err(e), p1),
        Ok(v) => match expect(tokens, p1, t, kind) {
            (Ok(_), p2) => (Ok(v), p2),
            (Err(e), p2) => (Err(e), p2),
        },
    }
}

/// An expression, unless the token of kind `t` stands at `pos`; then that
/// token, which must follow either way.
pub open spec fn optional_then(
    tokens: Seq<TokenView>,
    pos: int,
    t: TokenType,
    kind: ParseErrorKind,
) -> Parsed<ExprView> {
    if check(tokens, pos, t) {
        (Ok(ExprView::Empty), pos + 1)
    } else {
        expression_then(tokens, pos, t, kind)
    }
}

/// The print statement whose keyword stands before `pos`.
pub open spec fn print_statement(tokens: Seq<TokenView>, pos: int) -> Parsed<StmtView> {
    match expression_then(
        tokens,
        pos,
        TokenType::SEMICOLON,
        ParseErrorKind::ExpectSemicolonAfterValue,
    ) {
        (Ok(v), p1) => (Ok(StmtView::Print(v)), p1),
        (Err(e), p1) => (Err(e), p1),
    }
}

pub open spec fn expression_statement(tokens: Seq<TokenView>, pos: int) -> Parsed<StmtView> {
    match expression_then(
        tokens,
        pos,
        TokenType::SEMICOLON,
        ParseErrorKind::ExpectSemicolonAfterExpression,
    ) {
        (Ok(v), p1) => (Ok(StmtView::Expression(v)), p1),
        (Err(e), p1) => (Err(e), p1),
    }
}

/// The return statement whose keyword stands before `pos`.
pub open spec fn return_stmt(tokens: Seq<TokenView>, pos: int) -> Parsed<StmtView> {
    match optional_then(
        tokens,
        pos,
        TokenType::SEMICOLON,
        ParseErrorKind::ExpectSemicolonAfterReturn,
    ) {
        (Ok(v), p1) => (Ok(StmtView::ReturnStmt(at(tokens, pos - 1), v)), p1),
        (Err(e), p1) => (Err(e), p1),
    }
}

/// The declaration of a variable whose keyword stands before `pos`.
pub open spec fn var_decl(tokens: Seq<TokenView>, pos: int) -> Parsed<StmtView> {
    match expect(tokens, pos, TokenType::IDENTIFIER, ParseErrorKind::ExpectVariableName) {
        (Err(e), p1) => (Err(e), p1),
        (Ok(name), p1) => {
            let (first, p2) = if check(tokens, p1, TokenType::EQUAL) {
                expression(tokens, p1 + 1)
            } else {
                (Ok(ExprView::Empty), p1)
            };
            match first {
                Err(e) => (Err(e), p2),
                Ok(v) => match expect(
                    tokens,
                    p2,
                    TokenType::SEMICOLON,
                    ParseErrorKind::ExpectSemicolonAfterVariable,
                ) {
                    (Ok(_), p3) => (Ok(StmtView::Var(name, v)), p3),
                    (Err(e), p3) => (Err(e), p3),
                },
            }
        },
    }
}

/// The loop that a `for` statement stands for: the body, followed by the
/// step if there is one, is repeated while the condition holds (always, if
/// there is none), after the first statement, if there is one, in a block of
/// its own.
pub open spec fn desugared_for(
    first: StmtView,
    condition: ExprView,
    action: ExprView,
    body: StmtView,
) -> StmtView {
    let stepped = if action is Empty {
        body
    } else {
        StmtView::Block(seq![body, StmtView::Expression(action)])
    };
    let repeated = StmtView::WhileStmt(
        if condition is Empty {
            ExprView::Literal(ObjectView::Bool(true))
        } else {
            condition
        },
        Box::new(stepped),
    );
    if first is Empty {
        repeated
    } else {
        StmtView::Block(seq![first, repeated])
    }
}

/// Whether a statement begins with a token of this kind.
pub open spec fn starts_statement(t: TokenType) -> bool {
    t == TokenType::CLASS || t == TokenType::FUN || t == TokenType::VAR || t == TokenType::FOR || t
        == TokenType::IF || t == TokenType::WHILE || t == TokenType::PRINT || t
        == TokenType::RETURN
}

/// Where parsing takes up again from `pos` on after an error: behind the
/// next semicolon, or before the next token that begins a statement.
pub open spec fn resume(tokens: Seq<TokenView>, pos: int) -> int
    decreases tokens.len() - pos,
{
    if is_end(tokens, pos) || at(tokens, pos - 1).ttype == TokenType::SEMICOLON || starts_statement(
        at(tokens, pos).ttype,
    ) {
        pos
    } else {
        resume(tokens, pos + 1)
    }
}

/// Where parsing takes up again after an error at `pos`: one token is
/// passed in any case.
pub open spec fn synchronize(tokens: Seq<TokenView>, pos: int) -> int {
    resume(tokens, step(tokens, pos))
}

/// A statement.
pub open spec fn statement(tokens: Seq<TokenView>, pos: int, seen: Seq<ParseErrorView>)
    -> ParsedStmt
    decreases tokens.len() - pos, 39int,
{
    if check(tokens, pos, TokenType::PRINT) {
        let (r, p1) = print_statement(tokens, pos + 1);
        (r, p1, seen)
    } else if check(tokens, pos, TokenType::LEFT_BRACE) {
        block(tokens, pos + 1, seen, Seq::empty())
    } else if check(tokens, pos, TokenType::IF) {
        if_stmt(tokens, pos + 1, seen)
    } else if check(tokens, pos, TokenType::WHILE) {
        while_stmt(tokens, pos + 1, seen)
    } else if check(tokens, pos, TokenType::FOR) {
        for_stmt(tokens, pos + 1, seen)
    } else if check(tokens, pos, TokenType::RETURN) {
        let (r, p1) = return_stmt(tokens, pos + 1);
        (r, p1, seen)
    } else {
        let (r, p1) = expression_statement(tokens, pos);
        (r, p1, seen)
    }
}

/// The condition in parentheses that follows a keyword.
pub open spec fn condition(tokens: Seq<TokenView>, pos: int, missing: ParseErrorKind) -> Parsed<
    ExprView,
> {
    match expect(tokens, pos, TokenType::LEFT_PAREN, missing) {
        (Err(e), p1) => (Err(e), p1),
        (Ok(_), p1) => expression_then(
            tokens,
            p1,
            TokenType::RIGHT_PAREN,
            ParseErrorKind::ExpectRightParenAfterCondition,
        ),
    }
}

/// The `if` statement whose keyword stands before `pos`.
pub open spec fn if_stmt(tokens: Seq<TokenView>, pos: int, seen: Seq<ParseErrorView>) -> ParsedStmt
    decreases tokens.len() - pos, 38int,
{
    match condition(tokens, pos, ParseErrorKind::ExpectLeftParenAfterIf) {
        (Err(e), p1) => (Err(e), p1, seen),
        (Ok(c), p1) => if !ahead(tokens, pos, p1) {
            (Ok(StmtView::Empty), p1, seen)
        } else {
            match statement(tokens, p1, seen) {
                (Err(e), p2, seen2) => (Err(e), p2, seen2),
                (Ok(then), p2, seen2) => if check(tokens, p2, TokenType::ELSE) && ahead(
                    tokens,
                    pos,
                    p2,
                ) {
                    match statement(tokens, p2 + 1, seen2) {
                        (Err(e), p3, seen3) => (Err(e), p3, seen3),
                        (Ok(els), p3, seen3) => (
                            Ok(StmtView::IfStmt(c, Box::new(then), Box::new(els))),
                            p3,
                            seen3,
                        ),
                    }
                } else {
                    (
                        Ok(StmtView::IfStmt(c, Box::new(then), Box::new(StmtView::Empty))),
                        p2,
                        seen2,
                    )
                },
            }
        },
    }
}

/// The `while` statement whose keyword stands before `pos`.
pub open spec fn while_stmt(tokens: Seq<TokenView>, pos: int, seen: Seq<ParseErrorView>)
    -> ParsedStmt
    decreases tokens.len() - pos, 38int,
{
    match condition(tokens, pos, ParseErrorKind::ExpectLeftParenAfterWhile) {
        (Err(e), p1) => (Err(e), p1, seen),
        (Ok(c), p1) => if !ahead(tokens, pos, p1) {
            (Ok(StmtView::Empty), p1, seen)
        } else {
            match statement(tokens, p1, seen) {
                (Err(e), p2, seen2) => (Err(e), p2, seen2),
                (Ok(body), p2, seen2) => (Ok(StmtView::WhileStmt(c, Box::new(body))), p2, seen2),
            }
        },
    }
}

/// The first statement of a `for`: nothing, a declaration, or an expression.
pub open spec fn for_initializer(tokens: Seq<TokenView>, pos: int) -> Parsed<StmtView> {
    if check(tokens, pos, TokenType::SEMICOLON) {
        (Ok(StmtView::Empty), pos + 1)
    } else if check(tokens, pos, TokenType::VAR) {
        var_decl(tokens, pos + 1)
    } else {
        expression_statement(tokens, pos)
    }
}

/// The `for` statement whose keyword stands before `pos`, as the loop that
/// it stands for.
pub open spec fn for_stmt(tokens: Seq<TokenView>, pos: int, seen: Seq<ParseErrorView>) -> ParsedStmt
    decreases tokens.len() - pos, 38int,
{
    match expect(tokens, pos, TokenType::LEFT_PAREN, ParseErrorKind::ExpectLeftParenAfterFor) {
        (Err(e), p1) => (Err(e), p1, seen),
        (Ok(_), p1) => match for_initializer(tokens, p1) {
            (Err(e), p2) => (Err(e), p2, seen),
            (Ok(first), p2) => match optional_then(
                tokens,
                p2,
                TokenType::SEMICOLON,
                ParseErrorKind::ExpectSemicolonInFor,
            ) {
                (Err(e), p3) => (Err(e), p3, seen),
                (Ok(c), p3) => match optional_then(
                    tokens,
                    p3,
                    TokenType::RIGHT_PAREN,
                    ParseErrorKind::ExpectRightParenAfterFor,
                ) {
                    (Err(e), p4) => (Err(e), p4, seen),
                    (Ok(action), p4) => if !ahead(tokens, pos, p4) {
                        (Ok(StmtView::Empty), p4, seen)
                    } else {
                        match statement(tokens, p4, seen) {
                            (Err(e), p5, seen5) => (Err(e), p5, seen5),
                            (Ok(body), p5, seen5) => (
                                Ok(desugared_for(first, c, action, body)),
                                p5,
                                seen5,
                            ),
                        }
                    },
                },
            },
        },
    }
}

/// The block whose opening brace stands before the statements in `found`,
/// which end before `pos`: declarations up to the closing brace.
pub open spec fn block(
    tokens: Seq<TokenView>,
    pos: int,
    seen: Seq<ParseErrorView>,
    found: Seq<StmtView>,
) -> ParsedStmt
    decreases tokens.len() - pos, 41int,
{
    if check(tokens, pos, TokenType::RIGHT_BRACE) || is_end(tokens, pos) {
        match expect(tokens, pos, TokenType::RIGHT_BRACE, ParseErrorKind::ExpectRightBraceAfterBlock) {
            (Ok(_), p1) => (Ok(StmtView::Block(found)), p1, seen),
            (Err(e), p1) => (Err(e), p1, seen),
        }
    } else {
        let (s, p1, seen1) = declaration(tokens, pos, seen);
        if ahead(tokens, pos, p1) {
            block(tokens, p1, seen1, found.push(s))
        } else {
            (Ok(StmtView::Block(found.push(s))), p1, seen1)
        }
    }
}

/// The parameters behind the ones in `found`, each after a comma. A function
/// takes at most `MAX_ARGUMENTS` parameters.
pub open spec fn more_parameters(tokens: Seq<TokenView>, pos: int, found: Seq<TokenView>) -> Parsed<
    Seq<TokenView>,
>
    decreases tokens.len() - pos,
{
    if check(tokens, pos, TokenType::COMMA) {
        if found.len() >= MAX_ARGUMENTS {
            (Err(error_at(at(tokens, pos + 1), ParseErrorKind::TooManyParameters)), pos + 1)
        } else {
            match expect(
                tokens,
                pos + 1,
                TokenType::IDENTIFIER,
                ParseErrorKind::ExpectParameterName,
            ) {
                (Err(e), p1) => (Err(e), p1),
                (Ok(name), p1) => more_parameters(tokens, p1, found.push(name)),
            }
        }
    } else {
        (Ok(found), pos)
    }
}

/// The parameters of a function, up to the closing parenthesis.
pub open spec fn parameters(tokens: Seq<TokenView>, pos: int) -> Parsed<Seq<TokenView>> {
    if check(tokens, pos, TokenType::RIGHT_PAREN) {
        (Ok(Seq::empty()), pos)
    } else {
        match expect(tokens, pos, TokenType::IDENTIFIER, ParseErrorKind::ExpectParameterName) {
            (Err(e), p1) => (Err(e), p1),
            (Ok(name), p1) => more_parameters(tokens, p1, seq![name]),
        }
    }
}

/// What stands between the keyword of a function and its body: the name, the
/// parameters in parentheses, and the opening brace.
pub open spec fn function_head(tokens: Seq<TokenView>, pos: int) -> Parsed<
    (TokenView, Seq<TokenView>),
> {
    match expect(tokens, pos, TokenType::IDENTIFIER, ParseErrorKind::ExpectFunctionName) {
        (Err(e), p1) => (Err(e), p1),
        (Ok(name), p1) => match expect(
            tokens,
            p1,
            TokenType::LEFT_PAREN,
            ParseErrorKind::ExpectLeftParenAfterFunctionName,
        ) {
            (Err(e), p2) => (Err(e), p2),
            (Ok(_), p2) => match parameters(tokens, p2) {
                (Err(e), p3) => (Err(e), p3),
                (Ok(params), p3) => match expect(
                    tokens,
                    p3,
                    TokenType::RIGHT_PAREN,
                    ParseErrorKind::ExpectRightParenAfterParameters,
                ) {
                    (Err(e), p4) => (Err(e), p4),
                    (Ok(_), p4) => match expect(
                        tokens,
                        p4,
                        TokenType::LEFT_BRACE,
                        ParseErrorKind::ExpectLeftBraceBeforeBody,
                    ) {
                        (Err(e), p5) => (Err(e), p5),
                        (Ok(_), p5) => (Ok((name, params)), p5),
                    },
                },
            },
        },
    }
}

/// The declaration of a function whose keyword stands before `pos`.
pub open spec fn fun_decl(tokens: Seq<TokenView>, pos: int, seen: Seq<ParseErrorView>) -> ParsedStmt
    decreases tokens.len() - pos, 42int,
{
    match function_head(tokens, pos) {
        (Err(e), p1) => (Err(e), p1, seen),
        (Ok((name, params)), p1) => if !onward(tokens, pos, p1) {
            (Ok(StmtView::Empty), p1, seen)
        } else {
            match block(tokens, p1, seen, Seq::empty()) {
                (Err(e), p2, seen2) => (Err(e), p2, seen2),
                (Ok(body), p2, seen2) => (
                    Ok(StmtView::Function(name, params, Box::new(body))),
                    p2,
                    seen2,
                ),
            }
        },
    }
}

/// A declaration or a statement. An error in it is reported, the tokens up
/// to the next place where a statement may begin are passed over, and the
/// empty statement stands for what could not be parsed.
pub open spec fn declaration(tokens: Seq<TokenView>, pos: int, seen: Seq<ParseErrorView>) -> (
    StmtView,
    int,
    Seq<ParseErrorView>,
)
    decreases tokens.len() - pos, 40int,
{
    let (r, p1, seen1) = if check(tokens, pos, TokenType::VAR) {
        let (r, p1) = var_decl(tokens, pos + 1);
        (r, p1, seen)
    } else if check(tokens, pos, TokenType::FUN) {
        fun_decl(tokens, pos + 1, seen)
    } else {
        statement(tokens, pos, seen)
    };
    match r {
        Ok(s) => (s, p1, seen1),
        Err(e) => (StmtView::Empty, synchronize(tokens, p1), seen1.push(e)),
    }
}

/// The statements of a program behind the ones in `found`, up to the end of
/// the input, and the errors that were reported on the way.
pub open spec fn program(
    tokens: Seq<TokenView>,
    pos: int,
    seen: Seq<ParseErrorView>,
    found: Seq<StmtView>,
) -> (Seq<StmtView>, int, Seq<ParseErrorView>)
    decreases tokens.len() - pos,
{
    if is_end(tokens, pos) {
        (found, pos, seen)
    } else {
        let (s, p1, seen1) = declaration(tokens, pos, seen);
        if ahead(tokens, pos, p1) {
            program(tokens, p1, seen1, found.push(s))
        } else {
            (found.push(s), p1, seen1)
        }
    }
}

/// A token that is a literal on its own: a number or a string.
pub open spec fn is_atom(t: TokenView) -> bool {
    t.ttype == TokenType::NUMBER || t.ttype == TokenType::STRING
}

/// Whether a token of kind `t` is a binary operator of some level.
pub open spec fn is_any_operator(t: TokenType) -> bool {
    is_operator(0, t) || is_operator(1, t) || is_operator(2, t) || is_operator(3, t) || is_operator(
        4,
        t,
    ) || is_operator(5, t)
}

/// Whether a token of kind `t` is a binary operator of level `level` or of a
/// tighter one.
pub open spec fn is_operator_from(level: int, t: TokenType) -> bool {
    (level <= 0 && is_operator(0, t)) || (level <= 1 && is_operator(1, t)) || (level <= 2
        && is_operator(2, t)) || (level <= 3 && is_operator(3, t)) || (level <= 4 && is_operator(
        4,
        t,
    )) || (level <= 5 && is_operator(5, t))
}

/// The token at `pos` continues no expression: it is no binary operator, no
/// opening parenthesis and no `=`.
pub open spec fn closes_expression(tokens: Seq<TokenView>, pos: int) -> bool {
    let t = at(tokens, pos).ttype;
    !is_any_operator(t) && t != TokenType::LEFT_PAREN && t != TokenType::EQUAL
}

/// A literal behind which no operator of level `level` or tighter and no
/// call follows is an operand of that level by itself.
pub proof fn atom_is_an_operand(tokens: Seq<TokenView>, pos: int, level: int)
    requires
        0 <= pos < tokens.len(),
        0 <= level <= LEVELS,
        is_atom(at(tokens, pos)),
        at(tokens, pos + 1).ttype != TokenType::LEFT_PAREN,
        !is_operator_from(level, at(tokens, pos + 1).ttype),
    ensures
        infix(tokens, pos, level) == (
            Ok::<ExprView, ParseErrorView>(ExprView::Literal(at(tokens, pos).literal)),
            pos + 1,
        ),
    decreases LEVELS - level,
{
    let literal = ExprView::Literal(at(tokens, pos).literal);
    let parsed = (Ok::<ExprView, ParseErrorView>(literal), pos + 1);
    if level < LEVELS {
        atom_is_an_operand(tokens, pos, level + 1);
        assert(infix_rest(tokens, pos + 1, level, literal) == parsed);
    } else {
        assert(primary(tokens, pos) == parsed);
        assert(call_rest(tokens, pos + 1, literal) == parsed);
        assert(call(tokens, pos) == parsed);
        assert(unary(tokens, pos) == parsed);
    }
}

/// Two literals with an operator of level `level` between them, behind which
/// no operator of level `from` or tighter follows, are parsed at any level
/// from `from` to `level` as that operator applied to the two.
pub proof fn operator_joins_two(tokens: Seq<TokenView>, pos: int, from: int, level: int)
    requires
        0 <= pos,
        pos + 2 < tokens.len(),
        0 <= from <= level < LEVELS,
        is_atom(at(tokens, pos)),
        is_operator(level, at(tokens, pos + 1).ttype),
        is_atom(at(tokens, pos + 2)),
        at(tokens, pos + 3).ttype != TokenType::LEFT_PAREN,
        !is_operator_from(from, at(tokens, pos + 3).ttype),
    ensures
        infix(tokens, pos, from) == (
            Ok::<ExprView, ParseErrorView>(
                joined(
                    level,
                    ExprView::Literal(at(tokens, pos).literal),
                    at(tokens, pos + 1),
                    ExprView::Literal(at(tokens, pos + 2).literal),
                ),
            ),
            pos + 3,
        ),
    decreases level - from,
{
    let first = ExprView::Literal(at(tokens, pos).literal);
    let second = ExprView::Literal(at(tokens, pos + 2).literal);
    let node = joined(level, first, at(tokens, pos + 1), second);
    if from < level {
        operator_joins_two(tokens, pos, from + 1, level);
        assert(infix_rest(tokens, pos + 3, from, node) == (
            Ok::<ExprView, ParseErrorView>(node),
            pos + 3,
        ));
    } else {
        atom_is_an_operand(tokens, pos, level + 1);
        atom_is_an_operand(tokens, pos + 2, level + 1);
        assert(infix_rest(tokens, pos + 3, level, node) == (
            Ok::<ExprView, ParseErrorView>(node),
            pos + 3,
        ));
        assert(infix_rest(tokens, pos + 1, level, first) == (
            Ok::<ExprView, ParseErrorView>(node),
            pos + 3,
        ));
    }
}

/// Operators of one level group from the left: `a - b - c` is `(a - b) - c`.
/// Three literals with two operators of level `level` between them, behind
/// which nothing continues the expression, are parsed as the second operator
/// applied to the first operator's node and the third literal.
pub proof fn same_level_groups_from_the_left(tokens: Seq<TokenView>, pos: int, level: int)
    requires
        0 <= pos,
        pos + 4 < tokens.len(),
        0 <= level < LEVELS,
        is_atom(at(tokens, pos)),
        is_operator(level, at(tokens, pos + 1).ttype),
        is_atom(at(tokens, pos + 2)),
        is_operator(level, at(tokens, pos + 3).ttype),
        is_atom(at(tokens, pos + 4)),
        closes_expression(tokens, pos + 5),
    ensures
        expression(tokens, pos) == (
            Ok::<ExprView, ParseErrorView>(
                joined(
                    level,
                    joined(
                        level,
                        ExprView::Literal(at(tokens, pos).literal),
                        at(tokens, pos + 1),
                        ExprView::Literal(at(tokens, pos + 2).literal),
                    ),
                    at(tokens, pos + 3),
                    ExprView::Literal(at(tokens, pos + 4).literal),
                ),
            ),
            pos + 5,
        ),
{
    groups_from_the_left_at(tokens, pos, 0, level);
}

proof fn groups_from_the_left_at(tokens: Seq<TokenView>, pos: int, from: int, level: int)
    requires
        0 <= pos,
        pos + 4 < tokens.len(),
        0 <= from <= level < LEVELS,
        is_atom(at(tokens, pos)),
        is_operator(level, at(tokens, pos + 1).ttype),
        is_atom(at(tokens, pos + 2)),
        is_operator(level, at(tokens, pos + 3).ttype),
        is_atom(at(tokens, pos + 4)),
        closes_expression(tokens, pos + 5),
    ensures
        infix(tokens, pos, from) == (
            Ok::<ExprView, ParseErrorView>(
                joined(
                    level,
                    joined(
                        level,
                        ExprView::Literal(at(tokens, pos).literal),
                        at(tokens, pos + 1),
                        ExprView::Literal(at(tokens, pos + 2).literal),
                    ),
                    at(tokens, pos + 3),
                    ExprView::Literal(at(tokens, pos + 4).literal),
                ),
            ),
            pos + 5,
        ),
    decreases level - from,
{
    let first = ExprView::Literal(at(tokens, pos).literal);
    let second = ExprView::Literal(at(tokens, pos + 2).literal);
    let third = ExprView::Literal(at(tokens, pos + 4).literal);
    let inner = joined(level, first, at(tokens, pos + 1), second);
    let outer = joined(level, inner, at(tokens, pos + 3), third);
    if from < level {
        groups_from_the_left_at(tokens, pos, from + 1, level);
        assert(infix_rest(tokens, pos + 5, from, outer) == (
            Ok::<ExprView, ParseErrorView>(outer),
            pos + 5,
        ));
    } else {
        atom_is_an_operand(tokens, pos, level + 1);
        atom_is_an_operand(tokens, pos + 2, level + 1);
        atom_is_an_operand(tokens, pos + 4, level + 1);
        assert(infix_rest(tokens, pos + 5, level, outer) == (
            Ok::<ExprView, ParseErrorView>(outer),
            pos + 5,
        ));
        assert(infix_rest(tokens, pos + 3, level, inner) == (
            Ok::<ExprView, ParseErrorView>(outer),
            pos + 5,
        ));
        assert(infix_rest(tokens, pos + 1, level, first) == (
            Ok::<ExprView, ParseErrorView>(outer),
            pos + 5,
        ));
    }
}

/// A tighter operator binds first: `a + b * c` is `a + (b * c)`. Three
/// literals with an operator of level `loose` and then one of a tighter level
/// `tight` between them, behind which nothing continues the expression, are
/// parsed as the loose operator applied to the first literal and the tight
/// operator's node.
pub proof fn tighter_operator_binds_first(tokens: Seq<TokenView>, pos: int, loose: int, tight: int)
    requires
        0 <= pos,
        pos + 4 < tokens.len(),
        0 <= loose < tight < LEVELS,
        is_atom(at(tokens, pos)),
        is_operator(loose, at(tokens, pos + 1).ttype),
        is_atom(at(tokens, pos + 2)),
        is_operator(tight, at(tokens, pos + 3).ttype),
        is_atom(at(tokens, pos + 4)),
        closes_expression(tokens, pos + 5),
    ensures
        expression(tokens, pos) == (
            Ok::<ExprView, ParseErrorView>(
                joined(
                    loose,
                    ExprView::Literal(at(tokens, pos).literal),
                    at(tokens, pos + 1),
                    joined(
                        tight,
                        ExprView::Literal(at(tokens, pos + 2).literal),
                        at(tokens, pos + 3),
                        ExprView::Literal(at(tokens, pos + 4).literal),
                    ),
                ),
            ),
            pos + 5,
        ),
{
    binds_first_at(tokens, pos, 0, loose, tight);
}

proof fn binds_first_at(tokens: Seq<TokenView>, pos: int, from: int, loose: int, tight: int)
    requires
        0 <= pos,
        pos + 4 < tokens.len(),
        0 <= from <= loose < tight < LEVELS,
        is_atom(at(tokens, pos)),
        is_operator(loose, at(tokens, pos + 1).ttype),
        is_atom(at(tokens, pos + 2)),
        is_operator(tight, at(tokens, pos + 3).ttype),
        is_atom(at(tokens, pos + 4)),
        closes_expression(tokens, pos + 5),
    ensures
        infix(tokens, pos, from) == (
            Ok::<ExprView, ParseErrorView>(
                joined(
                    loose,
                    ExprView::Literal(at(tokens, pos).literal),
                    at(tokens, pos + 1),
                    joined(
                        tight,
                        ExprView::Literal(at(tokens, pos + 2).literal),
                        at(tokens, pos + 3),
                        ExprView::Literal(at(tokens, pos + 4).literal),
                    ),
                ),
            ),
            pos + 5,
        ),
    decreases loose - from,
{
    let first = ExprView::Literal(at(tokens, pos).literal);
    let inner = joined(
        tight,
        ExprView::Literal(at(tokens, pos + 2).literal),
        at(tokens, pos + 3),
        ExprView::Literal(at(tokens, pos + 4).literal),
    );
    let outer = joined(loose, first, at(tokens, pos + 1), inner);
    if from < loose {
        binds_first_at(tokens, pos, from + 1, loose, tight);
        assert(infix_rest(tokens, pos + 5, from, outer) == (
            Ok::<ExprView, ParseErrorView>(outer),
            pos + 5,
        ));
    } else {
        atom_is_an_operand(tokens, pos, loose + 1);
        operator_joins_two(tokens, pos + 2, loose + 1, tight);
        assert(infix_rest(tokens, pos + 5, loose, outer) == (
            Ok::<ExprView, ParseErrorView>(outer),
            pos + 5,
        ));
        assert(infix_rest(tokens, pos + 1, loose, first) == (
            Ok::<ExprView, ParseErrorView>(outer),
            pos + 5,
        ));
    }
}

} // verus!
