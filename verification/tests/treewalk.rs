use rlox::number::NumOp;
use rlox::token::TokenType;
use rlox::treewalk::callable::{BuiltinFunc, Callable, Native};
use rlox::treewalk::environment::Environ;
use rlox::treewalk::evaluate::{Interpreter, RuntimeMsg};
use rlox::treewalk::expressions::Expr;
use rlox::treewalk::grammar::ParseErrorKind;
use rlox::treewalk::parser::Parser;
use rlox::treewalk::runtime_error::Fault;
use rlox::treewalk::scanner::Scanner;
use rlox::treewalk::statement::Stmt;
use rlox::treewalk::token::Token;
use rlox::treewalk::token_type::Object;

fn doubles(op: NumOp) -> u64 {
    match op {
        NumOp::Literal(text) => text.parse::<f64>().unwrap().to_bits(),
        NumOp::Add(a, b) => (f64::from_bits(a) + f64::from_bits(b)).to_bits(),
        NumOp::Sub(a, b) => (f64::from_bits(a) - f64::from_bits(b)).to_bits(),
        NumOp::Mul(a, b) => (f64::from_bits(a) * f64::from_bits(b)).to_bits(),
        NumOp::Div(a, b) => (f64::from_bits(a) / f64::from_bits(b)).to_bits(),
    }
}

fn show(v: &Object) -> String {
    match v {
        Object::Num(bits) => format!("{}", f64::from_bits(*bits)),
        Object::Str(s) => s.clone(),
        Object::Nil => "Nil".to_string(),
        Object::Bool(b) => format!("{}", b),
        Object::Callable(Callable::Function(_)) => "<function object>".to_string(),
        Object::Callable(Callable::Builtin(_)) => "<builtin function>".to_string(),
    }
}

fn num(x: f64) -> Object {
    Object::Num(x.to_bits())
}

fn scan(source: &str) -> Vec<Token> {
    Scanner::new(source).scan_tokens(&doubles).unwrap()
}

fn parse(source: &str) -> (Vec<Stmt>, Vec<String>) {
    let mut parser = Parser::new(scan(source));
    let stmts = parser.parse();
    let errors = parser.errors().iter().map(|e| e.to_string()).collect();
    (stmts, errors)
}

/// The printed lines and the outcome of running `source` in a fresh interpreter.
fn run(source: &str) -> (Vec<String>, Result<(), String>) {
    let mut interpreter = Interpreter::new();
    run_in(&mut interpreter, source)
}

fn run_in(interpreter: &mut Interpreter, source: &str) -> (Vec<String>, Result<(), String>) {
    let (stmts, errors) = parse(source);
    assert!(errors.is_empty(), "parse errors: {:?}", errors);
    let outcome = interpreter.interpreter(stmts, &doubles).map_err(|e| e.to_string());
    let printed = interpreter.take_output().iter().map(show).collect();
    (printed, outcome)
}

fn printed(source: &str) -> Vec<String> {
    let (lines, outcome) = run(source);
    assert_eq!(outcome, Ok(()));
    lines
}

#[test]
fn test_print_ast() {
    let expression = Expr::Binary(
        Box::new(Expr::Unary(
            Token::new(TokenType::MINUS, "-".to_string(), Object::Nil, 1),
            Box::new(Expr::Literal(Object::Num(123f64.to_bits()))),
        )),
        Token::new(TokenType::STAR, "*".to_string(), Object::Nil, 1),
        Box::new(Expr::Grouping(Box::new(Expr::Literal(Object::Num(45.67f64.to_bits()))))),
    );
    let mut interpreter = Interpreter::new();
    match interpreter.evaluate(&expression, &doubles, 10) {
        Ok(Object::Num(bits)) => assert_eq!(f64::from_bits(bits), -123.0 * 45.67),
        other => panic!("unexpected {:?}", other),
    }
}

#[test]
fn scanner_gives_kinds_lexemes_literals_and_lines() {
    let tokens = scan("var x = 1.5;\nprint \"hi\" // note\n>= != foo_1 while.");
    let kinds: Vec<TokenType> = tokens.iter().map(|t| t.ttype).collect();
    assert_eq!(
        kinds,
        vec![
            TokenType::VAR,
            TokenType::IDENTIFIER,
            TokenType::EQUAL,
            TokenType::NUMBER,
            TokenType::SEMICOLON,
            TokenType::PRINT,
            TokenType::STRING,
            TokenType::GREATER_EQUAL,
            TokenType::BANG_EQUAL,
            TokenType::IDENTIFIER,
            TokenType::WHILE,
            TokenType::DOT,
            TokenType::EOF,
        ]
    );
    let lexemes: Vec<&str> = tokens.iter().map(|t| t.lexeme.as_str()).collect();
    assert_eq!(
        lexemes,
        vec!["var", "x", "=", "1.5", ";", "print", "\"hi\"", ">=", "!=", "foo_1", "while", ".", " "]
    );
    let lines: Vec<usize> = tokens.iter().map(|t| t.line).collect();
    assert_eq!(lines, vec![1, 1, 1, 1, 1, 2, 2, 3, 3, 3, 3, 3, 3]);
    assert!(matches!(&tokens[3].literal, Object::Num(b) if f64::from_bits(*b) == 1.5));
    assert!(matches!(&tokens[6].literal, Object::Str(s) if s == "hi"));
    assert!(matches!(&tokens[0].literal, Object::Nil));
}

#[test]
fn scanner_number_does_not_take_a_trailing_dot() {
    let tokens = scan("12.");
    let lexemes: Vec<&str> = tokens.iter().map(|t| t.lexeme.as_str()).collect();
    assert_eq!(lexemes, vec!["12", ".", " "]);
    let tokens = scan("1.25.5");
    let lexemes: Vec<&str> = tokens.iter().map(|t| t.lexeme.as_str()).collect();
    assert_eq!(lexemes, vec!["1.25", ".", "5", " "]);
}

#[test]
fn scanner_knows_every_keyword_and_mark() {
    let source = "and class else false for fun if nil or print return super this true var while \
                  ( ) { } , . - + ; / * ! != = == > >= < <= andy fo _x";
    let kinds: Vec<TokenType> = scan(source).iter().map(|t| t.ttype).collect();
    assert_eq!(
        kinds,
        vec![
            TokenType::AND,
            TokenType::CLASS,
            TokenType::ELSE,
            TokenType::FALSE,
            TokenType::FOR,
            TokenType::FUN,
            TokenType::IF,
            TokenType::NIL,
            TokenType::OR,
            TokenType::PRINT,
            TokenType::RETURN,
            TokenType::SUPER,
            TokenType::THIS,
            TokenType::TRUE,
            TokenType::VAR,
            TokenType::WHILE,
            TokenType::LEFT_PAREN,
            TokenType::RIGHT_PAREN,
            TokenType::LEFT_BRACE,
            TokenType::RIGHT_BRACE,
            TokenType::COMMA,
            TokenType::DOT,
            TokenType::MINUS,
            TokenType::PLUS,
            TokenType::SEMICOLON,
            TokenType::SLASH,
            TokenType::STAR,
            TokenType::BANG,
            TokenType::BANG_EQUAL,
            TokenType::EQUAL,
            TokenType::EQUAL_EQUAL,
            TokenType::GREATER,
            TokenType::GREATER_EQUAL,
            TokenType::LESS,
            TokenType::LESS_EQUAL,
            TokenType::IDENTIFIER,
            TokenType::IDENTIFIER,
            TokenType::IDENTIFIER,
            TokenType::EOF,
        ]
    );
}

#[test]
fn scanner_errors_name_the_line_and_the_text() {
    let e = Scanner::new("1;\n\"open\nstill").scan_tokens(&doubles).unwrap_err();
    assert_eq!(e.line(), 3);
    assert_eq!(e.literal(), "\"open\nstill");
    assert_eq!(e.msg(), "unterminated string");
    let e = Scanner::new("var a;\n  @").scan_tokens(&doubles).unwrap_err();
    assert_eq!(e.line(), 2);
    assert_eq!(e.literal(), "@");
    assert_eq!(e.to_string(), "[line 2] Error at @: unexpected character");
}

#[test]
fn scanner_emits_the_end_exactly_once() {
    for source in ["", "   \n ", "// only a comment", "a b c"] {
        let tokens = scan(source);
        let ends = tokens.iter().filter(|t| t.ttype == TokenType::EOF).count();
        assert_eq!(ends, 1);
        assert_eq!(tokens.last().unwrap().ttype, TokenType::EOF);
    }
}

#[test]
fn rescanning_the_lexemes_gives_the_same_tokens() {
    let source = "fun f(a, b) { return a >= b or !a; } // c\nprint f(1.5, \"x y\") == nil;";
    let first = scan(source);
    let joined: Vec<String> = first
        .iter()
        .filter(|t| t.ttype != TokenType::EOF)
        .map(|t| t.lexeme.clone())
        .collect();
    let again = scan(&joined.join(" "));
    assert_eq!(first.len(), again.len());
    for (a, b) in first.iter().zip(again.iter()) {
        assert_eq!(a.ttype, b.ttype);
        assert_eq!(a.lexeme, b.lexeme);
    }
}

#[test]
fn multiplication_binds_tighter_in_the_tree() {
    assert_eq!(printed("print 1 + 2 * 3;"), vec!["7"]);
    let (stmts, _) = parse("1 + 2 * 3;");
    match &stmts[0] {
        Stmt::Expression(e) => match &**e {
            Expr::Binary(l, op, r) => {
                assert_eq!(op.ttype, TokenType::PLUS);
                assert!(matches!(&**l, Expr::Literal(_)));
                assert!(matches!(&**r, Expr::Binary(_, star, _) if star.ttype == TokenType::STAR));
            }
            other => panic!("unexpected {:?}", other),
        },
        other => panic!("unexpected {:?}", other),
    }
}

#[test]
fn subtraction_groups_from_the_left_in_the_tree() {
    assert_eq!(printed("print 8 - 4 - 2;"), vec!["2"]);
    assert_eq!(printed("print 8 / 4 / 2;"), vec!["1"]);
}

#[test]
fn assignment_groups_from_the_right() {
    assert_eq!(printed("var a; var b; a = b = 3; print a; print b;"), vec!["3", "3"]);
}

#[test]
fn plus_joins_strings_and_adds_numbers_only() {
    assert_eq!(printed("print \"a\" + \"b\";"), vec!["ab"]);
    let (_, outcome) = run("print 1 + \"a\";");
    assert_eq!(outcome, Err("line 1: operand of + must be number or string.".to_string()));
    let (_, outcome) = run("print \"a\" + 1;");
    assert_eq!(outcome, Err("line 1: operand of + must be number or string.".to_string()));
    let (_, outcome) = run("print nil + 1;");
    assert!(outcome.is_err());
}

#[test]
fn other_operators_take_numbers() {
    let (_, outcome) = run("print 1 < \"a\";");
    assert_eq!(outcome, Err("line 1: operand of < must be number.".to_string()));
    let (_, outcome) = run("\n\nprint -\"a\";");
    assert_eq!(outcome, Err("line 3: operand of - must be number.".to_string()));
    let (_, outcome) = run("print true * 2;");
    assert!(outcome.is_err());
    assert_eq!(
        printed("print 1 < 2; print 2 <= 2; print 3 > 4; print 4 >= 5; print 7 / 2; print -3 - 1;"),
        vec!["true", "true", "false", "false", "3.5", "-4"]
    );
}

#[test]
fn equality_takes_any_two_values() {
    assert_eq!(
        printed(
            "print 1 == 1; print 1 == 2; print \"a\" == \"a\"; print nil == nil; \
             print nil == false; print 1 == \"1\"; print 1 != 2; print true == true;"
        ),
        vec!["true", "false", "true", "true", "false", "false", "true", "true"]
    );
    assert!(Object::Num(0f64.to_bits()).equals(&Object::Num((-0f64).to_bits())));
    assert!(!Object::Num(f64::NAN.to_bits()).equals(&Object::Num(f64::NAN.to_bits())));
}

#[test]
fn a_function_sees_the_scope_of_its_declaration() {
    let source = "var x = 1; fun f() { return x; } { var x = 2; print f(); }";
    assert_eq!(printed(source), vec!["1"]);
}

#[test]
fn closures_outlive_the_block_that_made_them() {
    let source = "fun make() { var n = 0; fun next() { n = n + 1; return n; } return next; } \
                  var c = make(); print c(); print c(); var d = make(); print d(); print c();";
    assert_eq!(printed(source), vec!["1", "2", "1", "3"]);
}

#[test]
fn undefined_variable_names_the_variable_and_its_line() {
    let mut interpreter = Interpreter::new();
    let y = Expr::Variable(Token::new(TokenType::IDENTIFIER, "y".to_string(), Object::Nil, 7));
    match interpreter.evaluate(&y, &doubles, 10) {
        Err(RuntimeMsg::Fail(e)) => {
            assert_eq!(e.kind, Fault::UndefinedVariable);
            assert_eq!(e.line, 7);
            assert_eq!(e.lexeme, "y");
            assert_eq!(e.to_string(), "line 7: Undefined variable y");
        }
        other => panic!("unexpected {:?}", other),
    }
    let (_, outcome) = run("var a = 1;\ny = 2;");
    assert_eq!(outcome, Err("line 2: Undefined variable y".to_string()));
}

#[test]
fn arity_mismatch_states_both_counts() {
    let (lines, outcome) = run("fun f() { print 1; }\nf(3);");
    assert!(lines.is_empty());
    assert_eq!(outcome, Err("line 2: In function: f, expected 0 arguments, got 1.".to_string()));
    let (_, outcome) = run("fun g(a, b) { return a; } g(1);");
    assert_eq!(outcome, Err("line 1: In function: g, expected 2 arguments, got 1.".to_string()));
    let (_, outcome) = run("clock(1);");
    assert_eq!(
        outcome,
        Err("line 1: In function: <builtin function>, expected 0 arguments, got 1.".to_string())
    );
}

#[test]
fn only_functions_can_be_called() {
    let (_, outcome) = run("var a = 1;\na();");
    assert_eq!(outcome, Err("line 2: value is not callable.".to_string()));
}

#[test]
fn truthiness_boundary() {
    assert_eq!(printed("if (0) print \"yes\";"), vec!["yes"]);
    assert_eq!(printed("if (\"\") print \"yes\"; else print \"no\";"), vec!["yes"]);
    assert_eq!(printed("if (nil) print \"yes\"; else print \"no\";"), vec!["no"]);
    assert_eq!(printed("if (false) print \"yes\"; else print \"no\";"), vec!["no"]);
    assert_eq!(printed("if (false) print \"yes\";"), Vec::<String>::new());
    assert!(!Object::Nil.is_true());
    assert!(!Object::Bool(false).is_true());
    assert!(Object::Bool(true).is_true());
    assert!(num(0.0).is_true());
    assert!(num(-0.0).is_true());
    assert!(Object::Str(String::new()).is_true());
    assert_eq!(printed("print !0; print !nil; print !\"\";"), vec!["false", "true", "false"]);
}

#[test]
fn for_loop_runs_and_keeps_its_variable_to_itself() {
    let source = "for (var i = 0; i < 3; i = i + 1) print i;";
    assert_eq!(printed(source), vec!["0", "1", "2"]);
    let (lines, outcome) = run("for (var i = 0; i < 3; i = i + 1) print i;\nprint i;");
    assert_eq!(lines, vec!["0", "1", "2"]);
    assert_eq!(outcome, Err("line 2: Undefined variable i".to_string()));
}

#[test]
fn for_is_parsed_as_a_block_with_a_while() {
    let (stmts, errors) = parse("for (var i = 0; i < 3; i = i + 1) print i;");
    assert!(errors.is_empty());
    assert_eq!(stmts.len(), 1);
    match &stmts[0] {
        Stmt::Block(parts) => {
            assert_eq!(parts.len(), 2);
            assert!(matches!(&parts[0], Stmt::Var(name, _) if name.lexeme == "i"));
            match &parts[1] {
                Stmt::WhileStmt(condition, body) => {
                    assert!(matches!(&**condition, Expr::Binary(_, op, _) if op.ttype == TokenType::LESS));
                    match &**body {
                        Stmt::Block(inner) => {
                            assert_eq!(inner.len(), 2);
                            assert!(matches!(&inner[0], Stmt::Print(_)));
                            assert!(matches!(&inner[1], Stmt::Expression(e) if matches!(&**e, Expr::Assign(_, _))));
                        }
                        other => panic!("unexpected {:?}", other),
                    }
                }
                other => panic!("unexpected {:?}", other),
            }
        }
        other => panic!("unexpected {:?}", other),
    }
    let (stmts, _) = parse("for (;;) print 1;");
    match &stmts[0] {
        Stmt::WhileStmt(condition, body) => {
            assert!(matches!(&**condition, Expr::Literal(Object::Bool(true))));
            assert!(matches!(&**body, Stmt::Print(_)));
        }
        other => panic!("unexpected {:?}", other),
    }
}

#[test]
fn while_and_logical_operators() {
    assert_eq!(
        printed("var n = 3; while (n > 0) { print n; n = n - 1; }"),
        vec!["3", "2", "1"]
    );
    assert_eq!(
        printed("print nil or \"x\"; print 1 or 2; print nil and 1; print 1 and 2; print false or nil;"),
        vec!["x", "1", "Nil", "2", "Nil"]
    );
    assert_eq!(
        printed("var a = 0; fun f() { a = a + 1; return true; } true or f(); false and f(); print a;"),
        vec!["0"]
    );
}

#[test]
fn recursion_and_return() {
    let source = "fun fib(n) { if (n < 2) return n; return fib(n - 1) + fib(n - 2); } print fib(15);";
    assert_eq!(printed(source), vec!["610"]);
    assert_eq!(printed("fun f() { } print f();"), vec!["Nil"]);
    assert_eq!(printed("fun f() { return; } print f();"), vec!["Nil"]);
    assert_eq!(
        printed("fun f() { while (true) { return 5; } } print f();"),
        vec!["5"]
    );
}

#[test]
fn a_return_outside_a_function_ends_only_its_statement() {
    let (lines, outcome) = run("print 1; return 2; print 3;");
    assert_eq!(outcome, Ok(()));
    assert_eq!(lines, vec!["1", "3"]);
}

#[test]
fn blocks_shadow_and_restore() {
    let source = "var a = 1; { var a = 2; print a; { a = 3; print a; } print a; } print a;";
    assert_eq!(printed(source), vec!["2", "3", "3", "1"]);
    let mut interpreter = Interpreter::new();
    let (_, outcome) = run_in(&mut interpreter, "{ var a = 1; { b = 2; } }");
    assert!(outcome.is_err());
    assert_eq!(interpreter.environment(), 0);
}

#[test]
fn state_is_kept_between_runs() {
    let mut interpreter = Interpreter::new();
    assert_eq!(run_in(&mut interpreter, "var a = 2; fun twice(x) { return x * a; }").1, Ok(()));
    assert_eq!(run_in(&mut interpreter, "print twice(21);").0, vec!["42"]);
}

#[test]
fn limits_end_runaway_programs() {
    let mut interpreter = Interpreter::new();
    interpreter.set_limits(20, 1000);
    let (_, outcome) = run_in(&mut interpreter, "while (true) { }");
    assert_eq!(outcome, Err("line 0: loop ran too often.".to_string()));
    let (_, outcome) = run_in(&mut interpreter, "fun f() { return f(); }\nf();");
    assert_eq!(outcome, Err("line 1: evaluation is nested too deeply.".to_string()));
    let (lines, outcome) =
        run_in(&mut interpreter, "var n = 0; while (n < 1000) n = n + 1; print n;");
    assert_eq!(outcome, Ok(()));
    assert_eq!(lines, vec!["1000"]);
    let (_, outcome) = run_in(&mut interpreter, "var n = 0; while (n < 1001) n = n + 1;");
    assert!(outcome.is_err());
}

#[test]
fn clock_gives_the_reading_that_was_set() {
    let mut interpreter = Interpreter::new();
    interpreter.set_clock(1234.5f64.to_bits());
    assert_eq!(run_in(&mut interpreter, "print clock(); print clock;").0, vec!["1234.5", "<builtin function>"]);
    let b = BuiltinFunc::new(Native::Clock, 0);
    assert_eq!(b.arity(), 0);
}

#[test]
fn an_empty_statement_does_nothing_and_an_empty_expression_fails() {
    let mut interpreter = Interpreter::new();
    assert!(interpreter.execute(&Stmt::Empty, &doubles).is_ok());
    match interpreter.evaluate(&Expr::Empty, &doubles, 1) {
        Err(RuntimeMsg::Fail(e)) => {
            assert_eq!(e.kind, Fault::EmptyExpression);
            assert_eq!(e.to_string(), "line 0: None value during evaluating expression.");
        }
        other => panic!("unexpected {:?}", other),
    }
}

#[test]
fn parser_reports_recovers_and_goes_on() {
    let (stmts, errors) = parse("print 1;\nvar = 2;\nprint 3;");
    assert_eq!(errors, vec!["line 2 at '=': Expect variable name."]);
    assert_eq!(stmts.len(), 3);
    assert!(matches!(&stmts[0], Stmt::Print(_)));
    assert!(matches!(&stmts[1], Stmt::Empty));
    assert!(matches!(&stmts[2], Stmt::Print(_)));
    let (stmts, errors) = parse("print (1 + ; foo bar; if (x) print 2;");
    assert_eq!(
        errors,
        vec![
            "line 1 at ';': Expect expression",
            "line 1 at 'bar': Expect `;` after expression."
        ]
    );
    assert_eq!(stmts.len(), 3);
    assert!(matches!(&stmts[2], Stmt::IfStmt(_, _, _)));
    let (_, errors) = parse("print 1");
    assert_eq!(errors, vec!["line 1 at the end: Expect `;` after value."]);
    let (_, errors) = parse("{ print 1;");
    assert_eq!(errors, vec!["line 1 at the end: Expect } after block"]);
}

#[test]
fn parser_rejects_what_is_no_assignment_target() {
    let (stmts, errors) = parse("1 = 2;\n(a) = 3;\na = 1;");
    assert_eq!(
        errors,
        vec![
            "line 1 at '=': Invalid assignment target.",
            "line 2 at '=': Invalid assignment target."
        ]
    );
    assert!(matches!(stmts.last().unwrap(), Stmt::Expression(e) if matches!(&**e, Expr::Assign(_, _))));
}

#[test]
fn parser_error_kinds_have_their_messages() {
    let cases = [
        ("if 1", "line 1 at '1': Expect `(` after keyword if."),
        ("while 1", "line 1 at '1': Expect `(` after keyword while."),
        ("for 1", "line 1 at '1': Expect `(` after keyword for."),
        ("if (1 print 2;", "line 1 at 'print': Expect `)` after condition expr."),
        ("for (;1 2) ;", "line 1 at '2': Expect `;`."),
        ("for (;;1 {}", "line 1 at '{': Expect `)` after for clause."),
        ("fun (", "line 1 at '(': Expect function name."),
        ("fun f {", "line 1 at '{': Expect `(` after function name."),
        ("fun f(1) {}", "line 1 at '1': Expect parameter name."),
        ("fun f(a b) {}", "line 1 at 'b': Expect `)` after parameters."),
        ("fun f(a) print 1;", "line 1 at 'print': Expect `{` before function body."),
        ("var a = 1", "line 1 at the end: Expect `;` after variable declaration."),
        ("return 1 2;", "line 1 at '2': Expect semicolon after return statement."),
        ("f(1 2);", "line 1 at '2': Expect `)` after arguments."),
        ("(1 2);", "line 1 at '2': Expect ')' after expression."),
    ];
    for (source, message) in cases {
        let (_, errors) = parse(source);
        assert_eq!(errors.first().map(|s| s.as_str()), Some(message), "for {:?}", source);
    }
    assert_eq!(ParseErrorKind::TooManyArguments.message(), "Maximum argument counts are limited to 255.");
    assert_eq!(ParseErrorKind::TooManyParameters.message(), "Maximum parameter counts are limited to 255.");
}

#[test]
fn calls_take_at_most_255_arguments() {
    let args = |n: usize| vec!["1"; n].join(", ");
    let (_, errors) = parse(&format!("f({});", args(255)));
    assert!(errors.is_empty());
    let (_, errors) = parse(&format!("f({});", args(256)));
    assert_eq!(errors, vec!["line 1 at '1': Maximum argument counts are limited to 255."]);
    let params = |n: usize| (0..n).map(|i| format!("p{}", i)).collect::<Vec<_>>().join(", ");
    let (_, errors) = parse(&format!("fun f({}) {{}}", params(255)));
    assert!(errors.is_empty());
    let (_, errors) = parse(&format!("fun f({}) {{}}", params(256)));
    assert_eq!(errors, vec!["line 1 at 'p255': Maximum parameter counts are limited to 255."]);
}

#[test]
fn calls_chain() {
    assert_eq!(
        printed("fun f() { fun g() { return 7; } return g; } print f()();"),
        vec!["7"]
    );
}

#[test]
fn parser_takes_any_tokens() {
    let mut parser = Parser::new(Vec::new());
    assert!(parser.parse().is_empty());
    let lone = vec![Token::new(TokenType::PRINT, "print".to_string(), Object::Nil, 4)];
    let mut parser = Parser::new(lone);
    let stmts = parser.parse();
    assert_eq!(stmts.len(), 1);
    assert_eq!(parser.errors()[0].to_string(), "line 0 at the end: Expect expression");
}

#[test]
fn scopes_define_look_up_and_assign() {
    let name = |s: &str, line: usize| Token::new(TokenType::IDENTIFIER, s.to_string(), Object::Nil, line);
    let mut scopes = Environ::new();
    assert_eq!(scopes.len(), 1);
    scopes.define(0, "a".to_string(), num(1.0));
    let inner = scopes.child(0);
    assert_eq!(inner, 1);
    scopes.define(inner, "b".to_string(), num(2.0));
    assert_eq!(show(&scopes.get(inner, &name("a", 1)).unwrap()), "1");
    assert_eq!(show(&scopes.get(inner, &name("b", 1)).unwrap()), "2");
    assert_eq!(scopes.get(0, &name("b", 9)).unwrap_err().to_string(), "line 9: Undefined variable b");
    scopes.assign(inner, &name("a", 1), num(5.0)).unwrap();
    assert_eq!(show(&scopes.get(0, &name("a", 1)).unwrap()), "5");
    scopes.define(inner, "a".to_string(), num(6.0));
    assert_eq!(show(&scopes.get(inner, &name("a", 1)).unwrap()), "6");
    assert_eq!(show(&scopes.get(0, &name("a", 1)).unwrap()), "5");
    scopes.define(inner, "a".to_string(), num(7.0));
    scopes.assign(inner, &name("a", 1), num(8.0)).unwrap();
    assert_eq!(show(&scopes.get(inner, &name("a", 1)).unwrap()), "8");
    let e = scopes.assign(inner, &name("zz", 3), Object::Nil).unwrap_err();
    assert_eq!(e.kind, Fault::UndefinedVariable);
    assert_eq!((e.line, e.lexeme.as_str()), (3, "zz"));
    assert!(scopes.get(17, &name("a", 1)).is_err());
}

#[test]
fn default_limits_hold_back_deep_recursion() {
    let source = "fun f(n) { if (n == 0) return 0; return 1 + f(n - 1); } print f(150);";
    assert_eq!(printed(source), vec!["150"]);
    let (_, outcome) = run("fun g(n) { return g(n + 1); }\nprint g(0);");
    assert_eq!(outcome, Err("line 1: evaluation is nested too deeply.".to_string()));
}

#[test]
fn functions_are_shown_by_their_names() {
    let mut interpreter = Interpreter::new();
    assert_eq!(run_in(&mut interpreter, "fun area(w, h) { return w * h; }").1, Ok(()));
    assert_eq!(interpreter.shown_name(&Callable::Function(0)), "area");
    assert_eq!(interpreter.shown_name(&Callable::Function(1)), "");
    let clock = Callable::Builtin(BuiltinFunc::new(Native::Clock, 0));
    assert_eq!(interpreter.shown_name(&clock), "<builtin function>");
    interpreter.set_clock(7f64.to_bits());
    let reading = BuiltinFunc::new(Native::Clock, 0).call(&interpreter, Vec::new());
    assert_eq!(show(&reading), "7");
}

#[test]
fn statements_behind_one_that_could_not_be_parsed_are_run() {
    let (stmts, errors) = parse("print 1;\nprint ;\nprint 3;");
    assert_eq!(errors, vec!["line 2 at ';': Expect expression"]);
    let mut interpreter = Interpreter::new();
    assert!(interpreter.interpreter(stmts, &doubles).is_ok());
    let lines: Vec<String> = interpreter.take_output().iter().map(show).collect();
    assert_eq!(lines, vec!["1", "3"]);
}
