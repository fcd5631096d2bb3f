use rlox::chunk::{Chunk, ConstantPool, OpCode};
use rlox::compile::{Compiler, ParseFn};
use rlox::interpret::{interpret, InterpretError};
use rlox::number::NumOp;
use rlox::token::{Precedence, TokenType};
use rlox::treewalk::callable::{Callable, FuncType};
use rlox::treewalk::evaluate::{Interpreter, RuntimeMsg};
use rlox::treewalk::expressions::Expr;
use rlox::treewalk::runner::{RunError, Runner};
use rlox::treewalk::runtime_error::Fault;
use rlox::treewalk::statement::Stmt;
use rlox::treewalk::token::Token;
use rlox::treewalk::token_type::Object;
use rlox::value::Value;
use rlox::vm::VM;

fn arithmetic(op: NumOp) -> u64 {
    match op {
        NumOp::Literal(text) => text.parse::<f64>().unwrap().to_bits(),
        NumOp::Add(a, b) => (f64::from_bits(a) + f64::from_bits(b)).to_bits(),
        NumOp::Sub(a, b) => (f64::from_bits(a) - f64::from_bits(b)).to_bits(),
        NumOp::Mul(a, b) => (f64::from_bits(a) * f64::from_bits(b)).to_bits(),
        NumOp::Div(a, b) => (f64::from_bits(a) / f64::from_bits(b)).to_bits(),
    }
}

fn word(kind: TokenType, text: &str, line: usize) -> Token {
    Token::new(kind, text.to_string(), Object::Nil, line)
}

#[test]
fn compiler_writes_operands_before_operators() {
    let mut compiler = Compiler::new("1 + 2 * 3 - -4".to_string());
    compiler.compile(&arithmetic).unwrap();
    let chunk = compiler.return_chunk();
    let code: Vec<OpCode> = (0..chunk.len()).map(|i| chunk.fetch(i).unwrap()).collect();
    assert_eq!(
        code,
        vec![
            OpCode::Constant(0),
            OpCode::Constant(1),
            OpCode::Constant(2),
            OpCode::Mul,
            OpCode::Add,
            OpCode::Constant(3),
            OpCode::Neg,
            OpCode::Sub,
            OpCode::Return,
        ]
    );
    assert_eq!(chunk.fetch(9), None);
    for (i, expected) in [1.0, 2.0, 3.0, 4.0].iter().enumerate() {
        match chunk.get_constant(i) {
            Some(Value::Number(bits)) => assert_eq!(f64::from_bits(bits), *expected),
            other => panic!("unexpected {:?}", other),
        }
    }
    assert!(chunk.get_constant(4).is_none());
    assert!(chunk.get_constant(300).is_none());
}

#[test]
fn compiler_records_the_line_of_each_instruction() {
    let mut compiler = Compiler::new("1 +\n2\n*\n3".to_string());
    compiler.compile(&arithmetic).unwrap();
    let chunk = compiler.return_chunk();
    let lines: Vec<usize> = (0..chunk.len()).map(|i| chunk.get_line_nu(i).unwrap()).collect();
    assert_eq!(lines, vec![1, 2, 4, 4, 4, 4]);
    assert_eq!(chunk.get_line_nu(6), None);
}

#[test]
fn compiler_pieces_can_be_used_by_hand() {
    let mut compiler = Compiler::new(String::new());
    assert_eq!(compiler.make_const(Value::Nil), Ok(0));
    compiler.emit_byte(OpCode::Constant(0));
    assert!(compiler.emit_const(Value::Boolean(true)).is_ok());
    compiler.emit_byte(OpCode::Equal);
    compiler.emit_byte(OpCode::Return);
    let mut vm = VM::new(compiler.return_chunk());
    assert!(matches!(vm.run(&arithmetic), Ok(Value::Boolean(false))));
}

#[test]
fn rule_table() {
    let minus = Compiler::get_rule(TokenType::MINUS);
    assert_eq!(minus.prefix, Some(ParseFn::Unary));
    assert_eq!(minus.infix, Some(ParseFn::Binary));
    assert_eq!(minus.precedence, Precedence::Term);
    let star = Compiler::get_rule(TokenType::STAR);
    assert_eq!((star.prefix, star.infix, star.precedence), (None, Some(ParseFn::Binary), Precedence::Factor));
    let paren = Compiler::get_rule(TokenType::LEFT_PAREN);
    assert_eq!((paren.prefix, paren.infix, paren.precedence), (Some(ParseFn::Grouping), None, Precedence::Lowest));
    let number = Compiler::get_rule(TokenType::NUMBER);
    assert_eq!(number.prefix, Some(ParseFn::Number));
    let end = Compiler::get_rule(TokenType::EOF);
    assert_eq!((end.prefix, end.infix, end.precedence), (None, None, Precedence::Lowest));
}

#[test]
fn precedence_levels_are_in_order() {
    let levels = [
        Precedence::Lowest,
        Precedence::Assign,
        Precedence::Or,
        Precedence::And,
        Precedence::Equality,
        Precedence::Comparison,
        Precedence::Term,
        Precedence::Factor,
        Precedence::Unary,
        Precedence::Call,
        Precedence::Primary,
    ];
    for (i, level) in levels.iter().enumerate() {
        assert_eq!(level.rank() as usize, i);
        if i + 1 < levels.len() {
            assert_eq!(Precedence::higher(level), levels[i + 1]);
            assert!(level < &levels[i + 1]);
            assert!(level.at_most(&levels[i + 1]));
            assert!(!levels[i + 1].at_most(level));
        }
        assert!(level.at_most(level));
    }
}

#[test]
fn listing_shows_number_name_line_and_constant() {
    let mut chunk = Chunk::new();
    chunk.write_constant(Value::Str("s".to_string())).unwrap();
    chunk.write_chunk(OpCode::Constant(0), 3);
    chunk.write_chunk(OpCode::Constant(9), 3);
    chunk.write_chunk(OpCode::Greater, 4);
    let listing = chunk.disassembly();
    assert_eq!(listing.len(), 3);
    assert_eq!((listing[0].tag, listing[0].name, listing[0].line), (1, "CONSTANT", 3));
    assert!(matches!(&listing[0].constant, Some((0, Value::Str(s))) if s == "s"));
    assert!(listing[1].constant.is_none());
    assert_eq!((listing[2].tag, listing[2].name, listing[2].line), (8, "GREATER", 4));
    let one = chunk.disassembly_ins(&OpCode::Return, 12);
    assert_eq!((one.tag, one.name, one.line), (0, "RETURN", 12));
    assert_eq!(OpCode::Nil.for_int_print(), 13);
    assert_eq!(OpCode::Nil.name(), "NIL");
}

#[test]
fn constant_pool_hands_back_what_it_was_given() {
    let mut pool = ConstantPool::new();
    assert_eq!(pool.add_constant(Value::Boolean(true)), Ok(0));
    assert_eq!(pool.add_constant(Value::Str("x".to_string())), Ok(1));
    assert!(matches!(pool.get_constant(0), Some(Value::Boolean(true))));
    assert!(matches!(pool.get_constant(1), Some(Value::Str(s)) if s == "x"));
    assert!(pool.get_constant(2).is_none());
}

#[test]
fn function_values_keep_a_copy_of_their_declaration() {
    let body = Stmt::Block(vec![Stmt::ReturnStmt(
        word(TokenType::RETURN, "return", 2),
        Box::new(Expr::Variable(word(TokenType::IDENTIFIER, "a", 2))),
    )]);
    let declaration = Stmt::Function(
        word(TokenType::IDENTIFIER, "first", 1),
        vec![word(TokenType::IDENTIFIER, "a", 1), word(TokenType::IDENTIFIER, "b", 1)],
        Box::new(body),
    );
    let f = FuncType::new(&declaration, 5);
    assert_eq!(f.arity(), 2);
    assert_eq!(f.name().lexeme, "first");
    assert_eq!(f.param(1).lexeme, "b");
    assert_eq!(f.closure(), 5);
    assert!(matches!(f.body(), Stmt::Block(inner) if inner.len() == 1));
    let copy = declaration.duplicate();
    assert!(matches!(&copy, Stmt::Function(name, params, _) if name.lexeme == "first" && params.len() == 2));
}

#[test]
fn a_function_value_that_the_interpreter_does_not_know_is_an_error() {
    let mut interpreter = Interpreter::new();
    let call = Expr::Call(
        Box::new(Expr::Literal(Object::Callable(Callable::Function(99)))),
        word(TokenType::RIGHT_PAREN, ")", 3),
        Vec::new(),
    );
    match interpreter.evaluate(&call, &arithmetic, 5) {
        Err(RuntimeMsg::Fail(e)) => {
            assert_eq!(e.kind, Fault::UnknownFunction);
            assert_eq!(e.to_string(), "line 3: internal error: unknown function.");
        }
        other => panic!("unexpected {:?}", other),
    }
}

#[test]
fn evaluation_depth_counts_calls_not_operators() {
    let mut interpreter = Interpreter::new();
    let mut sum = Expr::Literal(Object::Num(0f64.to_bits()));
    for _ in 0..500 {
        sum = Expr::Binary(
            Box::new(sum),
            word(TokenType::PLUS, "+", 1),
            Box::new(Expr::Literal(Object::Num(1f64.to_bits()))),
        );
    }
    match interpreter.evaluate(&sum, &arithmetic, 0) {
        Ok(Object::Num(bits)) => assert_eq!(f64::from_bits(bits), 500.0),
        other => panic!("unexpected {:?}", other),
    }
}

#[test]
fn a_source_is_compiled_and_run_in_one_step() {
    let done = interpret("2 * (3 + 4) # 1".to_string(), &arithmetic);
    assert_eq!(done.diagnostics.len(), 1);
    assert_eq!(done.diagnostics[0].to_string(), "[line 1] Error at #: unexpected character");
    match done.result {
        Err(InterpretError::Compile(e)) => {
            assert_eq!(e.to_string(), "[line 1] Error at 1: expect end of expression")
        }
        other => panic!("unexpected {:?}", other),
    }
    let done = interpret("2 * (3 + 4)".to_string(), &arithmetic);
    assert!(done.diagnostics.is_empty());
    assert!(matches!(done.result, Ok(Value::Number(b)) if f64::from_bits(b) == 14.0));
    let mut deep = String::new();
    for _ in 0..255 {
        deep.push_str("1 + (");
    }
    deep.push('1');
    for _ in 0..255 {
        deep.push(')');
    }
    let done = interpret(deep, &arithmetic);
    assert!(matches!(done.result, Ok(Value::Number(b)) if f64::from_bits(b) == 256.0));
}

#[test]
fn a_runner_scans_parses_and_runs() {
    let mut runner = Runner::new();
    let report = runner.run("var a = 2;\nprint a * 21;\nprint ;\nprint \"done\";", &arithmetic);
    assert!(report.outcome.is_ok());
    assert_eq!(report.parse_errors.len(), 1);
    assert_eq!(report.parse_errors[0].to_string(), "line 3 at ';': Expect expression");
    assert_eq!(report.printed.len(), 2);
    assert!(matches!(&report.printed[0], Object::Num(b) if f64::from_bits(*b) == 42.0));
    assert!(matches!(&report.printed[1], Object::Str(s) if s == "done"));
    let report = runner.run("print a + 1; print \"x\" - 1; print 3;", &arithmetic);
    assert_eq!(report.printed.len(), 1);
    match report.outcome {
        Err(RunError::Runtime(e)) => assert_eq!(e.kind, Fault::OperandsMustBeNumbers),
        other => panic!("unexpected {:?}", other),
    }
    let report = runner.run("print 1; ?", &arithmetic);
    assert!(report.printed.is_empty());
    match &report.outcome {
        Err(e @ RunError::Scan(_)) => {
            assert_eq!(e.to_string(), "[line 1] Error at ?: unexpected character")
        }
        other => panic!("unexpected {:?}", other),
    }
    runner.set_clock(5f64.to_bits());
    let report = runner.run("print clock();", &arithmetic);
    assert!(matches!(&report.printed[0], Object::Num(b) if f64::from_bits(*b) == 5.0));
}
