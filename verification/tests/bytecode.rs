use rlox::chunk::{Chunk, ChunkError, ConstantPool, OpCode};
use rlox::compile::Compiler;
use rlox::number::NumOp;
use rlox::token::Precedence;
use rlox::value::Value;
use rlox::vm::{RuntimeErrorKind, VM};

fn kernel(op: NumOp) -> u64 {
    match op {
        NumOp::Literal(text) => text.parse::<f64>().unwrap().to_bits(),
        NumOp::Add(a, b) => (f64::from_bits(a) + f64::from_bits(b)).to_bits(),
        NumOp::Sub(a, b) => (f64::from_bits(a) - f64::from_bits(b)).to_bits(),
        NumOp::Mul(a, b) => (f64::from_bits(a) * f64::from_bits(b)).to_bits(),
        NumOp::Div(a, b) => (f64::from_bits(a) / f64::from_bits(b)).to_bits(),
    }
}

fn evaluate(source: &str) -> Result<Value, String> {
    let mut compiler = Compiler::new(source.to_string());
    if let Err(e) = compiler.compile(&kernel) {
        return Err(e.to_string());
    }
    let mut vm = VM::new(compiler.return_chunk());
    vm.run(&kernel).map_err(|e| e.kind.message().to_string())
}

fn number(v: Result<Value, String>) -> f64 {
    match v {
        Ok(Value::Number(bits)) => f64::from_bits(bits),
        other => panic!("not a number: {:?}", other),
    }
}

#[test]
fn test_order() {
    assert!(Precedence::Lowest < Precedence::Assign);
    assert!(Precedence::Or <= Precedence::Or);
    assert_eq!(Precedence::Term.rank() + 1, Precedence::Factor.rank());
    assert_eq!(Precedence::higher(&Precedence::Term), Precedence::Factor);
    assert_eq!(Precedence::Term.rank() + 2, Precedence::Unary.rank());
    assert_eq!(Precedence::higher(&Precedence::higher(&Precedence::Term)), Precedence::Unary)
}

#[test]
fn multiplication_binds_tighter_than_addition() {
    assert_eq!(number(evaluate("1 + 2 * 3")), 7.0);
    assert_eq!(number(evaluate("(1 + 2) * 3")), 9.0);
}

#[test]
fn subtraction_groups_from_the_left() {
    assert_eq!(number(evaluate("8 - 4 - 2")), 2.0);
    assert_eq!(number(evaluate("8 / 4 / 2")), 1.0);
}

#[test]
fn unary_minus_and_fractions() {
    assert_eq!(number(evaluate("-1.5 + 4")), 2.5);
    assert_eq!(number(evaluate("--3")), 3.0);
    assert_eq!(number(evaluate("1 / 4")), 0.25);
}

#[test]
fn compile_errors_carry_line_lexeme_and_message() {
    assert_eq!(evaluate("1 +").unwrap_err(), "[line 1] Error at : expect expression");
    assert_eq!(evaluate("(1 + 2").unwrap_err(), "[line 1] Error at : expect ')' after expression");
    assert_eq!(evaluate("1 2").unwrap_err(), "[line 1] Error at 2: expect end of expression");
    assert_eq!(evaluate("\n\n* 2").unwrap_err(), "[line 3] Error at *: expect expression");
}

#[test]
fn scanner_errors_are_passed_over_and_kept() {
    let mut compiler = Compiler::new("1 @ + 2".to_string());
    assert!(compiler.compile(&kernel).is_ok());
    let found: Vec<String> = compiler.diagnostics().iter().map(|e| e.to_string()).collect();
    assert_eq!(found, vec!["[line 1] Error at @: unexpected character".to_string()]);
    let mut vm = VM::new(compiler.return_chunk());
    assert_eq!(number(vm.run(&kernel).map_err(|e| e.kind.message().to_string())), 3.0);
}

#[test]
fn constant_pool_refuses_the_257th_constant() {
    let mut pool = ConstantPool::new();
    for i in 0..256u64 {
        assert_eq!(pool.add_constant(Value::Number(i)), Ok(i as u8));
    }
    assert_eq!(pool.add_constant(Value::Number(256)), Err(ChunkError::TooManyConstants));
    assert_eq!(pool.len(), 256);
    let mut chunk = Chunk::new();
    for i in 0..256u64 {
        assert_eq!(chunk.write_constant(Value::Number(i)), Ok(i as u8));
    }
    assert_eq!(chunk.write_constant(Value::Nil), Err(ChunkError::TooManyConstants));
    assert_eq!(ChunkError::TooManyConstants.message(), "too many constants in one chunk");
}

#[test]
fn compiling_more_than_256_literals_is_an_error() {
    let mut source = String::from("0");
    for _ in 0..256 {
        source.push_str(" + 1");
    }
    let got = evaluate(&source);
    assert_eq!(got.unwrap_err(), "[line 1] Error at 1: too many constants in one chunk");
}

fn run_chunk(code: &[OpCode], constants: Vec<Value>) -> Result<Value, RuntimeErrorKind> {
    let mut chunk = Chunk::new();
    for c in constants {
        chunk.write_constant(c).unwrap();
    }
    for (i, op) in code.iter().enumerate() {
        chunk.write_chunk(*op, i + 1);
    }
    VM::new(chunk).run(&kernel).map_err(|e| e.kind)
}

#[test]
fn add_concatenates_strings_and_rejects_mixed_operands() {
    let a = Value::Str("a".to_string());
    let b = Value::Str("b".to_string());
    let one = Value::Number(1f64.to_bits());
    let code = [OpCode::Constant(0), OpCode::Constant(1), OpCode::Add, OpCode::Return];
    match run_chunk(&code, vec![a.clone(), b.clone()]) {
        Ok(Value::Str(s)) => assert_eq!(s, "ab"),
        other => panic!("unexpected {:?}", other),
    }
    assert!(matches!(
        run_chunk(&code, vec![one.clone(), a.clone()]),
        Err(RuntimeErrorKind::OperandsMustBeNumbersOrStrings)
    ));
    assert!(matches!(
        run_chunk(&code, vec![a, one]),
        Err(RuntimeErrorKind::OperandsMustBeNumbersOrStrings)
    ));
}

#[test]
fn comparison_equality_and_not() {
    let one = Value::Number(1f64.to_bits());
    let two = Value::Number(2f64.to_bits());
    let less = [OpCode::Constant(0), OpCode::Constant(1), OpCode::Less, OpCode::Return];
    let greater = [OpCode::Constant(0), OpCode::Constant(1), OpCode::Greater, OpCode::Return];
    let equal = [OpCode::Constant(0), OpCode::Constant(1), OpCode::Equal, OpCode::Return];
    assert!(matches!(run_chunk(&less, vec![one.clone(), two.clone()]), Ok(Value::Boolean(true))));
    assert!(matches!(run_chunk(&greater, vec![one.clone(), two.clone()]), Ok(Value::Boolean(false))));
    assert!(matches!(run_chunk(&equal, vec![one.clone(), two.clone()]), Ok(Value::Boolean(false))));
    assert!(matches!(run_chunk(&equal, vec![one.clone(), one.clone()]), Ok(Value::Boolean(true))));
    assert!(matches!(
        run_chunk(&equal, vec![one.clone(), Value::Str("1".to_string())]),
        Ok(Value::Boolean(false))
    ));
    assert!(matches!(
        run_chunk(&less, vec![one.clone(), Value::Nil]),
        Err(RuntimeErrorKind::OperandsMustBeNumbers)
    ));
    assert!(matches!(run_chunk(&[OpCode::Nil, OpCode::Not, OpCode::Return], vec![]), Ok(Value::Boolean(true))));
    assert!(matches!(
        run_chunk(&[OpCode::Constant(0), OpCode::Not, OpCode::Return], vec![Value::Number(0)]),
        Ok(Value::Boolean(false))
    ));
    assert!(matches!(
        run_chunk(&[OpCode::True, OpCode::Neg, OpCode::Return], vec![]),
        Err(RuntimeErrorKind::OperandMustBeNumber)
    ));
}

#[test]
fn machine_faults_are_errors_not_crashes() {
    assert!(matches!(run_chunk(&[OpCode::Return], vec![]), Err(RuntimeErrorKind::StackUnderflow)));
    assert!(matches!(run_chunk(&[OpCode::Add, OpCode::Return], vec![]), Err(RuntimeErrorKind::StackUnderflow)));
    assert!(matches!(run_chunk(&[OpCode::Constant(3), OpCode::Return], vec![]), Err(RuntimeErrorKind::BadConstant)));
    assert!(matches!(run_chunk(&[OpCode::Nil], vec![]), Err(RuntimeErrorKind::MissingReturn)));
    let overflow = vec![OpCode::Nil; 257];
    assert!(matches!(run_chunk(&overflow, vec![]), Err(RuntimeErrorKind::StackOverflow)));
    let full = {
        let mut code = vec![OpCode::Nil; 256];
        code.push(OpCode::Return);
        code
    };
    assert!(matches!(run_chunk(&full, vec![]), Ok(Value::Nil)));
}

#[test]
fn runtime_error_names_the_line_and_empties_the_stack() {
    let mut chunk = Chunk::new();
    chunk.write_chunk(OpCode::Nil, 4);
    chunk.write_chunk(OpCode::True, 5);
    chunk.write_chunk(OpCode::Neg, 6);
    chunk.write_chunk(OpCode::Return, 7);
    let mut vm = VM::new(chunk);
    let e = vm.run(&kernel).unwrap_err();
    assert_eq!(e.line, 6);
    assert_eq!(e.kind, RuntimeErrorKind::OperandMustBeNumber);
    assert_eq!(e.kind.message(), "operand must be number");
    assert_eq!(vm.depth(), 0);
}

#[test]
fn test_compile() {
    let source = "(1 + 2) * 3 - 4 / -5".to_string();
    let mut compiler = Compiler::new(source);
    compiler.compile(&kernel).unwrap();
    let listing = compiler.return_chunk().disassembly();
    let names: Vec<&str> = listing.iter().map(|l| l.name).collect();
    assert_eq!(
        names,
        vec![
            "CONSTANT", "CONSTANT", "ADD", "CONSTANT", "MUL", "CONSTANT", "CONSTANT", "NEG", "DIV",
            "SUB", "RETURN"
        ]
    );
}

#[test]
fn test_scanner() {
    let source = "var answer = (4 + 2) * 7; // the answer\nprint answer >= 42;\n".to_string();
    let mut scanner = rlox::scanner::Scanner::new(source);
    let mut shown = Vec::new();
    loop {
        match scanner.scan_token() {
            Ok(t) => {
                shown.push(t.to_string(scanner.source()));
                if t.typ == rlox::token::TokenType::EOF {
                    break;
                }
            }
            Err(e) => shown.push(e.to_string()),
        }
    }
    assert_eq!(shown.len(), 17);
    assert_eq!(shown[0], "[VAR: 'var' | 1]");
    assert_eq!(shown[1], "[IDENTIFIER: 'answer' | 1]");
    assert_eq!(shown[14], "[NUMBER: '42' | 2]");
    assert_eq!(shown[16], "[EOF: '' | 3]");
}
