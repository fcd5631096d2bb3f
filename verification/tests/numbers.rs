use rlox::custom_error::CompileError;
use rlox::number::{number_eq, number_is_nan, number_le, number_lt, number_neg};
use rlox::scanner::Scanner;
use rlox::text::{chars_of, push_decimal, string_of};
use rlox::token::{Token, TokenType};
use rlox::treewalk::token_type::Object;
use rlox::value::Value;

fn samples() -> Vec<f64> {
    vec![
        0.0,
        -0.0,
        1.0,
        -1.0,
        0.5,
        -0.5,
        2.0,
        1e300,
        -1e300,
        5e-324,
        -5e-324,
        f64::MIN_POSITIVE,
        f64::MAX,
        f64::MIN,
        f64::INFINITY,
        f64::NEG_INFINITY,
        f64::NAN,
        -f64::NAN,
        f64::from_bits(0x7ff0_0000_0000_0001),
        f64::from_bits(0xfff8_0000_0000_1234),
        123.456,
        -123.456,
    ]
}

#[test]
fn comparisons_on_bits_agree_with_the_numbers() {
    for a in samples() {
        assert_eq!(number_is_nan(a.to_bits()), a.is_nan(), "nan {}", a);
        assert_eq!(number_neg(a.to_bits()), (-a).to_bits(), "neg {}", a);
        for b in samples() {
            assert_eq!(number_eq(a.to_bits(), b.to_bits()), a == b, "{} == {}", a, b);
            assert_eq!(number_lt(a.to_bits(), b.to_bits()), a < b, "{} < {}", a, b);
            assert_eq!(number_le(a.to_bits(), b.to_bits()), a <= b, "{} <= {}", a, b);
        }
    }
}

#[test]
fn values_compare_by_kind_and_content() {
    let one = Value::Number(1f64.to_bits());
    assert!(one.equals(&Value::Number(1f64.to_bits())));
    assert!(!one.equals(&Value::Str("1".to_string())));
    assert!(Value::Nil.equals(&Value::Nil));
    assert!(!Value::Nil.equals(&Value::Boolean(false)));
    assert!(Value::Str("ab".to_string()).equals(&Value::Str("ab".to_string())));
    assert!(!Value::Str("ab".to_string()).equals(&Value::Str("ac".to_string())));
    assert!(Value::Number(0f64.to_bits()).equals(&Value::Number((-0f64).to_bits())));
    assert!(!Value::Number(f64::NAN.to_bits()).equals(&Value::Number(f64::NAN.to_bits())));
    assert!(Value::Nil.is_false());
    assert!(Value::Boolean(false).is_false());
    assert!(!Value::Boolean(true).is_false());
    assert!(!Value::Number(0).is_false());
    assert!(!Value::Str(String::new()).is_false());
    assert_eq!(one.as_number(), Some(1f64.to_bits()));
    assert_eq!(Value::Nil.as_number(), None);
    assert_eq!(Value::Boolean(true).as_bool(), Some(true));
    assert_eq!(one.as_bool(), None);
    assert_eq!(Value::Str("x".to_string()).as_string(), Some("x".to_string()));
    assert_eq!(one.as_string(), None);
    assert!(one.is_number() && !one.is_string());
    assert!(matches!(Value::default(), Value::Nil));
    assert!(matches!(one.duplicate(), Value::Number(b) if b == 1f64.to_bits()));
}

#[test]
fn objects_convert_and_negate() {
    assert_eq!(Object::Num(2.5f64.to_bits()).to_number(), 2.5f64.to_bits());
    assert_eq!(Object::Nil.to_number(), 0);
    assert!(matches!(Object::Num(2.5f64.to_bits()).neg(), Object::Num(b) if f64::from_bits(b) == -2.5));
    assert!(matches!(Object::Str("a".to_string()).neg(), Object::Str(s) if s == "a"));
    assert!(matches!(Object::Nil.not(), Object::Bool(true)));
    assert!(matches!(Object::Num(0).not(), Object::Bool(false)));
    assert!(Object::Num(1f64.to_bits()).less_than(&Object::Num(2f64.to_bits())));
    assert!(Object::Num(2f64.to_bits()).less_equal(&Object::Num(2f64.to_bits())));
    assert!(Object::Nil.less_than(&Object::Num(1f64.to_bits())));
}

#[test]
fn text_helpers() {
    let chars = chars_of("héllo");
    assert_eq!(chars, vec!['h', 'é', 'l', 'l', 'o']);
    assert_eq!(string_of(&chars, 1, 4), "éll");
    assert_eq!(string_of(&chars, 2, 2), "");
    for (n, text) in [(0usize, "0"), (7, "7"), (10, "10"), (1234567890, "1234567890")] {
        let mut s = String::from("n=");
        push_decimal(&mut s, n);
        assert_eq!(s, format!("n={}", text));
    }
}

#[test]
fn incremental_scanner_goes_on_after_an_error() {
    let mut scanner = Scanner::new("a @ \"s\" 12.5\n\"open".to_string());
    let t = scanner.scan_token().unwrap();
    assert_eq!((t.typ, t.start, t.end, t.line), (TokenType::IDENTIFIER, 0, 1, 1));
    assert_eq!(t.get_literal(scanner.source()), "a");
    let e = scanner.scan_token().unwrap_err();
    assert_eq!(e.to_string(), "[line 1] Error at @: unexpected character");
    let t = scanner.scan_token().unwrap();
    assert_eq!(t.typ, TokenType::STRING);
    assert_eq!(t.get_literal(scanner.source()), "s");
    assert_eq!(t.to_string(scanner.source()), "[STRING: 's' | 1]");
    let t = scanner.scan_token().unwrap();
    assert_eq!(t.typ, TokenType::NUMBER);
    assert_eq!(t.to_string(scanner.source()), "[NUMBER: '12.5' | 1]");
    let e = scanner.scan_token().unwrap_err();
    assert_eq!(e.to_string(), "[line 2] Error at \"open: unterminated string");
    for _ in 0..3 {
        let t = scanner.scan_token().unwrap();
        assert_eq!(t.typ, TokenType::EOF);
        assert_eq!(t.line, 2);
    }
    assert_eq!(scanner.offset(), 18);
}

#[test]
fn span_tokens_know_whether_they_fit() {
    let source = chars_of("\"ab\" c");
    let s = Token { typ: TokenType::STRING, start: 0, end: 4, line: 1 };
    assert!(s.is_within(&source));
    assert_eq!(s.get_literal(&source), "ab");
    assert!(!Token { typ: TokenType::STRING, start: 0, end: 1, line: 1 }.is_within(&source));
    assert!(!Token { typ: TokenType::IDENTIFIER, start: 5, end: 7, line: 1 }.is_within(&source));
    assert!(!Token { typ: TokenType::IDENTIFIER, start: 3, end: 2, line: 1 }.is_within(&source));
    assert_eq!(Token::default().typ, TokenType::EOF);
    assert_eq!(TokenType::default(), TokenType::EOF);
    assert_eq!(TokenType::GREATER_EQUAL.name(), "GREATER_EQUAL");
}

#[test]
fn compile_error_keeps_what_it_was_given() {
    let e = CompileError::new(12, "lit".to_string(), "msg".to_string());
    assert_eq!(e.line(), 12);
    assert_eq!(e.literal(), "lit");
    assert_eq!(e.msg(), "msg");
    assert_eq!(e.to_string(), "[line 12] Error at lit: msg");
}
