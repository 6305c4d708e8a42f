use wordvm::image::ParseError;
use wordvm::machine::Environment;

#[test]
fn parse_places_values_in_order() {
    let env = Environment::parse(b"0: 5;\n1: -7;\n  2 :   12;").unwrap();
    assert_eq!(env.memory[0], 5);
    assert_eq!(env.memory[1], -7);
    assert_eq!(env.memory[2], 12);
    assert_eq!(env.memory[3], 0);
    assert_eq!(env.iar, 0);
    assert!(!env.poison);
}

#[test]
fn parse_ignores_declared_address() {
    let env = Environment::parse(b"100: 3;\n7: 4;").unwrap();
    assert_eq!(env.memory[0], 3);
    assert_eq!(env.memory[1], 4);
    assert_eq!(env.memory[7], 0);
    assert_eq!(env.memory[100], 0);
}

#[test]
fn parse_skips_other_text() {
    let env = Environment::parse(b"WIDTH=32; -- 0: 9; junk x: 1; 1: +2; 3:4;tail").unwrap();
    assert_eq!(env.memory[0], 9);
    assert_eq!(env.memory[1], 4);
    assert_eq!(env.memory[2], 0);
}

#[test]
fn parse_empty_text() {
    let env = Environment::parse(b"").unwrap();
    assert!(env.memory.iter().all(|w| *w == 0));
}

#[test]
fn parse_extreme_values() {
    let env = Environment::parse(b"0: -2147483648;\n1: 2147483647;\n2: 0007;").unwrap();
    assert_eq!(env.memory[0], i32::MIN);
    assert_eq!(env.memory[1], i32::MAX);
    assert_eq!(env.memory[2], 7);
}

#[test]
fn parse_value_too_large() {
    assert_eq!(Environment::parse(b"0: 2147483648;").err(), Some(ParseError::BadNumber));
    assert_eq!(Environment::parse(b"0: -2147483649;").err(), Some(ParseError::BadNumber));
    assert_eq!(Environment::parse(b"0: 99999999999999999999999;").err(), Some(ParseError::BadNumber));
}

#[test]
fn parse_too_many_words() {
    let mut text = String::new();
    for i in 0..16385 {
        text.push_str(&format!("{}: 1;\n", i));
    }
    assert_eq!(Environment::parse(text.as_bytes()).err(), Some(ParseError::TooManyWords));
    let full: String = text.lines().take(16384).map(|l| format!("{}\n", l)).collect();
    let env = Environment::parse(full.as_bytes()).unwrap();
    assert_eq!(env.memory[16383], 1);
}

#[test]
fn emit_writes_one_line_per_word() {
    let mut env = Environment::default();
    env.write_word(0, -12);
    env.write_word(1, 305);
    let text = String::from_utf8(env.emit()).unwrap();
    assert!(text.starts_with("0: -12;\n1: 305;\n2: 0;\n"));
    assert!(text.ends_with("16383: 0;\n"));
    assert_eq!(text.lines().count(), 16384);
}

#[test]
fn emit_then_parse_round_trip() {
    let mut env = Environment::default();
    env.write_word(0, i32::MIN);
    env.write_word(5, i32::MAX);
    env.write_word(9, -1);
    env.write_word(16383, 42);
    let back = Environment::parse(&env.emit()).unwrap();
    assert_eq!(back.memory, env.memory);
}
