use wordvm::devices::DeviceArray;
use wordvm::machine::{step, Environment, StepFatal, StepReport};

fn env_with(words: &[(usize, i32)]) -> Environment {
    let mut env = Environment::default();
    for &(a, v) in words {
        env.write_word(a, v);
    }
    env
}

#[test]
fn halt_at_zero() {
    let mut env = Environment::default();
    let mut bus = DeviceArray::new();
    let r = step(&mut env, &mut bus);
    assert_eq!(r, Err(StepFatal::Halted));
    assert_eq!(env.iar, 0);
    assert!(env.poison);
}

#[test]
fn add_with_overflow() {
    let mut env = env_with(&[(0, 1), (1, 8), (2, 12), (3, 16), (12, 2147483647), (16, 1)]);
    let mut bus = DeviceArray::new();
    let r = step(&mut env, &mut bus);
    assert_eq!(r, Ok(StepReport { changed: Some(8), redraw: false }));
    assert_eq!(env.memory[8], -2147483648);
    assert_eq!(env.iar, 4);
    assert!(!env.poison);
}

#[test]
fn indirect_store() {
    let mut env = env_with(&[(0, 12), (1, 20), (2, 24), (3, 28), (20, 99), (24, 100), (28, 3)]);
    let mut bus = DeviceArray::new();
    let r = step(&mut env, &mut bus).unwrap();
    // the store goes to a2 + M[a3] = 24 + 3
    assert_eq!(env.memory[27], 99);
    assert_eq!(env.memory[103], 0);
    assert_eq!(env.iar, 4);
    assert_eq!(r.changed, Some(27));
}

#[test]
fn indirect_load() {
    let mut env = env_with(&[(0, 11), (1, 40), (2, 20), (3, 24), (24, 5), (25, 77)]);
    let mut bus = DeviceArray::new();
    let r = step(&mut env, &mut bus).unwrap();
    assert_eq!(env.memory[40], 77);
    assert_eq!(r.changed, Some(40));
    assert_eq!(env.iar, 4);
}

#[test]
fn branch_taken_blt() {
    let mut env = env_with(&[(0, 15), (1, 32), (2, 8), (3, 12), (8, 1), (12, 5)]);
    let mut bus = DeviceArray::new();
    let r = step(&mut env, &mut bus).unwrap();
    assert_eq!(env.iar, 32);
    assert_eq!(r, StepReport { changed: None, redraw: false });
}

#[test]
fn branch_not_taken_keeps_memory() {
    let mut env = env_with(&[(0, 13), (1, 32), (2, 8), (3, 12), (8, 1), (12, 5)]);
    let before = env.memory.clone();
    let mut bus = DeviceArray::new();
    step(&mut env, &mut bus).unwrap();
    assert_eq!(env.iar, 4);
    assert_eq!(env.memory, before);
}

#[test]
fn branch_ne_taken() {
    let mut env = env_with(&[(0, 14), (1, 48), (2, 8), (3, 12), (8, 1), (12, 5)]);
    let mut bus = DeviceArray::new();
    step(&mut env, &mut bus).unwrap();
    assert_eq!(env.iar, 48);
}

#[test]
fn call_and_return() {
    let mut env = env_with(&[(0, 16), (1, 40), (2, 100), (40, 17), (41, 100), (100, 12345)]);
    let mut bus = DeviceArray::new();
    let r = step(&mut env, &mut bus).unwrap();
    assert_eq!(env.iar, 40);
    assert_eq!(env.memory[100], 4);
    assert_eq!(r.changed, Some(100));
    step(&mut env, &mut bus).unwrap();
    assert_eq!(env.iar, 4);
}

#[test]
fn unmapped_device_read() {
    let mut env = env_with(&[(0, 5), (1, 0), (2, 30000), (3, 0)]);
    let mut bus = DeviceArray::new();
    let r = step(&mut env, &mut bus);
    assert_eq!(r, Err(StepFatal::InvalidIndex { index: 30000 }));
    assert!(env.poison);
    assert_eq!(env.iar, 0);
}

#[test]
fn unmapped_device_write() {
    let mut env = env_with(&[(0, 5), (1, 20000), (2, 8), (8, 3)]);
    let mut bus = DeviceArray::new();
    let r = step(&mut env, &mut bus);
    assert_eq!(r, Err(StepFatal::InvalidIndex { index: 20000 }));
}

#[test]
fn invalid_instruction() {
    let mut env = env_with(&[(0, 18), (1, 1), (2, 2), (3, 3), (9, 4)]);
    let before = env.memory.clone();
    let mut bus = DeviceArray::new();
    let r = step(&mut env, &mut bus);
    assert_eq!(r, Err(StepFatal::InvalidInstruction { instr: 18 }));
    assert_eq!(env.memory, before);
    assert_eq!(env.iar, 0);
    assert!(env.poison);
}

#[test]
fn negative_opcode_is_invalid() {
    let mut env = env_with(&[(0, -3)]);
    let mut bus = DeviceArray::new();
    assert_eq!(step(&mut env, &mut bus), Err(StepFatal::InvalidInstruction { instr: -3 }));
}

#[test]
fn invalid_iar() {
    let mut env = Environment::default();
    env.iar = 16381;
    let mut bus = DeviceArray::new();
    assert_eq!(step(&mut env, &mut bus), Err(StepFatal::InvalidIAR { iar: 16381 }));
    assert!(env.poison);
}

#[test]
fn last_quad_is_a_valid_iar() {
    let mut env = env_with(&[(16380, 5), (16381, 10), (16382, 11)]);
    env.iar = 16380;
    let mut bus = DeviceArray::new();
    step(&mut env, &mut bus).unwrap();
    assert_eq!(env.iar, 16384);
    assert_eq!(step(&mut env, &mut bus), Err(StepFatal::InvalidIAR { iar: 16384 }));
}

#[test]
fn division_by_zero() {
    let mut env = env_with(&[(0, 4), (1, 8), (2, 12), (3, 16), (12, 7)]);
    let mut bus = DeviceArray::new();
    assert_eq!(step(&mut env, &mut bus), Err(StepFatal::DivisionByZero));
    assert_eq!(env.memory[8], 0);
    assert!(env.poison);
}

#[test]
fn already_poisoned() {
    let mut env = Environment::default();
    let mut bus = DeviceArray::new();
    assert_eq!(step(&mut env, &mut bus), Err(StepFatal::Halted));
    for _ in 0..3 {
        assert_eq!(step(&mut env, &mut bus), Err(StepFatal::AlreadyPoisoned));
        assert_eq!(env.iar, 0);
        assert!(env.poison);
    }
    env.poison = false;
    assert_eq!(step(&mut env, &mut bus), Err(StepFatal::Halted));
}

#[test]
fn not_and_mov() {
    let mut env = env_with(&[(0, 8), (1, 20), (2, 24), (4, 5), (5, 21), (6, 24), (24, 0x0f0f)]);
    let mut bus = DeviceArray::new();
    step(&mut env, &mut bus).unwrap();
    assert_eq!(env.memory[20], !0x0f0f);
    step(&mut env, &mut bus).unwrap();
    assert_eq!(env.memory[21], 0x0f0f);
    assert_eq!(env.iar, 8);
}

#[test]
fn return_through_link() {
    let mut env = env_with(&[(0, 17), (1, 50), (50, 200)]);
    let mut bus = DeviceArray::new();
    let r = step(&mut env, &mut bus).unwrap();
    assert_eq!(env.iar, 200);
    assert_eq!(r.changed, None);
}
