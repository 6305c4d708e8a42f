use wordvm::machine::StepFatal;
use wordvm::word::{add_words, alu, div_words, mul_words, not_word, shl_words, shr_words, sub_words};

#[test]
fn add_wraps_at_max() {
    assert_eq!(add_words(i32::MAX, 1), i32::MIN);
    assert_eq!(add_words(-5, 3), -2);
    assert_eq!(alu(1, i32::MAX, 1), Ok(i32::MIN));
}

#[test]
fn sub_wraps_at_min() {
    assert_eq!(sub_words(i32::MIN, 1), i32::MAX);
    assert_eq!(alu(2, 10, 3), Ok(7));
}

#[test]
fn mul_saturates() {
    assert_eq!(mul_words(i32::MAX, 2), i32::MAX);
    assert_eq!(mul_words(i32::MIN, 2), i32::MIN);
    assert_eq!(mul_words(-7, 6), -42);
    assert_eq!(alu(3, i32::MIN, -1), Ok(i32::MAX));
}

#[test]
fn div_min_by_minus_one_wraps() {
    assert_eq!(div_words(i32::MIN, -1), i32::MIN);
    assert_eq!(alu(4, i32::MIN, -1), Ok(i32::MIN));
}

#[test]
fn div_truncates_toward_zero() {
    assert_eq!(div_words(-7, 2), -3);
    assert_eq!(div_words(7, -2), -3);
    assert_eq!(div_words(-7, -2), 3);
    assert_eq!(div_words(i32::MIN, 1), i32::MIN);
}

#[test]
fn div_by_zero_faults() {
    assert_eq!(alu(4, 5, 0), Err(StepFatal::DivisionByZero));
}

#[test]
fn shr_is_arithmetic() {
    assert_eq!(shr_words(-16, 2), -4);
    assert_eq!(shr_words(-1, 31), -1);
    assert_eq!(shr_words(64, 3), 8);
    assert_eq!(alu(10, i32::MIN, 4), Ok(i32::MIN >> 4));
}

#[test]
fn shift_amount_uses_low_five_bits() {
    assert_eq!(shl_words(1, 33), 2);
    assert_eq!(shl_words(1, 31), i32::MIN);
    assert_eq!(shr_words(256, 36), 16);
    assert_eq!(alu(9, 3, 4), Ok(48));
}

#[test]
fn not_is_complement() {
    assert_eq!(not_word(0), -1);
    assert_eq!(not_word(0x0f0f_0f0f), 0xf0f0_f0f0u32 as i32);
    assert_eq!(not_word(i32::MIN), i32::MAX);
}

#[test]
fn and_or() {
    assert_eq!(alu(6, 0b1100, 0b1010), Ok(0b1000));
    assert_eq!(alu(7, 0b1100, 0b1010), Ok(0b1110));
}
