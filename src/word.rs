use vstd::prelude::*;

verus! {

/// 2 to the 32nd: the number of distinct words.
pub const WORD_RANGE: u64 = 0x1_0000_0000;

/// The word that `v` wraps to: `v` modulo 2^32, read as two's complement.
pub open spec fn wrap(v: int) -> i32 {
    let m = v % (WORD_RANGE as int);
    if m > i32::MAX {
        (m - WORD_RANGE as int) as i32
    } else {
        m as i32
    }
}

/// Clamps `v` into the range of a word.
pub open spec fn saturate(v: int) -> i32 {
    if v > i32::MAX {
        i32::MAX
    } else if v < i32::MIN {
        i32::MIN
    } else {
        v as i32
    }
}

pub open spec fn abs(v: int) -> nat {
    if v < 0 {
        (-v) as nat
    } else {
        v as nat
    }
}

/// Division rounding toward zero.
pub open spec fn trunc_div(x: int, y: int) -> int {
    if (x < 0) == (y < 0) {
        abs(x) as int / abs(y) as int
    } else {
        -(abs(x) as int / abs(y) as int)
    }
}

pub open spec fn word_add(x: i32, y: i32) -> i32 {
    wrap(x + y)
}

pub open spec fn word_sub(x: i32, y: i32) -> i32 {
    wrap(x - y)
}

pub open spec fn word_mul(x: i32, y: i32) -> i32 {
    saturate(x * y)
}

pub open spec fn word_div(x: i32, y: i32) -> i32 {
    wrap(trunc_div(x as int, y as int))
}

/// Left shift by the low five bits of `y`.
pub open spec fn word_shl(x: i32, y: i32) -> i32 {
    x << ((y as u32) % 32u32)
}

/// Arithmetic right shift by the low five bits of `y`.
pub open spec fn word_shr(x: i32, y: i32) -> i32 {
    x >> ((y as u32) % 32u32)
}

pub open spec fn word_not(x: i32) -> i32 {
    !x
}

/// Opcodes that combine two operands into one result.
pub open spec fn is_binary(op: i32) -> bool {
    op == 1 || op == 2 || op == 3 || op == 4 || op == 6 || op == 7 || op == 9 || op == 10
}

/// What a binary opcode computes; division by zero is the one fault.
pub open spec fn binary_spec(op: i32, x: i32, y: i32) -> Result<i32, crate::machine::StepFatal> {
    if op == 1 {
        Ok(word_add(x, y))
    } else if op == 2 {
        Ok(word_sub(x, y))
    } else if op == 3 {
        Ok(word_mul(x, y))
    } else if op == 4 {
        if y == 0 {
            Err(crate::machine::StepFatal::DivisionByZero)
        } else {
            Ok(word_div(x, y))
        }
    } else if op == 6 {
        Ok(x & y)
    } else if op == 7 {
        Ok(x | y)
    } else if op == 9 {
        Ok(word_shl(x, y))
    } else {
        Ok(word_shr(x, y))
    }
}

proof fn lemma_wrap_in_range(v: int)
    requires
        i32::MIN <= v <= i32::MAX,
    ensures
        wrap(v) == v,
{
}

proof fn lemma_wrap_shift(v: int)
    requires
        i32::MIN <= v - WORD_RANGE <= i32::MAX || i32::MIN <= v + WORD_RANGE <= i32::MAX,
    ensures
        i32::MIN <= v - WORD_RANGE <= i32::MAX ==> wrap(v) == v - WORD_RANGE,
        i32::MIN <= v + WORD_RANGE <= i32::MAX ==> wrap(v) == v + WORD_RANGE,
{
}

pub fn add_words(x: i32, y: i32) -> (r: i32)
    ensures
        r == word_add(x, y),
{
    proof {
        if x + y > i32::MAX || x + y < i32::MIN {
            lemma_wrap_shift(x + y);
        } else {
            lemma_wrap_in_range(x + y);
        }
    }
    x.wrapping_add(y)
}

pub fn sub_words(x: i32, y: i32) -> (r: i32)
    ensures
        r == word_sub(x, y),
{
    proof {
        if x - y > i32::MAX || x - y < i32::MIN {
            lemma_wrap_shift(x - y);
        } else {
            lemma_wrap_in_range(x - y);
        }
    }
    x.wrapping_sub(y)
}

pub fn mul_words(x: i32, y: i32) -> (r: i32)
    ensures
        r == word_mul(x, y),
{
    assert(-0x4000_0000_0000_0000 <= (x as int) * (y as int) <= 0x4000_0000_0000_0000) by (nonlinear_arith)
        requires
            i32::MIN <= x <= i32::MAX,
            i32::MIN <= y <= i32::MAX,
    ;
    let p: i64 = (x as i64) * (y as i64);
    if p > i32::MAX as i64 {
        i32::MAX
    } else if p < i32::MIN as i64 {
        i32::MIN
    } else {
        p as i32
    }
}

pub fn div_words(x: i32, y: i32) -> (r: i32)
    requires
        y != 0,
    ensures
        r == word_div(x, y),
{
    if x == i32::MIN && y == -1 {
        proof {
            assert(abs(x as int) == 0x8000_0000 && abs(y as int) == 1);
            assert((0x8000_0000 as int) / 1 == 0x8000_0000) by (nonlinear_arith);
            assert(trunc_div(x as int, y as int) == 0x8000_0000);
            lemma_wrap_shift(0x8000_0000);
        }
        i32::MIN
    } else {
        proof {
            let ax = abs(x as int) as int;
            let ay = abs(y as int) as int;
            assert(0 <= ax / ay <= ax) by (nonlinear_arith)
                requires
                    ax >= 0,
                    ay >= 1,
            ;
            if ax == 0x8000_0000 && (x < 0) == (y < 0) {
                assert(ax / ay <= 0x4000_0000) by (nonlinear_arith)
                    requires
                        ax == 0x8000_0000,
                        ay >= 2,
                ;
            }
            lemma_wrap_in_range(trunc_div(x as int, y as int));
        }
        match x.checked_div(y) {
            Some(q) => q,
            None => 0,
        }
    }
}

pub fn shl_words(x: i32, y: i32) -> (r: i32)
    ensures
        r == word_shl(x, y),
{
    x.wrapping_shl(y as u32)
}

pub fn shr_words(x: i32, y: i32) -> (r: i32)
    ensures
        r == word_shr(x, y),
{
    x.wrapping_shr(y as u32)
}

pub fn not_word(x: i32) -> (r: i32)
    ensures
        r == word_not(x),
{
    !x
}

/// Applies a binary opcode to two operand values.
pub fn alu(op: i32, x: i32, y: i32) -> (r: Result<i32, crate::machine::StepFatal>)
    requires
        is_binary(op),
    ensures
        r == binary_spec(op, x, y),
{
    if op == 1 {
        Ok(add_words(x, y))
    } else if op == 2 {
        Ok(sub_words(x, y))
    } else if op == 3 {
        Ok(mul_words(x, y))
    } else if op == 4 {
        if y == 0 {
            Err(crate::machine::StepFatal::DivisionByZero)
        } else {
            Ok(div_words(x, y))
        }
    } else if op == 6 {
        Ok(x & y)
    } else if op == 7 {
        Ok(x | y)
    } else if op == 9 {
        Ok(shl_words(x, y))
    } else {
        Ok(shr_words(x, y))
    }
}


/// Addition is modular: the sum agrees with the mathematical sum modulo
/// 2^32, and equals it whenever that fits in a word.
pub proof fn lemma_add_modular(x: i32, y: i32)
    ensures
        (word_add(x, y) as int) % (WORD_RANGE as int) == (x + y) % (WORD_RANGE as int),
        i32::MIN <= x + y <= i32::MAX ==> word_add(x, y) == x + y,
{
    let v = x + y;
    let m = v % (WORD_RANGE as int);
    if m > i32::MAX {
        assert((m - WORD_RANGE as int) % (WORD_RANGE as int) == m % (WORD_RANGE as int));
    }
}

/// Multiplication saturates: a product too large for a word gives the
/// largest word, one too small gives the smallest.
pub proof fn lemma_mul_saturates(x: i32, y: i32)
    ensures
        x * y > i32::MAX ==> word_mul(x, y) == i32::MAX,
        x * y < i32::MIN ==> word_mul(x, y) == i32::MIN,
        i32::MIN <= x * y <= i32::MAX ==> word_mul(x, y) == x * y,
{
}

/// Division rounds toward zero and wraps instead of trapping: its result is
/// the truncated quotient modulo 2^32.
pub proof fn lemma_div_wraps(x: i32, y: i32)
    requires
        y != 0,
    ensures
        (word_div(x, y) as int) % (WORD_RANGE as int) == trunc_div(x as int, y as int) % (WORD_RANGE as int),
{
    let v = trunc_div(x as int, y as int);
    let m = v % (WORD_RANGE as int);
    if m > i32::MAX {
        assert((m - WORD_RANGE as int) % (WORD_RANGE as int) == m % (WORD_RANGE as int));
    }
}

/// Right shift is arithmetic: it keeps the sign of the shifted word.
pub proof fn lemma_shr_keeps_sign(x: i32, y: i32)
    ensures
        (word_shr(x, y) < 0) == (x < 0),
{
    let s = (y as u32) % 32u32;
    assert(s < 32);
    assert(((x >> s) < 0) == (x < 0)) by (bit_vector)
        requires
            s < 32,
    ;
}

/// Not flips every bit of the word.
pub proof fn lemma_not_complements(x: i32, i: u32)
    requires
        i < 32,
    ensures
        (word_not(x) >> i) & 1 != (x >> i) & 1,
{
    assert(((!x) >> i) & 1 != (x >> i) & 1) by (bit_vector)
        requires
            i < 32,
    ;
}
} // verus!
