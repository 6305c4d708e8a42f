use vstd::prelude::*;

use crate::machine::{Environment, MEMORY_SIZE};

verus! {

/// Why a program image could not be read.
#[derive(Debug, Clone, Copy, PartialEq, Eq, Structural)]
pub enum ParseError {
    /// More words than local memory holds.
    TooManyWords,
    /// A value that does not fit in a word.
    BadNumber,
}

/// Whitespace in a program image: the ASCII space, tab, line feed,
/// vertical tab, form feed and carriage return. Other Unicode spaces are
/// not whitespace here.
pub open spec fn is_ws(b: u8) -> bool {
    b == 0x20 || (0x09 <= b <= 0x0d)
}

/// Digits in a program image: ASCII `0` to `9` only.
pub open spec fn is_digit(b: u8) -> bool {
    0x30 <= b <= 0x39
}

/// Length of the run of whitespace that `s` starts with.
pub open spec fn ws_len(s: Seq<u8>) -> nat
    decreases s.len(),
{
    if s.len() > 0 && is_ws(s[0]) {
        1 + ws_len(s.drop_first())
    } else {
        0
    }
}

/// Length of the run of digits that `s` starts with.
pub open spec fn digits_len(s: Seq<u8>) -> nat
    decreases s.len(),
{
    if s.len() > 0 && is_digit(s[0]) {
        1 + digits_len(s.drop_first())
    } else {
        0
    }
}

/// An entry `ws* digits ws* ':' ws* '-'? digits ';'` at the start of `s`:
/// its end, and where the signed value in it starts and ends.
pub open spec fn entry_at(s: Seq<u8>) -> Option<(int, int, int)> {
    let i = ws_len(s) as int;
    let j = i + digits_len(s.skip(i));
    let k = j + ws_len(s.skip(j));
    let l = k + 1 + ws_len(s.skip(k + 1));
    let m = if l < s.len() && s[l] == 0x2d { l + 1 } else { l };
    let n = m + digits_len(s.skip(m));
    if j > i && k < s.len() && s[k] == 0x3a && n > m && n < s.len() && s[n] == 0x3b {
        Some((n + 1, l, n))
    } else {
        None
    }
}

/// The values of the entries of `s`, found leftmost first and without
/// overlap; whatever lies between entries is skipped.
pub open spec fn captures(s: Seq<u8>) -> Seq<Seq<u8>>
    decreases s.len(),
{
    if s.len() == 0 {
        seq![]
    } else {
        match entry_at(s) {
            // an entry always ends past its start, so only the first arm is taken
            Some((e, cs, ce)) => if e >= 1 {
                seq![s.subrange(cs, ce)] + captures(s.skip(e))
            } else {
                seq![]
            },
            None => captures(s.skip(1)),
        }
    }
}

/// The number that a run of decimal digits spells.
pub open spec fn digits_value(d: Seq<u8>) -> nat
    decreases d.len(),
{
    if d.len() == 0 {
        0
    } else {
        digits_value(d.drop_last()) * 10 + (d.last() - 0x30) as nat
    }
}

/// The number that a captured value spells, with its sign.
pub open spec fn capture_value(c: Seq<u8>) -> int {
    if c.len() > 0 && c[0] == 0x2d {
        -digits_value(c.drop_first())
    } else {
        digits_value(c) as int
    }
}

pub open spec fn fits(c: Seq<u8>) -> bool {
    i32::MIN <= capture_value(c) <= i32::MAX
}

/// The memory that a program image describes: the i-th value goes to
/// word i, whatever address its entry declares; the rest is zero.
pub open spec fn parse_spec(text: Seq<u8>) -> Result<Seq<i32>, ParseError> {
    let caps = captures(text);
    if exists|i: int| 0 <= i < caps.len() && i <= MEMORY_SIZE && !fits(#[trigger] caps[i]) {
        Err(ParseError::BadNumber)
    } else if caps.len() > MEMORY_SIZE {
        Err(ParseError::TooManyWords)
    } else {
        Ok(Seq::new(MEMORY_SIZE as nat, |i: int| if i < caps.len() { capture_value(caps[i]) as i32 } else { 0i32 }))
    }
}

proof fn lemma_ws_step(s: Seq<u8>, i: int)
    requires
        0 <= i < s.len(),
    ensures
        is_ws(s[i]) ==> ws_len(s.skip(i)) == 1 + ws_len(s.skip(i + 1)),
        !is_ws(s[i]) ==> ws_len(s.skip(i)) == 0,
{
    assert(s.skip(i).drop_first() =~= s.skip(i + 1));
}

proof fn lemma_digits_step(s: Seq<u8>, i: int)
    requires
        0 <= i < s.len(),
    ensures
        is_digit(s[i]) ==> digits_len(s.skip(i)) == 1 + digits_len(s.skip(i + 1)),
        !is_digit(s[i]) ==> digits_len(s.skip(i)) == 0,
{
    assert(s.skip(i).drop_first() =~= s.skip(i + 1));
}

fn skip_ws(t: &[u8], p: usize) -> (r: usize)
    requires
        p <= t@.len(),
    ensures
        r == p + ws_len(t@.skip(p as int)),
        r <= t@.len(),
{
    let mut i = p;
    while i < t.len() && (t[i] == 0x20 || (0x09 <= t[i] && t[i] <= 0x0d))
        invariant
            p <= i <= t@.len(),
            p + ws_len(t@.skip(p as int)) == i + ws_len(t@.skip(i as int)),
        decreases t@.len() - i,
    {
        proof {
            lemma_ws_step(t@, i as int);
        }
        i = i + 1;
    }
    proof {
        if i < t@.len() {
            lemma_ws_step(t@, i as int);
        }
    }
    i
}

fn skip_digits(t: &[u8], p: usize) -> (r: usize)
    requires
        p <= t@.len(),
    ensures
        r == p + digits_len(t@.skip(p as int)),
        r <= t@.len(),
        forall|k: int| p <= k < r ==> is_digit(#[trigger] t@[k]),
{
    let mut i = p;
    while i < t.len() && 0x30 <= t[i] && t[i] <= 0x39
        invariant
            p <= i <= t@.len(),
            p + digits_len(t@.skip(p as int)) == i + digits_len(t@.skip(i as int)),
            forall|k: int| p <= k < i ==> is_digit(#[trigger] t@[k]),
        decreases t@.len() - i,
    {
        proof {
            lemma_digits_step(t@, i as int);
        }
        i = i + 1;
    }
    proof {
        if i < t@.len() {
            lemma_digits_step(t@, i as int);
        }
    }
    i
}

proof fn lemma_skip_skip(s: Seq<u8>, p: int, k: int)
    requires
        0 <= p,
        0 <= k,
        p + k <= s.len(),
    ensures
        s.skip(p).skip(k) == s.skip(p + k),
{
    assert(s.skip(p).skip(k) =~= s.skip(p + k));
}

/// The entry at position `p` of `t`, in positions of `t`.
fn match_entry(t: &[u8], p: usize) -> (r: Option<(usize, usize, usize)>)
    requires
        p <= t@.len(),
    ensures
        match entry_at(t@.skip(p as int)) {
            Some((e, cs, ce)) => r is Some && r->Some_0.0 == p + e && r->Some_0.1 == p + cs && r->Some_0.2 == p + ce
                && p + e <= t@.len(),
            None => r.is_none(),
        },
        r is Some ==> r->Some_0.1 < r->Some_0.2,
        r is Some && t@[r->Some_0.1 as int] == 0x2d ==> r->Some_0.1 + 1 < r->Some_0.2,
        r is Some ==> forall|k: int| r->Some_0.1 <= k < r->Some_0.2
            ==> is_digit(#[trigger] t@[k]) || (k == r->Some_0.1 && t@[k] == 0x2d),
{
    let ghost s = t@.skip(p as int);
    let i = skip_ws(t, p);
    let j = skip_digits(t, i);
    let k = skip_ws(t, j);
    proof {
        lemma_skip_skip(t@, p as int, i - p);
        lemma_skip_skip(t@, p as int, j - p);
        lemma_skip_skip(t@, p as int, k - p);
    }
    if j == i || k >= t.len() || t[k] != 0x3a {
        return None;
    }
    let l = skip_ws(t, k + 1);
    let m = if l < t.len() && t[l] == 0x2d { l + 1 } else { l };
    let n = skip_digits(t, m);
    proof {
        lemma_skip_skip(t@, p as int, k + 1 - p);
        lemma_skip_skip(t@, p as int, m - p);
    }
    if n == m || n >= t.len() || t[n] != 0x3b {
        return None;
    }
    Some((n + 1, l, n))
}

proof fn lemma_digits_value_grows(d: Seq<u8>, k: int)
    requires
        0 <= k <= d.len(),
    ensures
        digits_value(d.subrange(0, k)) <= digits_value(d),
    decreases d.len(),
{
    if k < d.len() {
        assert(d.drop_last() =~= d.subrange(0, d.len() - 1));
        lemma_digits_value_grows(d.drop_last(), k);
        assert(d.drop_last().subrange(0, k) =~= d.subrange(0, k));
    } else {
        assert(d.subrange(0, k) =~= d);
    }
}

/// The word that the value in `t[cs..ce]` spells; `None` where it does not
/// fit in one.
fn capture_word(t: &[u8], cs: usize, ce: usize) -> (r: Option<i32>)
    requires
        cs < ce <= t@.len(),
        t@[cs as int] == 0x2d ==> cs + 1 < ce,
        forall|k: int| cs <= k < ce ==> is_digit(#[trigger] t@[k]) || (k == cs && t@[k] == 0x2d),
    ensures
        fits(t@.subrange(cs as int, ce as int)) ==> r == Some(capture_value(t@.subrange(cs as int, ce as int)) as i32),
        !fits(t@.subrange(cs as int, ce as int)) ==> r.is_none(),
{
    let ghost c = t@.subrange(cs as int, ce as int);
    let negative = t[cs] == 0x2d;
    let start = if negative { cs + 1 } else { cs };
    let ghost d = t@.subrange(start as int, ce as int);
    proof {
        if negative {
            assert(c.drop_first() =~= d);
        } else {
            assert(c =~= d);
        }
    }
    let mut acc: u64 = 0;
    let mut k = start;
    while k < ce
        invariant
            start <= k <= ce,
            cs < ce <= t@.len(),
            c == t@.subrange(cs as int, ce as int),
            negative == (t@[cs as int] == 0x2d),
            negative ==> c.drop_first() == d,
            !negative ==> c == d,
            d == t@.subrange(start as int, ce as int),
            forall|q: int| start <= q < ce ==> is_digit(#[trigger] t@[q]),
            acc == digits_value(t@.subrange(start as int, k as int)),
            acc <= 0x8000_0000,
        decreases ce - k,
    {
        let digit = (t[k] - 0x30) as u64;
        proof {
            let sub = t@.subrange(start as int, k + 1);
            assert(sub.drop_last() =~= t@.subrange(start as int, k as int));
            assert(sub.last() == t@[k as int]);
            assert(digits_value(sub) == acc * 10 + digit);
        }
        acc = acc * 10 + digit;
        k = k + 1;
        if acc > 0x8000_0000 {
            proof {
                assert(d.subrange(0, k - start) =~= t@.subrange(start as int, k as int));
                lemma_digits_value_grows(d, k - start);
                assert(digits_value(d) > 0x8000_0000);
                assert(c[0] == t@[cs as int]);
            }
            return None;
        }
    }
    assert(t@.subrange(start as int, k as int) =~= d);
    if negative {
        Some((0 - (acc as i64)) as i32)
    } else if acc <= 0x7fff_ffff {
        Some(acc as i32)
    } else {
        None
    }
}

impl Environment {
    /// Reads a program image: each entry `addr: value;` puts its value in
    /// the next word, from word 0 on; the declared address is not used.
    /// Whitespace and digits are ASCII ones (see `is_ws`, `is_digit`).
    pub fn parse(text: &[u8]) -> (r: Result<Environment, ParseError>)
        ensures
            match parse_spec(text@) {
                Ok(mem) => r is Ok && r->Ok_0.mem() == mem && r->Ok_0.iar == 0 && !r->Ok_0.poison,
                Err(e) => r == Err::<Environment, ParseError>(e),
            },
    {
        let mut env = Environment::default();
        let mut p: usize = 0;
        let mut index: usize = 0;
        let ghost mut done: Seq<Seq<u8>> = seq![];
        proof {
            assert(text@.skip(0) =~= text@);
        }
        while p < text.len()
            invariant
                p <= text@.len(),
                captures(text@) == done + captures(text@.skip(p as int)),
                index == done.len(),
                index <= MEMORY_SIZE,
                forall|i: int| 0 <= i < index ==> fits(#[trigger] done[i]),
                forall|i: int| 0 <= i < index ==> env.mem()[i] == capture_value(#[trigger] done[i]) as i32,
                forall|i: int| index <= i < MEMORY_SIZE ==> #[trigger] env.mem()[i] == 0,
                env.iar == 0,
                !env.poison,
            decreases text@.len() - p,
        {
            let ghost rest = text@.skip(p as int);
            match match_entry(text, p) {
                Some((e, cs, ce)) => {
                    let ghost cap = text@.subrange(cs as int, ce as int);
                    proof {
                        assert(rest.skip(e - p) =~= text@.skip(e as int));
                        assert(rest.subrange(cs - p, ce - p) =~= cap);
                        assert(captures(rest) == seq![cap] + captures(text@.skip(e as int)));
                        assert(captures(text@) == done.push(cap) + captures(text@.skip(e as int))) by {
                            assert(done + (seq![cap] + captures(text@.skip(e as int))) =~= done.push(cap) + captures(text@.skip(e as int)));
                        }
                    }
                    let value = capture_word(text, cs, ce);
                    match value {
                        None => {
                            proof {
                                assert(captures(text@)[index as int] == cap);
                            }
                            return Err(ParseError::BadNumber);
                        },
                        Some(v) => {
                            if index >= MEMORY_SIZE {
                                proof {
                                    assert(captures(text@)[index as int] == cap);
                                    assert(captures(text@).len() > MEMORY_SIZE);
                                }
                                return Err(ParseError::TooManyWords);
                            }
                            env.write_word(index, v);
                            index = index + 1;
                            proof {
                                done = done.push(cap);
                            }
                        },
                    }
                    p = e;
                },
                None => {
                    proof {
                        assert(rest.skip(1) =~= text@.skip(p + 1));
                    }
                    p = p + 1;
                },
            }
        }
        proof {
            assert(text@.skip(p as int) =~= seq![]);
            assert(captures(text@) =~= done);
            assert(env.mem() =~= Seq::new(MEMORY_SIZE as nat, |i: int| if i < done.len() { capture_value(done[i]) as i32 } else { 0i32 }));
        }
        Ok(env)
    }
}


/// The decimal digits of `n`, most significant first.
pub open spec fn decimal(n: nat) -> Seq<u8>
    decreases n,
{
    if n < 10 {
        seq![(0x30 + n) as u8]
    } else {
        decimal(n / 10).push((0x30 + n % 10) as u8)
    }
}

/// `v` in decimal, with a leading minus sign when negative.
pub open spec fn signed_decimal(v: int) -> Seq<u8> {
    if v < 0 {
        seq![0x2du8] + decimal((-v) as nat)
    } else {
        decimal(v as nat)
    }
}

/// The entry `i: v;` for word `i`.
pub open spec fn entry_text(i: nat, v: i32) -> Seq<u8> {
    decimal(i) + seq![0x3au8, 0x20u8] + signed_decimal(v as int) + seq![0x3bu8]
}

/// The entries of the words from `i` on, one per line.
pub open spec fn image_from(mem: Seq<i32>, i: nat) -> Seq<u8>
    decreases mem.len() - i,
{
    if i >= mem.len() {
        seq![]
    } else {
        entry_text(i, mem[i as int]) + seq![0x0au8] + image_from(mem, i + 1)
    }
}

/// A memory image written out, one `i: v;` line per word.
pub open spec fn image_text(mem: Seq<i32>) -> Seq<u8> {
    image_from(mem, 0)
}

fn push_decimal(out: &mut Vec<u8>, n: u32)
    ensures
        final(out)@ == old(out)@ + decimal(n as nat),
    decreases n,
{
    if n >= 10 {
        push_decimal(out, n / 10);
    }
    out.push(0x30 + (n % 10) as u8);
    proof {
        if n < 10 {
            assert(final(out)@ =~= old(out)@ + decimal(n as nat));
        } else {
            assert(final(out)@ =~= old(out)@ + decimal(n as nat));
        }
    }
}

impl Environment {
    /// Writes memory out as a program image, one `i: v;` line per word.
    pub fn emit(&self) -> (r: Vec<u8>)
        ensures
            r@ == image_text(self.mem()),
    {
        let mut out: Vec<u8> = Vec::new();
        let mut i: usize = 0;
        while i < MEMORY_SIZE
            invariant
                i <= MEMORY_SIZE,
                self.mem().len() == MEMORY_SIZE,
                out@ + image_from(self.mem(), i as nat) == image_text(self.mem()),
            decreases MEMORY_SIZE - i,
        {
            let ghost before = out@;
            let v = self.memory[i];
            push_decimal(&mut out, i as u32);
            out.push(0x3a);
            out.push(0x20);
            if v < 0 {
                out.push(0x2d);
                push_decimal(&mut out, (0 - (v as i64)) as u32);
            } else {
                push_decimal(&mut out, v as u32);
            }
            out.push(0x3b);
            out.push(0x0a);
            proof {
                assert(out@ =~= before + (entry_text(i as nat, v) + seq![0x0au8]));
                assert(image_from(self.mem(), i as nat) == entry_text(i as nat, v) + seq![0x0au8] + image_from(self.mem(), (i + 1) as nat));
                assert(out@ + image_from(self.mem(), (i + 1) as nat) =~= before + image_from(self.mem(), i as nat));
            }
            i = i + 1;
        }
        proof {
            assert(image_from(self.mem(), i as nat) == Seq::<u8>::empty());
            assert(out@ =~= image_text(self.mem()));
        }
        out
    }
}

proof fn lemma_digits_run(t: Seq<u8>, a: int, d: nat)
    requires
        0 <= a,
        a + d <= t.len(),
        forall|q: int| a <= q < a + d ==> is_digit(#[trigger] t[q]),
        a + d == t.len() || !is_digit(t[a + d]),
    ensures
        digits_len(t.skip(a)) == d,
    decreases d,
{
    if d == 0 {
        if a < t.len() {
            lemma_digits_step(t, a);
        } else {
            assert(t.skip(a).len() == 0);
        }
    } else {
        lemma_digits_step(t, a);
        lemma_digits_run(t, a + 1, (d - 1) as nat);
    }
}

proof fn lemma_ws_run(t: Seq<u8>, a: int, d: nat)
    requires
        0 <= a,
        a + d <= t.len(),
        forall|q: int| a <= q < a + d ==> is_ws(#[trigger] t[q]),
        a + d == t.len() || !is_ws(t[a + d]),
    ensures
        ws_len(t.skip(a)) == d,
    decreases d,
{
    if d == 0 {
        if a < t.len() {
            lemma_ws_step(t, a);
        } else {
            assert(t.skip(a).len() == 0);
        }
    } else {
        lemma_ws_step(t, a);
        lemma_ws_run(t, a + 1, (d - 1) as nat);
    }
}

proof fn lemma_decimal_digits(n: nat)
    ensures
        decimal(n).len() >= 1,
        forall|q: int| 0 <= q < decimal(n).len() ==> is_digit(#[trigger] decimal(n)[q]),
        digits_value(decimal(n)) == n,
    decreases n,
{
    if n >= 10 {
        lemma_decimal_digits(n / 10);
        assert(decimal(n).drop_last() =~= decimal(n / 10));
        assert(decimal(n).last() == (0x30 + n % 10) as u8);
        assert(((0x30 + n % 10) as u8) - 0x30 == n % 10);
        assert(digits_value(decimal(n)) == digits_value(decimal(n / 10)) * 10 + n % 10);
        assert((n / 10) * 10 + n % 10 == n) by (nonlinear_arith);
    } else {
        assert(decimal(n).drop_last() =~= Seq::<u8>::empty());
        assert(decimal(n).last() == (0x30 + n) as u8);
        assert(digits_value(Seq::<u8>::empty()) == 0);
        assert(digits_value(decimal(n)) == digits_value(Seq::<u8>::empty()) * 10 + n);
    }
}

proof fn lemma_signed_decimal(v: i32)
    ensures
        signed_decimal(v as int).len() >= 1,
        capture_value(signed_decimal(v as int)) == v,
        v < 0 ==> signed_decimal(v as int)[0] == 0x2d && signed_decimal(v as int).len() >= 2,
        v >= 0 ==> is_digit(signed_decimal(v as int)[0]),
        forall|q: int| (if v < 0 { 1int } else { 0int }) <= q < signed_decimal(v as int).len()
            ==> is_digit(#[trigger] signed_decimal(v as int)[q]),
{
    if v < 0 {
        lemma_decimal_digits((-v) as nat);
        assert(signed_decimal(v as int).drop_first() =~= decimal((-v) as nat));
        assert forall|q: int| 1 <= q < signed_decimal(v as int).len() implies is_digit(#[trigger] signed_decimal(v as int)[q]) by {
            assert(signed_decimal(v as int)[q] == decimal((-v) as nat)[q - 1]);
        }
    } else {
        lemma_decimal_digits(v as nat);
    }
}

proof fn lemma_entry_layout(i: nat, v: i32)
    ensures
        ({
            let et = entry_text(i, v);
            let dec = decimal(i);
            let sd = signed_decimal(v as int);
            let dl = dec.len() as int;
            &&& et.len() == dl + 2 + sd.len() + 1
            &&& forall|q: int| 0 <= q < dl ==> #[trigger] et[q] == dec[q]
            &&& et[dl] == 0x3a
            &&& et[dl + 1] == 0x20
            &&& forall|q: int| 0 <= q < sd.len() ==> #[trigger] et[dl + 2 + q] == sd[q]
            &&& et[dl + 2 + sd.len()] == 0x3b
        }),
{
}

/// An entry, after some whitespace and before a line break or the end,
/// is found at once and captures the entry's value.
#[verifier::rlimit(100)]
#[verifier::spinoff_prover]
proof fn lemma_entry_found(p: Seq<u8>, i: nat, v: i32, rest: Seq<u8>)
    requires
        forall|q: int| 0 <= q < p.len() ==> is_ws(#[trigger] p[q]),
        rest.len() > 0 ==> rest[0] == 0x0a,
    ensures
        ({
            let t = p + entry_text(i, v) + rest;
            let e = p.len() + entry_text(i, v).len() as int;
            let cs = p.len() + decimal(i).len() + 2 as int;
            entry_at(t) == Some((e, cs, e - 1)) && t.subrange(cs, e - 1) == signed_decimal(v as int)
        }),
{
    let t = p + entry_text(i, v) + rest;
    let dec = decimal(i);
    let sd = signed_decimal(v as int);
    let pl = p.len() as int;
    let dl = dec.len() as int;
    lemma_decimal_digits(i);
    lemma_signed_decimal(v);
    let et = entry_text(i, v);
    lemma_entry_layout(i, v);
    assert forall|q: int| 0 <= q < et.len() implies #[trigger] t[pl + q] == et[q] by {}
    // leading whitespace
    assert forall|q: int| 0 <= q < pl implies is_ws(#[trigger] t[q]) by {
        assert(t[q] == p[q]);
    }
    assert(t[pl] == dec[0]);
    lemma_ws_run(t, 0, pl as nat);
    assert(t.skip(0) =~= t);
    // the declared address
    assert forall|q: int| pl <= q < pl + dl implies is_digit(#[trigger] t[q]) by {
        assert(t[q] == et[q - pl]);
        assert(et[q - pl] == dec[q - pl]);
    }
    lemma_digits_run(t, pl, dl as nat);
    let j = pl + dl;
    assert(t[j] == 0x3a);
    lemma_ws_step(t, j);
    // the space before the value
    assert(t[j + 1] == 0x20);
    assert(t[j + 2] == sd[0]);
    lemma_ws_run(t, j + 1, 1);
    let l = j + 2;
    let m = if v < 0 { l + 1 } else { l };
    let vl = if v < 0 { sd.len() - 1 } else { sd.len() as int };
    assert(m + vl == l + sd.len());
    assert forall|q: int| m <= q < m + vl implies is_digit(#[trigger] t[q]) by {
        assert(t[pl + (q - pl)] == et[q - pl]);
        assert(et[dl + 2 + (q - l)] == sd[q - l]);
    }
    assert(t[m + vl] == 0x3b);
    lemma_digits_run(t, m, vl as nat);
    assert(t.subrange(l, m + vl) =~= sd) by {
        assert forall|q: int| 0 <= q < sd.len() implies #[trigger] t.subrange(l, m + vl)[q] == sd[q] by {
            assert(t[l + q] == et[dl + 2 + q]);
        }
    }
}

proof fn lemma_blank_captures(p: Seq<u8>)
    requires
        forall|q: int| 0 <= q < p.len() ==> is_ws(#[trigger] p[q]),
    ensures
        captures(p) == Seq::<Seq<u8>>::empty(),
    decreases p.len(),
{
    if p.len() > 0 {
        lemma_ws_run(p, 0, p.len());
        assert(p.skip(0) =~= p);
        assert(p.skip(p.len() as int).len() == 0);
        assert(entry_at(p) is None);
        assert forall|q: int| 0 <= q < p.skip(1).len() implies is_ws(#[trigger] p.skip(1)[q]) by {
            assert(p.skip(1)[q] == p[q + 1]);
        }
        lemma_blank_captures(p.skip(1));
    }
}

/// The values that the entries from word `i` on capture.
pub open spec fn values_from(mem: Seq<i32>, i: nat) -> Seq<Seq<u8>> {
    Seq::new((mem.len() - i) as nat, |k: int| signed_decimal(mem[i + k] as int))
}

proof fn lemma_image_captures(p: Seq<u8>, mem: Seq<i32>, i: nat)
    requires
        forall|q: int| 0 <= q < p.len() ==> is_ws(#[trigger] p[q]),
        i <= mem.len(),
    ensures
        captures(p + image_from(mem, i)) == values_from(mem, i),
    decreases mem.len() - i,
{
    if i >= mem.len() {
        assert(p + image_from(mem, i) =~= p);
        lemma_blank_captures(p);
        assert(values_from(mem, i) =~= Seq::<Seq<u8>>::empty());
    } else {
        let nl = seq![0x0au8];
        let rest = nl + image_from(mem, i + 1);
        let t = p + entry_text(i, mem[i as int]) + rest;
        assert(p + image_from(mem, i) =~= t);
        lemma_entry_found(p, i, mem[i as int], rest);
        let e = (p.len() + entry_text(i, mem[i as int]).len()) as int;
        assert(t.skip(e) =~= nl + image_from(mem, i + 1));
        lemma_image_captures(nl, mem, i + 1);
        assert(captures(t) == seq![signed_decimal(mem[i as int] as int)] + values_from(mem, i + 1));
        assert(values_from(mem, i) =~= seq![signed_decimal(mem[i as int] as int)] + values_from(mem, i + 1));
    }
}

/// Writing out the first words of memory and reading the text back gives
/// those words, and zero after them; for a whole memory image, the same
/// memory.
pub proof fn lemma_image_round_trip(mem: Seq<i32>)
    requires
        mem.len() <= MEMORY_SIZE,
    ensures
        parse_spec(image_text(mem)) == Ok::<Seq<i32>, ParseError>(
            Seq::new(MEMORY_SIZE as nat, |i: int| if i < mem.len() { mem[i] } else { 0i32 }),
        ),
        mem.len() == MEMORY_SIZE ==> parse_spec(image_text(mem)) == Ok::<Seq<i32>, ParseError>(mem),
{
    lemma_image_captures(Seq::<u8>::empty(), mem, 0);
    assert(Seq::<u8>::empty() + image_from(mem, 0) =~= image_text(mem));
    let caps = captures(image_text(mem));
    assert forall|i: int| 0 <= i < caps.len() implies capture_value(#[trigger] caps[i]) == mem[i] by {
        lemma_signed_decimal(mem[i]);
    }
    assert(caps.len() == mem.len());
    assert(Seq::new(MEMORY_SIZE as nat, |i: int| if i < caps.len() { capture_value(caps[i]) as i32 } else { 0i32 })
        =~= Seq::new(MEMORY_SIZE as nat, |i: int| if i < mem.len() { mem[i] } else { 0i32 }));
    if mem.len() == MEMORY_SIZE {
        assert(Seq::new(MEMORY_SIZE as nat, |i: int| if i < mem.len() { mem[i] } else { 0i32 }) =~= mem);
    }
}

} // verus!
