use vstd::prelude::*;

use crate::devices::{BusEvent, DeviceArray, DeviceError, DeviceFrame};
use crate::word::{alu, binary_spec, is_binary, word_add, word_not};

verus! {

/// Why a step could not complete.
#[derive(Debug, Clone, Copy, PartialEq, Eq, Structural)]
pub enum StepFatal {
    Halted,
    AlreadyPoisoned,
    InvalidInstruction { instr: i32 },
    InvalidIAR { iar: u32 },
    InvalidIndex { index: u32 },
    DeviceFailure { error: DeviceError },
    DivisionByZero,
}

/// What a successful step tells its caller.
#[derive(Debug, Clone, Copy, PartialEq, Eq, Structural)]
pub struct StepReport {
    /// The address written by the instruction, if any.
    pub changed: Option<u32>,
    /// Whether a device asked for the interface to be redrawn.
    pub redraw: bool,
}

impl Default for StepReport {
    fn default() -> (r: Self)
        ensures
            r == (StepReport { changed: None, redraw: false }),
    {
        StepReport { changed: None, redraw: false }
    }
}

/// Number of words of local memory; addresses from here on belong to devices.
pub const MEMORY_SIZE: usize = 16384;

/// The machine state that a program sees: instruction address register,
/// local memory and the poison marker.
#[derive(Clone)]
pub struct Environment {
    /// Address of the next instruction quad.
    pub iar: u32,
    pub memory: Box<[i32; 16384]>,
    /// Set while a step runs; a step that fails leaves it set.
    pub poison: bool,
}

impl Default for Environment {
    /// Zeroed memory, the register at the first quad, not poisoned.
    fn default() -> (r: Environment)
        ensures
            r.iar == 0,
            !r.poison,
            r.mem() == Seq::new(16384, |i: int| 0i32),
    {
        let memory: Box<[i32; 16384]> = Box::new([0i32; 16384]);
        let r = Environment { iar: 0, memory, poison: false };
        assert(r.mem() =~= Seq::new(16384, |i: int| 0i32));
        r
    }
}

impl Environment {
    /// Local memory as a sequence of words.
    pub open spec fn mem(&self) -> Seq<i32> {
        self.memory@
    }

    /// Sets word `a` of local memory.
    pub fn write_word(&mut self, a: usize, v: i32)
        requires
            a < MEMORY_SIZE,
        ensures
            final(self).mem() == old(self).mem().update(a as int, v),
            final(self).iar == old(self).iar,
            final(self).poison == old(self).poison,
    {
        self.memory[a] = v;
    }
}

/// Whether `a` names a word of local memory rather than a device register.
pub open spec fn in_memory(a: u32) -> bool {
    a < MEMORY_SIZE
}

/// A read through the bus, from the answer it got.
pub open spec fn lift_read(addr: u32, answer: Option<Result<i32, DeviceError>>) -> Result<i32, StepFatal> {
    match answer {
        None => Err(StepFatal::InvalidIndex { index: addr }),
        Some(Ok(v)) => Ok(v),
        Some(Err(error)) => Err(StepFatal::DeviceFailure { error }),
    }
}

/// A write through the bus, from the answer it got.
pub open spec fn lift_write(addr: u32, answer: Option<Result<bool, DeviceError>>) -> Result<bool, StepFatal> {
    match answer {
        None => Err(StepFatal::InvalidIndex { index: addr }),
        Some(Ok(redraw)) => Ok(redraw),
        Some(Err(error)) => Err(StepFatal::DeviceFailure { error }),
    }
}

/// Whether the bus answered `e` as its routes say: with no device exactly
/// where no device claims the address.
pub open spec fn routed(bus: DeviceArray, e: BusEvent) -> bool {
    match e {
        BusEvent::Read { addr, answer } => answer.is_some() == bus.mapped(addr),
        BusEvent::Write { addr, answer, .. } => answer.is_some() == bus.mapped(addr),
    }
}

/// Whether every entry of `log` from `k` on was answered as `bus` routes.
pub open spec fn routed_from(bus: DeviceArray, log: Seq<BusEvent>, k: int) -> bool {
    forall|j: int| k <= j < log.len() ==> routed(bus, #[trigger] log[j])
}

/// Whether `after` keeps every entry of `before` and may add more.
pub open spec fn extends(after: Seq<BusEvent>, before: Seq<BusEvent>) -> bool {
    after.len() >= before.len() && forall|j: int| 0 <= j < before.len() ==> #[trigger] after[j] == before[j]
}

/// Reading `addr` where the bus's answers are `log` from position `k` on:
/// the word or the fault, and the position of the next answer. Local
/// memory answers without the bus. `None` where `log` does not hold this
/// read at `k`.
pub open spec fn read_at(mem: Seq<i32>, log: Seq<BusEvent>, k: int, addr: u32) -> Option<(Result<i32, StepFatal>, int)> {
    if in_memory(addr) {
        Some((Ok(mem[addr as int]), k))
    } else if 0 <= k < log.len() {
        match log[k] {
            BusEvent::Read { addr: a, answer } => if a == addr {
                Some((lift_read(addr, answer), k + 1))
            } else {
                None
            },
            _ => None,
        }
    } else {
        None
    }
}

/// Writing `value` to `addr` where the bus's answers are `log` from `k` on:
/// the redraw verdict or the fault, memory afterwards, and the position of
/// the next answer.
pub open spec fn write_at(mem: Seq<i32>, log: Seq<BusEvent>, k: int, addr: u32, value: i32) -> Option<
    (Result<bool, StepFatal>, Seq<i32>, int),
> {
    if in_memory(addr) {
        Some((Ok(false), mem.update(addr as int, value), k))
    } else if 0 <= k < log.len() {
        match log[k] {
            BusEvent::Write { addr: a, value: w, answer } => if a == addr && w == value {
                Some((lift_write(addr, answer), mem, k + 1))
            } else {
                None
            },
            _ => None,
        }
    } else {
        None
    }
}

/// A step that ends with register `iar`, memory `mem` and `result`, having
/// used the bus's answers up to position `k`.
pub open spec fn ends(iar: u32, mem: Seq<i32>, result: Result<StepReport, StepFatal>, k: int) -> Option<
    (u32, Seq<i32>, Result<StepReport, StepFatal>, int),
> {
    Some((iar, mem, result, k))
}

/// The write that ends an instruction, then a jump to `next`; a fault
/// leaves register `iar` and memory as they were.
pub open spec fn store_at(iar: u32, next: u32, mem: Seq<i32>, log: Seq<BusEvent>, k: int, a: u32, v: i32) -> Option<
    (u32, Seq<i32>, Result<StepReport, StepFatal>, int),
> {
    match write_at(mem, log, k, a, v) {
        None => None,
        Some((w, after, k2)) => match w {
            Err(e) => ends(iar, mem, Err(e), k2),
            Ok(redraw) => ends(next, after, Ok(StepReport { changed: Some(a), redraw }), k2),
        },
    }
}

/// A step that only moves the register.
pub open spec fn jump_at(target: u32, mem: Seq<i32>, k: int) -> Option<(u32, Seq<i32>, Result<StepReport, StepFatal>, int)> {
    ends(target, mem, Ok(StepReport { changed: None, redraw: false }), k)
}

/// Whether a conditional branch opcode is taken on operands `x` and `y`.
pub open spec fn branch_taken(op: i32, x: i32, y: i32) -> bool {
    if op == 13 {
        x == y
    } else if op == 14 {
        x != y
    } else {
        x < y
    }
}

/// One instruction, its operands read and written in the interpreter's
/// order, where the bus's answers are `log` from position `k` on.
pub open spec fn step_walk(iar: u32, mem: Seq<i32>, log: Seq<BusEvent>, k: int) -> Option<
    (u32, Seq<i32>, Result<StepReport, StepFatal>, int),
> {
    if iar as int + 4 > MEMORY_SIZE as int {
        ends(iar, mem, Err(StepFatal::InvalidIAR { iar }), k)
    } else {
        let op = mem[iar as int];
        let a1 = mem[iar as int + 1] as u32;
        let a2 = mem[iar as int + 2] as u32;
        let a3 = mem[iar as int + 3] as u32;
        let next = (iar + 4) as u32;
        if op == 0 {
            ends(iar, mem, Err(StepFatal::Halted), k)
        } else if is_binary(op) || (13 <= op <= 15) {
            match read_at(mem, log, k, a2) {
                None => None,
                Some((x, k1)) => match x {
                    Err(e) => ends(iar, mem, Err(e), k1),
                    Ok(x) => match read_at(mem, log, k1, a3) {
                        None => None,
                        Some((y, k2)) => match y {
                            Err(e) => ends(iar, mem, Err(e), k2),
                            Ok(y) => if 13 <= op <= 15 {
                                jump_at(if branch_taken(op, x, y) { a1 } else { next }, mem, k2)
                            } else {
                                match binary_spec(op, x, y) {
                                    Err(e) => ends(iar, mem, Err(e), k2),
                                    Ok(v) => store_at(iar, next, mem, log, k2, a1, v),
                                }
                            },
                        },
                    },
                },
            }
        } else if op == 5 || op == 8 || op == 17 {
            match read_at(mem, log, k, if op == 17 { a1 } else { a2 }) {
                None => None,
                Some((x, k1)) => match x {
                    Err(e) => ends(iar, mem, Err(e), k1),
                    Ok(x) => if op == 17 {
                        jump_at(x as u32, mem, k1)
                    } else {
                        store_at(iar, next, mem, log, k1, a1, if op == 5 { x } else { word_not(x) })
                    },
                },
            }
        } else if op == 11 || op == 12 {
            match read_at(mem, log, k, a3) {
                None => None,
                Some((o, k1)) => match o {
                    Err(e) => ends(iar, mem, Err(e), k1),
                    Ok(o) => {
                        let index = word_add(mem[iar as int + 2], o) as u32;
                        match read_at(mem, log, k1, if op == 11 { index } else { a1 }) {
                            None => None,
                            Some((v, k2)) => match v {
                                Err(e) => ends(iar, mem, Err(e), k2),
                                Ok(v) => store_at(iar, next, mem, log, k2, if op == 11 { a1 } else { index }, v),
                            },
                        }
                    },
                },
            }
        } else if op == 16 {
            store_at(iar, a1, mem, log, k, a2, next as i32)
        } else {
            ends(iar, mem, Err(StepFatal::InvalidInstruction { instr: op }), k)
        }
    }
}

/// Word `k` of the quad at the register: 0 is the opcode, 1 to 3 the operands.
pub open spec fn quad(env: &Environment, k: int) -> i32 {
    env.mem()[env.iar as int + k]
}

/// Reads a word through the address space: local memory below
/// `MEMORY_SIZE`, the bus above; `None` where no device claims it.
pub fn get_mem(addr: u32, environment: &Environment, device_array: &mut DeviceArray) -> (r: Option<Result<i32, DeviceError>>)
    requires
        old(device_array).wf(),
    ensures
        final(device_array).wf(),
        final(device_array).routes() == old(device_array).routes(),
        in_memory(addr) ==> r == Some(Ok::<i32, DeviceError>(environment.mem()[addr as int])) && *final(device_array) == *old(device_array),
        !in_memory(addr) ==> r.is_some() == old(device_array).mapped(addr)
            && final(device_array).log() == old(device_array).log().push(BusEvent::Read { addr, answer: r }),
        !in_memory(addr) && old(device_array).mapped(addr) ==> old(device_array).devices()[old(device_array).routes()[addr] as int].get_post(
            final(device_array).devices()[old(device_array).routes()[addr] as int],
            addr,
            r->Some_0,
        ),
        final(device_array).devices().len() == old(device_array).devices().len(),
        forall|i: int|
            0 <= i < old(device_array).devices().len() && !(!in_memory(addr) && old(device_array).mapped(addr) && i
                == old(device_array).routes()[addr]) ==> #[trigger] final(device_array).devices()[i] == old(device_array).devices()[i],
{
    if addr >= MEMORY_SIZE as u32 {
        device_array.get(addr)
    } else {
        Some(Ok(environment.memory[addr as usize]))
    }
}

/// Writes a word through the address space. A local write never asks for
/// a redraw.
pub fn set_mem(addr: u32, value: i32, environment: &mut Environment, device_array: &mut DeviceArray) -> (r: Option<Result<bool, DeviceError>>)
    requires
        old(device_array).wf(),
    ensures
        final(device_array).wf(),
        final(device_array).routes() == old(device_array).routes(),
        in_memory(addr) ==> r == Some(Ok::<bool, DeviceError>(false)) && *final(device_array) == *old(device_array)
            && final(environment).mem() == old(environment).mem().update(addr as int, value)
            && final(environment).iar == old(environment).iar && final(environment).poison == old(environment).poison,
        !in_memory(addr) ==> r.is_some() == old(device_array).mapped(addr) && *final(environment) == *old(environment)
            && final(device_array).log() == old(device_array).log().push(BusEvent::Write { addr, value, answer: r }),
        !in_memory(addr) && old(device_array).mapped(addr) ==> old(device_array).devices()[old(device_array).routes()[addr] as int].set_post(
            final(device_array).devices()[old(device_array).routes()[addr] as int],
            addr,
            value,
            r->Some_0,
        ),
        final(device_array).devices().len() == old(device_array).devices().len(),
        forall|i: int|
            0 <= i < old(device_array).devices().len() && !(!in_memory(addr) && old(device_array).mapped(addr) && i
                == old(device_array).routes()[addr]) ==> #[trigger] final(device_array).devices()[i] == old(device_array).devices()[i],
{
    if addr >= MEMORY_SIZE as u32 {
        device_array.set(addr, value)
    } else {
        environment.memory[addr as usize] = value;
        Some(Ok(false))
    }
}

fn load_word(addr: u32, environment: &Environment, device_array: &mut DeviceArray) -> (r: Result<i32, StepFatal>)
    requires
        old(device_array).wf(),
    ensures
        final(device_array).wf(),
        final(device_array).routes() == old(device_array).routes(),
        extends(final(device_array).log(), old(device_array).log()),
        routed_from(*old(device_array), final(device_array).log(), old(device_array).log().len() as int),
        forall|l: Seq<BusEvent>| extends(l, final(device_array).log()) ==> #[trigger] read_at(environment.mem(), l, old(device_array).log().len() as int, addr)
            == Some((r, final(device_array).log().len() as int)),
        in_memory(addr) ==> *final(device_array) == *old(device_array),
{
    let r = match get_mem(addr, environment, device_array) {
        None => Err(StepFatal::InvalidIndex { index: addr }),
        Some(Ok(v)) => Ok(v),
        Some(Err(error)) => Err(StepFatal::DeviceFailure { error }),
    };
    proof {
        assert forall|l: Seq<BusEvent>| extends(l, device_array.log()) implies #[trigger] read_at(environment.mem(), l, old(device_array).log().len() as int, addr)
            == Some((r, device_array.log().len() as int)) by {
            if !in_memory(addr) {
                assert(l[old(device_array).log().len() as int] == device_array.log()[old(device_array).log().len() as int]);
            }
        }
    }
    r
}

fn store_word(addr: u32, value: i32, environment: &mut Environment, device_array: &mut DeviceArray) -> (r: Result<bool, StepFatal>)
    requires
        old(device_array).wf(),
    ensures
        final(device_array).wf(),
        final(device_array).routes() == old(device_array).routes(),
        extends(final(device_array).log(), old(device_array).log()),
        routed_from(*old(device_array), final(device_array).log(), old(device_array).log().len() as int),
        forall|l: Seq<BusEvent>| extends(l, final(device_array).log()) ==> #[trigger] write_at(old(environment).mem(), l, old(device_array).log().len() as int, addr, value)
            == Some((r, final(environment).mem(), final(device_array).log().len() as int)),
        final(environment).iar == old(environment).iar,
        final(environment).poison == old(environment).poison,
        in_memory(addr) ==> *final(device_array) == *old(device_array),
{
    let r = match set_mem(addr, value, environment, device_array) {
        None => Err(StepFatal::InvalidIndex { index: addr }),
        Some(Ok(v)) => Ok(v),
        Some(Err(error)) => Err(StepFatal::DeviceFailure { error }),
    };
    proof {
        assert forall|l: Seq<BusEvent>| extends(l, device_array.log()) implies #[trigger] write_at(old(environment).mem(), l, old(device_array).log().len() as int, addr, value)
            == Some((r, environment.mem(), device_array.log().len() as int)) by {
            if !in_memory(addr) {
                assert(l[old(device_array).log().len() as int] == device_array.log()[old(device_array).log().len() as int]);
            }
        }
    }
    r
}

/// What one step does to an environment and a bus:
/// - a poisoned environment is refused and nothing changes;
/// - otherwise the environment stays poisoned exactly when the step fails,
///   and register, memory and result are those of `step_walk` over the
///   answers that the bus gave during the step, every one of which the
///   step used;
/// - the bus's record only grows, and each answer added to it is `None`
///   exactly where no device claims the address.
pub open spec fn step_post(
    before: Environment,
    after: Environment,
    bus_before: DeviceArray,
    bus_after: DeviceArray,
    r: Result<StepReport, StepFatal>,
) -> bool {
    &&& before.poison ==> r == Err::<StepReport, StepFatal>(StepFatal::AlreadyPoisoned) && after == before
        && bus_after == bus_before
    &&& !before.poison ==> after.poison == r.is_err()
    &&& !before.poison ==> step_walk(before.iar, before.mem(), bus_after.log(), bus_before.log().len() as int) == Some(
        (after.iar, after.mem(), r, bus_after.log().len() as int),
    )
    &&& extends(bus_after.log(), bus_before.log())
    &&& routed_from(bus_before, bus_after.log(), bus_before.log().len() as int)
}

/// Executes the instruction quad at the register; see `step_post`.
#[verifier::rlimit(50)]
pub fn step(environment: &mut Environment, device_array: &mut DeviceArray) -> (r: Result<StepReport, StepFatal>)
    requires
        old(device_array).wf(),
    ensures
        final(device_array).wf(),
        final(device_array).routes() == old(device_array).routes(),
        step_post(*old(environment), *final(environment), *old(device_array), *final(device_array), r),
{
    if environment.poison {
        return Err(StepFatal::AlreadyPoisoned);
    }
    environment.poison = true;
    if environment.iar > MEMORY_SIZE as u32 - 4 {
        return Err(StepFatal::InvalidIAR { iar: environment.iar });
    }
    let at = environment.iar as usize;
    let instruction = environment.memory[at];
    let arg1 = environment.memory[at + 1];
    let arg2 = environment.memory[at + 2];
    let arg3 = environment.memory[at + 3];
    let next = environment.iar + 4;
    let report;
    if instruction == 0 {
        return Err(StepFatal::Halted);
    } else if instruction == 1 || instruction == 2 || instruction == 3 || instruction == 4 || instruction == 6
        || instruction == 7 || instruction == 9 || instruction == 10 {
        let x = load_word(arg2 as u32, environment, device_array)?;
        let y = load_word(arg3 as u32, environment, device_array)?;
        let val = alu(instruction, x, y)?;
        let redraw = store_word(arg1 as u32, val, environment, device_array)?;
        report = StepReport { changed: Some(arg1 as u32), redraw };
        environment.iar = next;
    } else if instruction == 5 || instruction == 8 {
        let x = load_word(arg2 as u32, environment, device_array)?;
        let val: i32 = if instruction == 5 { x } else { crate::word::not_word(x) };
        let redraw = store_word(arg1 as u32, val, environment, device_array)?;
        report = StepReport { changed: Some(arg1 as u32), redraw };
        environment.iar = next;
    } else if instruction == 11 || instruction == 12 {
        let offset = load_word(arg3 as u32, environment, device_array)?;
        let index = crate::word::add_words(arg2, offset) as u32;
        if instruction == 11 {
            let val = load_word(index, environment, device_array)?;
            let redraw = store_word(arg1 as u32, val, environment, device_array)?;
            report = StepReport { changed: Some(arg1 as u32), redraw };
        } else {
            let val = load_word(arg1 as u32, environment, device_array)?;
            let redraw = store_word(index, val, environment, device_array)?;
            report = StepReport { changed: Some(index), redraw };
        }
        environment.iar = next;
    } else if 13 <= instruction && instruction <= 15 {
        let x = load_word(arg2 as u32, environment, device_array)?;
        let y = load_word(arg3 as u32, environment, device_array)?;
        let taken = if instruction == 13 {
            x == y
        } else if instruction == 14 {
            x != y
        } else {
            x < y
        };
        report = StepReport { changed: None, redraw: false };
        if taken {
            environment.iar = arg1 as u32;
        } else {
            environment.iar = next;
        }
    } else if instruction == 16 {
        let redraw = store_word(arg2 as u32, next as i32, environment, device_array)?;
        report = StepReport { changed: Some(arg2 as u32), redraw };
        environment.iar = arg1 as u32;
    } else if instruction == 17 {
        let target = load_word(arg1 as u32, environment, device_array)?;
        report = StepReport { changed: None, redraw: false };
        environment.iar = target as u32;
    } else {
        return Err(StepFatal::InvalidInstruction { instr: instruction });
    }
    environment.poison = false;
    Ok(report)
}

/// An opcode outside the instruction set fails the step with that opcode,
/// leaves register and memory as they were and the environment poisoned.
pub proof fn lemma_invalid_opcode(
    before: Environment,
    after: Environment,
    bus_before: DeviceArray,
    bus_after: DeviceArray,
    r: Result<StepReport, StepFatal>,
)
    requires
        step_post(before, after, bus_before, bus_after, r),
        !before.poison,
        before.iar + 4 <= MEMORY_SIZE,
        !(0 <= quad(&before, 0) <= 17),
    ensures
        r == Err::<StepReport, StepFatal>(StepFatal::InvalidInstruction { instr: quad(&before, 0) }),
        after.mem() == before.mem(),
        after.iar == before.iar,
        after.poison,
{
}

/// A successful step moves the register in exactly one way for its opcode:
/// to the next quad, to the first operand (a branch taken, a call), or to
/// the word that a return names.
pub proof fn lemma_control_flow(
    before: Environment,
    after: Environment,
    bus_before: DeviceArray,
    bus_after: DeviceArray,
    r: Result<StepReport, StepFatal>,
)
    requires
        step_post(before, after, bus_before, bus_after, r),
        r is Ok,
    ensures
        1 <= quad(&before, 0) <= 17,
        quad(&before, 0) <= 12 ==> after.iar == before.iar + 4,
        13 <= quad(&before, 0) <= 15 ==> after.iar == before.iar + 4 || after.iar == quad(&before, 1) as u32,
        quad(&before, 0) == 16 ==> after.iar == quad(&before, 1) as u32,
        quad(&before, 0) == 17 && in_memory(quad(&before, 1) as u32) ==> after.iar == before.mem()[quad(&before, 1) as u32 as int] as u32,
{
}

/// A step that writes local memory never asks for a redraw.
pub proof fn lemma_local_write_no_redraw(
    before: Environment,
    after: Environment,
    bus_before: DeviceArray,
    bus_after: DeviceArray,
    r: Result<StepReport, StepFatal>,
)
    requires
        step_post(before, after, bus_before, bus_after, r),
        r is Ok,
        r->Ok_0.changed is Some,
        r->Ok_0.changed->Some_0 < MEMORY_SIZE,
    ensures
        !r->Ok_0.redraw,
{
}

/// Halting and the conditional branches, taken or not, leave memory as it
/// was.
pub proof fn lemma_memory_kept(
    before: Environment,
    after: Environment,
    bus_before: DeviceArray,
    bus_after: DeviceArray,
    r: Result<StepReport, StepFatal>,
)
    requires
        step_post(before, after, bus_before, bus_after, r),
        before.iar + 4 <= MEMORY_SIZE,
        quad(&before, 0) == 0 || 13 <= quad(&before, 0) <= 15,
    ensures
        after.mem() == before.mem(),
{
    if r is Ok {
        assert(after.mem() =~= before.mem());
    }
}

/// After a failed step every further step on the same environment is
/// refused as `AlreadyPoisoned` and changes nothing, so the environment
/// stays poisoned until something outside clears the flag.
pub proof fn lemma_poison_persists(
    e0: Environment,
    e1: Environment,
    e2: Environment,
    b0: DeviceArray,
    b1: DeviceArray,
    b2: DeviceArray,
    r1: Result<StepReport, StepFatal>,
    r2: Result<StepReport, StepFatal>,
)
    requires
        step_post(e0, e1, b0, b1, r1),
        r1 is Err,
        step_post(e1, e2, b1, b2, r2),
    ensures
        e1.poison,
        r2 == Err::<StepReport, StepFatal>(StepFatal::AlreadyPoisoned),
        e2 == e1,
        b2 == b1,
{
}

/// A call to a quad that returns through the same link brings control back
/// to the quad after the call, provided the link word does not overwrite the
/// return itself.
pub proof fn lemma_call_return(
    e0: Environment,
    e1: Environment,
    e2: Environment,
    b0: DeviceArray,
    b1: DeviceArray,
    b2: DeviceArray,
    r1: Result<StepReport, StepFatal>,
    r2: Result<StepReport, StepFatal>,
)
    requires
        step_post(e0, e1, b0, b1, r1),
        step_post(e1, e2, b1, b2, r2),
        !e0.poison,
        e0.iar + 4 <= MEMORY_SIZE,
        quad(&e0, 0) == 16,
        in_memory(quad(&e0, 2) as u32),
        quad(&e0, 1) as u32 + 4 <= MEMORY_SIZE,
        e0.mem()[quad(&e0, 1) as u32 as int] == 17,
        e0.mem()[quad(&e0, 1) as u32 + 1] as u32 == quad(&e0, 2) as u32,
        quad(&e0, 2) as u32 != quad(&e0, 1) as u32,
        quad(&e0, 2) as u32 != quad(&e0, 1) as u32 + 1,
    ensures
        r1 is Ok,
        e1.iar == quad(&e0, 1) as u32,
        e1.mem()[quad(&e0, 2) as u32 as int] == e0.iar + 4,
        r2 is Ok,
        e2.iar == e0.iar + 4,
{
    let target = quad(&e0, 1) as u32;
    let link = quad(&e0, 2) as u32;
    assert(e1.mem() == e0.mem().update(link as int, (e0.iar + 4) as i32));
    assert(e1.mem()[target as int] == 17);
    assert(e1.mem()[target + 1] as u32 == link);
}
} // verus!
