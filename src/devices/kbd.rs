use std::sync::atomic::{AtomicBool, Ordering};
use std::sync::Arc;
use tokio::sync::{Mutex, Notify};
use vstd::prelude::*;

use super::{guarded_value, try_lock, DeviceError, DeviceFrame};
use crate::sdlcore::SdlKbdEvent;

verus! {

/// Turn register: writing 1 arms the device for the next key event; reads
/// give 1 while it waits.
pub const KBD_TURN: u32 = 0x8000_0020;

/// Whether the captured key went down (1) or up (0).
pub const KBD_DOWN: u32 = 0x8000_0021;

/// The captured keycode.
pub const KBD_KEYCODE: u32 = 0x8000_0022;

/// A keyboard that captures one key event each time it is armed. A listener
/// outside the bus fills `event` and clears `turn` when the event arrives.
pub struct KbdDevice {
    turn: Arc<AtomicBool>,
    notify: Arc<Notify>,
    event: Arc<Mutex<SdlKbdEvent>>,
    raised: Ghost<nat>,
    wakes: Ghost<nat>,
}

/// Relies on std's `AtomicBool::store`: sets the turn bit, which counts
/// as one more arming.
#[verifier::external_body]
fn raise_turn(dev: &mut KbdDevice)
    ensures
        final(dev).raised() == old(dev).raised() + 1,
        final(dev).wakes() == old(dev).wakes(),
{
    dev.turn.store(true, Ordering::SeqCst);
}

/// Relies on tokio's `Notify::notify_waiters`: wakes the listener that
/// waits for the device to be armed.
#[verifier::external_body]
fn wake_listener(dev: &mut KbdDevice)
    ensures
        final(dev).wakes() == old(dev).wakes() + 1,
        final(dev).raised() == old(dev).raised(),
{
    dev.notify.notify_waiters();
}

/// What a write does, given whether the device is still armed.
pub open spec fn kbd_write_spec(turn: bool, register: u32, value: i32) -> Result<bool, DeviceError> {
    if turn {
        Err(DeviceError::Busy)
    } else if register != KBD_TURN || value != 1 {
        Err(DeviceError::Unwritable)
    } else {
        Ok(false)
    }
}

/// What a read gives, given whether the device is still armed and the
/// captured event, if the lock on it could be taken.
pub open spec fn kbd_read_spec(register: u32, turn: bool, event: Option<SdlKbdEvent>) -> Result<i32, DeviceError> {
    if register == KBD_TURN {
        Ok(if turn { 1i32 } else { 0i32 })
    } else if register != KBD_DOWN && register != KBD_KEYCODE {
        Err(DeviceError::Unreadable)
    } else if turn {
        Err(DeviceError::Busy)
    } else {
        match event {
            None => Err(DeviceError::Busy),
            Some(e) => if register == KBD_DOWN {
                Ok(if e.down { 1i32 } else { 0i32 })
            } else {
                Ok(e.keycode)
            },
        }
    }
}

/// Decides a write from the turn bit as it was read.
pub fn arm_outcome(turn: bool, register: u32, value: i32) -> (r: Result<bool, DeviceError>)
    ensures
        r == kbd_write_spec(turn, register, value),
{
    if turn {
        Err(DeviceError::Busy)
    } else if register != KBD_TURN || value != 1 {
        Err(DeviceError::Unwritable)
    } else {
        Ok(false)
    }
}

/// Decides a read from the turn bit and the captured event as they were read.
pub fn read_outcome(register: u32, turn: bool, event: Option<SdlKbdEvent>) -> (r: Result<i32, DeviceError>)
    ensures
        r == kbd_read_spec(register, turn, event),
{
    if register == KBD_TURN {
        Ok(if turn { 1 } else { 0 })
    } else if register != KBD_DOWN && register != KBD_KEYCODE {
        Err(DeviceError::Unreadable)
    } else if turn {
        Err(DeviceError::Busy)
    } else {
        match event {
            None => Err(DeviceError::Busy),
            Some(e) => if register == KBD_DOWN {
                Ok(if e.down { 1 } else { 0 })
            } else {
                Ok(e.keycode)
            },
        }
    }
}

impl KbdDevice {
    /// How many times this device has set the turn bit.
    pub closed spec fn raised(&self) -> nat {
        self.raised@
    }

    /// How many times this device has woken its listener.
    pub closed spec fn wakes(&self) -> nat {
        self.wakes@
    }

    /// A keyboard over the turn bit, the wake-up of its listener and the
    /// event slot that the listener fills.
    pub fn init(turn: Arc<AtomicBool>, notify: Arc<Notify>, event: Arc<Mutex<SdlKbdEvent>>) -> (r: Self)
        ensures
            r.raised() == 0,
            r.wakes() == 0,
    {
        KbdDevice { turn, notify, event, raised: Ghost(0), wakes: Ghost(0) }
    }
}

impl DeviceFrame for KbdDevice {
    open spec fn claimed(&self) -> Seq<u32> {
        seq![KBD_TURN, KBD_DOWN, KBD_KEYCODE]
    }

    /// Arming: only 1 written to the turn register while idle is accepted,
    /// whatever the turn bit was when the write came. An accepted arm sets
    /// the turn bit and wakes the listener; a refused write does neither.
    open spec fn set_post(self, after: Self, register: u32, value: i32, r: Result<bool, DeviceError>) -> bool {
        &&& exists|turn: bool| r == kbd_write_spec(turn, register, value)
        &&& r is Ok ==> after.raised() == self.raised() + 1 && after.wakes() == self.wakes() + 1
        &&& r is Err ==> after == self
    }

    /// The turn bit, or the captured event once the device is idle, as they
    /// were when the read came.
    open spec fn get_post(self, after: Self, register: u32, r: Result<i32, DeviceError>) -> bool {
        after == self && exists|turn: bool, event: Option<SdlKbdEvent>| r == kbd_read_spec(register, turn, event)
    }

    fn registers(&self) -> (r: &'static [u32]) {
        let r: &'static [u32] = &[KBD_TURN, KBD_DOWN, KBD_KEYCODE];
        assert(r@ =~= self.claimed());
        r
    }

    /// Arms the device: only 1 written to the turn register while idle is
    /// accepted, and it wakes the listener.
    fn set(&mut self, register: u32, value: i32) -> (r: Result<bool, DeviceError>) {
        let turn = self.turn.load(Ordering::SeqCst);
        let r = arm_outcome(turn, register, value);
        if r.is_ok() {
            raise_turn(self);
            wake_listener(self);
        }
        r
    }

    /// Reads the turn bit, or the captured event once the device is idle.
    fn get(&mut self, register: u32) -> (r: Result<i32, DeviceError>) {
        let turn = self.turn.load(Ordering::SeqCst);
        if register == KBD_TURN || turn {
            read_outcome(register, turn, None)
        } else {
            let event = match try_lock(&self.event) {
                Some(guard) => Some(guarded_value(&guard)),
                None => None,
            };
            read_outcome(register, turn, event)
        }
    }
}

} // verus!
