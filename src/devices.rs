use std::collections::HashMap;
use vstd::prelude::*;

pub mod kbd;
pub mod onboard;
pub mod vga;

use kbd::KbdDevice;
use onboard::{HexDisplayDevice, LcdDisplayDevice};
use vga::VgaDevice;

verus! {

/// tokio's bounded queue sender, carried as an opaque value.
#[verifier::external_type_specification]
#[verifier::external_body]
#[verifier::reject_recursive_types(T)]
pub struct ExSender<T>(tokio::sync::mpsc::Sender<T>);

/// tokio's asynchronous lock, carried as an opaque value.
#[verifier::external_type_specification]
#[verifier::external_body]
#[verifier::reject_recursive_types(T)]
pub struct ExMutex<T: ?Sized>(tokio::sync::Mutex<T>);

/// The guard that tokio's lock hands out, carried as an opaque value.
#[verifier::external_type_specification]
#[verifier::external_body]
#[verifier::reject_recursive_types(T)]
pub struct ExMutexGuard<'a, T: ?Sized>(tokio::sync::MutexGuard<'a, T>);

/// A handle on a tokio runtime, carried as an opaque value.
#[verifier::external_type_specification]
#[verifier::external_body]
pub struct ExHandle(tokio::runtime::Handle);

/// tokio's wake-up primitive, carried as an opaque value.
#[verifier::external_type_specification]
#[verifier::external_body]
pub struct ExNotify(tokio::sync::Notify);

/// Relies on tokio's `Mutex::try_lock`: the guard when the lock is free,
/// `None` when another holder has it.
#[verifier::external_body]
pub(crate) fn try_lock<'a, T>(m: &'a tokio::sync::Mutex<T>) -> (r: Option<tokio::sync::MutexGuard<'a, T>>) {
    m.try_lock().ok()
}

/// Relies on the `Deref` of tokio's `MutexGuard`: a copy of the guarded value.
#[verifier::external_body]
pub(crate) fn guarded_value<T: Copy>(g: &tokio::sync::MutexGuard<'_, T>) -> (r: T) {
    **g
}


/// Why a device refused a read or a write.
#[derive(Debug, Clone, Copy, PartialEq, Eq, Structural)]
pub enum DeviceError {
    /// A previous operation is still in flight.
    Busy,
    /// The device can no longer do its work.
    Dead,
    /// The register cannot be read.
    Unreadable,
    /// The register cannot be written, or not with this value.
    Unwritable,
}

/// A peripheral seen through its registers.
pub trait DeviceFrame: Send {
    /// The addresses this device answers to; fixed for its lifetime.
    spec fn claimed(&self) -> Seq<u32>;

    fn registers(&self) -> (r: &'static [u32])
        ensures
            r@ == self.claimed(),
    ;

    /// What a write of `value` to `register` may do: turn `self` into
    /// `after` and answer `r`.
    spec fn set_post(self, after: Self, register: u32, value: i32, r: Result<bool, DeviceError>) -> bool;

    /// What a read of `register` may do: turn `self` into `after` and
    /// answer `r`.
    spec fn get_post(self, after: Self, register: u32, r: Result<i32, DeviceError>) -> bool;

    fn set(&mut self, register: u32, value: i32) -> (r: Result<bool, DeviceError>)
        ensures
            final(self).claimed() == old(self).claimed(),
            old(self).set_post(*final(self), register, value, r),
    ;

    fn get(&mut self, register: u32) -> (r: Result<i32, DeviceError>)
        ensures
            final(self).claimed() == old(self).claimed(),
            old(self).get_post(*final(self), register, r),
    ;
}

/// The closed set of peripherals that can sit on the bus.
pub enum Device {
    Hex(HexDisplayDevice),
    Lcd(LcdDisplayDevice),
    Kbd(KbdDevice),
    Vga(VgaDevice),
}

impl DeviceFrame for Device {
    open spec fn claimed(&self) -> Seq<u32> {
        match self {
            Device::Hex(d) => d.claimed(),
            Device::Lcd(d) => d.claimed(),
            Device::Kbd(d) => d.claimed(),
            Device::Vga(d) => d.claimed(),
        }
    }

    open spec fn set_post(self, after: Self, register: u32, value: i32, r: Result<bool, DeviceError>) -> bool {
        match (self, after) {
            (Device::Hex(a), Device::Hex(b)) => a.set_post(b, register, value, r),
            (Device::Lcd(a), Device::Lcd(b)) => a.set_post(b, register, value, r),
            (Device::Kbd(a), Device::Kbd(b)) => a.set_post(b, register, value, r),
            (Device::Vga(a), Device::Vga(b)) => a.set_post(b, register, value, r),
            _ => false,
        }
    }

    open spec fn get_post(self, after: Self, register: u32, r: Result<i32, DeviceError>) -> bool {
        match (self, after) {
            (Device::Hex(a), Device::Hex(b)) => a.get_post(b, register, r),
            (Device::Lcd(a), Device::Lcd(b)) => a.get_post(b, register, r),
            (Device::Kbd(a), Device::Kbd(b)) => a.get_post(b, register, r),
            (Device::Vga(a), Device::Vga(b)) => a.get_post(b, register, r),
            _ => false,
        }
    }

    fn registers(&self) -> (r: &'static [u32]) {
        match self {
            Device::Hex(d) => d.registers(),
            Device::Lcd(d) => d.registers(),
            Device::Kbd(d) => d.registers(),
            Device::Vga(d) => d.registers(),
        }
    }

    fn set(&mut self, register: u32, value: i32) -> (r: Result<bool, DeviceError>) {
        match self {
            Device::Hex(d) => d.set(register, value),
            Device::Lcd(d) => d.set(register, value),
            Device::Kbd(d) => d.set(register, value),
            Device::Vga(d) => d.set(register, value),
        }
    }

    fn get(&mut self, register: u32) -> (r: Result<i32, DeviceError>) {
        match self {
            Device::Hex(d) => d.get(register),
            Device::Lcd(d) => d.get(register),
            Device::Kbd(d) => d.get(register),
            Device::Vga(d) => d.get(register),
        }
    }
}

impl Default for DeviceArray {
    /// A bus with no device on it.
    fn default() -> (r: DeviceArray)
        ensures
            r.wf(),
            r.routes().is_empty(),
            r.devices().len() == 0,
    {
        DeviceArray::new()
    }
}

/// One request that reached the bus, with the answer it got (`None`: no
/// device claims the address).
pub enum BusEvent {
    Read { addr: u32, answer: Option<Result<i32, DeviceError>> },
    Write { addr: u32, value: i32, answer: Option<Result<bool, DeviceError>> },
}

/// Routes addresses above local memory to the device that claims them.
pub struct DeviceArray {
    devices: Vec<Device>,
    registers: HashMap<u32, usize>,
    log: Ghost<Seq<BusEvent>>,
}

impl DeviceArray {
    /// Every route leads to a registered device that claims the address.
    pub closed spec fn wf(&self) -> bool {
        forall|a: u32| #[trigger]
            self.registers@.contains_key(a) ==> {
                let i = self.registers@[a] as int;
                &&& 0 <= i < self.devices@.len()
                &&& self.devices@[i].claimed().contains(a)
            }
    }

    /// The address map: which device index answers to which address.
    pub closed spec fn routes(&self) -> Map<u32, usize> {
        self.registers@
    }

    /// The registered devices, in registration order.
    pub closed spec fn devices(&self) -> Seq<Device> {
        self.devices@
    }

    /// Every request the bus has answered, oldest first.
    pub closed spec fn log(&self) -> Seq<BusEvent> {
        self.log@
    }

    /// Whether some device claims `a`.
    pub open spec fn mapped(&self, a: u32) -> bool {
        self.routes().contains_key(a)
    }

    pub fn new() -> (r: DeviceArray)
        ensures
            r.wf(),
            r.routes().is_empty(),
            r.devices().len() == 0,
            r.log().len() == 0,
    {
        DeviceArray { devices: Vec::new(), registers: HashMap::new(), log: Ghost(Seq::empty()) }
    }

    /// Appends a device and routes each address it claims to it. A device
    /// that claims an address already routed is refused and the bus stays
    /// as it was.
    pub fn register_device(&mut self, device: Device) -> (r: bool)
        requires
            old(self).wf(),
        ensures
            final(self).wf(),
            r == (forall|k: int|
                0 <= k < device.claimed().len() ==> !old(self).mapped(#[trigger] device.claimed()[k])),
            r ==> final(self).devices() == old(self).devices().push(device),
            final(self).log() == old(self).log(),
            r ==> forall|a: u32| #[trigger]
                final(self).mapped(a) == (old(self).mapped(a) || device.claimed().contains(a)),
            r ==> forall|a: u32| #[trigger]
                old(self).mapped(a) ==> final(self).routes()[a] == old(self).routes()[a],
            r ==> forall|a: u32| #[trigger]
                device.claimed().contains(a) ==> final(self).routes()[a] == old(self).devices().len(),
            !r ==> *final(self) == *old(self),
    {
        broadcast use vstd::std_specs::hash::group_hash_axioms;
        let claims = device.registers();
        let mut k: usize = 0;
        while k < claims.len()
            invariant
                claims@ == device.claimed(),
                0 <= k <= claims@.len(),
                *self == *old(self),
                self.wf(),
                forall|j: int| 0 <= j < k ==> !self.registers@.contains_key(#[trigger] claims@[j]),
            decreases claims@.len() - k,
        {
            if self.registers.contains_key(&claims[k]) {
                return false;
            }
            k = k + 1;
        }
        let idx = self.devices.len();
        self.devices.push(device);
        let ghost before = self.registers@;
        let mut k: usize = 0;
        while k < claims.len()
            invariant
                claims@ == device.claimed(),
                0 <= k <= claims@.len(),
                idx == old(self).devices@.len(),
                self.wf(),
                self.devices@ == old(self).devices@.push(device),
                self.log@ == old(self).log@,
                before == old(self).registers@,
                forall|j: int| 0 <= j < claims@.len() ==> !before.contains_key(#[trigger] claims@[j]),
                forall|a: u32| #[trigger]
                    self.registers@.contains_key(a) == (before.contains_key(a) || exists|j: int|
                        0 <= j < k && claims@[j] == a),
                forall|a: u32| #[trigger]
                    before.contains_key(a) ==> self.registers@[a] == before[a],
                forall|j: int| 0 <= j < k ==> self.registers@[#[trigger] claims@[j]] == idx,
            decreases claims@.len() - k,
        {
            let a = claims[k];
            assert(self.devices@[idx as int].claimed().contains(a)) by {
                assert(self.devices@[idx as int] == device);
                assert(device.claimed()[k as int] == a);
            }
            self.registers.insert(a, idx);
            k = k + 1;
        }
        assert forall|a: u32| #[trigger] final(self).mapped(a) == (old(self).mapped(a) || device.claimed().contains(a)) by {
            if device.claimed().contains(a) {
                let j = choose|j: int| 0 <= j < device.claimed().len() && device.claimed()[j] == a;
                assert(claims@[j] == a);
            }
        }
        true
    }

    /// Writes `value` to the device that claims `register`; `None` where no
    /// device does.
    pub fn set(&mut self, register: u32, value: i32) -> (r: Option<Result<bool, DeviceError>>)
        requires
            old(self).wf(),
        ensures
            final(self).wf(),
            r.is_some() == old(self).mapped(register),
            final(self).routes() == old(self).routes(),
            final(self).devices().len() == old(self).devices().len(),
            forall|i: int|
                0 <= i < old(self).devices().len() && !(old(self).mapped(register) && i == old(self).routes()[register])
                    ==> #[trigger] final(self).devices()[i] == old(self).devices()[i],
            final(self).log() == old(self).log().push(BusEvent::Write { addr: register, value, answer: r }),
            old(self).mapped(register) ==> old(self).devices()[old(self).routes()[register] as int].set_post(
                final(self).devices()[old(self).routes()[register] as int],
                register,
                value,
                r->Some_0,
            ),
    {
        broadcast use vstd::std_specs::hash::group_hash_axioms;
        let r = match self.registers.get(&register) {
            Some(idx) => {
                let i = *idx;
                Some(self.devices[i].set(register, value))
            },
            None => None,
        };
        self.log = Ghost(self.log@.push(BusEvent::Write { addr: register, value, answer: r }));
        r
    }

    /// Reads `register` from the device that claims it; `None` where no
    /// device does.
    pub fn get(&mut self, register: u32) -> (r: Option<Result<i32, DeviceError>>)
        requires
            old(self).wf(),
        ensures
            final(self).wf(),
            r.is_some() == old(self).mapped(register),
            final(self).routes() == old(self).routes(),
            final(self).devices().len() == old(self).devices().len(),
            forall|i: int|
                0 <= i < old(self).devices().len() && !(old(self).mapped(register) && i == old(self).routes()[register])
                    ==> #[trigger] final(self).devices()[i] == old(self).devices()[i],
            final(self).log() == old(self).log().push(BusEvent::Read { addr: register, answer: r }),
            old(self).mapped(register) ==> old(self).devices()[old(self).routes()[register] as int].get_post(
                final(self).devices()[old(self).routes()[register] as int],
                register,
                r->Some_0,
            ),
    {
        broadcast use vstd::std_specs::hash::group_hash_axioms;
        let r = match self.registers.get(&register) {
            Some(idx) => {
                let i = *idx;
                Some(self.devices[i].get(register))
            },
            None => None,
        };
        self.log = Ghost(self.log@.push(BusEvent::Read { addr: register, answer: r }));
        r
    }
}

} // verus!
