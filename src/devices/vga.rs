use tokio::sync::mpsc;
use vstd::prelude::*;

use super::{DeviceError, DeviceFrame};
use crate::sdlcore::SdlDrawCommand;

verus! {

/// Commit register: a non-zero write draws the rectangle; reads give the turn bit.
pub const VGA_COMMIT: u32 = 0x8000_0060;

/// Mode register: non-zero selects writing, zero reading.
pub const VGA_MODE: u32 = 0x8000_0061;

pub const VGA_X1: u32 = 0x8000_0062;

pub const VGA_Y1: u32 = 0x8000_0063;

pub const VGA_X2: u32 = 0x8000_0064;

pub const VGA_Y2: u32 = 0x8000_0065;

/// Colour register, `0xBBGGRR`.
pub const VGA_COLOUR: u32 = 0x8000_0066;

/// The register file of the framebuffer device.
pub struct VgaView {
    pub turn: bool,
    pub write_mode: bool,
    pub x1: i32,
    pub y1: i32,
    pub x2: i32,
    pub y2: i32,
    pub colour: i32,
}

/// A framebuffer that draws filled rectangles through the graphics window.
pub struct VgaDevice {
    turn: bool,
    write_mode: bool,
    x1: i32,
    x2: i32,
    y1: i32,
    y2: i32,
    colour: i32,
    draw_cmd_tx: mpsc::Sender<SdlDrawCommand>,
    sent: Ghost<Seq<SdlDrawCommand>>,
}

/// The rectangle that a commit hands to the graphics window.
pub open spec fn draw_command(v: VgaView) -> SdlDrawCommand {
    SdlDrawCommand { x1: v.x1, y1: v.y1, x2: v.x2, y2: v.y2, colour: v.colour }
}

/// The register file after a write to a register other than commit, which
/// masks coordinates to the canvas's bit widths and the colour to 24 bits.
pub open spec fn vga_stored(v: VgaView, register: u32, value: i32) -> VgaView {
    if register == VGA_MODE {
        VgaView { write_mode: value != 0, ..v }
    } else if register == VGA_X1 {
        VgaView { x1: value & 0x3ff, ..v }
    } else if register == VGA_Y1 {
        VgaView { y1: value & 0x1ff, ..v }
    } else if register == VGA_X2 {
        VgaView { x2: value & 0x3ff, ..v }
    } else if register == VGA_Y2 {
        VgaView { y2: value & 0x1ff, ..v }
    } else {
        VgaView { colour: value & 0xff_ffff, ..v }
    }
}

pub open spec fn is_vga_register(register: u32) -> bool {
    VGA_COMMIT <= register <= VGA_COLOUR
}

impl View for VgaDevice {
    type V = VgaView;

    closed spec fn view(&self) -> VgaView {
        VgaView {
            turn: self.turn,
            write_mode: self.write_mode,
            x1: self.x1,
            y1: self.y1,
            x2: self.x2,
            y2: self.y2,
            colour: self.colour,
        }
    }
}

/// Relies on tokio's `mpsc::Sender::try_send`: queues the command on the
/// device's sender without waiting and says whether it was queued; a full or
/// closed queue refuses it and nothing is queued.
#[verifier::external_body]
fn try_send_draw(dev: &mut VgaDevice, command: SdlDrawCommand) -> (r: bool)
    ensures
        final(dev)@ == old(dev)@,
        final(dev).sender() == old(dev).sender(),
        r ==> final(dev).sent() == old(dev).sent().push(command),
        !r ==> final(dev).sent() == old(dev).sent(),
{
    dev.draw_cmd_tx.try_send(command).is_ok()
}

impl VgaDevice {
    /// The queue that commits send to.
    pub closed spec fn sender(&self) -> mpsc::Sender<SdlDrawCommand> {
        self.draw_cmd_tx
    }

    /// The commands this device has queued, oldest first.
    pub closed spec fn sent(&self) -> Seq<SdlDrawCommand> {
        self.sent@
    }

    /// A device in write mode with every register zero, sending on
    /// `draw_cmd_tx`.
    pub fn new(draw_cmd_tx: mpsc::Sender<SdlDrawCommand>) -> (r: Self)
        ensures
            r@ == (VgaView { turn: false, write_mode: true, x1: 0, y1: 0, x2: 0, y2: 0, colour: 0 }),
            r.sender() == draw_cmd_tx,
            r.sent() == Seq::<SdlDrawCommand>::empty(),
    {
        VgaDevice {
            turn: false,
            write_mode: true,
            x1: 0,
            x2: 0,
            y1: 0,
            y2: 0,
            colour: 0,
            draw_cmd_tx,
            sent: Ghost(Seq::empty()),
        }
    }

    /// The rectangle that a commit would send now.
    pub fn command(&self) -> (r: SdlDrawCommand)
        ensures
            r == draw_command(self@),
    {
        SdlDrawCommand { x1: self.x1, y1: self.y1, x2: self.x2, y2: self.y2, colour: self.colour }
    }
}

impl DeviceFrame for VgaDevice {
    open spec fn claimed(&self) -> Seq<u32> {
        seq![VGA_COMMIT, VGA_MODE, VGA_X1, VGA_Y1, VGA_X2, VGA_Y2, VGA_COLOUR]
    }

    /// Writes a register. A commit never asks for a redraw: the graphics
    /// window redraws itself once it has drawn. A commit in write mode queues
    /// `command()` on the window's queue, or is `Dead` when the queue refuses
    /// it; no other write queues anything.
    open spec fn set_post(self, after: Self, register: u32, value: i32, r: Result<bool, DeviceError>) -> bool {
        &&& after.sender() == self.sender()
        &&& if self@.turn {
            r == Err::<bool, DeviceError>(DeviceError::Busy) && after@ == self@ && after.sent() == self.sent()
        } else if !is_vga_register(register) {
            r == Err::<bool, DeviceError>(DeviceError::Unwritable) && after@ == self@ && after.sent() == self.sent()
        } else if register == VGA_COMMIT {
            after@ == self@ && if value == 0 {
                r == Err::<bool, DeviceError>(DeviceError::Unwritable) && after.sent() == self.sent()
            } else if !self@.write_mode {
                r == Err::<bool, DeviceError>(DeviceError::Dead) && after.sent() == self.sent()
            } else {
                ||| r == Ok::<bool, DeviceError>(false) && after.sent() == self.sent().push(draw_command(self@))
                ||| r == Err::<bool, DeviceError>(DeviceError::Dead) && after.sent() == self.sent()
            }
        } else {
            r == Ok::<bool, DeviceError>(false) && after@ == vga_stored(self@, register, value) && after.sent() == self.sent()
        }
    }

    /// Only the commit register reads back, as the turn bit.
    open spec fn get_post(self, after: Self, register: u32, r: Result<i32, DeviceError>) -> bool {
        after@ == self@ && after.sent() == self.sent() && after.sender() == self.sender() && r == (if register == VGA_COMMIT {
            Ok::<i32, DeviceError>(if self@.turn { 1i32 } else { 0i32 })
        } else {
            Err(DeviceError::Unreadable)
        })
    }

    fn registers(&self) -> (r: &'static [u32]) {
        let r: &'static [u32] = &[VGA_COMMIT, VGA_MODE, VGA_X1, VGA_Y1, VGA_X2, VGA_Y2, VGA_COLOUR];
        assert(r@ =~= self.claimed());
        r
    }

    fn set(&mut self, register: u32, value: i32) -> (r: Result<bool, DeviceError>)
    {
        if self.turn {
            return Err(DeviceError::Busy);
        }
        if register == VGA_COMMIT {
            if value == 0 {
                return Err(DeviceError::Unwritable);
            } else if self.write_mode {
                let command = self.command();
                if !try_send_draw(self, command) {
                    return Err(DeviceError::Dead);
                }
            } else {
                return Err(DeviceError::Dead);
            }
        } else if register == VGA_MODE {
            self.write_mode = value != 0;
        } else if register == VGA_X1 {
            self.x1 = value & 0x3ff;
        } else if register == VGA_Y1 {
            self.y1 = value & 0x1ff;
        } else if register == VGA_X2 {
            self.x2 = value & 0x3ff;
        } else if register == VGA_Y2 {
            self.y2 = value & 0x1ff;
        } else if register == VGA_COLOUR {
            self.colour = value & 0xff_ffff;
        } else {
            return Err(DeviceError::Unwritable);
        }
        Ok(false)
    }

    fn get(&mut self, register: u32) -> (r: Result<i32, DeviceError>)
    {
        if register == VGA_COMMIT {
            Ok(if self.turn { 1 } else { 0 })
        } else {
            Err(DeviceError::Unreadable)
        }
    }
}

} // verus!
