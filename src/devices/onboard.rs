use std::sync::atomic::{AtomicU16, Ordering};
use std::sync::Arc;
use tokio::runtime::Handle;
use tokio::sync::Mutex;
use vstd::prelude::*;

use super::{DeviceError, DeviceFrame};

verus! {

/// Register of the low hex display pair.
pub const HEX0_REGISTER: u32 = 0x8000_0003;

/// Register of the high hex display pair.
pub const HEX1_REGISTER: u32 = 0x8000_0004;

/// Onboard LEDs: reserved, no registers yet.
pub struct LEDDisplayDevice {}

/// A display cell shared with the interface, which only reads it, with
/// the value that its device last stored in it.
pub struct HexCell {
    pub cell: Arc<AtomicU16>,
    shown: Ghost<u16>,
}

impl HexCell {
    /// The value last stored in the cell.
    pub closed spec fn shown(&self) -> u16 {
        self.shown@
    }

    pub fn new() -> (r: HexCell)
        ensures
            r.shown() == 0,
    {
        HexCell { cell: Arc::new(AtomicU16::new(0)), shown: Ghost(0) }
    }
}

/// Relies on std's `AtomicU16::store`: the cell holds `v` afterwards.
#[verifier::external_body]
fn store_cell(c: &mut HexCell, v: u16)
    ensures
        final(c).shown() == v,
{
    c.cell.store(v, Ordering::Relaxed);
}

/// Two four-digit hex displays; the interface polls the cells.
pub struct HexDisplayDevice {
    pub hex0: HexCell,
    pub hex1: HexCell,
}

impl Default for HexDisplayDevice {
    fn default() -> (r: Self)
        ensures
            r.hex0.shown() == 0 && r.hex1.shown() == 0,
    {
        HexDisplayDevice { hex0: HexCell::new(), hex1: HexCell::new() }
    }
}

impl DeviceFrame for HexDisplayDevice {
    open spec fn claimed(&self) -> Seq<u32> {
        seq![HEX0_REGISTER, HEX1_REGISTER]
    }

    /// A write stores the low 16 bits in the register's cell and asks for a
    /// redraw; the other cell keeps its value.
    open spec fn set_post(self, after: Self, register: u32, value: i32, r: Result<bool, DeviceError>) -> bool {
        if register == HEX0_REGISTER {
            r == Ok::<bool, DeviceError>(true) && after.hex0.shown() == value as u16 && after.hex1.shown() == self.hex1.shown()
        } else if register == HEX1_REGISTER {
            r == Ok::<bool, DeviceError>(true) && after.hex1.shown() == value as u16 && after.hex0.shown() == self.hex0.shown()
        } else {
            r == Err::<bool, DeviceError>(DeviceError::Unwritable) && after.hex0.shown() == self.hex0.shown()
                && after.hex1.shown() == self.hex1.shown()
        }
    }

    /// The displays cannot be read back.
    open spec fn get_post(self, after: Self, register: u32, r: Result<i32, DeviceError>) -> bool {
        r == Err::<i32, DeviceError>(DeviceError::Unreadable) && after == self
    }

    fn registers(&self) -> (r: &'static [u32]) {
        let r: &'static [u32] = &[HEX0_REGISTER, HEX1_REGISTER];
        assert(r@ =~= self.claimed());
        r
    }

    fn set(&mut self, register: u32, value: i32) -> (r: Result<bool, DeviceError>) {
        if register == HEX0_REGISTER {
            store_cell(&mut self.hex0, value as u16);
            Ok(true)
        } else if register == HEX1_REGISTER {
            store_cell(&mut self.hex1, value as u16);
            Ok(true)
        } else {
            Err(DeviceError::Unwritable)
        }
    }

    fn get(&mut self, register: u32) -> (r: Result<i32, DeviceError>) {
        Err(DeviceError::Unreadable)
    }
}

/// Commit register: a non-zero write posts the buffered character at the
/// cursor; reads give the turn bit.
pub const LCD_COMMIT: u32 = 0x8000_0010;

/// Cursor column, low four bits.
pub const LCD_X: u32 = 0x8000_0011;

/// Cursor row, low bit.
pub const LCD_Y: u32 = 0x8000_0012;

/// Buffered character, low eight bits.
pub const LCD_CHAR: u32 = 0x8000_0013;

/// Columns of the character grid.
pub const LCD_COLUMNS: usize = 14;

/// Rows of the character grid.
pub const LCD_ROWS: usize = 2;

/// The character grid shared with the interface.
pub type LcdGrid = [[char; 14]; 2];

/// The registers of the text panel.
pub struct LcdView {
    pub turn: bool,
    pub x: usize,
    pub y: usize,
    pub chr: char,
}

/// A 14 by 2 character panel.
pub struct LcdDisplayDevice {
    turn: bool,
    x: usize,
    y: usize,
    chr: char,
    pub lcd: Arc<Mutex<LcdGrid>>,
    runtime: Handle,
    posts: Ghost<Seq<(usize, usize, char)>>,
}

impl View for LcdDisplayDevice {
    type V = LcdView;

    closed spec fn view(&self) -> LcdView {
        LcdView { turn: self.turn, x: self.x, y: self.y, chr: self.chr }
    }
}

impl LcdDisplayDevice {
    /// The characters handed to the grid writer, oldest first, each with
    /// its column and row.
    pub closed spec fn posts(&self) -> Seq<(usize, usize, char)> {
        self.posts@
    }

    /// A blank panel whose grid writes run on `runtime`.
    pub fn new(runtime: Handle) -> (r: Self)
        ensures
            r@ == (LcdView { turn: false, x: 0, y: 0, chr: '\0' }),
            r.posts() == Seq::<(usize, usize, char)>::empty(),
    {
        let grid: LcdGrid = [['\0'; 14]; 2];
        LcdDisplayDevice {
            turn: false,
            x: 0,
            y: 0,
            chr: '\0',
            lcd: new_grid_lock(grid),
            runtime,
            posts: Ghost(Seq::empty()),
        }
    }
}

/// Relies on tokio's `Mutex::new`: a shared lock around the grid.
#[verifier::external_body]
fn new_grid_lock(grid: LcdGrid) -> (r: Arc<Mutex<LcdGrid>>) {
    Arc::new(Mutex::new(grid))
}

/// Relies on tokio's `Handle::spawn_blocking`: starts a task on the blocking
/// pool of the device's runtime that waits for the grid's lock (outside any
/// asynchronous context, where `blocking_lock` is meant to be used) and then
/// writes `chr` with `put_char`.
#[verifier::external_body]
fn dispatch_post(dev: &mut LcdDisplayDevice, x: usize, y: usize, chr: char)
    requires
        x < LCD_COLUMNS,
        y < LCD_ROWS,
    ensures
        final(dev)@ == old(dev)@,
        final(dev).posts() == old(dev).posts().push((x, y, chr)),
{
    let grid = dev.lcd.clone();
    dev.runtime.spawn_blocking(move || put_char(&mut grid.blocking_lock(), x, y, chr));
}

/// Writes `chr` at row `y`, column `x` of the grid.
pub fn put_char(grid: &mut LcdGrid, x: usize, y: usize, chr: char)
    requires
        x < LCD_COLUMNS,
        y < LCD_ROWS,
    ensures
        forall|r: int, c: int|
            0 <= r < LCD_ROWS && 0 <= c < LCD_COLUMNS ==> #[trigger] final(grid)[r][c] == if r == y && c == x {
                chr
            } else {
                old(grid)[r][c]
            },
{
    let mut row = grid[y];
    row[x] = chr;
    grid[y] = row;
}

/// The registers after a write to the cursor or the character buffer.
pub open spec fn lcd_stored(v: LcdView, register: u32, value: i32) -> LcdView {
    if register == LCD_X {
        LcdView { x: (value & 0xf) as usize, ..v }
    } else if register == LCD_Y {
        LcdView { y: (value & 0x1) as usize, ..v }
    } else {
        LcdView { chr: ((value & 0xff) as u8) as char, ..v }
    }
}

impl DeviceFrame for LcdDisplayDevice {
    open spec fn claimed(&self) -> Seq<u32> {
        seq![LCD_COMMIT, LCD_X, LCD_Y, LCD_CHAR]
    }

    /// Every accepted write asks for a redraw. A non-zero commit hands the
    /// buffered character and the cursor to the grid writer and always
    /// succeeds; a cursor off the grid posts nothing. The registers are
    /// latched, so later writes do not change a posted character.
    open spec fn set_post(self, after: Self, register: u32, value: i32, r: Result<bool, DeviceError>) -> bool {
        if self@.turn {
            r == Err::<bool, DeviceError>(DeviceError::Busy) && after@ == self@ && after.posts() == self.posts()
        } else if register == LCD_COMMIT {
            after@ == self@ && if value == 0 {
                r == Err::<bool, DeviceError>(DeviceError::Unwritable) && after.posts() == self.posts()
            } else {
                r == Ok::<bool, DeviceError>(true) && after.posts() == if self@.x < LCD_COLUMNS && self@.y < LCD_ROWS {
                    self.posts().push((self@.x, self@.y, self@.chr))
                } else {
                    self.posts()
                }
            }
        } else if register == LCD_X || register == LCD_Y || register == LCD_CHAR {
            r == Ok::<bool, DeviceError>(true) && after@ == lcd_stored(self@, register, value) && after.posts() == self.posts()
        } else {
            r == Err::<bool, DeviceError>(DeviceError::Unwritable) && after@ == self@ && after.posts() == self.posts()
        }
    }

    /// Only the commit register reads back, as the turn bit.
    open spec fn get_post(self, after: Self, register: u32, r: Result<i32, DeviceError>) -> bool {
        &&& after@ == self@
        &&& after.posts() == self.posts()
        &&& r == (if register == LCD_COMMIT {
            Ok::<i32, DeviceError>(if self@.turn { 1i32 } else { 0i32 })
        } else {
            Err(DeviceError::Unreadable)
        })
    }

    fn registers(&self) -> (r: &'static [u32]) {
        let r: &'static [u32] = &[LCD_COMMIT, LCD_X, LCD_Y, LCD_CHAR];
        assert(r@ =~= self.claimed());
        r
    }

    fn set(&mut self, register: u32, value: i32) -> (r: Result<bool, DeviceError>) {
        if self.turn {
            return Err(DeviceError::Busy);
        }
        if register == LCD_COMMIT {
            if value == 0 {
                return Err(DeviceError::Unwritable);
            }
            if self.x < LCD_COLUMNS && self.y < LCD_ROWS {
                let (x, y, chr) = (self.x, self.y, self.chr);
                dispatch_post(self, x, y, chr);
            }
        } else if register == LCD_X {
            self.x = (value & 0xf) as usize;
        } else if register == LCD_Y {
            self.y = (value & 0x1) as usize;
        } else if register == LCD_CHAR {
            self.chr = ((value & 0xff) as u8) as char;
        } else {
            return Err(DeviceError::Unwritable);
        }
        Ok(true)
    }

    fn get(&mut self, register: u32) -> (r: Result<i32, DeviceError>) {
        if register == LCD_COMMIT {
            Ok(if self.turn { 1 } else { 0 })
        } else {
            Err(DeviceError::Unreadable)
        }
    }
}

} // verus!
