use vstd::prelude::*;

verus! {

/// Width of the graphics canvas in pixels.
pub const CANVAS_WIDTH: u32 = 640;

/// Height of the graphics canvas in pixels.
pub const CANVAS_HEIGHT: u32 = 480;

/// Keycode of the A key, which the keyboard slot holds before any key event.
pub const DEFAULT_KEYCODE: i32 = 0x61;

/// A filled rectangle for the graphics window: `(x1, y1)` is the top-left
/// corner, `(x2, y2)` the bottom-right one, exclusive.
#[derive(Debug, Clone, Copy, PartialEq, Eq, Structural)]
pub struct SdlDrawCommand {
    pub x1: i32,
    pub y1: i32,
    pub x2: i32,
    pub y2: i32,
    pub colour: i32,
}

/// The rectangle of a draw command as `(x, y, width, height)`; a negative
/// extent wraps as the window's unsigned sizes do.
pub open spec fn rect_spec(c: SdlDrawCommand) -> (i32, i32, u32, u32) {
    (c.x1, c.y1, crate::word::word_sub(c.x2, c.x1) as u32, crate::word::word_sub(c.y2, c.y1) as u32)
}

/// The red, green and blue channels of a `0xBBGGRR` colour word.
pub open spec fn channels_spec(value: i32) -> (u8, u8, u8) {
    (value as u8, (value >> 8) as u8, (value >> 16) as u8)
}

impl SdlDrawCommand {
    pub fn rect(&self) -> (r: (i32, i32, u32, u32))
        ensures
            r == rect_spec(*self),
    {
        let w = crate::word::sub_words(self.x2, self.x1);
        let h = crate::word::sub_words(self.y2, self.y1);
        (self.x1, self.y1, w as u32, h as u32)
    }

    pub fn channels(&self) -> (r: (u8, u8, u8))
        ensures
            r == channels_spec(self.colour),
    {
        colour_channels(self.colour)
    }
}

/// Splits a colour word into its red, green and blue bytes, red lowest.
pub fn colour_channels(value: i32) -> (r: (u8, u8, u8))
    ensures
        r == channels_spec(value),
{
    (value as u8, (value >> 8) as u8, (value >> 16) as u8)
}

/// A touch-screen sample.
#[derive(Debug, Clone, Copy, PartialEq, Eq, Structural)]
pub struct SdlTscrEvent {
    pub x: i32,
    pub y: i32,
    pub pressed: bool,
}

impl Default for SdlTscrEvent {
    fn default() -> (r: Self)
        ensures
            r == (SdlTscrEvent { x: 0, y: 0, pressed: false }),
    {
        SdlTscrEvent { x: 0, y: 0, pressed: false }
    }
}

/// The last mouse event seen by the graphics window. The button is SDL's
/// button number.
#[derive(Debug, Clone, Copy, PartialEq, Eq, Structural)]
pub enum SdlMouseEvent {
    Motion { dx: i32, dy: i32 },
    Button { x: i32, y: i32, down: bool, mouse_btn: u8 },
}

impl Default for SdlMouseEvent {
    fn default() -> (r: Self)
        ensures
            r == (SdlMouseEvent::Motion { dx: 0, dy: 0 }),
    {
        SdlMouseEvent::Motion { dx: 0, dy: 0 }
    }
}

/// The last key event seen by the graphics window, with SDL's keycode.
#[derive(Debug, Clone, Copy, PartialEq, Eq, Structural)]
pub struct SdlKbdEvent {
    pub down: bool,
    pub keycode: i32,
}

impl Default for SdlKbdEvent {
    fn default() -> (r: Self)
        ensures
            r == (SdlKbdEvent { down: false, keycode: DEFAULT_KEYCODE }),
    {
        SdlKbdEvent { down: false, keycode: DEFAULT_KEYCODE }
    }
}

} // verus!
