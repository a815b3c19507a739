//! Plain geometry and colour values that the drawing code hands to the display.

use embedded_graphics::pixelcolor::{Rgb565, Rgb888, RgbColor};
use vstd::prelude::*;

verus! {

/// Width of the Wio Terminal LCD in pixels.
pub const DISPLAY_WIDTH: u32 = 320;

/// Height of the Wio Terminal LCD in pixels.
pub const DISPLAY_HEIGHT: u32 = 240;

/// A pixel position; `x` grows to the right and `y` downwards.
#[derive(Clone, Copy, Debug, PartialEq, Eq, Structural)]
pub struct Point {
    pub x: i32,
    pub y: i32,
}

/// A colour in the LCD's 16-bit RGB565 format: 5 bits red, 6 bits green,
/// 5 bits blue.
#[derive(Clone, Copy, Debug, PartialEq, Eq, Structural)]
pub struct Color565 {
    pub r: u8,
    pub g: u8,
    pub b: u8,
}

impl Color565 {
    pub open spec fn wf(self) -> bool {
        self.r <= 31 && self.g <= 63 && self.b <= 31
    }

    /// The colour white.
    pub fn white() -> (c: Color565)
        ensures
            c == (Color565 { r: 31, g: 63, b: 31 }),
    {
        Color565 { r: 31, g: 63, b: 31 }
    }

    /// The colour black.
    pub fn black() -> (c: Color565)
        ensures
            c == (Color565 { r: 0, g: 0, b: 0 }),
    {
        Color565 { r: 0, g: 0, b: 0 }
    }
}

/// An axis-aligned rectangle filled with one colour, given by its top-left
/// corner and its size.
#[derive(Clone, Copy, Debug, PartialEq, Eq, Structural)]
pub struct FilledRect {
    pub top_left: Point,
    pub width: u32,
    pub height: u32,
    pub color: Color565,
}

/// A black rectangle at (`x`, `y`) of the given size, used to blank part of
/// the screen before new values are drawn over it.
pub fn make_black_rectangle(x: i32, y: i32, width: u32, height: u32) -> (r: FilledRect)
    ensures
        r == (FilledRect {
            top_left: Point { x, y },
            width,
            height,
            color: Color565 { r: 0, g: 0, b: 0 },
        }),
{
    FilledRect { top_left: Point { x, y }, width, height, color: Color565::black() }
}

/// The black rectangle that covers the whole display.
pub fn preset_background() -> (r: FilledRect)
    ensures
        r == (FilledRect {
            top_left: Point { x: 0, y: 0 },
            width: DISPLAY_WIDTH,
            height: DISPLAY_HEIGHT,
            color: Color565 { r: 0, g: 0, b: 0 },
        }),
{
    make_black_rectangle(0, 0, DISPLAY_WIDTH, DISPLAY_HEIGHT)
}

/// A channel of 8 bits rescaled to `to_max`, rounding to nearest (halves
/// rounded down): `(value * to_max + 127) / 255`.
pub open spec fn scale_channel(value: u8, to_max: int) -> int {
    (value * to_max + 127) / 255
}

/// The RGB565 colour that `embedded_graphics` converts the 24-bit colour
/// (`r`, `g`, `b`) to, `Rgb565::from(Rgb888::new(r, g, b))`, read back by
/// channel.
///
/// Trusted: the conversion rescales each channel with
/// `(value * to_max + from_max / 2) / from_max`, from 255 to 31, 63 and 31.
#[verifier::external_body]
pub(crate) fn rgb888_to_565(r: u8, g: u8, b: u8) -> (c: Color565)
    ensures
        c.r == scale_channel(r, 31),
        c.g == scale_channel(g, 63),
        c.b == scale_channel(b, 31),
{
    let c = Rgb565::from(Rgb888::new(r, g, b));
    Color565 { r: c.r(), g: c.g(), b: c.b() }
}

} // verus!
