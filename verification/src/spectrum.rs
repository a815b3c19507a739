//! Drawing the microphone spectrum: one column per frequency bin, its height
//! set by the bin's power in decibels and its colour by that height, and
//! the pause that lets the user look at a frozen spectrum.

use crate::geometry::{make_black_rectangle, rgb888_to_565, scale_channel, Color565, FilledRect, Point};
use vstd::prelude::*;

verus! {

/// Width of the drawing area in pixels.
pub const SCREEN_WIDTH: i32 = 320;

/// Height of the drawing area in pixels.
pub const SCREEN_HEIGHT: i32 = 240;

/// Width of one spectrum column in pixels.
pub const BAR_WIDTH: i32 = 2;

/// Number of spectrum columns: the 128 frequency bins of a 256-point real FFT.
pub const NUMBER_OF_BARS: usize = 128;

/// Width of the spectrum: one column more than there are bins.
pub const DRAW_AREA_WIDTH: i32 = BAR_WIDTH * (128 + 1);

/// Left edge of the first column, (320 - 258) / 2, which centres the
/// spectrum on the screen.
pub const OFFSET_LEFT: i32 = 31;

/// The column height for a bin whose scaled level is `level`
/// (5 pixels per dB above -50 dB, rounded, negated): the level is clamped to
/// [-240, 0] and negated, so louder bins reach higher.
pub open spec fn bar_height_of(level: int) -> int {
    if level < -SCREEN_HEIGHT {
        SCREEN_HEIGHT as int
    } else if level > 0 {
        0
    } else {
        -level
    }
}

/// Column height for a scaled level: see [`bar_height_of`].
pub fn bar_height(level: i32) -> (h: i32)
    ensures
        h == bar_height_of(level as int),
        0 <= h <= SCREEN_HEIGHT,
{
    let area_height = SCREEN_HEIGHT;
    let clamped = if level < -area_height {
        -area_height
    } else if level > 0 {
        0
    } else {
        level
    };
    -clamped
}

/// The colour ramp position of a column of height `height`, from 0 at the
/// bottom to 510 at the top: `height * 255 / 120`.
pub open spec fn intensity_of(height: int) -> int {
    height * 255 / (SCREEN_HEIGHT / 2)
}

/// The 24-bit colour of a column of height `height`: from red through
/// yellow-green for the lower half, and from green to blue for the upper
/// half. Each channel is the low byte of its value, as an 8-bit cast gives.
pub open spec fn bar_rgb888(height: int) -> (u8, u8, u8) {
    let i = intensity_of(height);
    if height < SCREEN_HEIGHT / 2 {
        ((255 - i) as u8, i as u8, 0u8)
    } else {
        (0u8, (511 - i) as u8, (i - 256) as u8)
    }
}

/// The 24-bit colour of a column: see [`bar_rgb888`].
pub fn bar_rgb(height: i32) -> (rgb: (u8, u8, u8))
    requires
        0 <= height <= SCREEN_HEIGHT,
    ensures
        rgb == bar_rgb888(height as int),
{
    let intensity: i32 = (height * 255) / (SCREEN_HEIGHT / 2);
    let red: i32 = if height < SCREEN_HEIGHT / 2 {
        255 - intensity
    } else {
        0
    };
    let green: i32 = if height < SCREEN_HEIGHT / 2 {
        intensity
    } else {
        511 - intensity
    };
    let blue: i32 = if height < SCREEN_HEIGHT / 2 {
        0
    } else {
        intensity - 256
    };
    (red as u8, green as u8, blue as u8)
}

/// The screen colour of a column of height `height`: its 24-bit colour
/// converted to RGB565.
pub open spec fn bar_color_of(height: int) -> Color565 {
    let (r, g, b) = bar_rgb888(height);
    Color565 {
        r: scale_channel(r, 31) as u8,
        g: scale_channel(g, 63) as u8,
        b: scale_channel(b, 31) as u8,
    }
}

/// The screen colour of a column: see [`bar_color_of`].
pub fn bar_color(height: i32) -> (c: Color565)
    requires
        0 <= height <= SCREEN_HEIGHT,
    ensures
        c == bar_color_of(height as int),
{
    let (r, g, b) = bar_rgb(height);
    rgb888_to_565(r, g, b)
}

/// Left edge of column `step`.
pub open spec fn column_x(step: int) -> int {
    OFFSET_LEFT + step * BAR_WIDTH
}

/// The small black square that erases the mark left by column `step` at
/// row `prev_y` in the previous frame.
pub open spec fn erase_rect(step: int, prev_y: u8) -> FilledRect {
    FilledRect {
        top_left: Point { x: column_x(step) as i32, y: prev_y as i32 },
        width: BAR_WIDTH as u32,
        height: BAR_WIDTH as u32,
        color: Color565 { r: 0, g: 0, b: 0 },
    }
}

/// The mark of column `step` for scaled level `level`: a full bar from the
/// column's top down past the bottom of the screen in bar mode, otherwise a
/// single 2 x 2 dot at the column's top.
pub open spec fn mark_rect(step: int, level: int, bar_mode: bool) -> FilledRect {
    let h = bar_height_of(level);
    FilledRect {
        top_left: Point { x: column_x(step) as i32, y: h as i32 },
        width: BAR_WIDTH as u32,
        height: if bar_mode {
            (SCREEN_HEIGHT - 1) as u32
        } else {
            BAR_WIDTH as u32
        },
        color: bar_color_of(h),
    }
}

/// The rectangles of one spectrum frame, in drawing order: for every column,
/// first the eraser of its previous mark, then its new mark.
pub open spec fn frame_rects(levels: Seq<i32>, prev: Seq<u8>, bar_mode: bool) -> Seq<FilledRect> {
    Seq::new(
        (2 * levels.len()) as nat,
        |i: int|
            if i % 2 == 0 {
                erase_rect(i / 2, prev[i / 2])
            } else {
                mark_rect(i / 2, levels[i / 2] as int, bar_mode)
            },
    )
}

/// Draws one spectrum frame from the scaled levels of the 128 bins: returns
/// the rectangles to fill, in order, and records in `prev` the row of each
/// column's new mark so the next frame can erase it.
pub fn spectrum_frame(levels: &[i32; 128], prev: &mut [u8; 128], bar_mode: bool) -> (rects: Vec<FilledRect>)
    ensures
        rects@ == frame_rects(levels@, old(prev)@, bar_mode),
        final(prev)@ == Seq::new(128, |i: int| bar_height_of(levels@[i] as int) as u8),
{
    let mut rects: Vec<FilledRect> = Vec::new();
    let offset_top: i32 = 0;
    let offset_left: i32 = (SCREEN_WIDTH - DRAW_AREA_WIDTH) / 2;
    let mut step: usize = 0;
    while step < NUMBER_OF_BARS
        invariant
            step <= NUMBER_OF_BARS,
            offset_top == 0,
            offset_left == OFFSET_LEFT,
            levels@.len() == 128,
            prev@.len() == 128,
            rects@ == frame_rects(levels@.take(step as int), old(prev)@, bar_mode),
            forall|i: int| 0 <= i < step ==> prev@[i] == bar_height_of(levels@[i] as int) as u8,
            forall|i: int| step <= i < 128 ==> prev@[i] == old(prev)@[i],
        decreases NUMBER_OF_BARS - step,
    {
        let height = bar_height(levels[step]);
        let color = bar_color(height);
        let start_x: i32 = offset_left + step as i32 * BAR_WIDTH;
        let prev_y = prev[step];
        rects.push(make_black_rectangle(start_x, prev_y as i32, BAR_WIDTH as u32, BAR_WIDTH as u32));
        let mark_height: u32 = if bar_mode {
            (SCREEN_HEIGHT - 1) as u32
        } else {
            BAR_WIDTH as u32
        };
        rects.push(
            FilledRect {
                top_left: Point { x: start_x, y: offset_top + height },
                width: BAR_WIDTH as u32,
                height: mark_height,
                color,
            },
        );
        prev[step] = (offset_top + height) as u8;
        proof {
            let s = step as int;
            let lv = levels@.take(s + 1);
            assert(lv.take(s) =~= levels@.take(s));
            assert(rects@ =~= frame_rects(lv, old(prev)@, bar_mode)) by {
                assert forall|i: int| 0 <= i < 2 * (s + 1) implies rects@[i] == #[trigger] frame_rects(
                    lv,
                    old(prev)@,
                    bar_mode,
                )[i] by {
                    if i < 2 * s {
                        assert(frame_rects(levels@.take(s), old(prev)@, bar_mode)[i] == rects@[i]);
                        assert(lv[i / 2] == levels@[i / 2]);
                    }
                }
            }
        }
        step = step + 1;
    }
    proof {
        assert(levels@.take(128) =~= levels@);
        assert(prev@ =~= Seq::new(128, |i: int| bar_height_of(levels@[i] as int) as u8));
    }
    rects
}

/// Every column colour is a valid RGB565 colour.
pub proof fn lemma_bar_color_valid(height: int)
    requires
        0 <= height <= SCREEN_HEIGHT,
    ensures
        bar_color_of(height).wf(),
{
    let (r, g, b) = bar_rgb888(height);
    assert(scale_channel(r, 31) <= 31);
    assert(scale_channel(g, 63) <= 63);
    assert(scale_channel(b, 31) <= 31);
}

/// Each frame erases what the previous dot frame drew: the eraser of a
/// column, placed at the row that the previous frame recorded, covers
/// exactly the square of that frame's dot, and the column's mark always
/// starts on screen.
pub proof fn lemma_eraser_covers_dot(step: int, level: int)
    requires
        0 <= step < NUMBER_OF_BARS,
    ensures
        ({
            let dot = mark_rect(step, level, false);
            let eraser = erase_rect(step, bar_height_of(level) as u8);
            &&& eraser.top_left == dot.top_left
            &&& eraser.width == dot.width
            &&& eraser.height == dot.height
        }),
        0 <= mark_rect(step, level, true).top_left.y <= SCREEN_HEIGHT,
        0 < mark_rect(step, level, true).top_left.x < SCREEN_WIDTH - BAR_WIDTH,
{
}

/// The pause of the spectrum display: the stop button asks for a pause;
/// the next frame is then drawn as full bars, and after it the display
/// waits for the restart button.
pub struct PauseControl {
    /// A pause was asked for and not yet served.
    pub stop_req: bool,
    /// A frame was drawn while the pause was asked for.
    pub stop_ack: bool,
}

impl PauseControl {
    /// No pause asked for.
    pub fn new() -> (p: PauseControl)
        ensures
            p == (PauseControl { stop_req: false, stop_ack: false }),
    {
        PauseControl { stop_req: false, stop_ack: false }
    }

    /// Reads the stop button: pressing it asks for a pause; releasing it
    /// withdraws nothing.
    pub fn on_stop_button(&mut self, pressed: bool)
        ensures
            final(self).stop_req == (old(self).stop_req || pressed),
            final(self).stop_ack == old(self).stop_ack,
    {
        if pressed {
            self.stop_req = true;
        }
    }

    /// Whether frames are drawn as full bars (a pause is asked for) rather
    /// than dots.
    pub fn bar_mode(&self) -> (bars: bool)
        ensures
            bars == self.stop_req,
    {
        self.stop_req
    }

    /// A frame has been drawn: if it was drawn for a pause request, the
    /// pause is due.
    pub fn frame_drawn(&mut self)
        ensures
            final(self).stop_req == old(self).stop_req,
            final(self).stop_ack == old(self).stop_req,
    {
        self.stop_ack = self.stop_req;
    }

    /// Whether to pause now (then wait for the restart button and blank the
    /// screen); taking the pause clears both the request and the
    /// acknowledgement.
    pub fn take_pause(&mut self) -> (pause: bool)
        ensures
            pause == old(self).stop_ack,
            pause ==> *final(self) == (PauseControl { stop_req: false, stop_ack: false }),
            !pause ==> *final(self) == *old(self),
    {
        if self.stop_ack {
            self.stop_req = false;
            self.stop_ack = false;
            true
        } else {
            false
        }
    }
}

/// Inside the clamp range a column is exactly as tall as its level is
/// below 0; quieter levels stop at the bottom row, louder ones at the top;
/// and a louder level never gives a lower column.
pub proof fn lemma_bar_height_clamp(level: int, other: int)
    ensures
        -SCREEN_HEIGHT <= level <= 0 ==> bar_height_of(level) == -level,
        level < -SCREEN_HEIGHT ==> bar_height_of(level) == SCREEN_HEIGHT,
        level > 0 ==> bar_height_of(level) == 0,
        0 <= bar_height_of(level) <= SCREEN_HEIGHT,
        level <= other ==> bar_height_of(level) >= bar_height_of(other),
{
}

/// The colour ramp. Below half height red fades into green with red +
/// green = 255 and no blue; at half height the colour is pure blue (the
/// 8-bit channels wrap); above it green fades into blue with green + blue =
/// 255 and no red, green falling and blue rising with the height. Here
/// `height * 255 / 120` is the ramp position.
pub proof fn lemma_bar_ramp(h: int, h2: int)
    requires
        0 <= h <= SCREEN_HEIGHT,
        0 <= h2 <= SCREEN_HEIGHT,
    ensures
        h < 120 ==> bar_rgb888(h).2 == 0 && bar_rgb888(h).1 == h * 255 / 120 && bar_rgb888(h).0
            + bar_rgb888(h).1 == 255,
        h == 120 ==> bar_rgb888(h) == (0u8, 0u8, 255u8),
        120 < h ==> bar_rgb888(h).0 == 0 && bar_rgb888(h).1 == 511 - h * 255 / 120 && bar_rgb888(h).2
            == h * 255 / 120 - 256 && bar_rgb888(h).1 + bar_rgb888(h).2 == 255,
        120 < h <= h2 ==> bar_rgb888(h2).1 <= bar_rgb888(h).1 && bar_rgb888(h).2 <= bar_rgb888(h2).2,
        h <= h2 < 120 ==> bar_rgb888(h2).0 <= bar_rgb888(h).0 && bar_rgb888(h).1 <= bar_rgb888(h2).1,
{
    assert(0 <= h * 255 <= 240 * 255) by (nonlinear_arith)
        requires
            0 <= h <= 240,
    ;
    if h <= h2 {
        assert(h * 255 <= h2 * 255) by (nonlinear_arith)
            requires
                h <= h2,
        ;
    }
    let i = h * 255 / 120;
    let i2 = h2 * 255 / 120;
    assert(h * 255 <= h2 * 255 ==> i <= i2) by (nonlinear_arith)
        requires
            i == h * 255 / 120,
            i2 == h2 * 255 / 120,
    ;
    if h < 120 {
        assert(h * 255 < 120 * 255) by (nonlinear_arith)
            requires
                h < 120,
        ;
        assert(0 <= i < 255);
    }
    if h > 120 {
        assert(h * 255 >= 121 * 255) by (nonlinear_arith)
            requires
                h >= 121,
        ;
        assert(257 <= i <= 510);
    }
    if h2 < 120 {
        assert(h2 * 255 < 120 * 255) by (nonlinear_arith)
            requires
                h2 < 120,
        ;
    }
    if h2 > 120 {
        assert(h2 * 255 >= 121 * 255) by (nonlinear_arith)
            requires
                h2 >= 121,
        ;
        assert(h2 * 255 <= 240 * 255) by (nonlinear_arith)
            requires
                h2 <= 240,
        ;
    }
    if h == 120 {
        assert(i == 255);
        assert((256int) as u8 == 0u8) by (bit_vector);
        assert((-1int) as u8 == 255u8) by (bit_vector);
    }
}

/// A column's mark has the colour of the column's own height, whichever way
/// it is drawn: the full bar of a paused frame and the dot of a live frame
/// of the same column are coloured alike, and both start at the same row.
pub proof fn lemma_mark_color_independent_of_mode(levels: Seq<i32>, prev: Seq<u8>, k: int)
    requires
        0 <= k < levels.len(),
    ensures
        frame_rects(levels, prev, true)[2 * k + 1].color == frame_rects(levels, prev, false)[2 * k + 1].color,
        frame_rects(levels, prev, true)[2 * k + 1].top_left == frame_rects(levels, prev, false)[2 * k + 1].top_left,
        frame_rects(levels, prev, true)[2 * k + 1].color == bar_color_of(
            frame_rects(levels, prev, true)[2 * k + 1].top_left.y as int,
        ),
        frame_rects(levels, prev, true)[2 * k + 1].top_left.y == bar_height_of(levels[k] as int),
{
    assert((2 * k + 1) / 2 == k);
    assert((2 * k + 1) % 2 == 1);
}

/// The columns tile the spectrum area side by side: each mark is one
/// column wide and starts where the previous column's ends, and the 128
/// columns plus one spare column are centred on the screen (equal margins).
/// A live mark is a square dot; a paused mark is a bar reaching the bottom
/// row of the screen.
pub proof fn lemma_columns_tile(levels: Seq<i32>, prev: Seq<u8>, k: int, bar_mode: bool)
    requires
        0 <= k < levels.len(),
        levels.len() == NUMBER_OF_BARS,
    ensures
        ({
            let m = frame_rects(levels, prev, bar_mode)[2 * k + 1];
            &&& m.width == BAR_WIDTH
            &&& k + 1 < levels.len() ==> frame_rects(levels, prev, bar_mode)[2 * k + 3].top_left.x == m.top_left.x
                + m.width
            &&& !bar_mode ==> m.height == m.width
            &&& bar_mode ==> m.top_left.y + m.height >= SCREEN_HEIGHT - 1
        }),
        frame_rects(levels, prev, bar_mode)[1].top_left.x == SCREEN_WIDTH - (OFFSET_LEFT + DRAW_AREA_WIDTH),
{
    assert((2 * k + 1) / 2 == k);
    assert((2 * k + 1) % 2 == 1);
    assert((2 * k + 3) / 2 == k + 1);
    assert((2 * k + 3) % 2 == 1);
    assert(1int / 2 == 0);
}

} // verus!
