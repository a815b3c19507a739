//! The text engine shared by the on-screen terminals: where each character
//! lands, when a line wraps, and when the screen is cleared.
//!
//! A terminal does not draw by itself: it records [`DrawOp`]s, which the
//! application replays on the LCD in order.

use crate::font::{glyph_height, glyph_spacing, glyph_width};
use crate::geometry::{Color565, Point};
use vstd::prelude::*;

verus! {

/// Column at or beyond which the next character starts a new line.
pub const LINE_END_X: i32 = 320;

/// Row at or beyond which the screen is cleared and writing restarts at the top.
pub const SCREEN_END_Y: i32 = 240;

/// Horizontal advance from one character to the next (glyph width plus spacing).
pub const ADVANCE_X: i32 = 6;

/// Vertical distance between two text lines.
pub const LINE_HEIGHT: i32 = 12;

/// Number of vertical strips the wiping clear sweeps over (320 / 6, rounded up).
pub const WIPE_STRIPS: u32 = 54;

/// One drawing step for the LCD.
#[derive(Clone, Copy, Debug, PartialEq, Eq, Structural)]
pub enum DrawOp {
    /// Fill the rectangle with these two opposite corners (both included) black.
    FillBlack { from: Point, to: Point },
    /// Draw character `c` in `font` and `color`, placed at `at` as `anchor` says.
    Glyph { c: char, at: Point, font: GlyphFont, color: Color565, anchor: TextAnchor },
    /// Scroll the panel contents vertically by `rows` pixel rows.
    Scroll { rows: u16 },
    /// Busy-wait for `cycles` no-op instructions.
    Spin { cycles: u32 },
}

/// The font a glyph is drawn in.
#[derive(Clone, Copy, Debug, PartialEq, Eq, Structural)]
pub enum GlyphFont {
    /// `embedded_graphics`' `FONT_6X12` (ASCII), whose 6 x 12 cells the
    /// terminals lay text out in.
    Ascii6x12,
}

/// Which point of a glyph's cell the glyph's position names.
#[derive(Clone, Copy, Debug, PartialEq, Eq, Structural)]
pub enum TextAnchor {
    /// The top-left corner of the cell (`Baseline::Top`).
    TopLeft,
    /// The left end of the text baseline (`Baseline::Alphabetic`, as
    /// `Text::new` draws).
    Baseline,
}

/// How a terminal looks: how it clears the screen and how its glyphs are
/// anchored.
#[derive(Clone, Copy, Debug, PartialEq, Eq, Structural)]
pub struct TerminalStyle {
    pub clear: ClearStyle,
    pub anchor: TextAnchor,
}

/// The colour of terminal text: white.
pub open spec fn text_color() -> Color565 {
    Color565 { r: 31, g: 63, b: 31 }
}

/// The step that draws `c` at `at` in the terminals' font and colour.
pub open spec fn glyph_op(c: char, at: Point, anchor: TextAnchor) -> DrawOp {
    DrawOp::Glyph { c, at, font: GlyphFont::Ascii6x12, color: text_color(), anchor }
}

/// How a terminal clears the screen once the text reaches its bottom.
#[derive(Clone, Copy, Debug, PartialEq, Eq, Structural)]
pub enum ClearStyle {
    /// Paint one black rectangle over the whole panel.
    Backdrop,
    /// Sweep left to right: scroll, blank a strip, pause, for every strip.
    Wipe,
}

/// The black rectangle over the whole panel, as the terminals draw it.
pub open spec fn backdrop_op() -> DrawOp {
    DrawOp::FillBlack { from: Point { x: 0, y: 0 }, to: Point { x: 320, y: 320 } }
}

/// The three steps that blank strip `k` of the wiping clear.
pub open spec fn wipe_strip(k: nat) -> Seq<DrawOp> {
    seq![
        DrawOp::Scroll { rows: 6 },
        DrawOp::FillBlack {
            from: Point { x: (6 * k) as i32, y: 0 },
            to: Point { x: (6 * k + 6) as i32, y: 240 },
        },
        DrawOp::Spin { cycles: 1000 },
    ]
}

/// The steps of the first `n` strips of the wiping clear.
pub open spec fn wipe_ops(n: nat) -> Seq<DrawOp>
    decreases n,
{
    if n == 0 {
        seq![]
    } else {
        wipe_ops((n - 1) as nat) + wipe_strip((n - 1) as nat)
    }
}

/// The steps that clear the screen in the given style.
pub open spec fn clear_ops(style: ClearStyle) -> Seq<DrawOp> {
    match style {
        ClearStyle::Backdrop => seq![backdrop_op()],
        ClearStyle::Wipe => wipe_ops(WIPE_STRIPS as nat),
    }
}

/// A cursor position that a terminal can be in between two characters.
pub open spec fn cursor_in_range(p: Point) -> bool {
    0 <= p.x < LINE_END_X + ADVANCE_X && 0 <= p.y < SCREEN_END_Y
}

/// What writing one character does: whether the screen is cleared first,
/// the cell the character is placed at, whether a glyph is drawn there (not
/// for a newline) and where the cursor ends up.
pub struct CharStep {
    pub clear: bool,
    pub at: Point,
    pub drawn: bool,
    pub next: Point,
}

/// A cell in which a glyph can be placed: left of the line end, above the
/// screen end.
pub open spec fn in_text_area(p: Point) -> bool {
    0 <= p.x < LINE_END_X && 0 <= p.y < SCREEN_END_Y
}

/// The cell where `c` goes when the cursor is at `cursor`, before the screen
/// is cleared: a newline, or a cursor past the line end, moves to the start
/// of the next line.
pub open spec fn wrapped_cell(cursor: Point, c: char) -> Point {
    if cursor.x >= LINE_END_X || c == '\n' {
        Point { x: 0, y: (cursor.y + LINE_HEIGHT) as i32 }
    } else {
        cursor
    }
}

/// Writing `c` at `cursor`: a newline, or a cursor past the line end, moves to
/// the start of the next line; a line at or below the screen end clears the
/// screen and restarts at the top-left corner; any other character is drawn
/// there and advances the cursor by one cell.
pub open spec fn char_step(cursor: Point, c: char) -> CharStep {
    let wrapped = wrapped_cell(cursor, c);
    let clear = wrapped.y >= SCREEN_END_Y;
    let at = if clear {
        Point { x: 0, y: 0 }
    } else {
        wrapped
    };
    if c == '\n' {
        CharStep { clear, at, drawn: false, next: at }
    } else {
        CharStep { clear, at, drawn: true, next: Point { x: (at.x + ADVANCE_X) as i32, y: at.y } }
    }
}

/// The drawing steps of one character step.
pub open spec fn step_ops(s: CharStep, c: char, style: TerminalStyle) -> Seq<DrawOp> {
    (if s.clear {
        clear_ops(style.clear)
    } else {
        seq![]
    }) + (if s.drawn {
        seq![glyph_op(c, s.at, style.anchor)]
    } else {
        seq![]
    })
}

/// Writing the characters `cs` one after another from `cursor`: the final
/// cursor and all drawing steps, in order.
pub open spec fn write_chars(cursor: Point, cs: Seq<char>, style: TerminalStyle) -> (Point, Seq<DrawOp>)
    decreases cs.len(),
{
    if cs.len() == 0 {
        (cursor, seq![])
    } else {
        let prev = write_chars(cursor, cs.drop_last(), style);
        let s = char_step(prev.0, cs.last());
        (s.next, prev.1 + step_ops(s, cs.last(), style))
    }
}

/// Appends the steps of the wiping clear to `pending`.
pub(crate) fn push_wipe(pending: &mut Vec<DrawOp>)
    ensures
        final(pending)@ == old(pending)@ + wipe_ops(WIPE_STRIPS as nat),
{
    let width = glyph_width();
    let mut x: u32 = 0;
    let ghost mut k: nat = 0;
    while x < 320
        invariant
            width == 6,
            x == 6 * k,
            k <= WIPE_STRIPS,
            pending@ == old(pending)@ + wipe_ops(k),
        decreases WIPE_STRIPS - k,
    {
        pending.push(DrawOp::Scroll { rows: width as u16 });
        pending.push(
            DrawOp::FillBlack {
                from: Point { x: x as i32, y: 0 },
                to: Point { x: (x + width) as i32, y: 240 },
            },
        );
        pending.push(DrawOp::Spin { cycles: 1000 });
        proof {
            assert(wipe_ops(k + 1) == wipe_ops(k) + wipe_strip(k));
            k = k + 1;
        }
        x = x + width;
    }
}

/// Appends the steps that clear the screen in `style` to `pending`.
pub(crate) fn push_clear(pending: &mut Vec<DrawOp>, style: ClearStyle)
    ensures
        final(pending)@ == old(pending)@ + clear_ops(style),
{
    match style {
        ClearStyle::Backdrop => {
            pending.push(DrawOp::FillBlack { from: Point { x: 0, y: 0 }, to: Point { x: 320, y: 320 } });
        },
        ClearStyle::Wipe => {
            push_wipe(pending);
        },
    }
}

/// First half of writing `c`: moves `cursor` to the cell where `c` goes and
/// says whether the screen must be cleared first (the cursor is then already
/// at the top-left corner).
pub(crate) fn begin_char(cursor: &mut Point, c: char) -> (clear: bool)
    requires
        cursor_in_range(*old(cursor)),
    ensures
        clear == char_step(*old(cursor), c).clear,
        *final(cursor) == char_step(*old(cursor), c).at,
        in_text_area(*final(cursor)),
{
    let height = glyph_height();
    if cursor.x >= LINE_END_X || c == '\n' {
        *cursor = Point { x: 0, y: cursor.y + height as i32 };
    }
    let clear = cursor.y >= SCREEN_END_Y;
    if clear {
        *cursor = Point { x: 0, y: 0 };
    }
    clear
}

/// Second half of writing `c`: draws it at `cursor` and advances the cursor
/// by one cell, unless `c` is a newline.
pub(crate) fn finish_char(cursor: &mut Point, pending: &mut Vec<DrawOp>, c: char, anchor: TextAnchor)
    requires
        in_text_area(*old(cursor)),
    ensures
        c == '\n' ==> *final(cursor) == *old(cursor) && final(pending)@ == old(pending)@,
        c != '\n' ==> *final(cursor) == (Point { x: (old(cursor).x + ADVANCE_X) as i32, y: old(cursor).y })
            && final(pending)@ == old(pending)@.push(glyph_op(c, *old(cursor), anchor)),
        cursor_in_range(*final(cursor)),
{
    let advance = glyph_width() + glyph_spacing();
    if c != '\n' {
        pending.push(
            DrawOp::Glyph {
                c,
                at: *cursor,
                font: GlyphFont::Ascii6x12,
                color: Color565::white(),
                anchor,
            },
        );
        cursor.x = cursor.x + advance as i32;
    }
}

/// Writing `c` in two halves, with the clear in between, is one character step.
pub(crate) proof fn lemma_char_halves(
    cursor: Point,
    c: char,
    style: TerminalStyle,
    before: Seq<DrawOp>,
    cleared: Seq<DrawOp>,
    after: Seq<DrawOp>,
)
    requires
        cleared == before + (if char_step(cursor, c).clear { clear_ops(style.clear) } else { seq![] }),
        c == '\n' ==> after == cleared,
        c != '\n' ==> after == cleared.push(glyph_op(c, char_step(cursor, c).at, style.anchor)),
    ensures
        after == before + step_ops(char_step(cursor, c), c, style),
{
    assert(after =~= before + step_ops(char_step(cursor, c), c, style));
}

/// Every glyph in `ops` is placed inside the text area.
pub open spec fn glyphs_in_text_area(ops: Seq<DrawOp>) -> bool {
    forall|i: int|
        0 <= i < ops.len() ==> match #[trigger] ops[i] {
            DrawOp::Glyph { at, .. } => in_text_area(at),
            _ => true,
        }
}

/// Writing `a` and then `b` is writing `a + b`: the cursor ends up at the
/// same place and the drawing steps are the same, in the same order.
pub proof fn lemma_write_chars_append(cursor: Point, a: Seq<char>, b: Seq<char>, style: TerminalStyle)
    ensures
        write_chars(cursor, a + b, style) == (
            write_chars(write_chars(cursor, a, style).0, b, style).0,
            write_chars(cursor, a, style).1 + write_chars(write_chars(cursor, a, style).0, b, style).1,
        ),
    decreases b.len(),
{
    let mid = write_chars(cursor, a, style);
    if b.len() == 0 {
        assert(a + b =~= a);
        assert(mid.1 + write_chars(mid.0, b, style).1 =~= mid.1);
    } else {
        lemma_write_chars_append(cursor, a, b.drop_last(), style);
        assert((a + b).drop_last() =~= a + b.drop_last());
        assert((a + b).last() == b.last());
        let prev = write_chars(mid.0, b.drop_last(), style);
        let st = char_step(prev.0, b.last());
        assert(mid.1 + (prev.1 + step_ops(st, b.last(), style)) =~= (mid.1 + prev.1) + step_ops(
            st,
            b.last(),
            style,
        ));
    }
}

/// The clearing steps draw no glyph.
pub proof fn lemma_clear_ops_draw_no_glyph(style: ClearStyle)
    ensures
        glyphs_in_text_area(clear_ops(style)),
{
    match style {
        ClearStyle::Backdrop => {
            let ops = clear_ops(style);
            assert forall|i: int| 0 <= i < ops.len() implies match #[trigger] ops[i] {
                DrawOp::Glyph { at, .. } => in_text_area(at),
                _ => true,
            } by {
                assert(ops[i] == backdrop_op());
            }
        },
        ClearStyle::Wipe => {
            let n = WIPE_STRIPS as nat;
            let ops = clear_ops(style);
            lemma_wipe_ops_layout(n);
            assert forall|i: int| 0 <= i < ops.len() implies match #[trigger] ops[i] {
                DrawOp::Glyph { at, .. } => in_text_area(at),
                _ => true,
            } by {
                let k = i / 3;
                let j = i % 3;
                assert(i == 3 * k + j);
                assert(ops[3 * k + j] == wipe_strip(k as nat)[j]);
            }
        },
    }
}

/// Strip `k` of the wiping clear is at positions `3k`, `3k + 1`, `3k + 2`.
pub proof fn lemma_wipe_ops_layout(n: nat)
    ensures
        wipe_ops(n).len() == 3 * n,
        forall|k: int, j: int|
            0 <= k < n && 0 <= j < 3 ==> #[trigger] wipe_ops(n)[3 * k + j] == wipe_strip(k as nat)[j],
    decreases n,
{
    if n > 0 {
        lemma_wipe_ops_layout((n - 1) as nat);
        assert forall|k: int, j: int| 0 <= k < n && 0 <= j < 3 implies #[trigger] wipe_ops(n)[3 * k + j]
            == wipe_strip(k as nat)[j] by {
            if k < n - 1 {
                assert(wipe_ops(n)[3 * k + j] == wipe_ops((n - 1) as nat)[3 * k + j]);
            } else {
                assert(wipe_ops(n)[3 * k + j] == wipe_strip((n - 1) as nat)[j]);
            }
        }
    }
}

/// The steps of one character place its glyph, if any, inside the text area.
proof fn lemma_step_ops_in_text_area(cursor: Point, c: char, style: TerminalStyle)
    requires
        cursor_in_range(cursor),
    ensures
        glyphs_in_text_area(step_ops(char_step(cursor, c), c, style)),
{
    lemma_clear_ops_draw_no_glyph(style.clear);
    let st = char_step(cursor, c);
    let ops = step_ops(st, c, style);
    let cl: Seq<DrawOp> = if st.clear {
        clear_ops(style.clear)
    } else {
        Seq::empty()
    };
    let gl: Seq<DrawOp> = if st.drawn {
        Seq::empty().push(glyph_op(c, st.at, style.anchor))
    } else {
        Seq::empty()
    };
    assert(ops =~= cl + gl);
    assert forall|i: int| 0 <= i < ops.len() implies match #[trigger] ops[i] {
        DrawOp::Glyph { at, .. } => in_text_area(at),
        _ => true,
    } by {
        if i < cl.len() {
            assert(ops[i] == cl[i]);
        } else {
            assert(ops[i] == gl[i - cl.len()]);
        }
    }
}

/// Text never leaves the screen: from any cursor a terminal can be in,
/// writing any characters keeps the cursor valid and places every glyph
/// inside the text area.
pub proof fn lemma_text_stays_on_screen(cursor: Point, cs: Seq<char>, style: TerminalStyle)
    requires
        cursor_in_range(cursor),
    ensures
        cursor_in_range(write_chars(cursor, cs, style).0),
        glyphs_in_text_area(write_chars(cursor, cs, style).1),
    decreases cs.len(),
{
    if cs.len() > 0 {
        lemma_text_stays_on_screen(cursor, cs.drop_last(), style);
        let prev = write_chars(cursor, cs.drop_last(), style);
        let st = char_step(prev.0, cs.last());
        let ops = step_ops(st, cs.last(), style);
        lemma_step_ops_in_text_area(prev.0, cs.last(), style);
        let all = prev.1 + ops;
        assert forall|i: int| 0 <= i < all.len() implies match #[trigger] all[i] {
            DrawOp::Glyph { at, .. } => in_text_area(at),
            _ => true,
        } by {
            if i < prev.1.len() {
                assert(all[i] == prev.1[i]);
            } else {
                assert(all[i] == ops[i - prev.1.len()]);
            }
        }
    }
}

/// A newline always returns to the left edge: the cursor moves one line
/// down, or to the top-left corner when that line would start at or below
/// the screen end, and nothing is drawn.
pub proof fn lemma_newline_starts_line(cursor: Point, style: TerminalStyle)
    requires
        cursor_in_range(cursor),
    ensures
        char_step(cursor, '\n').next.x == 0,
        cursor.y + LINE_HEIGHT < SCREEN_END_Y ==> char_step(cursor, '\n').next.y == cursor.y + LINE_HEIGHT
            && step_ops(char_step(cursor, '\n'), '\n', style) == Seq::<DrawOp>::empty(),
        cursor.y + LINE_HEIGHT >= SCREEN_END_Y ==> char_step(cursor, '\n').next.y == 0
            && step_ops(char_step(cursor, '\n'), '\n', style) == clear_ops(style.clear),
{
    let st = char_step(cursor, '\n');
    assert(step_ops(st, '\n', style) =~= (if st.clear { clear_ops(style.clear) } else { seq![] }));
}

/// The wiping clear blanks every column of the screen from 0 to 320: each
/// column lies in one of its strips, which fills that column from row 0 to
/// row 240.
pub proof fn lemma_wipe_covers_screen(x: int)
    requires
        0 <= x <= LINE_END_X,
    ensures
        exists|k: int|
            0 <= k < WIPE_STRIPS && 6 * k <= x <= 6 * k + 6 && #[trigger] clear_ops(ClearStyle::Wipe)[3 * k + 1]
                == (DrawOp::FillBlack {
                from: Point { x: (6 * k) as i32, y: 0 },
                to: Point { x: (6 * k + 6) as i32, y: 240 },
            }),
{
    lemma_wipe_ops_layout(WIPE_STRIPS as nat);
    let k = if x == 320 { 53 } else { x / 6 };
    assert(clear_ops(ClearStyle::Wipe)[3 * k + 1] == wipe_strip(k as nat)[1]);
}

/// The screen is cleared exactly when the line the character goes to would
/// start at or below the screen end, whatever the character: a newline or a
/// character past the line end moves down one line, and if that line starts
/// at row 240 or lower the step begins with the clearing steps and the
/// character, if drawn, lands in the top-left corner. Otherwise nothing is
/// cleared and the character stays on the cursor's line.
pub proof fn lemma_clear_at_screen_end(cursor: Point, c: char, style: TerminalStyle)
    requires
        cursor_in_range(cursor),
    ensures
        ((cursor.x >= LINE_END_X || c == '\n') && cursor.y + LINE_HEIGHT >= SCREEN_END_Y) ==> {
            &&& char_step(cursor, c).clear
            &&& step_ops(char_step(cursor, c), c, style).subrange(0, clear_ops(style.clear).len() as int)
                == clear_ops(style.clear)
            &&& char_step(cursor, c).at == (Point { x: 0, y: 0 })
        },
        ((cursor.x >= LINE_END_X || c == '\n') && cursor.y + LINE_HEIGHT < SCREEN_END_Y) ==> {
            &&& !char_step(cursor, c).clear
            &&& char_step(cursor, c).at == (Point { x: 0, y: (cursor.y + LINE_HEIGHT) as i32 })
        },
        !(cursor.x >= LINE_END_X || c == '\n') ==> {
            &&& !char_step(cursor, c).clear
            &&& char_step(cursor, c).at == cursor
        },
        c != '\n' ==> char_step(cursor, c).drawn && char_step(cursor, c).next == (Point {
            x: (char_step(cursor, c).at.x + ADVANCE_X) as i32,
            y: char_step(cursor, c).at.y,
        }),
{
    let st = char_step(cursor, c);
    let ops = step_ops(st, c, style);
    if st.clear {
        assert(ops.subrange(0, clear_ops(style.clear).len() as int) =~= clear_ops(style.clear));
    }
}

} // verus!
