//! The terminal of the microphone sketch: statistics lines are written to
//! the LCD from the top-left corner, and the screen is blanked at once when
//! the text reaches its bottom.

use crate::geometry::Point;
use crate::terminal::{
    backdrop_op, begin_char, char_step, cursor_in_range, finish_char, lemma_char_halves,
    push_clear, step_ops, write_chars, ClearStyle, DrawOp, TerminalStyle, TextAnchor,
};
use vstd::prelude::*;

verus! {

/// How this terminal looks: it blanks the screen at once and anchors each glyph at the top-left
/// corner of its cell (`Baseline::Top`). Glyphs are
/// white, in `FONT_6X12`.
pub open spec fn terminal_style() -> TerminalStyle {
    TerminalStyle { clear: ClearStyle::Backdrop, anchor: TextAnchor::TopLeft }
}

/// Text terminal that records the drawing steps for the LCD.
pub struct Terminal {
    cursor: Point,
    pending: Vec<DrawOp>,
}

impl Terminal {
    #[verifier::type_invariant]
    spec fn cursor_valid(self) -> bool {
        cursor_in_range(self.cursor)
    }

    /// Where the next character goes.
    pub closed spec fn cursor_at(self) -> Point {
        self.cursor
    }

    /// The drawing steps recorded and not yet taken.
    pub closed spec fn queued(self) -> Seq<DrawOp> {
        self.pending@
    }

    /// A terminal over a freshly blanked screen, writing from the top-left corner.
    pub fn new() -> (t: Terminal)
        ensures
            t.cursor_at() == (Point { x: 0, y: 0 }),
            t.queued() == seq![backdrop_op()],
    {
        let mut pending: Vec<DrawOp> = Vec::new();
        push_clear(&mut pending, ClearStyle::Backdrop);
        Terminal { cursor: Point { x: 0, y: 0 }, pending }
    }

    /// Writes every character of `s`, in order.
    pub fn write_str(&mut self, s: &str)
        ensures
            final(self).cursor_at() == write_chars(old(self).cursor_at(), s@, terminal_style()).0,
            final(self).queued() == old(self).queued() + write_chars(
                old(self).cursor_at(),
                s@,
                terminal_style(),
            ).1,
    {
        let n = s.unicode_len();
        let mut i: usize = 0;
        while i < n
            invariant
                n == s@.len(),
                i <= n,
                self.cursor_at() == write_chars(old(self).cursor_at(), s@.take(i as int), terminal_style()).0,
                self.queued() == old(self).queued() + write_chars(
                    old(self).cursor_at(),
                    s@.take(i as int),
                    terminal_style(),
                ).1,
            decreases n - i,
        {
            let c = s.get_char(i);
            proof {
                assert(s@.take(i as int + 1).drop_last() =~= s@.take(i as int));
            }
            self.write_character(c);
            i = i + 1;
        }
        proof {
            assert(s@.take(n as int) =~= s@);
        }
    }

    /// Writes one character: see [`char_step`]. A clear blanks the whole screen.
    pub fn write_character(&mut self, c: char)
        ensures
            final(self).cursor_at() == char_step(old(self).cursor_at(), c).next,
            final(self).queued() == old(self).queued() + step_ops(
                char_step(old(self).cursor_at(), c),
                c,
                terminal_style(),
            ),
    {
        proof {
            use_type_invariant(&*self);
        }
        let mut cursor = self.cursor;
        let mut pending = self.take_ops();
        let clear = begin_char(&mut cursor, c);
        if clear {
            push_clear(&mut pending, ClearStyle::Backdrop);
        }
        let ghost cleared = pending@;
        finish_char(&mut cursor, &mut pending, c, TextAnchor::TopLeft);
        self.pending = pending;
        self.cursor = cursor;
        proof {
            lemma_char_halves(
                old(self).cursor,
                c,
                terminal_style(),
                old(self).pending@,
                cleared,
                self.pending@,
            );
        }
    }

    /// Hands over the recorded drawing steps, oldest first, and forgets them.
    pub fn take_ops(&mut self) -> (ops: Vec<DrawOp>)
        ensures
            ops@ == old(self).queued(),
            final(self).queued() == Seq::<DrawOp>::empty(),
            final(self).cursor_at() == old(self).cursor_at(),
    {
        proof {
            use_type_invariant(&*self);
        }
        let mut ops: Vec<DrawOp> = Vec::new();
        std::mem::swap(&mut ops, &mut self.pending);
        ops
    }

    /// Where the next character goes.
    pub fn cursor(&self) -> (p: Point)
        ensures
            p == self.cursor_at(),
    {
        self.cursor
    }
}

} // verus!
