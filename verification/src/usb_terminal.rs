//! The terminal of the USB-serial display sketch: text received over the USB
//! serial port is written to the LCD, starting near the top-left corner, and
//! the screen is wiped strip by strip once the text reaches its bottom.

use crate::geometry::Point;
use crate::terminal::{
    begin_char, char_step, clear_ops, cursor_in_range, finish_char, lemma_char_halves, push_wipe,
    backdrop_op, step_ops, write_chars, ClearStyle, DrawOp, TerminalStyle, TextAnchor, WIPE_STRIPS,
};
use vstd::prelude::*;

verus! {

/// A block of received bytes: a 32-byte buffer and how many of its bytes
/// were received.
pub type TextSegment = ([u8; 32], usize);

/// The characters of a segment: its first `count` bytes (at most 32), each
/// taken as the character with that code.
pub open spec fn segment_chars(segment: TextSegment) -> Seq<char> {
    let n = if segment.1 < 32 { segment.1 as int } else { 32 };
    Seq::new(n as nat, |i: int| segment.0@[i] as char)
}

/// How this terminal looks: it wipes the screen and anchors each glyph at the left end of its
/// baseline, as `Text::new` draws text. Glyphs are
/// white, in `FONT_6X12`.
pub open spec fn terminal_style() -> TerminalStyle {
    TerminalStyle { clear: ClearStyle::Wipe, anchor: TextAnchor::Baseline }
}

/// Text terminal that records the drawing steps for the LCD.
pub struct Terminal {
    cursor: Point,
    pending: Vec<DrawOp>,
}

impl Terminal {
    #[verifier::type_invariant]
    spec fn cursor_valid(self) -> bool {
        cursor_in_range(self.cursor)
    }

    /// Where the next character goes.
    pub closed spec fn cursor_at(self) -> Point {
        self.cursor
    }

    /// The drawing steps recorded and not yet taken.
    pub closed spec fn queued(self) -> Seq<DrawOp> {
        self.pending@
    }

    /// A terminal over a freshly blanked screen, writing from (10, 15) so the
    /// first line stays inside the visible area.
    pub fn new() -> (t: Terminal)
        ensures
            t.cursor_at() == (Point { x: 10, y: 15 }),
            t.queued() == seq![backdrop_op()],
    {
        let mut pending: Vec<DrawOp> = Vec::new();
        pending.push(DrawOp::FillBlack { from: Point { x: 0, y: 0 }, to: Point { x: 320, y: 320 } });
        Terminal { cursor: Point { x: 10, y: 15 }, pending }
    }

    /// Writes every character of `s`, in order.
    pub fn write_str(&mut self, s: &str)
        ensures
            final(self).cursor_at() == write_chars(old(self).cursor_at(), s@, terminal_style()).0,
            final(self).queued() == old(self).queued() + write_chars(
                old(self).cursor_at(),
                s@,
                terminal_style(),
            ).1,
    {
        let n = s.unicode_len();
        let mut i: usize = 0;
        while i < n
            invariant
                n == s@.len(),
                i <= n,
                self.cursor_at() == write_chars(old(self).cursor_at(), s@.take(i as int), terminal_style()).0,
                self.queued() == old(self).queued() + write_chars(
                    old(self).cursor_at(),
                    s@.take(i as int),
                    terminal_style(),
                ).1,
            decreases n - i,
        {
            let c = s.get_char(i);
            proof {
                assert(s@.take(i as int + 1).drop_last() =~= s@.take(i as int));
            }
            self.write_character(c);
            i = i + 1;
        }
        proof {
            assert(s@.take(n as int) =~= s@);
        }
    }

    /// Writes one character: see [`char_step`]. A clear wipes the screen.
    pub fn write_character(&mut self, c: char)
        ensures
            final(self).cursor_at() == char_step(old(self).cursor_at(), c).next,
            final(self).queued() == old(self).queued() + step_ops(
                char_step(old(self).cursor_at(), c),
                c,
                terminal_style(),
            ),
    {
        proof {
            use_type_invariant(&*self);
        }
        let mut cursor = self.cursor;
        let clear = begin_char(&mut cursor, c);
        if clear {
            self.animate_clear();
        }
        let ghost cleared = self.pending@;
        let mut pending = self.take_ops();
        finish_char(&mut cursor, &mut pending, c, TextAnchor::Baseline);
        self.pending = pending;
        self.cursor = cursor;
        proof {
            lemma_char_halves(old(self).cursor, c, terminal_style(), old(self).pending@, cleared, self.pending@);
        }
    }

    /// Writes the received bytes of `segment`, each as one character.
    pub fn write(&mut self, segment: TextSegment)
        ensures
            final(self).cursor_at() == write_chars(old(self).cursor_at(), segment_chars(segment), terminal_style()).0,
            final(self).queued() == old(self).queued() + write_chars(
                old(self).cursor_at(),
                segment_chars(segment),
                terminal_style(),
            ).1,
    {
        let (buf, count) = segment;
        let ghost cs = segment_chars(segment);
        let mut i: usize = 0;
        while i < 32
            invariant
                cs == segment_chars(segment),
                buf == segment.0,
                count == segment.1,
                i <= 32,
                i <= count,
                self.cursor_at() == write_chars(old(self).cursor_at(), cs.take(i as int), terminal_style()).0,
                self.queued() == old(self).queued() + write_chars(
                    old(self).cursor_at(),
                    cs.take(i as int),
                    terminal_style(),
                ).1,
            ensures
                i == 32 || i == count,
                i <= count,
                self.cursor_at() == write_chars(old(self).cursor_at(), cs.take(i as int), terminal_style()).0,
                self.queued() == old(self).queued() + write_chars(
                    old(self).cursor_at(),
                    cs.take(i as int),
                    terminal_style(),
                ).1,
            decreases 32 - i,
        {
            if i >= count {
                break;
            }
            let character = buf[i];
            proof {
                assert(cs.take(i as int + 1).drop_last() =~= cs.take(i as int));
                assert(cs.take(i as int + 1).last() == character as char);
            }
            self.write_character(character as char);
            i = i + 1;
        }
        proof {
            assert(cs.take(i as int) =~= cs);
        }
    }

    /// Wipes the screen: for each strip, scrolls the panel, blanks the strip
    /// and pauses, so the old text slides away.
    fn animate_clear(&mut self)
        ensures
            final(self).cursor_at() == old(self).cursor_at(),
            final(self).queued() == old(self).queued() + clear_ops(ClearStyle::Wipe),
    {
        proof {
            use_type_invariant(&*self);
        }
        let mut pending = self.take_ops();
        push_wipe(&mut pending);
        self.pending = pending;
    }

    /// Hands over the recorded drawing steps, oldest first, and forgets them.
    pub fn take_ops(&mut self) -> (ops: Vec<DrawOp>)
        ensures
            ops@ == old(self).queued(),
            final(self).queued() == Seq::<DrawOp>::empty(),
            final(self).cursor_at() == old(self).cursor_at(),
    {
        proof {
            use_type_invariant(&*self);
        }
        let mut ops: Vec<DrawOp> = Vec::new();
        std::mem::swap(&mut ops, &mut self.pending);
        ops
    }

    /// Where the next character goes.
    pub fn cursor(&self) -> (p: Point)
        ensures
            p == self.cursor_at(),
    {
        self.cursor
    }
}

} // verus!
