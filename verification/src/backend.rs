//! `Backend` — the single trait that every platform must implement.
//!
//! A backend owns the framebuffer (or window) and provides three core
//! operations: draw into the buffer, flush the buffer to the screen, and
//! return the next pending input event.
//!
//! The contracts describe a backend by the sequence of drawing commands it
//! has received ([`Backend::commands`]): every primitive appends exactly one
//! [`DrawCmd`], and the provided methods append the commands they are made
//! of.  What those commands mean as pixels is in [`crate::render`].

use vstd::prelude::*;
use crate::color::Color;
use crate::event::Event;
use crate::font::CHAR_W;

verus! {

/// One primitive drawing command received by a backend.
#[derive(Clone, Copy, Debug, PartialEq, Eq, Structural)]
pub enum DrawCmd {
    /// `fill_rect(x, y, w, h, color)`.
    Fill { x: u32, y: u32, w: u32, h: u32, color: Color },
    /// `draw_char(x, y, ch, color)`: one glyph cell with its top-left corner at `(x, y)`.
    Glyph { x: u32, y: u32, ch: char, color: Color },
    /// `present()`.
    Present,
}

/// The fill command for the rectangle at `(x, y)` of size `w` x `h`.
pub open spec fn fill_cmd(x: int, y: int, w: int, h: int, color: Color) -> DrawCmd {
    DrawCmd::Fill { x: x as u32, y: y as u32, w: w as u32, h: h as u32, color }
}

/// The glyph command for `ch` with its cell's top-left corner at `(x, y)`.
pub open spec fn glyph_cmd(x: int, y: int, ch: char, color: Color) -> DrawCmd {
    DrawCmd::Glyph { x: x as u32, y: y as u32, ch, color }
}

/// A queue that is a prefix of one that is a prefix of a third is a prefix
/// of the third: events only arrive, in order.
pub proof fn lemma_prefix_trans(a: Seq<Event>, b: Seq<Event>, c: Seq<Event>)
    requires
        a.is_prefix_of(b),
        b.is_prefix_of(c),
    ensures
        a.is_prefix_of(c),
{
    assert forall|i: int| 0 <= i < a.len() implies a[i] == c[i] by {
        assert(a[i] == b.subrange(0, a.len() as int)[i]);
        assert(b[i] == c.subrange(0, b.len() as int)[i]);
    }
    assert(a =~= c.subrange(0, a.len() as int));
}

/// How many glyphs of an `n`-character text starting at column `x` fit in a
/// framebuffer `width` pixels wide: drawing stops at the first glyph whose
/// cell would cross the right edge.
pub open spec fn glyphs_fitting(x: int, width: int, n: nat) -> nat {
    if x + 8 > width {
        0
    } else if n <= (width - x) / 8 {
        n
    } else {
        ((width - x) / 8) as nat
    }
}

/// The glyph commands that drawing `text` at `(x, y)` produces on a
/// framebuffer `width` pixels wide: one glyph per character, advancing
/// `CHAR_W` pixels each, for as many characters as fit.
pub open spec fn text_cmds(x: int, y: int, text: Seq<char>, color: Color, width: u32) -> Seq<DrawCmd> {
    Seq::new(
        glyphs_fitting(x, width as int, text.len()),
        |i: int| glyph_cmd(x + 8 * i, y, text[i], color),
    )
}

/// The inputs on which a hollow rectangle can be drawn: its right and bottom
/// edges `x + w - 1` and `y + h - 1` are computed in `u32` without overflow.
pub open spec fn outline_in_range(x: int, y: int, w: int, h: int) -> bool {
    &&& 1 <= x + w <= u32::MAX
    &&& 1 <= y + h <= u32::MAX
}

/// The four 1-pixel edges of the rectangle at `(x, y)` of size `w` x `h`:
/// top, bottom, left, right.
pub open spec fn outline_cmds(x: int, y: int, w: int, h: int, color: Color) -> Seq<DrawCmd> {
    seq![
        fill_cmd(x, y, w, 1, color),
        fill_cmd(x, y + h - 1, w, 1, color),
        fill_cmd(x, y, 1, h, color),
        fill_cmd(x + w - 1, y, 1, h, color),
    ]
}

/// The event a poll of the queue `pending` returns: its first event, or
/// `None` when it is empty.
pub open spec fn next_pending(pending: Seq<Event>) -> Option<Event> {
    if pending.len() > 0 {
        Some(pending[0])
    } else {
        None
    }
}

/// The queue `pending` after a poll: without its first event.
pub open spec fn after_poll(pending: Seq<Event>) -> Seq<Event> {
    if pending.len() > 0 {
        pending.drop_first()
    } else {
        pending
    }
}

pub trait Backend {
    // ── The model ─────────────────────────────────────────────────────────
    //
    // A backend is described by the drawing commands it has received, the
    // input events waiting to be polled, and its framebuffer size.  These
    // spec functions have bodies only so that a backend written outside
    // Verus, which has no spec functions to give, can implement the trait.
    // A verified backend defines all four.  For a backend that keeps the
    // bodies below (an empty command list, no pending events, a 0 x 0
    // framebuffer) the contracts of `width`, `fill_rect` and the rest cannot
    // hold, so nothing proved here, nor of a `Canvas` over it, says anything
    // about such a backend.

    /// The drawing commands this backend has received, oldest first.
    open spec fn commands(&self) -> Seq<DrawCmd> {
        Seq::empty()
    }

    /// The input events waiting to be polled, oldest first.
    open spec fn pending(&self) -> Seq<Event> {
        Seq::empty()
    }

    /// Framebuffer width in pixels.
    open spec fn spec_width(&self) -> u32 {
        0
    }

    /// Framebuffer height in pixels.
    open spec fn spec_height(&self) -> u32 {
        0
    }

    // ── Required ──────────────────────────────────────────────────────────

    /// Framebuffer width in pixels.
    fn width(&self) -> (w: u32)
        ensures
            w == self.spec_width(),
    ;

    /// Framebuffer height in pixels.
    fn height(&self) -> (h: u32)
        ensures
            h == self.spec_height(),
    ;

    /// Fill a rectangle with a solid color.
    /// Out-of-bounds coordinates should be clipped silently.
    fn fill_rect(&mut self, x: u32, y: u32, w: u32, h: u32, color: Color)
        ensures
            final(self).commands() == old(self).commands().push(DrawCmd::Fill { x, y, w, h, color }),
            final(self).spec_width() == old(self).spec_width(),
            final(self).spec_height() == old(self).spec_height(),
            old(self).pending().is_prefix_of(final(self).pending()),
    ;

    /// Flush the back-buffer to the physical display.
    fn present(&mut self)
        ensures
            final(self).commands() == old(self).commands().push(DrawCmd::Present),
    ;

    /// Return the next pending input event, or `None` if the queue is empty.
    /// The event returned leaves the queue.
    fn poll_event(&mut self) -> (e: Option<Event>)
        ensures
            e == next_pending(old(self).pending()),
            final(self).pending() == after_poll(old(self).pending()),
            final(self).commands() == old(self).commands(),
            final(self).spec_width() == old(self).spec_width(),
            final(self).spec_height() == old(self).spec_height(),
    ;

    /// Draw a single character cell (`CHAR_W` x `CHAR_H` pixels) with its
    /// top-left corner at `(x, y)`.
    fn draw_char(&mut self, x: u32, y: u32, ch: char, color: Color)
        ensures
            final(self).commands() == old(self).commands().push(DrawCmd::Glyph { x, y, ch, color }),
            final(self).spec_width() == old(self).spec_width(),
            final(self).spec_height() == old(self).spec_height(),
            old(self).pending().is_prefix_of(final(self).pending()),
    ;

    // ── Provided (override for hardware acceleration) ─────────────────────

    /// Draw a string at `(x, y)` advancing by `font::CHAR_W` per glyph,
    /// stopping at the first glyph that would cross the right edge.
    fn draw_text(&mut self, x: u32, y: u32, text: &str, color: Color)
        ensures
            final(self).commands() == old(self).commands() + text_cmds(
                x as int,
                y as int,
                text@,
                color,
                old(self).spec_width(),
            ),
            final(self).spec_width() == old(self).spec_width(),
            final(self).spec_height() == old(self).spec_height(),
            old(self).pending().is_prefix_of(final(self).pending()),
    {
        let ghost start = self.commands();
        let ghost width = self.spec_width();
        let ghost s = text@;
        let n = text.unicode_len();
        let mut cx = x;
        let mut i: usize = 0;
        loop
            invariant_except_break
                n == s.len(),
                s == text@,
                i <= n,
                width == self.spec_width(),
                self.spec_height() == old(self).spec_height(),
                old(self).pending().is_prefix_of(self.pending()),
                cx == x + 8 * i,
                i <= glyphs_fitting(x as int, width as int, s.len()),
                self.commands() == start + text_cmds(x as int, y as int, s, color, width).take(i as int),
            ensures
                width == self.spec_width(),
                self.spec_height() == old(self).spec_height(),
                old(self).pending().is_prefix_of(self.pending()),
                self.commands() == start + text_cmds(x as int, y as int, s, color, width),
            decreases n - i,
        {
            if i == n {
                assert(text_cmds(x as int, y as int, s, color, width).take(i as int)
                    =~= text_cmds(x as int, y as int, s, color, width));
                break;
            }
            if (cx as u64) + (CHAR_W as u64) > (self.width() as u64) {
                assert(glyphs_fitting(x as int, width as int, s.len()) == i);
                assert(text_cmds(x as int, y as int, s, color, width).take(i as int)
                    =~= text_cmds(x as int, y as int, s, color, width));
                break;
            }
            assert(i < glyphs_fitting(x as int, width as int, s.len()));
            let ch = text.get_char(i);
            let ghost before = self.pending();
            self.draw_char(cx, y, ch, color);
            proof {
                lemma_prefix_trans(old(self).pending(), before, self.pending());
            }
            assert(text_cmds(x as int, y as int, s, color, width).take(i + 1)
                =~= text_cmds(x as int, y as int, s, color, width).take(i as int).push(
                glyph_cmd(cx as int, y as int, ch, color),
            ));
            cx = cx + CHAR_W;
            i = i + 1;
        }
    }

    /// Draw a 1-pixel horizontal rule.
    fn hline(&mut self, x: u32, y: u32, w: u32, color: Color)
        ensures
            final(self).commands() == old(self).commands().push(fill_cmd(x as int, y as int, w as int, 1, color)),
            final(self).spec_width() == old(self).spec_width(),
            final(self).spec_height() == old(self).spec_height(),
            old(self).pending().is_prefix_of(final(self).pending()),
    {
        self.fill_rect(x, y, w, 1, color);
    }

    /// Draw a 1-pixel vertical rule.
    fn vline(&mut self, x: u32, y: u32, h: u32, color: Color)
        ensures
            final(self).commands() == old(self).commands().push(fill_cmd(x as int, y as int, 1, h as int, color)),
            final(self).spec_width() == old(self).spec_width(),
            final(self).spec_height() == old(self).spec_height(),
            old(self).pending().is_prefix_of(final(self).pending()),
    {
        self.fill_rect(x, y, 1, h, color);
    }

    /// Draw a hollow rectangle (border only, 1-pixel thick).
    fn draw_rect(&mut self, x: u32, y: u32, w: u32, h: u32, color: Color)
        requires
            outline_in_range(x as int, y as int, w as int, h as int),
        ensures
            final(self).commands() == old(self).commands() + outline_cmds(x as int, y as int, w as int, h as int, color),
            final(self).spec_width() == old(self).spec_width(),
            final(self).spec_height() == old(self).spec_height(),
            old(self).pending().is_prefix_of(final(self).pending()),
    {
        self.hline(x, y, w, color);
        self.hline(x, y + h - 1, w, color);
        self.vline(x, y, h, color);
        self.vline(x + w - 1, y, h, color);
        assert(self.commands() =~= old(self).commands() + outline_cmds(x as int, y as int, w as int, h as int, color));
    }

    /// Clear the entire framebuffer to `color`.
    fn clear(&mut self, color: Color)
        ensures
            final(self).commands() == old(self).commands().push(
                fill_cmd(0, 0, old(self).spec_width() as int, old(self).spec_height() as int, color),
            ),
            final(self).spec_width() == old(self).spec_width(),
            final(self).spec_height() == old(self).spec_height(),
            old(self).pending().is_prefix_of(final(self).pending()),
    {
        let (w, h) = (self.width(), self.height());
        self.fill_rect(0, 0, w, h, color);
    }

    /// Return `(width, height)` as a tuple.
    fn size(&self) -> (s: (u32, u32))
        ensures
            s == (self.spec_width(), self.spec_height()),
    {
        (self.width(), self.height())
    }
}

} // verus!
