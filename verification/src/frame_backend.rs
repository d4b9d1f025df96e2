//! `FrameBackend` — the verified core of a windowed backend.
//!
//! It holds everything a window backend keeps apart from the window itself:
//! the framebuffer, the record of reported events, and (as ghost state) the
//! list of drawing commands received.  Its methods have the contracts of the
//! matching [`Backend`](crate::backend::Backend) methods over that command
//! list and over the event queue of the window's latest reading, and it
//! keeps the invariant that its pixels show what the commands paint
//! ([`crate::render::buffer_after`]).  A window backend delegates to it and
//! does only the window's input and output itself.

use vstd::prelude::*;
use crate::backend::DrawCmd;
use crate::color::Color;
use crate::event::Event;
use crate::pixel_buffer::{PixelBuffer, filled_pixels, resized_pixels};
use crate::render::buffer_after;
use crate::window::{WindowEvents, WindowState};

verus! {

pub struct FrameBackend {
    buffer: PixelBuffer,
    events: WindowEvents,
    log: Ghost<Seq<DrawCmd>>,
    base: Ghost<Seq<u32>>,
    base_at: Ghost<nat>,
}

impl FrameBackend {
    /// The drawing commands received, oldest first.
    pub closed spec fn commands(&self) -> Seq<DrawCmd> {
        self.log@
    }

    /// The framebuffer's pixels, row by row, alpha stripped.
    pub closed spec fn pixels(&self) -> Seq<u32> {
        self.buffer.pixels()
    }

    pub closed spec fn spec_width(&self) -> nat {
        self.buffer.spec_width()
    }

    pub closed spec fn spec_height(&self) -> nat {
        self.buffer.spec_height()
    }

    /// The record of events reported so far.
    pub closed spec fn events(&self) -> WindowEvents {
        self.events
    }

    /// The events still to report for the window reading `w`.
    pub open spec fn pending(&self, w: WindowState) -> Seq<Event> {
        self.events().pending(w)
    }

    /// The pixels the framebuffer had when it last took its present size.
    pub closed spec fn base_pixels(&self) -> Seq<u32> {
        self.base@
    }

    /// How many commands had been received when the framebuffer last took
    /// its present size.
    pub closed spec fn sized_at(&self) -> nat {
        self.base_at@
    }

    /// The pixels show what the commands received since the framebuffer took
    /// its present size paint over the pixels it had then.
    pub open spec fn shows_commands(&self) -> bool {
        &&& self.sized_at() <= self.commands().len()
        &&& self.pixels() == buffer_after(
            self.base_pixels(),
            self.spec_width(),
            self.commands().skip(self.sized_at() as int),
        )
    }

    pub closed spec fn wf(&self) -> bool {
        &&& self.buffer.wf()
        &&& self.base@.len() == self.buffer.pixels().len()
        &&& self.shows_commands()
    }

    /// A black framebuffer of `width` x `height` pixels, no commands, nothing
    /// reported.
    pub fn new(width: u32, height: u32) -> (b: Self)
        requires
            width * height <= u32::MAX,
        ensures
            b.wf(),
            b.shows_commands(),
            b.commands() == Seq::<DrawCmd>::empty(),
            b.spec_width() == width,
            b.spec_height() == height,
            b.pixels() == Seq::new((width * height) as nat, |j: int| 0u32),
            b.events() == WindowEvents::initial(),
    {
        let buffer = PixelBuffer::new(width, height);
        let ghost px = buffer.pixels();
        let b = FrameBackend {
            buffer,
            events: WindowEvents::new(),
            log: Ghost(Seq::empty()),
            base: Ghost(px),
            base_at: Ghost(0),
        };
        assert(b.commands().skip(0) =~= Seq::<DrawCmd>::empty());
        b
    }

    /// Framebuffer width in pixels.
    pub fn width(&self) -> (w: u32)
        requires
            self.wf(),
        ensures
            w == self.spec_width(),
    {
        proof {
            self.buffer.lemma_wf();
        }
        self.buffer.width() as u32
    }

    /// Framebuffer height in pixels.
    pub fn height(&self) -> (h: u32)
        requires
            self.wf(),
        ensures
            h == self.spec_height(),
    {
        proof {
            self.buffer.lemma_wf();
        }
        self.buffer.height() as u32
    }

    /// The pixels, row by row, for handing to the window system.
    pub fn as_slice(&self) -> (s: &[u32])
        ensures
            s@ == self.pixels(),
    {
        self.buffer.as_slice()
    }

    /// Fill a rectangle: one `Fill` command, painted into the framebuffer
    /// (clipped, alpha stripped).
    pub fn fill_rect(&mut self, x: u32, y: u32, w: u32, h: u32, color: Color)
        requires
            old(self).wf(),
            x + w <= u32::MAX,
            y + h <= u32::MAX,
        ensures
            final(self).wf(),
            final(self).shows_commands(),
            final(self).commands() == old(self).commands().push(DrawCmd::Fill { x, y, w, h, color }),
            final(self).pixels() == filled_pixels(
                old(self).pixels(),
                old(self).spec_width(),
                x as int,
                y as int,
                w as int,
                h as int,
                (color % 0x100_0000) as u32,
            ),
            final(self).spec_width() == old(self).spec_width(),
            final(self).spec_height() == old(self).spec_height(),
            final(self).events() == old(self).events(),
    {
        let ghost old_log = self.log@;
        let ghost k = self.base_at@;
        self.buffer.fill_rect(x, y, w, h, color);
        let ghost cmd = DrawCmd::Fill { x, y, w, h, color };
        self.log = Ghost(self.log@.push(cmd));
        assert(self.log@.skip(k as int).drop_last() =~= old_log.skip(k as int));
        assert(self.log@.skip(k as int).last() == cmd);
    }

    /// Draw a glyph cell: one `Glyph` command.  The glyph bitmaps are not
    /// part of this crate, so the pixels are left as they are, as
    /// `buffer_after` reads glyph commands.
    pub fn draw_char(&mut self, x: u32, y: u32, ch: char, color: Color)
        requires
            old(self).wf(),
        ensures
            final(self).wf(),
            final(self).shows_commands(),
            final(self).commands() == old(self).commands().push(DrawCmd::Glyph { x, y, ch, color }),
            final(self).pixels() == old(self).pixels(),
            final(self).spec_width() == old(self).spec_width(),
            final(self).spec_height() == old(self).spec_height(),
            final(self).events() == old(self).events(),
    {
        let ghost old_log = self.log@;
        let ghost k = self.base_at@;
        let ghost cmd = DrawCmd::Glyph { x, y, ch, color };
        self.log = Ghost(self.log@.push(cmd));
        assert(self.log@.skip(k as int).drop_last() =~= old_log.skip(k as int));
        assert(self.log@.skip(k as int).last() == cmd);
    }

    /// Get the framebuffer ready to show a window of `w` x `h` pixels: one
    /// `Present` command; when the size changed, the framebuffer takes the
    /// new size (cut or extended with black) and shows the commands from
    /// here on over those pixels.
    pub fn present(&mut self, w: usize, h: usize)
        requires
            old(self).wf(),
            w <= u32::MAX,
            h <= u32::MAX,
            w * h <= usize::MAX,
        ensures
            final(self).wf(),
            final(self).shows_commands(),
            final(self).commands() == old(self).commands().push(DrawCmd::Present),
            final(self).spec_width() == w,
            final(self).spec_height() == h,
            final(self).pixels() == if w == old(self).spec_width() && h == old(self).spec_height() {
                old(self).pixels()
            } else {
                resized_pixels(old(self).pixels(), (w * h) as nat)
            },
            final(self).events() == old(self).events(),
    {
        let ghost old_log = self.log@;
        let ghost k = self.base_at@;
        let same = w == self.buffer.width() && h == self.buffer.height();
        self.buffer.resize(w, h);
        self.log = Ghost(self.log@.push(DrawCmd::Present));
        if same {
            assert(self.log@.skip(k as int).drop_last() =~= old_log.skip(k as int));
            assert(self.log@.skip(k as int).last() == DrawCmd::Present);
        } else {
            self.base = Ghost(self.buffer.pixels());
            self.base_at = Ghost(self.log@.len());
            assert(self.log@.skip(self.log@.len() as int) =~= Seq::<DrawCmd>::empty());
        }
    }

    /// A new frame of window input has begun.
    pub fn start_frame(&mut self)
        requires
            old(self).wf(),
        ensures
            final(self).wf(),
            final(self).commands() == old(self).commands(),
            final(self).pixels() == old(self).pixels(),
            final(self).spec_width() == old(self).spec_width(),
            final(self).spec_height() == old(self).spec_height(),
            final(self).events().close_reported() == old(self).events().close_reported(),
            final(self).events().resize_reported() == old(self).events().resize_reported(),
            final(self).events().keys_reported() == 0,
            final(self).events().pointer_reported() == old(self).events().pointer_reported(),
    {
        self.events.start_frame();
    }

    /// Return the next pending event of the window reading `w`, or `None`
    /// if none is pending; the event returned leaves the queue.
    pub fn poll_event(&mut self, w: &WindowState) -> (e: Option<Event>)
        requires
            old(self).wf(),
        ensures
            final(self).wf(),
            e == (if old(self).pending(*w).len() > 0 {
                Some(old(self).pending(*w)[0])
            } else {
                None::<Event>
            }),
            final(self).pending(*w) == (if old(self).pending(*w).len() > 0 {
                old(self).pending(*w).drop_first()
            } else {
                old(self).pending(*w)
            }),
            final(self).commands() == old(self).commands(),
            final(self).pixels() == old(self).pixels(),
            final(self).spec_width() == old(self).spec_width(),
            final(self).spec_height() == old(self).spec_height(),
    {
        self.events.next_event(w)
    }
}

} // verus!
