//! The event queue of a windowed backend.
//!
//! A window system does not hand out events one by one: each poll, the
//! backend reads the window's state (is it open, its size, the keys
//! pressed this frame, the pointer position and buttons).  [`WindowEvents`]
//! turns those readings into a queue: it remembers what it has already
//! reported, so that each change is reported once and a window that does
//! not change runs out of events.

use vstd::prelude::*;
use crate::event::{Event, MouseButton};
use crate::keymap::{key_for_code, translate_key};

verus! {

/// One reading of the window's state.
pub struct WindowState {
    /// Whether the window is still open.
    pub open: bool,
    /// The window's size in pixels.
    pub size: (usize, usize),
    /// The size of the backend's framebuffer.
    pub buffer_size: (usize, usize),
    /// The codes of the keys pressed this frame, in the window system's
    /// order (see [`crate::keymap`]).
    pub keys: Vec<u8>,
    /// The pointer's position, when it is in the window.
    pub mouse: Option<(i32, i32)>,
    /// Whether the left, right and middle buttons are held down.
    pub buttons: (bool, bool, bool),
}

/// The event the pointer at `m` with `buttons` held reports: a press of the
/// first button held (left, then right, then middle), else a move.
pub open spec fn pointer_event(m: (i32, i32), buttons: (bool, bool, bool)) -> Event {
    if buttons.0 {
        Event::MouseButton { x: m.0, y: m.1, button: MouseButton::Left, pressed: true }
    } else if buttons.1 {
        Event::MouseButton { x: m.0, y: m.1, button: MouseButton::Right, pressed: true }
    } else if buttons.2 {
        Event::MouseButton { x: m.0, y: m.1, button: MouseButton::Middle, pressed: true }
    } else {
        Event::MouseMove { x: m.0, y: m.1 }
    }
}

/// A key-down event for each key code that maps to a key, in order.
pub open spec fn key_events(codes: Seq<u8>) -> Seq<Event>
    decreases codes.len(),
{
    if codes.len() == 0 {
        Seq::empty()
    } else {
        (match key_for_code(codes[0]) {
            Some(k) => seq![Event::KeyDown(k)],
            None => Seq::empty(),
        }) + key_events(codes.drop_first())
    }
}

/// What has been reported of a window so far.
pub struct WindowEvents {
    close_reported: bool,
    resize_reported: Option<(usize, usize)>,
    keys_reported: usize,
    pointer_reported: Option<((i32, i32), (bool, bool, bool))>,
}

impl WindowEvents {
    /// Whether the window's closing has been reported.
    pub closed spec fn close_reported(&self) -> bool {
        self.close_reported
    }

    /// The last window size reported by a resize event.
    pub closed spec fn resize_reported(&self) -> Option<(usize, usize)> {
        self.resize_reported
    }

    /// How many of this frame's key codes have been dealt with.
    pub closed spec fn keys_reported(&self) -> nat {
        self.keys_reported as nat
    }

    /// The pointer position and buttons last reported.
    pub closed spec fn pointer_reported(&self) -> Option<((i32, i32), (bool, bool, bool))> {
        self.pointer_reported
    }

    /// The events still to report for the window in state `w`, in order:
    /// `Close` alone once the window is closed, until it has been reported.
    /// While it is open: a `Resize` when the window's size differs from the
    /// framebuffer's and has not been reported, then a key-down for each
    /// mapped key of this frame not yet dealt with, then the pointer's event
    /// when the pointer is in the window and its position or buttons
    /// differ from those last reported.
    pub open spec fn pending(&self, w: WindowState) -> Seq<Event> {
        if !w.open {
            if self.close_reported() {
                Seq::empty()
            } else {
                seq![Event::Close]
            }
        } else {
            (if w.size != w.buffer_size && self.resize_reported() != Some(w.size) {
                seq![Event::Resize { width: w.size.0 as u32, height: w.size.1 as u32 }]
            } else {
                Seq::empty()
            }) + (if self.keys_reported() <= w.keys@.len() {
                key_events(w.keys@.skip(self.keys_reported() as int))
            } else {
                Seq::empty()
            }) + match w.mouse {
                Some(m) => if self.pointer_reported() == Some((m, w.buttons)) {
                    Seq::empty()
                } else {
                    seq![pointer_event(m, w.buttons)]
                },
                None => Seq::empty(),
            }
        }
    }

    /// The record of a window of which nothing has been reported yet.
    pub closed spec fn initial() -> Self {
        WindowEvents { close_reported: false, resize_reported: None, keys_reported: 0, pointer_reported: None }
    }

    /// Nothing is reported in the initial record.
    pub proof fn lemma_initial()
        ensures
            !Self::initial().close_reported(),
            Self::initial().resize_reported() is None,
            Self::initial().keys_reported() == 0,
            Self::initial().pointer_reported() is None,
    {
    }

    /// Nothing reported yet.
    pub fn new() -> (r: Self)
        ensures
            r == Self::initial(),
            !r.close_reported(),
            r.resize_reported() is None,
            r.keys_reported() == 0,
            r.pointer_reported() is None,
    {
        WindowEvents { close_reported: false, resize_reported: None, keys_reported: 0, pointer_reported: None }
    }

    /// A new frame has begun: the window's key list starts afresh.
    pub fn start_frame(&mut self)
        ensures
            final(self).close_reported() == old(self).close_reported(),
            final(self).resize_reported() == old(self).resize_reported(),
            final(self).keys_reported() == 0,
            final(self).pointer_reported() == old(self).pointer_reported(),
    {
        self.keys_reported = 0;
    }

    /// Report the next event of the window in state `w`: the first of the
    /// pending events, which then leaves the queue; `None` when nothing is
    /// pending.  Polling a window whose state does not change therefore
    /// reports each pending event once and then `None`.
    pub fn next_event(&mut self, w: &WindowState) -> (e: Option<Event>)
        ensures
            e == (if old(self).pending(*w).len() > 0 {
                Some(old(self).pending(*w)[0])
            } else {
                None::<Event>
            }),
            final(self).pending(*w) == (if old(self).pending(*w).len() > 0 {
                old(self).pending(*w).drop_first()
            } else {
                old(self).pending(*w)
            }),
    {
        let ghost p = self.pending(*w);
        // Window close
        if !w.open {
            if self.close_reported {
                return None;
            }
            self.close_reported = true;
            assert(self.pending(*w) =~= p.drop_first());
            return Some(Event::Close);
        }
        let ghost rest_keys = if self.keys_reported() <= w.keys@.len() {
            key_events(w.keys@.skip(self.keys_reported() as int))
        } else {
            Seq::empty()
        };
        let ghost rest_pointer = match w.mouse {
            Some(m) => if self.pointer_reported() == Some((m, w.buttons)) {
                Seq::empty()
            } else {
                seq![pointer_event(m, w.buttons)]
            },
            None => Seq::<Event>::empty(),
        };
        // Resize
        let (ww, wh) = w.size;
        if ww != w.buffer_size.0 || wh != w.buffer_size.1 {
            let already = match self.resize_reported {
                Some((rw, rh)) => rw == ww && rh == wh,
                None => false,
            };
            if !already {
                self.resize_reported = Some((ww, wh));
                assert(self.pending(*w) =~= p.drop_first());
                return Some(Event::Resize { width: ww as u32, height: wh as u32 });
            }
        }
        assert(p =~= rest_keys + rest_pointer);
        let ghost s0 = *self;
        // Keys pressed this frame
        if self.keys_reported < w.keys.len() {
            let mut i = self.keys_reported;
            while i < w.keys.len()
                invariant
                    w.open,
                    *self == s0,
                    p == old(self).pending(*w),
                    !(w.size != w.buffer_size && s0.resize_reported() != Some(w.size)),
                    rest_pointer == match w.mouse {
                        Some(m) => if s0.pointer_reported() == Some((m, w.buttons)) {
                            Seq::empty()
                        } else {
                            seq![pointer_event(m, w.buttons)]
                        },
                        None => Seq::<Event>::empty(),
                    },
                    p == rest_keys + rest_pointer,
                    p == self.pending(*w),
                    rest_keys == key_events(w.keys@.skip(s0.keys_reported() as int)),
                    s0.keys_reported() <= i <= w.keys@.len(),
                    rest_keys == key_events(w.keys@.skip(i as int)),
                decreases w.keys@.len() - i,
            {
                proof {
                    lemma_key_events_skip(w.keys@, i as int);
                }
                if let Some(k) = translate_key(w.keys[i]) {
                    self.keys_reported = i + 1;
                    assert(p =~= seq![Event::KeyDown(k)] + (key_events(w.keys@.skip(i + 1)) + rest_pointer));
                    assert(self.pending(*w) =~= p.drop_first());
                    return Some(Event::KeyDown(k));
                }
                i = i + 1;
            }
            proof {
                assert(w.keys@.skip(i as int) =~= Seq::<u8>::empty());
            }
            self.keys_reported = i;
        } else {
            assert(rest_keys =~= Seq::<Event>::empty()) by {
                if self.keys_reported() <= w.keys@.len() {
                    assert(w.keys@.skip(self.keys_reported() as int) =~= Seq::<u8>::empty());
                }
            }
        }
        assert((if self.keys_reported() <= w.keys@.len() {
            key_events(w.keys@.skip(self.keys_reported() as int))
        } else {
            Seq::empty()
        }) =~= Seq::<Event>::empty()) by {
            if self.keys_reported() <= w.keys@.len() {
                assert(w.keys@.skip(self.keys_reported() as int) =~= Seq::<u8>::empty());
            }
        }
        assert(rest_keys =~= Seq::<Event>::empty());
        // Pointer position and buttons
        match w.mouse {
            Some((mx, my)) => {
                let (left, right, middle) = w.buttons;
                let same = match self.pointer_reported {
                    Some(((px, py), (pl, pr, pm))) => px == mx && py == my && pl == left && pr == right
                        && pm == middle,
                    None => false,
                };
                if same {
                    return None;
                }
                self.pointer_reported = Some(((mx, my), (left, right, middle)));
                assert(self.pending(*w) =~= p.drop_first());
                if left {
                    return Some(Event::MouseButton { x: mx, y: my, button: MouseButton::Left, pressed: true });
                }
                if right {
                    return Some(Event::MouseButton { x: mx, y: my, button: MouseButton::Right, pressed: true });
                }
                if middle {
                    return Some(Event::MouseButton { x: mx, y: my, button: MouseButton::Middle, pressed: true });
                }
                // Mouse move (emitted whenever the pointer moves, so hover works)
                Some(Event::MouseMove { x: mx, y: my })
            },
            None => {
                self.pointer_reported = None;
                None
            },
        }
    }
}

/// The key events from index `i` on are those of code `i` followed by
/// those after it.
proof fn lemma_key_events_skip(codes: Seq<u8>, i: int)
    requires
        0 <= i < codes.len(),
    ensures
        key_events(codes.skip(i)) == (match key_for_code(codes[i]) {
            Some(k) => seq![Event::KeyDown(k)],
            None => Seq::empty(),
        }) + key_events(codes.skip(i + 1)),
{
    assert(codes.skip(i).drop_first() =~= codes.skip(i + 1));
    assert(codes.skip(i)[0] == codes[i]);
}

} // verus!

verus! {

/// A window that is open and no longer the framebuffer's size has a resize
/// to report first, with the window's size, exactly when that size is not
/// the one last reported: a later resize to another size is reported
/// again, and a resize already reported is not reported twice.
pub proof fn law_resize_reported(q: WindowEvents, w: WindowState)
    requires
        w.open,
        w.size != w.buffer_size,
    ensures
        q.resize_reported() != Some(w.size) ==> {
            &&& q.pending(w).len() > 0
            &&& q.pending(w)[0] == Event::Resize { width: w.size.0 as u32, height: w.size.1 as u32 }
        },
        q.resize_reported() == Some(w.size) ==> !(exists|i: int|
            0 <= i < q.pending(w).len() && #[trigger] q.pending(w)[i] is Resize),
{
    if q.resize_reported() == Some(w.size) {
        assert forall|i: int| 0 <= i < q.pending(w).len() implies !(#[trigger] q.pending(w)[i] is Resize) by {
            let keys = if q.keys_reported() <= w.keys@.len() {
                key_events(w.keys@.skip(q.keys_reported() as int))
            } else {
                Seq::empty()
            };
            lemma_key_events_are_key_downs(if q.keys_reported() <= w.keys@.len() {
                w.keys@.skip(q.keys_reported() as int)
            } else {
                Seq::empty()
            });
            if i < keys.len() {
                assert(q.pending(w)[i] == keys[i]);
            }
        }
    }
}

/// Every event that key codes give is a key press.
pub proof fn lemma_key_events_are_key_downs(codes: Seq<u8>)
    ensures
        forall|i: int| 0 <= i < key_events(codes).len() ==> #[trigger] key_events(codes)[i] is KeyDown,
    decreases codes.len(),
{
    if codes.len() > 0 {
        lemma_key_events_are_key_downs(codes.drop_first());
        let head: Seq<Event> = match key_for_code(codes[0]) {
            Some(k) => seq![Event::KeyDown(k)],
            None => Seq::empty(),
        };
        assert forall|i: int| 0 <= i < key_events(codes).len() implies #[trigger] key_events(codes)[i] is KeyDown by {
            if i >= head.len() {
                assert(key_events(codes)[i] == key_events(codes.drop_first())[i - head.len()]);
            }
        }
    }
}

} // verus!
