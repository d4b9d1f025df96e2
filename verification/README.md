# oxide-gui-core

The portable core of the oxide-gui toolkit, with its behaviour stated as
contracts and proved with Verus.

- `src/color.rs` — ARGB colors, channel access, integer linear interpolation;
  `src/color/palette.rs` and `src/color/palette/adwaita.rs` — named colors.
- `src/event.rs` — keys, mouse buttons and input events.
- `src/font.rs` — glyph cell metrics and text width.
- `src/backend.rs` — the `Backend` trait.  A backend is described by the list
  of drawing commands it has received and the queue of pending events (a poll
  returns the first and removes it); the provided methods (`draw_text`,
  `hline`, `vline`, `draw_rect`, `clear`, `size`) are proved to append exactly
  the commands they are made of.
- `src/canvas.rs` — `Canvas`, the widget layer: every widget's contract names
  the exact commands it draws.
- `src/render.rs` — what commands mean as pixels, and the laws of the widgets
  (panels, rounded fills, progress bars, gradients, shadows, text placement).
- `src/pixel_buffer.rs` — the framebuffer of a windowed backend, with clipped
  rectangle fills.
- `src/keymap.rs` — the window key table: window key codes to `Key`.
- `src/window.rs` — the event queue of a windowed backend: each change of the
  window's state is reported once, and an unchanged window runs out of events.
- `src/frame_backend.rs` — `FrameBackend`, the verified core of a window
  backend: framebuffer, event queue and a ghost command record, with the
  invariant that its pixels show what the recorded commands paint.
- `app/lib.rs` — `MinifbBackend`, the Linux window backend built on `minifb`: window
  input and output around a `FrameBackend`.
