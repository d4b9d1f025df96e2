//! oxide-gui-core — portable GUI core: colors, input events, the `Backend`
//! trait and the `Canvas` widget layer built on it.
//!
//! ```text
//!  Your app
//!    │
//!    ▼
//!  Canvas<B>          ← drawing helper; holds a &mut B
//!    │  uses
//!    ▼
//!  Backend (trait)    ← fill_rect / draw_char / present / poll_event
//! ```
//!
//! Alongside the core: `pixel_buffer`, `keymap` and `window`, the computing
//! parts of a windowed backend (the framebuffer it draws into, its key table
//! and its event queue), `frame_backend`, which puts them together as the
//! verified core of a window backend, and `render`, the pixel reading of drawing commands
//! with the laws of the widgets.

pub mod color;
pub mod event;
pub mod font;
pub mod backend;
pub mod canvas;
pub mod pixel_buffer;
pub mod keymap;
pub mod window;
pub mod render;
pub mod frame_backend;
pub mod widget_laws;

pub use color::Color;
pub use event::{Event, Key, MouseButton};
pub use backend::Backend;
pub use canvas::Canvas;
