//! GNOME / Adwaita dark theme.
//!
//! Canonical colors for a GNOME-style desktop: flat dark headerbars,
//! a near-black top panel, the Adwaita blue accent (#3584e4), and
//! uniform translucent-style window-control buttons. Consumers (e.g. an
//! OS compositor) should source window-chrome and panel colors from here
//! so the whole desktop stays cohesive.

use vstd::prelude::*;
use crate::color::Color;

verus! {
// Surfaces
pub const WINDOW_BG: Color = 0xFF_242424;  // window content background
pub const HEADERBAR: Color = 0xFF_303030;  // focused titlebar
pub const HEADERBAR_UNFOCUSED: Color = 0xFF_282828;  // unfocused recedes toward window bg
pub const HEADERBAR_BORDER: Color = 0xFF_1B1B1B;  // 1px line under the headerbar
pub const WINDOW_BORDER: Color = 0xFF_141414;  // dark 1px outline around the window
pub const WINDOW_BORDER_FOCUSED: Color = 0xFF_444444;  // slightly lifted when focused

// Text
pub const TITLE: Color = 0xFF_FFFFFF;  // focused title
pub const TITLE_UNFOCUSED: Color = 0xFF_909090;  // dimmed when unfocused

// Accent
pub const ACCENT: Color = 0xFF_3584E4;  // Adwaita blue

// Window-control buttons (uniform circular, GNOME style)
pub const BTN_BG: Color = 0xFF_3A3A3A;  // button disc on a focused headerbar
pub const BTN_BG_UNFOCUSED: Color = 0xFF_323232;
pub const BTN_GLYPH: Color = 0xFF_DCDCDC;  // –, ▢ glyphs
pub const CLOSE_GLYPH: Color = 0xFF_F2F2F2;  // × glyph (slightly brighter)

// Top panel (GNOME Shell top bar — essentially black)
pub const PANEL_BG: Color = 0xFF_1B1B1B;
pub const PANEL_TEXT: Color = 0xFF_FFFFFF;
pub const PANEL_TEXT_DIM: Color = 0xFF_9A9A9A;
pub const PANEL_BORDER: Color = 0xFF_000000;

} // verus!
