//! Named palette.  Every entry is fully opaque: `rgb(r, g, b)` written out.

pub mod adwaita;

use vstd::prelude::*;
use crate::color::Color;

verus! {
// ── Neutrals ──
pub const BLACK: Color = 0xFF_000000;
pub const WHITE: Color = 0xFF_FFFFFF;
pub const DARK_GRAY: Color = 0xFF_1E1E1E;
pub const GRAY: Color = 0xFF_525252;
pub const LIGHT_GRAY: Color = 0xFF_CCCCCC;

// ── Standard ──
pub const RED: Color = 0xFF_F14C4C;
pub const GREEN: Color = 0xFF_40C040;
pub const BLUE: Color = 0xFF_007ACC;
pub const YELLOW: Color = 0xFF_FFD700;
pub const CYAN: Color = 0xFF_4EC9B0;
pub const ACCENT: Color = 0xFF_4EC9B0;

// ── Vibrant accents ──
pub const PURPLE: Color = 0xFF_8B5CF6;
pub const DEEP_PURPLE: Color = 0xFF_4C1D95;
pub const PINK: Color = 0xFF_EC4E99;
pub const ROSE: Color = 0xFF_FF4081;
pub const ORANGE: Color = 0xFF_FB8C00;
pub const AMBER: Color = 0xFF_FFCA28;
pub const TEAL: Color = 0xFF_00BFA5;
pub const INDIGO: Color = 0xFF_3D5AFE;
pub const NEON_CYAN: Color = 0xFF_00FFE5;
pub const ELECTRIC_BLUE: Color = 0xFF_00B4FF;
pub const GNOME_BLUE: Color = 0xFF_3584E4;

// ── Deep-space surfaces ──
pub const SURFACE: Color = 0xFF_0D0D16;
pub const SURFACE2: Color = 0xFF_131322;
pub const CARD_BG: Color = 0xFF_1A1A2E;
pub const CARD_BORDER: Color = 0xFF_2C2C4A;

// ── Legacy theme aliases (kept for backwards compat) ──
pub const DARK_BG: Color = 0xFF_1E1E1E;
pub const PANEL_BG: Color = 0xFF_252526;
pub const TOOLBAR_BG: Color = 0xFF_3C3C3C;
pub const STATUS_BG: Color = 0xFF_007ACC;
pub const TEXT: Color = 0xFF_D4D4D4;
pub const TEXT_DIM: Color = 0xFF_858585;
pub const DIVIDER: Color = 0xFF_3F3F46;

} // verus!
