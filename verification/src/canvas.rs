//! `Canvas<B>` — high-level drawing helper built on top of a `Backend`.
//!
//! `Canvas` holds a mutable reference to a `Backend` and adds convenience
//! methods (rounded rects, progress bars, shadow boxes) that are composed
//! from the primitives the backend already provides.  Nothing here touches
//! the framebuffer directly — every call goes through `Backend::fill_rect`
//! and `Backend::draw_text`.
//!
//! Each drawing method's contract names, by a spec function ending in
//! `_cmds`, the exact commands it appends to the backend's command list.

use vstd::prelude::*;
use crate::backend::{Backend, DrawCmd, next_pending, after_poll, lemma_prefix_trans, fill_cmd, text_cmds, outline_cmds, outline_in_range};
use crate::color::{Color, lerp, lerp_color, lerp_in_range, rgb, channel_gap, lerp_channel, red_of, green_of, blue_of,
    lemma_color_decomposes, lemma_lerp_channel_between, lemma_pack_channels};
use crate::color::palette;
use crate::event::Event;
use crate::font;
use crate::font::width_of_chars;

verus! {

/// `a - b`, or 0 where that is negative (`u32::saturating_sub`).
pub open spec fn sat_sub(a: int, b: int) -> int {
    if a >= b {
        a - b
    } else {
        0
    }
}

/// `after` is `before` with `cmds` appended to its command list, the same
/// framebuffer size, and every event that was pending still pending, in
/// order (drawing consumes no input; new input may arrive meanwhile).
pub open spec fn drew<B: Backend>(before: B, after: B, cmds: Seq<DrawCmd>) -> bool {
    &&& after.commands() == before.commands() + cmds
    &&& after.spec_width() == before.spec_width()
    &&& after.spec_height() == before.spec_height()
    &&& before.pending().is_prefix_of(after.pending())
}

/// Drawing `s1` and then `s2` draws `s1 + s2`.
pub proof fn lemma_drew_then<B: Backend>(a: B, b: B, c: B, s1: Seq<DrawCmd>, s2: Seq<DrawCmd>)
    requires
        drew(a, b, s1),
        drew(b, c, s2),
    ensures
        drew(a, c, s1 + s2),
{
    assert(c.commands() =~= a.commands() + (s1 + s2));
    lemma_prefix_trans(a.pending(), b.pending(), c.pending());
}

/// A filled rectangle with a 1-pixel border.
pub open spec fn panel_cmds(x: int, y: int, w: int, h: int, fill: Color, border: Color) -> Seq<DrawCmd> {
    seq![fill_cmd(x, y, w, h, fill)] + outline_cmds(x, y, w, h, border)
}

/// A filled strip with the title in white, 8 pixels in and centred vertically.
pub open spec fn title_bar_cmds(x: int, y: int, w: int, h: int, title: Seq<char>, bg: Color, width: u32) -> Seq<DrawCmd> {
    seq![fill_cmd(x, y, w, h, bg)] + text_cmds(x + 8, y + (h - 16) / 2, title, palette::WHITE, width)
}

/// A panel with its label centred in it.
pub open spec fn button_cmds(
    x: int, y: int, w: int, h: int, label: Seq<char>,
    fill: Color, border: Color, text_color: Color, width: u32,
) -> Seq<DrawCmd> {
    panel_cmds(x, y, w, h, fill, border) + text_cmds(
        x + sat_sub(w, width_of_chars(label.len()) as int) / 2,
        y + sat_sub(h, 16) / 2,
        label,
        text_color,
        width,
    )
}

/// The share of a `w`-pixel bar that `percent` (clamped to 100) fills.
pub open spec fn filled_width(w: int, percent: int) -> int {
    w * (if percent < 100 { percent } else { 100 }) / 100
}

/// The inputs on which the filled width is computed in `u32` without overflow.
pub open spec fn fill_in_range(w: int, percent: int) -> bool {
    w * (if percent < 100 { percent } else { 100 }) <= u32::MAX
}

/// The track, the filled part (when it is wider than 0) and the border.
pub open spec fn progress_bar_cmds(
    x: int, y: int, w: int, h: int, percent: int,
    track: Color, fill: Color, border: Color,
) -> Seq<DrawCmd> {
    seq![fill_cmd(x, y, w, h, track)]
        + (if filled_width(w, percent) > 0 {
            seq![fill_cmd(x, y, filled_width(w, percent), h, fill)]
        } else {
            Seq::empty()
        })
        + outline_cmds(x, y, w, h, border)
}

/// The text starting so that it is centred in the `w`-wide strip at `x`.
pub open spec fn centered_text_cmds(x: int, y: int, w: int, text: Seq<char>, color: Color, width: u32) -> Seq<DrawCmd> {
    text_cmds(x + sat_sub(w, width_of_chars(text.len()) as int) / 2, y, text, color, width)
}

/// The text starting so that it ends at `x + w`.
pub open spec fn right_text_cmds(x: int, y: int, w: int, text: Seq<char>, color: Color, width: u32) -> Seq<DrawCmd> {
    text_cmds(x + sat_sub(w, width_of_chars(text.len()) as int), y, text, color, width)
}

pub open spec fn centered_in_range(x: int, w: int, text: Seq<char>) -> bool {
    x + sat_sub(w, width_of_chars(text.len()) as int) / 2 <= u32::MAX
}

pub open spec fn right_in_range(x: int, w: int, text: Seq<char>) -> bool {
    x + sat_sub(w, width_of_chars(text.len()) as int) <= u32::MAX
}

/// A rectangle with each corner pixel left out: a full-height body one pixel
/// in from each side and the two 1-pixel side strips between the corners.
/// A rectangle narrower or shorter than 2 pixels is filled whole.
pub open spec fn fill_rounded_cmds(x: int, y: int, w: int, h: int, color: Color) -> Seq<DrawCmd> {
    if w < 2 || h < 2 {
        seq![fill_cmd(x, y, w, h, color)]
    } else {
        seq![
            fill_cmd(x + 1, y, w - 2, h, color),
            fill_cmd(x, y + 1, 1, h - 2, color),
            fill_cmd(x + w - 1, y + 1, 1, h - 2, color),
        ]
    }
}

pub open spec fn rounded_in_range(x: int, y: int, w: int, h: int) -> bool {
    w < 2 || h < 2 || (x + w <= u32::MAX && y + 1 <= u32::MAX)
}

/// The number of steps a gradient across `n` pixels takes: `max(n - 1, 1)`.
pub open spec fn gradient_steps(n: int) -> int {
    if n - 1 > 1 {
        n - 1
    } else {
        1
    }
}

/// The inputs on which every colour of a gradient across `n` pixels is
/// computed without overflow.
pub open spec fn gradient_in_range(a: Color, b: Color, n: int) -> bool {
    &&& channel_gap(a, b, 0) * (n - 1) <= u32::MAX
    &&& channel_gap(a, b, 1) * (n - 1) <= u32::MAX
    &&& channel_gap(a, b, 2) * (n - 1) <= u32::MAX
}

/// `n` one-pixel-wide columns of height `h` from `(x, y)` rightwards, column
/// `i` coloured `lerp(a, b, i, steps)`.
pub open spec fn columns_cmds(x: int, y: int, n: int, h: int, a: Color, b: Color, steps: int) -> Seq<DrawCmd> {
    Seq::new(n as nat, |i: int| fill_cmd(x + i, y, 1, h, lerp(a, b, i as u32, steps as u32) as u32))
}

/// `n` one-pixel-tall rows of width `w` from `(x, y)` downwards, row `i`
/// coloured `lerp(a, b, i, steps)`.
pub open spec fn rows_cmds(x: int, y: int, w: int, n: int, a: Color, b: Color, steps: int) -> Seq<DrawCmd> {
    Seq::new(n as nat, |i: int| fill_cmd(x, y + i, w, 1, lerp(a, b, i as u32, steps as u32) as u32))
}

proof fn lemma_gap_scaled(g: int, i: int, n: int)
    by (nonlinear_arith)
    requires
        0 <= g,
        0 <= i <= n,
    ensures
        g * i <= g * n,
{
}

/// Each colour of a gradient across `n` pixels is in range of `lerp_color`.
proof fn lemma_gradient_step(a: Color, b: Color, i: u32, n: int)
    requires
        gradient_in_range(a, b, n),
        i < n <= u32::MAX,
    ensures
        lerp_in_range(a, b, i, gradient_steps(n) as u32),
        0 <= lerp(a, b, i, gradient_steps(n) as u32) <= u32::MAX,
{
    lemma_gap_scaled(channel_gap(a, b, 0), i as int, n - 1);
    lemma_gap_scaled(channel_gap(a, b, 1), i as int, n - 1);
    lemma_gap_scaled(channel_gap(a, b, 2), i as int, n - 1);
    lemma_lerp_in_u32(a, b, i, gradient_steps(n) as u32);
}

/// A interpolated colour is a `u32`.
pub proof fn lemma_lerp_in_u32(a: Color, b: Color, t: u32, steps: u32)
    requires
        lerp_in_range(a, b, t, steps),
    ensures
        0 <= lerp(a, b, t, steps) <= u32::MAX,
{
    if steps > 0 {
        lemma_color_decomposes(a);
        lemma_color_decomposes(b);
        lemma_lerp_channel_between(red_of(a), red_of(b), t as int, steps as int);
        lemma_lerp_channel_between(green_of(a), green_of(b), t as int, steps as int);
        lemma_lerp_channel_between(blue_of(a), blue_of(b), t as int, steps as int);
        lemma_pack_channels(
            0xFF,
            lerp_channel(red_of(a), red_of(b), t as int, steps as int),
            lerp_channel(green_of(a), green_of(b), t as int, steps as int),
            lerp_channel(blue_of(a), blue_of(b), t as int, steps as int),
        );
    }
}

/// Interpolating in at most `0x0101_0101` steps never overflows, whatever the colours.
pub proof fn lemma_lerp_in_range_few_steps(a: Color, b: Color, t: u32, steps: u32)
    requires
        t <= steps <= 0x0101_0101,
    ensures
        lerp_in_range(a, b, t, steps),
{
    lemma_color_decomposes(a);
    lemma_color_decomposes(b);
    lemma_gap_scaled(channel_gap(a, b, 0), t as int, 0x0101_0101);
    lemma_gap_scaled(channel_gap(a, b, 1), t as int, 0x0101_0101);
    lemma_gap_scaled(channel_gap(a, b, 2), t as int, 0x0101_0101);
    assert(channel_gap(a, b, 0) * 0x0101_0101 <= 255 * 0x0101_0101);
    assert(channel_gap(a, b, 1) * 0x0101_0101 <= 255 * 0x0101_0101);
    assert(channel_gap(a, b, 2) * 0x0101_0101 <= 255 * 0x0101_0101);
}

/// The drop shadow, 4 pixels down and right, then the panel.
pub open spec fn shadow_panel_cmds(x: int, y: int, w: int, h: int, fill: Color, border: Color) -> Seq<DrawCmd> {
    seq![fill_cmd(x + 4, y + 4, w, h, palette::BLACK)] + panel_cmds(x, y, w, h, fill, border)
}

/// The rounded square and the label centred in it, in white.
pub open spec fn icon_tile_cmds(x: int, y: int, size: int, bg: Color, label: Seq<char>, width: u32) -> Seq<DrawCmd> {
    fill_rounded_cmds(x, y, size, size, bg)
        + centered_text_cmds(x, y + sat_sub(size, 16) / 2, size, label, palette::WHITE, width)
}

/// The track, the gradient fill across the filled width (when it is wider
/// than 0) and the border.
pub open spec fn gradient_progress_cmds(
    x: int, y: int, w: int, h: int, percent: int,
    track: Color, fill_l: Color, fill_r: Color, border: Color,
) -> Seq<DrawCmd> {
    let fw = filled_width(w, percent);
    seq![fill_cmd(x, y, w, h, track)]
        + columns_cmds(x, y, fw, h, fill_l, fill_r, gradient_steps(fw))
        + outline_cmds(x, y, w, h, border)
}

/// A rectangle with 4-pixel rounded corners: the body between the rounded
/// rows, then a three-step staircase of rows at the top and at the bottom.
/// A rectangle narrower or shorter than 8 pixels is filled whole.
pub open spec fn fill_round4_cmds(x: int, y: int, w: int, h: int, color: Color) -> Seq<DrawCmd> {
    if w < 8 || h < 8 {
        seq![fill_cmd(x, y, w, h, color)]
    } else {
        seq![
            fill_cmd(x, y + 4, w, h - 8, color),
            fill_cmd(x + 4, y, w - 8, 1, color),
            fill_cmd(x + 2, y + 1, w - 4, 1, color),
            fill_cmd(x + 1, y + 2, w - 2, 2, color),
            fill_cmd(x + 1, y + h - 4, w - 2, 2, color),
            fill_cmd(x + 2, y + h - 2, w - 4, 1, color),
            fill_cmd(x + 4, y + h - 1, w - 8, 1, color),
        ]
    }
}

pub open spec fn round4_in_range(x: int, y: int, w: int, h: int) -> bool {
    w < 8 || h < 8 || (x + 4 <= u32::MAX && y + h <= u32::MAX)
}

/// The track colour of a switch that is off.
pub open spec fn switch_off_color() -> Color {
    0xFF4A_4A4Au32
}

/// A 52x26 switch: the pill (body and two rounded caps) in `accent` when on,
/// grey when off, then the white 22x22 knob at the right end when on, at
/// the left end when off.
pub open spec fn toggle_switch_cmds(x: int, y: int, on: bool, accent: Color) -> Seq<DrawCmd> {
    let bg = if on { accent } else { switch_off_color() };
    let kx = if on { x + 28 } else { x + 2 };
    seq![fill_cmd(x + 13, y, 26, 26, bg)]
        + fill_round4_cmds(x, y, 26, 26, bg)
        + fill_round4_cmds(x + 26, y, 26, 26, bg)
        + fill_round4_cmds(kx, y + 2, 22, 22, palette::WHITE)
}

pub open spec fn toggle_in_range(x: int, y: int, on: bool) -> bool {
    &&& x + (if on { 32int } else { 30int }) <= u32::MAX
    &&& y + 26 <= u32::MAX
}

/// The background of an action row.
pub open spec fn row_bg(hovered: bool) -> Color {
    if hovered {
        0xFF24_243Cu32
    } else {
        palette::CARD_BG
    }
}

/// The common start of the action rows: the 52-pixel background, the title
/// and, when it is not empty, the subtitle below it.
pub open spec fn row_head_cmds(
    x: int, y: int, w: int, title: Seq<char>, subtitle: Seq<char>, hovered: bool, width: u32,
) -> Seq<DrawCmd> {
    seq![fill_cmd(x, y, w, 52, row_bg(hovered))]
        + text_cmds(x + 16, y + 10, title, palette::TEXT, width)
        + (if subtitle.len() > 0 {
            text_cmds(x + 16, y + 30, subtitle, palette::TEXT_DIM, width)
        } else {
            Seq::empty()
        })
}

/// The inputs on which an action row's positions are computed without
/// overflow: the title at `(x + 16, y + 10)`, the subtitle at `y + 30` when
/// there is one, and the separator at `y + 51` (computed as `y + 52 - 1`)
/// when the row is not the last.
pub open spec fn row_in_range(x: int, y: int, subtitle: Seq<char>, last: bool) -> bool {
    &&& x + 16 <= u32::MAX
    &&& y + 10 <= u32::MAX
    &&& subtitle.len() > 0 ==> y + 30 <= u32::MAX
    &&& !last ==> y + 52 <= u32::MAX
}

/// The separator under an action row, left out on the last row of a group.
pub open spec fn row_separator_cmds(x: int, y: int, w: int, last: bool) -> Seq<DrawCmd> {
    if last {
        Seq::empty()
    } else {
        seq![fill_cmd(x + 16, y + 51, sat_sub(w, 16), 1, palette::CARD_BORDER)]
    }
}

pub open spec fn action_row_cmds(
    x: int, y: int, w: int, title: Seq<char>, subtitle: Seq<char>, value: Seq<char>,
    hovered: bool, last: bool, width: u32,
) -> Seq<DrawCmd> {
    row_head_cmds(x, y, w, title, subtitle, hovered, width)
        + (if value.len() > 0 {
            right_text_cmds(x, y + 18, sat_sub(w, 16), value, palette::TEXT_DIM, width)
        } else {
            Seq::empty()
        })
        + row_separator_cmds(x, y, w, last)
}

pub open spec fn action_row_toggle_cmds(
    x: int, y: int, w: int, title: Seq<char>, subtitle: Seq<char>, on: bool, accent: Color,
    hovered: bool, last: bool, width: u32,
) -> Seq<DrawCmd> {
    row_head_cmds(x, y, w, title, subtitle, hovered, width)
        + toggle_switch_cmds(x + sat_sub(w, 68), y + 13, on, accent)
        + row_separator_cmds(x, y, w, last)
}

pub open spec fn action_row_nav_cmds(
    x: int, y: int, w: int, title: Seq<char>, subtitle: Seq<char>,
    hovered: bool, last: bool, width: u32,
) -> Seq<DrawCmd> {
    row_head_cmds(x, y, w, title, subtitle, hovered, width)
        + text_cmds(x + sat_sub(w, 24), y + 18, ">"@, palette::TEXT_DIM, width)
        + row_separator_cmds(x, y, w, last)
}

/// The fill of the search entry.
pub open spec fn search_fill_color() -> Color {
    0xFF1E_1E30u32
}

/// A 36-pixel rounded entry with its border (accent when focused, plus an
/// inner border halfway between accent and card colour), the magnifier
/// glyph, and the query text or, when it is empty, the dim placeholder.
pub open spec fn search_bar_cmds(
    x: int, y: int, w: int, text: Seq<char>, focused: bool, accent: Color, width: u32,
) -> Seq<DrawCmd> {
    let border = if focused { accent } else { palette::CARD_BORDER };
    fill_round4_cmds(x, y, w, 36, search_fill_color())
        + outline_cmds(x, y, w, 36, border)
        + (if focused {
            outline_cmds(x + 1, y + 1, w - 2, 34, lerp(border, palette::CARD_BG, 1, 2) as u32)
        } else {
            Seq::empty()
        })
        + text_cmds(x + 8, y + 10, "O"@, palette::TEXT_DIM, width)
        + (if text.len() == 0 {
            text_cmds(x + 28, y + 10, "Search..."@, palette::TEXT_DIM, width)
        } else {
            text_cmds(x + 28, y + 10, text, palette::TEXT, width)
        })
}

/// The colour of the header-bar buttons.
pub open spec fn header_button_color() -> Color {
    0xFF30_304Au32
}

/// A 48-pixel header bar: background, bottom border, the back button when
/// asked for, the centred title, and the three-dot menu button at the end.
pub open spec fn gnome_headerbar_cmds(
    x: int, y: int, w: int, title: Seq<char>, has_back: bool, bg: Color, width: u32,
) -> Seq<DrawCmd> {
    let mx = x + sat_sub(w, 50);
    seq![fill_cmd(x, y, w, 48, bg), fill_cmd(x, y + 47, w, 1, palette::CARD_BORDER)]
        + (if has_back {
            fill_round4_cmds(x + 8, y + 7, 34, 34, header_button_color())
                + text_cmds(x + 18, y + 16, "<"@, palette::TEXT, width)
        } else {
            Seq::empty()
        })
        + centered_text_cmds(x, y + 16, w, title, palette::TEXT, width)
        + fill_round4_cmds(mx, y + 7, 34, 34, header_button_color())
        + seq![
            fill_cmd(mx + 7, y + 21, 4, 4, palette::TEXT_DIM),
            fill_cmd(mx + 15, y + 21, 4, 4, palette::TEXT_DIM),
            fill_cmd(mx + 23, y + 21, 4, 4, palette::TEXT_DIM),
        ]
}

/// A 44-pixel toast: drop shadow, rounded background, border, the accent
/// square, the message, and the dismiss glyph at the end.
pub open spec fn toast_cmds(x: int, y: int, w: int, message: Seq<char>, accent: Color, width: u32) -> Seq<DrawCmd> {
    seq![fill_cmd(x + 4, y + 4, w, 44, palette::BLACK)]
        + fill_round4_cmds(x, y, w, 44, 0xFF2E_2E46u32)
        + outline_cmds(x, y, w, 44, 0xFF44_4466u32)
        + seq![fill_cmd(x + 12, y + 18, 8, 8, accent)]
        + text_cmds(x + 28, y + 14, message, palette::TEXT, width)
        + text_cmds(x + sat_sub(w, 22), y + 14, "x"@, palette::TEXT_DIM, width)
}

/// The rounded square and the initials centred in it, in white.
pub open spec fn avatar_cmds(x: int, y: int, size: int, initials: Seq<char>, color: Color, width: u32) -> Seq<DrawCmd> {
    fill_round4_cmds(x, y, size, size, color) + text_cmds(
        x + sat_sub(size, width_of_chars(initials.len()) as int) / 2,
        y + sat_sub(size, 16) / 2,
        initials,
        palette::WHITE,
        width,
    )
}

/// A 22-pixel rounded chip 16 pixels wider than its text, and the text.
pub open spec fn chip_cmds(x: int, y: int, text: Seq<char>, bg: Color, fg: Color, width: u32) -> Seq<DrawCmd> {
    fill_round4_cmds(x, y, width_of_chars(text.len()) + 16, 22, bg) + text_cmds(x + 8, y + 3, text, fg, width)
}

/// The offset from the centre of the spinner's dot `i`, clockwise from the top.
pub open spec fn spinner_offset_spec(i: int) -> (int, int) {
    if i == 0 {
        (0, -10)
    } else if i == 1 {
        (7, -7)
    } else if i == 2 {
        (10, 0)
    } else if i == 3 {
        (7, 7)
    } else if i == 4 {
        (0, 10)
    } else if i == 5 {
        (-7, 7)
    } else if i == 6 {
        (-10, 0)
    } else {
        (-7, -7)
    }
}

fn spinner_offset(i: usize) -> (d: (i32, i32))
    requires
        i < 8,
    ensures
        (d.0 as int, d.1 as int) == spinner_offset_spec(i as int),
{
    match i {
        0 => (0, -10),
        1 => (7, -7),
        2 => (10, 0),
        3 => (7, 7),
        4 => (0, 10),
        5 => (-7, 7),
        6 => (-10, 0),
        _ => (-7, -7),
    }
}

/// `u` read as an `i32` (two's complement), as `u as i32` does.
pub open spec fn as_signed(u: u32) -> int {
    if u <= i32::MAX {
        u as int
    } else {
        u - 0x1_0000_0000
    }
}

/// The inputs on which the spinner's dot positions are computed in `i32`
/// without overflow: the centre, read as an `i32`, is at least 11 above
/// `i32::MIN` and at least 10 below `i32::MAX`.
pub open spec fn spinner_in_range(cx: u32, cy: u32) -> bool {
    &&& i32::MIN + 11 <= as_signed(cx) <= i32::MAX - 10
    &&& i32::MIN + 11 <= as_signed(cy) <= i32::MAX - 10
}

/// The spinner's dot `i`: a 3x3 square centred on the dot's position, its
/// colour faded toward the surface colour by its age behind the head dot
/// `frame / 4 % 8`; left out when its top-left corner is above or left of 0.
pub open spec fn spinner_dot_cmds(cx: u32, cy: u32, frame: u32, color: Color, i: int) -> Seq<DrawCmd> {
    let head = (frame / 4) % 8;
    let age = (i + 8 - head) % 8;
    let px = as_signed(cx) + spinner_offset_spec(i).0 - 1;
    let py = as_signed(cy) + spinner_offset_spec(i).1 - 1;
    if px >= 0 && py >= 0 {
        seq![fill_cmd(px, py, 3, 3, lerp(color, palette::SURFACE, age as u32, 7) as u32)]
    } else {
        Seq::empty()
    }
}

/// The spinner's dots `0..n`, in order.
pub open spec fn spinner_dots_cmds(cx: u32, cy: u32, frame: u32, color: Color, n: int) -> Seq<DrawCmd>
    decreases n,
{
    if n <= 0 {
        Seq::empty()
    } else {
        spinner_dots_cmds(cx, cy, frame, color, n - 1) + spinner_dot_cmds(cx, cy, frame, color, n - 1)
    }
}

pub proof fn lemma_as_signed(u: u32)
    ensures
        (u as i32) as int == as_signed(u),
{
    assert(u <= 0x7fff_ffffu32 ==> (u as i32) as u32 == u && (u as i32) >= 0) by (bit_vector);
    assert(u > 0x7fff_ffffu32 ==> (u as i32) < 0 && ((u as i32) as u32) == u) by (bit_vector);
    assert(u > 0x7fff_ffffu32 ==> (u as i32) as int == u - 0x1_0000_0000) by (bit_vector);
}

/// Drawing helper over a borrowed backend.  Every drawing method appends
/// its commands to the backend's command list and leaves the framebuffer
/// size unchanged ([`drew`]); every `&mut self` method keeps the canvas on
/// the same borrow, so that once the canvas is dropped the backend holds
/// what the canvas last held.
pub struct Canvas<'b, B: Backend> {
    /// The backend drawn on.  Public so that contracts can relate the
    /// canvas's borrow to the backend it was made from.
    pub backend: &'b mut B,
}

impl<'b, B: Backend> Canvas<'b, B> {
    /// The backend's current state.
    pub open spec fn target(&self) -> B {
        mut_ref_current(self.backend)
    }

    pub fn new(backend: &'b mut B) -> (c: Self)
        ensures
            c.target() == *old(backend),
            mut_ref_future(c.backend) == *final(backend),
    {
        Self { backend }
    }

    // ── Delegation ────────────────────────────────────────────────────────

    pub fn width(&self) -> (w: u32)
        ensures
            w == self.target().spec_width(),
    {
        self.backend.width()
    }

    pub fn height(&self) -> (h: u32)
        ensures
            h == self.target().spec_height(),
    {
        self.backend.height()
    }

    pub fn size(&self) -> (s: (u32, u32))
        ensures
            s == (self.target().spec_width(), self.target().spec_height()),
    {
        self.backend.size()
    }

    pub fn fill_rect(&mut self, x: u32, y: u32, w: u32, h: u32, color: Color)
        ensures
            drew(old(self).target(), final(self).target(), seq![fill_cmd(x as int, y as int, w as int, h as int, color)]),
            mut_ref_future(final(self).backend) == mut_ref_future(old(self).backend),
    {
        self.backend.fill_rect(x, y, w, h, color);
        assert(self.target().commands() =~= old(self).target().commands() + seq![fill_cmd(x as int, y as int, w as int, h as int, color)]);
    }

    pub fn draw_text(&mut self, x: u32, y: u32, text: &str, color: Color)
        ensures
            drew(
                old(self).target(),
                final(self).target(),
                text_cmds(x as int, y as int, text@, color, old(self).target().spec_width()),
            ),
            mut_ref_future(final(self).backend) == mut_ref_future(old(self).backend),
    {
        self.backend.draw_text(x, y, text, color);
    }

    pub fn hline(&mut self, x: u32, y: u32, w: u32, color: Color)
        ensures
            drew(old(self).target(), final(self).target(), seq![fill_cmd(x as int, y as int, w as int, 1, color)]),
            mut_ref_future(final(self).backend) == mut_ref_future(old(self).backend),
    {
        self.backend.hline(x, y, w, color);
        assert(self.target().commands() =~= old(self).target().commands() + seq![fill_cmd(x as int, y as int, w as int, 1, color)]);
    }

    pub fn vline(&mut self, x: u32, y: u32, h: u32, color: Color)
        ensures
            drew(old(self).target(), final(self).target(), seq![fill_cmd(x as int, y as int, 1, h as int, color)]),
            mut_ref_future(final(self).backend) == mut_ref_future(old(self).backend),
    {
        self.backend.vline(x, y, h, color);
        assert(self.target().commands() =~= old(self).target().commands() + seq![fill_cmd(x as int, y as int, 1, h as int, color)]);
    }

    pub fn draw_rect(&mut self, x: u32, y: u32, w: u32, h: u32, color: Color)
        requires
            outline_in_range(x as int, y as int, w as int, h as int),
        ensures
            drew(old(self).target(), final(self).target(), outline_cmds(x as int, y as int, w as int, h as int, color)),
            mut_ref_future(final(self).backend) == mut_ref_future(old(self).backend),
    {
        self.backend.draw_rect(x, y, w, h, color);
    }

    pub fn clear(&mut self, color: Color)
        ensures
            drew(
                old(self).target(),
                final(self).target(),
                seq![fill_cmd(0, 0, old(self).target().spec_width() as int, old(self).target().spec_height() as int, color)],
            ),
            mut_ref_future(final(self).backend) == mut_ref_future(old(self).backend),
    {
        self.backend.clear(color);
        assert(self.target().commands() =~= old(self).target().commands() + seq![fill_cmd(0, 0, old(self).target().spec_width() as int, old(self).target().spec_height() as int, color)]);
    }

    pub fn present(&mut self)
        ensures
            final(self).target().commands() == old(self).target().commands().push(DrawCmd::Present),
            mut_ref_future(final(self).backend) == mut_ref_future(old(self).backend),
    {
        self.backend.present();
    }

    pub fn poll_event(&mut self) -> (e: Option<Event>)
        ensures
            e == next_pending(old(self).target().pending()),
            final(self).target().pending() == after_poll(old(self).target().pending()),
            final(self).target().commands() == old(self).target().commands(),
            final(self).target().spec_width() == old(self).target().spec_width(),
            final(self).target().spec_height() == old(self).target().spec_height(),
            mut_ref_future(final(self).backend) == mut_ref_future(old(self).backend),
    {
        self.backend.poll_event()
    }

    // ── Composition helpers ───────────────────────────────────────────────

    /// Draw a filled rectangle with a 1-pixel border.
    pub fn panel(&mut self, x: u32, y: u32, w: u32, h: u32, fill: Color, border: Color)
        requires
            outline_in_range(x as int, y as int, w as int, h as int),
        ensures
            drew(old(self).target(), final(self).target(), panel_cmds(x as int, y as int, w as int, h as int, fill, border)),
            mut_ref_future(final(self).backend) == mut_ref_future(old(self).backend),
    {
        self.fill_rect(x, y, w, h, fill);
        let ghost mid = self.target();
        self.draw_rect(x, y, w, h, border);
        proof {
            lemma_drew_then(old(self).target(), mid, self.target(),
                seq![fill_cmd(x as int, y as int, w as int, h as int, fill)],
                outline_cmds(x as int, y as int, w as int, h as int, border));
        }
    }

    /// Draw a title bar: filled strip + white text.
    pub fn title_bar(&mut self, x: u32, y: u32, w: u32, h: u32, title: &str, bg: Color)
        requires
            h >= font::CHAR_H,
            x + 8 <= u32::MAX,
            y + (h - 16) / 2 <= u32::MAX,
        ensures
            drew(
                old(self).target(),
                final(self).target(),
                title_bar_cmds(x as int, y as int, w as int, h as int, title@, bg, old(self).target().spec_width()),
            ),
            mut_ref_future(final(self).backend) == mut_ref_future(old(self).backend),
    {
        self.fill_rect(x, y, w, h, bg);
        let ghost mid = self.target();
        let pad = 8u32;
        self.draw_text(x + pad, y + (h - font::CHAR_H) / 2, title, palette::WHITE);
        proof {
            lemma_drew_then(old(self).target(), mid, self.target(),
                seq![fill_cmd(x as int, y as int, w as int, h as int, bg)],
                text_cmds(x + 8, y + (h - 16) / 2, title@, palette::WHITE, mid.spec_width()));
        }
    }

    /// Draw a simple button with border, fill, and centred label.
    pub fn button(
        &mut self,
        x: u32, y: u32, w: u32, h: u32,
        label: &str,
        fill: Color, border: Color, text_color: Color,
    )
        requires
            outline_in_range(x as int, y as int, w as int, h as int),
        ensures
            drew(
                old(self).target(),
                final(self).target(),
                button_cmds(x as int, y as int, w as int, h as int, label@, fill, border, text_color,
                    old(self).target().spec_width()),
            ),
            mut_ref_future(final(self).backend) == mut_ref_future(old(self).backend),
    {
        self.panel(x, y, w, h, fill, border);
        let ghost mid = self.target();
        let lw = font::text_width(label);
        let tx = x + w.saturating_sub(lw) / 2;
        let ty = y + h.saturating_sub(font::CHAR_H) / 2;
        self.draw_text(tx, ty, label, text_color);
        proof {
            lemma_drew_then(old(self).target(), mid, self.target(),
                panel_cmds(x as int, y as int, w as int, h as int, fill, border),
                text_cmds(tx as int, ty as int, label@, text_color, mid.spec_width()));
        }
    }

    /// Draw a horizontal progress bar.  `percent` is clamped to 0–100.
    pub fn progress_bar(
        &mut self,
        x: u32, y: u32, w: u32, h: u32,
        percent: u32,
        track: Color, fill: Color, border: Color,
    )
        requires
            outline_in_range(x as int, y as int, w as int, h as int),
            fill_in_range(w as int, percent as int),
        ensures
            drew(
                old(self).target(),
                final(self).target(),
                progress_bar_cmds(x as int, y as int, w as int, h as int, percent as int, track, fill, border),
            ),
            mut_ref_future(final(self).backend) == mut_ref_future(old(self).backend),
    {
        let pct = if percent < 100 { percent } else { 100 };
        let fill_w = w * pct / 100;
        self.fill_rect(x, y, w, h, track);
        let ghost b1 = self.target();
        if fill_w > 0 {
            self.fill_rect(x, y, fill_w, h, fill);
        }
        let ghost b2 = self.target();
        let ghost mid = if fill_w > 0 {
            seq![fill_cmd(x as int, y as int, fill_w as int, h as int, fill)]
        } else {
            Seq::empty()
        };
        proof {
            if fill_w == 0 {
                assert(b2.commands() =~= b1.commands() + mid);
            }
        }
        self.draw_rect(x, y, w, h, border);
        proof {
            lemma_drew_then(old(self).target(), b1, b2,
                seq![fill_cmd(x as int, y as int, w as int, h as int, track)], mid);
            lemma_drew_then(old(self).target(), b2, self.target(),
                seq![fill_cmd(x as int, y as int, w as int, h as int, track)] + mid,
                outline_cmds(x as int, y as int, w as int, h as int, border));
        }
    }

    /// Draw a vertical divider line.
    pub fn divider_v(&mut self, x: u32, y: u32, h: u32)
        ensures
            drew(old(self).target(), final(self).target(),
                seq![fill_cmd(x as int, y as int, 1, h as int, palette::DIVIDER)]),
            mut_ref_future(final(self).backend) == mut_ref_future(old(self).backend),
    {
        self.vline(x, y, h, palette::DIVIDER);
    }

    /// Draw a horizontal divider line.
    pub fn divider_h(&mut self, x: u32, y: u32, w: u32)
        ensures
            drew(old(self).target(), final(self).target(),
                seq![fill_cmd(x as int, y as int, w as int, 1, palette::DIVIDER)]),
            mut_ref_future(final(self).backend) == mut_ref_future(old(self).backend),
    {
        self.hline(x, y, w, palette::DIVIDER);
    }

    /// Draw text centered horizontally in a `w`-wide strip starting at `x`.
    pub fn centered_text(&mut self, x: u32, y: u32, w: u32, text: &str, color: Color)
        requires
            centered_in_range(x as int, w as int, text@),
        ensures
            drew(old(self).target(), final(self).target(),
                centered_text_cmds(x as int, y as int, w as int, text@, color, old(self).target().spec_width())),
            mut_ref_future(final(self).backend) == mut_ref_future(old(self).backend),
    {
        let tw = font::text_width(text);
        let tx = x + w.saturating_sub(tw) / 2;
        self.draw_text(tx, y, text, color);
    }

    /// Draw right-aligned text ending at `x + w`.
    pub fn right_text(&mut self, x: u32, y: u32, w: u32, text: &str, color: Color)
        requires
            right_in_range(x as int, w as int, text@),
        ensures
            drew(old(self).target(), final(self).target(),
                right_text_cmds(x as int, y as int, w as int, text@, color, old(self).target().spec_width())),
            mut_ref_future(final(self).backend) == mut_ref_future(old(self).backend),
    {
        let tw = font::text_width(text);
        let tx = x + w.saturating_sub(tw);
        self.draw_text(tx, y, text, color);
    }

    /// Fill a rounded-corner rectangle (corners are clipped by 1 pixel).
    pub fn fill_rounded(&mut self, x: u32, y: u32, w: u32, h: u32, color: Color)
        requires
            rounded_in_range(x as int, y as int, w as int, h as int),
        ensures
            drew(old(self).target(), final(self).target(),
                fill_rounded_cmds(x as int, y as int, w as int, h as int, color)),
            mut_ref_future(final(self).backend) == mut_ref_future(old(self).backend),
    {
        if w < 2 || h < 2 {
            self.fill_rect(x, y, w, h, color);
            return;
        }
        let ghost b0 = self.target();
        self.fill_rect(x + 1, y, w - 2, h, color);
        self.fill_rect(x, y + 1, 1, h - 2, color);
        self.fill_rect(x + w - 1, y + 1, 1, h - 2, color);
        assert(self.target().commands() =~= b0.commands()
            + fill_rounded_cmds(x as int, y as int, w as int, h as int, color));
    }

    /// Fill a horizontal gradient from `left` to `right` color across `w` pixels.
    pub fn gradient_h(&mut self, x: u32, y: u32, w: u32, h: u32, left: Color, right: Color)
        requires
            w == 0 || (x + w - 1 <= u32::MAX && gradient_in_range(left, right, w as int)),
        ensures
            drew(old(self).target(), final(self).target(),
                columns_cmds(x as int, y as int, w as int, h as int, left, right, gradient_steps(w as int))),
            mut_ref_future(final(self).backend) == mut_ref_future(old(self).backend),
    {
        let ghost cmds = columns_cmds(x as int, y as int, w as int, h as int, left, right, gradient_steps(w as int));
        if w == 0 {
            assert(self.target().commands() =~= old(self).target().commands() + cmds);
            return;
        }
        let steps = if w - 1 > 1 { w - 1 } else { 1 };
        for i in 0..w
            invariant
                steps == gradient_steps(w as int),
                x + w - 1 <= u32::MAX,
                gradient_in_range(left, right, w as int),
                cmds == columns_cmds(x as int, y as int, w as int, h as int, left, right, gradient_steps(w as int)),
                drew(old(self).target(), self.target(), cmds.take(i as int)),
                mut_ref_future(self.backend) == mut_ref_future(old(self).backend),
        {
            proof {
                lemma_gradient_step(left, right, i, w as int);
            }
            let c = lerp_color(left, right, i, steps);
            self.fill_rect(x + i, y, 1, h, c);
            assert(cmds.take(i + 1) =~= cmds.take(i as int) + seq![fill_cmd(x + i, y as int, 1, h as int, c)]);
            assert(self.target().commands() =~= old(self).target().commands() + cmds.take(i + 1));
        }
        assert(cmds.take(w as int) =~= cmds);
    }

    /// Fill a vertical gradient from `top` to `bottom` color across `h` pixels.
    pub fn gradient_v(&mut self, x: u32, y: u32, w: u32, h: u32, top: Color, bottom: Color)
        requires
            h == 0 || (y + h - 1 <= u32::MAX && gradient_in_range(top, bottom, h as int)),
        ensures
            drew(old(self).target(), final(self).target(),
                rows_cmds(x as int, y as int, w as int, h as int, top, bottom, gradient_steps(h as int))),
            mut_ref_future(final(self).backend) == mut_ref_future(old(self).backend),
    {
        let ghost cmds = rows_cmds(x as int, y as int, w as int, h as int, top, bottom, gradient_steps(h as int));
        if h == 0 {
            assert(self.target().commands() =~= old(self).target().commands() + cmds);
            return;
        }
        let steps = if h - 1 > 1 { h - 1 } else { 1 };
        for i in 0..h
            invariant
                steps == gradient_steps(h as int),
                y + h - 1 <= u32::MAX,
                gradient_in_range(top, bottom, h as int),
                cmds == rows_cmds(x as int, y as int, w as int, h as int, top, bottom, gradient_steps(h as int)),
                drew(old(self).target(), self.target(), cmds.take(i as int)),
                mut_ref_future(self.backend) == mut_ref_future(old(self).backend),
        {
            proof {
                lemma_gradient_step(top, bottom, i, h as int);
            }
            let c = lerp_color(top, bottom, i, steps);
            self.fill_rect(x, y + i, w, 1, c);
            assert(cmds.take(i + 1) =~= cmds.take(i as int) + seq![fill_cmd(x as int, y + i, w as int, 1, c)]);
            assert(self.target().commands() =~= old(self).target().commands() + cmds.take(i + 1));
        }
        assert(cmds.take(h as int) =~= cmds);
    }

    /// Panel with a 4-pixel dark drop shadow behind it.
    pub fn shadow_panel(&mut self, x: u32, y: u32, w: u32, h: u32, fill: Color, border: Color)
        requires
            x + 4 <= u32::MAX,
            y + 4 <= u32::MAX,
            outline_in_range(x as int, y as int, w as int, h as int),
        ensures
            drew(old(self).target(), final(self).target(),
                shadow_panel_cmds(x as int, y as int, w as int, h as int, fill, border)),
            mut_ref_future(final(self).backend) == mut_ref_future(old(self).backend),
    {
        self.fill_rect(x + 4, y + 4, w, h, palette::BLACK);
        let ghost mid = self.target();
        self.panel(x, y, w, h, fill, border);
        proof {
            lemma_drew_then(old(self).target(), mid, self.target(),
                seq![fill_cmd(x + 4, y + 4, w as int, h as int, palette::BLACK)],
                panel_cmds(x as int, y as int, w as int, h as int, fill, border));
        }
    }

    /// 3-pixel vertical accent bar — used for selection indicators.
    pub fn accent_bar(&mut self, x: u32, y: u32, h: u32, color: Color)
        ensures
            drew(old(self).target(), final(self).target(), seq![fill_cmd(x as int, y as int, 3, h as int, color)]),
            mut_ref_future(final(self).backend) == mut_ref_future(old(self).backend),
    {
        self.fill_rect(x, y, 3, h, color);
    }

    /// Tiny 4x4 filled status dot.
    pub fn dot(&mut self, x: u32, y: u32, color: Color)
        ensures
            drew(old(self).target(), final(self).target(), seq![fill_cmd(x as int, y as int, 4, 4, color)]),
            mut_ref_future(final(self).backend) == mut_ref_future(old(self).backend),
    {
        self.fill_rect(x, y, 4, 4, color);
    }

    /// Colored app icon tile: rounded background + centered label.
    pub fn icon_tile(&mut self, x: u32, y: u32, size: u32, bg: Color, label: &str)
        requires
            rounded_in_range(x as int, y as int, size as int, size as int),
            y + sat_sub(size as int, 16) / 2 <= u32::MAX,
            centered_in_range(x as int, size as int, label@),
        ensures
            drew(old(self).target(), final(self).target(),
                icon_tile_cmds(x as int, y as int, size as int, bg, label@, old(self).target().spec_width())),
            mut_ref_future(final(self).backend) == mut_ref_future(old(self).backend),
    {
        self.fill_rounded(x, y, size, size, bg);
        let ghost mid = self.target();
        self.centered_text(x, y + size.saturating_sub(font::CHAR_H) / 2, size, label, palette::WHITE);
        proof {
            lemma_drew_then(old(self).target(), mid, self.target(),
                fill_rounded_cmds(x as int, y as int, size as int, size as int, bg),
                centered_text_cmds(x as int, y + sat_sub(size as int, 16) / 2, size as int, label@,
                    palette::WHITE, mid.spec_width()));
        }
    }

    /// Progress bar with a two-stop horizontal gradient fill.
    pub fn gradient_progress(
        &mut self,
        x: u32, y: u32, w: u32, h: u32,
        percent: u32,
        track: Color, fill_l: Color, fill_r: Color, border: Color,
    )
        requires
            outline_in_range(x as int, y as int, w as int, h as int),
            fill_in_range(w as int, percent as int),
            gradient_in_range(fill_l, fill_r, filled_width(w as int, percent as int)),
        ensures
            drew(old(self).target(), final(self).target(),
                gradient_progress_cmds(x as int, y as int, w as int, h as int, percent as int,
                    track, fill_l, fill_r, border)),
            mut_ref_future(final(self).backend) == mut_ref_future(old(self).backend),
    {
        let pct = if percent < 100 { percent } else { 100 };
        let fill_w = w * pct / 100;
        proof {
            assert(fill_w <= w) by (nonlinear_arith)
                requires fill_w == w * pct / 100, pct <= 100;
        }
        self.fill_rect(x, y, w, h, track);
        let ghost b1 = self.target();
        let ghost mid = columns_cmds(x as int, y as int, fill_w as int, h as int, fill_l, fill_r,
            gradient_steps(fill_w as int));
        if fill_w > 0 {
            let s1 = fill_w.saturating_sub(1);
            let steps = if s1 > 1 { s1 } else { 1 };
            for i in 0..fill_w
                invariant
                    steps == gradient_steps(fill_w as int),
                    fill_w <= w,
                    x + w <= u32::MAX,
                    gradient_in_range(fill_l, fill_r, fill_w as int),
                    mid == columns_cmds(x as int, y as int, fill_w as int, h as int, fill_l, fill_r,
                        gradient_steps(fill_w as int)),
                    drew(b1, self.target(), mid.take(i as int)),
                    mut_ref_future(self.backend) == mut_ref_future(old(self).backend),
            {
                proof {
                    lemma_gradient_step(fill_l, fill_r, i, fill_w as int);
                }
                let c = lerp_color(fill_l, fill_r, i, steps);
                self.fill_rect(x + i, y, 1, h, c);
                assert(mid.take(i + 1) =~= mid.take(i as int) + seq![fill_cmd(x + i, y as int, 1, h as int, c)]);
                assert(self.target().commands() =~= b1.commands() + mid.take(i + 1));
            }
            assert(mid.take(fill_w as int) =~= mid);
        } else {
            assert(self.target().commands() =~= b1.commands() + mid);
        }
        let ghost b2 = self.target();
        self.draw_rect(x, y, w, h, border);
        proof {
            lemma_drew_then(old(self).target(), b1, b2,
                seq![fill_cmd(x as int, y as int, w as int, h as int, track)], mid);
            lemma_drew_then(old(self).target(), b2, self.target(),
                seq![fill_cmd(x as int, y as int, w as int, h as int, track)] + mid,
                outline_cmds(x as int, y as int, w as int, h as int, border));
        }
    }

    // ── GNOME / libadwaita-style widgets ─────────────────────────────────

    /// Filled rectangle with 4-pixel rounded corners (AdwPreferencesGroup / card style).
    pub fn fill_round4(&mut self, x: u32, y: u32, w: u32, h: u32, color: Color)
        requires
            round4_in_range(x as int, y as int, w as int, h as int),
        ensures
            drew(old(self).target(), final(self).target(),
                fill_round4_cmds(x as int, y as int, w as int, h as int, color)),
            mut_ref_future(final(self).backend) == mut_ref_future(old(self).backend),
    {
        if w < 8 || h < 8 {
            self.fill_rect(x, y, w, h, color);
            return;
        }
        let ghost b0 = self.target();
        // Body between rounded rows
        self.fill_rect(x, y + 4, w, h.saturating_sub(8), color);
        // Top 4 rows (staircase approximating 4 px radius)
        self.fill_rect(x + 4, y, w.saturating_sub(8), 1, color);
        self.fill_rect(x + 2, y + 1, w.saturating_sub(4), 1, color);
        self.fill_rect(x + 1, y + 2, w.saturating_sub(2), 2, color);
        // Bottom 4 rows
        self.fill_rect(x + 1, y + h - 4, w.saturating_sub(2), 2, color);
        self.fill_rect(x + 2, y + h - 2, w.saturating_sub(4), 1, color);
        self.fill_rect(x + 4, y + h - 1, w.saturating_sub(8), 1, color);
        assert(self.target().commands() =~= b0.commands()
            + fill_round4_cmds(x as int, y as int, w as int, h as int, color));
    }

    /// GNOME AdwToggleSwitch (52x26 px). Knob slides left=off, right=on.
    pub fn toggle_switch(&mut self, x: u32, y: u32, on: bool, accent: Color)
        requires
            toggle_in_range(x as int, y as int, on),
        ensures
            drew(old(self).target(), final(self).target(), toggle_switch_cmds(x as int, y as int, on, accent)),
            mut_ref_future(final(self).backend) == mut_ref_future(old(self).backend),
    {
        let (tw, th) = (52u32, 26u32);
        let bg = if on { accent } else { rgb(0x4A, 0x4A, 0x4A) };
        // Pill: left cap + body + right cap (each cap is th x th rounded)
        self.fill_rect(x + th / 2, y, tw.saturating_sub(th), th, bg);
        let ghost b1 = self.target();
        self.fill_round4(x, y, th, th, bg);
        let ghost b2 = self.target();
        self.fill_round4(x + tw.saturating_sub(th), y, th, th, bg);
        let ghost b3 = self.target();
        // White knob (22x22), 2 px inset
        let kx = if on { x + tw.saturating_sub(th) + 2 } else { x + 2 };
        self.fill_round4(kx, y + 2, th - 4, th - 4, palette::WHITE);
        proof {
            let s0 = seq![fill_cmd(x + 13, y as int, 26, 26, bg)];
            let s1 = fill_round4_cmds(x as int, y as int, 26, 26, bg);
            let s2 = fill_round4_cmds(x + 26, y as int, 26, 26, bg);
            let s3 = fill_round4_cmds(kx as int, y + 2, 22, 22, palette::WHITE);
            assert(b1.commands() =~= old(self).target().commands() + s0);
            lemma_drew_then(old(self).target(), b1, b2, s0, s1);
            lemma_drew_then(old(self).target(), b2, b3, s0 + s1, s2);
            lemma_drew_then(old(self).target(), b3, self.target(), s0 + s1 + s2, s3);
        }
    }

    fn row_head(&mut self, x: u32, y: u32, w: u32, title: &str, subtitle: &str, hovered: bool)
        requires
            x + 16 <= u32::MAX,
            y + 10 <= u32::MAX,
            subtitle@.len() > 0 ==> y + 30 <= u32::MAX,
        ensures
            drew(old(self).target(), final(self).target(),
                row_head_cmds(x as int, y as int, w as int, title@, subtitle@, hovered,
                    old(self).target().spec_width())),
            mut_ref_future(final(self).backend) == mut_ref_future(old(self).backend),
    {
        let ghost width = self.target().spec_width();
        let h = 52u32;
        let bg = if hovered { rgb(0x24, 0x24, 0x3C) } else { palette::CARD_BG };
        self.fill_rect(x, y, w, h, bg);
        let ghost b1 = self.target();
        self.draw_text(x + 16, y + 10, title, palette::TEXT);
        let ghost b2 = self.target();
        let ghost s0 = seq![fill_cmd(x as int, y as int, w as int, 52, bg)];
        let ghost s1 = text_cmds(x + 16, y + 10, title@, palette::TEXT, width);
        proof {
            lemma_drew_then(old(self).target(), b1, b2, s0, s1);
        }
        if !subtitle.is_empty() {
            self.draw_text(x + 16, y + 30, subtitle, palette::TEXT_DIM);
            proof {
                lemma_drew_then(old(self).target(), b2, self.target(), s0 + s1,
                    text_cmds(x + 16, y + 30, subtitle@, palette::TEXT_DIM, width));
            }
        } else {
            assert(self.target().commands() =~= old(self).target().commands() + (s0 + s1 + Seq::empty()));
        }
    }

    fn row_separator(&mut self, x: u32, y: u32, w: u32, last: bool)
        requires
            !last ==> x + 16 <= u32::MAX,
            !last ==> y + 52 <= u32::MAX,
        ensures
            drew(old(self).target(), final(self).target(), row_separator_cmds(x as int, y as int, w as int, last)),
            mut_ref_future(final(self).backend) == mut_ref_future(old(self).backend),
    {
        let h = 52u32;
        if !last {
            self.hline(x + 16, y + h - 1, w.saturating_sub(16), palette::CARD_BORDER);
        } else {
            assert(self.target().commands() =~= old(self).target().commands() + Seq::empty());
        }
    }

    /// GNOME AdwActionRow — title + optional subtitle on left, text value on right.
    /// Set `last = true` on the final row of a group to skip the separator.
    /// Returns the row height (52).
    pub fn action_row(
        &mut self, x: u32, y: u32, w: u32,
        title: &str, subtitle: &str, value: &str,
        hovered: bool, last: bool,
    ) -> (h: u32)
        requires
            row_in_range(x as int, y as int, subtitle@, last),
            value@.len() > 0 ==> y + 18 <= u32::MAX,
            value@.len() > 0 ==> right_in_range(x as int, sat_sub(w as int, 16), value@),
        ensures
            h == 52,
            drew(old(self).target(), final(self).target(),
                action_row_cmds(x as int, y as int, w as int, title@, subtitle@, value@, hovered, last,
                    old(self).target().spec_width())),
            mut_ref_future(final(self).backend) == mut_ref_future(old(self).backend),
    {
        let ghost width = self.target().spec_width();
        let h = 52u32;
        self.row_head(x, y, w, title, subtitle, hovered);
        let ghost b1 = self.target();
        let ghost s0 = row_head_cmds(x as int, y as int, w as int, title@, subtitle@, hovered, width);
        let ghost s1 = if value@.len() > 0 {
            right_text_cmds(x as int, y + 18, sat_sub(w as int, 16), value@, palette::TEXT_DIM, width)
        } else {
            Seq::empty()
        };
        if !value.is_empty() {
            self.right_text(x, y + 18, w.saturating_sub(16), value, palette::TEXT_DIM);
        } else {
            assert(self.target().commands() =~= b1.commands() + s1);
        }
        let ghost b2 = self.target();
        self.row_separator(x, y, w, last);
        proof {
            lemma_drew_then(old(self).target(), b1, b2, s0, s1);
            lemma_drew_then(old(self).target(), b2, self.target(), s0 + s1,
                row_separator_cmds(x as int, y as int, w as int, last));
        }
        h
    }

    /// GNOME AdwSwitchRow — action row with a toggle switch on the right.
    /// Returns the row height (52).
    pub fn action_row_toggle(
        &mut self, x: u32, y: u32, w: u32,
        title: &str, subtitle: &str,
        on: bool, accent: Color,
        hovered: bool, last: bool,
    ) -> (h: u32)
        requires
            row_in_range(x as int, y as int, subtitle@, last),
            toggle_in_range(x + sat_sub(w as int, 68), y + 13, on),
        ensures
            h == 52,
            drew(old(self).target(), final(self).target(),
                action_row_toggle_cmds(x as int, y as int, w as int, title@, subtitle@, on, accent,
                    hovered, last, old(self).target().spec_width())),
            mut_ref_future(final(self).backend) == mut_ref_future(old(self).backend),
    {
        let ghost width = self.target().spec_width();
        let h = 52u32;
        self.row_head(x, y, w, title, subtitle, hovered);
        let ghost b1 = self.target();
        self.toggle_switch(x + w.saturating_sub(68), y + (h - 26) / 2, on, accent);
        let ghost b2 = self.target();
        self.row_separator(x, y, w, last);
        proof {
            let s0 = row_head_cmds(x as int, y as int, w as int, title@, subtitle@, hovered, width);
            let s1 = toggle_switch_cmds(x + sat_sub(w as int, 68), y + 13, on, accent);
            lemma_drew_then(old(self).target(), b1, b2, s0, s1);
            lemma_drew_then(old(self).target(), b2, self.target(), s0 + s1,
                row_separator_cmds(x as int, y as int, w as int, last));
        }
        h
    }

    /// Navigation action row — chevron on right, no value text.
    /// Returns the row height (52).
    pub fn action_row_nav(
        &mut self, x: u32, y: u32, w: u32,
        title: &str, subtitle: &str,
        hovered: bool, last: bool,
    ) -> (h: u32)
        requires
            row_in_range(x as int, y as int, subtitle@, last),
            y + 18 <= u32::MAX,
            x + sat_sub(w as int, 24) <= u32::MAX,
        ensures
            h == 52,
            drew(old(self).target(), final(self).target(),
                action_row_nav_cmds(x as int, y as int, w as int, title@, subtitle@, hovered, last,
                    old(self).target().spec_width())),
            mut_ref_future(final(self).backend) == mut_ref_future(old(self).backend),
    {
        let ghost width = self.target().spec_width();
        let h = 52u32;
        self.row_head(x, y, w, title, subtitle, hovered);
        let ghost b1 = self.target();
        self.draw_text(x + w.saturating_sub(24), y + 18, ">", palette::TEXT_DIM);
        let ghost b2 = self.target();
        self.row_separator(x, y, w, last);
        proof {
            let s0 = row_head_cmds(x as int, y as int, w as int, title@, subtitle@, hovered, width);
            let s1 = text_cmds(x + sat_sub(w as int, 24), y + 18, ">"@, palette::TEXT_DIM, width);
            lemma_drew_then(old(self).target(), b1, b2, s0, s1);
            lemma_drew_then(old(self).target(), b2, self.target(), s0 + s1,
                row_separator_cmds(x as int, y as int, w as int, last));
        }
        h
    }

    /// Pill-shaped search entry (height 36). Draws placeholder or query text.
    pub fn search_bar(
        &mut self, x: u32, y: u32, w: u32,
        text: &str, focused: bool, accent: Color,
    )
        requires
            1 <= x + w <= u32::MAX,
            y + 36 <= u32::MAX,
            x + 28 <= u32::MAX,
            focused ==> w >= 2,
        ensures
            drew(old(self).target(), final(self).target(),
                search_bar_cmds(x as int, y as int, w as int, text@, focused, accent,
                    old(self).target().spec_width())),
            mut_ref_future(final(self).backend) == mut_ref_future(old(self).backend),
    {
        let ghost width = self.target().spec_width();
        let h = 36u32;
        self.fill_round4(x, y, w, h, rgb(0x1E, 0x1E, 0x30));
        let ghost b1 = self.target();
        let border = if focused { accent } else { palette::CARD_BORDER };
        self.draw_rect(x, y, w, h, border);
        let ghost b2 = self.target();
        let ghost s0 = fill_round4_cmds(x as int, y as int, w as int, 36, search_fill_color());
        let ghost s1 = outline_cmds(x as int, y as int, w as int, 36, border);
        let ghost s2 = if focused {
            outline_cmds(x + 1, y + 1, w - 2, 34, lerp(border, palette::CARD_BG, 1, 2) as u32)
        } else {
            Seq::empty()
        };
        if focused {
            proof {
                lemma_color_decomposes(border);
                lemma_color_decomposes(palette::CARD_BG);
                lemma_lerp_in_u32(border, palette::CARD_BG, 1, 2);
            }
            self.draw_rect(x + 1, y + 1, w - 2, h - 2, lerp_color(border, palette::CARD_BG, 1, 2));
        } else {
            assert(self.target().commands() =~= b2.commands() + s2);
        }
        let ghost b3 = self.target();
        // Magnifier dot (symbolic circle using the 'O' glyph)
        self.draw_text(x + 8, y + 10, "O", palette::TEXT_DIM);
        let ghost b4 = self.target();
        let ghost s4 = if text@.len() == 0 {
            text_cmds(x + 28, y + 10, "Search..."@, palette::TEXT_DIM, width)
        } else {
            text_cmds(x + 28, y + 10, text@, palette::TEXT, width)
        };
        let qx = x + 28;
        if text.is_empty() {
            self.draw_text(qx, y + 10, "Search...", palette::TEXT_DIM);
        } else {
            self.draw_text(qx, y + 10, text, palette::TEXT);
        }
        proof {
            lemma_drew_then(old(self).target(), b1, b2, s0, s1);
            lemma_drew_then(old(self).target(), b2, b3, s0 + s1, s2);
            lemma_drew_then(old(self).target(), b3, b4, s0 + s1 + s2,
                text_cmds(x + 8, y + 10, "O"@, palette::TEXT_DIM, width));
            lemma_drew_then(old(self).target(), b4, self.target(),
                s0 + s1 + s2 + text_cmds(x + 8, y + 10, "O"@, palette::TEXT_DIM, width), s4);
        }
    }

    /// GNOME AdwHeaderBar (48 px tall) — centered title, back button, end menu button.
    pub fn gnome_headerbar(
        &mut self, x: u32, y: u32, w: u32,
        title: &str, has_back: bool, bg: Color,
    )
        requires
            y + 48 <= u32::MAX,
            x + sat_sub(w as int, 50) + 23 <= u32::MAX,
            has_back ==> x + 18 <= u32::MAX,
            centered_in_range(x as int, w as int, title@),
        ensures
            drew(old(self).target(), final(self).target(),
                gnome_headerbar_cmds(x as int, y as int, w as int, title@, has_back, bg,
                    old(self).target().spec_width())),
            mut_ref_future(final(self).backend) == mut_ref_future(old(self).backend),
    {
        let ghost width = self.target().spec_width();
        let h = 48u32;
        self.fill_rect(x, y, w, h, bg);
        self.hline(x, y + h - 1, w, palette::CARD_BORDER);
        let ghost b1 = self.target();
        let ghost s0 = seq![fill_cmd(x as int, y as int, w as int, 48, bg),
            fill_cmd(x as int, y + 47, w as int, 1, palette::CARD_BORDER)];
        assert(b1.commands() =~= old(self).target().commands() + s0);
        let ghost s1 = if has_back {
            fill_round4_cmds(x + 8, y + 7, 34, 34, header_button_color())
                + text_cmds(x + 18, y + 16, "<"@, palette::TEXT, width)
        } else {
            Seq::empty()
        };
        if has_back {
            self.fill_round4(x + 8, y + 7, 34, 34, rgb(0x30, 0x30, 0x4A));
            let ghost m = self.target();
            self.draw_text(x + 18, y + 16, "<", palette::TEXT);
            proof {
                lemma_drew_then(b1, m, self.target(),
                    fill_round4_cmds(x + 8, y + 7, 34, 34, header_button_color()),
                    text_cmds(x + 18, y + 16, "<"@, palette::TEXT, width));
            }
        } else {
            assert(self.target().commands() =~= b1.commands() + s1);
        }
        let ghost b2 = self.target();
        self.centered_text(x, y + (h - 16) / 2, w, title, palette::TEXT);
        let ghost b3 = self.target();
        let ghost s2 = centered_text_cmds(x as int, y + 16, w as int, title@, palette::TEXT, width);
        // Three-dot menu button at end
        let mx = x + w.saturating_sub(50);
        self.fill_round4(mx, y + 7, 34, 34, rgb(0x30, 0x30, 0x4A));
        let ghost b4 = self.target();
        self.fill_rect(mx + 7, y + 21, 4, 4, palette::TEXT_DIM);
        self.fill_rect(mx + 15, y + 21, 4, 4, palette::TEXT_DIM);
        self.fill_rect(mx + 23, y + 21, 4, 4, palette::TEXT_DIM);
        let ghost s3 = fill_round4_cmds(mx as int, y + 7, 34, 34, header_button_color());
        let ghost s4 = seq![
            fill_cmd(mx + 7, y + 21, 4, 4, palette::TEXT_DIM),
            fill_cmd(mx + 15, y + 21, 4, 4, palette::TEXT_DIM),
            fill_cmd(mx + 23, y + 21, 4, 4, palette::TEXT_DIM),
        ];
        assert(self.target().commands() =~= b4.commands() + s4);
        proof {
            lemma_drew_then(old(self).target(), b1, b2, s0, s1);
            lemma_drew_then(old(self).target(), b2, b3, s0 + s1, s2);
            lemma_drew_then(old(self).target(), b3, b4, s0 + s1 + s2, s3);
            lemma_drew_then(old(self).target(), b4, self.target(), s0 + s1 + s2 + s3, s4);
        }
    }

    /// 8-dot animated spinner. `cx`/`cy` is the center. Frame drives rotation.
    pub fn spinner(&mut self, cx: u32, cy: u32, frame: u32, color: Color)
        requires
            spinner_in_range(cx, cy),
        ensures
            drew(old(self).target(), final(self).target(), spinner_dots_cmds(cx, cy, frame, color, 8)),
            mut_ref_future(final(self).backend) == mut_ref_future(old(self).backend),
    {
        let head = (frame / 4) as usize % 8;
        proof {
            lemma_as_signed(cx);
            lemma_as_signed(cy);
            lemma_color_decomposes(color);
            lemma_color_decomposes(palette::SURFACE);
        }
        let mut i: usize = 0;
        while i < 8
            invariant
                i <= 8,
                head == (frame / 4) % 8,
                spinner_in_range(cx, cy),
                (cx as i32) as int == as_signed(cx),
                (cy as i32) as int == as_signed(cy),
                0 <= red_of(color) < 0x100,
                0 <= green_of(color) < 0x100,
                0 <= blue_of(color) < 0x100,
                0 <= red_of(palette::SURFACE) < 0x100,
                0 <= green_of(palette::SURFACE) < 0x100,
                0 <= blue_of(palette::SURFACE) < 0x100,
                drew(old(self).target(), self.target(), spinner_dots_cmds(cx, cy, frame, color, i as int)),
                mut_ref_future(self.backend) == mut_ref_future(old(self).backend),
            decreases 8 - i,
        {
            let (dx, dy) = spinner_offset(i);
            assert(-10 <= dx <= 10 && -10 <= dy <= 10);
            let cxi: i32 = cx as i32;
            let cyi: i32 = cy as i32;
            assert(i32::MIN + 11 <= cxi <= i32::MAX - 10);
            assert(i32::MIN + 11 <= cyi <= i32::MAX - 10);
            let age = (i + 8 - head) % 8;
            proof {
                lemma_lerp_in_range_few_steps(color, palette::SURFACE, age as u32, 7);
                lemma_lerp_in_u32(color, palette::SURFACE, age as u32, 7);
            }
            let c = lerp_color(color, palette::SURFACE, age as u32, 7);
            let px = cxi + dx - 1;
            let py = cyi + dy - 1;
            let ghost before = self.target();
            if px >= 0 && py >= 0 {
                self.fill_rect(px as u32, py as u32, 3, 3, c);
                assert(self.target().commands() =~= before.commands()
                    + spinner_dot_cmds(cx, cy, frame, color, i as int));
            } else {
                assert(self.target().commands() =~= before.commands()
                    + spinner_dot_cmds(cx, cy, frame, color, i as int));
            }
            proof {
                lemma_drew_then(old(self).target(), before, self.target(),
                    spinner_dots_cmds(cx, cy, frame, color, i as int),
                    spinner_dot_cmds(cx, cy, frame, color, i as int));
            }
            i = i + 1;
        }
    }

    /// Pill-shaped in-app notification toast (44 px tall).
    pub fn toast(&mut self, x: u32, y: u32, w: u32, message: &str, accent: Color)
        requires
            1 <= x + w <= u32::MAX,
            y + 44 <= u32::MAX,
            x + 28 <= u32::MAX,
        ensures
            drew(old(self).target(), final(self).target(),
                toast_cmds(x as int, y as int, w as int, message@, accent, old(self).target().spec_width())),
            mut_ref_future(final(self).backend) == mut_ref_future(old(self).backend),
    {
        let ghost width = self.target().spec_width();
        let h = 44u32;
        // Drop shadow
        self.fill_rect(x + 4, y + 4, w, h, rgb(0, 0, 0));
        let ghost b1 = self.target();
        // Background
        self.fill_round4(x, y, w, h, rgb(0x2E, 0x2E, 0x46));
        let ghost b2 = self.target();
        self.draw_rect(x, y, w, h, rgb(0x44, 0x44, 0x66));
        let ghost b3 = self.target();
        // Colored accent square
        self.fill_rect(x + 12, y + (h - 8) / 2, 8, 8, accent);
        let ghost b4 = self.target();
        // Message
        self.draw_text(x + 28, y + (h - 16) / 2, message, palette::TEXT);
        let ghost b5 = self.target();
        // Dismiss 'x'
        self.draw_text(x + w.saturating_sub(22), y + (h - 16) / 2, "x", palette::TEXT_DIM);
        proof {
            let s0 = seq![fill_cmd(x + 4, y + 4, w as int, 44, palette::BLACK)];
            let s1 = fill_round4_cmds(x as int, y as int, w as int, 44, 0xFF2E_2E46u32);
            let s2 = outline_cmds(x as int, y as int, w as int, 44, 0xFF44_4466u32);
            let s3 = seq![fill_cmd(x + 12, y + 18, 8, 8, accent)];
            let s4 = text_cmds(x + 28, y + 14, message@, palette::TEXT, width);
            let s5 = text_cmds(x + sat_sub(w as int, 22), y + 14, "x"@, palette::TEXT_DIM, width);
            assert(b1.commands() =~= old(self).target().commands() + s0);
            lemma_drew_then(old(self).target(), b1, b2, s0, s1);
            lemma_drew_then(old(self).target(), b2, b3, s0 + s1, s2);
            assert(b4.commands() =~= b3.commands() + s3);
            lemma_drew_then(old(self).target(), b3, b4, s0 + s1 + s2, s3);
            lemma_drew_then(old(self).target(), b4, b5, s0 + s1 + s2 + s3, s4);
            lemma_drew_then(old(self).target(), b5, self.target(), s0 + s1 + s2 + s3 + s4, s5);
        }
    }

    /// Circular avatar tile with initials (uses fill_round4 as circle approximation).
    pub fn avatar(&mut self, x: u32, y: u32, size: u32, initials: &str, color: Color)
        requires
            round4_in_range(x as int, y as int, size as int, size as int),
            centered_in_range(x as int, size as int, initials@),
            y + sat_sub(size as int, 16) / 2 <= u32::MAX,
        ensures
            drew(old(self).target(), final(self).target(),
                avatar_cmds(x as int, y as int, size as int, initials@, color, old(self).target().spec_width())),
            mut_ref_future(final(self).backend) == mut_ref_future(old(self).backend),
    {
        let ghost width = self.target().spec_width();
        self.fill_round4(x, y, size, size, color);
        let ghost b1 = self.target();
        let tw = font::text_width(initials);
        let tx = x + size.saturating_sub(tw) / 2;
        let ty = y + size.saturating_sub(font::CHAR_H) / 2;
        self.draw_text(tx, ty, initials, palette::WHITE);
        proof {
            lemma_drew_then(old(self).target(), b1, self.target(),
                fill_round4_cmds(x as int, y as int, size as int, size as int, color),
                text_cmds(tx as int, ty as int, initials@, palette::WHITE, width));
        }
    }

    /// Small pill-shaped chip / badge label.
    pub fn chip(&mut self, x: u32, y: u32, text: &str, bg: Color, fg: Color)
        requires
            width_of_chars(text@.len()) + 16 <= u32::MAX,
            x + 8 <= u32::MAX,
            y + 22 <= u32::MAX,
        ensures
            drew(old(self).target(), final(self).target(),
                chip_cmds(x as int, y as int, text@, bg, fg, old(self).target().spec_width())),
            mut_ref_future(final(self).backend) == mut_ref_future(old(self).backend),
    {
        let ghost width = self.target().spec_width();
        let tw = font::text_width(text);
        let w = tw + 16;
        let h = 22u32;
        self.fill_round4(x, y, w, h, bg);
        let ghost b1 = self.target();
        self.draw_text(x + 8, y + 3, text, fg);
        proof {
            lemma_drew_then(old(self).target(), b1, self.target(),
                fill_round4_cmds(x as int, y as int, w as int, 22, bg),
                text_cmds(x + 8, y + 3, text@, fg, width));
        }
    }

    /// Access the underlying backend directly for operations not in Canvas.
    pub fn backend_mut(&mut self) -> (b: &mut B)
        ensures
            *b == old(self).target(),
            final(self).target() == *final(b),
            mut_ref_future(final(self).backend) == mut_ref_future(old(self).backend),
    {
        self.backend
    }
}

} // verus!
