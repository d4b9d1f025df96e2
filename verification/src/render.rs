//! What drawing commands mean as pixels, and the laws of the widgets.
//!
//! [`painted`] reads a command list as a picture: a pixel has the colour of
//! the last fill that covers it, and none where no fill covers it.  Glyph
//! cells are drawn with the backend's font, which this model leaves out.

use vstd::prelude::*;
use crate::backend::{DrawCmd, fill_cmd, outline_cmds, text_cmds};
use crate::canvas::{
    panel_cmds, fill_rounded_cmds, progress_bar_cmds, filled_width, columns_cmds, gradient_steps,
    shadow_panel_cmds, sat_sub, rows_cmds, fill_round4_cmds,
};
use crate::color::{Color, lerp, opaque, lemma_lerp_end_points};
use crate::pixel_buffer::{in_rect, filled_pixels};
use crate::font::width_of_chars;

verus! {

/// The colour that `cmds` leave at pixel `(px, py)`: that of the last fill
/// covering it, or `None` when no fill covers it.
pub open spec fn painted(cmds: Seq<DrawCmd>, px: int, py: int) -> Option<Color>
    decreases cmds.len(),
{
    if cmds.len() == 0 {
        None
    } else {
        match cmds.last() {
            DrawCmd::Fill { x, y, w, h, color } => if in_rect(px, py, x as int, y as int, w as int, h as int) {
                Some(color)
            } else {
                painted(cmds.drop_last(), px, py)
            },
            _ => painted(cmds.drop_last(), px, py),
        }
    }
}

/// Later commands paint over earlier ones: a pixel shows what `b` painted
/// there, and what `a` painted where `b` painted nothing.
pub proof fn law_painted_append(a: Seq<DrawCmd>, b: Seq<DrawCmd>, px: int, py: int)
    ensures
        painted(a + b, px, py) == match painted(b, px, py) {
            Some(c) => Some(c),
            None => painted(a, px, py),
        },
    decreases b.len(),
{
    if b.len() == 0 {
        assert(a + b =~= a);
    } else {
        assert((a + b).drop_last() =~= a + b.drop_last());
        assert((a + b).last() == b.last());
        law_painted_append(a, b.drop_last(), px, py);
    }
}

proof fn lemma_painted_fill(x: int, y: int, w: int, h: int, c: Color, px: int, py: int)
    requires
        0 <= x <= u32::MAX,
        0 <= y <= u32::MAX,
        0 <= w <= u32::MAX,
        0 <= h <= u32::MAX,
    ensures
        painted(seq![fill_cmd(x, y, w, h, c)], px, py) == if in_rect(px, py, x, y, w, h) {
            Some(c)
        } else {
            None
        },
{
    let s = seq![fill_cmd(x, y, w, h, c)];
    assert(s.drop_last() =~= Seq::<DrawCmd>::empty());
    assert(painted(Seq::<DrawCmd>::empty(), px, py) == None::<Color>);
    assert(s.last() == DrawCmd::Fill { x: x as u32, y: y as u32, w: w as u32, h: h as u32, color: c });
    assert((x as u32) as int == x && (y as u32) as int == y && (w as u32) as int == w && (h as u32) as int == h);
}

/// The pixels of a buffer `width` pixels wide after each fill of `cmds` has
/// been applied to it in turn, as `PixelBuffer::fill_rect` applies one;
/// the other commands leave the pixels as they are.
pub open spec fn buffer_after(pixels: Seq<u32>, width: nat, cmds: Seq<DrawCmd>) -> Seq<u32>
    decreases cmds.len(),
{
    if cmds.len() == 0 {
        pixels
    } else {
        let before = buffer_after(pixels, width, cmds.drop_last());
        match cmds.last() {
            DrawCmd::Fill { x, y, w, h, color } => filled_pixels(
                before,
                width,
                x as int,
                y as int,
                w as int,
                h as int,
                (color % 0x100_0000) as u32,
            ),
            _ => before,
        }
    }
}

/// A pixel buffer shows what the commands paint: each pixel that a fill
/// covers holds the colour of the last such fill, alpha stripped, and every
/// other pixel keeps its value.
pub proof fn law_buffer_shows_painted(pixels: Seq<u32>, width: nat, cmds: Seq<DrawCmd>, j: int)
    requires
        0 <= j < pixels.len(),
        width > 0,
    ensures
        buffer_after(pixels, width, cmds).len() == pixels.len(),
        buffer_after(pixels, width, cmds)[j] == match painted(cmds, j % (width as int), j / (width as int)) {
            Some(c) => (c % 0x100_0000) as u32,
            None => pixels[j],
        },
    decreases cmds.len(),
{
    if cmds.len() > 0 {
        law_buffer_shows_painted(pixels, width, cmds.drop_last(), j);
    }
}

/// Clearing paints every on-screen pixel in the clear colour.
pub proof fn law_clear_covers_screen(width: u32, height: u32, c: Color, px: int, py: int)
    requires
        0 <= px < width,
        0 <= py < height,
    ensures
        painted(seq![fill_cmd(0, 0, width as int, height as int, c)], px, py) == Some(c),
{
    lemma_painted_fill(0, 0, width as int, height as int, c, px, py);
}

/// A panel paints its 1-pixel border in the border colour, the rest of its
/// rectangle in the fill colour, and nothing outside it.
pub proof fn law_panel(x: u32, y: u32, w: u32, h: u32, fill: Color, border: Color, px: int, py: int)
    requires
        x + w <= u32::MAX,
        y + h <= u32::MAX,
        w >= 1,
        h >= 1,
    ensures
        painted(panel_cmds(x as int, y as int, w as int, h as int, fill, border), px, py) == if !in_rect(
            px,
            py,
            x as int,
            y as int,
            w as int,
            h as int,
        ) {
            None
        } else if px == x || px == x + w - 1 || py == y || py == y + h - 1 {
            Some(border)
        } else {
            Some(fill)
        },
{
    let (xi, yi, wi, hi) = (x as int, y as int, w as int, h as int);
    let o = outline_cmds(xi, yi, wi, hi, border);
    let f = seq![fill_cmd(xi, yi, wi, hi, fill)];
    law_painted_append(f, o, px, py);
    lemma_painted_fill(xi, yi, wi, hi, fill, px, py);
    lemma_outline(xi, yi, wi, hi, border, px, py);
}

proof fn lemma_outline(x: int, y: int, w: int, h: int, c: Color, px: int, py: int)
    requires
        0 <= x,
        0 <= y,
        1 <= w,
        1 <= h,
        x + w <= u32::MAX,
        y + h <= u32::MAX,
    ensures
        painted(outline_cmds(x, y, w, h, c), px, py) == if in_rect(px, py, x, y, w, h) && (px == x || px == x
            + w - 1 || py == y || py == y + h - 1) {
            Some(c)
        } else {
            None
        },
{
    let s0 = seq![fill_cmd(x, y, w, 1, c)];
    let s1 = seq![fill_cmd(x, y + h - 1, w, 1, c)];
    let s2 = seq![fill_cmd(x, y, 1, h, c)];
    let s3 = seq![fill_cmd(x + w - 1, y, 1, h, c)];
    assert(outline_cmds(x, y, w, h, c) =~= s0 + s1 + s2 + s3);
    law_painted_append(s0 + s1 + s2, s3, px, py);
    law_painted_append(s0 + s1, s2, px, py);
    law_painted_append(s0, s1, px, py);
    lemma_painted_fill(x, y, w, 1, c, px, py);
    lemma_painted_fill(x, y + h - 1, w, 1, c, px, py);
    lemma_painted_fill(x, y, 1, h, c, px, py);
    lemma_painted_fill(x + w - 1, y, 1, h, c, px, py);
}

/// A rounded fill paints its whole rectangle except the four corner pixels.
pub proof fn law_fill_rounded(x: u32, y: u32, w: u32, h: u32, c: Color, px: int, py: int)
    requires
        w >= 2,
        h >= 2,
        x + w <= u32::MAX,
        y + 1 <= u32::MAX,
    ensures
        painted(fill_rounded_cmds(x as int, y as int, w as int, h as int, c), px, py) == if in_rect(
            px,
            py,
            x as int,
            y as int,
            w as int,
            h as int,
        ) && !((px == x || px == x + w - 1) && (py == y || py == y + h - 1)) {
            Some(c)
        } else {
            None
        },
{
    let (xi, yi, wi, hi) = (x as int, y as int, w as int, h as int);
    let s0 = seq![fill_cmd(xi + 1, yi, wi - 2, hi, c)];
    let s1 = seq![fill_cmd(xi, yi + 1, 1, hi - 2, c)];
    let s2 = seq![fill_cmd(xi + wi - 1, yi + 1, 1, hi - 2, c)];
    assert(fill_rounded_cmds(xi, yi, wi, hi, c) =~= s0 + s1 + s2);
    law_painted_append(s0 + s1, s2, px, py);
    law_painted_append(s0, s1, px, py);
    lemma_painted_fill(xi + 1, yi, wi - 2, hi, c, px, py);
    lemma_painted_fill(xi, yi + 1, 1, hi - 2, c, px, py);
    lemma_painted_fill(xi + wi - 1, yi + 1, 1, hi - 2, c, px, py);
}

/// Inside its border, a progress bar shows the fill colour in the first
/// `w * min(percent, 100) / 100` columns and the track colour after them.
pub proof fn law_progress_bar(
    x: u32, y: u32, w: u32, h: u32, percent: u32,
    track: Color, fill: Color, border: Color, px: int, py: int,
)
    requires
        x + w <= u32::MAX,
        y + h <= u32::MAX,
        filled_width(w as int, percent as int) <= u32::MAX,
        x < px < x + w - 1,
        y < py < y + h - 1,
    ensures
        painted(progress_bar_cmds(x as int, y as int, w as int, h as int, percent as int, track, fill, border), px, py)
            == if px < x + filled_width(w as int, percent as int) {
            Some(fill)
        } else {
            Some(track)
        },
{
    let (xi, yi, wi, hi) = (x as int, y as int, w as int, h as int);
    let fw = filled_width(wi, percent as int);
    let t = seq![fill_cmd(xi, yi, wi, hi, track)];
    let m = if fw > 0 {
        seq![fill_cmd(xi, yi, fw, hi, fill)]
    } else {
        Seq::empty()
    };
    let o = outline_cmds(xi, yi, wi, hi, border);
    law_painted_append(t + m, o, px, py);
    law_painted_append(t, m, px, py);
    lemma_painted_fill(xi, yi, wi, hi, track, px, py);
    if fw > 0 {
        assert(fw >= 0);
        lemma_painted_fill(xi, yi, fw, hi, fill, px, py);
    }
    lemma_outline(xi, yi, wi, hi, border, px, py);
}

/// A horizontal gradient paints column `i` of its rectangle in the colour
/// `i / steps` of the way from the left colour to the right one, and
/// nothing outside the rectangle.
pub proof fn law_gradient_columns(
    x: u32, y: u32, n: u32, h: u32, a: Color, b: Color, steps: u32, px: int, py: int,
)
    requires
        x + n <= u32::MAX + 1,
        forall|i: int| 0 <= i < n ==> 0 <= #[trigger] lerp(a, b, i as u32, steps) <= u32::MAX,
    ensures
        painted(columns_cmds(x as int, y as int, n as int, h as int, a, b, steps as int), px, py) == if in_rect(
            px,
            py,
            x as int,
            y as int,
            n as int,
            h as int,
        ) {
            Some(lerp(a, b, (px - x) as u32, steps) as u32)
        } else {
            None
        },
    decreases n,
{
    let cmds = columns_cmds(x as int, y as int, n as int, h as int, a, b, steps as int);
    if n > 0 {
        let rest = columns_cmds(x as int, y as int, n - 1, h as int, a, b, steps as int);
        let last = fill_cmd(x + n - 1, y as int, 1, h as int, lerp(a, b, (n - 1) as u32, steps) as u32);
        assert(cmds =~= rest + seq![last]);
        law_gradient_columns(x, y, (n - 1) as u32, h, a, b, steps, px, py);
        law_painted_append(rest, seq![last], px, py);
        lemma_painted_fill(x + n - 1, y as int, 1, h as int, lerp(a, b, (n - 1) as u32, steps) as u32, px, py);
    } else {
        assert(cmds =~= Seq::<DrawCmd>::empty());
    }
}

/// A vertical gradient paints row `i` of its rectangle in the colour
/// `i / steps` of the way from the top colour to the bottom one, and nothing
/// outside the rectangle.
pub proof fn law_gradient_rows(
    x: u32, y: u32, w: u32, n: u32, a: Color, b: Color, steps: u32, px: int, py: int,
)
    requires
        y + n <= u32::MAX + 1,
        forall|i: int| 0 <= i < n ==> 0 <= #[trigger] lerp(a, b, i as u32, steps) <= u32::MAX,
    ensures
        painted(rows_cmds(x as int, y as int, w as int, n as int, a, b, steps as int), px, py) == if in_rect(
            px,
            py,
            x as int,
            y as int,
            w as int,
            n as int,
        ) {
            Some(lerp(a, b, (py - y) as u32, steps) as u32)
        } else {
            None
        },
    decreases n,
{
    let cmds = rows_cmds(x as int, y as int, w as int, n as int, a, b, steps as int);
    if n > 0 {
        let rest = rows_cmds(x as int, y as int, w as int, n - 1, a, b, steps as int);
        let last = fill_cmd(x as int, y + n - 1, w as int, 1, lerp(a, b, (n - 1) as u32, steps) as u32);
        assert(cmds =~= rest + seq![last]);
        law_gradient_rows(x, y, w, (n - 1) as u32, a, b, steps, px, py);
        law_painted_append(rest, seq![last], px, py);
        lemma_painted_fill(x as int, y + n - 1, w as int, 1, lerp(a, b, (n - 1) as u32, steps) as u32, px, py);
    } else {
        assert(cmds =~= Seq::<DrawCmd>::empty());
    }
}

/// A rectangle with 4-pixel rounded corners (at least 8 x 8) leaves its
/// four corner pixels unpainted and paints every pixel of its rows from the
/// fourth to the fourth-last.
pub proof fn law_fill_round4(x: u32, y: u32, w: u32, h: u32, c: Color, px: int, py: int)
    requires
        w >= 8,
        h >= 8,
        x + w <= u32::MAX,
        y + h <= u32::MAX,
    ensures
        (px == x || px == x + w - 1) && (py == y || py == y + h - 1) ==> painted(
            fill_round4_cmds(x as int, y as int, w as int, h as int, c),
            px,
            py,
        ) is None,
        x <= px < x + w && y + 4 <= py < y + h - 4 ==> painted(
            fill_round4_cmds(x as int, y as int, w as int, h as int, c),
            px,
            py,
        ) == Some(c),
        !in_rect(px, py, x as int, y as int, w as int, h as int) ==> painted(
            fill_round4_cmds(x as int, y as int, w as int, h as int, c),
            px,
            py,
        ) is None,
{
    let (xi, yi, wi, hi) = (x as int, y as int, w as int, h as int);
    let s0 = seq![fill_cmd(xi, yi + 4, wi, hi - 8, c)];
    let s1 = seq![fill_cmd(xi + 4, yi, wi - 8, 1, c)];
    let s2 = seq![fill_cmd(xi + 2, yi + 1, wi - 4, 1, c)];
    let s3 = seq![fill_cmd(xi + 1, yi + 2, wi - 2, 2, c)];
    let s4 = seq![fill_cmd(xi + 1, yi + hi - 4, wi - 2, 2, c)];
    let s5 = seq![fill_cmd(xi + 2, yi + hi - 2, wi - 4, 1, c)];
    let s6 = seq![fill_cmd(xi + 4, yi + hi - 1, wi - 8, 1, c)];
    assert(fill_round4_cmds(xi, yi, wi, hi, c) =~= s0 + s1 + s2 + s3 + s4 + s5 + s6);
    law_painted_append(s0 + s1 + s2 + s3 + s4 + s5, s6, px, py);
    law_painted_append(s0 + s1 + s2 + s3 + s4, s5, px, py);
    law_painted_append(s0 + s1 + s2 + s3, s4, px, py);
    law_painted_append(s0 + s1 + s2, s3, px, py);
    law_painted_append(s0 + s1, s2, px, py);
    law_painted_append(s0, s1, px, py);
    lemma_painted_fill(xi, yi + 4, wi, hi - 8, c, px, py);
    lemma_painted_fill(xi + 4, yi, wi - 8, 1, c, px, py);
    lemma_painted_fill(xi + 2, yi + 1, wi - 4, 1, c, px, py);
    lemma_painted_fill(xi + 1, yi + 2, wi - 2, 2, c, px, py);
    lemma_painted_fill(xi + 1, yi + hi - 4, wi - 2, 2, c, px, py);
    lemma_painted_fill(xi + 2, yi + hi - 2, wi - 4, 1, c, px, py);
    lemma_painted_fill(xi + 4, yi + hi - 1, wi - 8, 1, c, px, py);
}

/// A gradient across `n >= 2` columns starts at the left colour and ends at
/// the right colour, each made opaque.
pub proof fn law_gradient_end_points(a: Color, b: Color, n: u32)
    requires
        n >= 2,
    ensures
        lerp(a, b, 0, gradient_steps(n as int) as u32) == opaque(a),
        lerp(a, b, (n - 1) as u32, gradient_steps(n as int) as u32) == opaque(b),
{
    lemma_lerp_end_points(a, b, gradient_steps(n as int) as u32);
}

/// A shadow panel shows black in the part of the shadow that sticks out
/// below and to the right of the panel, and the panel over the rest.
pub proof fn law_shadow_panel(x: u32, y: u32, w: u32, h: u32, fill: Color, border: Color, px: int, py: int)
    requires
        x + 4 + w <= u32::MAX,
        y + 4 + h <= u32::MAX,
        w >= 1,
        h >= 1,
    ensures
        painted(shadow_panel_cmds(x as int, y as int, w as int, h as int, fill, border), px, py) == if in_rect(
            px,
            py,
            x as int,
            y as int,
            w as int,
            h as int,
        ) {
            painted(panel_cmds(x as int, y as int, w as int, h as int, fill, border), px, py)
        } else if in_rect(px, py, x + 4, y + 4, w as int, h as int) {
            Some(crate::color::palette::BLACK)
        } else {
            None
        },
{
    let s = seq![fill_cmd(x + 4, y + 4, w as int, h as int, crate::color::palette::BLACK)];
    law_painted_append(s, panel_cmds(x as int, y as int, w as int, h as int, fill, border), px, py);
    lemma_painted_fill(x + 4, y + 4, w as int, h as int, crate::color::palette::BLACK, px, py);
    law_panel(x, y, w, h, fill, border, px, py);
}

/// Text never runs past the right edge: every glyph cell it draws ends at
/// or before column `width`, and the glyphs are the text's first characters
/// in order, one cell apart.
pub proof fn law_text_fits(x: u32, y: u32, text: Seq<char>, color: Color, width: u32)
    ensures
        text_cmds(x as int, y as int, text, color, width).len() <= text.len(),
        forall|i: int|
            0 <= i < text_cmds(x as int, y as int, text, color, width).len() ==> {
                &&& #[trigger] text_cmds(x as int, y as int, text, color, width)[i] == DrawCmd::Glyph {
                    x: (x + 8 * i) as u32,
                    y,
                    ch: text[i],
                    color,
                }
                &&& x + 8 * i + 8 <= width
            },
{
}

/// Centred text starts as far from the left end of its strip as it ends
/// from the right end, give or take the one pixel that an odd remainder
/// leaves; right-aligned text ends exactly at the strip's right end.
pub proof fn law_text_alignment(x: u32, w: u32, text: Seq<char>)
    requires
        width_of_chars(text.len()) <= w,
    ensures
        ({
            let tw = width_of_chars(text.len()) as int;
            let left = x + sat_sub(w as int, tw) / 2;
            let gap_before = left - x;
            let gap_after = (x + w) - (left + tw);
            &&& 0 <= gap_after - gap_before <= 1
        }),
        x + sat_sub(w as int, width_of_chars(text.len()) as int) + width_of_chars(text.len()) == x + w,
{
}

} // verus!
