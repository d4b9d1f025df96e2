//! Laws of the widgets, stated by where their glyphs and dots land.

use vstd::prelude::*;
use crate::backend::{DrawCmd, text_cmds, glyph_cmd, fill_cmd};
use crate::canvas::{
    action_row_cmds, row_head_cmds, row_separator_cmds, right_text_cmds, search_bar_cmds, sat_sub,
    spinner_dots_cmds, spinner_dot_cmds, spinner_offset_spec, as_signed,
};
use crate::color::{Color, lerp, opaque, lemma_lerp_end_points};
use crate::color::palette;
use crate::font::width_of_chars;

verus! {

/// The glyph drawing `text` at `(tx, ty)` puts down for character `i`, when
/// the whole text fits left of column `width`.
proof fn lemma_text_glyph(tx: int, ty: int, text: Seq<char>, color: Color, width: u32, i: int)
    requires
        0 <= i < text.len(),
        0 <= tx,
        tx + 8 * text.len() <= width,
    ensures
        text_cmds(tx, ty, text, color, width).len() == text.len(),
        text_cmds(tx, ty, text, color, width)[i] == glyph_cmd(tx + 8 * i, ty, text[i], color),
{
}

/// An action row with a value draws the value's characters in the dim text
/// colour on the row's middle line (`y + 18`), right-aligned so that the
/// last one ends 16 pixels in from the row's right end — whether or not
/// the row has a subtitle, is hovered or is the last of its group.
pub proof fn law_action_row_value(
    x: u32, y: u32, w: u32, title: Seq<char>, subtitle: Seq<char>, value: Seq<char>,
    hovered: bool, last: bool, width: u32,
)
    requires
        value.len() > 0,
        8 * value.len() + 16 <= w,
        x + w <= width,
    ensures
        forall|i: int|
            0 <= i < value.len() ==> action_row_cmds(x as int, y as int, w as int, title, subtitle, value, hovered,
                last, width).contains(glyph_cmd(x + w - 16 - 8 * value.len() + 8 * i, y + 18, #[trigger] value[i],
                palette::TEXT_DIM)),
{
    let cmds = action_row_cmds(x as int, y as int, w as int, title, subtitle, value, hovered, last, width);
    let head = row_head_cmds(x as int, y as int, w as int, title, subtitle, hovered, width);
    let tx = x + w - 16 - 8 * value.len();
    let vals = right_text_cmds(x as int, y + 18, sat_sub(w as int, 16), value, palette::TEXT_DIM, width);
    assert(width_of_chars(value.len()) == 8 * value.len());
    assert(vals == text_cmds(tx, y + 18, value, palette::TEXT_DIM, width));
    assert(cmds == head + vals + row_separator_cmds(x as int, y as int, w as int, last));
    assert forall|i: int| 0 <= i < value.len() implies cmds.contains(
        glyph_cmd(x + w - 16 - 8 * value.len() + 8 * i, y + 18, #[trigger] value[i], palette::TEXT_DIM),
    ) by {
        lemma_text_glyph(tx, y + 18, value, palette::TEXT_DIM, width, i);
        let k = head.len() + i;
        assert(cmds[k] == vals[i]);
    }
}

/// A search bar with a query draws the query's characters in the text
/// colour from 28 pixels in, on line `y + 10`, focused or not; and then no
/// dim glyph on that line but the magnifier at `x + 8`, so the placeholder
/// is not drawn.
pub proof fn law_search_bar_query(
    x: u32, y: u32, w: u32, text: Seq<char>, focused: bool, accent: Color, width: u32,
)
    requires
        text.len() > 0,
        x + 28 + 8 * text.len() <= width,
    ensures
        forall|i: int|
            0 <= i < text.len() ==> search_bar_cmds(x as int, y as int, w as int, text, focused, accent,
                width).contains(glyph_cmd(x + 28 + 8 * i, y + 10, #[trigger] text[i], palette::TEXT)),
        forall|k: int|
            0 <= k < search_bar_cmds(x as int, y as int, w as int, text, focused, accent, width).len()
                ==> dim_glyph_only_at(
                #[trigger] search_bar_cmds(x as int, y as int, w as int, text, focused, accent, width)[k],
                x + 8,
            ),
{
    let cmds = search_bar_cmds(x as int, y as int, w as int, text, focused, accent, width);
    let border = if focused { accent } else { palette::CARD_BORDER };
    let pre = crate::canvas::fill_round4_cmds(x as int, y as int, w as int, 36, crate::canvas::search_fill_color())
        + crate::backend::outline_cmds(x as int, y as int, w as int, 36, border)
        + (if focused {
            crate::backend::outline_cmds(x + 1, y + 1, w - 2, 34, lerp(border, palette::CARD_BG, 1, 2) as u32)
        } else {
            Seq::empty()
        });
    let mag = text_cmds(x + 8, y + 10, "O"@, palette::TEXT_DIM, width);
    let query = text_cmds(x + 28, y + 10, text, palette::TEXT, width);
    assert(cmds == pre + mag + query);
    assert forall|i: int| 0 <= i < text.len() implies cmds.contains(
        glyph_cmd(x + 28 + 8 * i, y + 10, #[trigger] text[i], palette::TEXT),
    ) by {
        lemma_text_glyph(x + 28, y + 10, text, palette::TEXT, width, i);
        let k = pre.len() + mag.len() + i;
        assert(cmds[k] == query[i]);
    }
    assert forall|k: int| 0 <= k < cmds.len() implies dim_glyph_only_at(#[trigger] cmds[k], x + 8) by {
        if k < pre.len() {
            assert(cmds[k] == pre[k]);
            lemma_fills_only(x as int, y as int, w as int, focused, accent, border, k);
        } else if k < pre.len() + mag.len() {
            reveal_strlit("O");
            assert(cmds[k] == mag[k - pre.len()]);
            assert(mag[k - pre.len()] == glyph_cmd(x + 8 + 8 * (k - pre.len()), y + 10, "O"@[k - pre.len()],
                palette::TEXT_DIM));
            assert(k - pre.len() == 0);
        } else {
            assert(cmds[k] == query[k - pre.len() - mag.len()]);
        }
    }
}

/// A search bar with no query draws the placeholder `Search...` in the dim
/// colour from 28 pixels in, on line `y + 10`, focused or not.
pub proof fn law_search_bar_placeholder(
    x: u32, y: u32, w: u32, text: Seq<char>, focused: bool, accent: Color, width: u32,
)
    requires
        text.len() == 0,
        x + 28 + 8 * 9 <= width,
    ensures
        "Search..."@.len() == 9,
        forall|i: int|
            0 <= i < 9 ==> search_bar_cmds(x as int, y as int, w as int, text, focused, accent, width).contains(
                glyph_cmd(x + 28 + 8 * i, y + 10, #[trigger] "Search..."@[i], palette::TEXT_DIM),
            ),
{
    reveal_strlit("Search...");
    let cmds = search_bar_cmds(x as int, y as int, w as int, text, focused, accent, width);
    let border = if focused { accent } else { palette::CARD_BORDER };
    let pre = crate::canvas::fill_round4_cmds(x as int, y as int, w as int, 36, crate::canvas::search_fill_color())
        + crate::backend::outline_cmds(x as int, y as int, w as int, 36, border)
        + (if focused {
            crate::backend::outline_cmds(x + 1, y + 1, w - 2, 34, lerp(border, palette::CARD_BG, 1, 2) as u32)
        } else {
            Seq::empty()
        });
    let mag = text_cmds(x + 8, y + 10, "O"@, palette::TEXT_DIM, width);
    let ph = text_cmds(x + 28, y + 10, "Search..."@, palette::TEXT_DIM, width);
    assert(cmds == pre + mag + ph);
    assert forall|i: int| 0 <= i < 9 implies cmds.contains(
        glyph_cmd(x + 28 + 8 * i, y + 10, #[trigger] "Search..."@[i], palette::TEXT_DIM),
    ) by {
        lemma_text_glyph(x + 28, y + 10, "Search..."@, palette::TEXT_DIM, width, i);
        let k = pre.len() + mag.len() + i;
        assert(cmds[k] == ph[i]);
    }
}

proof fn lemma_fills_only(x: int, y: int, w: int, focused: bool, accent: Color, border: Color, k: int)
    requires
        border == (if focused { accent } else { palette::CARD_BORDER }),
        0 <= k < (crate::canvas::fill_round4_cmds(x, y, w, 36, crate::canvas::search_fill_color())
            + crate::backend::outline_cmds(x, y, w, 36, border)
            + (if focused {
                crate::backend::outline_cmds(x + 1, y + 1, w - 2, 34, lerp(border, palette::CARD_BG, 1, 2) as u32)
            } else {
                Seq::empty()
            })).len(),
    ensures
        (crate::canvas::fill_round4_cmds(x, y, w, 36, crate::canvas::search_fill_color())
            + crate::backend::outline_cmds(x, y, w, 36, border)
            + (if focused {
                crate::backend::outline_cmds(x + 1, y + 1, w - 2, 34, lerp(border, palette::CARD_BG, 1, 2) as u32)
            } else {
                Seq::empty()
            }))[k] is Fill,
{
    let a = crate::canvas::fill_round4_cmds(x, y, w, 36, crate::canvas::search_fill_color());
    let b = crate::backend::outline_cmds(x, y, w, 36, border);
    let c: Seq<DrawCmd> = if focused {
        crate::backend::outline_cmds(x + 1, y + 1, w - 2, 34, lerp(border, palette::CARD_BG, 1, 2) as u32)
    } else {
        Seq::empty()
    };
    if k < a.len() {
        assert((a + b + c)[k] == a[k]);
    } else if k < a.len() + b.len() {
        assert((a + b + c)[k] == b[k - a.len()]);
    } else {
        assert((a + b + c)[k] == c[k - a.len() - b.len()]);
    }
}

/// A dim glyph command, if `c` is one, stands at column `gx`.
pub open spec fn dim_glyph_only_at(c: DrawCmd, gx: int) -> bool {
    match c {
        DrawCmd::Glyph { x, color, .. } => color == palette::TEXT_DIM ==> x == gx,
        _ => true,
    }
}

/// The colour of a fill command.
pub open spec fn fill_color(c: DrawCmd) -> Color {
    match c {
        DrawCmd::Fill { color, .. } => color,
        _ => 0,
    }
}

/// With every dot on screen, the spinner draws its eight dots in order.
proof fn lemma_spinner_dots(cx: u32, cy: u32, frame: u32, color: Color, n: int)
    requires
        11 <= as_signed(cx),
        11 <= as_signed(cy),
        0 <= n <= 8,
    ensures
        spinner_dots_cmds(cx, cy, frame, color, n).len() == n,
        forall|i: int|
            0 <= i < n ==> #[trigger] spinner_dots_cmds(cx, cy, frame, color, n)[i] == spinner_dot_cmds(
                cx, cy, frame, color, i)[0],
        forall|i: int| 0 <= i < 8 ==> #[trigger] spinner_dot_cmds(cx, cy, frame, color, i).len() == 1,
    decreases n,
{
    assert forall|i: int| 0 <= i < 8 implies #[trigger] spinner_dot_cmds(cx, cy, frame, color, i).len() == 1 by {
        let d = spinner_offset_spec(i);
        assert(-10 <= d.0 <= 10 && -10 <= d.1 <= 10);
    }
    if n > 0 {
        lemma_spinner_dots(cx, cy, frame, color, n - 1);
        let prev = spinner_dots_cmds(cx, cy, frame, color, n - 1);
        let last = spinner_dot_cmds(cx, cy, frame, color, n - 1);
        assert(spinner_dots_cmds(cx, cy, frame, color, n) == prev + last);
        assert forall|i: int| 0 <= i < n implies #[trigger] spinner_dots_cmds(cx, cy, frame, color, n)[i]
            == spinner_dot_cmds(cx, cy, frame, color, i)[0] by {
            if i < n - 1 {
                assert((prev + last)[i] == prev[i]);
            } else {
                assert((prev + last)[i] == last[0]);
            }
        }
    }
}

/// The spinner's head — the dot drawn in the spinner's own colour, fully
/// opaque — is dot `frame / 4 % 8`, counted clockwise from the top: each
/// dot leads for four frames, and all eight take their turn every 32
/// frames.
pub proof fn law_spinner_head(cx: u32, cy: u32, frame: u32, color: Color)
    requires
        11 <= as_signed(cx) <= i32::MAX - 10,
        11 <= as_signed(cy) <= i32::MAX - 10,
    ensures
        ({
            let head = (frame / 4) % 8;
            let d = spinner_offset_spec(head as int);
            &&& spinner_dots_cmds(cx, cy, frame, color, 8).len() == 8
            &&& spinner_dots_cmds(cx, cy, frame, color, 8)[head as int] == fill_cmd(
                as_signed(cx) + d.0 - 1,
                as_signed(cy) + d.1 - 1,
                3,
                3,
                opaque(color) as u32,
            )
        }),
{
    lemma_spinner_dots(cx, cy, frame, color, 8);
    let head = (frame / 4) % 8;
    let d = spinner_offset_spec(head as int);
    assert(-10 <= d.0 <= 10 && -10 <= d.1 <= 10);
    lemma_lerp_end_points(color, palette::SURFACE, 7);
    assert(((head + 8 - head) % 8) == 0);
}

/// Four frames later the spinner has turned one dot clockwise: dot `i + 1`
/// (mod 8) has the colour that dot `i` had.
pub proof fn law_spinner_turns(cx: u32, cy: u32, frame: u32, color: Color)
    requires
        11 <= as_signed(cx) <= i32::MAX - 10,
        11 <= as_signed(cy) <= i32::MAX - 10,
        frame + 4 <= u32::MAX,
    ensures
        forall|i: int|
            0 <= i < 8 ==> fill_color(#[trigger] spinner_dots_cmds(cx, cy, (frame + 4) as u32, color, 8)[(i + 1)
                % 8]) == fill_color(spinner_dots_cmds(cx, cy, frame, color, 8)[i]),
{
    assert forall|i: int| 0 <= i < 8 implies fill_color(
        #[trigger] spinner_dots_cmds(cx, cy, (frame + 4) as u32, color, 8)[(i + 1) % 8],
    ) == fill_color(spinner_dots_cmds(cx, cy, frame, color, 8)[i]) by {
        lemma_spinner_turn_one(cx, cy, frame, color, i);
    }
}

/// With every dot on screen, dot `i` is drawn in the colour faded by its
/// age behind the head.
proof fn lemma_dot_color(cx: u32, cy: u32, frame: u32, color: Color, i: int)
    requires
        11 <= as_signed(cx) <= i32::MAX - 10,
        11 <= as_signed(cy) <= i32::MAX - 10,
        0 <= i < 8,
    ensures
        fill_color(spinner_dots_cmds(cx, cy, frame, color, 8)[i]) == lerp(
            color,
            palette::SURFACE,
            ((i + 8 - (frame / 4) % 8) % 8) as u32,
            7,
        ) as u32,
{
    lemma_spinner_dots(cx, cy, frame, color, 8);
    let d = spinner_offset_spec(i);
    assert(-10 <= d.0 <= 10 && -10 <= d.1 <= 10);
}

proof fn lemma_spinner_turn_one(cx: u32, cy: u32, frame: u32, color: Color, i: int)
    requires
        11 <= as_signed(cx) <= i32::MAX - 10,
        11 <= as_signed(cy) <= i32::MAX - 10,
        frame + 4 <= u32::MAX,
        0 <= i < 8,
    ensures
        fill_color(spinner_dots_cmds(cx, cy, (frame + 4) as u32, color, 8)[(i + 1) % 8])
            == fill_color(spinner_dots_cmds(cx, cy, frame, color, 8)[i]),
{
    let j = (i + 1) % 8;
    lemma_age_shift(frame, i);
    lemma_dot_color(cx, cy, frame, color, i);
    lemma_dot_color(cx, cy, (frame + 4) as u32, color, j);
}

/// Four frames on, the dot after `i` is as old as `i` was.
proof fn lemma_age_shift(frame: u32, i: int)
    requires
        frame + 4 <= u32::MAX,
        0 <= i < 8,
    ensures
        (((i + 1) % 8 + 8 - (((frame + 4) as u32) / 4) % 8) % 8) as u32 == ((i + 8 - (frame / 4) % 8) % 8) as u32,
{
    let h1 = (frame / 4) % 8;
    let h2 = (((frame + 4) as u32) / 4) % 8;
    assert(((frame + 4) as u32) / 4 == frame / 4 + 1);
    assert(h2 == (h1 + 1) % 8);
}

} // verus!
