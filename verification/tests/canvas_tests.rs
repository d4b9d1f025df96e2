use oxide_gui_core::backend::{Backend, DrawCmd};
use oxide_gui_core::color::palette;
use oxide_gui_core::color::{lerp_color, Color};
use oxide_gui_core::pixel_buffer::PixelBuffer;
use oxide_gui_core::{Canvas, Event, Key};

/// A backend that records every primitive call.
struct Recorder {
    cmds: Vec<DrawCmd>,
    w: u32,
    h: u32,
    events: Vec<Event>,
}

impl Recorder {
    fn new(w: u32, h: u32) -> Self {
        Recorder { cmds: Vec::new(), w, h, events: Vec::new() }
    }
}

impl Backend for Recorder {
    fn width(&self) -> u32 {
        self.w
    }
    fn height(&self) -> u32 {
        self.h
    }
    fn fill_rect(&mut self, x: u32, y: u32, w: u32, h: u32, color: Color) {
        self.cmds.push(DrawCmd::Fill { x, y, w, h, color });
    }
    fn present(&mut self) {
        self.cmds.push(DrawCmd::Present);
    }
    fn poll_event(&mut self) -> Option<Event> {
        if self.events.is_empty() {
            None
        } else {
            Some(self.events.remove(0))
        }
    }
    fn draw_char(&mut self, x: u32, y: u32, ch: char, color: Color) {
        self.cmds.push(DrawCmd::Glyph { x, y, ch, color });
    }
}

fn fill(x: u32, y: u32, w: u32, h: u32, color: Color) -> DrawCmd {
    DrawCmd::Fill { x, y, w, h, color }
}

fn glyph(x: u32, y: u32, ch: char, color: Color) -> DrawCmd {
    DrawCmd::Glyph { x, y, ch, color }
}

fn outline(x: u32, y: u32, w: u32, h: u32, c: Color) -> Vec<DrawCmd> {
    vec![fill(x, y, w, 1, c), fill(x, y + h - 1, w, 1, c), fill(x, y, 1, h, c), fill(x + w - 1, y, 1, h, c)]
}

fn round4(x: u32, y: u32, w: u32, h: u32, c: Color) -> Vec<DrawCmd> {
    vec![
        fill(x, y + 4, w, h - 8, c),
        fill(x + 4, y, w - 8, 1, c),
        fill(x + 2, y + 1, w - 4, 1, c),
        fill(x + 1, y + 2, w - 2, 2, c),
        fill(x + 1, y + h - 4, w - 2, 2, c),
        fill(x + 2, y + h - 2, w - 4, 1, c),
        fill(x + 4, y + h - 1, w - 8, 1, c),
    ]
}

fn text(x: u32, y: u32, s: &str, c: Color) -> Vec<DrawCmd> {
    s.chars().enumerate().map(|(i, ch)| glyph(x + 8 * i as u32, y, ch, c)).collect()
}

fn draw<F: FnOnce(&mut Canvas<Recorder>)>(w: u32, h: u32, f: F) -> Vec<DrawCmd> {
    let mut r = Recorder::new(w, h);
    {
        let mut c = Canvas::new(&mut r);
        f(&mut c);
    }
    r.cmds
}

const F: Color = 0xFF11_1111;
const B: Color = 0xFF22_2222;
const T: Color = 0xFF33_3333;
const A: Color = 0xFF44_4444;

#[test]
fn delegation_primitives() {
    let cmds = draw(100, 50, |c| {
        c.fill_rect(1, 2, 3, 4, F);
        c.hline(5, 6, 7, F);
        c.vline(8, 9, 10, F);
        c.clear(B);
        c.present();
    });
    assert_eq!(
        cmds,
        vec![fill(1, 2, 3, 4, F), fill(5, 6, 7, 1, F), fill(8, 9, 1, 10, F), fill(0, 0, 100, 50, B), DrawCmd::Present]
    );
}

#[test]
fn size_queries() {
    let mut r = Recorder::new(640, 400);
    let c = Canvas::new(&mut r);
    assert_eq!(c.width(), 640);
    assert_eq!(c.height(), 400);
    assert_eq!(c.size(), (640, 400));
    assert_eq!(r.size(), (640, 400));
}

#[test]
fn poll_event_forwards_backend_events() {
    let mut r = Recorder::new(10, 10);
    r.events.push(Event::KeyDown(Key::Char('q')));
    let mut c = Canvas::new(&mut r);
    assert_eq!(c.poll_event().and_then(|e| e.as_char()), Some('q'));
    assert!(c.poll_event().is_none());
}

#[test]
fn draw_rect_four_edges() {
    let cmds = draw(100, 100, |c| c.draw_rect(10, 20, 30, 40, B));
    assert_eq!(cmds, outline(10, 20, 30, 40, B));
}

#[test]
fn draw_text_advances_per_char() {
    let cmds = draw(100, 100, |c| c.draw_text(0, 5, "Hello", T));
    assert_eq!(cmds, text(0, 5, "Hello", T));
}

#[test]
fn draw_text_stops_at_right_edge() {
    let cmds = draw(20, 100, |c| c.draw_text(4, 0, "abcd", T));
    assert_eq!(cmds, vec![glyph(4, 0, 'a', T), glyph(12, 0, 'b', T)]);
    let cmds = draw(20, 100, |c| c.draw_text(u32::MAX - 3, 0, "abcd", T));
    assert!(cmds.is_empty());
}

#[test]
fn panel_fill_then_border() {
    let cmds = draw(100, 100, |c| c.panel(10, 20, 30, 40, F, B));
    let mut expected = vec![fill(10, 20, 30, 40, F)];
    expected.extend(outline(10, 20, 30, 40, B));
    assert_eq!(cmds, expected);
}

#[test]
fn title_bar_white_text_padded() {
    let cmds = draw(640, 100, |c| c.title_bar(0, 0, 100, 32, "Hi", F));
    assert_eq!(cmds, vec![fill(0, 0, 100, 32, F), glyph(8, 8, 'H', palette::WHITE), glyph(16, 8, 'i', palette::WHITE)]);
}

#[test]
fn button_centres_label() {
    let cmds = draw(640, 100, |c| c.button(10, 10, 100, 30, "OK", F, B, T));
    let mut expected = vec![fill(10, 10, 100, 30, F)];
    expected.extend(outline(10, 10, 100, 30, B));
    expected.extend(text(52, 17, "OK", T));
    assert_eq!(cmds, expected);
}

#[test]
fn progress_bar_fills_share() {
    let cmds = draw(640, 100, |c| c.progress_bar(0, 0, 200, 10, 50, T, F, B));
    let mut expected = vec![fill(0, 0, 200, 10, T), fill(0, 0, 100, 10, F)];
    expected.extend(outline(0, 0, 200, 10, B));
    assert_eq!(cmds, expected);
}

#[test]
fn progress_bar_clamps_and_skips_empty_fill() {
    let cmds = draw(640, 100, |c| c.progress_bar(0, 0, 200, 10, 150, T, F, B));
    assert_eq!(cmds[1], fill(0, 0, 200, 10, F));
    let cmds = draw(640, 100, |c| c.progress_bar(0, 0, 200, 10, 0, T, F, B));
    let mut expected = vec![fill(0, 0, 200, 10, T)];
    expected.extend(outline(0, 0, 200, 10, B));
    assert_eq!(cmds, expected);
}

#[test]
fn dividers_use_divider_color() {
    let cmds = draw(100, 100, |c| {
        c.divider_v(3, 4, 5);
        c.divider_h(6, 7, 8);
    });
    assert_eq!(cmds, vec![fill(3, 4, 1, 5, palette::DIVIDER), fill(6, 7, 8, 1, palette::DIVIDER)]);
}

#[test]
fn centered_and_right_text_positions() {
    let cmds = draw(640, 100, |c| c.centered_text(0, 5, 100, "abc", T));
    assert_eq!(cmds, text(38, 5, "abc", T));
    let cmds = draw(640, 100, |c| c.right_text(0, 5, 100, "abc", T));
    assert_eq!(cmds, text(76, 5, "abc", T));
    let cmds = draw(640, 100, |c| c.centered_text(10, 5, 8, "abc", T));
    assert_eq!(cmds, text(10, 5, "abc", T));
}

#[test]
fn fill_rounded_leaves_corners() {
    let cmds = draw(100, 100, |c| c.fill_rounded(0, 0, 10, 5, F));
    assert_eq!(cmds, vec![fill(1, 0, 8, 5, F), fill(0, 1, 1, 3, F), fill(9, 1, 1, 3, F)]);
    let cmds = draw(100, 100, |c| c.fill_rounded(3, 3, 1, 5, F));
    assert_eq!(cmds, vec![fill(3, 3, 1, 5, F)]);
}

#[test]
fn gradient_h_columns() {
    let cmds = draw(100, 100, |c| c.gradient_h(0, 0, 3, 2, 0xFF00_0000, 0xFF0A_0A0A));
    assert_eq!(cmds, vec![fill(0, 0, 1, 2, 0xFF00_0000), fill(1, 0, 1, 2, 0xFF05_0505), fill(2, 0, 1, 2, 0xFF0A_0A0A)]);
    let cmds = draw(100, 100, |c| c.gradient_h(5, 0, 1, 2, 0x0001_0203, 0xFF0A_0A0A));
    assert_eq!(cmds, vec![fill(5, 0, 1, 2, 0xFF01_0203)]);
    let cmds = draw(100, 100, |c| c.gradient_h(5, 0, 0, 2, F, B));
    assert!(cmds.is_empty());
}

#[test]
fn gradient_v_rows() {
    let cmds = draw(100, 100, |c| c.gradient_v(1, 2, 4, 3, 0xFF0A_0A0A, 0xFF00_0000));
    assert_eq!(cmds, vec![fill(1, 2, 4, 1, 0xFF0A_0A0A), fill(1, 3, 4, 1, 0xFF05_0505), fill(1, 4, 4, 1, 0xFF00_0000)]);
}

#[test]
fn shadow_panel_shadow_first() {
    let cmds = draw(100, 100, |c| c.shadow_panel(0, 0, 10, 10, F, B));
    let mut expected = vec![fill(4, 4, 10, 10, palette::BLACK), fill(0, 0, 10, 10, F)];
    expected.extend(outline(0, 0, 10, 10, B));
    assert_eq!(cmds, expected);
}

#[test]
fn accent_bar_and_dot() {
    let cmds = draw(100, 100, |c| {
        c.accent_bar(1, 2, 30, A);
        c.dot(5, 6, A);
    });
    assert_eq!(cmds, vec![fill(1, 2, 3, 30, A), fill(5, 6, 4, 4, A)]);
}

#[test]
fn icon_tile_rounded_with_label() {
    let cmds = draw(640, 100, |c| c.icon_tile(0, 0, 32, F, "A"));
    assert_eq!(
        cmds,
        vec![fill(1, 0, 30, 32, F), fill(0, 1, 1, 30, F), fill(31, 1, 1, 30, F), glyph(12, 8, 'A', palette::WHITE)]
    );
}

#[test]
fn gradient_progress_columns() {
    let cmds = draw(640, 100, |c| c.gradient_progress(0, 0, 100, 10, 3, T, 0xFF00_0000, 0xFF0A_0A0A, B));
    let mut expected = vec![
        fill(0, 0, 100, 10, T),
        fill(0, 0, 1, 10, 0xFF00_0000),
        fill(1, 0, 1, 10, 0xFF05_0505),
        fill(2, 0, 1, 10, 0xFF0A_0A0A),
    ];
    expected.extend(outline(0, 0, 100, 10, B));
    assert_eq!(cmds, expected);
}

#[test]
fn fill_round4_staircase() {
    let cmds = draw(100, 100, |c| c.fill_round4(0, 0, 20, 10, F));
    assert_eq!(
        cmds,
        vec![
            fill(0, 4, 20, 2, F),
            fill(4, 0, 12, 1, F),
            fill(2, 1, 16, 1, F),
            fill(1, 2, 18, 2, F),
            fill(1, 6, 18, 2, F),
            fill(2, 8, 16, 1, F),
            fill(4, 9, 12, 1, F),
        ]
    );
    let cmds = draw(100, 100, |c| c.fill_round4(0, 0, 7, 10, F));
    assert_eq!(cmds, vec![fill(0, 0, 7, 10, F)]);
}

#[test]
fn toggle_switch_on_and_off() {
    let cmds = draw(100, 100, |c| c.toggle_switch(0, 0, true, A));
    let mut expected = vec![fill(13, 0, 26, 26, A)];
    expected.extend(round4(0, 0, 26, 26, A));
    expected.extend(round4(26, 0, 26, 26, A));
    expected.extend(round4(28, 2, 22, 22, palette::WHITE));
    assert_eq!(cmds, expected);
    let off = 0xFF4A_4A4A;
    let cmds = draw(100, 100, |c| c.toggle_switch(0, 0, false, A));
    let mut expected = vec![fill(13, 0, 26, 26, off)];
    expected.extend(round4(0, 0, 26, 26, off));
    expected.extend(round4(26, 0, 26, 26, off));
    expected.extend(round4(2, 2, 22, 22, palette::WHITE));
    assert_eq!(cmds, expected);
}

#[test]
fn action_row_minimal_and_full() {
    let mut r = Recorder::new(640, 400);
    let h = Canvas::new(&mut r).action_row(0, 0, 200, "T", "", "", false, true);
    assert_eq!(h, 52);
    assert_eq!(r.cmds, vec![fill(0, 0, 200, 52, palette::CARD_BG), glyph(16, 10, 'T', palette::TEXT)]);
    let cmds = draw(640, 400, |c| {
        c.action_row(0, 0, 200, "T", "s", "v", true, false);
    });
    assert_eq!(
        cmds,
        vec![
            fill(0, 0, 200, 52, 0xFF24_243C),
            glyph(16, 10, 'T', palette::TEXT),
            glyph(16, 30, 's', palette::TEXT_DIM),
            glyph(176, 18, 'v', palette::TEXT_DIM),
            fill(16, 51, 184, 1, palette::CARD_BORDER),
        ]
    );
}

#[test]
fn action_row_toggle_places_switch() {
    let mut r = Recorder::new(640, 400);
    let h = Canvas::new(&mut r).action_row_toggle(0, 0, 200, "T", "", true, A, false, false);
    assert_eq!(h, 52);
    let mut expected = vec![fill(0, 0, 200, 52, palette::CARD_BG), glyph(16, 10, 'T', palette::TEXT)];
    expected.push(fill(145, 13, 26, 26, A));
    expected.extend(round4(132, 13, 26, 26, A));
    expected.extend(round4(158, 13, 26, 26, A));
    expected.extend(round4(160, 15, 22, 22, palette::WHITE));
    expected.push(fill(16, 51, 184, 1, palette::CARD_BORDER));
    assert_eq!(r.cmds, expected);
}

#[test]
fn action_row_nav_chevron() {
    let mut r = Recorder::new(640, 400);
    let h = Canvas::new(&mut r).action_row_nav(0, 0, 200, "T", "", false, true);
    assert_eq!(h, 52);
    assert_eq!(
        r.cmds,
        vec![fill(0, 0, 200, 52, palette::CARD_BG), glyph(16, 10, 'T', palette::TEXT), glyph(176, 18, '>', palette::TEXT_DIM)]
    );
}

#[test]
fn search_bar_placeholder_and_focus() {
    let cmds = draw(640, 400, |c| c.search_bar(0, 0, 200, "", false, A));
    let mut expected = round4(0, 0, 200, 36, 0xFF1E_1E30);
    expected.extend(outline(0, 0, 200, 36, palette::CARD_BORDER));
    expected.extend(text(8, 10, "O", palette::TEXT_DIM));
    expected.extend(text(28, 10, "Search...", palette::TEXT_DIM));
    assert_eq!(cmds, expected);

    let cmds = draw(640, 400, |c| c.search_bar(0, 0, 200, "q", true, A));
    let mut expected = round4(0, 0, 200, 36, 0xFF1E_1E30);
    expected.extend(outline(0, 0, 200, 36, A));
    expected.extend(outline(1, 1, 198, 34, lerp_color(A, palette::CARD_BG, 1, 2)));
    expected.extend(text(8, 10, "O", palette::TEXT_DIM));
    expected.extend(text(28, 10, "q", palette::TEXT));
    assert_eq!(cmds, expected);
}

#[test]
fn gnome_headerbar_layout() {
    let cmds = draw(640, 400, |c| c.gnome_headerbar(0, 0, 200, "Hi", true, F));
    let btn = 0xFF30_304A;
    let mut expected = vec![fill(0, 0, 200, 48, F), fill(0, 47, 200, 1, palette::CARD_BORDER)];
    expected.extend(round4(8, 7, 34, 34, btn));
    expected.extend(text(18, 16, "<", palette::TEXT));
    expected.extend(text(92, 16, "Hi", palette::TEXT));
    expected.extend(round4(150, 7, 34, 34, btn));
    expected.extend(vec![
        fill(157, 21, 4, 4, palette::TEXT_DIM),
        fill(165, 21, 4, 4, palette::TEXT_DIM),
        fill(173, 21, 4, 4, palette::TEXT_DIM),
    ]);
    assert_eq!(cmds, expected);
}

#[test]
fn spinner_dots_fade_from_head() {
    let cmds = draw(640, 400, |c| c.spinner(100, 100, 0, A));
    let offsets = [(0, -10), (7, -7), (10, 0), (7, 7), (0, 10), (-7, 7), (-10, 0), (-7, -7)];
    let expected: Vec<DrawCmd> = offsets
        .iter()
        .enumerate()
        .map(|(i, &(dx, dy))| {
            fill((100 + dx - 1) as u32, (100 + dy - 1) as u32, 3, 3, lerp_color(A, palette::SURFACE, i as u32, 7))
        })
        .collect();
    assert_eq!(cmds, expected);
}

#[test]
fn spinner_skips_dots_off_the_top_left() {
    let cmds = draw(640, 400, |c| c.spinner(0, 0, 4, A));
    // Only the dot at (7, 7) stays on screen; frame 4 makes dot 1 the head,
    // so dot 3 is two steps behind it.
    assert_eq!(cmds, vec![fill(6, 6, 3, 3, lerp_color(A, palette::SURFACE, 2, 7))]);
}

#[test]
fn toast_layout() {
    let cmds = draw(640, 400, |c| c.toast(0, 0, 200, "m", A));
    let mut expected = vec![fill(4, 4, 200, 44, palette::BLACK)];
    expected.extend(round4(0, 0, 200, 44, 0xFF2E_2E46));
    expected.extend(outline(0, 0, 200, 44, 0xFF44_4466));
    expected.push(fill(12, 18, 8, 8, A));
    expected.push(glyph(28, 14, 'm', palette::TEXT));
    expected.push(glyph(178, 14, 'x', palette::TEXT_DIM));
    assert_eq!(cmds, expected);
}

#[test]
fn avatar_and_chip() {
    let cmds = draw(640, 400, |c| c.avatar(0, 0, 32, "AB", F));
    let mut expected = round4(0, 0, 32, 32, F);
    expected.extend(text(8, 8, "AB", palette::WHITE));
    assert_eq!(cmds, expected);
    let cmds = draw(640, 400, |c| c.chip(0, 0, "ab", F, T));
    let mut expected = round4(0, 0, 32, 22, F);
    expected.extend(text(8, 3, "ab", T));
    assert_eq!(cmds, expected);
}

#[test]
fn backend_mut_reaches_backend() {
    let mut r = Recorder::new(10, 10);
    {
        let mut c = Canvas::new(&mut r);
        c.backend_mut().w = 20;
        assert_eq!(c.width(), 20);
    }
    assert_eq!(r.w, 20);
}

/// Replaying a panel's commands onto a pixel buffer paints the border in
/// the border colour and the inside in the fill colour.
#[test]
fn panel_pixels_on_a_buffer() {
    let cmds = draw(6, 5, |c| c.panel(1, 1, 4, 3, 0xFF00_0001, 0xFF00_0002));
    let mut buf = PixelBuffer::new(6, 5);
    for cmd in cmds {
        if let DrawCmd::Fill { x, y, w, h, color } = cmd {
            buf.fill_rect(x, y, w, h, color);
        }
    }
    let expected: [u32; 30] = [
        0, 0, 0, 0, 0, 0,
        0, 2, 2, 2, 2, 0,
        0, 2, 1, 1, 2, 0,
        0, 2, 2, 2, 2, 0,
        0, 0, 0, 0, 0, 0,
    ];
    assert_eq!(buf.as_slice(), &expected[..]);
}

/// Clearing covers every pixel of the screen.
#[test]
fn clear_pixels_on_a_buffer() {
    let cmds = draw(3, 2, |c| c.clear(0xAA00_0005));
    let mut buf = PixelBuffer::new(3, 2);
    for cmd in cmds {
        if let DrawCmd::Fill { x, y, w, h, color } = cmd {
            buf.fill_rect(x, y, w, h, color);
        }
    }
    assert_eq!(buf.as_slice(), &[5u32; 6][..]);
}

#[test]
fn last_action_row_near_the_bottom_edge() {
    let y = u32::MAX - 40;
    let mut r = Recorder::new(640, 400);
    let h = Canvas::new(&mut r).action_row(0, y, 200, "T", "", "", false, true);
    assert_eq!(h, 52);
    assert_eq!(r.cmds, vec![fill(0, y, 200, 52, palette::CARD_BG), glyph(16, y + 10, 'T', palette::TEXT)]);
}

#[test]
fn drawing_leaves_pending_events() {
    let mut r = Recorder::new(100, 100);
    r.events.push(Event::Close);
    {
        let mut c = Canvas::new(&mut r);
        c.dot(1, 1, A);
        c.panel(0, 0, 10, 10, F, B);
    }
    assert_eq!(r.events.len(), 1);
}
