use oxide_gui_core::font::{text_width, CHAR_H, CHAR_W};
use oxide_gui_core::{Event, Key, MouseButton};

#[test]
fn close_is_close() {
    assert!(Event::Close.is_close());
    assert!(!Event::KeyDown(Key::Escape).is_close());
    assert!(!Event::Resize { width: 1, height: 2 }.is_close());
}

#[test]
fn as_char_only_for_key_down_char() {
    assert_eq!(Event::KeyDown(Key::Char('q')).as_char(), Some('q'));
    assert_eq!(Event::KeyUp(Key::Char('q')).as_char(), None);
    assert_eq!(Event::KeyDown(Key::Enter).as_char(), None);
    assert_eq!(Event::Close.as_char(), None);
}

#[test]
fn as_key_down_only_for_key_down() {
    assert_eq!(Event::KeyDown(Key::F(5)).as_key_down(), Some(Key::F(5)));
    assert_eq!(Event::KeyDown(Key::Char('a')).as_key_down(), Some(Key::Char('a')));
    assert_eq!(Event::KeyUp(Key::Up).as_key_down(), None);
    assert_eq!(Event::Scroll { delta: -3 }.as_key_down(), None);
}

#[test]
fn as_mouse_btn_only_for_buttons() {
    let e = Event::MouseButton { x: 3, y: -4, button: MouseButton::Middle, pressed: false };
    assert_eq!(e.as_mouse_btn(), Some((3, -4, MouseButton::Middle, false)));
    assert_eq!(Event::MouseMove { x: 1, y: 2 }.as_mouse_btn(), None);
}

#[test]
fn as_mouse_move_only_for_moves() {
    assert_eq!(Event::MouseMove { x: 10, y: 20 }.as_mouse_move(), Some((10, 20)));
    let e = Event::MouseButton { x: 3, y: 4, button: MouseButton::Left, pressed: true };
    assert_eq!(e.as_mouse_move(), None);
}

#[test]
fn font_metrics() {
    assert_eq!(CHAR_W, 8);
    assert_eq!(CHAR_H, 16);
}

#[test]
fn text_width_counts_characters() {
    assert_eq!(text_width("Settings"), 64);
    assert_eq!(text_width(""), 0);
    assert_eq!(text_width("\u{e9}t\u{e9}"), 24);
}
