use oxide_gui_core::keymap::translate_key;
use oxide_gui_core::window::{WindowEvents, WindowState};
use oxide_gui_core::{Event, Key, MouseButton};

fn state(open: bool, keys: Vec<u8>, mouse: Option<(i32, i32)>, buttons: (bool, bool, bool)) -> WindowState {
    WindowState { open, size: (5, 5), buffer_size: (5, 5), keys, mouse, buttons }
}

#[test]
fn closed_window_reports_close_once() {
    let mut q = WindowEvents::new();
    let w = state(false, vec![10], Some((1, 2)), (true, false, false));
    assert!(matches!(q.next_event(&w), Some(Event::Close)));
    assert!(q.next_event(&w).is_none());
    assert!(q.next_event(&w).is_none());
}

#[test]
fn size_change_reports_resize_once_then_the_rest() {
    let mut q = WindowEvents::new();
    let w = WindowState { open: true, size: (800, 600), buffer_size: (640, 400), keys: vec![26], mouse: None, buttons: (false, false, false) };
    assert!(matches!(q.next_event(&w), Some(Event::Resize { width: 800, height: 600 })));
    assert!(matches!(q.next_event(&w), Some(Event::KeyDown(Key::Char('q')))));
    assert!(q.next_event(&w).is_none());
}

#[test]
fn keys_in_order_unmapped_skipped_each_once() {
    let mut q = WindowEvents::new();
    // 55 (apostrophe) has no key; 10 is 'a'; 69 is Enter.
    let w = state(true, vec![55, 10, 69], Some((1, 1)), (true, false, false));
    assert!(matches!(q.next_event(&w), Some(Event::KeyDown(Key::Char('a')))));
    assert!(matches!(q.next_event(&w), Some(Event::KeyDown(Key::Enter))));
    assert!(matches!(
        q.next_event(&w),
        Some(Event::MouseButton { x: 1, y: 1, button: MouseButton::Left, pressed: true })
    ));
    assert!(q.next_event(&w).is_none());
    assert!(q.next_event(&w).is_none());
}

#[test]
fn new_frame_reports_its_keys() {
    let mut q = WindowEvents::new();
    let w = state(true, vec![10], None, (false, false, false));
    assert!(matches!(q.next_event(&w), Some(Event::KeyDown(Key::Char('a')))));
    assert!(q.next_event(&w).is_none());
    q.start_frame();
    assert!(matches!(q.next_event(&w), Some(Event::KeyDown(Key::Char('a')))));
    assert!(q.next_event(&w).is_none());
}

#[test]
fn buttons_in_left_right_middle_order() {
    let mut q = WindowEvents::new();
    let w = state(true, vec![], Some((0, 0)), (false, true, true));
    assert!(matches!(q.next_event(&w), Some(Event::MouseButton { button: MouseButton::Right, .. })));
    let w = state(true, vec![], Some((0, 0)), (false, false, true));
    assert!(matches!(q.next_event(&w), Some(Event::MouseButton { button: MouseButton::Middle, .. })));
}

#[test]
fn pointer_reported_when_it_changes() {
    let mut q = WindowEvents::new();
    let w = state(true, vec![], Some((7, 8)), (false, false, false));
    assert!(matches!(q.next_event(&w), Some(Event::MouseMove { x: 7, y: 8 })));
    assert!(q.next_event(&w).is_none());
    let w = state(true, vec![], Some((9, 8)), (false, false, false));
    assert!(matches!(q.next_event(&w), Some(Event::MouseMove { x: 9, y: 8 })));
    let w = state(true, vec![], Some((9, 8)), (true, false, false));
    assert!(matches!(q.next_event(&w), Some(Event::MouseButton { x: 9, y: 8, button: MouseButton::Left, pressed: true })));
    assert!(q.next_event(&w).is_none());
}

#[test]
fn unchanged_window_runs_out_of_events() {
    let mut q = WindowEvents::new();
    let w = WindowState { open: true, size: (6, 6), buffer_size: (5, 5), keys: vec![0, 1, 2, 200], mouse: Some((3, 3)), buttons: (false, false, false) };
    let mut n = 0;
    while q.next_event(&w).is_some() {
        n += 1;
        assert!(n <= 5);
    }
    // resize, three digit keys, pointer move
    assert_eq!(n, 5);
}

#[test]
fn nothing_to_report() {
    let mut q = WindowEvents::new();
    let w = state(true, vec![200], None, (true, false, false));
    assert!(q.next_event(&w).is_none());
}

#[test]
fn key_table_digits_letters_function_keys() {
    assert_eq!(translate_key(0), Some(Key::Char('0')));
    assert_eq!(translate_key(9), Some(Key::Char('9')));
    assert_eq!(translate_key(10), Some(Key::Char('a')));
    assert_eq!(translate_key(26), Some(Key::Char('q')));
    assert_eq!(translate_key(35), Some(Key::Char('z')));
    assert_eq!(translate_key(36), Some(Key::F(1)));
    assert_eq!(translate_key(47), Some(Key::F(12)));
    assert_eq!(translate_key(48), None);
}

#[test]
fn key_table_named_keys() {
    let named = [
        (51, Key::Down), (52, Key::Left), (53, Key::Right), (54, Key::Up),
        (66, Key::Backspace), (67, Key::Delete), (68, Key::End), (69, Key::Enter),
        (70, Key::Escape), (71, Key::Home), (74, Key::PageDown), (75, Key::PageUp),
        (77, Key::Space), (78, Key::Tab), (82, Key::LeftShift), (83, Key::RightShift),
        (84, Key::LeftCtrl), (85, Key::RightCtrl), (102, Key::LeftAlt),
    ];
    for (code, key) in named {
        assert_eq!(translate_key(code), Some(key));
    }
}

#[test]
fn key_table_drops_the_rest() {
    // RightAlt (103), numeric pad, punctuation, F13 and Unknown map to nothing.
    for code in [49u8, 55, 72, 86, 101, 103, 106, 255] {
        assert_eq!(translate_key(code), None);
    }
}
