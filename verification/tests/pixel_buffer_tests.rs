use oxide_gui_core::pixel_buffer::PixelBuffer;

#[test]
fn new_buffer_is_black() {
    let b = PixelBuffer::new(4, 3);
    assert_eq!(b.width(), 4);
    assert_eq!(b.height(), 3);
    assert_eq!(b.as_slice(), &[0u32; 12][..]);
}

#[test]
fn fill_rect_sets_rectangle_without_alpha() {
    let mut b = PixelBuffer::new(4, 3);
    b.fill_rect(1, 1, 2, 1, 0xFF11_2233);
    let mut expected = [0u32; 12];
    expected[5] = 0x0011_2233;
    expected[6] = 0x0011_2233;
    assert_eq!(b.as_slice(), &expected[..]);
}

#[test]
fn fill_rect_clips_to_buffer() {
    let mut b = PixelBuffer::new(4, 3);
    b.fill_rect(3, 2, 5, 5, 0x8000_0001);
    let mut expected = [0u32; 12];
    expected[11] = 0x0000_0001;
    assert_eq!(b.as_slice(), &expected[..]);
}

#[test]
fn fill_rect_outside_draws_nothing() {
    let mut b = PixelBuffer::new(4, 3);
    b.fill_rect(10, 0, 2, 2, 0xFFFF_FFFF);
    b.fill_rect(0, 3, 2, 2, 0xFFFF_FFFF);
    b.fill_rect(0, 0, 0, 2, 0xFFFF_FFFF);
    assert_eq!(b.as_slice(), &[0u32; 12][..]);
}

#[test]
fn fill_rect_whole_buffer() {
    let mut b = PixelBuffer::new(3, 2);
    b.fill_rect(0, 0, 3, 2, 0xFF12_3456);
    assert_eq!(b.as_slice(), &[0x0012_3456u32; 6][..]);
}

#[test]
fn later_fill_paints_over_earlier() {
    let mut b = PixelBuffer::new(3, 1);
    b.fill_rect(0, 0, 3, 1, 0xFF00_0001);
    b.fill_rect(1, 0, 1, 1, 0xFF00_0002);
    assert_eq!(b.as_slice(), &[1u32, 2, 1][..]);
}

#[test]
fn resize_cuts_or_extends_with_black() {
    let mut b = PixelBuffer::new(2, 2);
    b.fill_rect(0, 0, 2, 2, 0xFF00_0007);
    b.resize(3, 2);
    assert_eq!((b.width(), b.height()), (3, 2));
    assert_eq!(b.as_slice(), &[7u32, 7, 7, 7, 0, 0][..]);
    b.resize(1, 2);
    assert_eq!(b.as_slice(), &[7u32, 7][..]);
}

#[test]
fn resize_to_same_size_keeps_pixels() {
    let mut b = PixelBuffer::new(2, 1);
    b.fill_rect(1, 0, 1, 1, 0xFF00_0009);
    b.resize(2, 1);
    assert_eq!(b.as_slice(), &[0u32, 9][..]);
}

use oxide_gui_core::frame_backend::FrameBackend;
use oxide_gui_core::window::WindowState;
use oxide_gui_core::{Event, Key};

#[test]
fn frame_backend_draws_fills_and_skips_glyphs() {
    let mut f = FrameBackend::new(3, 2);
    assert_eq!((f.width(), f.height()), (3, 2));
    f.fill_rect(0, 0, 3, 2, 0xFF00_0001);
    f.draw_char(0, 0, 'a', 0xFF00_0009);
    f.fill_rect(1, 1, 5, 5, 0xFF00_0002);
    assert_eq!(f.as_slice(), &[1u32, 1, 1, 1, 2, 2][..]);
}

#[test]
fn frame_backend_present_resizes() {
    let mut f = FrameBackend::new(2, 1);
    f.fill_rect(0, 0, 2, 1, 0xFF00_0003);
    f.present(2, 1);
    assert_eq!(f.as_slice(), &[3u32, 3][..]);
    f.present(3, 1);
    assert_eq!((f.width(), f.height()), (3, 1));
    assert_eq!(f.as_slice(), &[3u32, 3, 0][..]);
}

#[test]
fn frame_backend_polls_a_queue() {
    let mut f = FrameBackend::new(5, 5);
    let w = WindowState { open: true, size: (5, 5), buffer_size: (5, 5), keys: vec![26], mouse: None, buttons: (false, false, false) };
    assert!(matches!(f.poll_event(&w), Some(Event::KeyDown(Key::Char('q')))));
    assert!(f.poll_event(&w).is_none());
    f.start_frame();
    assert!(matches!(f.poll_event(&w), Some(Event::KeyDown(Key::Char('q')))));
}
