use oxide_gui_core::color::{alpha, argb, blue, green, lerp_color, red, rgb, to_rgb24};
use oxide_gui_core::color::palette;
use oxide_gui_core::color::palette::adwaita;

#[test]
fn rgb_packs_opaque() {
    assert_eq!(rgb(0x12, 0x34, 0x56), 0xFF12_3456);
    assert_eq!(rgb(0, 0, 0), 0xFF00_0000);
    assert_eq!(rgb(0xFF, 0xFF, 0xFF), 0xFFFF_FFFF);
}

#[test]
fn argb_packs_alpha() {
    assert_eq!(argb(128, 255, 0, 0), 0x80FF_0000);
    assert_eq!(argb(0, 1, 2, 3), 0x0001_0203);
    assert_eq!(argb(0xFF, 0x12, 0x34, 0x56), rgb(0x12, 0x34, 0x56));
}

#[test]
fn channels_extract() {
    let c = 0xAABB_CCDDu32;
    assert_eq!(alpha(c), 0xAA);
    assert_eq!(red(c), 0xBB);
    assert_eq!(green(c), 0xCC);
    assert_eq!(blue(c), 0xDD);
}

#[test]
fn channels_round_trip() {
    let c = argb(7, 200, 100, 50);
    assert_eq!((alpha(c), red(c), green(c), blue(c)), (7, 200, 100, 50));
    let d = 0x1234_5678u32;
    assert_eq!(argb(alpha(d), red(d), green(d), blue(d)), d);
}

#[test]
fn to_rgb24_strips_alpha() {
    assert_eq!(to_rgb24(0xAABB_CCDD), 0x00BB_CCDD);
    assert_eq!(to_rgb24(rgb(1, 2, 3)), 0x0001_0203);
}

#[test]
fn lerp_zero_steps_is_start() {
    assert_eq!(lerp_color(0x1234_5678, 0xFFFF_FFFF, 5, 0), 0x1234_5678);
}

#[test]
fn lerp_end_points_are_opaque_ends() {
    let a = 0x0010_2030u32;
    let b = 0x0040_5060u32;
    assert_eq!(lerp_color(a, b, 0, 4), 0xFF10_2030);
    assert_eq!(lerp_color(a, b, 4, 4), 0xFF40_5060);
}

#[test]
fn lerp_midpoint_of_purple_and_electric_blue() {
    // red 0x8B -> 0x00: 139 - 139/2 = 70; green 0x5C -> 0xB4: 92 + 88/2 = 136;
    // blue 0xF6 -> 0xFF: 246 + 9/2 = 250.
    assert_eq!(lerp_color(palette::PURPLE, palette::ELECTRIC_BLUE, 1, 2), 0xFF46_88FA);
}

#[test]
fn lerp_rounds_toward_start() {
    assert_eq!(lerp_color(0xFF00_0000, 0xFF0A_0A0A, 1, 3), 0xFF03_0303);
    assert_eq!(lerp_color(0xFF0A_0A0A, 0xFF00_0000, 1, 3), 0xFF07_0707);
}

#[test]
fn lerp_same_color_is_that_color() {
    assert_eq!(lerp_color(0x0012_3456, 0x0012_3456, 3, 7), 0xFF12_3456);
}

#[test]
fn lerp_channels_move_monotonically() {
    let a = rgb(10, 200, 50);
    let b = rgb(250, 0, 50);
    let mut prev = lerp_color(a, b, 0, 10);
    for t in 1..=10u32 {
        let c = lerp_color(a, b, t, 10);
        assert!(red(c) >= red(prev));
        assert!(green(c) <= green(prev));
        assert_eq!(blue(c), 50);
        prev = c;
    }
    assert_eq!(prev, b);
}

#[test]
fn palette_entries_are_opaque_rgb() {
    assert_eq!(palette::BLACK, rgb(0, 0, 0));
    assert_eq!(palette::WHITE, rgb(0xFF, 0xFF, 0xFF));
    assert_eq!(palette::RED, rgb(0xF1, 0x4C, 0x4C));
    assert_eq!(palette::DIVIDER, rgb(0x3F, 0x3F, 0x46));
    assert_eq!(palette::CARD_BG, rgb(0x1A, 0x1A, 0x2E));
    assert_eq!(palette::GNOME_BLUE, rgb(0x35, 0x84, 0xE4));
    assert_eq!(adwaita::ACCENT, rgb(0x35, 0x84, 0xE4));
    assert_eq!(adwaita::HEADERBAR, rgb(0x30, 0x30, 0x30));
    assert_eq!(adwaita::PANEL_BORDER, rgb(0, 0, 0));
}
