//! Color type and helpers.
//!
//! All colors are stored as `0xAA_RR_GG_BB` (alpha, red, green, blue),
//! matching OxideOS's native framebuffer format.  The alpha channel is
//! treated as fully-opaque (0xFF) for all blending in the default backends.
//!
//! The contracts speak of colors arithmetically: a color is the number
//! `a * 2^24 + r * 2^16 + g * 2^8 + b` (see [`pack`]), and each channel is a
//! digit of that number in base 256.

pub mod palette;

use vstd::prelude::*;

verus! {

/// ARGB color value: `0xAA_RR_GG_BB`.
pub type Color = u32;

/// The color whose alpha, red, green and blue channels are `a`, `r`, `g`, `b`.
pub open spec fn pack(a: int, r: int, g: int, b: int) -> int {
    a * 0x1000000 + r * 0x10000 + g * 0x100 + b
}

/// Channel `k` of `c`, counting from the blue channel (`k == 0`) up to alpha (`k == 3`).
pub open spec fn channel(c: u32, k: nat) -> int {
    if k == 0 {
        (c % 0x100) as int
    } else if k == 1 {
        ((c / 0x100) % 0x100) as int
    } else if k == 2 {
        ((c / 0x10000) % 0x100) as int
    } else {
        ((c / 0x1000000) % 0x100) as int
    }
}

pub open spec fn red_of(c: u32) -> int {
    channel(c, 2)
}

pub open spec fn green_of(c: u32) -> int {
    channel(c, 1)
}

pub open spec fn blue_of(c: u32) -> int {
    channel(c, 0)
}

pub open spec fn alpha_of(c: u32) -> int {
    channel(c, 3)
}

/// `c` with its alpha channel forced to 0xFF.
pub open spec fn opaque(c: u32) -> int {
    pack(0xFF, red_of(c), green_of(c), blue_of(c))
}

/// Construct a fully-opaque color from red, green, blue byte components.
pub fn rgb(r: u8, g: u8, b: u8) -> (c: Color)
    ensures
        c == pack(0xFF, r as int, g as int, b as int),
{
    let c = 0xFF000000u32 | ((r as u32) << 16) | ((g as u32) << 8) | (b as u32);
    assert(0xFF000000u32 | ((r as u32) << 16) | ((g as u32) << 8) | (b as u32)
        == 0xFF000000u32 + (r as u32) * 0x10000u32 + (g as u32) * 0x100u32 + (b as u32))
        by (bit_vector);
    c
}

/// Construct a color with an explicit alpha channel.
pub fn argb(a: u8, r: u8, g: u8, b: u8) -> (c: Color)
    ensures
        c == pack(a as int, r as int, g as int, b as int),
{
    let c = ((a as u32) << 24) | ((r as u32) << 16) | ((g as u32) << 8) | (b as u32);
    assert(((a as u32) << 24) | ((r as u32) << 16) | ((g as u32) << 8) | (b as u32)
        == (a as u32) * 0x1000000u32 + (r as u32) * 0x10000u32 + (g as u32) * 0x100u32 + (b as u32))
        by (bit_vector);
    c
}

/// Extract the red component.
pub fn red(c: Color) -> (r: u8)
    ensures
        r == red_of(c),
{
    assert(((c >> 16) & 0xFF) == (c / 0x10000) % 0x100) by (bit_vector);
    ((c >> 16) & 0xFF) as u8
}

/// Extract the green component.
pub fn green(c: Color) -> (g: u8)
    ensures
        g == green_of(c),
{
    assert(((c >> 8) & 0xFF) == (c / 0x100) % 0x100) by (bit_vector);
    ((c >> 8) & 0xFF) as u8
}

/// Extract the blue component.
pub fn blue(c: Color) -> (b: u8)
    ensures
        b == blue_of(c),
{
    assert((c & 0xFF) == c % 0x100) by (bit_vector);
    (c & 0xFF) as u8
}

/// Extract the alpha component.
pub fn alpha(c: Color) -> (a: u8)
    ensures
        a == alpha_of(c),
{
    assert(((c >> 24) & 0xFF) == (c / 0x1000000) % 0x100) by (bit_vector);
    ((c >> 24) & 0xFF) as u8
}

/// Strip alpha and return the color in `0x00_RR_GG_BB` format (for minifb).
pub fn to_rgb24(c: Color) -> (r: u32)
    ensures
        r == c % 0x1000000,
        r == pack(0, red_of(c), green_of(c), blue_of(c)),
{
    proof {
        lemma_color_decomposes(c);
    }
    assert((c & 0x00FFFFFF) == c % 0x1000000) by (bit_vector);
    c & 0x00FFFFFF
}

/// Channel value `t/steps` of the way from `ac` to `bc`, rounded toward `ac`.
pub open spec fn lerp_channel(ac: int, bc: int, t: int, steps: int) -> int {
    if bc >= ac {
        ac + (bc - ac) * t / steps
    } else {
        ac - (ac - bc) * t / steps
    }
}

/// The distance between channel `k` of `a` and of `b`.
pub open spec fn channel_gap(a: u32, b: u32, k: nat) -> int {
    if channel(a, k) <= channel(b, k) {
        channel(b, k) - channel(a, k)
    } else {
        channel(a, k) - channel(b, k)
    }
}

/// The inputs on which [`lerp_color`] computes without overflow: `t` lies in
/// `0..=steps`, and no channel gap times `t` exceeds `u32::MAX`.
pub open spec fn lerp_in_range(a: u32, b: u32, t: u32, steps: u32) -> bool {
    steps == 0 || {
        &&& t <= steps
        &&& channel_gap(a, b, 0) * t <= u32::MAX
        &&& channel_gap(a, b, 1) * t <= u32::MAX
        &&& channel_gap(a, b, 2) * t <= u32::MAX
    }
}

/// The color `t/steps` of the way from `a` to `b`, fully opaque; `a` itself when `steps == 0`.
pub open spec fn lerp(a: u32, b: u32, t: u32, steps: u32) -> int {
    if steps == 0 {
        a as int
    } else {
        pack(
            0xFF,
            lerp_channel(red_of(a), red_of(b), t as int, steps as int),
            lerp_channel(green_of(a), green_of(b), t as int, steps as int),
            lerp_channel(blue_of(a), blue_of(b), t as int, steps as int),
        )
    }
}

proof fn lemma_scaled_gap(d: int, t: int, s: int)
    by (nonlinear_arith)
    requires
        0 <= d,
        0 <= t <= s,
        0 < s,
    ensures
        0 <= d * t / s <= d,
{
    assert(d * t <= d * s);
}

/// A linearly interpolated channel lies between its two end points.
pub proof fn lemma_lerp_channel_between(ac: int, bc: int, t: int, steps: int)
    requires
        0 <= t <= steps,
        0 < steps,
    ensures
        ac <= bc ==> ac <= lerp_channel(ac, bc, t, steps) <= bc,
        bc < ac ==> bc <= lerp_channel(ac, bc, t, steps) <= ac,
{
    if bc >= ac {
        lemma_scaled_gap(bc - ac, t, steps);
    } else {
        lemma_scaled_gap(ac - bc, t, steps);
    }
}

proof fn lemma_scaled_ends(d: int, s: int)
    by (nonlinear_arith)
    requires
        0 < s,
    ensures
        d * 0 / s == 0,
        d * s / s == d,
{
}

proof fn lemma_scaled_monotone(d: int, t1: int, t2: int, s: int)
    by (nonlinear_arith)
    requires
        0 <= d,
        0 <= t1 <= t2,
        0 < s,
    ensures
        d * t1 / s <= d * t2 / s,
{
    assert(d * t1 <= d * t2);
}

/// Interpolating at `t == 0` gives the start color and at `t == steps` the
/// end color, each made opaque.
pub proof fn lemma_lerp_end_points(a: u32, b: u32, steps: u32)
    requires
        0 < steps,
    ensures
        lerp(a, b, 0, steps) == opaque(a),
        lerp(a, b, steps, steps) == opaque(b),
{
    let s = steps as int;
    lemma_scaled_ends(red_of(b) - red_of(a), s);
    lemma_scaled_ends(red_of(a) - red_of(b), s);
    lemma_scaled_ends(green_of(b) - green_of(a), s);
    lemma_scaled_ends(green_of(a) - green_of(b), s);
    lemma_scaled_ends(blue_of(b) - blue_of(a), s);
    lemma_scaled_ends(blue_of(a) - blue_of(b), s);
}

/// Interpolating between a color and itself gives that color, opaque.
pub proof fn lemma_lerp_same(a: u32, t: u32, steps: u32)
    requires
        0 < steps,
    ensures
        lerp(a, a, t, steps) == opaque(a),
{
    lemma_scaled_gap(0, 0, 1);
    assert(0 * (t as int) == 0);
}

/// Each channel of an interpolated color lies between the channels of the two
/// end colors, and moves monotonically toward the end color as `t` grows.
pub proof fn lemma_lerp_monotone(a: u32, b: u32, t1: u32, t2: u32, steps: u32)
    requires
        t1 <= t2 <= steps,
        0 < steps,
    ensures
        forall|k: nat| k < 3 ==> {
            let c1 = #[trigger] lerp_channel(channel(a, k), channel(b, k), t1 as int, steps as int);
            let c2 = lerp_channel(channel(a, k), channel(b, k), t2 as int, steps as int);
            &&& channel(a, k) <= channel(b, k) ==> channel(a, k) <= c1 <= c2 <= channel(b, k)
            &&& channel(b, k) < channel(a, k) ==> channel(b, k) <= c2 <= c1 <= channel(a, k)
        },
{
    assert forall|k: nat| k < 3 implies {
        let c1 = #[trigger] lerp_channel(channel(a, k), channel(b, k), t1 as int, steps as int);
        let c2 = lerp_channel(channel(a, k), channel(b, k), t2 as int, steps as int);
        &&& channel(a, k) <= channel(b, k) ==> channel(a, k) <= c1 <= c2 <= channel(b, k)
        &&& channel(b, k) < channel(a, k) ==> channel(b, k) <= c2 <= c1 <= channel(a, k)
    } by {
        let (ac, bc) = (channel(a, k), channel(b, k));
        lemma_lerp_channel_between(ac, bc, t1 as int, steps as int);
        lemma_lerp_channel_between(ac, bc, t2 as int, steps as int);
        if ac <= bc {
            lemma_scaled_monotone(bc - ac, t1 as int, t2 as int, steps as int);
        } else {
            lemma_scaled_monotone(ac - bc, t1 as int, t2 as int, steps as int);
        }
    }
}

fn lerp_one(ac: u32, bc: u32, t: u32, steps: u32) -> (r: u32)
    requires
        ac < 0x100,
        bc < 0x100,
        0 < steps,
        t <= steps,
        (if ac <= bc { bc - ac } else { ac - bc }) * t <= u32::MAX,
    ensures
        r == lerp_channel(ac as int, bc as int, t as int, steps as int),
        r < 0x100,
{
    proof {
        lemma_lerp_channel_between(ac as int, bc as int, t as int, steps as int);
    }
    if bc >= ac {
        ac + (bc - ac) * t / steps
    } else {
        ac - (ac - bc) * t / steps
    }
}

/// Linearly interpolate between two colors.  `t` in `0..=steps`.
///
/// Each of the red, green and blue channels moves `t/steps` of the way from
/// `a` to `b` (integer division, rounded toward `a`); the result is opaque.
/// With `steps == 0` the result is `a` unchanged.
pub fn lerp_color(a: Color, b: Color, t: u32, steps: u32) -> (c: Color)
    requires
        lerp_in_range(a, b, t, steps),
    ensures
        c == lerp(a, b, t, steps),
{
    if steps == 0 {
        return a;
    }
    proof {
        lemma_color_decomposes(a);
        lemma_color_decomposes(b);
    }
    let ar = red(a) as u32;
    let ag = green(a) as u32;
    let ab = blue(a) as u32;
    let br = red(b) as u32;
    let bg = green(b) as u32;
    let bb = blue(b) as u32;
    let r = lerp_one(ar, br, t, steps);
    let g = lerp_one(ag, bg, t, steps);
    let b2 = lerp_one(ab, bb, t, steps);
    assert(r < 0x100 && g < 0x100 && b2 < 0x100 ==> 0xFF000000u32 | (r << 16) | (g << 8) | b2
        == 0xFF000000u32 + r * 0x10000u32 + g * 0x100u32 + b2) by (bit_vector);
    0xFF000000u32 | (r << 16) | (g << 8) | b2
}

/// Every color is the packing of its four channels, each of which is a byte.
pub proof fn lemma_color_decomposes(c: u32)
    ensures
        c == pack(alpha_of(c), red_of(c), green_of(c), blue_of(c)),
        0 <= alpha_of(c) < 0x100,
        0 <= red_of(c) < 0x100,
        0 <= green_of(c) < 0x100,
        0 <= blue_of(c) < 0x100,
        c % 0x1000000 == pack(0, red_of(c), green_of(c), blue_of(c)),
{
    assert(c == (c / 0x1000000) % 0x100 * 0x1000000 + (c / 0x10000) % 0x100 * 0x10000
        + (c / 0x100) % 0x100 * 0x100 + c % 0x100) by (bit_vector);
    assert(c % 0x1000000 == (c / 0x10000) % 0x100 * 0x10000
        + (c / 0x100) % 0x100 * 0x100 + c % 0x100) by (bit_vector);
}

/// Packing four bytes and reading the channels back gives the four bytes.
pub proof fn lemma_pack_channels(a: int, r: int, g: int, b: int)
    requires
        0 <= a < 0x100,
        0 <= r < 0x100,
        0 <= g < 0x100,
        0 <= b < 0x100,
    ensures
        0 <= pack(a, r, g, b) <= u32::MAX,
        alpha_of(pack(a, r, g, b) as u32) == a,
        red_of(pack(a, r, g, b) as u32) == r,
        green_of(pack(a, r, g, b) as u32) == g,
        blue_of(pack(a, r, g, b) as u32) == b,
{
    let c = pack(a, r, g, b);
    let (a8, r8, g8, b8) = (a as u32, r as u32, g as u32, b as u32);
    assert(c == a8 * 0x1000000 + r8 * 0x10000 + g8 * 0x100 + b8);
    assert(a8 < 0x100 && r8 < 0x100 && g8 < 0x100 && b8 < 0x100 ==> {
        let cc: u32 = (a8 * 0x1000000 + r8 * 0x10000 + g8 * 0x100 + b8) as u32;
        &&& (cc / 0x1000000) % 0x100 == a8
        &&& (cc / 0x10000) % 0x100 == r8
        &&& (cc / 0x100) % 0x100 == g8
        &&& cc % 0x100 == b8
        &&& a8 * 0x1000000 + r8 * 0x10000 + g8 * 0x100 + b8 <= 0xFFFFFFFF
    }) by (bit_vector);
}

} // verus!
