//! `PixelBuffer` — the in-memory framebuffer behind a windowed backend.
//!
//! Pixels are `0x00_RR_GG_BB` words stored row by row: the pixel in column
//! `col` of row `row` is at index `row * width + col`.  A window backend
//! draws into this buffer and hands it to the window system to display.

use vstd::prelude::*;
use vstd::arithmetic::div_mod::{lemma_fundamental_div_mod, lemma_fundamental_div_mod_converse};
use crate::color::{Color, to_rgb24};

verus! {

/// Whether column `col` of row `row` lies in the rectangle at `(x, y)` of size `w` x `h`.
pub open spec fn in_rect(col: int, row: int, x: int, y: int, w: int, h: int) -> bool {
    &&& x <= col < x + w
    &&& y <= row < y + h
}

/// `pixels`, laid out in rows `width` pixels wide, with every pixel inside
/// the rectangle at `(x, y)` of size `w` x `h` set to `value`.  Pixels of the
/// rectangle that fall outside the buffer are simply not there: the
/// rectangle is clipped.
pub open spec fn filled_pixels(pixels: Seq<u32>, width: nat, x: int, y: int, w: int, h: int, value: u32) -> Seq<u32> {
    Seq::new(
        pixels.len(),
        |j: int|
            if in_rect(j % (width as int), j / (width as int), x, y, w, h) {
                value
            } else {
                pixels[j]
            },
    )
}

/// `pixels` cut or extended with zeros to `len` pixels (`Vec::resize`).
pub open spec fn resized_pixels(pixels: Seq<u32>, len: nat) -> Seq<u32> {
    Seq::new(len, |j: int| if j < pixels.len() { pixels[j] } else { 0 })
}

pub struct PixelBuffer {
    buffer: Vec<u32>,
    width: usize,
    height: usize,
}

proof fn lemma_row_fits(row: int, width: int, height: int)
    by (nonlinear_arith)
    requires
        0 <= row < height,
        0 <= width,
    ensures
        row * width + width <= height * width,
{
    assert(row * width + width == (row + 1) * width);
    assert((row + 1) * width <= height * width);
}

/// Index `j` of a buffer of `height` rows `width` pixels wide is column
/// `j % width` of row `j / width`.
proof fn lemma_index_split(j: int, width: int, height: int)
    requires
        0 <= j < height * width,
        0 < width,
    ensures
        j == (j / width) * width + j % width,
        0 <= j % width < width,
        0 <= j / width < height,
{
    lemma_fundamental_div_mod(j, width);
    assert(j == width * (j / width) + j % width);
    assert(0 <= j % width < width);
    assert(j / width * width == width * (j / width)) by (nonlinear_arith);
    if j / width >= height {
        assert((j / width) * width >= height * width) by (nonlinear_arith)
            requires j / width >= height, width > 0;
    }
    if j / width < 0 {
        assert((j / width) * width < 0) by (nonlinear_arith)
            requires j / width < 0, width > 0;
    }
}

impl PixelBuffer {
    /// The buffer holds `width * height` pixels, and both dimensions fit in a `u32`.
    pub closed spec fn wf(&self) -> bool {
        &&& self.buffer@.len() == self.width * self.height
        &&& self.width <= u32::MAX
        &&& self.height <= u32::MAX
    }

    /// A well-formed buffer holds one pixel per column of each row, and its
    /// dimensions fit in a `u32`.
    pub proof fn lemma_wf(&self)
        requires
            self.wf(),
        ensures
            self.pixels().len() == self.spec_width() * self.spec_height(),
            self.spec_width() <= u32::MAX,
            self.spec_height() <= u32::MAX,
    {
    }

    /// The pixels, row by row.
    pub closed spec fn pixels(&self) -> Seq<u32> {
        self.buffer@
    }

    pub closed spec fn spec_width(&self) -> nat {
        self.width as nat
    }

    pub closed spec fn spec_height(&self) -> nat {
        self.height as nat
    }

    /// A black buffer of `width` x `height` pixels.
    pub fn new(width: u32, height: u32) -> (b: Self)
        requires
            width * height <= u32::MAX,
        ensures
            b.wf(),
            b.pixels().len() == b.spec_width() * b.spec_height(),
            b.spec_width() == width,
            b.spec_height() == height,
            b.pixels() == Seq::new((width * height) as nat, |j: int| 0u32),
    {
        let n = (width * height) as usize;
        let buffer = vec![0u32; n];
        assert(buffer@ =~= Seq::new((width * height) as nat, |j: int| 0u32));
        PixelBuffer { buffer, width: width as usize, height: height as usize }
    }

    pub fn width(&self) -> (w: usize)
        ensures
            w == self.spec_width(),
    {
        self.width
    }

    pub fn height(&self) -> (h: usize)
        ensures
            h == self.spec_height(),
    {
        self.height
    }

    /// The pixels, row by row, for handing to the window system.
    pub fn as_slice(&self) -> (s: &[u32])
        ensures
            s@ == self.pixels(),
    {
        self.buffer.as_slice()
    }

    /// Fill a rectangle with `color`, its alpha stripped; the parts of the
    /// rectangle outside the buffer are clipped silently.
    pub fn fill_rect(&mut self, x: u32, y: u32, w: u32, h: u32, color: Color)
        requires
            old(self).wf(),
            x + w <= u32::MAX,
            y + h <= u32::MAX,
        ensures
            final(self).wf(),
            final(self).pixels().len() == final(self).spec_width() * final(self).spec_height(),
            final(self).spec_width() == old(self).spec_width(),
            final(self).spec_height() == old(self).spec_height(),
            final(self).pixels() == filled_pixels(
                old(self).pixels(),
                old(self).spec_width(),
                x as int,
                y as int,
                w as int,
                h as int,
                (color % 0x100_0000) as u32,
            ),
    {
        // The buffer holds 0x00RRGGBB; strip alpha from the ARGB color.
        let rgb = to_rgb24(color);
        let ghost old_px = self.buffer@;
        let ghost wd = self.width as int;
        let ghost target = filled_pixels(old_px, self.width as nat, x as int, y as int, w as int, h as int, rgb);
        let (fw, fh) = (self.width as u32, self.height as u32);
        let x2 = if x + w < fw { x + w } else { fw };
        let y2 = if y + h < fh { y + h } else { fh };
        if x >= fw || y >= fh || x2 == 0 || y2 == 0 {
            assert forall|j: int| 0 <= j < old_px.len() implies target[j] == old_px[j] by {
                lemma_index_split(j, wd, self.height as int);
            }
            assert(self.buffer@ =~= target);
            return;
        }
        let len = self.buffer.len();
        let mut row = y;
        while row < y2
            invariant
                self.wf(),
                self.width == fw,
                self.height == fh,
                wd == fw,
                0 < fw,
                x <= x2 <= fw,
                x < fw,
                y <= row <= y2 <= fh,
                len == old_px.len(),
                x2 == (if x + w < fw { x + w } else { fw as int }),
                y2 == (if y + h < fh { y + h } else { fh as int }),
                self.buffer@.len() == old_px.len(),
                forall|j: int|
                    0 <= j < old_px.len() ==> #[trigger] self.buffer@[j] == if x <= j % wd < x2 && y <= j / wd
                        < row {
                        rgb
                    } else {
                        old_px[j]
                    },
            decreases y2 - row,
        {
            proof {
                lemma_row_fits(row as int, wd, fh as int);
            }
            let base = row as usize * self.width + x as usize;
            let end = base + (x2 - x) as usize;
            if end <= self.buffer.len() {
                let mut k = base;
                while k < end
                    invariant
                        self.wf(),
                        self.width == fw,
                        self.height == fh,
                        wd == fw,
                        0 < fw,
                        x <= x2 <= fw,
                        x < fw,
                        y <= row < y2 <= fh,
                        base == row * wd + x,
                        end == base + (x2 - x),
                        end <= self.buffer@.len(),
                        base <= k <= end,
                        self.buffer@.len() == old_px.len(),
                        forall|j: int|
                            0 <= j < old_px.len() ==> #[trigger] self.buffer@[j] == if (x <= j % wd < x2 && y
                                <= j / wd < row) || (j / wd == row && x <= j % wd < x + (k - base)) {
                                rgb
                            } else {
                                old_px[j]
                            },
                    decreases end - k,
                {
                    proof {
                        lemma_fundamental_div_mod_converse(k as int, wd, row as int, x + (k - base));
                    }
                    let ghost before = self.buffer@;
                    self.buffer[k] = rgb;
                    proof {
                        assert forall|j: int| 0 <= j < old_px.len() implies #[trigger] self.buffer@[j] == if (x
                            <= j % wd < x2 && y <= j / wd < row) || (j / wd == row && x <= j % wd < x + (k + 1
                            - base)) {
                            rgb
                        } else {
                            old_px[j]
                        } by {
                            if j != k {
                                assert(self.buffer@[j] == before[j]);
                                lemma_fundamental_div_mod(j, wd);
                                assert(j / wd * wd == wd * (j / wd)) by (nonlinear_arith);
                                assert(row * wd == wd * row) by (nonlinear_arith);
                            }
                        }
                    }
                    k = k + 1;
                }
            }
            row = row + 1;
        }
        assert forall|j: int| 0 <= j < old_px.len() implies self.buffer@[j] == target[j] by {
            lemma_index_split(j, wd, fh as int);
        }
        assert(self.buffer@ =~= target);
    }

    /// Match the buffer to a window of `w` x `h` pixels: when the size
    /// changed, record it and cut or extend the pixels with black to
    /// `w * h`; otherwise leave everything as it is.
    pub fn resize(&mut self, w: usize, h: usize)
        requires
            old(self).wf(),
            w <= u32::MAX,
            h <= u32::MAX,
            w * h <= usize::MAX,
        ensures
            final(self).wf(),
            final(self).pixels().len() == final(self).spec_width() * final(self).spec_height(),
            final(self).spec_width() == w,
            final(self).spec_height() == h,
            final(self).pixels() == if w == old(self).spec_width() && h == old(self).spec_height() {
                old(self).pixels()
            } else {
                resized_pixels(old(self).pixels(), (w * h) as nat)
            },
    {
        if w != self.width || h != self.height {
            self.width = w;
            self.height = h;
            let ghost old_px = self.buffer@;
            self.buffer.resize(w * h, 0);
            assert forall|j: int| 0 <= j < w * h implies #[trigger] self.buffer@[j] == resized_pixels(old_px, (w * h) as nat)[j] by {
                if j < old_px.len() {
                    if w * h <= old_px.len() {
                    } else {
                        assert(self.buffer@.subrange(0, old_px.len() as int)[j] == old_px[j]);
                    }
                }
            }
            assert(self.buffer@ =~= resized_pixels(old_px, (w * h) as nat));
        }
    }
}

} // verus!
