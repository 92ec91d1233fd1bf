//! Drawing the gradient into a pixel buffer.
//!
//! A frame is a buffer of `width * height` pixels in row order, four bytes
//! each in the ARGB8888 format: a pixel is one 32-bit word with alpha in the
//! top byte, then red, green and blue, stored little-endian. The color of a
//! pixel is the gradient field at its position; turning that perceptual
//! color into display red, green and blue is left to the caller, who hands
//! the result back to be packed.

use vstd::prelude::*;
use crate::color::Oklab;
use crate::gradient::{fraction, gradient, gradient_at, normalize};

verus! {

/// Bytes per pixel of a frame.
pub const BYTES_PER_PIXEL: u32 = 4;

/// The largest size of a frame in bytes: buffers are shared with the
/// compositor under signed 32-bit sizes.
pub const MAX_FRAME_BYTES: u64 = 0x7FFF_FFFF;

/// One pixel in display red, green and blue.
#[derive(Clone, Copy, Debug, PartialEq, Eq, Structural)]
pub struct Rgb {
    pub red: u8,
    pub green: u8,
    pub blue: u8,
}

/// Whether a surface of `width` by `height` pixels has a frame: neither side
/// is empty and the frame's bytes can be counted in a signed 32-bit size.
pub open spec fn renderable(width: int, height: int) -> bool {
    width > 0 && height > 0 && width * height * 4 <= MAX_FRAME_BYTES
}

/// The gradient's color at pixel `index` of a frame, counted in row order.
pub open spec fn color_at(width: int, height: int, index: int) -> Oklab {
    gradient_at(fraction(index % width, width), fraction(index / width, height))
}

/// The ARGB8888 word of an opaque pixel.
pub open spec fn argb_word(rgb: Rgb) -> int {
    0xFF * 0x100_0000 + rgb.red * 0x1_0000 + rgb.green * 0x100 + rgb.blue
}

/// The 32-bit word that four bytes store in little-endian order.
pub open spec fn le_word(bytes: Seq<u8>) -> int {
    bytes[0] + bytes[1] * 0x100 + bytes[2] * 0x1_0000 + bytes[3] * 0x100_0000
}

/// The bytes of an opaque pixel in memory.
pub open spec fn packed(rgb: Rgb) -> Seq<u8> {
    seq![rgb.blue, rgb.green, rgb.red, 0xFFu8]
}

/// The bytes of a whole frame of `pixels`.
pub open spec fn packed_frame(pixels: Seq<Rgb>) -> Seq<u8> {
    Seq::new(4 * pixels.len(), |i: int| packed(pixels[i / 4])[i % 4])
}

/// The size and memory layout of one frame.
#[derive(Clone, Copy, Debug)]
pub struct FrameLayout {
    width: u32,
    height: u32,
}

impl FrameLayout {
    #[verifier::type_invariant]
    pub closed spec fn inv(self) -> bool {
        renderable(self.width as int, self.height as int)
    }

    /// Width in pixels.
    pub closed spec fn spec_width(self) -> int {
        self.width as int
    }

    /// Height in pixels.
    pub closed spec fn spec_height(self) -> int {
        self.height as int
    }

    /// The layout of a frame of `width` by `height` pixels, if there is one.
    pub fn new(width: u32, height: u32) -> (layout: Option<FrameLayout>)
        ensures
            layout is Some <==> renderable(width as int, height as int),
            layout matches Some(l) ==> l.spec_width() == width && l.spec_height() == height,
    {
        if width == 0 || height == 0 {
            return None;
        }
        assert(width * height <= 0xFFFF_FFFF * 0xFFFF_FFFF) by (nonlinear_arith)
            requires
                0 <= width <= 0xFFFF_FFFF,
                0 <= height <= 0xFFFF_FFFF,
        ;
        let pixels: u64 = width as u64 * height as u64;
        if pixels > MAX_FRAME_BYTES / 4 {
            return None;
        }
        Some(FrameLayout { width, height })
    }

    /// Width in pixels.
    pub fn width(&self) -> (w: u32)
        ensures
            w == self.spec_width(),
            w > 0,
    {
        proof {
            use_type_invariant(self);
        }
        self.width
    }

    /// Height in pixels.
    pub fn height(&self) -> (h: u32)
        ensures
            h == self.spec_height(),
            h > 0,
    {
        proof {
            use_type_invariant(self);
        }
        self.height
    }

    /// Bytes from the start of one row to the start of the next.
    pub fn stride(&self) -> (s: i32)
        ensures
            s == 4 * self.spec_width(),
    {
        proof {
            use_type_invariant(self);
            assert(self.width * 4 <= self.width * self.height * 4) by (nonlinear_arith)
                requires
                    self.height >= 1,
                    self.width >= 0,
            ;
        }
        (self.width * BYTES_PER_PIXEL) as i32
    }

    /// Number of pixels of the frame.
    pub fn pixel_count(&self) -> (n: usize)
        ensures
            n == self.spec_width() * self.spec_height(),
            4 * n <= MAX_FRAME_BYTES,
    {
        proof {
            use_type_invariant(self);
        }
        let pixels: u64 = self.width as u64 * self.height as u64;
        pixels as usize
    }

    /// Number of bytes of the frame.
    pub fn byte_len(&self) -> (n: usize)
        ensures
            n == 4 * self.spec_width() * self.spec_height(),
            n <= MAX_FRAME_BYTES,
    {
        let pixels: usize = self.pixel_count();
        assert(4 * (self.spec_width() * self.spec_height()) == 4 * self.spec_width()
            * self.spec_height()) by (nonlinear_arith);
        pixels * 4
    }

    /// The column and row of pixel `index`, counted in row order, or `None`
    /// if the frame has no such pixel.
    pub fn position(&self, index: usize) -> (p: Option<(u32, u32)>)
        ensures
            p is Some <==> index < self.spec_width() * self.spec_height(),
            p matches Some((x, y)) ==> {
                &&& x == (index as int) % self.spec_width()
                &&& y == (index as int) / self.spec_width()
                &&& x < self.spec_width()
                &&& y < self.spec_height()
            },
    {
        if index >= self.pixel_count() {
            return None;
        }
        let w: usize = self.width() as usize;
        proof {
            let i = index as int;
            let wi = w as int;
            let h = self.spec_height();
            assert(i / wi < h) by (nonlinear_arith)
                requires
                    0 <= i < wi * h,
                    wi > 0,
            ;
        }
        Some(((index % w) as u32, (index / w) as u32))
    }

    /// The pixel index of the position `(x, y)`, or `None` if the position
    /// lies outside the frame.
    pub fn index_of(&self, x: u32, y: u32) -> (index: Option<usize>)
        ensures
            index is Some <==> x < self.spec_width() && y < self.spec_height(),
            index matches Some(i) ==> {
                &&& i == y * self.spec_width() + x
                &&& i < self.spec_width() * self.spec_height()
                &&& (i as int) % self.spec_width() == x
                &&& (i as int) / self.spec_width() == y
            },
    {
        if x >= self.width() || y >= self.height() {
            return None;
        }
        proof {
            use_type_invariant(self);
            lemma_row_order(x as int, y as int, self.width as int, self.height as int);
        }
        let row_start: u64 = y as u64 * self.width as u64;
        Some((row_start + x as u64) as usize)
    }

    /// The gradient's color at pixel `index`, or `None` if the frame has no
    /// such pixel.
    pub fn pixel_color(&self, index: usize) -> (color: Option<Oklab>)
        ensures
            color is Some <==> index < self.spec_width() * self.spec_height(),
            color matches Some(c) ==> c == color_at(
                self.spec_width(),
                self.spec_height(),
                index as int,
            ),
    {
        match self.position(index) {
            Some((x, y)) => match normalize(x, y, self.width(), self.height()) {
                Some(point) => Some(gradient(point)),
                None => None,
            },
            None => None,
        }
    }

    /// The gradient's colors over the whole frame, one per pixel in row
    /// order.
    pub fn frame_colors(&self) -> (colors: Vec<Oklab>)
        ensures
            colors.len() == self.spec_width() * self.spec_height(),
            forall|i: int|
                0 <= i < colors.len() ==> #[trigger] colors[i] == color_at(
                    self.spec_width(),
                    self.spec_height(),
                    i,
                ),
    {
        let count: usize = self.pixel_count();
        let mut colors: Vec<Oklab> = Vec::new();
        let mut i: usize = 0;
        while i < count
            invariant
                i <= count,
                count == self.spec_width() * self.spec_height(),
                colors.len() == i,
                forall|j: int|
                    0 <= j < i ==> #[trigger] colors[j] == color_at(
                        self.spec_width(),
                        self.spec_height(),
                        j,
                    ),
            decreases count - i,
        {
            match self.pixel_color(i) {
                Some(color) => colors.push(color),
                None => {},
            }
            i += 1;
        }
        colors
    }

    /// The bytes of the frame whose pixels are `pixels` in row order, or
    /// `None` if their number is not that of the frame.
    pub fn encode(&self, pixels: &Vec<Rgb>) -> (bytes: Option<Vec<u8>>)
        ensures
            bytes is Some <==> pixels.len() == self.spec_width() * self.spec_height(),
            bytes matches Some(b) ==> b@ == packed_frame(pixels@),
    {
        if pixels.len() != self.pixel_count() {
            return None;
        }
        let mut bytes: Vec<u8> = Vec::new();
        let mut i: usize = 0;
        while i < pixels.len()
            invariant
                i <= pixels.len(),
                4 * pixels.len() <= MAX_FRAME_BYTES,
                bytes.len() == 4 * i,
                forall|k: int| 0 <= k < 4 * i ==> #[trigger] bytes[k] == packed(pixels[k / 4])[k % 4],
            decreases pixels.len() - i,
        {
            let word: [u8; 4] = pack_argb8888(pixels[i]);
            bytes.push(word[0]);
            bytes.push(word[1]);
            bytes.push(word[2]);
            bytes.push(word[3]);
            i += 1;
        }
        assert(bytes@ =~= packed_frame(pixels@));
        Some(bytes)
    }
}

/// In row order, the pixel at column `x` of row `y` has the index
/// `y * width + x`, and that index leads back to `(x, y)`.
pub proof fn lemma_row_order(x: int, y: int, width: int, height: int)
    requires
        0 <= x < width,
        0 <= y < height,
    ensures
        0 <= y * width + x < width * height,
        (y * width + x) % width == x,
        (y * width + x) / width == y,
{
    assert(y * width + x < width * height) by (nonlinear_arith)
        requires
            0 <= x < width,
            0 <= y < height,
    ;
    assert(0 <= y * width + x) by (nonlinear_arith)
        requires
            0 <= x < width,
            0 <= y < height,
    ;
    vstd::arithmetic::div_mod::lemma_fundamental_div_mod_converse(y * width + x, width, y, x);
}

/// The four bytes of an opaque pixel as they lie in memory: the ARGB8888
/// word in little-endian order.
pub fn pack_argb8888(rgb: Rgb) -> (bytes: [u8; 4])
    ensures
        bytes@ == packed(rgb),
        le_word(bytes@) == argb_word(rgb),
{
    let bytes: [u8; 4] = [rgb.blue, rgb.green, rgb.red, 0xFF];
    assert(bytes@ =~= packed(rgb));
    bytes
}

} // verus!
