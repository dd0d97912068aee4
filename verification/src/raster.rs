//! A decoded image: a grid of RGB triples.

use crate::palette::Rgb;
use crate::wire::{wire_value, MAX_HEIGHT, MAX_WIDTH, SIZE};
use vstd::prelude::*;

verus! {

/// A raster of this size can be painted: wherever on the canvas its top
/// left corner is put, and whatever colour index a pixel gets, each of its
/// pixels has a command, whose number is a signed 32-bit value.
pub open spec fn paintable(width: int, height: int) -> bool {
    width > 0 && height > 0 ==> wire_value(
        (MAX_WIDTH - 1) + (width - 1),
        (MAX_HEIGHT - 1) + (height - 1),
        u8::MAX as int,
    ) <= i32::MAX
}

/// The pixels that a buffer of channel bytes holds, three bytes to a pixel:
/// red, green, blue.
pub open spec fn rgb_triples(data: Seq<u8>) -> Seq<Rgb> {
    Seq::new(data.len() / 3, |i: int| (data[3 * i], data[3 * i + 1], data[3 * i + 2]))
}

/// A raster as plain values: its size and its pixels, row by row.
pub struct RasterView {
    pub width: int,
    pub height: int,
    pub pixels: Seq<Rgb>,
}

impl RasterView {
    /// The size is that of the pixel sequence, and is paintable.
    pub open spec fn wf(self) -> bool {
        &&& 0 <= self.width <= u32::MAX
        &&& 0 <= self.height <= u32::MAX
        &&& self.pixels.len() == self.width * self.height
        &&& paintable(self.width, self.height)
    }

    /// The pixel in column `x` of row `y`.
    pub open spec fn at(self, x: int, y: int) -> Rgb {
        self.pixels[y * self.width + x]
    }
}

/// Position `(x, y)` of a `width` by `height` grid has a row-major index
/// inside the grid.
pub proof fn lemma_index_in_grid(width: int, height: int, x: int, y: int)
    requires
        0 <= x < width,
        0 <= y < height,
    ensures
        0 <= y * width + x < width * height,
{
    assert(0 <= y * width && (y + 1) * width <= height * width) by (nonlinear_arith)
        requires
            0 <= y < height,
            0 < width,
    ;
    assert((y + 1) * width == y * width + width && height * width == width * height)
        by (nonlinear_arith);
}

/// An 8-bit RGB image of known size.
pub struct Raster {
    width: u32,
    height: u32,
    data: Vec<u8>,
}

impl View for Raster {
    type V = RasterView;

    closed spec fn view(&self) -> RasterView {
        RasterView {
            width: self.width as int,
            height: self.height as int,
            pixels: rgb_triples(self.data@),
        }
    }
}

impl Raster {
    #[verifier::type_invariant]
    spec fn inv(&self) -> bool {
        &&& self.data@.len() == 3 * (self.width * self.height)
        &&& paintable(self.width as int, self.height as int)
    }

    /// The raster of `width` by `height` pixels whose channel bytes are
    /// `data`, row by row, three bytes to a pixel. There is none where the
    /// buffer is not exactly of that size, or where the size is not
    /// paintable.
    pub fn from_raw(width: u32, height: u32, data: Vec<u8>) -> (raster: Option<Raster>)
        ensures
            raster is Some <==> data@.len() == 3 * (width * height) && paintable(
                width as int,
                height as int,
            ),
            raster matches Some(r) ==> r@.wf() && r@ == (RasterView {
                width: width as int,
                height: height as int,
                pixels: rgb_triples(data@),
            }),
    {
        if width == 0 || height == 0 {
            assert(width * height == 0) by (nonlinear_arith)
                requires
                    width == 0 || height == 0,
            ;
            return if data.len() == 0 {
                Some(Raster { width, height, data })
            } else {
                None
            };
        }
        assert((MAX_HEIGHT - 1 + (height - 1)) * MAX_WIDTH == (399 + (height - 1)) * 1590);
        let far: u64 = (MAX_WIDTH as u64 - 1 + (width as u64 - 1)) + (MAX_HEIGHT as u64 - 1 + (height
            as u64 - 1)) * (MAX_WIDTH as u64) + 255 * (SIZE as u64);
        if far > i32::MAX as u64 {
            return None;
        }
        assert(width * height <= 0x8000_0000 * 0x20_0000) by (nonlinear_arith)
            requires
                0 <= width <= 0x8000_0000,
                0 <= height <= 0x20_0000,
        ;
        let need: u64 = 3 * (width as u64 * height as u64);
        if data.len() as u64 == need {
            Some(Raster { width, height, data })
        } else {
            None
        }
    }

    /// Width and height, in pixels.
    pub fn dimensions(&self) -> (size: (u32, u32))
        ensures
            self@.wf(),
            size.0 == self@.width,
            size.1 == self@.height,
    {
        proof {
            use_type_invariant(self);
        }
        (self.width, self.height)
    }

    /// The pixel in column `x` of row `y`, if the raster has one there.
    pub fn get_pixel(&self, x: u32, y: u32) -> (pixel: Option<Rgb>)
        ensures
            pixel == (if x < self@.width && y < self@.height {
                Some(self@.at(x as int, y as int))
            } else {
                None
            }),
    {
        proof {
            use_type_invariant(self);
        }
        if x >= self.width || y >= self.height {
            return None;
        }
        let len: usize = self.data.len();
        proof {
            lemma_index_in_grid(self.width as int, self.height as int, x as int, y as int);
            assert(0 <= y * self.width) by (nonlinear_arith);
            assert(3 * (y * self.width + x) + 2 < len);
        }
        let at: usize = 3 * (y as usize * self.width as usize + x as usize);
        Some((self.data[at], self.data[at + 1], self.data[at + 2]))
    }
}

} // verus!
