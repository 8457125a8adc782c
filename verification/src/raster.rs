//! A captured strip of pixels and the vote over one of its columns.

use vstd::prelude::*;
use crate::pixel::Pixel;
use crate::vote::{majority, resolve_by_majority};

verus! {

/// How many rows of a column have to show the same pixel for the column to
/// count as settled.
pub const REQUIRED_AGREEMENT: usize = 2;

/// A captured grid of RGBA pixels, row by row, four bytes to a pixel.
pub struct Raster {
    width: u32,
    height: u32,
    data: Vec<u8>,
}

/// What a raster holds: its dimensions and its bytes in row-major RGBA order.
pub struct RasterView {
    pub width: nat,
    pub height: nat,
    pub bytes: Seq<u8>,
}

impl RasterView {
    /// The pixel in column `x` of row `y`.
    pub open spec fn pixel_at(self, x: int, y: int) -> Pixel {
        let base = 4 * (y * self.width + x);
        Pixel {
            r: self.bytes[base],
            g: self.bytes[base + 1],
            b: self.bytes[base + 2],
            a: self.bytes[base + 3],
        }
    }

    /// The pixels of column `x` from the top row down. A column outside the
    /// raster has no pixels.
    pub open spec fn column(self, x: int) -> Seq<Pixel> {
        if 0 <= x < self.width {
            Seq::new(self.height, |y: int| self.pixel_at(x, y))
        } else {
            Seq::empty()
        }
    }

    /// The pixel that the rows of column `x` agree on, if at least
    /// `REQUIRED_AGREEMENT` of them show the same one.
    pub open spec fn resolved(self, x: int) -> Option<Pixel> {
        majority(self.column(x), REQUIRED_AGREEMENT as nat)
    }
}

impl View for Raster {
    type V = RasterView;

    closed spec fn view(&self) -> RasterView {
        RasterView { width: self.width as nat, height: self.height as nat, bytes: self.data@ }
    }
}

proof fn lemma_pixel_index(x: int, y: int, width: int, height: int)
    requires
        0 <= x < width,
        0 <= y < height,
    ensures
        0 <= y * width + x < width * height,
        0 <= y * width,
{
    assert(y * width + width == (y + 1) * width) by (nonlinear_arith);
    assert((y + 1) * width <= height * width) by (nonlinear_arith)
        requires
            y + 1 <= height,
            0 <= width,
    ;
    assert(height * width == width * height) by (nonlinear_arith);
    assert(0 <= y * width) by (nonlinear_arith)
        requires
            0 <= y,
            0 <= width,
    ;
}

impl Raster {
    #[verifier::type_invariant]
    spec fn well_formed(self) -> bool {
        self.data@.len() == 4 * self.width * self.height
    }

    /// Wraps a buffer of `width * height` RGBA pixels. The buffer is accepted
    /// only if it holds exactly that many.
    pub fn from_raw(width: u32, height: u32, data: Vec<u8>) -> (raster: Option<Raster>)
        ensures
            raster is Some <==> data@.len() == 4 * width * height,
            raster matches Some(r) ==> r@ == (RasterView {
                width: width as nat,
                height: height as nat,
                bytes: data@,
            }),
    {
        assert(width * height <= 0xffff_ffff * 0xffff_ffff) by (nonlinear_arith)
            requires
                width <= 0xffff_ffff,
                height <= 0xffff_ffff,
        ;
        assert(4 * width * height == 4 * (width * height)) by (nonlinear_arith);
        let expected: u128 = 4u128 * ((width as u128) * (height as u128));
        if data.len() as u128 == expected {
            Some(Raster { width, height, data })
        } else {
            None
        }
    }

    pub fn width(&self) -> (width: u32)
        ensures
            width == self@.width,
    {
        self.width
    }

    pub fn height(&self) -> (height: u32)
        ensures
            height == self@.height,
    {
        self.height
    }

    /// The pixel in column `x` of row `y`.
    pub fn get_pixel(&self, x: u32, y: u32) -> (pixel: Pixel)
        requires
            x < self@.width,
            y < self@.height,
        ensures
            pixel == self@.pixel_at(x as int, y as int),
    {
        let col: usize = x as usize;
        let row: usize = y as usize;
        let stride: usize = self.width as usize;
        proof {
            use_type_invariant(self);
            lemma_pixel_index(col as int, row as int, stride as int, self.height as int);
            assert(4 * self.width * self.height == 4 * (stride * self.height))
                by (nonlinear_arith)
                requires
                    stride == self.width,
            ;
            assert(self.data@.len() == self.data.len());
        }
        let base: usize = 4 * (row * stride + col);
        Pixel {
            r: self.data[base],
            g: self.data[base + 1],
            b: self.data[base + 2],
            a: self.data[base + 3],
        }
    }

    /// The pixels of column `x` from the top row down; none for a column
    /// outside the raster.
    pub fn column(&self, x: u32) -> (pixels: Vec<Pixel>)
        ensures
            pixels@ == self@.column(x as int),
    {
        let mut pixels: Vec<Pixel> = Vec::new();
        if x >= self.width {
            assert(pixels@ =~= self@.column(x as int));
            return pixels;
        }
        let mut y: u32 = 0;
        while y < self.height
            invariant
                x < self@.width,
                y <= self@.height,
                self.height == self@.height,
                pixels@.len() == y,
                forall|k: int| 0 <= k < y ==> pixels@[k] == self@.pixel_at(x as int, k),
            decreases self.height - y,
        {
            pixels.push(self.get_pixel(x, y));
            y = y + 1;
        }
        assert(pixels@ =~= self@.column(x as int));
        pixels
    }
}

/// Resolves column `x` by majority vote over its rows: the pixel that most
/// rows show, if at least two rows show it.
pub fn pixel_validate_get(img: &Raster, x: u32) -> (pixel: Option<Pixel>)
    ensures
        pixel == img@.resolved(x as int),
{
    let samples = img.column(x);
    resolve_by_majority(&samples, REQUIRED_AGREEMENT)
}

} // verus!
