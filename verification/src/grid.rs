//! A decoded image held as a row-major grid of RGBA pixels.

use vstd::prelude::*;

use crate::pixel::Pixel;

verus! {

/// A decoded image: `width * height` pixels in row-major order.
pub struct ImageGrid {
    pixels: Vec<Pixel>,
    width: u32,
    height: u32,
}

impl ImageGrid {
    /// The width of the image in pixels.
    pub closed spec fn spec_width(&self) -> u32 {
        self.width
    }

    /// The height of the image in pixels.
    pub closed spec fn spec_height(&self) -> u32 {
        self.height
    }

    /// The pixels of the image, row by row from the top.
    pub closed spec fn pixel_seq(&self) -> Seq<Pixel> {
        self.pixels@
    }

    /// A well-formed grid holds exactly one pixel per coordinate.
    pub open spec fn wf(&self) -> bool {
        self.pixel_seq().len() == self.spec_width() * self.spec_height()
    }

    /// The pixel at column `x` of row `y`.
    pub open spec fn spec_pixel(&self, x: int, y: int) -> Pixel {
        self.pixel_seq()[y * self.spec_width() + x]
    }

    /// Builds a grid from a raw RGBA buffer: four bytes per pixel, in the
    /// order red, green, blue, alpha, rows from the top. Returns `None`
    /// exactly when the buffer length does not match the dimensions.
    pub fn from_rgba_bytes(width: u32, height: u32, bytes: &Vec<u8>) -> (r: Option<ImageGrid>)
        ensures
            match r {
                Some(g) => {
                    &&& bytes@.len() == 4 * width * height
                    &&& g.wf()
                    &&& g.spec_width() == width
                    &&& g.spec_height() == height
                    &&& forall|i: int|
                        0 <= i < width * height ==> g.pixel_seq()[i] == (Pixel {
                            r: bytes@[4 * i],
                            g: bytes@[4 * i + 1],
                            b: bytes@[4 * i + 2],
                            a: bytes@[4 * i + 3],
                        })
                },
                None => bytes@.len() != 4 * width * height,
            },
    {
        proof {
            assert((width as int) * (height as int) <= 0xffff_ffffint * 0xffff_ffffint)
                by (nonlinear_arith)
                requires
                    width <= 0xffff_ffffu32,
                    height <= 0xffff_ffffu32,
            ;
            assert(4 * (width as int) * (height as int) == 4 * ((width as int) * (height as int)))
                by (nonlinear_arith);
        }
        let area: u128 = (width as u128) * (height as u128);
        let expected: u128 = 4 * area;
        if (bytes.len() as u128) != expected {
            return None;
        }
        let count: usize = bytes.len() / 4;
        assert(bytes@.len() == 4 * count);
        let mut pixels: Vec<Pixel> = Vec::new();
        let mut i: usize = 0;
        while i < count
            invariant
                bytes@.len() == 4 * count,
                4 * count <= usize::MAX,
                i <= count,
                pixels@.len() == i,
                forall|j: int|
                    0 <= j < i ==> pixels@[j] == (Pixel {
                        r: bytes@[4 * j],
                        g: bytes@[4 * j + 1],
                        b: bytes@[4 * j + 2],
                        a: bytes@[4 * j + 3],
                    }),
            decreases count - i,
        {
            let p = Pixel {
                r: bytes[4 * i],
                g: bytes[4 * i + 1],
                b: bytes[4 * i + 2],
                a: bytes[4 * i + 3],
            };
            pixels.push(p);
            i = i + 1;
        }
        Some(ImageGrid { pixels, width, height })
    }

    /// The width of the image in pixels.
    pub fn width(&self) -> (w: u32)
        ensures
            w == self.spec_width(),
    {
        self.width
    }

    /// The height of the image in pixels.
    pub fn height(&self) -> (h: u32)
        ensures
            h == self.spec_height(),
    {
        self.height
    }

    /// The pixel at column `x` of row `y`.
    pub fn get_pixel(&self, x: u32, y: u32) -> (p: Pixel)
        requires
            self.wf(),
            x < self.spec_width(),
            y < self.spec_height(),
        ensures
            p == self.spec_pixel(x as int, y as int),
    {
        proof {
            lemma_row_major_index_in_range(
                x as int,
                y as int,
                self.spec_width() as int,
                self.spec_height() as int,
            );
        }
        // binds the pixel count as a usize, so the index below provably fits
        let count: usize = self.pixels.len();
        assert(count == self.pixel_seq().len());
        let idx: usize = (y as usize) * (self.width as usize) + (x as usize);
        self.pixels[idx]
    }
}

/// The row-major index of an in-bounds coordinate lies below the pixel
/// count.
pub proof fn lemma_row_major_index_in_range(x: int, y: int, width: int, height: int) by (nonlinear_arith)
    requires
        0 <= x < width,
        0 <= y < height,
    ensures
        0 <= y * width + x < width * height,
{
}

} // verus!
