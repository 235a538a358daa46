//! The working buffer: a mutable RGB pixel grid, row-major with three bytes
//! per pixel, exclusively owned by one in-flight conversion.

use vstd::prelude::*;

verus! {

/// A `Vec`'s length always fits in `usize`.
proof fn lemma_vec_len_bound<T>(v: &Vec<T>)
    ensures
        v@.len() <= usize::MAX,
{
    vstd::std_specs::vec::axiom_spec_len(v);
}

/// A width x height RGB pixel grid; `data` holds rows top to bottom, three
/// bytes (red, green, blue) per pixel.
pub struct Frame {
    pub width: u32,
    pub height: u32,
    pub data: Vec<u8>,
}

/// Byte offset of the pixel at (x, y) in a row-major grid of width `w`.
pub open spec fn pixel_index(w: int, x: int, y: int) -> int {
    3 * (y * w + x)
}

pub proof fn lemma_pixel_index_bounds(w: int, h: int, x: int, y: int)
    requires
        0 <= x < w,
        0 <= y < h,
    ensures
        0 <= pixel_index(w, x, y),
        pixel_index(w, x, y) + 2 < 3 * w * h,
{
    assert(0 <= y * w + x && y * w + x < w * h) by (nonlinear_arith)
        requires
            0 <= x < w,
            0 <= y < h,
    ;
    assert(3 * (y * w + x) + 2 < 3 * (w * h)) by (nonlinear_arith)
        requires
            y * w + x < w * h,
    ;
    assert(3 * (w * h) == 3 * w * h) by (nonlinear_arith);
}

impl Frame {
    /// Row-major layout: exactly three bytes per pixel.
    pub open spec fn wf(self) -> bool {
        self.data@.len() == 3 * (self.width as int) * (self.height as int)
    }

    /// The RGB triple at (x, y).
    pub open spec fn px(self, x: int, y: int) -> (u8, u8, u8) {
        let i = pixel_index(self.width as int, x, y);
        (self.data@[i], self.data@[i + 1], self.data@[i + 2])
    }

    /// Builds a frame from raw row-major RGB bytes.
    pub fn from_parts(width: u32, height: u32, data: Vec<u8>) -> (r: Frame)
        requires
            data@.len() == 3 * (width as int) * (height as int),
        ensures
            r.wf(),
            r.width == width,
            r.height == height,
            r.data == data,
    {
        Frame { width, height, data }
    }

    /// Byte offset of the pixel at (x, y).
    fn offset(&self, x: u32, y: u32) -> (i: usize)
        requires
            self.wf(),
            x < self.width,
            y < self.height,
        ensures
            i == pixel_index(self.width as int, x as int, y as int),
            i + 2 < self.data@.len(),
    {
        proof {
            lemma_pixel_index_bounds(
                self.width as int,
                self.height as int,
                x as int,
                y as int,
            );
            lemma_vec_len_bound(&self.data);
        }
        3 * ((y as usize) * (self.width as usize) + (x as usize))
    }

    /// Reads the RGB triple at (x, y).
    pub fn get(&self, x: u32, y: u32) -> (c: (u8, u8, u8))
        requires
            self.wf(),
            x < self.width,
            y < self.height,
        ensures
            c == self.px(x as int, y as int),
    {
        let i = self.offset(x, y);
        proof {
            lemma_vec_len_bound(&self.data);
        }
        (self.data[i], self.data[i + 1], self.data[i + 2])
    }

    /// Writes the RGB triple at (x, y); every other pixel is untouched.
    pub fn set(&mut self, x: u32, y: u32, c: (u8, u8, u8))
        requires
            old(self).wf(),
            x < old(self).width,
            y < old(self).height,
        ensures
            final(self).wf(),
            final(self).width == old(self).width,
            final(self).height == old(self).height,
            final(self).px(x as int, y as int) == c,
            forall|j: int|
                0 <= j < old(self).data@.len() && !(pixel_index(
                    old(self).width as int,
                    x as int,
                    y as int,
                ) <= j < pixel_index(old(self).width as int, x as int, y as int) + 3)
                    ==> final(self).data@[j] == old(self).data@[j],
    {
        let i = self.offset(x, y);
        proof {
            lemma_vec_len_bound(&self.data);
        }
        self.data[i] = c.0;
        self.data[i + 1] = c.1;
        self.data[i + 2] = c.2;
    }
}

} // verus!
