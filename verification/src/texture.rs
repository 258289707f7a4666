//! Nearest-neighbor texture sampling from a decoded RGBA pixel grid.
//!
//! The grid is row-major with the origin at the top left, four bytes per
//! pixel.  Lookups clamp the scaled coordinates into the grid, so no
//! sample reads out of bounds.

use vstd::prelude::*;
use crate::fixed::{Fx, FX_ONE, fx_mul_bits, fx_round_bits, clamp_int};

verus! {

/// The pixel coordinate a normalized texture coordinate selects on an
/// axis of the given extent: scale, round to nearest, clamp into range.
pub open spec fn tex_coord(c_bits: int, extent: int) -> int {
    clamp_int(fx_round_bits(fx_mul_bits(c_bits, extent * (FX_ONE as int))), 0, extent - 1)
}

#[derive(Debug)]
pub struct Texture {
    pub id: i32,
    /// RGBA bytes, four per pixel, row-major from the top left.
    pub pixels: Vec<u8>,
    pub width: usize,
    pub height: usize,
}

impl Texture {
    pub open spec fn wf(self) -> bool {
        &&& 1 <= self.width <= 16384
        &&& 1 <= self.height <= 16384
        &&& self.pixels@.len() == self.width * self.height * 4
    }

    /// A texture over an already decoded pixel grid.
    pub fn new(id: i32, pixels: Vec<u8>, width: usize, height: usize) -> (r: Texture)
        requires
            1 <= width <= 16384,
            1 <= height <= 16384,
            pixels@.len() == width * height * 4,
        ensures
            r.wf(),
            r.id == id,
            r.pixels == pixels,
            r.width == width,
            r.height == height,
    {
        Texture { id, pixels, width, height }
    }

    /// The stored color nearest to the normalized coordinates `(u, v)`.
    pub fn get_color(&self, u: Fx, v: Fx) -> (r: (u8, u8, u8))
        requires
            self.wf(),
        ensures
            r.0 == self.pixels@[4 * (tex_coord(v.bits as int, self.height as int) * self.width + tex_coord(u.bits as int, self.width as int))],
            r.1 == self.pixels@[4 * (tex_coord(v.bits as int, self.height as int) * self.width + tex_coord(u.bits as int, self.width as int)) + 1],
            r.2 == self.pixels@[4 * (tex_coord(v.bits as int, self.height as int) * self.width + tex_coord(u.bits as int, self.width as int)) + 2],
    {
        let xr: i64 = u.mul(Fx::from_int(self.width as i64)).round_i64();
        let yr: i64 = v.mul(Fx::from_int(self.height as i64)).round_i64();
        let x: usize = if xr < 0 {
            0
        } else if xr > (self.width - 1) as i64 {
            self.width - 1
        } else {
            xr as usize
        };
        let y: usize = if yr < 0 {
            0
        } else if yr > (self.height - 1) as i64 {
            self.height - 1
        } else {
            yr as usize
        };
        proof {
            assert(x as int == tex_coord(u.bits as int, self.width as int));
            assert(y as int == tex_coord(v.bits as int, self.height as int));
            assert(4 * ((y as int) * (self.width as int) + x as int) + 3 < self.width * self.height * 4) by (nonlinear_arith)
                requires
                    0 <= x as int <= self.width as int - 1,
                    0 <= y as int <= self.height as int - 1,
                    1 <= self.width as int,
                    1 <= self.height as int,
            ;
            assert(self.width * self.height * 4 <= 16384 * 16384 * 4) by (nonlinear_arith)
                requires
                    1 <= self.width as int <= 16384,
                    1 <= self.height as int <= 16384,
            ;
        }
        let idx: usize = 4 * (y * self.width + x);
        (self.pixels[idx], self.pixels[idx + 1], self.pixels[idx + 2])
    }
}

} // verus!
