//! The frame buffer: the raster that the camera renders into and the link
//! reads from.

use crate::collections::{grid_new, grid_push, grid_slice, pixel_seq, GRID_CAPACITY};
use crate::types::vector::Vec3;
use vstd::prelude::*;

verus! {

/// Represents a render target: up to `W` by `H` pixels, row by row.
pub struct FrameBuffer<const W: usize, const H: usize> {
    buffer: heapless::Vec<Vec3<u8>, 172800>,
}

impl<const W: usize, const H: usize> FrameBuffer<W, H> {
    /// The pixels written so far, row by row.
    pub closed spec fn pixels(&self) -> Seq<Vec3<u8>> {
        pixel_seq(self.buffer)
    }

    /// The buffer holds no more pixels than the raster has places.
    pub open spec fn wf(&self) -> bool {
        self.pixels().len() <= W * H
    }

    /// Every place of the raster has its pixel.
    pub open spec fn complete(&self) -> bool {
        self.pixels().len() == W * H
    }

    /// The pixel at column `x` of row `y`.
    pub open spec fn pixel(&self, x: int, y: int) -> Vec3<u8> {
        self.pixels()[y * W + x]
    }

    /// How many of the raster's pixels the buffer can hold: all of them, or
    /// as many as a grid holds.
    pub open spec fn room() -> int {
        if W * H > GRID_CAPACITY {
            GRID_CAPACITY as int
        } else {
            W * H
        }
    }

    /// An empty frame buffer.
    pub fn new() -> (fb: FrameBuffer<W, H>)
        ensures
            fb.pixels() == Seq::<Vec3<u8>>::empty(),
            fb.wf(),
    {
        FrameBuffer { buffer: grid_new() }
    }

    /// How many pixels the buffer holds.
    pub fn len(&self) -> (n: usize)
        ensures
            n == self.pixels().len(),
            n <= GRID_CAPACITY,
    {
        grid_slice(&self.buffer).len()
    }

    /// Writes the next pixel in raster order. A buffer that already holds
    /// its `W * H` pixels, or as many as a grid can hold, stays as it is.
    pub fn push(&mut self, pixel: Vec3<u8>) -> (pushed: bool)
        ensures
            old(self).wf() ==> final(self).wf(),
            final(self).pixels().len() <= GRID_CAPACITY,
            pushed == (old(self).pixels().len() < W * H && old(self).pixels().len()
                < GRID_CAPACITY),
            pushed ==> final(self).pixels() == old(self).pixels().push(pixel),
            !pushed ==> final(self).pixels() == old(self).pixels(),
    {
        let n: usize = self.len();
        assert(0 <= W * H <= 0xffff_ffff_ffff_ffff * 0xffff_ffff_ffff_ffff) by (nonlinear_arith)
            requires
                0 <= W <= 0xffff_ffff_ffff_ffff,
                0 <= H <= 0xffff_ffff_ffff_ffff,
        ;
        let places: u128 = (W as u128) * (H as u128);
        if n >= GRID_CAPACITY || (n as u128) >= places {
            return false;
        }
        grid_push(&mut self.buffer, pixel)
    }

    /// The pixel at column `x` of row `y`.
    pub fn get(&self, x: usize, y: usize) -> (pixel: Vec3<u8>)
        requires
            x < W,
            y * W + x < self.pixels().len(),
        ensures
            pixel == self.pixel(x as int, y as int),
    {
        let pixels = grid_slice(&self.buffer);
        pixels[y * W + x]
    }
}

/// A sequence that agrees with `full` at each of its `n` places is the
/// first `n` of `full`.
pub proof fn lemma_prefix<T>(part: Seq<T>, full: Seq<T>, n: int)
    requires
        0 <= n <= full.len(),
        part.len() == n,
        forall|i: int| 0 <= i < n ==> part[i] == full[i],
    ensures
        part == full.take(n),
        n == full.len() ==> part == full,
{
    assert(part =~= full.take(n));
    if n == full.len() {
        assert(full.take(n) =~= full);
    }
}

} // verus!
