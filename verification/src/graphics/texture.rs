//! Textures: a grid of 24-bit colours, sampled by the nearest texel.

use crate::collections::{texel_seq, texels_new, texels_push, texels_slice, TEXTURE_CAPACITY};
use crate::math::Fixed;
use crate::types::vector::{Vec2, Vec3};
use vstd::prelude::*;

verus! {

/// A `W` by `H` grid of colours, row by row. Its table holds up to 30 000
/// texels: of a larger grid it holds the first 30 000.
pub struct Texture<const W: usize, const H: usize> {
    buffer: heapless::Vec<Vec3<u8>, 30000>,
}

/// The texel of the checkerboard at column `x` and row `y`: white where both
/// the column and the row lie in an odd 8-pixel cell, black elsewhere.
pub open spec fn checker(x: int, y: int) -> Vec3<u8> {
    if (x / 8) % 2 == 1 && (y / 8) % 2 == 1 {
        Vec3 { x: 255, y: 255, z: 255 }
    } else {
        Vec3 { x: 0, y: 0, z: 0 }
    }
}

/// The column or row that a coordinate from 0 up to, but not including, 1
/// falls into, out of `n`.
pub open spec fn cell_of(coord: Fixed, n: int) -> int {
    (coord.raw * n) / 65536
}

/// Whether a coordinate lies from 0 up to, but not including, 1.
pub open spec fn in_unit(coord: Fixed) -> bool {
    0 <= coord.raw < 65536
}

/// How many of `n` texels a texture's table holds.
pub open spec fn held(n: int) -> int {
    if n > TEXTURE_CAPACITY {
        TEXTURE_CAPACITY as int
    } else {
        n
    }
}

impl<const W: usize, const H: usize> Texture<W, H> {
    /// The texels, row by row.
    pub closed spec fn texels(&self) -> Seq<Vec3<u8>> {
        texel_seq(self.buffer)
    }

    /// The texture holds one texel for each place of the grid.
    pub open spec fn wf(&self) -> bool {
        self.texels().len() == W * H
    }

    /// The texel at column `x` of row `y`.
    pub open spec fn texel(&self, x: int, y: int) -> Vec3<u8> {
        self.texels()[y * W + x]
    }

    /// The texel at column `x` of row `y`, where the grid has that place
    /// and the table holds its texel.
    pub open spec fn texel_at(&self, x: int, y: int) -> Option<Vec3<u8>> {
        if 0 <= x < W && 0 <= y < H && y * W + x < self.texels().len() {
            Some(self.texel(x, y))
        } else {
            None
        }
    }

    /// The texel nearest to `(u, v)`, where both lie from 0 up to 1 and the
    /// table holds the texel.
    pub open spec fn sampled(&self, u: Fixed, v: Fixed) -> Option<Vec3<u8>> {
        if in_unit(u) && in_unit(v) {
            self.texel_at(cell_of(u, W as int), cell_of(v, H as int))
        } else {
            None
        }
    }

    /// The texel at column `x` of row `y`, if the texture has one there.
    pub fn sample_pixels(&self, x: usize, y: usize) -> (out: Option<Vec3<u8>>)
        ensures
            out == self.texel_at(x as int, y as int),
    {
        if x < W && y < H {
            let texels = texels_slice(&self.buffer);
            assert(0 <= y * W <= 0xffff_ffff_ffff_ffff * 0xffff_ffff_ffff_ffff) by (nonlinear_arith)
                requires
                    0 <= y <= 0xffff_ffff_ffff_ffff,
                    0 <= W <= 0xffff_ffff_ffff_ffff,
            ;
            let place: u128 = (y as u128) * (W as u128) + (x as u128);
            if place < texels.len() as u128 {
                Some(texels[place as usize])
            } else {
                None
            }
        } else {
            None
        }
    }

    /// The texel nearest to `(x, y)`, if both lie from 0 up to 1.
    pub fn sample_f(&self, x: Fixed, y: Fixed) -> (out: Option<Vec3<u8>>)
        ensures
            out == self.sampled(x, y),
    {
        if 0 <= x.raw && x.raw < 65536 && 0 <= y.raw && y.raw < 65536 {
            assert(x.raw * W <= 65536 * 0xffff_ffff_ffff_ffff && y.raw * H <= 65536
                * 0xffff_ffff_ffff_ffff) by (nonlinear_arith)
                requires
                    0 <= x.raw < 65536,
                    0 <= y.raw < 65536,
                    0 <= W <= 0xffff_ffff_ffff_ffff,
                    0 <= H <= 0xffff_ffff_ffff_ffff,
            ;
            let col: u128 = ((x.raw as u128) * (W as u128)) / 65536;
            let row: u128 = ((y.raw as u128) * (H as u128)) / 65536;
            assert(col <= W && (W > 0 ==> col < W)) by (nonlinear_arith)
                requires
                    col == (x.raw * W) / 65536,
                    0 <= x.raw < 65536,
                    0 <= W,
            ;
            assert(row <= H && (H > 0 ==> row < H)) by (nonlinear_arith)
                requires
                    row == (y.raw * H) / 65536,
                    0 <= y.raw < 65536,
                    0 <= H,
            ;
            self.sample_pixels(col as usize, row as usize)
        } else {
            None
        }
    }

    /// The texel nearest to the texture coordinates.
    pub fn sample(&self, tex_coords: Vec2<Fixed>) -> (out: Option<Vec3<u8>>)
        ensures
            out == self.sampled(tex_coords.x, tex_coords.y),
    {
        self.sample_f(tex_coords.x, tex_coords.y)
    }

    /// The checkerboard of 8-pixel cells: every texel of the grid, row by
    /// row. A grid of up to 30 000 texels is whole; of a larger one the
    /// table holds the first 30 000.
    pub fn gen_checkerboard() -> (tex: Texture<W, H>)
        ensures
            tex.texels().len() == held(W * H),
            forall|k: int|
                0 <= k < tex.texels().len() ==> #[trigger] tex.texels()[k] == checker(
                    k % (W as int),
                    k / (W as int),
                ),
            W * H <= TEXTURE_CAPACITY ==> tex.wf(),
            W * H <= TEXTURE_CAPACITY ==> forall|x: int, y: int|
                0 <= x < W && 0 <= y < H ==> #[trigger] tex.texel(x, y) == checker(x, y),
    {
        let mut tex: Texture<W, H> = Texture { buffer: texels_new() };
        if W == 0 {
            assert(W * H == 0) by (nonlinear_arith)
                requires
                    W == 0,
            ;
            return tex;
        }
        let mut y: usize = 0;
        assert(0 * W == 0);
        while y < H
            invariant
                W > 0,
                y <= H,
                tex.texels().len() == y * W,
                tex.texels().len() <= TEXTURE_CAPACITY,
                forall|k: int|
                    0 <= k < tex.texels().len() ==> #[trigger] tex.texels()[k] == checker(
                        k % (W as int),
                        k / (W as int),
                    ),
            decreases H - y,
        {
            let mut x: usize = 0;
            while x < W
                invariant
                    W > 0,
                    y < H,
                    x <= W,
                    tex.texels().len() == y * W + x,
                    tex.texels().len() <= TEXTURE_CAPACITY,
                    forall|k: int|
                        0 <= k < tex.texels().len() ==> #[trigger] tex.texels()[k] == checker(
                            k % (W as int),
                            k / (W as int),
                        ),
                decreases W - x,
            {
                assert(y * W + x < W * H) by (nonlinear_arith)
                    requires
                        0 <= x < W,
                        0 <= y < H,
                ;
                proof {
                    vstd::arithmetic::div_mod::lemma_fundamental_div_mod_converse(
                        y * W + x,
                        W as int,
                        y as int,
                        x as int,
                    );
                }
                let texel: Vec3<u8> = if x / 8 % 2 == 1 && y / 8 % 2 == 1 {
                    Vec3 { x: 255, y: 255, z: 255 }
                } else {
                    Vec3 { x: 0, y: 0, z: 0 }
                };
                if !texels_push(&mut tex.buffer, texel) {
                    return tex;
                }
                x = x + 1;
            }
            assert((y + 1) * W == y * W + W) by (nonlinear_arith);
            y = y + 1;
        }
        assert(H * W == W * H) by (nonlinear_arith);
        assert forall|x: int, y: int| 0 <= x < W && 0 <= y < H implies #[trigger] tex.texel(x, y)
            == checker(x, y) by {
            assert(0 <= y * W + x < W * H) by (nonlinear_arith)
                requires
                    0 <= x < W,
                    0 <= y < H,
            ;
            vstd::arithmetic::div_mod::lemma_fundamental_div_mod_converse(
                y * W + x,
                W as int,
                y,
                x,
            );
        }
        tex
    }
}

} // verus!
