//! Fixed-capacity collections that live without a heap, and what the
//! library takes on trust about them.

use crate::model::{Face, Vertex};
use crate::math::Fixed;
use crate::types::vector::{Vec2, Vec3, Vec4};
use vstd::prelude::*;

verus! {

#[verifier::external_type_specification]
#[verifier::external_body]
#[verifier::reject_recursive_types(T)]
pub struct ExHeaplessVec<T, const N: usize>(heapless::Vec<T, N>);

#[verifier::external_type_specification]
#[verifier::external_body]
pub struct ExHeaplessString<const N: usize>(heapless::String<N>);

/// How many pixels a frame can hold: a raster of 480 by 360.
pub const GRID_CAPACITY: usize = 172800;

/// How many texels a texture can hold.
pub const TEXTURE_CAPACITY: usize = 30000;

/// How many vertices a model can hold.
pub const NUM_VERTS: usize = 256;

/// How many faces a model can hold.
pub const NUM_FACES: usize = 512;

/// The pixels that a grid holds, in the order in which they were pushed.
pub uninterp spec fn pixel_seq(grid: heapless::Vec<Vec3<u8>, 172800>) -> Seq<Vec3<u8>>;

/// The texels that a texture's table holds, in the order in which they were
/// pushed.
pub uninterp spec fn texel_seq(table: heapless::Vec<Vec3<u8>, 30000>) -> Seq<Vec3<u8>>;

/// The vertices that a vertex table holds, in the order in which they were
/// pushed.
pub uninterp spec fn vertex_seq(table: heapless::Vec<Vertex, 256>) -> Seq<Vertex>;

/// The faces that a face table holds, in the order in which they were
/// pushed.
pub uninterp spec fn face_seq(table: heapless::Vec<Face, 512>) -> Seq<Face>;

/// The positions or normals that a table holds, in the order in which they
/// were pushed.
pub uninterp spec fn position_seq(table: heapless::Vec<Vec4<Fixed>, 256>) -> Seq<Vec4<Fixed>>;

/// The texture coordinates that a table holds, in the order in which they
/// were pushed.
pub uninterp spec fn coord_seq(table: heapless::Vec<Vec2<Fixed>, 256>) -> Seq<Vec2<Fixed>>;

/// The characters that a three-byte string holds, first one first.
pub uninterp spec fn text_of(text: heapless::String<3>) -> Seq<char>;

/// Whether every character of `text` is ASCII, so that it takes one byte.
pub open spec fn all_ascii(text: Seq<char>) -> bool {
    forall|i: int| 0 <= i < text.len() ==> (#[trigger] text[i]) as u32 <= 127
}

/// `heapless::Vec::new`: the empty grid.
#[verifier::external_body]
pub(crate) fn grid_new() -> (grid: heapless::Vec<Vec3<u8>, 172800>)
    ensures
        pixel_seq(grid) == Seq::<Vec3<u8>>::empty(),
{
    heapless::Vec::new()
}

/// `heapless::Vec::push`: appends the pixel where the grid holds fewer than
/// its capacity, and leaves the grid as it is where it is full.
#[verifier::external_body]
pub(crate) fn grid_push(
    grid: &mut heapless::Vec<Vec3<u8>, 172800>,
    pixel: Vec3<u8>,
) -> (pushed: bool)
    ensures
        pushed == (pixel_seq(*old(grid)).len() < 172800),
        pushed ==> pixel_seq(*final(grid)) == pixel_seq(*old(grid)).push(pixel),
        !pushed ==> pixel_seq(*final(grid)) == pixel_seq(*old(grid)),
{
    grid.push(pixel).is_ok()
}

/// `heapless::Vec::as_slice`: the pixels of the grid as a slice, never more
/// than the capacity.
#[verifier::external_body]
pub(crate) fn grid_slice(grid: &heapless::Vec<Vec3<u8>, 172800>) -> (pixels: &[Vec3<u8>])
    ensures
        pixels@ == pixel_seq(*grid),
        pixels@.len() <= 172800,
{
    grid.as_slice()
}

/// `heapless::Vec::new`: the empty table of texels.
#[verifier::external_body]
pub(crate) fn texels_new() -> (table: heapless::Vec<Vec3<u8>, 30000>)
    ensures
        texel_seq(table) == Seq::<Vec3<u8>>::empty(),
{
    heapless::Vec::new()
}

/// `heapless::Vec::push`: appends the texel where the table holds fewer
/// than its capacity, and leaves the table as it is where it is full.
#[verifier::external_body]
pub(crate) fn texels_push(
    table: &mut heapless::Vec<Vec3<u8>, 30000>,
    texel: Vec3<u8>,
) -> (pushed: bool)
    ensures
        pushed == (texel_seq(*old(table)).len() < 30000),
        pushed ==> texel_seq(*final(table)) == texel_seq(*old(table)).push(texel),
        !pushed ==> texel_seq(*final(table)) == texel_seq(*old(table)),
{
    table.push(texel).is_ok()
}

/// `heapless::Vec::as_slice`: the texels of the table as a slice, never
/// more than the capacity.
#[verifier::external_body]
pub(crate) fn texels_slice(table: &heapless::Vec<Vec3<u8>, 30000>) -> (texels: &[Vec3<u8>])
    ensures
        texels@ == texel_seq(*table),
        texels@.len() <= 30000,
{
    table.as_slice()
}

/// `heapless::Vec::new`: the empty vertex table.
#[verifier::external_body]
pub(crate) fn verts_new() -> (table: heapless::Vec<Vertex, 256>)
    ensures
        vertex_seq(table) == Seq::<Vertex>::empty(),
{
    heapless::Vec::new()
}

/// `heapless::Vec::push`: appends the vertex where the table holds fewer
/// than its capacity, and leaves the table as it is where it is full.
#[verifier::external_body]
pub(crate) fn verts_push(table: &mut heapless::Vec<Vertex, 256>, vertex: Vertex) -> (pushed: bool)
    ensures
        pushed == (vertex_seq(*old(table)).len() < 256),
        pushed ==> vertex_seq(*final(table)) == vertex_seq(*old(table)).push(vertex),
        !pushed ==> vertex_seq(*final(table)) == vertex_seq(*old(table)),
{
    table.push(vertex).is_ok()
}

/// `heapless::Vec::as_slice`: the vertices of the table as a slice, never
/// more than the capacity.
#[verifier::external_body]
pub(crate) fn verts_slice(table: &heapless::Vec<Vertex, 256>) -> (vertices: &[Vertex])
    ensures
        vertices@ == vertex_seq(*table),
        vertices@.len() <= 256,
{
    table.as_slice()
}

/// `heapless::Vec::new`: the empty face table.
#[verifier::external_body]
pub(crate) fn faces_new() -> (table: heapless::Vec<Face, 512>)
    ensures
        face_seq(table) == Seq::<Face>::empty(),
{
    heapless::Vec::new()
}

/// `heapless::Vec::push`: appends the face where the table holds fewer than
/// its capacity, and leaves the table as it is where it is full.
#[verifier::external_body]
pub(crate) fn faces_push(table: &mut heapless::Vec<Face, 512>, face: Face) -> (pushed: bool)
    ensures
        pushed == (face_seq(*old(table)).len() < 512),
        pushed ==> face_seq(*final(table)) == face_seq(*old(table)).push(face),
        !pushed ==> face_seq(*final(table)) == face_seq(*old(table)),
{
    table.push(face).is_ok()
}

/// `heapless::Vec::as_slice`: the faces of the table as a slice, never more
/// than the capacity.
#[verifier::external_body]
pub(crate) fn faces_slice(table: &heapless::Vec<Face, 512>) -> (faces: &[Face])
    ensures
        faces@ == face_seq(*table),
        faces@.len() <= 512,
{
    table.as_slice()
}

/// `heapless::Vec::new`: the empty table of positions.
#[verifier::external_body]
pub(crate) fn positions_new() -> (table: heapless::Vec<Vec4<Fixed>, 256>)
    ensures
        position_seq(table) == Seq::<Vec4<Fixed>>::empty(),
{
    heapless::Vec::new()
}

/// `heapless::Vec::push`: appends the position where the table holds fewer
/// than its capacity, and leaves the table as it is where it is full.
#[verifier::external_body]
pub(crate) fn positions_push(
    table: &mut heapless::Vec<Vec4<Fixed>, 256>,
    position: Vec4<Fixed>,
) -> (pushed: bool)
    ensures
        pushed == (position_seq(*old(table)).len() < 256),
        pushed ==> position_seq(*final(table)) == position_seq(*old(table)).push(position),
        !pushed ==> position_seq(*final(table)) == position_seq(*old(table)),
{
    table.push(position).is_ok()
}

/// `heapless::Vec::as_slice`: the positions of the table as a slice, never
/// more than the capacity.
#[verifier::external_body]
pub(crate) fn positions_slice(table: &heapless::Vec<Vec4<Fixed>, 256>) -> (positions: &[Vec4<
    Fixed,
>])
    ensures
        positions@ == position_seq(*table),
        positions@.len() <= 256,
{
    table.as_slice()
}

/// `heapless::Vec::new`: the empty table of texture coordinates.
#[verifier::external_body]
pub(crate) fn coords_new() -> (table: heapless::Vec<Vec2<Fixed>, 256>)
    ensures
        coord_seq(table) == Seq::<Vec2<Fixed>>::empty(),
{
    heapless::Vec::new()
}

/// `heapless::Vec::push`: appends the coordinates where the table holds
/// fewer than its capacity, and leaves the table as it is where it is full.
#[verifier::external_body]
pub(crate) fn coords_push(
    table: &mut heapless::Vec<Vec2<Fixed>, 256>,
    coords: Vec2<Fixed>,
) -> (pushed: bool)
    ensures
        pushed == (coord_seq(*old(table)).len() < 256),
        pushed ==> coord_seq(*final(table)) == coord_seq(*old(table)).push(coords),
        !pushed ==> coord_seq(*final(table)) == coord_seq(*old(table)),
{
    table.push(coords).is_ok()
}

/// `heapless::Vec::as_slice`: the texture coordinates of the table as a
/// slice, never more than the capacity.
#[verifier::external_body]
pub(crate) fn coords_slice(table: &heapless::Vec<Vec2<Fixed>, 256>) -> (coords: &[Vec2<Fixed>])
    ensures
        coords@ == coord_seq(*table),
        coords@.len() <= 256,
{
    table.as_slice()
}

/// `heapless::String::new`: the empty string.
#[verifier::external_body]
pub(crate) fn text_new() -> (text: heapless::String<3>)
    ensures
        text_of(text) == Seq::<char>::empty(),
{
    heapless::String::new()
}

/// `heapless::String::push` for an ASCII character: appends it where a byte
/// is free, and leaves the string as it is where none is. While the string
/// holds ASCII only, a byte is free exactly when it holds fewer than three
/// characters.
#[verifier::external_body]
pub(crate) fn text_push(text: &mut heapless::String<3>, c: char) -> (pushed: bool)
    requires
        c as u32 <= 127,
    ensures
        pushed ==> text_of(*final(text)) == text_of(*old(text)).push(c),
        !pushed ==> text_of(*final(text)) == text_of(*old(text)),
        all_ascii(text_of(*old(text))) ==> pushed == (text_of(*old(text)).len() < 3),
{
    text.push(c).is_ok()
}

} // verus!
