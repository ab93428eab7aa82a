//! Loading a model from Wavefront OBJ text.
//!
//! The text is read line by line, and every line word by word, cut at
//! single spaces. A line that begins with `v`, `vt` or `vn` adds a position,
//! a pair of texture coordinates or a normal to its table; a line that
//! begins with `f` adds a triangle whose three corners each name one entry
//! of each table, as `position/texture/normal`, counted from 1. Corners that
//! name the same three entries share one vertex. Other lines are passed
//! over.

use crate::collections::{
    coord_seq, coords_new, coords_push, coords_slice, face_seq, faces_new, faces_push,
    position_seq, positions_new, positions_push, positions_slice, vertex_seq, verts_new,
    verts_push, verts_slice,
};
use crate::math::Fixed;
use crate::model::text::{
    decimal, head, index_value, nth_piece, parse_decimal, parse_index, piece, scan, tail,
};
use crate::model::{Face, Model, Vertex};
use crate::types::vector::{Vec2, Vec3, Vec4};
use vstd::prelude::*;
use vstd::string::StringSliceAdditionalSpecFns;

verus! {

/// What a line of the text describes.
#[derive(Debug, Copy, Clone, PartialEq, Eq, Structural)]
pub enum ObjField {
    Vertex,
    TexCoords,
    Normal,
    Face,
}

/// Why a text cannot be loaded.
#[derive(Debug, Copy, Clone, PartialEq, Eq, Structural)]
pub enum ObjError {
    /// A line ends before the values that it needs.
    MissingValue(ObjField),
    /// A word is no number, or no index.
    BadNumber(ObjField),
    /// A corner names an entry that its table does not hold.
    BadIndex,
    /// The table for this kind of line is full.
    TableFull(ObjField),
    /// The faces need more vertices than a model holds.
    TooManyVertices,
}

/// What has been read of a text.
pub struct Tables {
    pub points: Seq<Vec4<Fixed>>,
    pub tex_coords: Seq<Vec2<Fixed>>,
    pub normals: Seq<Vec4<Fixed>>,
    pub vertices: Seq<Vertex>,
    pub faces: Seq<(usize, usize, usize)>,
}

/// The tables while a text is read, each with the capacity that a model
/// allows.
pub struct ObjTables {
    points: heapless::Vec<Vec4<Fixed>, 256>,
    tex_coords: heapless::Vec<Vec2<Fixed>, 256>,
    normals: heapless::Vec<Vec4<Fixed>, 256>,
    vertices: heapless::Vec<Vertex, 256>,
    faces: heapless::Vec<Face, 512>,
}

/// The three vertex indices of a face.
pub open spec fn corners(face: Face) -> (usize, usize, usize) {
    (face.verts@[0], face.verts@[1], face.verts@[2])
}

pub open spec fn no_tables() -> Tables {
    Tables {
        points: Seq::empty(),
        tex_coords: Seq::empty(),
        normals: Seq::empty(),
        vertices: Seq::empty(),
        faces: Seq::empty(),
    }
}

/// Word `k` of a line as a number.
pub open spec fn number_at(line: Seq<u8>, k: nat, field: ObjField) -> Result<Fixed, ObjError> {
    match piece(line, 32, k) {
        None => Err(ObjError::MissingValue(field)),
        Some(word) => match decimal(word) {
            None => Err(ObjError::BadNumber(field)),
            Some(v) => Ok(v),
        },
    }
}

/// Words 1 to 3 of a line as three numbers; the first word that fails
/// decides the error.
pub open spec fn triple_at(line: Seq<u8>, field: ObjField) -> Result<Vec3<Fixed>, ObjError> {
    match number_at(line, 1, field) {
        Err(e) => Err(e),
        Ok(x) => match number_at(line, 2, field) {
            Err(e) => Err(e),
            Ok(y) => match number_at(line, 3, field) {
                Err(e) => Err(e),
                Ok(z) => Ok(Vec3 { x: x, y: y, z: z }),
            },
        },
    }
}

/// Words 1 and 2 of a line as two numbers.
pub open spec fn pair_at(line: Seq<u8>, field: ObjField) -> Result<Vec2<Fixed>, ObjError> {
    match number_at(line, 1, field) {
        Err(e) => Err(e),
        Ok(x) => match number_at(line, 2, field) {
            Err(e) => Err(e),
            Ok(y) => Ok(Vec2 { x: x, y: y }),
        },
    }
}

/// A `v` line: the position `(x, y, z, 1)` joins the points.
pub open spec fn with_point(t: Tables, line: Seq<u8>) -> Result<Tables, ObjError> {
    match triple_at(line, ObjField::Vertex) {
        Err(e) => Err(e),
        Ok(p) => if t.points.len() >= 256 {
            Err(ObjError::TableFull(ObjField::Vertex))
        } else {
            Ok(
                Tables {
                    points: t.points.push(Vec4 { x: p.x, y: p.y, z: p.z, w: Fixed::one_spec() }),
                    ..t
                },
            )
        },
    }
}

/// A `vt` line: the pair `(u, v)` joins the texture coordinates.
pub open spec fn with_tex_coords(t: Tables, line: Seq<u8>) -> Result<Tables, ObjError> {
    match pair_at(line, ObjField::TexCoords) {
        Err(e) => Err(e),
        Ok(c) => if t.tex_coords.len() >= 256 {
            Err(ObjError::TableFull(ObjField::TexCoords))
        } else {
            Ok(Tables { tex_coords: t.tex_coords.push(c), ..t })
        },
    }
}

/// A `vn` line: the direction `(x, y, z, 0)` joins the normals.
pub open spec fn with_normal(t: Tables, line: Seq<u8>) -> Result<Tables, ObjError> {
    match triple_at(line, ObjField::Normal) {
        Err(e) => Err(e),
        Ok(n) => if t.normals.len() >= 256 {
            Err(ObjError::TableFull(ObjField::Normal))
        } else {
            Ok(
                Tables {
                    normals: t.normals.push(Vec4 { x: n.x, y: n.y, z: n.z, w: Fixed::zero_spec() }),
                    ..t
                },
            )
        },
    }
}

/// Part `k` of a corner, cut at `/`, as an index.
pub open spec fn index_at(word: Seq<u8>, k: nat) -> Result<usize, ObjError> {
    match piece(word, 47, k) {
        None => Err(ObjError::MissingValue(ObjField::Face)),
        Some(part) => match index_value(part) {
            None => Err(ObjError::BadNumber(ObjField::Face)),
            Some(i) => Ok(i),
        },
    }
}

/// The three indices of a corner.
pub open spec fn corner_indices(word: Seq<u8>) -> Result<(usize, usize, usize), ObjError> {
    match index_at(word, 0) {
        Err(e) => Err(e),
        Ok(p) => match index_at(word, 1) {
            Err(e) => Err(e),
            Ok(t) => match index_at(word, 2) {
                Err(e) => Err(e),
                Ok(n) => Ok((p, t, n)),
            },
        },
    }
}

/// The first place from `from` on at which `v` stands among `vertices`.
pub open spec fn first_match(vertices: Seq<Vertex>, v: Vertex, from: int) -> Option<usize>
    decreases vertices.len() - from,
{
    if from < 0 || from >= vertices.len() {
        None
    } else if vertices[from] == v {
        Some(from as usize)
    } else {
        first_match(vertices, v, from + 1)
    }
}

/// Whether the three indices each name an entry of their table.
pub open spec fn indices_fit(t: Tables, refs: (usize, usize, usize)) -> bool {
    1 <= refs.0 <= t.points.len() && 1 <= refs.1 <= t.tex_coords.len() && 1 <= refs.2
        <= t.normals.len()
}

/// The vertex that three indices name.
pub open spec fn vertex_of(t: Tables, refs: (usize, usize, usize)) -> Vertex {
    Vertex {
        pos: t.points[refs.0 - 1],
        tex_coords: t.tex_coords[refs.1 - 1],
        normal: t.normals[refs.2 - 1],
    }
}

/// A corner: its vertex is looked up among the vertices, and joins them
/// where it is new. Gives the tables and the place of the vertex.
#[verifier::opaque]
pub open spec fn with_corner(t: Tables, line: Seq<u8>, k: nat) -> Result<
    (Tables, usize),
    ObjError,
> {
    match piece(line, 32, k) {
        None => Err(ObjError::MissingValue(ObjField::Face)),
        Some(word) => match corner_indices(word) {
            Err(e) => Err(e),
            Ok(refs) => if !indices_fit(t, refs) {
                Err(ObjError::BadIndex)
            } else {
                match first_match(t.vertices, vertex_of(t, refs), 0) {
                    Some(i) => Ok((t, i)),
                    None => if t.vertices.len() >= 256 {
                        Err(ObjError::TooManyVertices)
                    } else {
                        Ok(
                            (
                                Tables { vertices: t.vertices.push(vertex_of(t, refs)), ..t },
                                t.vertices.len() as usize,
                            ),
                        )
                    },
                }
            },
        },
    }
}

/// An `f` line: its three corners, one after the other, and then the face
/// of their vertices.
pub open spec fn with_face(t: Tables, line: Seq<u8>) -> Result<Tables, ObjError> {
    match with_corner(t, line, 1) {
        Err(e) => Err(e),
        Ok((t1, a)) => match with_corner(t1, line, 2) {
            Err(e) => Err(e),
            Ok((t2, b)) => match with_corner(t2, line, 3) {
                Err(e) => Err(e),
                Ok((t3, c)) => if t3.faces.len() >= 512 {
                    Err(ObjError::TableFull(ObjField::Face))
                } else {
                    Ok(Tables { faces: t3.faces.push((a, b, c)), ..t3 })
                },
            },
        },
    }
}

/// The tables after one more line.
#[verifier::opaque]
pub open spec fn with_line(t: Tables, line: Seq<u8>) -> Result<Tables, ObjError> {
    let kind = head(line, 32);
    if kind == seq![118u8] {
        with_point(t, line)
    } else if kind == seq![118u8, 116u8] {
        with_tex_coords(t, line)
    } else if kind == seq![118u8, 110u8] {
        with_normal(t, line)
    } else if kind == seq![102u8] {
        with_face(t, line)
    } else {
        Ok(t)
    }
}

/// The tables after all the lines of `text`, cut at line feeds.
pub open spec fn with_text(t: Tables, text: Seq<u8>) -> Result<Tables, ObjError>
    decreases text.len(),
{
    match with_line(t, head(text, 10)) {
        Err(e) => Err(e),
        Ok(next) => match tail(text, 10) {
            None => Ok(next),
            Some(rest) => with_text(next, rest),
        },
    }
}

/// What a text holds.
pub open spec fn parsed(text: Seq<u8>) -> Result<Tables, ObjError> {
    with_text(no_tables(), text)
}

/// Every face names three of the vertices.
pub open spec fn faces_fit(t: Tables) -> bool {
    forall|i: int|
        0 <= i < t.faces.len() ==> {
            let f = #[trigger] t.faces[i];
            f.0 < t.vertices.len() && f.1 < t.vertices.len() && f.2 < t.vertices.len()
        }
}

impl View for ObjTables {
    type V = Tables;

    closed spec fn view(&self) -> Tables {
        Tables {
            points: position_seq(self.points),
            tex_coords: coord_seq(self.tex_coords),
            normals: position_seq(self.normals),
            vertices: vertex_seq(self.vertices),
            faces: face_seq(self.faces).map_values(|f: Face| corners(f)),
        }
    }
}

fn read_number(bytes: &[u8], start: usize, end: usize, k: usize, field: ObjField) -> (out: Result<
    Fixed,
    ObjError,
>)
    requires
        start <= end <= bytes@.len(),
    ensures
        out == number_at(bytes@.subrange(start as int, end as int), k as nat, field),
{
    match nth_piece(bytes, start, end, 32, k) {
        None => Err(ObjError::MissingValue(field)),
        Some((a, b)) => match parse_decimal(bytes, a, b) {
            None => Err(ObjError::BadNumber(field)),
            Some(v) => Ok(v),
        },
    }
}

fn read_triple(bytes: &[u8], start: usize, end: usize, field: ObjField) -> (out: Result<
    Vec3<Fixed>,
    ObjError,
>)
    requires
        start <= end <= bytes@.len(),
    ensures
        out == triple_at(bytes@.subrange(start as int, end as int), field),
{
    let x = match read_number(bytes, start, end, 1, field) {
        Err(e) => { return Err(e); },
        Ok(v) => v,
    };
    let y = match read_number(bytes, start, end, 2, field) {
        Err(e) => { return Err(e); },
        Ok(v) => v,
    };
    let z = match read_number(bytes, start, end, 3, field) {
        Err(e) => { return Err(e); },
        Ok(v) => v,
    };
    Ok(Vec3 { x, y, z })
}

fn read_pair(bytes: &[u8], start: usize, end: usize, field: ObjField) -> (out: Result<
    Vec2<Fixed>,
    ObjError,
>)
    requires
        start <= end <= bytes@.len(),
    ensures
        out == pair_at(bytes@.subrange(start as int, end as int), field),
{
    let x = match read_number(bytes, start, end, 1, field) {
        Err(e) => { return Err(e); },
        Ok(v) => v,
    };
    let y = match read_number(bytes, start, end, 2, field) {
        Err(e) => { return Err(e); },
        Ok(v) => v,
    };
    Ok(Vec2 { x, y })
}

fn read_index(bytes: &[u8], start: usize, end: usize, k: usize) -> (out: Result<usize, ObjError>)
    requires
        start <= end <= bytes@.len(),
    ensures
        out == index_at(bytes@.subrange(start as int, end as int), k as nat),
{
    match nth_piece(bytes, start, end, 47, k) {
        None => Err(ObjError::MissingValue(ObjField::Face)),
        Some((a, b)) => match parse_index(bytes, a, b) {
            None => Err(ObjError::BadNumber(ObjField::Face)),
            Some(v) => Ok(v),
        },
    }
}

fn read_corner(bytes: &[u8], start: usize, end: usize) -> (out: Result<
    (usize, usize, usize),
    ObjError,
>)
    requires
        start <= end <= bytes@.len(),
    ensures
        out == corner_indices(bytes@.subrange(start as int, end as int)),
{
    let p = match read_index(bytes, start, end, 0) {
        Err(e) => { return Err(e); },
        Ok(v) => v,
    };
    let t = match read_index(bytes, start, end, 1) {
        Err(e) => { return Err(e); },
        Ok(v) => v,
    };
    let n = match read_index(bytes, start, end, 2) {
        Err(e) => { return Err(e); },
        Ok(v) => v,
    };
    Ok((p, t, n))
}

impl ObjTables {
    /// Empty tables.
    pub fn new() -> (tables: ObjTables)
        ensures
            tables@ == no_tables(),
    {
        let tables = ObjTables {
            points: positions_new(),
            tex_coords: coords_new(),
            normals: positions_new(),
            vertices: verts_new(),
            faces: faces_new(),
        };
        assert(tables@.faces =~= Seq::<(usize, usize, usize)>::empty());
        tables
    }

    /// Gets the index of a vertex with the specified data. Passed indices
    /// start at 1, as in the face data.
    pub fn get_vertex(
        &self,
        point_index: usize,
        tex_coord_index: usize,
        normal_index: usize,
    ) -> (out: Result<Option<usize>, ObjError>)
        ensures
            out is Ok <==> indices_fit(self@, (point_index, tex_coord_index, normal_index)),
            out is Err ==> out->Err_0 == ObjError::BadIndex,
            out is Ok ==> out->Ok_0 == first_match(
                self@.vertices,
                vertex_of(self@, (point_index, tex_coord_index, normal_index)),
                0,
            ),
    {
        let points = positions_slice(&self.points);
        let tex_coords = coords_slice(&self.tex_coords);
        let normals = positions_slice(&self.normals);
        let vertices = verts_slice(&self.vertices);
        if point_index < 1 || point_index > points.len() || tex_coord_index < 1 || tex_coord_index
            > tex_coords.len() || normal_index < 1 || normal_index > normals.len() {
            return Err(ObjError::BadIndex);
        }
        let given = Vertex {
            pos: points[point_index - 1],
            tex_coords: tex_coords[tex_coord_index - 1],
            normal: normals[normal_index - 1],
        };
        let mut i: usize = 0;
        while i < vertices.len()
            invariant
                i <= vertices.len(),
                vertices@ == self@.vertices,
                indices_fit(self@, (point_index, tex_coord_index, normal_index)),
                given == vertex_of(self@, (point_index, tex_coord_index, normal_index)),
                first_match(vertices@, given, 0) == first_match(vertices@, given, i as int),
            decreases vertices.len() - i,
        {
            if vertices[i] == given {
                return Ok(Some(i));
            }
            i = i + 1;
        }
        Ok(None)
    }

    /// Reads word `k` of a line as a corner, and gives the place of its
    /// vertex.
    fn add_corner(&mut self, bytes: &[u8], start: usize, end: usize, k: usize) -> (out: Result<
        usize,
        ObjError,
    >)
        requires
            start <= end <= bytes@.len(),
            faces_fit(old(self)@),
        ensures
            match with_corner(old(self)@, bytes@.subrange(start as int, end as int), k as nat) {
                Ok((t, i)) => out == Ok::<usize, ObjError>(i) && final(self)@ == t && i
                    < t.vertices.len(),
                Err(e) => out == Err::<usize, ObjError>(e),
            },
            faces_fit(final(self)@),
            final(self)@.vertices.len() >= old(self)@.vertices.len(),
    {
        reveal(with_corner);
        let (a, b) = match nth_piece(bytes, start, end, 32, k) {
            None => { return Err(ObjError::MissingValue(ObjField::Face)); },
            Some(bounds) => bounds,
        };
        let refs = match read_corner(bytes, a, b) {
            Err(e) => { return Err(e); },
            Ok(refs) => refs,
        };
        let found = match self.get_vertex(refs.0, refs.1, refs.2) {
            Err(e) => { return Err(e); },
            Ok(found) => found,
        };
        match found {
            Some(i) => {
                proof {
                    lemma_first_match(self@.vertices, vertex_of(self@, refs), 0);
                }
                Ok(i)
            },
            None => {
                let points = positions_slice(&self.points);
                let tex_coords = coords_slice(&self.tex_coords);
                let normals = positions_slice(&self.normals);
                let vertex = Vertex {
                    pos: points[refs.0 - 1],
                    tex_coords: tex_coords[refs.1 - 1],
                    normal: normals[refs.2 - 1],
                };
                let at: usize = verts_slice(&self.vertices).len();
                if verts_push(&mut self.vertices, vertex) {
                    Ok(at)
                } else {
                    Err(ObjError::TooManyVertices)
                }
            },
        }
    }

    /// Takes one line into the tables.
    pub fn add_line(&mut self, bytes: &[u8], start: usize, end: usize) -> (out: Result<
        (),
        ObjError,
    >)
        requires
            start <= end <= bytes@.len(),
            faces_fit(old(self)@),
        ensures
            match with_line(old(self)@, bytes@.subrange(start as int, end as int)) {
                Ok(t) => out is Ok && final(self)@ == t,
                Err(e) => out == Err::<(), ObjError>(e),
            },
            faces_fit(final(self)@),
    {
        reveal(with_line);
        let ghost line = bytes@.subrange(start as int, end as int);
        let word_end: usize = scan(bytes, start, end, 32);
        assert(head(line, 32) =~= bytes@.subrange(start as int, word_end as int));
        let ghost kind = bytes@.subrange(start as int, word_end as int);
        let len: usize = word_end - start;
        if len == 1 && bytes[start] == 118 {
            assert(kind =~= seq![118u8]);
            let p = match read_triple(bytes, start, end, ObjField::Vertex) {
                Err(e) => { return Err(e); },
                Ok(p) => p,
            };
            let point = Vec4 { x: p.x, y: p.y, z: p.z, w: Fixed::one() };
            if positions_push(&mut self.points, point) {
                Ok(())
            } else {
                Err(ObjError::TableFull(ObjField::Vertex))
            }
        } else if len == 2 && bytes[start] == 118 && bytes[start + 1] == 116 {
            assert(kind =~= seq![118u8, 116u8]);
            let c = match read_pair(bytes, start, end, ObjField::TexCoords) {
                Err(e) => { return Err(e); },
                Ok(c) => c,
            };
            if coords_push(&mut self.tex_coords, c) {
                Ok(())
            } else {
                Err(ObjError::TableFull(ObjField::TexCoords))
            }
        } else if len == 2 && bytes[start] == 118 && bytes[start + 1] == 110 {
            assert(kind =~= seq![118u8, 110u8]);
            let n = match read_triple(bytes, start, end, ObjField::Normal) {
                Err(e) => { return Err(e); },
                Ok(n) => n,
            };
            let normal = Vec4 { x: n.x, y: n.y, z: n.z, w: Fixed::zero() };
            if positions_push(&mut self.normals, normal) {
                Ok(())
            } else {
                Err(ObjError::TableFull(ObjField::Normal))
            }
        } else if len == 1 && bytes[start] == 102 {
            assert(kind =~= seq![102u8]);
            let a = match self.add_corner(bytes, start, end, 1) {
                Err(e) => { return Err(e); },
                Ok(i) => i,
            };
            let b = match self.add_corner(bytes, start, end, 2) {
                Err(e) => { return Err(e); },
                Ok(i) => i,
            };
            let c = match self.add_corner(bytes, start, end, 3) {
                Err(e) => { return Err(e); },
                Ok(i) => i,
            };
            let ghost before = self@;
            let face = Face { verts: [a, b, c] };
            if faces_push(&mut self.faces, face) {
                assert(self@.faces =~= before.faces.push((a, b, c)));
                Ok(())
            } else {
                Err(ObjError::TableFull(ObjField::Face))
            }
        } else {
            Ok(())
        }
    }
}

/// A match that is found stands among the vertices.
proof fn lemma_first_match(vertices: Seq<Vertex>, v: Vertex, from: int)
    requires
        0 <= from,
    ensures
        first_match(vertices, v, from) is Some ==> first_match(vertices, v, from)->Some_0
            < vertices.len(),
    decreases vertices.len() - from,
{
    if from < vertices.len() && vertices[from] != v {
        lemma_first_match(vertices, v, from + 1);
    }
}

/// Creates a Model from the text of an OBJ file.
pub fn from_obj(obj_file: &str) -> (result: Result<Model, ObjError>)
    ensures
        match parsed(obj_file.spec_bytes()) {
            Ok(t) => result is Ok && result->Ok_0.vertices() == t.vertices
                && result->Ok_0.triangles().map_values(|f: Face| corners(f)) == t.faces
                && result->Ok_0.wf(),
            Err(e) => result is Err && result->Err_0 == e,
        },
{
    let bytes = obj_file.as_bytes();
    let end: usize = bytes.len();
    let mut tables = ObjTables::new();
    let mut start: usize = 0;
    assert(bytes@.subrange(0, end as int) =~= bytes@);
    loop
        invariant
            start <= end == bytes@.len(),
            bytes@ == obj_file.spec_bytes(),
            faces_fit(tables@),
            parsed(bytes@) == with_text(tables@, bytes@.subrange(start as int, end as int)),
        decreases end - start,
    {
        let ghost rest = bytes@.subrange(start as int, end as int);
        let line_end: usize = scan(bytes, start, end, 10);
        assert(head(rest, 10) =~= bytes@.subrange(start as int, line_end as int));
        match tables.add_line(bytes, start, line_end) {
            Err(e) => {
                return Err(e);
            },
            Ok(()) => {},
        }
        if line_end == end {
            let ghost t = tables@;
            let model = Model { verts: tables.vertices, faces: tables.faces };
            assert(model.wf()) by {
                assert forall|i: int| 0 <= i < model.triangles().len() implies (
                #[trigger] model.triangles()[i]).within(model.vertices().len() as int) by {
                    assert(t.faces[i] == corners(model.triangles()[i]));
                }
            }
            return Ok(model);
        }
        assert(rest.skip(line_end - start + 1) =~= bytes@.subrange(line_end + 1, end as int));
        start = line_end + 1;
    }
}

} // verus!
