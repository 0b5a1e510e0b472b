//! Faces: how a face directive is read and how a face is cut into triangles.

use vstd::prelude::*;
use vstd::slice::slice_subrange;
use crate::obj::index::VertexIndices;
use crate::obj::text::{fields, fields_from, next_field};

verus! {

/// A face as the vertices it names, by how many they are.
#[derive(Debug, Clone)]
pub enum Face {
    Point(VertexIndices),
    Line(VertexIndices, VertexIndices),
    Triangle(VertexIndices, VertexIndices, VertexIndices),
    Quad(VertexIndices, VertexIndices, VertexIndices, VertexIndices),
    Polygon(Vec<VertexIndices>),
}

/// The mathematical value of a [`Face`].
pub ghost enum FaceView {
    Point(VertexIndices),
    Line(VertexIndices, VertexIndices),
    Triangle(VertexIndices, VertexIndices, VertexIndices),
    Quad(VertexIndices, VertexIndices, VertexIndices, VertexIndices),
    Polygon(Seq<VertexIndices>),
}

impl View for Face {
    type V = FaceView;

    open spec fn view(&self) -> FaceView {
        match self {
            Face::Point(a) => FaceView::Point(*a),
            Face::Line(a, b) => FaceView::Line(*a, *b),
            Face::Triangle(a, b, c) => FaceView::Triangle(*a, *b, *c),
            Face::Quad(a, b, c, d) => FaceView::Quad(*a, *b, *c, *d),
            Face::Polygon(vs) => FaceView::Polygon(vs@),
        }
    }
}

/// The values of a sequence of faces.
pub open spec fn face_views(faces: Seq<Face>) -> Seq<FaceView> {
    faces.map_values(|f: Face| f@)
}

/// The triangle fan of a polygon around its first vertex: for the vertices
/// `p0 p1 .. pn`, the triangles `(p0, p1, p2)`, `(p0, p2, p3)`, and so on up
/// to `(p0, pn-1, pn)`, three keys each.
pub open spec fn fan(vs: Seq<VertexIndices>) -> Seq<VertexIndices> {
    Seq::new(
        if vs.len() >= 3 {
            (3 * (vs.len() - 2)) as nat
        } else {
            0
        },
        |i: int|
            if i % 3 == 0 {
                vs[0]
            } else if i % 3 == 1 {
                vs[i / 3 + 1]
            } else {
                vs[i / 3 + 2]
            },
    )
}

impl FaceView {
    /// The face that a face directive with the vertices `keys` declares.
    pub open spec fn from_keys(keys: Seq<VertexIndices>) -> FaceView {
        if keys.len() == 1 {
            FaceView::Point(keys[0])
        } else if keys.len() == 2 {
            FaceView::Line(keys[0], keys[1])
        } else if keys.len() == 3 {
            FaceView::Triangle(keys[0], keys[1], keys[2])
        } else if keys.len() == 4 {
            FaceView::Quad(keys[0], keys[1], keys[2], keys[3])
        } else {
            FaceView::Polygon(keys)
        }
    }

    /// Whether the face can be exported: every face but a polygon of fewer
    /// than three vertices.
    pub open spec fn well_formed(self) -> bool {
        self matches FaceView::Polygon(vs) ==> vs.len() >= 3
    }

    /// The vertex keys that the face contributes to a mesh, three for each
    /// triangle. Points and lines contribute nothing; a quad is cut along
    /// the diagonal from its first to its third vertex; a polygon is fanned
    /// around its first vertex.
    pub open spec fn triangles(self) -> Seq<VertexIndices> {
        match self {
            FaceView::Point(_) => Seq::empty(),
            FaceView::Line(_, _) => Seq::empty(),
            FaceView::Triangle(a, b, c) => seq![a, b, c],
            FaceView::Quad(a, b, c, d) => seq![a, b, c, a, c, d],
            FaceView::Polygon(vs) => fan(vs),
        }
    }
}

/// Whether each of the fields `fs` is the text of a face vertex.
pub open spec fn all_face_vertices(
    fs: Seq<Seq<u8>>,
    pos_sz: usize,
    tex_sz: usize,
    norm_sz: usize,
) -> bool {
    forall|k: int|
        0 <= k < fs.len() ==> (#[trigger] VertexIndices::parse_spec(
            fs[k],
            pos_sz,
            tex_sz,
            norm_sz,
        )) is Some
}

/// The face that the fields `fs` of a face directive declare, each field
/// read as a face vertex; `None` when one of them is not a face vertex.
pub open spec fn parse_face_spec(
    fs: Seq<Seq<u8>>,
    pos_sz: usize,
    tex_sz: usize,
    norm_sz: usize,
) -> Option<FaceView> {
    if all_face_vertices(fs, pos_sz, tex_sz, norm_sz) {
        Some(
            FaceView::from_keys(
                Seq::new(
                    fs.len(),
                    |k: int| VertexIndices::parse_spec(fs[k], pos_sz, tex_sz, norm_sz)->0,
                ),
            ),
        )
    } else {
        None
    }
}

/// Reads the vertices of a face directive from `face_str`, the text that
/// follows its keyword, and appends the face to `faces`.
///
/// Returns `false`, leaving `faces` as it was, when a field is not a face
/// vertex.
pub fn parse_face(
    face_str: &[u8],
    faces: &mut Vec<Face>,
    pos_sz: usize,
    tex_sz: usize,
    norm_sz: usize,
) -> (ok: bool)
    ensures
        match parse_face_spec(fields(face_str@), pos_sz, tex_sz, norm_sz) {
            Some(face) => ok && final(faces)@.len() == old(faces)@.len() + 1 && final(faces)@.take(
                old(faces)@.len() as int,
            ) == old(faces)@ && final(faces)@.last()@ == face,
            None => !ok && *final(faces) == *old(faces),
        },
{
    let mut indices: Vec<VertexIndices> = Vec::new();
    let mut pos: usize = 0;
    let ghost all = fields(face_str@);
    let ghost mut done: Seq<Seq<u8>> = Seq::empty();
    assert(all =~= done + fields_from(face_str@, 0));
    loop
        invariant_except_break
            all == done + fields_from(face_str@, pos as int),
        invariant
            pos <= face_str@.len(),
            all == fields(face_str@),
            done.len() == indices@.len(),
            forall|k: int|
                0 <= k < done.len() ==> (#[trigger] VertexIndices::parse_spec(
                    done[k],
                    pos_sz,
                    tex_sz,
                    norm_sz,
                )) == Some(indices@[k]),
            *faces == *old(faces),
        ensures
            all == done,
        decreases face_str@.len() - pos,
    {
        match next_field(face_str, pos) {
            None => {
                assert(all =~= done);
                break ;
            },
            Some((a, b)) => {
                let field = slice_subrange(face_str, a, b);
                assert(all[done.len() as int] == field@);
                match VertexIndices::parse(field, pos_sz, tex_sz, norm_sz) {
                    Some(v) => {
                        indices.push(v);
                    },
                    None => {
                        return false;
                    },
                }
                proof {
                    done = done.push(field@);
                    assert(all =~= done + fields_from(face_str@, b as int));
                }
                pos = b;
            },
        }
    }
    let ghost keys = Seq::new(
        all.len(),
        |k: int| VertexIndices::parse_spec(all[k], pos_sz, tex_sz, norm_sz)->0,
    );
    assert(keys =~= indices@);
    let n = indices.len();
    let face = if n == 1 {
        Face::Point(indices[0])
    } else if n == 2 {
        Face::Line(indices[0], indices[1])
    } else if n == 3 {
        Face::Triangle(indices[0], indices[1], indices[2])
    } else if n == 4 {
        Face::Quad(indices[0], indices[1], indices[2], indices[3])
    } else {
        Face::Polygon(indices)
    };
    faces.push(face);
    true
}

} // verus!
