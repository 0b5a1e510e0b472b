//! Export of faces to a mesh: triangulation and vertex deduplication.

use vstd::prelude::*;
use crate::obj::error::ObjError;
use crate::obj::face::{face_views, fan, Face, FaceView};
use crate::obj::index::{VertexIndices, MISSING_INDEX};
use crate::obj::index_map::IndexMap;
use crate::obj::mesh::{
    distinct_keys, export_keys, export_spec, first_key_error, key_error, keys_with,
    lemma_export_keys_error_stays, lemma_first_key_error_stays, lemma_index_of_unique,
    lemma_mesh_of_push, mesh_of, mesh_with_vertex, output_index, Mesh, MeshView,
};

verus! {

/// The entry of the index buffer for the vertex at place `rank`.
pub fn to_output_index(rank: usize) -> (r: u32)
    ensures
        r == output_index(rank as int),
{
    (rank as u64 % 0x1_0000_0000u64) as u32
}

/// Checks the key `vert` against the attribute arrays.
pub fn check_key(vert: &VertexIndices, pos_len: usize, tex_len: usize, normal_len: usize) -> (r:
    Result<(), ObjError>)
    ensures
        match r {
            Ok(()) => key_error(*vert, pos_len as nat, tex_len as nat, normal_len as nat) is None,
            Err(e) => key_error(*vert, pos_len as nat, tex_len as nat, normal_len as nat) == Some(
                e,
            ),
        },
{
    if vert.v >= pos_len / 3 {
        return Err(ObjError::FaceVertexOutOfBounds);
    }
    if tex_len > 0 && vert.vt != MISSING_INDEX && vert.vt >= tex_len / 2 {
        return Err(ObjError::FaceTexCoordOutOfBounds);
    }
    if normal_len > 0 && vert.vn != MISSING_INDEX && vert.vn >= normal_len / 3 {
        return Err(ObjError::FaceNormalOutOfBounds);
    }
    Ok(())
}

/// Adds one use of the vertex `vert` to `mesh`. A key that `index_map`
/// holds only adds its index to the index buffer. A new key is checked
/// against the attribute arrays; its position, and its texture coordinate
/// and normal where it has them, are appended, and it gets the next index.
///
/// On an error neither `mesh` nor `index_map` has changed.
pub fn add_vertex<T: Copy>(
    mesh: &mut Mesh<T>,
    index_map: &mut IndexMap,
    vert: &VertexIndices,
    pos: &[T],
    normal: &[T],
    tex_coord: &[T],
) -> (r: Result<(), ObjError>)
    requires
        old(index_map).wf(),
    ensures
        final(index_map).wf(),
        !old(index_map)@.contains(*vert) && vert.v >= pos@.len() / 3 ==> r == Err::<(), ObjError>(
            ObjError::FaceVertexOutOfBounds,
        ) && final(mesh).indices@ == old(mesh).indices@,
        match r {
            Ok(()) => {
                &&& old(index_map)@.contains(*vert) || key_error(
                    *vert,
                    pos@.len(),
                    tex_coord@.len(),
                    normal@.len(),
                ) is None
                &&& final(index_map)@ == keys_with(old(index_map)@, *vert)
                &&& final(mesh)@ == mesh_with_vertex(
                    old(mesh)@,
                    old(index_map)@,
                    *vert,
                    pos@,
                    tex_coord@,
                    normal@,
                )
            },
            Err(e) => {
                &&& !old(index_map)@.contains(*vert)
                &&& key_error(*vert, pos@.len(), tex_coord@.len(), normal@.len()) == Some(e)
                &&& final(index_map)@ == old(index_map)@
                &&& *final(mesh) == *old(mesh)
            },
        },
{
    match index_map.get(vert) {
        Some(i) => {
            proof {
                index_map.lemma_no_duplicates();
                lemma_index_of_unique(index_map@, *vert, i as int);
            }
            mesh.indices.push(to_output_index(i));
            Ok(())
        },
        None => {
            match check_key(vert, pos.len(), tex_coord.len(), normal.len()) {
                Err(e) => Err(e),
                Ok(()) => {
                    let v = vert.v;
                    mesh.positions.push(pos[v * 3]);
                    mesh.positions.push(pos[v * 3 + 1]);
                    mesh.positions.push(pos[v * 3 + 2]);
                    assert(mesh.positions@ =~= old(mesh).positions@ + pos@.subrange(
                        3 * v,
                        3 * v + 3,
                    ));
                    if tex_coord.len() > 0 && vert.vt != MISSING_INDEX {
                        let vt = vert.vt;
                        mesh.tex_coords.push(tex_coord[vt * 2]);
                        mesh.tex_coords.push(tex_coord[vt * 2 + 1]);
                        assert(mesh.tex_coords@ =~= old(mesh).tex_coords@ + tex_coord@.subrange(
                            2 * vt,
                            2 * vt + 2,
                        ));
                    } else {
                        assert(mesh.tex_coords@ =~= old(mesh).tex_coords@ + Seq::<T>::empty());
                    }
                    if normal.len() > 0 && vert.vn != MISSING_INDEX {
                        let vn = vert.vn;
                        mesh.normals.push(normal[vn * 3]);
                        mesh.normals.push(normal[vn * 3 + 1]);
                        mesh.normals.push(normal[vn * 3 + 2]);
                        assert(mesh.normals@ =~= old(mesh).normals@ + normal@.subrange(
                            3 * vn,
                            3 * vn + 3,
                        ));
                    } else {
                        assert(mesh.normals@ =~= old(mesh).normals@ + Seq::<T>::empty());
                    }
                    let next = index_map.insert(*vert);
                    mesh.indices.push(to_output_index(next));
                    Ok(())
                },
            }
        },
    }
}

/// Whether `mesh` and the keys `map` of its deduplication map are what the
/// face-vertex keys `keys`, none of them out of bounds, make of the
/// attribute arrays.
pub open spec fn exported<T>(
    mesh: MeshView<T>,
    map: Seq<VertexIndices>,
    keys: Seq<VertexIndices>,
    pos: Seq<T>,
    tex: Seq<T>,
    normal: Seq<T>,
    material_id: Option<usize>,
) -> bool {
    &&& mesh == mesh_of(pos, tex, normal, keys, material_id)
    &&& map == distinct_keys(keys)
    &&& forall|i: int|
        0 <= i < keys.len() ==> key_error(
            #[trigger] keys[i],
            pos.len(),
            tex.len(),
            normal.len(),
        ) is None
}

/// The first error of two runs of keys is that of the first run, or else
/// that of the second.
pub proof fn lemma_first_key_error_concat(
    x: Seq<VertexIndices>,
    y: Seq<VertexIndices>,
    pos_len: nat,
    tex_len: nat,
    normal_len: nat,
)
    ensures
        first_key_error(x + y, pos_len, tex_len, normal_len) == match first_key_error(
            x,
            pos_len,
            tex_len,
            normal_len,
        ) {
            Some(e) => Some(e),
            None => first_key_error(y, pos_len, tex_len, normal_len),
        },
    decreases y.len(),
{
    if y.len() == 0 {
        assert(x + y =~= x);
    } else {
        assert((x + y).drop_last() =~= x + y.drop_last());
        lemma_first_key_error_concat(x, y.drop_last(), pos_len, tex_len, normal_len);
    }
}

/// The first error of three keys.
pub proof fn lemma_first_key_error_triangle(
    a: VertexIndices,
    b: VertexIndices,
    c: VertexIndices,
    pos_len: nat,
    tex_len: nat,
    normal_len: nat,
)
    ensures
        first_key_error(seq![a, b, c], pos_len, tex_len, normal_len) == match key_error(
            a,
            pos_len,
            tex_len,
            normal_len,
        ) {
            Some(e) => Some(e),
            None => match key_error(b, pos_len, tex_len, normal_len) {
                Some(e) => Some(e),
                None => key_error(c, pos_len, tex_len, normal_len),
            },
        },
{
    let t = seq![a, b, c];
    assert(t.drop_last() =~= seq![a, b]);
    assert(seq![a, b].drop_last() =~= seq![a]);
    assert(seq![a].drop_last() =~= Seq::<VertexIndices>::empty());
    reveal_with_fuel(first_key_error, 4);
}

/// Adds one use of `vert` to a mesh that holds the keys `keys`.
fn add_key<T: Copy>(
    mesh: &mut Mesh<T>,
    index_map: &mut IndexMap,
    vert: &VertexIndices,
    pos: &[T],
    normal: &[T],
    tex_coord: &[T],
    Ghost(keys): Ghost<Seq<VertexIndices>>,
    Ghost(material_id): Ghost<Option<usize>>,
) -> (r: Result<(), ObjError>)
    requires
        old(index_map).wf(),
        exported(old(mesh)@, old(index_map)@, keys, pos@, tex_coord@, normal@, material_id),
    ensures
        final(index_map).wf(),
        match r {
            Ok(()) => {
                &&& key_error(*vert, pos@.len(), tex_coord@.len(), normal@.len()) is None
                &&& exported(
                    final(mesh)@,
                    final(index_map)@,
                    keys.push(*vert),
                    pos@,
                    tex_coord@,
                    normal@,
                    material_id,
                )
            },
            Err(e) => key_error(*vert, pos@.len(), tex_coord@.len(), normal@.len()) == Some(e),
        },
{
    proof {
        lemma_mesh_of_push(pos@, tex_coord@, normal@, keys, *vert, material_id);
        crate::obj::mesh::lemma_distinct_keys(keys);
        if keys.contains(*vert) {
            let i = choose|i: int| 0 <= i < keys.len() && keys[i] == *vert;
            assert(key_error(keys[i], pos@.len(), tex_coord@.len(), normal@.len()) is None);
        }
    }
    add_vertex(mesh, index_map, vert, pos, normal, tex_coord)
}

/// Adds the triangle `a b c` to a mesh that holds the keys `keys`.
fn add_triangle<T: Copy>(
    mesh: &mut Mesh<T>,
    index_map: &mut IndexMap,
    a: &VertexIndices,
    b: &VertexIndices,
    c: &VertexIndices,
    pos: &[T],
    normal: &[T],
    tex_coord: &[T],
    Ghost(keys): Ghost<Seq<VertexIndices>>,
    Ghost(material_id): Ghost<Option<usize>>,
) -> (r: Result<(), ObjError>)
    requires
        old(index_map).wf(),
        exported(old(mesh)@, old(index_map)@, keys, pos@, tex_coord@, normal@, material_id),
    ensures
        final(index_map).wf(),
        first_key_error(seq![*a, *b, *c], pos@.len(), tex_coord@.len(), normal@.len()) == match r {
            Ok(()) => None,
            Err(e) => Some(e),
        },
        r is Ok ==> exported(
            final(mesh)@,
            final(index_map)@,
            keys + seq![*a, *b, *c],
            pos@,
            tex_coord@,
            normal@,
            material_id,
        ),
{
    proof {
        lemma_first_key_error_triangle(
            *a,
            *b,
            *c,
            pos@.len(),
            tex_coord@.len(),
            normal@.len(),
        );
    }
    match add_key(mesh, index_map, a, pos, normal, tex_coord, Ghost(keys), Ghost(material_id)) {
        Err(e) => {
            return Err(e);
        },
        Ok(()) => {},
    }
    match add_key(
        mesh,
        index_map,
        b,
        pos,
        normal,
        tex_coord,
        Ghost(keys.push(*a)),
        Ghost(material_id),
    ) {
        Err(e) => {
            return Err(e);
        },
        Ok(()) => {},
    }
    match add_key(
        mesh,
        index_map,
        c,
        pos,
        normal,
        tex_coord,
        Ghost(keys.push(*a).push(*b)),
        Ghost(material_id),
    ) {
        Err(e) => {
            return Err(e);
        },
        Ok(()) => {},
    }
    assert(keys.push(*a).push(*b).push(*c) =~= keys + seq![*a, *b, *c]);
    Ok(())
}

/// Adds the triangles of `face` to a mesh that holds the keys `keys`.
fn add_face<T: Copy>(
    mesh: &mut Mesh<T>,
    index_map: &mut IndexMap,
    face: &Face,
    pos: &[T],
    normal: &[T],
    tex_coord: &[T],
    Ghost(keys): Ghost<Seq<VertexIndices>>,
    Ghost(material_id): Ghost<Option<usize>>,
) -> (r: Result<(), ObjError>)
    requires
        old(index_map).wf(),
        exported(old(mesh)@, old(index_map)@, keys, pos@, tex_coord@, normal@, material_id),
    ensures
        final(index_map).wf(),
        match r {
            Ok(()) => {
                &&& face@.well_formed()
                &&& first_key_error(
                    face@.triangles(),
                    pos@.len(),
                    tex_coord@.len(),
                    normal@.len(),
                ) is None
                &&& exported(
                    final(mesh)@,
                    final(index_map)@,
                    keys + face@.triangles(),
                    pos@,
                    tex_coord@,
                    normal@,
                    material_id,
                )
            },
            Err(e) => if face@.well_formed() {
                first_key_error(face@.triangles(), pos@.len(), tex_coord@.len(), normal@.len())
                    == Some(e)
            } else {
                e == ObjError::InvalidPolygon
            },
        },
{
    match face {
        Face::Point(_) => {
            assert(keys + face@.triangles() =~= keys);
            Ok(())
        },
        Face::Line(_, _) => {
            assert(keys + face@.triangles() =~= keys);
            Ok(())
        },
        Face::Triangle(a, b, c) => add_triangle(
            mesh,
            index_map,
            a,
            b,
            c,
            pos,
            normal,
            tex_coord,
            Ghost(keys),
            Ghost(material_id),
        ),
        Face::Quad(a, b, c, d) => {
            proof {
                lemma_first_key_error_concat(
                    seq![*a, *b, *c],
                    seq![*a, *c, *d],
                    pos@.len(),
                    tex_coord@.len(),
                    normal@.len(),
                );
                assert(seq![*a, *b, *c] + seq![*a, *c, *d] =~= face@.triangles());
            }
            match add_triangle(
                mesh,
                index_map,
                a,
                b,
                c,
                pos,
                normal,
                tex_coord,
                Ghost(keys),
                Ghost(material_id),
            ) {
                Err(e) => {
                    return Err(e);
                },
                Ok(()) => {},
            }
            match add_triangle(
                mesh,
                index_map,
                a,
                c,
                d,
                pos,
                normal,
                tex_coord,
                Ghost(keys + seq![*a, *b, *c]),
                Ghost(material_id),
            ) {
                Err(e) => {
                    return Err(e);
                },
                Ok(()) => {},
            }
            assert(keys + seq![*a, *b, *c] + seq![*a, *c, *d] =~= keys + face@.triangles());
            Ok(())
        },
        Face::Polygon(vs) => {
            let n = vs.len();
            if n < 3 {
                return Err(ObjError::InvalidPolygon);
            }
            let ghost all = fan(vs@);
            let mut t: usize = 0;
            assert(keys + all.take(0) =~= keys);
            while t < n - 2
                invariant
                    3 <= n == vs@.len(),
                    t <= n - 2,
                    all == fan(vs@),
                    face@ == FaceView::Polygon(vs@),
                    index_map.wf(),
                    first_key_error(
                        all.take(3 * t),
                        pos@.len(),
                        tex_coord@.len(),
                        normal@.len(),
                    ) is None,
                    exported(
                        mesh@,
                        index_map@,
                        keys + all.take(3 * t),
                        pos@,
                        tex_coord@,
                        normal@,
                        material_id,
                    ),
                decreases n - 2 - t,
            {
                let a = &vs[0];
                let b = &vs[t + 1];
                let c = &vs[t + 2];
                proof {
                    let tri = seq![*a, *b, *c];
                    assert(all.take(3 * t + 3) =~= all.take(3 * t) + tri);
                    lemma_first_key_error_concat(
                        all.take(3 * t),
                        tri,
                        pos@.len(),
                        tex_coord@.len(),
                        normal@.len(),
                    );
                    assert(keys + all.take(3 * t) + tri =~= keys + all.take(3 * t + 3));
                }
                match add_triangle(
                    mesh,
                    index_map,
                    a,
                    b,
                    c,
                    pos,
                    normal,
                    tex_coord,
                    Ghost(keys + all.take(3 * t)),
                    Ghost(material_id),
                ) {
                    Err(e) => {
                        proof {
                            lemma_first_key_error_stays(
                                all,
                                3 * t + 3,
                                pos@.len(),
                                tex_coord@.len(),
                                normal@.len(),
                            );
                        }
                        return Err(e);
                    },
                    Ok(()) => {},
                }
                t += 1;
            }
            assert(all.take(3 * t) =~= all);
            Ok(())
        },
    }
}

/// Exports a list of faces to a mesh: cuts each face into triangles and
/// gives each distinct face vertex one entry in the attribute arrays.
///
/// Faces are taken in order, and the first that cannot be exported decides
/// the error.
pub fn export_faces<T: Copy>(
    pos: &[T],
    tex_coords: &[T],
    normal: &[T],
    faces: &[Face],
    material_id: Option<usize>,
) -> (r: Result<Mesh<T>, ObjError>)
    ensures
        match r {
            Ok(mesh) => export_spec(pos@, tex_coords@, normal@, face_views(faces@), material_id)
                == Ok::<MeshView<T>, ObjError>(mesh@),
            Err(e) => export_spec(pos@, tex_coords@, normal@, face_views(faces@), material_id)
                == Err::<MeshView<T>, ObjError>(e),
        },
{
    let mut index_map = IndexMap::new();
    let mut mesh: Mesh<T> = Mesh::new(material_id);
    let ghost views = face_views(faces@);
    let ghost mut keys: Seq<VertexIndices> = Seq::empty();
    let mut i: usize = 0;
    proof {
        assert(views.take(0) =~= Seq::<FaceView>::empty());
        assert(mesh@ =~= mesh_of(pos@, tex_coords@, normal@, keys, material_id));
    }
    while i < faces.len()
        invariant
            i <= faces@.len(),
            views == face_views(faces@),
            index_map.wf(),
            export_keys(views.take(i as int), pos@.len(), tex_coords@.len(), normal@.len()) == Ok::<
                Seq<VertexIndices>,
                ObjError,
            >(keys),
            exported(mesh@, index_map@, keys, pos@, tex_coords@, normal@, material_id),
        decreases faces@.len() - i,
    {
        let face = &faces[i];
        proof {
            assert(views.take(i + 1).drop_last() =~= views.take(i as int));
            assert(views.take(i + 1).last() == face@);
        }
        match add_face(
            &mut mesh,
            &mut index_map,
            face,
            pos,
            normal,
            tex_coords,
            Ghost(keys),
            Ghost(material_id),
        ) {
            Err(e) => {
                proof {
                    lemma_export_keys_error_stays(
                        views,
                        i + 1,
                        pos@.len(),
                        tex_coords@.len(),
                        normal@.len(),
                    );
                }
                return Err(e);
            },
            Ok(()) => {},
        }
        proof {
            keys = keys + face@.triangles();
        }
        i += 1;
    }
    assert(views.take(i as int) =~= views);
    Ok(mesh)
}

} // verus!
