//! Properties of the export that hold for every input.

use vstd::prelude::*;
use crate::obj::error::ObjError;
use crate::obj::face::FaceView;
use crate::obj::index::VertexIndices;
use crate::obj::loader::{keyword_of, Keyword, LoaderState};
use crate::obj::mesh::{
    distinct_keys, export_keys, export_spec, first_key_error, gather_positions, key_error,
    keys_with, lemma_distinct_keys, lemma_export_keys_error_stays, lemma_first_key_error_stays,
    lemma_index_of_unique, mesh_of, output_index, position_of, MeshView,
};
use crate::obj::text::fields;

verus! {

/// Using one more key adds at most one distinct key and loses none.
pub proof fn lemma_keys_with(d: Seq<VertexIndices>, k: VertexIndices)
    ensures
        d.len() <= keys_with(d, k).len() <= d.len() + 1,
        d.contains(k) ==> keys_with(d, k) == d,
        keys_with(d, k).contains(k),
        forall|x: VertexIndices| d.contains(x) ==> keys_with(d, k).contains(x),
{
    if !d.contains(k) {
        assert(d.push(k)[d.len() as int] == k);
        assert forall|x: VertexIndices| d.contains(x) implies d.push(k).contains(x) by {
            let i = choose|i: int| 0 <= i < d.len() && d[i] == x;
            assert(d.push(k)[i] == x);
        }
    }
}

/// A face of four vertices is exported as six indices, which name at most
/// four distinct vertices.
pub proof fn lemma_quad_six_indices<T>(
    pos: Seq<T>,
    tex: Seq<T>,
    normal: Seq<T>,
    keys: Seq<VertexIndices>,
    material_id: Option<usize>,
)
    requires
        keys.len() == 4,
    ensures
        FaceView::from_keys(keys).triangles().len() == 6,
        distinct_keys(FaceView::from_keys(keys).triangles()).len() <= 4,
        match export_spec(pos, tex, normal, seq![FaceView::from_keys(keys)], material_id) {
            Ok(mesh) => {
                &&& mesh.indices.len() == 6
                &&& forall|i: int| 0 <= i < 6 ==> mesh.indices[i] < 4
            },
            Err(_) => true,
        },
{
    let a = keys[0];
    let b = keys[1];
    let c = keys[2];
    let d = keys[3];
    let face = FaceView::from_keys(keys);
    let tri = face.triangles();
    assert(tri =~= seq![a, b, c, a, c, d]);
    let k1 = seq![a];
    let k2 = seq![a, b];
    let k3 = seq![a, b, c];
    let k4 = seq![a, b, c, a];
    let k5 = seq![a, b, c, a, c];
    assert(k1.drop_last() =~= Seq::<VertexIndices>::empty());
    assert(k2.drop_last() =~= k1);
    assert(k3.drop_last() =~= k2);
    assert(k4.drop_last() =~= k3);
    assert(k5.drop_last() =~= k4);
    assert(tri.drop_last() =~= k5);
    assert(distinct_keys(Seq::<VertexIndices>::empty()) =~= Seq::<VertexIndices>::empty());
    lemma_keys_with(Seq::<VertexIndices>::empty(), a);
    lemma_keys_with(distinct_keys(k1), b);
    lemma_keys_with(distinct_keys(k2), c);
    lemma_keys_with(distinct_keys(k3), a);
    lemma_keys_with(distinct_keys(k4), c);
    lemma_keys_with(distinct_keys(k5), d);
    lemma_distinct_keys(k3);
    assert(k3[0] == a && k3.contains(a));
    lemma_distinct_keys(k4);
    assert(k4[2] == c && k4.contains(c));
    assert(distinct_keys(k1).len() == 1);
    assert(distinct_keys(tri).len() <= 4);
    let faces = seq![face];
    assert(faces.drop_last() =~= Seq::<FaceView>::empty());
    assert(faces.last() == face);
    assert(export_keys(Seq::<FaceView>::empty(), pos.len(), tex.len(), normal.len()) == Ok::<
        Seq<VertexIndices>,
        ObjError,
    >(Seq::<VertexIndices>::empty()));
    match export_spec(pos, tex, normal, faces, material_id) {
        Ok(mesh) => {
            assert(export_keys(faces, pos.len(), tex.len(), normal.len()) == Ok::<
                Seq<VertexIndices>,
                ObjError,
            >(Seq::<VertexIndices>::empty() + tri));
            assert(Seq::<VertexIndices>::empty() + tri =~= tri);
            assert(mesh == mesh_of(pos, tex, normal, tri, material_id));
            lemma_distinct_keys(tri);
            let dk = distinct_keys(tri);
            assert forall|i: int| 0 <= i < 6 implies mesh.indices[i] < 4 by {
                assert(tri.contains(tri[i]));
                assert(dk.contains(tri[i]));
                let r = dk.index_of(tri[i]);
                assert(0 <= r < 4);
                assert(output_index(r) == r);
            }
        },
        Err(_) => {},
    }
}

/// Two face vertices with the same key share one vertex of the mesh: the
/// key stands once among the distinct keys, and both uses name it by the
/// same index.
pub proof fn lemma_shared_key_shares_index<T>(
    pos: Seq<T>,
    tex: Seq<T>,
    normal: Seq<T>,
    keys: Seq<VertexIndices>,
    material_id: Option<usize>,
    i: int,
    j: int,
)
    requires
        0 <= i < keys.len(),
        0 <= j < keys.len(),
        keys[i] == keys[j],
    ensures
        mesh_of(pos, tex, normal, keys, material_id).indices[i] == mesh_of(
            pos,
            tex,
            normal,
            keys,
            material_id,
        ).indices[j],
        distinct_keys(keys).no_duplicates(),
        distinct_keys(keys).contains(keys[i]),
        distinct_keys(keys)[distinct_keys(keys).index_of(keys[i])] == keys[i],
{
    lemma_distinct_keys(keys);
    assert(keys.contains(keys[i]));
}

/// In a mesh whose keys are all in bounds, every distinct key has its three
/// position scalars at the place that its index names.
pub proof fn lemma_positions_by_rank<T>(pos: Seq<T>, d: Seq<VertexIndices>, r: int)
    requires
        forall|i: int| 0 <= i < d.len() ==> (#[trigger] d[i]).v * 3 + 2 < pos.len(),
        0 <= r < d.len(),
    ensures
        gather_positions(pos, d).len() == 3 * d.len(),
        gather_positions(pos, d).subrange(3 * r, 3 * r + 3) == position_of(pos, d[r]),
    decreases d.len(),
{
    let front = d.drop_last();
    lemma_positions_len(pos, front);
    if r < d.len() - 1 {
        lemma_positions_by_rank(pos, front, r);
        assert(gather_positions(pos, d).subrange(3 * r, 3 * r + 3) =~= gather_positions(
            pos,
            front,
        ).subrange(3 * r, 3 * r + 3));
    } else {
        assert(gather_positions(pos, d).subrange(3 * r, 3 * r + 3) =~= position_of(pos, d[r]));
    }
}

/// In a mesh whose keys are all in bounds, the position array holds three
/// scalars for each distinct key.
pub proof fn lemma_positions_len<T>(pos: Seq<T>, d: Seq<VertexIndices>)
    requires
        forall|i: int| 0 <= i < d.len() ==> (#[trigger] d[i]).v * 3 + 2 < pos.len(),
    ensures
        gather_positions(pos, d).len() == 3 * d.len(),
    decreases d.len(),
{
    if d.len() > 0 {
        lemma_positions_len(pos, d.drop_last());
    }
}

/// The keys of a run without error are each without error.
pub proof fn lemma_first_key_error_none(
    keys: Seq<VertexIndices>,
    pos_len: nat,
    tex_len: nat,
    normal_len: nat,
)
    requires
        first_key_error(keys, pos_len, tex_len, normal_len) is None,
    ensures
        forall|i: int|
            0 <= i < keys.len() ==> key_error(#[trigger] keys[i], pos_len, tex_len, normal_len)
                is None,
    decreases keys.len(),
{
    if keys.len() > 0 {
        lemma_first_key_error_none(keys.drop_last(), pos_len, tex_len, normal_len);
        assert forall|i: int| 0 <= i < keys.len() implies key_error(
            #[trigger] keys[i],
            pos_len,
            tex_len,
            normal_len,
        ) is None by {
            if i < keys.len() - 1 {
                assert(keys.drop_last()[i] == keys[i]);
            }
        }
    }
}

/// The keys of an export that succeeds are each without error.
pub proof fn lemma_export_keys_in_bounds(
    faces: Seq<FaceView>,
    pos_len: nat,
    tex_len: nat,
    normal_len: nat,
)
    requires
        export_keys(faces, pos_len, tex_len, normal_len) is Ok,
    ensures
        first_key_error(
            export_keys(faces, pos_len, tex_len, normal_len)->Ok_0,
            pos_len,
            tex_len,
            normal_len,
        ) is None,
    decreases faces.len(),
{
    if faces.len() > 0 {
        lemma_export_keys_in_bounds(faces.drop_last(), pos_len, tex_len, normal_len);
        crate::obj::export::lemma_first_key_error_concat(
            export_keys(faces.drop_last(), pos_len, tex_len, normal_len)->Ok_0,
            faces.last().triangles(),
            pos_len,
            tex_len,
            normal_len,
        );
    }
}

/// The shape of an exported mesh. The index buffer holds one entry for each
/// face vertex and the position array three scalars for each vertex. As
/// long as the vertices can be counted in 32 bits, every index names a
/// vertex of the mesh, the vertex it names is the one of its key, and every
/// vertex is named by some index: the indices run from 0 without a gap.
pub proof fn lemma_exported_mesh_shape<T>(
    pos: Seq<T>,
    tex: Seq<T>,
    normal: Seq<T>,
    faces: Seq<FaceView>,
    material_id: Option<usize>,
)
    requires
        export_spec(pos, tex, normal, faces, material_id) is Ok,
    ensures
        ({
            let mesh = export_spec(pos, tex, normal, faces, material_id)->Ok_0;
            let keys = export_keys(faces, pos.len(), tex.len(), normal.len())->Ok_0;
            let d = distinct_keys(keys);
            &&& mesh.indices.len() == keys.len()
            &&& mesh.positions.len() == 3 * d.len()
            &&& mesh.material_id == material_id
            &&& d.len() <= 0x1_0000_0000 ==> forall|i: int|
                0 <= i < keys.len() ==> {
                    &&& (#[trigger] mesh.indices[i]) < d.len()
                    &&& d[mesh.indices[i] as int] == keys[i]
                    &&& mesh.positions.subrange(
                        3 * mesh.indices[i],
                        3 * mesh.indices[i] + 3,
                    ) == position_of(pos, keys[i])
                }
            &&& d.len() <= 0x1_0000_0000 ==> forall|r: u32|
                r < d.len() ==> #[trigger] mesh.indices.contains(r)
        }),
{
    let mesh = export_spec(pos, tex, normal, faces, material_id)->Ok_0;
    let keys = export_keys(faces, pos.len(), tex.len(), normal.len())->Ok_0;
    let d = distinct_keys(keys);
    lemma_export_keys_in_bounds(faces, pos.len(), tex.len(), normal.len());
    lemma_first_key_error_none(keys, pos.len(), tex.len(), normal.len());
    lemma_distinct_keys(keys);
    assert forall|i: int| 0 <= i < d.len() implies (#[trigger] d[i]).v * 3 + 2 < pos.len() by {
        assert(d.contains(d[i]));
        assert(keys.contains(d[i]));
        let j = choose|j: int| 0 <= j < keys.len() && keys[j] == d[i];
        assert(key_error(keys[j], pos.len(), tex.len(), normal.len()) is None);
    }
    lemma_positions_len(pos, d);
    if d.len() <= 0x1_0000_0000 {
        assert forall|i: int| 0 <= i < keys.len() implies {
            &&& (#[trigger] mesh.indices[i]) < d.len()
            &&& d[mesh.indices[i] as int] == keys[i]
            &&& mesh.positions.subrange(3 * mesh.indices[i], 3 * mesh.indices[i] + 3)
                == position_of(pos, keys[i])
        } by {
            assert(keys.contains(keys[i]));
            assert(d.contains(keys[i]));
            let r = d.index_of(keys[i]);
            assert(0 <= r < d.len());
            assert(output_index(r) == r);
            lemma_positions_by_rank(pos, d, r);
        }
        assert forall|r: u32| r < d.len() implies #[trigger] mesh.indices.contains(r) by {
            assert(d.contains(d[r as int]));
            assert(keys.contains(d[r as int]));
            let i = choose|i: int| 0 <= i < keys.len() && keys[i] == d[r as int];
            lemma_index_of_unique(d, keys[i], r as int);
            assert(output_index(r as int) == r);
            assert(mesh.indices[i] == r);
        }
    }
}

/// A key whose position lies beyond the declared positions is refused with
/// `FaceVertexOutOfBounds`, whatever its other indices are.
pub proof fn lemma_position_out_of_bounds(
    k: VertexIndices,
    pos_len: nat,
    tex_len: nat,
    normal_len: nat,
)
    requires
        k.v >= pos_len / 3,
    ensures
        key_error(k, pos_len, tex_len, normal_len) == Some(ObjError::FaceVertexOutOfBounds),
{
}

/// Where the first thing that is wrong with a list of faces is a key whose
/// position lies beyond the declared positions, the export gives
/// `FaceVertexOutOfBounds` and no mesh.
pub proof fn lemma_export_position_out_of_bounds<T>(
    pos: Seq<T>,
    tex: Seq<T>,
    normal: Seq<T>,
    faces: Seq<FaceView>,
    material_id: Option<usize>,
    n: int,
    j: int,
)
    requires
        0 <= n < faces.len(),
        export_keys(faces.take(n), pos.len(), tex.len(), normal.len()) is Ok,
        faces[n].well_formed(),
        0 <= j < faces[n].triangles().len(),
        first_key_error(faces[n].triangles().take(j), pos.len(), tex.len(), normal.len()) is None,
        faces[n].triangles()[j].v >= pos.len() / 3,
    ensures
        export_spec(pos, tex, normal, faces, material_id) == Err::<MeshView<T>, ObjError>(
            ObjError::FaceVertexOutOfBounds,
        ),
{
    let tri = faces[n].triangles();
    assert(tri.take(j + 1).drop_last() =~= tri.take(j));
    assert(tri.take(j + 1).last() == tri[j]);
    lemma_first_key_error_stays(tri, j + 1, pos.len(), tex.len(), normal.len());
    assert(faces.take(n + 1).drop_last() =~= faces.take(n));
    assert(faces.take(n + 1).last() == faces[n]);
    lemma_export_keys_error_stays(faces, n + 1, pos.len(), tex.len(), normal.len());
}

/// An `o` or `g` line that finds no face gathered adds no model.
pub proof fn lemma_group_without_faces<T>(
    state: LoaderState<T>,
    line: Seq<u8>,
    reading: Option<Seq<T>>,
)
    requires
        fields(line).len() > 0,
        keyword_of(fields(line)[0]) == Keyword::Group,
        state.faces.len() == 0,
    ensures
        match state.step(line, reading) {
            Ok(next) => next.models == state.models && next.faces.len() == 0,
            Err(e) => e == ObjError::InvalidObjectName,
        },
{
}

/// Every step adds at most one model, and only an `o` or `g` line that finds
/// faces gathered adds one.
pub proof fn lemma_step_models<T>(state: LoaderState<T>, line: Seq<u8>, reading: Option<Seq<T>>)
    requires
        state.step(line, reading) is Ok,
    ensures
        ({
            let next = state.step(line, reading)->Ok_0;
            if fields(line).len() > 0 && keyword_of(fields(line)[0]) == Keyword::Group
                && state.faces.len() > 0 {
                next.models.len() == state.models.len() + 1 && next.models.drop_last()
                    == state.models
            } else {
                next.models == state.models
            }
        }),
{
    let next = state.step(line, reading)->Ok_0;
    if fields(line).len() > 0 && keyword_of(fields(line)[0]) == Keyword::Group && state.faces.len()
        > 0 {
        assert(next.models.drop_last() =~= state.models);
    }
}

} // verus!
