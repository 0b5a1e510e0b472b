//! Meshes and the model of how faces become a mesh.

use vstd::prelude::*;
use crate::obj::error::ObjError;
use crate::obj::face::FaceView;
use crate::obj::index::{VertexIndices, MISSING_INDEX};

verus! {

/// Flat vertex attributes and the triangles that index them. `positions`
/// and `normals` hold three scalars for each vertex, `tex_coords` two;
/// `indices` holds three entries for each triangle.
#[derive(Debug, Clone)]
pub struct Mesh<T> {
    pub positions: Vec<T>,
    pub vertices: Vec<T>,
    pub normals: Vec<T>,
    pub tex_coords: Vec<T>,
    pub indices: Vec<u32>,
    pub vertex_color: Vec<T>,
    pub material_id: Option<usize>,
}

/// The mathematical value of a [`Mesh`].
#[verifier::ext_equal]
pub ghost struct MeshView<T> {
    pub positions: Seq<T>,
    pub vertices: Seq<T>,
    pub normals: Seq<T>,
    pub tex_coords: Seq<T>,
    pub indices: Seq<u32>,
    pub vertex_color: Seq<T>,
    pub material_id: Option<usize>,
}

impl<T> View for Mesh<T> {
    type V = MeshView<T>;

    open spec fn view(&self) -> MeshView<T> {
        MeshView {
            positions: self.positions@,
            vertices: self.vertices@,
            normals: self.normals@,
            tex_coords: self.tex_coords@,
            indices: self.indices@,
            vertex_color: self.vertex_color@,
            material_id: self.material_id,
        }
    }
}

impl<T> MeshView<T> {
    /// The mesh without vertices and triangles.
    pub open spec fn empty(material_id: Option<usize>) -> MeshView<T> {
        MeshView {
            positions: Seq::empty(),
            vertices: Seq::empty(),
            normals: Seq::empty(),
            tex_coords: Seq::empty(),
            indices: Seq::empty(),
            vertex_color: Seq::empty(),
            material_id,
        }
    }
}

impl<T> Mesh<T> {
    /// A mesh without vertices and triangles.
    pub fn new(material_id: Option<usize>) -> (r: Self)
        ensures
            r@ == MeshView::<T>::empty(material_id),
    {
        Mesh {
            positions: Vec::new(),
            vertices: Vec::new(),
            normals: Vec::new(),
            tex_coords: Vec::new(),
            indices: Vec::new(),
            vertex_color: Vec::new(),
            material_id,
        }
    }
}

impl<T> Default for Mesh<T> {
    fn default() -> (r: Self)
        ensures
            r@ == MeshView::<T>::empty(None),
    {
        Mesh::new(None)
    }
}

/// A named mesh.
#[derive(Debug, Clone)]
pub struct Model<T> {
    pub name: String,
    pub mesh: Mesh<T>,
}

/// The mathematical value of a [`Model`].
#[verifier::ext_equal]
pub ghost struct ModelView<T> {
    pub name: Seq<char>,
    pub mesh: MeshView<T>,
}

impl<T> View for Model<T> {
    type V = ModelView<T>;

    open spec fn view(&self) -> ModelView<T> {
        ModelView { name: self.name@, mesh: self.mesh@ }
    }
}

impl<T> Model<T> {
    /// A model of the given name and mesh.
    pub fn new(name: String, mesh: Mesh<T>) -> (r: Self)
        ensures
            r.name == name,
            r.mesh == mesh,
    {
        Model { name, mesh }
    }
}

/// Whether the key `k` has a texture coordinate to export, given how many
/// texture scalars were declared.
pub open spec fn has_tex_coord(k: VertexIndices, tex_len: nat) -> bool {
    tex_len > 0 && k.vt != MISSING_INDEX
}

/// Whether the key `k` has a normal to export, given how many normal
/// scalars were declared.
pub open spec fn has_normal(k: VertexIndices, normal_len: nat) -> bool {
    normal_len > 0 && k.vn != MISSING_INDEX
}

/// Why the key `k` cannot be exported against attribute arrays of the given
/// lengths, if it cannot. The position is checked first, then the texture
/// coordinate, then the normal; an index is out of bounds when the last
/// scalar of its element lies beyond the array.
pub open spec fn key_error(k: VertexIndices, pos_len: nat, tex_len: nat, normal_len: nat) -> Option<
    ObjError,
> {
    if k.v * 3 + 2 >= pos_len {
        Some(ObjError::FaceVertexOutOfBounds)
    } else if has_tex_coord(k, tex_len) && k.vt * 2 + 1 >= tex_len {
        Some(ObjError::FaceTexCoordOutOfBounds)
    } else if has_normal(k, normal_len) && k.vn * 3 + 2 >= normal_len {
        Some(ObjError::FaceNormalOutOfBounds)
    } else {
        None
    }
}

/// The error of the first key of `keys` that has one.
pub open spec fn first_key_error(
    keys: Seq<VertexIndices>,
    pos_len: nat,
    tex_len: nat,
    normal_len: nat,
) -> Option<ObjError>
    decreases keys.len(),
{
    if keys.len() == 0 {
        None
    } else {
        match first_key_error(keys.drop_last(), pos_len, tex_len, normal_len) {
            Some(e) => Some(e),
            None => key_error(keys.last(), pos_len, tex_len, normal_len),
        }
    }
}

/// The three position scalars of the key `k`.
pub open spec fn position_of<T>(pos: Seq<T>, k: VertexIndices) -> Seq<T> {
    pos.subrange(3 * k.v, 3 * k.v + 3)
}

/// The two texture scalars of the key `k`, or nothing when it has none.
pub open spec fn tex_coord_of<T>(tex: Seq<T>, k: VertexIndices) -> Seq<T> {
    if has_tex_coord(k, tex.len()) {
        tex.subrange(2 * k.vt, 2 * k.vt + 2)
    } else {
        Seq::empty()
    }
}

/// The three normal scalars of the key `k`, or nothing when it has none.
pub open spec fn normal_of<T>(normal: Seq<T>, k: VertexIndices) -> Seq<T> {
    if has_normal(k, normal.len()) {
        normal.subrange(3 * k.vn, 3 * k.vn + 3)
    } else {
        Seq::empty()
    }
}

/// The keys of `keys` without repetition, each where it first occurs.
pub open spec fn distinct_keys(keys: Seq<VertexIndices>) -> Seq<VertexIndices>
    decreases keys.len(),
{
    if keys.len() == 0 {
        Seq::empty()
    } else {
        keys_with(distinct_keys(keys.drop_last()), keys.last())
    }
}

/// The distinct keys `d` after the key `k` was used: `k` is appended unless
/// `d` holds it.
pub open spec fn keys_with(d: Seq<VertexIndices>, k: VertexIndices) -> Seq<VertexIndices> {
    if d.contains(k) {
        d
    } else {
        d.push(k)
    }
}

/// The positions of the keys `d`, one after the other.
pub open spec fn gather_positions<T>(pos: Seq<T>, d: Seq<VertexIndices>) -> Seq<T>
    decreases d.len(),
{
    if d.len() == 0 {
        Seq::empty()
    } else {
        gather_positions(pos, d.drop_last()) + position_of(pos, d.last())
    }
}

/// The texture coordinates of those keys of `d` that have one, one after
/// the other.
pub open spec fn gather_tex_coords<T>(tex: Seq<T>, d: Seq<VertexIndices>) -> Seq<T>
    decreases d.len(),
{
    if d.len() == 0 {
        Seq::empty()
    } else {
        gather_tex_coords(tex, d.drop_last()) + tex_coord_of(tex, d.last())
    }
}

/// The normals of those keys of `d` that have one, one after the other.
pub open spec fn gather_normals<T>(normal: Seq<T>, d: Seq<VertexIndices>) -> Seq<T>
    decreases d.len(),
{
    if d.len() == 0 {
        Seq::empty()
    } else {
        gather_normals(normal, d.drop_last()) + normal_of(normal, d.last())
    }
}

/// The entry of the index buffer for the vertex at place `rank` among the
/// distinct keys: `rank` itself as long as it fits in 32 bits, its low 32
/// bits beyond.
pub open spec fn output_index(rank: int) -> u32 {
    (rank % 0x1_0000_0000) as u32
}

/// The mesh that the face-vertex keys `keys`, three for each triangle, make
/// of the declared attributes. Each distinct key becomes one vertex, placed
/// where the key was first used; the index buffer names, for each key, the
/// place of its vertex.
pub open spec fn mesh_of<T>(
    pos: Seq<T>,
    tex: Seq<T>,
    normal: Seq<T>,
    keys: Seq<VertexIndices>,
    material_id: Option<usize>,
) -> MeshView<T> {
    let d = distinct_keys(keys);
    MeshView {
        positions: gather_positions(pos, d),
        vertices: Seq::empty(),
        normals: gather_normals(normal, d),
        tex_coords: gather_tex_coords(tex, d),
        indices: Seq::new(keys.len(), |i: int| output_index(d.index_of(keys[i]))),
        vertex_color: Seq::empty(),
        material_id,
    }
}

/// The mesh `m`, whose distinct keys are `d`, after one more use of the key
/// `k`. A key that `d` holds only adds its index; a new key adds its
/// attributes and the next index.
pub open spec fn mesh_with_vertex<T>(
    m: MeshView<T>,
    d: Seq<VertexIndices>,
    k: VertexIndices,
    pos: Seq<T>,
    tex: Seq<T>,
    normal: Seq<T>,
) -> MeshView<T> {
    if d.contains(k) {
        MeshView { indices: m.indices.push(output_index(d.index_of(k))), ..m }
    } else {
        MeshView {
            positions: m.positions + position_of(pos, k),
            tex_coords: m.tex_coords + tex_coord_of(tex, k),
            normals: m.normals + normal_of(normal, k),
            indices: m.indices.push(output_index(d.len() as int)),
            ..m
        }
    }
}

/// The keys that the faces `faces` emit, three for each triangle, or the
/// error of the first face that cannot be exported: a polygon of fewer than
/// three vertices, or a key that is out of bounds.
pub open spec fn export_keys(
    faces: Seq<FaceView>,
    pos_len: nat,
    tex_len: nat,
    normal_len: nat,
) -> Result<Seq<VertexIndices>, ObjError>
    decreases faces.len(),
{
    if faces.len() == 0 {
        Ok(Seq::empty())
    } else {
        match export_keys(faces.drop_last(), pos_len, tex_len, normal_len) {
            Err(e) => Err(e),
            Ok(keys) => {
                let face = faces.last();
                if !face.well_formed() {
                    Err(ObjError::InvalidPolygon)
                } else {
                    match first_key_error(face.triangles(), pos_len, tex_len, normal_len) {
                        Some(e) => Err(e),
                        None => Ok(keys + face.triangles()),
                    }
                }
            },
        }
    }
}

/// The mesh that the faces `faces` make of the declared attributes, or why
/// they make none.
pub open spec fn export_spec<T>(
    pos: Seq<T>,
    tex: Seq<T>,
    normal: Seq<T>,
    faces: Seq<FaceView>,
    material_id: Option<usize>,
) -> Result<MeshView<T>, ObjError> {
    match export_keys(faces, pos.len(), tex.len(), normal.len()) {
        Ok(keys) => Ok(mesh_of(pos, tex, normal, keys, material_id)),
        Err(e) => Err(e),
    }
}

/// In a sequence without repetition, a value is found where it stands.
pub proof fn lemma_index_of_unique(d: Seq<VertexIndices>, k: VertexIndices, j: int)
    requires
        d.no_duplicates(),
        0 <= j < d.len(),
        d[j] == k,
    ensures
        d.index_of(k) == j,
{
}

/// The distinct keys hold each key of `keys` once and no other.
pub proof fn lemma_distinct_keys(keys: Seq<VertexIndices>)
    ensures
        distinct_keys(keys).no_duplicates(),
        forall|k: VertexIndices| distinct_keys(keys).contains(k) <==> keys.contains(k),
        distinct_keys(keys).len() <= keys.len(),
    decreases keys.len(),
{
    if keys.len() > 0 {
        let front = keys.drop_last();
        let d = distinct_keys(front);
        lemma_distinct_keys(front);
        assert forall|k: VertexIndices| distinct_keys(keys).contains(k) <==> keys.contains(
            k,
        ) by {
            if keys.contains(k) {
                let i = choose|i: int| 0 <= i < keys.len() && keys[i] == k;
                if i < front.len() {
                    assert(front[i] == k);
                    assert(front.contains(k));
                    assert(d.contains(k));
                    let j = choose|j: int| 0 <= j < d.len() && d[j] == k;
                    assert(distinct_keys(keys)[j] == k);
                } else {
                    if d.contains(k) {
                    } else {
                        assert(distinct_keys(keys)[d.len() as int] == k);
                    }
                }
            }
            if distinct_keys(keys).contains(k) {
                let j = choose|j: int|
                    0 <= j < distinct_keys(keys).len() && distinct_keys(keys)[j] == k;
                if j < d.len() {
                    assert(d[j] == k);
                    assert(d.contains(k));
                    assert(front.contains(k));
                    let i = choose|i: int| 0 <= i < front.len() && front[i] == k;
                    assert(keys[i] == k);
                } else {
                    assert(keys[keys.len() - 1] == k);
                }
            }
        }
    }
}

/// Adding one key to the keys of a mesh changes the mesh as
/// [`mesh_with_vertex`] says.
pub proof fn lemma_mesh_of_push<T>(
    pos: Seq<T>,
    tex: Seq<T>,
    normal: Seq<T>,
    keys: Seq<VertexIndices>,
    k: VertexIndices,
    material_id: Option<usize>,
)
    ensures
        distinct_keys(keys.push(k)) == keys_with(distinct_keys(keys), k),
        mesh_of(pos, tex, normal, keys.push(k), material_id) == mesh_with_vertex(
            mesh_of(pos, tex, normal, keys, material_id),
            distinct_keys(keys),
            k,
            pos,
            tex,
            normal,
        ),
{
    let more = keys.push(k);
    let d = distinct_keys(keys);
    let d2 = distinct_keys(more);
    assert(more.drop_last() =~= keys);
    assert(d2 == keys_with(d, k));
    lemma_distinct_keys(keys);
    lemma_distinct_keys(more);
    let before = mesh_of(pos, tex, normal, keys, material_id);
    let after = mesh_of(pos, tex, normal, more, material_id);
    let want = mesh_with_vertex(before, d, k, pos, tex, normal);
    assert(after.indices =~= want.indices) by {
        assert forall|i: int| 0 <= i < more.len() implies after.indices[i] == want.indices[i] by {
            if i < keys.len() {
                assert(keys.contains(keys[i]));
                assert(d.contains(keys[i]));
                let j = d.index_of(keys[i]);
                assert(d2[j] == keys[i]);
                lemma_index_of_unique(d2, keys[i], j);
            } else {
                if d.contains(k) {
                } else {
                    lemma_index_of_unique(d2, k, d.len() as int);
                }
            }
        }
    }
    if !d.contains(k) {
        assert(d2.drop_last() =~= d);
    }
}

/// Once a face has failed, the faces that follow do not change the error.
pub proof fn lemma_export_keys_error_stays(
    faces: Seq<FaceView>,
    n: int,
    pos_len: nat,
    tex_len: nat,
    normal_len: nat,
)
    requires
        0 <= n <= faces.len(),
        export_keys(faces.take(n), pos_len, tex_len, normal_len) is Err,
    ensures
        export_keys(faces, pos_len, tex_len, normal_len) == export_keys(
            faces.take(n),
            pos_len,
            tex_len,
            normal_len,
        ),
    decreases faces.len() - n,
{
    if n == faces.len() {
        assert(faces.take(n) =~= faces);
    } else {
        assert(faces.drop_last().take(n) =~= faces.take(n));
        lemma_export_keys_error_stays(faces.drop_last(), n, pos_len, tex_len, normal_len);
    }
}

/// Once a key has failed, the keys that follow do not change the error.
pub proof fn lemma_first_key_error_stays(
    keys: Seq<VertexIndices>,
    n: int,
    pos_len: nat,
    tex_len: nat,
    normal_len: nat,
)
    requires
        0 <= n <= keys.len(),
        first_key_error(keys.take(n), pos_len, tex_len, normal_len) is Some,
    ensures
        first_key_error(keys, pos_len, tex_len, normal_len) == first_key_error(
            keys.take(n),
            pos_len,
            tex_len,
            normal_len,
        ),
    decreases keys.len() - n,
{
    if n == keys.len() {
        assert(keys.take(n) =~= keys);
    } else {
        assert(keys.drop_last().take(n) =~= keys.take(n));
        lemma_first_key_error_stays(keys.drop_last(), n, pos_len, tex_len, normal_len);
    }
}

} // verus!
