use scop::obj::error::ObjError;
use scop::obj::export::{add_vertex, check_key, export_faces, to_output_index};
use scop::obj::face::{parse_face, Face};
use scop::obj::index::{VertexIndices, MISSING_INDEX};
use scop::obj::index_map::IndexMap;
use scop::obj::mesh::{Mesh, Model};

fn key(v: usize, vt: usize, vn: usize) -> VertexIndices {
    VertexIndices { v, vt, vn }
}

fn only(v: usize) -> VertexIndices {
    key(v, MISSING_INDEX, MISSING_INDEX)
}

fn square() -> Vec<f32> {
    vec![0.0, 0.0, 0.0, 1.0, 0.0, 0.0, 1.0, 1.0, 0.0, 0.0, 1.0, 0.0]
}

#[test]
fn quad_gives_six_indices_over_four_vertices() {
    let pos = square();
    let faces = vec![Face::Quad(only(0), only(1), only(2), only(3))];
    let mesh = export_faces::<f32>(&pos, &[], &[], &faces, None).unwrap();
    assert_eq!(mesh.indices, vec![0, 1, 2, 0, 2, 3]);
    assert_eq!(mesh.positions, pos);
    assert!(mesh.tex_coords.is_empty());
    assert!(mesh.normals.is_empty());
    assert!(mesh.vertices.is_empty());
    assert!(mesh.vertex_color.is_empty());
    assert_eq!(mesh.material_id, None);
}

#[test]
fn quad_with_repeated_corners_has_fewer_vertices() {
    let pos = square();
    let faces = vec![Face::Quad(only(2), only(2), only(1), only(2))];
    let mesh = export_faces::<f32>(&pos, &[], &[], &faces, Some(3)).unwrap();
    assert_eq!(mesh.indices, vec![0, 0, 1, 0, 1, 0]);
    assert_eq!(mesh.positions, vec![1.0, 1.0, 0.0, 1.0, 0.0, 0.0]);
    assert_eq!(mesh.material_id, Some(3));
}

#[test]
fn shared_key_is_exported_once() {
    let pos = square();
    let faces = vec![
        Face::Triangle(only(3), only(1), only(0)),
        Face::Triangle(only(1), only(2), only(3)),
    ];
    let mesh = export_faces::<f32>(&pos, &[], &[], &faces, None).unwrap();
    assert_eq!(mesh.indices, vec![0, 1, 2, 1, 3, 0]);
    assert_eq!(
        mesh.positions,
        vec![0.0, 1.0, 0.0, 1.0, 0.0, 0.0, 0.0, 0.0, 0.0, 1.0, 1.0, 0.0]
    );
}

#[test]
fn keys_that_differ_in_one_slot_are_different_vertices() {
    let pos = square();
    let tex = vec![0.0f32, 0.0, 1.0, 1.0];
    let normal = vec![0.0f32, 0.0, 1.0, 0.0, 1.0, 0.0];
    let faces = vec![Face::Triangle(key(0, 0, 0), key(0, 1, 0), key(0, 1, 1))];
    let mesh = export_faces(&pos, &tex, &normal, &faces, None).unwrap();
    assert_eq!(mesh.indices, vec![0, 1, 2]);
    assert_eq!(mesh.positions, vec![0.0; 9]);
    assert_eq!(mesh.tex_coords, vec![0.0, 0.0, 1.0, 1.0, 1.0, 1.0]);
    assert_eq!(mesh.normals, vec![0.0, 0.0, 1.0, 0.0, 0.0, 1.0, 0.0, 1.0, 0.0]);
}

#[test]
fn missing_slots_and_empty_arrays_export_no_attribute() {
    let pos = square();
    let tex = vec![0.5f32, 0.25];
    let faces = vec![Face::Triangle(key(0, 0, 5), key(1, MISSING_INDEX, 7), key(2, 0, 9))];
    let mesh = export_faces(&pos, &tex, &[], &faces, None).unwrap();
    assert_eq!(mesh.indices, vec![0, 1, 2]);
    assert_eq!(mesh.tex_coords, vec![0.5, 0.25, 0.5, 0.25]);
    assert!(mesh.normals.is_empty());
}

#[test]
fn points_and_lines_are_not_exported() {
    let pos = square();
    let faces = vec![
        Face::Point(only(0)),
        Face::Line(only(0), only(1)),
        Face::Point(only(100)),
    ];
    let mesh = export_faces::<f32>(&pos, &[], &[], &faces, None).unwrap();
    assert!(mesh.indices.is_empty());
    assert!(mesh.positions.is_empty());
}

#[test]
fn polygon_is_fanned_around_its_first_vertex() {
    let pos: Vec<f32> = (0..18).map(|i| i as f32).collect();
    let faces = vec![Face::Polygon(vec![only(0), only(1), only(2), only(3), only(4), only(5)])];
    let mesh = export_faces::<f32>(&pos, &[], &[], &faces, None).unwrap();
    assert_eq!(mesh.indices, vec![0, 1, 2, 0, 2, 3, 0, 3, 4, 0, 4, 5]);
    assert_eq!(mesh.positions, pos);
}

#[test]
fn polygon_of_three_or_four_is_a_triangle_or_quad() {
    let pos = square();
    let faces = vec![Face::Polygon(vec![only(0), only(1), only(2)])];
    let mesh = export_faces::<f32>(&pos, &[], &[], &faces, None).unwrap();
    assert_eq!(mesh.indices, vec![0, 1, 2]);
    let faces = vec![Face::Polygon(vec![only(0), only(1), only(2), only(3)])];
    let mesh = export_faces::<f32>(&pos, &[], &[], &faces, None).unwrap();
    assert_eq!(mesh.indices, vec![0, 1, 2, 0, 2, 3]);
}

#[test]
fn polygon_of_fewer_than_three_vertices_is_invalid() {
    let pos = square();
    for n in 0..3 {
        let faces = vec![Face::Polygon((0..n).map(only).collect())];
        let r = export_faces::<f32>(&pos, &[], &[], &faces, None);
        assert_eq!(r.err(), Some(ObjError::InvalidPolygon));
    }
}

#[test]
fn position_out_of_bounds_is_refused() {
    let pos = square();
    let faces = vec![Face::Triangle(only(0), only(1), only(4))];
    let r = export_faces::<f32>(&pos, &[], &[], &faces, None);
    assert_eq!(r.err(), Some(ObjError::FaceVertexOutOfBounds));
    let short = vec![0.0f32; 11];
    let faces = vec![Face::Triangle(only(0), only(1), only(3))];
    let r = export_faces::<f32>(&short, &[], &[], &faces, None);
    assert_eq!(r.err(), Some(ObjError::FaceVertexOutOfBounds));
    let faces = vec![Face::Triangle(only(0), only(MISSING_INDEX), only(1))];
    let r = export_faces::<f32>(&pos, &[], &[], &faces, None);
    assert_eq!(r.err(), Some(ObjError::FaceVertexOutOfBounds));
}

#[test]
fn add_vertex_leaves_the_mesh_alone_on_an_error() {
    let pos = square();
    let mut mesh: Mesh<f32> = Mesh::new(None);
    let mut map = IndexMap::new();
    assert_eq!(add_vertex(&mut mesh, &mut map, &only(1), &pos, &[], &[]), Ok(()));
    assert_eq!(
        add_vertex(&mut mesh, &mut map, &only(4), &pos, &[], &[]),
        Err(ObjError::FaceVertexOutOfBounds)
    );
    assert_eq!(mesh.indices, vec![0]);
    assert_eq!(mesh.positions, vec![1.0, 0.0, 0.0]);
    assert_eq!(map.len(), 1);
    assert_eq!(add_vertex(&mut mesh, &mut map, &only(1), &pos, &[], &[]), Ok(()));
    assert_eq!(add_vertex(&mut mesh, &mut map, &only(3), &pos, &[], &[]), Ok(()));
    assert_eq!(mesh.indices, vec![0, 0, 1]);
    assert_eq!(mesh.positions, vec![1.0, 0.0, 0.0, 0.0, 1.0, 0.0]);
    assert_eq!(map.len(), 2);
    assert_eq!(map.get(&only(1)), Some(0));
    assert_eq!(map.get(&only(3)), Some(1));
    assert_eq!(map.get(&only(4)), None);
}

#[test]
fn texture_and_normal_indices_are_checked_after_the_position() {
    let pos = square();
    let tex = vec![0.0f32, 0.0, 1.0, 1.0];
    let normal = vec![0.0f32, 0.0, 1.0];
    let faces = vec![Face::Triangle(key(0, 0, 0), key(1, 2, 0), key(2, 0, 0))];
    let r = export_faces(&pos, &tex, &normal, &faces, None);
    assert_eq!(r.err(), Some(ObjError::FaceTexCoordOutOfBounds));
    let faces = vec![Face::Triangle(key(0, 0, 0), key(1, 1, 1), key(2, 0, 0))];
    let r = export_faces(&pos, &tex, &normal, &faces, None);
    assert_eq!(r.err(), Some(ObjError::FaceNormalOutOfBounds));
    let faces = vec![Face::Triangle(key(0, 0, 0), key(9, 9, 9), key(2, 0, 0))];
    let r = export_faces(&pos, &tex, &normal, &faces, None);
    assert_eq!(r.err(), Some(ObjError::FaceVertexOutOfBounds));
    let faces = vec![Face::Triangle(key(0, 0, 0), key(1, 9, 9), key(2, 0, 0))];
    let r = export_faces(&pos, &tex, &normal, &faces, None);
    assert_eq!(r.err(), Some(ObjError::FaceTexCoordOutOfBounds));
    assert_eq!(check_key(&key(3, 1, 0), 12, 4, 3), Ok(()));
    assert_eq!(check_key(&key(3, 1, 0), 12, 3, 3), Err(ObjError::FaceTexCoordOutOfBounds));
    assert_eq!(check_key(&key(3, 1, 0), 12, 4, 2), Err(ObjError::FaceNormalOutOfBounds));
    assert_eq!(check_key(&key(3, 1, 0), 12, 0, 0), Ok(()));
    assert_eq!(check_key(&key(usize::MAX / 3 + 1, 1, 0), 12, 0, 0), Err(ObjError::FaceVertexOutOfBounds));
}

#[test]
fn the_first_face_that_fails_decides_the_error() {
    let pos = square();
    let faces = vec![
        Face::Triangle(only(0), only(1), only(2)),
        Face::Polygon(vec![only(0)]),
        Face::Triangle(only(0), only(1), only(9)),
    ];
    let r = export_faces::<f32>(&pos, &[], &[], &faces, None);
    assert_eq!(r.err(), Some(ObjError::InvalidPolygon));
    let faces = vec![
        Face::Triangle(only(0), only(1), only(9)),
        Face::Polygon(vec![only(0)]),
    ];
    let r = export_faces::<f32>(&pos, &[], &[], &faces, None);
    assert_eq!(r.err(), Some(ObjError::FaceVertexOutOfBounds));
}

#[test]
fn output_index_is_the_rank_in_32_bits() {
    assert_eq!(to_output_index(0), 0);
    assert_eq!(to_output_index(77), 77);
    assert_eq!(to_output_index(u32::MAX as usize), u32::MAX);
    assert_eq!(to_output_index(u32::MAX as usize + 1), 0);
    assert_eq!(to_output_index(u32::MAX as usize + 8), 7);
}

#[test]
fn parse_face_sorts_faces_by_their_number_of_vertices() {
    let mut faces: Vec<Face> = Vec::new();
    assert!(parse_face(b" 1", &mut faces, 8, 8, 8));
    assert!(parse_face(b" 1 2", &mut faces, 8, 8, 8));
    assert!(parse_face(b" 1 2 3", &mut faces, 8, 8, 8));
    assert!(parse_face(b" 1/1/1 2/2/2 3/3/3 -1/-1/-1 ", &mut faces, 8, 7, 6));
    assert!(parse_face(b"1 2 3 4 5", &mut faces, 8, 8, 8));
    assert!(parse_face(b"", &mut faces, 8, 8, 8));
    assert_eq!(faces.len(), 6);
    assert!(matches!(faces[0], Face::Point(a) if a == only(0)));
    assert!(matches!(faces[1], Face::Line(a, b) if a == only(0) && b == only(1)));
    assert!(matches!(faces[2], Face::Triangle(a, b, c) if a == only(0) && b == only(1) && c == only(2)));
    assert!(matches!(
        faces[3],
        Face::Quad(a, b, c, d)
            if a == key(0, 0, 0) && b == key(1, 1, 1) && c == key(2, 2, 2) && d == key(7, 6, 5)
    ));
    assert!(matches!(&faces[4], Face::Polygon(vs) if vs.len() == 5 && vs[4] == only(4)));
    assert!(matches!(&faces[5], Face::Polygon(vs) if vs.is_empty()));
}

#[test]
fn parse_face_leaves_the_list_alone_on_a_bad_vertex() {
    let mut faces: Vec<Face> = Vec::new();
    assert!(parse_face(b"1 2 3", &mut faces, 8, 8, 8));
    assert!(!parse_face(b"1 2 x", &mut faces, 8, 8, 8));
    assert!(!parse_face(b"1/2/3/4 2 3", &mut faces, 8, 8, 8));
    assert_eq!(faces.len(), 1);
}

#[test]
fn model_keeps_its_name_and_mesh() {
    let mut mesh: Mesh<f32> = Mesh::default();
    mesh.indices.push(4);
    let model = Model::new(String::from("cube"), mesh);
    assert_eq!(model.name, "cube");
    assert_eq!(model.mesh.indices, vec![4]);
    assert_eq!(model.mesh.material_id, None);
}
