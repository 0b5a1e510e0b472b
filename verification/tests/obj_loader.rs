use scop::obj::error::ObjError;
use scop::obj::loader::{
    append_vertex_data, keyword, parse_obj, parse_vertex_data, read_group_name, Keyword, ObjLoader,
};
use scop::obj::scalar::read_scalar;

const CUBE: &str = "# a unit cube\n\
mtllib cube.mtl\n\
o cube\n\
v 0 0 0\n\
v 1 0 0\n\
v 1 1 0\n\
v 0 1 0\n\
v 0 0 1\n\
v 1 0 1\n\
v 1 1 1\n\
v 0 1 1\n\
vt 0 0\n\
vt 1 0\n\
vt 1 1\n\
vt 0 1\n\
vn 0 0 -1\n\
vn 0 0 1\n\
usemtl stone\n\
s off\n\
f 1/1/1 2/2/1 3/3/1 4/4/1\n\
f 5/1/2 6/2/2 7/3/2 8/4/2\n\
f 1/1/1 2/2/1 6/3/1\n";

#[test]
fn cube_loads_as_one_model() {
    let models = parse_obj::<f32>(CUBE.as_bytes()).unwrap();
    assert_eq!(models.len(), 1);
    let model = &models[0];
    assert_eq!(model.name, "cube");
    let mesh = &model.mesh;
    assert_eq!(mesh.indices, vec![0, 1, 2, 0, 2, 3, 4, 5, 6, 4, 6, 7, 0, 1, 8]);
    assert_eq!(mesh.positions.len(), 9 * 3);
    assert_eq!(mesh.tex_coords.len(), 9 * 2);
    assert_eq!(mesh.normals.len(), 9 * 3);
    assert_eq!(&mesh.positions[0..6], &[0.0, 0.0, 0.0, 1.0, 0.0, 0.0]);
    assert_eq!(&mesh.positions[24..27], &[1.0, 0.0, 1.0]);
    assert_eq!(&mesh.tex_coords[16..18], &[1.0, 1.0]);
    assert_eq!(&mesh.normals[24..27], &[0.0, 0.0, -1.0]);
    assert_eq!(mesh.material_id, None);
}

#[test]
fn open_faces_become_a_model_at_the_end_of_the_text() {
    let models = parse_obj::<f32>(b"v 0 0 0\nv 1 0 0\nv 0 1 0\nf 1 2 3").unwrap();
    assert_eq!(models.len(), 1);
    assert_eq!(models[0].name, "undefined");
    assert_eq!(models[0].mesh.indices, vec![0, 1, 2]);
    assert_eq!(models[0].mesh.positions, vec![0.0, 0.0, 0.0, 1.0, 0.0, 0.0, 0.0, 1.0, 0.0]);
}

#[test]
fn group_line_without_faces_adds_no_model() {
    let models = parse_obj::<f32>(b"o a\ng b\no c\nv 0 0 0\ng d\n").unwrap();
    assert!(models.is_empty());
    let models = parse_obj::<f32>(b"").unwrap();
    assert!(models.is_empty());
    let models = parse_obj::<f32>(b"\n\n# nothing\n").unwrap();
    assert!(models.is_empty());
}

#[test]
fn each_group_with_faces_is_a_model_under_its_name() {
    let text = b"v 0 0 0\nv 1 0 0\nv 0 1 0\nv 1 1 0\n\
o first\nf 1 2 3\n\
g   second group  \r\nf 2 3 4\nf 1 2 4\n\
o\nf -1 -2 -3\n\
g empty\n";
    let models = parse_obj::<f32>(text).unwrap();
    assert_eq!(models.len(), 3);
    assert_eq!(models[0].name, "first");
    assert_eq!(models[0].mesh.indices, vec![0, 1, 2]);
    assert_eq!(models[1].name, "second group");
    assert_eq!(models[1].mesh.indices, vec![0, 1, 2, 3, 0, 2]);
    assert_eq!(
        models[1].mesh.positions,
        vec![1.0, 0.0, 0.0, 0.0, 1.0, 0.0, 1.0, 1.0, 0.0, 0.0, 0.0, 0.0]
    );
    assert_eq!(models[2].name, "undefined");
    assert_eq!(models[2].mesh.indices, vec![0, 1, 2]);
    assert_eq!(
        models[2].mesh.positions,
        vec![1.0, 1.0, 0.0, 0.0, 1.0, 0.0, 1.0, 0.0, 0.0]
    );
}

#[test]
fn short_or_malformed_vertex_is_dropped_and_the_load_goes_on() {
    let text = b"v 0 0 0\nv 1 0\nv 1 x 0\nv 2 0 0\nv 0 2 0 1.0\nvt 0.5\nvt 0.5 0.5 0\nvn 1 0\nf 1 2 3\n";
    let models = parse_obj::<f32>(text).unwrap();
    assert_eq!(models.len(), 1);
    assert_eq!(models[0].mesh.indices, vec![0, 1, 2]);
    assert_eq!(
        models[0].mesh.positions,
        vec![0.0, 0.0, 0.0, 2.0, 0.0, 0.0, 0.0, 2.0, 0.0]
    );
    assert!(models[0].mesh.tex_coords.is_empty());
    assert!(models[0].mesh.normals.is_empty());
}

#[test]
fn dropped_vertices_do_not_count_for_relative_indices() {
    let text = b"v 0 0 0\nv 1 0 0\nv 0 1 0\nv bad 0 0\nv 5 5\nf -3 -2 -1\n";
    let models = parse_obj::<f32>(text).unwrap();
    assert_eq!(models[0].mesh.indices, vec![0, 1, 2]);
    assert_eq!(
        models[0].mesh.positions,
        vec![0.0, 0.0, 0.0, 1.0, 0.0, 0.0, 0.0, 1.0, 0.0]
    );
}

#[test]
fn relative_indices_see_only_what_was_declared_before_the_face() {
    let text = b"v 0 0 0\nv 1 0 0\nv 0 1 0\nf -1 -2 -3\nv 9 9 9\nf -1 -2 -3\n";
    let models = parse_obj::<f32>(text).unwrap();
    assert_eq!(models[0].mesh.indices, vec![0, 1, 2, 3, 0, 1]);
    assert_eq!(
        models[0].mesh.positions,
        vec![0.0, 1.0, 0.0, 1.0, 0.0, 0.0, 0.0, 0.0, 0.0, 9.0, 9.0, 9.0]
    );
}

#[test]
fn texture_and_normal_counts_take_their_own_arrays() {
    let text = b"v 0 0 0\nv 1 0 0\nv 0 1 0\nvt 0 0\nvt 1 1\nvn 0 0 1\nf 1/-1/-1 2/-2/-1 3/-1/-1\n";
    let models = parse_obj::<f32>(text).unwrap();
    let mesh = &models[0].mesh;
    assert_eq!(mesh.indices, vec![0, 1, 2]);
    assert_eq!(mesh.tex_coords, vec![1.0, 1.0, 0.0, 0.0, 1.0, 1.0]);
    assert_eq!(mesh.normals, vec![0.0, 0.0, 1.0, 0.0, 0.0, 1.0, 0.0, 0.0, 1.0]);
}

#[test]
fn malformed_face_ends_the_load() {
    let r = parse_obj::<f32>(b"v 0 0 0\nv 1 0 0\nv 0 1 0\nf 1 2 3\nf 1 two 3\nf 1 2 3\n");
    assert_eq!(r.err(), Some(ObjError::FaceParseError));
    let r = parse_obj::<f32>(b"l 1 2x\n");
    assert_eq!(r.err(), Some(ObjError::FaceParseError));
}

#[test]
fn face_out_of_bounds_ends_the_load_when_its_group_is_closed() {
    let r = parse_obj::<f32>(b"v 0 0 0\nv 1 0 0\nv 0 1 0\nf 1 2 4\n");
    assert_eq!(r.err(), Some(ObjError::FaceVertexOutOfBounds));
    let r = parse_obj::<f32>(b"v 0 0 0\nv 1 0 0\nv 0 1 0\nf 1 2 4\no next\nf x\n");
    assert_eq!(r.err(), Some(ObjError::FaceVertexOutOfBounds));
    let r = parse_obj::<f32>(b"v 0 0 0\nv 1 0 0\nv 0 1 0\nvt 0 0\nf 1/1 2/1 3/2\n");
    assert_eq!(r.err(), Some(ObjError::FaceTexCoordOutOfBounds));
    let r = parse_obj::<f32>(b"v 0 0 0\nv 1 0 0\nv 0 1 0\nvn 0 0 1\nf 1//1 2//1 3//2\n");
    assert_eq!(r.err(), Some(ObjError::FaceNormalOutOfBounds));
    let r = parse_obj::<f32>(b"v 0 0 0\nf\n");
    assert_eq!(r.err(), Some(ObjError::InvalidPolygon));
}

#[test]
fn lines_and_points_make_a_model_without_triangles() {
    let models = parse_obj::<f32>(b"v 0 0 0\nv 1 0 0\no wire\nl 1 2\nf 1\n").unwrap();
    assert_eq!(models.len(), 1);
    assert_eq!(models[0].name, "wire");
    assert!(models[0].mesh.indices.is_empty());
    assert!(models[0].mesh.positions.is_empty());
}

#[test]
fn unknown_keywords_are_passed_over() {
    let text = b"#comment without space\nusemtl a\ns 1\nvp 1 2 3\nV 1 2 3\nvv 0 0 0\nmtllib x y z\n  \t \n";
    let mut loader: ObjLoader<f32> = ObjLoader::new();
    for line in text.split(|b| *b == b'\n') {
        assert_eq!(loader.feed_line(line), Ok(()));
    }
    assert!(loader.finish().unwrap().is_empty());
}

#[test]
fn name_that_is_not_utf8_is_refused() {
    let r = parse_obj::<f32>(b"o \xff\xfe\n");
    assert_eq!(r.err(), Some(ObjError::InvalidObjectName));
    let models = parse_obj::<f32>("v 0 0 0\nv 1 0 0\nv 0 1 0\no d\u{e9}j\u{e0} vu\nf 1 2 3\n".as_bytes()).unwrap();
    assert_eq!(models[0].name, "d\u{e9}j\u{e0} vu");
    let r = parse_obj::<f32>(b"v 0 0 0\nv 1 0 0\nv 0 1 0\nf 1 2 9\no \xff\n");
    assert_eq!(r.err(), Some(ObjError::FaceVertexOutOfBounds));
}

#[test]
fn loader_is_unchanged_by_a_line_that_fails() {
    let mut loader: ObjLoader<f32> = ObjLoader::new();
    for line in ["v 0 0 0", "v 1 0 0", "v 0 1 0", "o tri", "f 1 2 3"] {
        assert_eq!(loader.feed_line(line.as_bytes()), Ok(()));
    }
    assert_eq!(loader.feed_line(b"f 1 2 z"), Err(ObjError::FaceParseError));
    assert_eq!(loader.feed_line(b"g \xc3"), Err(ObjError::InvalidObjectName));
    let models = loader.finish().unwrap();
    assert_eq!(models.len(), 1);
    assert_eq!(models[0].name, "tri");
    assert_eq!(models[0].mesh.indices, vec![0, 1, 2]);
}

#[test]
fn keywords_are_classified() {
    assert_eq!(keyword(b"#"), Keyword::Comment);
    assert_eq!(keyword(b"v"), Keyword::Position);
    assert_eq!(keyword(b"vn"), Keyword::Normal);
    assert_eq!(keyword(b"vt"), Keyword::TexCoord);
    assert_eq!(keyword(b"f"), Keyword::Face);
    assert_eq!(keyword(b"l"), Keyword::Face);
    assert_eq!(keyword(b"o"), Keyword::Group);
    assert_eq!(keyword(b"g"), Keyword::Group);
    assert_eq!(keyword(b"mtllib"), Keyword::MaterialLib);
    for other in ["", "V", "vp", "vtt", "#x", "mtllib2", "mtlli", "usemtl", "ff", "G"] {
        assert_eq!(keyword(other.as_bytes()), Keyword::Unknown, "{:?}", other);
    }
}

#[test]
fn group_name_is_what_follows_the_keyword() {
    assert_eq!(read_group_name(b"o cube"), Some(String::from("cube")));
    assert_eq!(read_group_name(b"  g   a b  c \t\r"), Some(String::from("a b  c")));
    assert_eq!(read_group_name(b"o"), Some(String::from("undefined")));
    assert_eq!(read_group_name(b"o   \r"), Some(String::from("undefined")));
    assert_eq!(read_group_name(b"o \x80"), None);
}

#[test]
fn vertex_data_is_appended_whole_or_not_at_all() {
    let mut target: Vec<f32> = vec![9.0];
    parse_vertex_data(b" 1 2.5 -3e2", &mut target, 3);
    assert_eq!(target, vec![9.0, 1.0, 2.5, -300.0]);
    parse_vertex_data(b" 1 2", &mut target, 3);
    assert_eq!(target.len(), 4);
    parse_vertex_data(b" 1 2 three", &mut target, 3);
    assert_eq!(target.len(), 4);
    parse_vertex_data(b"", &mut target, 2);
    assert_eq!(target.len(), 4);
    parse_vertex_data(b"0.25 0.75 junk", &mut target, 2);
    assert_eq!(target, vec![9.0, 1.0, 2.5, -300.0, 0.25, 0.75]);
    let mut ints: Vec<i32> = Vec::new();
    parse_vertex_data(b"4 5 6", &mut ints, 3);
    parse_vertex_data(b"4 5.5 6", &mut ints, 3);
    assert_eq!(ints, vec![4, 5, 6]);
}

#[test]
fn readings_are_appended_only_when_all_succeeded() {
    let mut target: Vec<f32> = vec![7.0];
    append_vertex_data(&mut target, &vec![Some(1.0), Some(2.0), Some(3.0)], 3);
    assert_eq!(target, vec![7.0, 1.0, 2.0, 3.0]);
    append_vertex_data(&mut target, &vec![Some(1.0), None, Some(3.0)], 3);
    assert_eq!(target.len(), 4);
    append_vertex_data(&mut target, &vec![Some(1.0), Some(2.0), None], 3);
    assert_eq!(target.len(), 4);
    append_vertex_data(&mut target, &vec![Some(1.0), Some(2.0)], 3);
    assert_eq!(target.len(), 4);
    append_vertex_data(&mut target, &vec![Some(1.0), Some(2.0), Some(3.0), Some(4.0)], 3);
    assert_eq!(target.len(), 4);
    append_vertex_data(&mut target, &vec![], 0);
    assert_eq!(target.len(), 4);
}

#[test]
fn scalar_is_read_from_utf8_text() {
    assert_eq!(read_scalar::<f32>(b"1.5"), Some(1.5));
    assert_eq!(read_scalar::<f32>(b"-2"), Some(-2.0));
    assert_eq!(read_scalar::<f32>(b"x"), None);
    assert_eq!(read_scalar::<f32>(b"\xff"), None);
    assert_eq!(read_scalar::<f64>(b"1e-3"), Some(0.001));
    assert_eq!(read_scalar::<u8>(b"300"), None);
}
