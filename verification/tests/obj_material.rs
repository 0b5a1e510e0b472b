use scop::obj::error::ObjError;
use scop::obj::material::parse_mtl;

#[test]
fn material_is_complete_when_the_next_one_begins() {
    let text = b"# materials\n\
mtllib stone\n\
Kd 0.5 0.5 0.5\n\
  map_Kd   textures/stone wall.png  \r\n\
illum 2\n\
mtllib wood\n\
Kd 0.4 0.2 0.1\n\
\n\
mtllib last\n\
Ns 10\n";
    let materials = parse_mtl(text).unwrap();
    assert_eq!(materials.len(), 2);
    assert_eq!(materials[0].name, "stone");
    assert_eq!(
        materials[0].unknown_param,
        vec![
            (String::from("Kd"), String::from("0.5 0.5 0.5")),
            (String::from("map_Kd"), String::from("textures/stone wall.png")),
            (String::from("illum"), String::from("2")),
        ]
    );
    assert_eq!(materials[1].name, "wood");
    assert_eq!(
        materials[1].unknown_param,
        vec![(String::from("Kd"), String::from("0.4 0.2 0.1"))]
    );
}

#[test]
fn material_without_a_name_is_refused() {
    assert_eq!(parse_mtl(b"mtllib\n").err(), Some(ObjError::InvalidMaterialName));
    assert_eq!(parse_mtl(b"mtllib a\nKd 1\nmtllib   \t\n").err(), Some(ObjError::InvalidMaterialName));
    assert_eq!(parse_mtl(b"mtllib \xff\n").err(), Some(ObjError::InvalidMaterialName));
}

#[test]
fn parameters_before_the_first_material_are_passed_over() {
    let materials = parse_mtl(b"Kd 1 1 1\nbad \xff\nmtllib a\nKd\n#x y\n# z\nmtllib b\n").unwrap();
    assert_eq!(materials.len(), 1);
    assert_eq!(materials[0].name, "a");
    assert_eq!(
        materials[0].unknown_param,
        vec![
            (String::from("Kd"), String::new()),
            (String::from("#x"), String::from("y")),
        ]
    );
    assert!(parse_mtl(b"").unwrap().is_empty());
    assert!(parse_mtl(b"mtllib only\nKd 1\n").unwrap().is_empty());
}

#[test]
fn parameter_that_is_not_text_ends_the_load() {
    assert_eq!(parse_mtl(b"mtllib a\nKd \xff\n").err(), Some(ObjError::ParseFailed));
    assert_eq!(parse_mtl(b"mtllib a\n\xff 1\nmtllib\n").err(), Some(ObjError::ParseFailed));
}
