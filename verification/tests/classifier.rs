use maenami::classify::{
    face_pair, parse_face, parse_mtl_line, parse_obj_line, take_single, take_vec2, take_vec3,
    MtlCommand, ObjCommand,
};
use maenami::{Error, FaceIndexPair};

fn strings(tokens: &[&str]) -> Vec<String> {
    tokens.iter().map(|t| t.to_string()).collect()
}

#[test]
fn vertex_line_keeps_tokens_exactly() {
    let cmd = parse_obj_line("v", &strings(&["0.5", "-1", "2e3"])).unwrap();
    match cmd {
        ObjCommand::Vertex(v) => {
            assert_eq!(v.x, "0.5");
            assert_eq!(v.y, "-1");
            assert_eq!(v.z, "2e3");
            assert_eq!(v.x.parse::<f32>().unwrap(), 0.5);
            assert_eq!(v.y.parse::<f32>().unwrap(), -1.0);
            assert_eq!(v.z.parse::<f32>().unwrap(), 2000.0);
        },
        other => panic!("expected a vertex, got {:?}", other),
    }
}

#[test]
fn vertex_line_ignores_extra_tokens() {
    let cmd = parse_obj_line("v", &strings(&["1", "2", "3", "4"])).unwrap();
    assert!(matches!(cmd, ObjCommand::Vertex(_)));
}

#[test]
fn vertex_line_counts_missing_tokens() {
    let err = parse_obj_line("v", &strings(&["1", "2"])).unwrap_err();
    assert!(matches!(err, Error::NotEnoughData { found: 2, expected: 3 }));
    let err = parse_obj_line("v", &strings(&[])).unwrap_err();
    assert!(matches!(err, Error::NotEnoughData { found: 0, expected: 3 }));
}

#[test]
fn vertex_line_rejects_bad_numbers() {
    let err = parse_obj_line("v", &strings(&["1", "x", "3"])).unwrap_err();
    assert!(matches!(err, Error::ParseError));
}

#[test]
fn uv_line_takes_two_tokens() {
    let cmd = parse_obj_line("vt", &strings(&["0.25", "0.75"])).unwrap();
    match cmd {
        ObjCommand::VertexUv(v) => {
            assert_eq!(v.u, "0.25");
            assert_eq!(v.v, "0.75");
        },
        other => panic!("expected texture coordinates, got {:?}", other),
    }
    let err = parse_obj_line("vt", &strings(&["0.25"])).unwrap_err();
    assert!(matches!(err, Error::NotEnoughData { found: 1, expected: 2 }));
}

#[test]
fn normal_line_takes_three_tokens() {
    let cmd = parse_obj_line("vn", &strings(&["0", "1", "0"])).unwrap();
    assert!(matches!(cmd, ObjCommand::VertexNormal(_)));
}

#[test]
fn object_and_group_names_are_optional() {
    assert!(matches!(parse_obj_line("o", &strings(&[])).unwrap(), ObjCommand::Object(None)));
    let cmd = parse_obj_line("o", &strings(&["body"])).unwrap();
    assert!(matches!(cmd, ObjCommand::Object(Some(n)) if n == "body"));
    assert!(matches!(parse_obj_line("g", &strings(&[])).unwrap(), ObjCommand::Group(None)));
    let cmd = parse_obj_line("g", &strings(&["wing"])).unwrap();
    assert!(matches!(cmd, ObjCommand::Group(Some(n)) if n == "wing"));
}

#[test]
fn usemtl_needs_a_name() {
    let cmd = parse_obj_line("usemtl", &strings(&["steel"])).unwrap();
    assert!(matches!(cmd, ObjCommand::UseMaterial(n) if n == "steel"));
    let err = parse_obj_line("usemtl", &strings(&[])).unwrap_err();
    assert!(matches!(err, Error::NotEnoughData { found: 0, expected: 1 }));
}

#[test]
fn mtllib_unescapes_the_path() {
    let cmd = parse_obj_line("mtllib", &strings(&["tex\\\\a.mtl"])).unwrap();
    assert!(matches!(cmd, ObjCommand::MaterialLibrary(p) if p == "tex\\a.mtl"));
    let cmd = parse_obj_line("mtllib", &strings(&[])).unwrap();
    assert!(matches!(cmd, ObjCommand::MaterialLibrary(p) if p.is_empty()));
}

#[test]
fn unknown_keyword_is_preserved_not_rejected() {
    let cmd = parse_obj_line("s", &strings(&["off"])).unwrap();
    match cmd {
        ObjCommand::Unknown(kw, data) => {
            assert_eq!(kw, "s");
            assert_eq!(data, vec!["off"]);
        },
        other => panic!("expected an unknown command, got {:?}", other),
    }
}

#[test]
fn face_token_vertex_only() {
    assert_eq!(face_pair("7").unwrap(), FaceIndexPair(6, None, None));
}

#[test]
fn face_token_vertex_and_texture() {
    assert_eq!(face_pair("1/2").unwrap(), FaceIndexPair(0, Some(1), None));
}

#[test]
fn face_token_skipped_texture() {
    assert_eq!(face_pair("1//2").unwrap(), FaceIndexPair(0, None, Some(1)));
}

#[test]
fn face_token_all_three() {
    assert_eq!(face_pair("1/2/3").unwrap(), FaceIndexPair(0, Some(1), Some(2)));
}

#[test]
fn face_token_trailing_empty_fields() {
    assert_eq!(face_pair("4//").unwrap(), FaceIndexPair(3, None, None));
}

#[test]
fn face_token_bad_texture_field_is_a_parse_error() {
    assert!(matches!(face_pair("1/x/2").unwrap_err(), Error::ParseError));
}

#[test]
fn face_token_empty_vertex_field_is_invalid() {
    assert!(matches!(face_pair("/1/2").unwrap_err(), Error::InvalidFaceVertex));
    assert!(matches!(face_pair("//").unwrap_err(), Error::InvalidFaceVertex));
}

#[test]
fn face_token_zero_index_is_invalid() {
    assert!(matches!(face_pair("0").unwrap_err(), Error::InvalidIndex));
    assert!(matches!(face_pair("1/0").unwrap_err(), Error::InvalidIndex));
    assert!(matches!(face_pair("1/2/0").unwrap_err(), Error::InvalidIndex));
}

#[test]
fn face_token_negative_index_is_invalid() {
    assert!(matches!(face_pair("-3").unwrap_err(), Error::InvalidIndex));
}

#[test]
fn face_line_reads_every_token() {
    let pairs = parse_face(&strings(&["1", "2/1", "3//1"])).unwrap();
    assert_eq!(
        pairs,
        vec![
            FaceIndexPair(0, None, None),
            FaceIndexPair(1, Some(0), None),
            FaceIndexPair(2, None, Some(0)),
        ]
    );
}

#[test]
fn face_line_first_error_wins() {
    let err = parse_face(&strings(&["1", "0", "x"])).unwrap_err();
    assert!(matches!(err, Error::InvalidIndex));
}

#[test]
fn take_single_reads_an_integer() {
    assert_eq!(take_single(&strings(&["2"])).unwrap(), 2);
    assert!(matches!(
        take_single(&strings(&[])).unwrap_err(),
        Error::NotEnoughData { found: 0, expected: 1 }
    ));
    assert!(matches!(take_single(&strings(&["x"])).unwrap_err(), Error::ParseError));
}

#[test]
fn take_vec2_and_vec3_read_tokens() {
    let v = take_vec2(&strings(&["0", "1"])).unwrap();
    assert_eq!((v.u.as_str(), v.v.as_str()), ("0", "1"));
    let v = take_vec3(&strings(&["0", "1", "2"])).unwrap();
    assert_eq!((v.x.as_str(), v.y.as_str(), v.z.as_str()), ("0", "1", "2"));
}

#[test]
fn mtl_newmtl_carries_the_name() {
    let cmd = parse_mtl_line("newmtl", &strings(&["steel"])).unwrap();
    assert!(matches!(cmd, MtlCommand::NewMaterial(n) if n == "steel"));
    let cmd = parse_mtl_line("newmtl", &strings(&[])).unwrap();
    assert!(matches!(cmd, MtlCommand::NewMaterial(n) if n.is_empty()));
}

#[test]
fn mtl_illum_is_an_integer_property() {
    let cmd = parse_mtl_line("illum", &strings(&["2"])).unwrap();
    assert!(matches!(cmd, MtlCommand::Integer(k, 2) if k == "illum"));
    assert!(matches!(parse_mtl_line("illum", &strings(&["x"])).unwrap_err(), Error::ParseError));
}

#[test]
fn mtl_k_keywords_are_vector_properties() {
    let cmd = parse_mtl_line("Kd", &strings(&["0.8", "0.1", "0.1"])).unwrap();
    match cmd {
        MtlCommand::Vector(k, v) => {
            assert_eq!(k, "Kd");
            assert_eq!(v.x, "0.8");
        },
        other => panic!("expected a vector property, got {:?}", other),
    }
}

#[test]
fn mtl_n_keywords_are_float_properties() {
    let cmd = parse_mtl_line("Ns", &strings(&["96.0"])).unwrap();
    assert!(matches!(cmd, MtlCommand::Float(k, t) if k == "Ns" && t == "96.0"));
}

#[test]
fn mtl_map_keywords_are_path_properties() {
    let cmd = parse_mtl_line("map_Kd", &strings(&["tex\\\\d.png"])).unwrap();
    assert!(matches!(cmd, MtlCommand::Path(k, p) if k == "map_Kd" && p == "tex\\d.png"));
}

#[test]
fn mtl_unknown_keyword_is_preserved() {
    let cmd = parse_mtl_line("d", &strings(&["1.0"])).unwrap();
    assert!(matches!(cmd, MtlCommand::Unknown(k, _) if k == "d"));
}
