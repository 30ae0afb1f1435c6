use maenami::{Error, FaceIndexPair, FeedEvent, Parser, WavefrontObj};

fn feed_all(parser: &mut Parser, text: &str) {
    for line in text.lines() {
        match parser.feed_line(line) {
            Ok(FeedEvent::Accepted) => {},
            Ok(FeedEvent::MaterialLibraryNeeded(path)) => {
                panic!("unexpected material library request: {}", path)
            },
            Err(e) => panic!("{}", e.message()),
        }
    }
}

fn parse_document(text: &str) -> WavefrontObj {
    let mut parser = Parser::new();
    feed_all(&mut parser, text);
    parser.finish()
}

#[test]
fn single_implicit_group_and_object() {
    let doc = parse_document("v 0 0 0\nv 1 0 0\nv 0 1 0\nf 1 2 3\n");
    let objects = doc.objects();
    assert_eq!(objects.len(), 1);
    assert!(objects[0].name().is_none());
    let groups = objects[0].groups();
    assert_eq!(groups.len(), 1);
    assert!(groups[0].name().is_none());
    assert_eq!(groups[0].vertices().len(), 3);
    let faces = groups[0].face_index_pairs();
    assert_eq!(faces.len(), 1);
    assert_eq!(
        faces[0].0,
        vec![
            FaceIndexPair(0, None, None),
            FaceIndexPair(1, None, None),
            FaceIndexPair(2, None, None),
        ]
    );
    assert_eq!(faces[0].1, None);
}

#[test]
fn group_local_rebasing_across_groups() {
    let doc = parse_document(
        "g A\nv 0 0 0\nv 1 0 0\nf 1 2\ng B\nv 0 1 0\nv 1 1 0\nf 3 4\n",
    );
    let objects = doc.objects();
    assert_eq!(objects.len(), 1);
    let groups = objects[0].groups();
    assert_eq!(groups.len(), 2);
    assert_eq!(groups[0].name().unwrap(), "A");
    assert_eq!(groups[1].name().unwrap(), "B");
    for group in groups {
        assert_eq!(group.vertices().len(), 2);
        let faces = group.face_index_pairs();
        assert_eq!(faces.len(), 1);
        assert_eq!(faces[0].0, vec![FaceIndexPair(0, None, None), FaceIndexPair(1, None, None)]);
    }
}

#[test]
fn vertices_are_stored_losslessly() {
    let doc = parse_document("v 0.5 -1.25 2e3\nvt 0.125 0.875\nvn 0 1 0\nf 1/1/1\n");
    let group = &doc.objects()[0].groups()[0];
    let v = &group.vertices()[0];
    assert_eq!((v.x.as_str(), v.y.as_str(), v.z.as_str()), ("0.5", "-1.25", "2e3"));
    assert_eq!(v.x.parse::<f32>().unwrap(), 0.5);
    assert_eq!(v.y.parse::<f32>().unwrap(), -1.25);
    assert_eq!(v.z.parse::<f32>().unwrap(), 2000.0);
    let uv = &group.texture_uvs()[0];
    assert_eq!(uv.u.parse::<f32>().unwrap(), 0.125);
    assert_eq!(uv.v.parse::<f32>().unwrap(), 0.875);
}

#[test]
fn empty_groups_and_objects_are_dropped() {
    let doc = parse_document("o empty\nv 0 0 0\ng faceless\nv 1 0 0\no body\nv 0 0 1\nf 3\n");
    let objects = doc.objects();
    assert_eq!(objects.len(), 1);
    assert_eq!(objects[0].name().unwrap(), "body");
    assert_eq!(objects[0].groups().len(), 1);
}

#[test]
fn empty_input_yields_empty_document() {
    let doc = parse_document("# nothing here\n\n");
    assert!(doc.objects().is_empty());
    assert!(doc.materials().is_empty());
}

#[test]
fn objects_split_into_groups() {
    let doc = parse_document("o a\nv 0 0 0\nf 1\no b\nv 1 1 1\nf 2\n");
    let objects = doc.objects();
    assert_eq!(objects.len(), 2);
    assert_eq!(objects[0].name().unwrap(), "a");
    assert_eq!(objects[1].name().unwrap(), "b");
    let groups = objects[1].clone().into_groups();
    assert_eq!(groups.len(), 1);
    assert_eq!(groups[0].face_index_pairs()[0].0, vec![FaceIndexPair(0, None, None)]);
}

#[test]
fn back_reference_across_groups_is_rejected() {
    let mut parser = Parser::new();
    feed_all(&mut parser, "v 0 0 0\nf 1\ng next\n");
    let err = parser.feed_line("f 1").unwrap_err();
    assert!(matches!(err, Error::InvalidFaceVertex));
}

#[test]
fn forward_reference_is_rejected() {
    let mut parser = Parser::new();
    feed_all(&mut parser, "v 0 0 0\n");
    let err = parser.feed_line("f 1 2").unwrap_err();
    assert!(matches!(err, Error::InvalidFaceVertex));
}

#[test]
fn mtllib_is_handed_back_for_resolution() {
    let mut parser = Parser::new();
    match parser.feed_line("mtllib scene.mtl").unwrap() {
        FeedEvent::MaterialLibraryNeeded(path) => assert_eq!(path, "scene.mtl"),
        FeedEvent::Accepted => panic!("expected a material library request"),
    }
}

#[test]
fn usemtl_resolves_at_face_time() {
    let mut parser = Parser::new();
    let materials = maenami::parse_mtl("newmtl steel\nKd 0.6 0.6 0.7\nnewmtl wood\nKd 0.5 0.3 0.1\n")
        .unwrap();
    parser.supply_materials(materials);
    feed_all(&mut parser, "usemtl wood\nv 0 0 0\nf 1\n");
    let doc = parser.finish();
    assert_eq!(doc.objects()[0].groups()[0].face_index_pairs()[0].1, Some(1));
}

#[test]
fn unknown_material_name_yields_no_reference() {
    let mut parser = Parser::new();
    let materials = maenami::parse_mtl("newmtl steel\nKd 0.6 0.6 0.7\n").unwrap();
    parser.supply_materials(materials);
    feed_all(&mut parser, "usemtl missing\nv 0 0 0\nf 1\n");
    let doc = parser.finish();
    assert_eq!(doc.objects()[0].groups()[0].face_index_pairs()[0].1, None);
}

#[test]
fn unknown_directives_are_ignored() {
    let doc = parse_document("s off\nv 0 0 0\nf 1\nbevel on\n");
    assert_eq!(doc.objects().len(), 1);
}

#[test]
fn parse_error_reports_kind() {
    let mut parser = Parser::new();
    let err = parser.feed_line("v 1 2").unwrap_err();
    assert_eq!(err.message(), "Not enough data (found 2, expected 3)");
    let err = parser.feed_line("f 1/x").unwrap_err();
    assert_eq!(err.message(), "Failed to parse a value");
    let err = parser.feed_line("f 0").unwrap_err();
    assert_eq!(err.message(), "Invalid index definition");
    let err = parser.feed_line("f /1").unwrap_err();
    assert_eq!(err.message(), "Invalid face vertex definition");
    assert_eq!(
        Error::IoError("stream closed".to_string()).message(),
        "stream closed"
    );
    assert_eq!(
        Error::NotEnoughData { found: 123, expected: 4096 }.message(),
        "Not enough data (found 123, expected 4096)"
    );
    assert_eq!(
        Error::PathNotFound("a.mtl".to_string()).message(),
        "Path not found: \"a.mtl\""
    );
}

#[test]
fn face_cursors_resolve_vertex_data() {
    let doc = parse_document("v 0 0 0\nv 1 0 0\nvt 0.5 0.5\nvn 0 1 0\nf 1/1/1 2//1\n");
    let group = &doc.objects()[0].groups()[0];
    let mut faces = group.faces();
    let (mut vertices, material) = faces.next(group).unwrap();
    assert_eq!(material, None);
    let (position, uv, normal) = vertices.next(group).unwrap();
    assert_eq!(position.x, "0");
    assert_eq!(uv.unwrap().u, "0.5");
    assert_eq!(normal.as_ref().unwrap().y, "1");
    let (position, uv, normal) = vertices.next(group).unwrap();
    assert_eq!(position.x, "1");
    assert!(uv.is_none());
    assert!(normal.is_some());
    assert!(vertices.next(group).is_none());
    assert!(faces.next(group).is_none());
    // the sequence is restartable
    let mut again = group.faces();
    assert!(again.next(group).is_some());
}
