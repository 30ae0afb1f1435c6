use maenami::{parse_mtl, Error, MaterialProperty};

#[test]
fn two_materials_with_diffuse_colors() {
    let materials = parse_mtl(
        "newmtl steel\nKd 0.6 0.6 0.7\nnewmtl wood\nKd 0.5 0.3 0.1\n",
    )
    .unwrap();
    assert_eq!(materials.len(), 2);
    assert_eq!(materials[0].name(), "steel");
    assert_eq!(materials[1].name(), "wood");
    let steel = materials[0].diffuse_color().unwrap();
    assert_eq!((steel.x.as_str(), steel.y.as_str(), steel.z.as_str()), ("0.6", "0.6", "0.7"));
    let wood = materials[1].diffuse_color().unwrap();
    assert_eq!(wood.x.parse::<f32>().unwrap(), 0.5);
}

#[test]
fn named_accessors_read_their_keys() {
    let materials = parse_mtl(
        "newmtl full\nKa 0.1 0.1 0.1\nKd 0.8 0.8 0.8\nKs 1 1 1\nNs 96.0\nillum 2\nmap_Kd tex\\\\d.png\n",
    )
    .unwrap();
    let m = &materials[0];
    assert_eq!(m.ambient_color().unwrap().x, "0.1");
    assert_eq!(m.diffuse_color().unwrap().x, "0.8");
    assert_eq!(m.specular_color().unwrap().x, "1");
    assert_eq!(m.specular_intensity().unwrap(), "96.0");
    assert_eq!(m.illumination().unwrap(), 2);
    assert_eq!(m.diffuse_map().unwrap(), "tex\\d.png");
}

#[test]
fn wrong_kind_lookup_is_absent_not_an_error() {
    // Kd declared as a float and Ns as a vector: the typed accessors see
    // the wrong kind under their keys and yield nothing.
    let materials = parse_mtl("newmtl odd\nNs 5\nillum 2\n").unwrap();
    let m = &materials[0];
    assert!(m.diffuse_color().is_none());
    assert!(m.diffuse_map().is_none());
    assert!(m.specular_intensity().is_some());
    // `illum` holds an integer; reading it as a float yields nothing.
    assert!(matches!(m.get("illum"), Some(MaterialProperty::Integer(2))));
    assert!(m.get("Kd").is_none());
}

#[test]
fn first_newmtl_does_not_commit_an_empty_record() {
    let materials = parse_mtl("newmtl only\nKd 1 1 1\n").unwrap();
    assert_eq!(materials.len(), 1);
    assert_eq!(materials[0].name(), "only");
}

#[test]
fn consecutive_newmtl_without_properties_drops_the_empty_one() {
    let materials = parse_mtl("newmtl a\nnewmtl b\nKd 1 0 0\n").unwrap();
    assert_eq!(materials.len(), 1);
    assert_eq!(materials[0].name(), "b");
}

#[test]
fn final_record_is_always_committed() {
    let materials = parse_mtl("newmtl bare\n").unwrap();
    assert_eq!(materials.len(), 1);
    assert_eq!(materials[0].name(), "bare");
    assert!(materials[0].get("Kd").is_none());
}

#[test]
fn empty_source_yields_one_unnamed_record() {
    let materials = parse_mtl("").unwrap();
    assert_eq!(materials.len(), 1);
    assert_eq!(materials[0].name(), "");
}

#[test]
fn later_property_replaces_earlier() {
    let materials = parse_mtl("newmtl m\nKd 0 0 0\nKd 1 1 1\n").unwrap();
    assert_eq!(materials[0].diffuse_color().unwrap().x, "1");
}

#[test]
fn comments_and_blanks_are_skipped_in_mtl() {
    let materials = parse_mtl("# library\n\nnewmtl m\n  # note\nKd 1 0 0\n").unwrap();
    assert_eq!(materials.len(), 1);
    assert!(materials[0].diffuse_color().is_some());
}

#[test]
fn unknown_mtl_keywords_are_ignored() {
    let materials = parse_mtl("newmtl m\nd 1.0\nKd 1 0 0\n").unwrap();
    assert_eq!(materials.len(), 1);
    assert!(materials[0].get("d").is_none());
}

#[test]
fn malformed_mtl_aborts() {
    let err = parse_mtl("newmtl m\nKd 1 x 0\n").unwrap_err();
    assert!(matches!(err, Error::ParseError));
    let err = parse_mtl("newmtl m\nillum\n").unwrap_err();
    assert!(matches!(err, Error::NotEnoughData { found: 0, expected: 1 }));
}
