use dzahui::error::Error;
use dzahui::mesh::{
    append_raised_copy, bar_indices, boundary_vertices, coordinate_key, drop_constant_axes,
    filter_for_solving_1d, remove_and_pad, apply_gradient_1d, CoordinateKeys, Dimension,
    MeshBuilder, MeshDimension,
};
use dzahui::numbers::IntErrorKind;
use dzahui::obj::{
    check_vertex_arity, face_checker, has_obj_extension, is_face_line, is_vertex_line,
    line_fields, loose_face_indices, parse_face_line, vertex_checker, FaceParse,
};

const TEST_OBJ: &str = "# a triangle\nv -1.0 0.0 0.0\nv 1.0 0.0 0.0\nv 0.0 1.0 0.0\nf 1/1/1 2/2/2 3/3/3\n";

fn mesh_error_message(e: &Error) -> String {
    match e {
        Error::MeshParse(s) => s.clone(),
        other => panic!("unexpected error {:?}", other),
    }
}

#[test]
fn parse_coordinates() {
    // A three-dimensional mesh keeps every coordinate and colours each
    // vertex blue; its indices are the face's, counted from zero.
    let mut vertices: Vec<f64> = Vec::new();
    let mut indices: Vec<u32> = Vec::new();
    for line in TEST_OBJ.lines() {
        if is_vertex_line(line) {
            let fields = line_fields(line);
            check_vertex_arity(fields.len()).unwrap();
            for f in &fields {
                vertices.push(f.parse::<f64>().unwrap());
            }
            vertices.extend_from_slice(&[0.0, 0.0, 1.0]);
        } else if is_face_line(line) {
            let mut face = MeshBuilder::obj_face_checker(line).unwrap();
            indices.append(&mut face);
        }
    }
    assert!(
        vertices
            == vec![
                -1.0, 0.0, 0.0, 0.0, 0.0, 1.0, 1.0, 0.0, 0.0, 0.0, 0.0, 1.0, 0.0, 1.0, 0.0, 0.0, 0.0,
                1.0
            ]
    );
    assert!(indices == vec![0, 1, 2]);
}

#[test]
fn line_kinds() {
    assert!(is_vertex_line("v 1 2 3"));
    assert!(!is_vertex_line("vn 1 2 3"));
    assert!(!is_vertex_line("f 1/1/1 2/2/2 3/3/3"));
    assert!(is_face_line("f 1/1/1 2/2/2 3/3/3"));
    assert!(!is_face_line("# f"));
    assert!(!is_face_line(""));
}

#[test]
fn line_fields_skip_keyword() {
    assert_eq!(line_fields("v 1.5 -2 0.0"), vec!["1.5", "-2", "0.0"]);
    assert_eq!(line_fields("v  1"), vec!["", "1"]);
    assert!(line_fields("v").is_empty());
}

#[test]
fn face_checker_gives_zero_based_indices() {
    assert_eq!(MeshBuilder::obj_face_checker("f 4/1/2 5/5/5 10/2/3").unwrap(), vec![3, 4, 9]);
    assert_eq!(MeshBuilder::obj_face_checker("f 1// 2// 3//").unwrap(), vec![0, 1, 2]);
}

#[test]
fn face_checker_wrong_count() {
    let e = MeshBuilder::obj_face_checker("f 1/1/1 2/2/2").unwrap_err();
    assert_eq!(mesh_error_message(&e), "Amount of face specificating elements should be 3.");
    let e = MeshBuilder::obj_face_checker("f 1/1/1 2/2/2 3/3/3 4/4/4").unwrap_err();
    assert_eq!(mesh_error_message(&e), "Amount of face specificating elements should be 3.");
}

#[test]
fn face_checker_bad_index() {
    let e = MeshBuilder::obj_face_checker("f a/1/1 2/2/2 3/3/3").unwrap_err();
    assert_eq!(
        mesh_error_message(&e),
        "Error while parsing face coordinate: invalid digit found in string"
    );
    let e = MeshBuilder::obj_face_checker("f 1/1/1 /2/2 3/3/3").unwrap_err();
    assert_eq!(
        mesh_error_message(&e),
        "Error while parsing face coordinate: cannot parse integer from empty string"
    );
    let e = MeshBuilder::obj_face_checker("f 1/1/1 2/2/2 4294967296/3/3").unwrap_err();
    assert_eq!(
        mesh_error_message(&e),
        "Error while parsing face coordinate: number too large to fit in target type"
    );
}

#[test]
fn face_checker_wrong_slashes() {
    let e = MeshBuilder::obj_face_checker("f 1/1 2/2/2 3/3/3").unwrap_err();
    assert_eq!(
        mesh_error_message(&e),
        "Amount of elements per face specification should be 3 in format a/b/c."
    );
    // The index is read before the slashes are counted.
    let e = MeshBuilder::obj_face_checker("f 1/1/1 x 3/3/3").unwrap_err();
    assert_eq!(
        mesh_error_message(&e),
        "Error while parsing face coordinate: invalid digit found in string"
    );
}

#[test]
fn face_line_naming_vertex_zero() {
    assert!(matches!(parse_face_line("f 0/1/1 2/2/2 3/3/3"), FaceParse::ZeroIndex));
    match parse_face_line("f 7/1/1 8/2/2 9/3/3") {
        FaceParse::Faces(v) => assert_eq!(v, vec![6, 7, 8]),
        _ => panic!("face expected"),
    }
    assert!(matches!(parse_face_line("f 1/1/1"), FaceParse::Invalid(Error::MeshParse(_))));
}

#[test]
fn vertex_arity() {
    assert!(check_vertex_arity(3).is_ok());
    let e = check_vertex_arity(2).unwrap_err();
    assert_eq!(mesh_error_message(&e), "A vertex line should contain 3 elements only");
    assert!(check_vertex_arity(4).is_err());
}

#[test]
fn obj_extension() {
    assert!(has_obj_extension("assets/test.obj"));
    assert!(!has_obj_extension("assets/test.fnt"));
    assert!(!has_obj_extension("obj"));
}

#[test]
fn whole_file_checkers() {
    assert_eq!(vertex_checker("v 1 2 3"), Ok(true));
    assert_eq!(vertex_checker("v 1 2"), Err("Amount of numbers per vertex should be 3."));
    assert_eq!(face_checker("f 1/1/1 2/2/2 3/3/3"), Ok(true));
    assert_eq!(face_checker("f 1// 2/x/ 3/3/3"), Ok(true));
    assert_eq!(
        face_checker("f 1/1/1 2/2 3/3/3"),
        Err("Amount of elements per face specification should be 3 in format a/b/c.")
    );
    assert_eq!(face_checker("f 1/1/1 2/2/2"), Err("Amount of face specification elements should be 3."));
}

#[test]
fn coordinate_keys_merge_zeros() {
    assert_eq!(coordinate_key("0.0"), vec!['0', '.', '0']);
    assert_eq!(coordinate_key("-0.000"), vec!['0', '.', '0']);
    assert_eq!(coordinate_key("0.5"), vec!['0', '.', '5']);
    assert_eq!(coordinate_key("0.05"), vec!['0', '.', '0', '5']);
    assert_eq!(coordinate_key("0"), vec!['0', '.', '0']);
    assert_eq!(coordinate_key("+.0"), vec!['0', '.', '0']);
    assert_eq!(coordinate_key("0.0.0"), vec!['0', '.', '0', '.', '0']);
    assert_eq!(coordinate_key("-"), vec!['-']);
    assert_eq!(coordinate_key("0.0e5"), vec!['0', '.', '0']);
    assert_eq!(coordinate_key("-0E-3"), vec!['0', '.', '0']);
    assert_eq!(coordinate_key("0e+1"), vec!['0', '.', '0']);
    assert_eq!(coordinate_key("0.0e"), vec!['0', '.', '0', 'e']);
    assert_eq!(coordinate_key("0.0e+"), vec!['0', '.', '0', 'e', '+']);
    assert_eq!(coordinate_key("0.1e5"), vec!['0', '.', '1', 'e', '5']);
    assert_eq!(coordinate_key("1.0"), vec!['1', '.', '0']);
}

fn keys_of(lines: &[&str]) -> CoordinateKeys {
    let mut keys = CoordinateKeys::new();
    for l in lines {
        keys.add_vertex(&line_fields(l));
    }
    keys
}

#[test]
fn constant_axes_of_a_line() {
    let along_z = keys_of(&["v 1.0 2.0 0.0", "v 1.0 2.0 1.0", "v 1.0 2.0 2.0"]);
    assert_eq!(along_z.distinct_count(0), 1);
    assert_eq!(along_z.distinct_count(2), 3);
    assert_eq!(along_z.constant_axes_1d().unwrap(), [1, 0]);
    let along_x = keys_of(&["v 0.0 -0.0 0.0", "v 1.0 0.0 -0.0"]);
    assert_eq!(along_x.constant_axes_1d().unwrap(), [2, 1]);
    let along_y = keys_of(&["v 3 0 4", "v 3 1 4"]);
    assert_eq!(along_y.constant_axes_1d().unwrap(), [2, 0]);
    let plane = keys_of(&["v 0 0 0", "v 1 1 0"]);
    let e = plane.constant_axes_1d().unwrap_err();
    assert_eq!(
        mesh_error_message(&e),
        "Only coordinates over a line paralell to x, y or z axis are accepted. Check .obj file."
    );
}

#[test]
fn constant_axis_of_a_plane() {
    assert_eq!(keys_of(&["v 0 1 2", "v 0 3 4"]).constant_axis_2d().unwrap(), 0);
    assert_eq!(keys_of(&["v 1 5 2", "v 3 5 4"]).constant_axis_2d().unwrap(), 1);
    assert_eq!(keys_of(&["v 1 2 0.0", "v 3 4 -0.0"]).constant_axis_2d().unwrap(), 2);
    let e = keys_of(&["v 0 0 0", "v 1 1 1"]).constant_axis_2d().unwrap_err();
    assert_eq!(
        mesh_error_message(&e),
        "Only coordinates over a plane paralell to x, y or z plane are accepted. Check .obj file."
    );
}

#[test]
fn boundary_of_two_triangles() {
    // Two triangles sharing the edge 0-2.
    let mut b = boundary_vertices(&[0, 1, 2, 0, 2, 3]);
    b.sort();
    assert_eq!(b, vec![0, 1, 2, 3]);
    // The shared edge 1-2 is named (2, 1) by one triangle and (1, 2) by the
    // other: it is still shared, and every vertex lies on a single edge.
    let mut c = boundary_vertices(&[0, 1, 2, 3, 2, 1]);
    c.sort();
    assert_eq!(c, vec![0, 1, 2, 3]);
    // Three triangles around vertex 0 in a closed fan leave 0 inside.
    let mut d = boundary_vertices(&[0, 1, 2, 0, 2, 3, 0, 3, 1]);
    d.sort();
    assert_eq!(d, vec![1, 2, 3]);
    // The same triangle twice has no single edge.
    assert!(boundary_vertices(&[4, 5, 6, 4, 5, 6]).is_empty());
    assert!(boundary_vertices(&[]).is_empty());
}

#[test]
fn bar_of_one_two_and_three_vertices() {
    assert_eq!(bar_indices(6), vec![0, 1, 1, 0, 1, 0]);
    assert_eq!(bar_indices(12), vec![0, 1, 2, 1, 3, 2]);
    assert_eq!(bar_indices(18), vec![0, 1, 3, 2, 5, 4, 1, 4, 3, 1, 2, 4]);
    for n in 1..10u32 {
        let idx = bar_indices(6 * n);
        assert_eq!(idx.len() % 3, 0);
        assert!(idx.iter().all(|&i| i < 2 * n));
    }
}

#[test]
fn generic_vertex_helpers() {
    let mut v = vec![1.0f64, 2.0, 3.0];
    remove_and_pad(&mut v, 1, 0.0);
    assert_eq!(v, vec![1.0, 3.0, 0.0]);
    let mut w = vec![1.0f64, 2.0, 3.0];
    drop_constant_axes(&mut w, [2, 0], 0.0);
    assert_eq!(w, vec![2.0, 0.0, 0.0]);
    let mut bar = vec![0.0f64, 0.0, 0.0, 0.0, 0.0, 1.0, 1.0, 0.0, 0.0, 0.0, 0.0, 1.0];
    append_raised_copy(&mut bar, 0.5);
    assert_eq!(bar.len(), 24);
    assert_eq!(bar[12..], [0.0, 0.5, 0.0, 0.0, 0.0, 1.0, 1.0, 0.5, 0.0, 0.0, 0.0, 1.0]);
    assert_eq!(filter_for_solving_1d(&bar), vec![0.0, 1.0]);
    apply_gradient_1d(&mut bar, &[0.25, 0.75], &[0.5, 0.125]);
    assert_eq!(bar[3], 0.25);
    assert_eq!(bar[5], 0.5);
    assert_eq!(bar[9], 0.75);
    assert_eq!(bar[11], 0.125);
    assert_eq!(bar[15], 0.25);
    assert_eq!(bar[23], 0.125);
    assert_eq!(bar[13], 0.5);
}

#[test]
fn builder_fields() {
    let b = MeshBuilder::new("assets/test.obj", MeshDimension::Two);
    assert_eq!(b.location(), "assets/test.obj");
    assert_eq!(b.dimension(), MeshDimension::Two);
    let b = b.with_vertex_body("assets/sphere.obj");
    assert_eq!(b.location(), "assets/test.obj");
    assert_ne!(Dimension::D2, Dimension::D3);
    let _ = IntErrorKind::Empty;
}

#[test]
fn loose_face_indices_take_the_first_field() {
    assert_eq!(loose_face_indices("f 1/2/3 4 7//9", u32::MAX as u64), Some(vec![0, 3, 6]));
    assert_eq!(loose_face_indices("f 2 3 4 5", u32::MAX as u64), Some(vec![1, 2, 3, 4]));
    assert_eq!(loose_face_indices("f", u32::MAX as u64), Some(vec![]));
    assert_eq!(loose_face_indices("f 0/1/1 2/2/2 3/3/3", u32::MAX as u64), None);
    assert_eq!(loose_face_indices("f 1/1/1 x 3", u32::MAX as u64), None);
    assert_eq!(loose_face_indices("f 4294967296", u32::MAX as u64), None);
    assert_eq!(loose_face_indices("f 4294967296", u64::MAX), Some(vec![4294967295]));
}

#[test]
fn near_zero_coordinates_are_distinct() {
    let keys = keys_of(&["v 0.0 1.0 2.0", "v 0.05 1.0 2.0"]);
    assert_eq!(keys.distinct_count(0), 2);
    assert_eq!(keys.distinct_count(1), 1);
    assert_eq!(keys.distinct_count(2), 1);
}

#[test]
fn square_around_a_centre_vertex() {
    // A square split into four triangles around vertex 4: each edge to the
    // centre is shared by two triangles, named in opposite directions.
    let mut b = boundary_vertices(&[0, 1, 4, 1, 2, 4, 2, 3, 4, 3, 0, 4]);
    b.sort();
    assert_eq!(b, vec![0, 1, 2, 3]);
}

#[test]
fn zero_keys_are_texts_of_zero() {
    for t in ["0", "0.0", "-0.0", "0.000", "+.0", "0.0e5", "-0E-3", "0.", "00.0", "0e+1"] {
        assert_eq!(coordinate_key(t), vec!['0', '.', '0'], "{}", t);
        assert_eq!(t.parse::<f32>().unwrap(), 0.0, "{}", t);
    }
    for t in ["0.05", "1.0", "-0.5", "0.1e5", "10"] {
        assert_ne!(coordinate_key(t), vec!['0', '.', '0'], "{}", t);
        assert_ne!(t.parse::<f32>().unwrap(), 0.0, "{}", t);
    }
}
