use devtools::matrix::{
    blank_separators, braced, from_columns, from_vec, notation, transpose, words, write_json,
    write_matrix, write_rows, Notation,
};

#[test]
fn transposing_mirrors_at_the_diagonal() {
    let m: [f64; 16] = [0., 1., 2., 3., 4., 5., 6., 7., 8., 9., 10., 11., 12., 13., 14., 15.];
    let t = transpose(&m);
    assert_eq!(t, [0., 4., 8., 12., 1., 5., 9., 13., 2., 6., 10., 14., 3., 7., 11., 15.]);
    assert_eq!(transpose(&t), m);
    let names = ["a"; 16];
    assert_eq!(transpose(&names), names);
}

#[test]
fn matrix_is_filled_from_twelve_or_sixteen_values() {
    let identity: [f64; 16] = [1., 0., 0., 0., 0., 1., 0., 0., 0., 0., 1., 0., 0., 0., 0., 1.];
    let twelve: Vec<f64> = (1..=12).map(|v| v as f64).collect();
    assert_eq!(
        from_vec(&twelve, identity),
        Some([1., 2., 3., 4., 5., 6., 7., 8., 9., 10., 11., 12., 0., 0., 0., 1.])
    );
    let sixteen: Vec<f64> = (1..=16).map(|v| v as f64).collect();
    let m = from_vec(&sixteen, identity).unwrap();
    assert_eq!(m.to_vec(), sixteen);
    for n in [0usize, 1, 11, 13, 15, 17] {
        let v = vec![0.5; n];
        assert_eq!(from_vec(&v, identity), None);
    }
}

#[test]
fn matrix_is_made_of_columns() {
    let m = from_columns([1, 2, 3], [4, 5, 6], [7, 8, 9], [10, 11, 12], 0, 100);
    assert_eq!(m, [1, 4, 7, 10, 2, 5, 8, 11, 3, 6, 9, 12, 0, 0, 0, 100]);
}

#[test]
fn separators_become_blanks() {
    assert_eq!(blank_separators("[1,2](3)\r\n4"), " 1 2  3   4");
    assert_eq!(blank_separators(""), "");
    assert_eq!(blank_separators("1.5 -2e3"), "1.5 -2e3");
    assert_eq!(blank_separators(",,"), "  ");
    assert_eq!(blank_separators("é,è"), "é è");
}

#[test]
fn words_are_what_stands_between_separators() {
    assert_eq!(words("Matrix([[1, 0.5],[-2e3 ,4]])"), vec!["Matrix", "1", "0.5", "-2e3", "4"]);
    assert_eq!(words("1 2\n3\r\n4"), vec!["1", "2", "3", "4"]);
    assert_eq!(words(""), Vec::<String>::new());
    assert_eq!(words(" ,[ ]\n"), Vec::<String>::new());
    assert_eq!(words("12"), vec!["12"]);
}

#[test]
fn text_is_put_in_braces_unless_it_has_them() {
    assert_eq!(braced("\"a\":1"), "{\"a\":1}");
    assert_eq!(braced("{\"a\":1}"), "{\"a\":1}");
    assert_eq!(braced("{"), "{");
    assert_eq!(braced(" {}"), "{ {}}");
}

#[test]
fn notations_are_known_by_name() {
    assert_eq!(notation("blender"), Some(Notation::Blender));
    assert_eq!(notation("np"), Some(Notation::Numpy));
    assert_eq!(notation("numpy"), Some(Notation::Numpy));
    assert_eq!(notation("json"), Some(Notation::Json));
    assert_eq!(notation("arr"), Some(Notation::Array));
    assert_eq!(notation("array"), Some(Notation::Array));
    assert_eq!(notation("cc"), Some(Notation::CloudCompare));
    assert_eq!(notation("CC"), None);
    assert_eq!(notation(""), None);
    assert_eq!(notation("matlab"), None);
}

fn cells() -> Vec<String> {
    (0..16).map(|i| format!("{}", i as f64 + 0.5)).collect()
}

#[test]
fn matrix_is_written_in_every_notation() {
    let c = cells();
    assert_eq!(
        write_matrix(Notation::Blender, &c),
        "Matrix([[0.5, 1.5, 2.5, 3.5],[4.5, 5.5, 6.5, 7.5],[8.5, 9.5, 10.5, 11.5],[12.5, 13.5, 14.5, 15.5]])"
    );
    assert_eq!(
        write_matrix(Notation::Numpy, &c),
        "np.array([[0.5, 1.5, 2.5, 3.5],[4.5, 5.5, 6.5, 7.5],[8.5, 9.5, 10.5, 11.5],[12.5, 13.5, 14.5, 15.5]])"
    );
    assert_eq!(
        write_matrix(Notation::Array, &c),
        "[0.5, 1.5, 2.5, 3.5, 4.5, 5.5, 6.5, 7.5, 8.5, 9.5, 10.5, 11.5, 12.5, 13.5, 14.5, 15.5]"
    );
    assert_eq!(
        write_matrix(Notation::CloudCompare, &c),
        "0.5 1.5 2.5 3.5\n4.5 5.5 6.5 7.5\n8.5 9.5 10.5 11.5\n12.5 13.5 14.5 15.5"
    );
    assert_eq!(
        write_matrix(Notation::Json, &c),
        "{\"colX\":{\"i\":0.5, \"j\":4.5, \"k\":8.5 }, \"colY\":{\"i\":1.5, \"j\":5.5, \"k\":9.5 }, \"colZ\":{\"i\":2.5, \"j\":6.5, \"k\":10.5 }, \"translation\":{\"i\":3.5, \"j\":7.5, \"k\":11.5 } }"
    );
    assert_eq!(write_json(&c), write_matrix(Notation::Json, &c));
    let ones = vec!["1".to_string(); 16];
    assert_eq!(write_rows(&ones, "<", "|", ">", ""), "<1111|1111|1111|1111>");
}
