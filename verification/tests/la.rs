use softrender::la::transpose;

#[test]
fn la_test_matrix_inv() {
    let m: [[f32; 4]; 4] = [
        [1.0, 2.0, 1.0, 0.0],
        [0.0, 2.0, 1.0, 3.0],
        [1.0, 2.0, 0.0, 1.0],
        [1.0, 2.0, 0.0, 3.0],
    ];
    let t = transpose(&m);
    assert_eq!(
        t,
        [
            [1.0, 0.0, 1.0, 1.0],
            [2.0, 2.0, 2.0, 2.0],
            [1.0, 1.0, 0.0, 0.0],
            [0.0, 3.0, 1.0, 3.0],
        ]
    );
    assert_eq!(transpose(&t), m);
}

#[test]
fn la_test_matrix() {
    let m1: [[f32; 3]; 1] = [[1.0, 1.1, 1.2]];
    let m2: [[f32; 1]; 3] = [[1.0], [2.0], [3.0]];
    assert_eq!(transpose(&m1), [[1.0], [1.1], [1.2]]);
    assert_eq!(transpose(&m2), [[1.0, 2.0, 3.0]]);
}

#[test]
fn vec_test_matrix_inv() {
    let m: [[f32; 4]; 4] = [
        [1.0, 2.0, 1.0, 0.0],
        [0.0, 2.0, 1.0, 3.0],
        [1.0, 2.0, 0.0, 1.0],
        [1.0, 2.0, 0.0, 3.0],
    ];
    for row in 0..4 {
        for column in 0..4 {
            assert_eq!(transpose(&m)[column][row], m[row][column]);
        }
    }
}

#[test]
fn vec_test_matrix() {
    let m1: [[f32; 3]; 1] = [[1.0, 1.1, 1.2]];
    let m2: [[f32; 1]; 3] = [[1.0], [2.0], [3.0]];
    assert_eq!(transpose(&transpose(&m1)), m1);
    assert_eq!(transpose(&transpose(&m2)), m2);
}

#[test]
fn transpose_turns_rows_into_columns() {
    let m: [[i32; 3]; 2] = [[1, 2, 3], [4, 5, 6]];
    assert_eq!(transpose(&m), [[1, 4], [2, 5], [3, 6]]);
}

#[test]
fn transpose_twice_is_the_matrix() {
    let m: [[u8; 2]; 3] = [[1, 2], [3, 4], [5, 6]];
    assert_eq!(transpose(&transpose(&m)), m);
    let square: [[i64; 3]; 3] = [[0, -1, 2], [3, 4, -5], [6, 7, 8]];
    assert_eq!(transpose(&transpose(&square)), square);
}

#[test]
fn transpose_of_nothing_is_nothing() {
    let no_rows: [[u8; 3]; 0] = [];
    assert_eq!(transpose(&no_rows), [[0u8; 0]; 3]);
    let no_columns: [[u8; 0]; 2] = [[], []];
    let t: [[u8; 2]; 0] = transpose(&no_columns);
    assert_eq!(t.len(), 0);
}
