use lair::overlay_matrix_to_vector;

#[test]
fn overlay_matrix_to_vector_simple() {
    let mut dest = vec![0.0f32; 12];
    let mat = vec![1.0f32; 2];
    overlay_matrix_to_vector(&mat, 1, 2, 1, 2, &mut dest, 3, 4);
    // column-major 3 x 4 with ones at (1, 2) and (1, 3)
    let expected = vec![0.0, 0.0, 0.0, 0.0, 0.0, 0.0, 0.0, 1.0, 0.0, 0.0, 1.0, 0.0];
    assert_eq!(dest, expected);
}

#[test]
fn overlay_keeps_column_major_order() {
    let mut dest = vec![0i32; 12];
    let mat = vec![1, 2, 3, 4];
    overlay_matrix_to_vector(&mat, 2, 2, 1, 1, &mut dest, 3, 4);
    assert_eq!(dest, vec![0, 0, 0, 0, 1, 2, 0, 3, 4, 0, 0, 0]);
}

#[test]
fn overlay_fills_whole_destination() {
    let mut dest = vec![9u8; 4];
    overlay_matrix_to_vector(&vec![1, 2, 3, 4], 2, 2, 0, 0, &mut dest, 2, 2);
    assert_eq!(dest, vec![1, 2, 3, 4]);
}
