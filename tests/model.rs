use lair::output_error;

#[test]
fn output_error_is_predicted_minus_observed() {
    let err = output_error(&vec![3.0f32, 0.5, -1.0], &vec![1.0f32, 0.5, 2.0]);
    assert_eq!(err, vec![2.0, 0.0, -3.0]);
}

#[test]
fn output_error_of_empty_vectors() {
    assert_eq!(output_error(&Vec::<f32>::new(), &Vec::new()), Vec::<f32>::new());
}
