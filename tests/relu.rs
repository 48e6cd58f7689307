use lair::{LinearModel, Matrix, Model, Relu, SGDTrainer, UpdateParams};

const LEARNING_PARAMS: UpdateParams<f32> = UpdateParams {
    step_size: 0.01,
    l2_reg: 0.0,
};

/// A layer fitted by least squares to y = [6, 11, 14] on the inputs (2, 1),
/// (3, 4), (4, 5).
fn fitted() -> LinearModel<f32, SGDTrainer<f32>> {
    let mut model = LinearModel::new(
        SGDTrainer::new(&LEARNING_PARAMS),
        Matrix::new(1, 2, vec![0.3, -0.7]).unwrap(),
        vec![0.2],
    )
    .unwrap();
    let x = Matrix::new(2, 3, vec![2.0, 3.0, 4.0, 1.0, 4.0, 5.0]).unwrap();
    let y = Matrix::new(1, 3, vec![6.0, 11.0, 14.0]).unwrap();
    let g = lair::matrix::gram(&lair::matrix::augmented(&x));
    let inv = nalgebra::DMatrix::from_row_slice(3, 3, &g.data).try_inverse().unwrap();
    let inv = Matrix::new(3, 3, inv.transpose().as_slice().to_vec()).unwrap();
    assert_eq!(model.update_bulk(&x, &y, Some(&inv)), Ok(()));
    model
}

fn approx(a: f32, b: f32) -> bool {
    (a - b).abs() < 1e-6
}

#[test]
fn relu_test_create_linear_model() {
    let model = Relu::new(fitted());
    assert_eq!(model.num_inputs(), 2);
    assert_eq!(model.num_outputs(), 1);
}

#[test]
fn thresholds() {
    let model = Relu::new(fitted());
    let y0 = model.predict(&vec![0.5, 1.0]);
    assert!(approx(y0[0], 3.0));
    let y1 = model.predict(&vec![-0.5, -1.0]);
    assert!(approx(y1[0], 0.0));
}

#[test]
fn thresholds_update() {
    let mut model = Relu::new(fitted());
    // don't update contributions that should be thresholded
    model.update(&vec![-1.0, -1.0], &vec![0.0]);
    let y0 = model.predict(&vec![0.5, 1.0]);
    assert!(approx(y0[0], 3.0));
    // but update ones that should
    model.update(&vec![0.5, 1.0], &vec![4.0]);
    let y0 = model.predict(&vec![0.5, 1.0]);
    assert!(y0[0] > 3.0);
}

#[test]
fn relu_predict_is_max_with_zero() {
    let inner = LinearModel::new(
        SGDTrainer::new(&LEARNING_PARAMS),
        Matrix::new(3, 1, vec![1.0, -1.0, 0.0]).unwrap(),
        vec![0.0, 0.0, 0.0],
    )
    .unwrap();
    let model = Relu::new(inner);
    assert_eq!(model.predict(&vec![2.0]), vec![2.0, 0.0, 0.0]);
    assert_eq!(model.predict(&vec![-2.0]), vec![0.0, 2.0, 0.0]);
}

#[test]
fn relu_gate_stops_gradient_at_non_positive() {
    let g = lair::relu::relu_gate(&vec![1.0f32, 0.0, -1.0], &vec![5.0, 6.0, 7.0]);
    assert_eq!(g, vec![5.0, 0.0, 0.0]);
}

#[test]
fn corrected_target_keeps_thresholded_predictions() {
    let t = lair::relu::corrected_target(&vec![-1.0f32, -1.0, 2.0, 2.0], &vec![-3.0, 4.0, -3.0, 4.0]);
    assert_eq!(t, vec![-1.0, 4.0, -3.0, 4.0]);
}
