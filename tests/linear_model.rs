use lair::{LinearModel, Matrix, Model, SGDTrainer, UpdateParams};

const LEARNING_PARAMS: UpdateParams<f32> = UpdateParams {
    step_size: 0.001,
    l2_reg: 0.0,
};

fn model(ws: Vec<f32>, bs: Vec<f32>) -> LinearModel<f32, SGDTrainer<f32>> {
    let rows = bs.len();
    let cols = ws.len() / rows;
    LinearModel::new(SGDTrainer::new(&LEARNING_PARAMS), Matrix::new(rows, cols, ws).unwrap(), bs).unwrap()
}

fn sq(v: f32) -> f32 {
    v * v
}

#[test]
fn linear_model_test_create_linear_model() {
    let model = model(vec![0.3, -0.7], vec![0.2]);
    assert_eq!(model.num_inputs(), 2);
    assert_eq!(model.num_outputs(), 1);
}

#[test]
fn update_linear_model_improves_estimate() {
    let mut model = model(vec![-120.0, 35.0], vec![80.0]);
    let x0 = vec![0.5f32, 1.0];
    let y0 = vec![2.0f32 * 1.0 + 1.0 * 1.0];
    model.update(&x0, &y0);
    let e0 = sq(y0[0] - model.predict(&x0)[0]);
    model.update(&x0, &y0);
    let e1 = sq(y0[0] - model.predict(&x0)[0]);
    assert!(e0 - e1 > 0.0, "failed to improve on update {} -> {}", e0, e1);
}

#[test]
fn update_linear_model_improves_backprop_error() {
    let mut model = model(vec![-120.0, 35.0], vec![80.0]);
    let f = |x: &Vec<f32>| 2.0 * x[0] - 0.1 * x[1] + 1.0;
    let x0 = vec![0.5f32, 1.0];
    let de0 = model.update(&x0, &vec![f(&x0)]);
    let x1 = vec![0.5f32, 1.0];
    let de1 = model.update(&x1, &vec![f(&x1)]);
    let e0 = de0.iter().map(|e| e * e).sum::<f32>().sqrt();
    let e1 = de1.iter().map(|e| e * e).sum::<f32>().sqrt();
    assert!(
        e0 - e1 > -2.0 * LEARNING_PARAMS.step_size,
        "failed to improve on update {} -> {}",
        e0,
        e1
    );
}

#[test]
fn model_test_create_linear_model() {
    let model = model(vec![1.0, 1.0], vec![0.0]);
    assert_eq!(model.num_inputs(), 2);
    assert_eq!(model.num_outputs(), 1);
}

#[test]
fn update_linear_model() {
    let mut model = model(vec![0.0, 0.0], vec![0.0]);
    let x0 = vec![0.5f32, 1.0];
    let y0 = vec![3.0f32];
    model.update(&x0, &y0);
    let e0 = sq(y0[0] - model.predict(&x0)[0]);
    model.update(&x0, &y0);
    let e1 = sq(y0[0] - model.predict(&x0)[0]);
    assert!(e0 - e1 > 0.0, "failed to improve on update {} -> {}", e0, e1);
}

#[test]
fn linear_predict_is_affine() {
    // w = [[2, 1], [0, -1]], b = [1, 0.5]
    let model = model(vec![2.0, 1.0, 0.0, -1.0], vec![1.0, 0.5]);
    assert_eq!(model.predict(&vec![0.5, 1.0]), vec![3.0, -0.5]);
    assert_eq!(model.predict(&vec![-0.5, -1.0]), vec![-1.0, 1.5]);
}

#[test]
fn linear_backpropagate_returns_transposed_gradient_and_trains() {
    let mut model = model(vec![2.0, 1.0, 0.0, -1.0], vec![1.0, 0.5]);
    let de_dx = model.backpropagate(&vec![1.0, 2.0], &vec![1.0, 3.0]);
    // wᵗ [1, 3] = [2, -2]
    assert_eq!(de_dx, vec![2.0, -2.0]);
    // step 0.001 / 2 on the gradient [1, 3] [1, 2]ᵗ
    assert_eq!(model.ws.data, vec![2.0 - 0.0005, 1.0 - 0.001, 0.0 - 0.0015, -1.0 - 0.003]);
    assert_eq!(model.bs, vec![1.0 - 0.0005, 0.5 - 0.0015]);
}

#[test]
fn linear_new_rejects_bias_of_wrong_length() {
    let ws = Matrix::new(2, 2, vec![0.0f32; 4]).unwrap();
    assert!(LinearModel::new(SGDTrainer::new(&LEARNING_PARAMS), ws, vec![0.0]).is_none());
}

#[test]
fn repeated_updates_reduce_squared_error() {
    let mut model = model(vec![0.5, -0.25], vec![0.0]);
    let x = vec![0.5f32, 1.0];
    let y = vec![3.0f32];
    let mut last = sq(y[0] - model.predict(&x)[0]);
    for _ in 0..10 {
        model.update(&x, &y);
        let e = sq(y[0] - model.predict(&x)[0]);
        assert!(e < last, "error {} -> {}", last, e);
        last = e;
    }
}

fn inverse_of_gram(x: &Matrix<f32>) -> Option<Matrix<f32>> {
    let g = lair::matrix::gram(&lair::matrix::augmented(x));
    let inv = nalgebra::DMatrix::from_row_slice(g.rows, g.cols, &g.data).try_inverse()?;
    Some(Matrix::new(g.rows, g.cols, inv.transpose().as_slice().to_vec()).unwrap())
}

fn fit(model: &mut LinearModel<f32, SGDTrainer<f32>>, x: &Matrix<f32>, y: &Matrix<f32>) -> Result<(), String> {
    model.update_bulk(x, y, inverse_of_gram(x).as_ref())
}

#[test]
fn linear_model_test_update_bulk_linear_model() {
    let mut model = model(vec![0.3, -0.7], vec![0.2]);
    let x = Matrix::new(2, 3, vec![2.0, 3.0, 4.0, 1.0, 4.0, 5.0]).unwrap();
    let y = Matrix::new(1, 3, vec![6.0, 11.0, 14.0]).unwrap();
    assert_eq!(fit(&mut model, &x, &y), Ok(()));
    let yh = model.predict(&vec![0.5, 1.0]);
    assert!((yh[0] - 3.0).abs() < 1e-6, "predicted {}", yh[0]);
}

#[test]
fn update_bulk_unconstrained_linear_model() {
    let mut model = model(vec![0.3, -0.7], vec![0.2]);
    let x = Matrix::new(2, 1, vec![2.0, 1.0]).unwrap();
    let y = Matrix::new(1, 1, vec![6.0]).unwrap();
    match fit(&mut model, &x, &y) {
        Ok(_) => panic!("update_bulk expected error from unconstrained update matrix"),
        Err(msg) => assert!(msg.starts_with("cannot update_bulk, no inverse for")),
    }
    assert_eq!(model.ws.data, vec![0.3, -0.7]);
    assert_eq!(model.bs, vec![0.2]);
}

#[test]
fn model_test_update_bulk_linear_model() {
    let mut model = model(vec![1.0, 1.0], vec![0.0]);
    let x = Matrix::new(2, 3, vec![2.0, 3.0, 4.0, 1.0, 4.0, 5.0]).unwrap();
    let y = Matrix::new(1, 3, vec![6.0, 11.0, 14.0]).unwrap();
    fit(&mut model, &x, &y).unwrap();
    let yh = model.predict(&vec![0.5, 1.0]);
    assert!((yh[0] - 3.0).abs() < 1e-6, "predicted {}", yh[0]);
}

#[test]
fn update_bulk_recovers_generating_parameters() {
    // y = 2 x0 - x1 + 0.5 at four points
    let mut model = model(vec![0.0, 0.0], vec![0.0]);
    let x = Matrix::new(2, 4, vec![0.0, 1.0, 2.0, 3.0, 1.0, 0.0, 2.0, 5.0]).unwrap();
    let y = Matrix::new(1, 4, vec![-0.5, 2.5, 2.5, 1.5]).unwrap();
    fit(&mut model, &x, &y).unwrap();
    assert!((model.ws.data[0] - 2.0).abs() < 1e-3);
    assert!((model.ws.data[1] + 1.0).abs() < 1e-3);
    assert!((model.bs[0] - 0.5).abs() < 1e-3);
}

#[test]
fn augmented_and_gram() {
    let x = Matrix::new(1, 2, vec![2.0f32, 3.0]).unwrap();
    let x1 = lair::matrix::augmented(&x);
    assert_eq!(x1, Matrix::new(2, 2, vec![2.0, 3.0, 1.0, 1.0]).unwrap());
    assert_eq!(lair::matrix::gram(&x1), Matrix::new(2, 2, vec![13.0, 5.0, 5.0, 2.0]).unwrap());
}

#[test]
fn merge_moves_towards_other() {
    let mut a = model(vec![0.0, 4.0], vec![2.0]);
    let b = model(vec![2.0, 0.0], vec![0.0]);
    a.merge(0.25, &b);
    assert_eq!(a.ws.data, vec![0.5, 3.0]);
    assert_eq!(a.bs, vec![1.5]);
}
