use lair::{LayeredModel, LinearModel, Matrix, Model, SGDTrainer, UpdateParams};

fn dense(n_in: usize, n_out: usize, step: f32) -> LinearModel<f32, SGDTrainer<f32>> {
    dense_scaled(n_in, n_out, step, 0.5)
}

/// Deterministic weights of magnitude up to `2 * scale`, in place of random ones.
fn dense_scaled(n_in: usize, n_out: usize, step: f32, scale: f32) -> LinearModel<f32, SGDTrainer<f32>> {
    let ws = (0..n_in * n_out).map(|k| ((k * 7 % 5) as f32 - 2.0) * scale).collect();
    let params = UpdateParams { step_size: step, l2_reg: 0.0 };
    LinearModel::new(SGDTrainer::new(&params), Matrix::new(n_out, n_in, ws).unwrap(), vec![0.1; n_out]).unwrap()
}

fn f(x: &Vec<f32>) -> Vec<f32> {
    vec![2.0 * x[0] * x[0] - 3.0 * x[1] + x[1] * x[2] - 6.0]
}

fn norm(v: &Vec<f32>) -> f32 {
    v.iter().map(|e| e * e).sum::<f32>().sqrt()
}

#[test]
fn create_layered_model() {
    let model = LayeredModel::new(dense(3, 2, 1e-6), dense(2, 1, 1e-6)).unwrap();
    assert_eq!(model.num_inputs(), 3);
    assert_eq!(model.num_outputs(), 1);
}

#[test]
fn computes_gradient() {
    let mut model =
        LayeredModel::new(dense_scaled(3, 2, 1e-6, 5.0), dense_scaled(2, 1, 1e-6, 5.0)).unwrap();
    let x = vec![7.5f32, -10.0, 3.75];
    let y = f(&x);
    let yh = model.predict(&x);
    model.update(&x, &y);
    let yh1 = model.predict(&x);
    let e0 = norm(&lair::output_error(&yh, &y));
    let e1 = norm(&lair::output_error(&yh1, &y));
    assert!(e1 < e0, "error {} -> {}", e0, e1);
}

#[test]
fn layered_rejects_mismatched_stages() {
    assert!(LayeredModel::new(dense(3, 2, 1e-3), dense(3, 1, 1e-3)).is_none());
}

#[test]
fn layered_predict_composes() {
    let model0 = dense(3, 2, 1e-3);
    let model1 = dense(2, 1, 1e-3);
    let x = vec![0.5f32, -1.0, 2.0];
    let expected = model1.predict(&model0.predict(&x));
    let model = LayeredModel::new(model0, model1).unwrap();
    assert_eq!(model.predict(&x), expected);
}

#[test]
fn layered_backpropagate_applies_chain_rule() {
    let mut model0 = dense(3, 2, 0.0);
    let mut model1 = dense(2, 1, 0.0);
    let x = vec![0.5f32, -1.0, 2.0];
    let de_dy = vec![2.0f32];
    let p = model0.predict(&x);
    let de_dp = model1.backpropagate(&p, &de_dy);
    let expected = model0.backpropagate(&x, &de_dp);
    let mut model = LayeredModel::new(dense(3, 2, 0.0), dense(2, 1, 0.0)).unwrap();
    assert_eq!(model.backpropagate(&x, &de_dy), expected);
}

#[test]
fn repeated_updates_reduce_error() {
    let mut model = LayeredModel::new(dense(3, 2, 1e-3), dense(2, 1, 1e-3)).unwrap();
    let x = vec![1.5f32, -2.0, 0.75];
    let y = f(&x);
    let mut last = norm(&lair::output_error(&model.predict(&x), &y));
    for _ in 0..5 {
        model.update(&x, &y);
        let e = norm(&lair::output_error(&model.predict(&x), &y));
        assert!(e < last, "error {} -> {}", last, e);
        last = e;
    }
}
