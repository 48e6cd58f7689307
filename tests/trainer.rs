use lair::{BatchTrainer, GradientTrainer, Matrix, MomentumTrainer, SGDTrainer, UpdateParams};

const UPDATE_PARAMS: UpdateParams<f32> = UpdateParams {
    l2_reg: 0.0,
    step_size: 0.001,
};

fn row(a: f32, b: f32) -> Matrix<f32> {
    Matrix::new(1, 2, vec![a, b]).unwrap()
}

#[test]
fn sgd_trainer_updates() {
    let mut sgd = SGDTrainer::new(&UPDATE_PARAMS);
    let ws = row(0.0, 0.0);
    let b = vec![0.0f32];
    let gradient = row(1.0, 1.0);
    let bias_gradient = vec![1.0f32];
    match sgd.train(&ws, &b, &gradient, &bias_gradient) {
        Some((new_ws, new_bs)) => {
            // -1/2 * step_size
            assert_eq!(new_ws, row(-0.0005, -0.0005));
            assert_eq!(new_bs, vec![-0.0005]);
        }
        None => assert!(false, "sgd trainer failed to update"),
    }
}

#[test]
fn batch_trainer_updates() {
    let mut bt = BatchTrainer::new(&UPDATE_PARAMS, 2);
    let ws = row(0.0, 0.0);
    let b = vec![0.0f32];
    let g0 = row(0.0, 1.0);
    let bg0 = vec![0.25f32];
    assert_eq!(bt.train(&ws, &b, &g0, &bg0), None);

    let g1 = row(1.0, 0.0);
    let bg1 = vec![0.75f32];
    assert_eq!(
        bt.train(&ws, &b, &g1, &bg1),
        Some((row(-0.00025, -0.00025), vec![-0.00025]))
    );

    assert_eq!(bt.train(&ws, &b, &g0, &bg0), None);
}

#[test]
fn momentum_trainer_updates() {
    let sgd = SGDTrainer::new(&UPDATE_PARAMS);
    let mut mgd = MomentumTrainer::new(0.5f32, sgd);

    let ws = row(0.0, 0.0);
    let b = vec![0.0f32];
    let gradient = row(1.0, 1.0);
    let bias_gradient = vec![1.0f32];

    let (new_ws, new_bs) = match mgd.train(&ws, &b, &gradient, &bias_gradient) {
        Some((new_ws, new_bs)) => {
            // -1/2 * step_size
            assert_eq!(new_ws, row(-0.0005, -0.0005));
            assert_eq!(new_bs, vec![-0.0005]);
            (new_ws, new_bs)
        }
        None => {
            assert!(false, "sgd trainer failed to update");
            (ws, b)
        }
    };

    let gradient = row(-1.0, -1.0);
    let bias_gradient = vec![-1.0f32];

    match mgd.train(&new_ws, &new_bs, &gradient, &bias_gradient) {
        Some((ws1, bs1)) => {
            // slows down the steps
            assert_eq!(ws1, row(-0.00025, -0.00025));
            assert_eq!(bs1, vec![-0.00025]);
        }
        None => assert!(false, "momentum trainer failed to update"),
    }
}

#[test]
fn sgd_applies_weight_decay_to_weights_only() {
    let params = UpdateParams { l2_reg: 0.5f32, step_size: 0.25 };
    let mut sgd = SGDTrainer::new(&params);
    let ws = Matrix::new(1, 1, vec![2.0f32]).unwrap();
    let (w, b) = sgd
        .train(&ws, &vec![2.0], &Matrix::new(1, 1, vec![4.0]).unwrap(), &vec![4.0])
        .unwrap();
    // (1 - 0.5) * 2 - 0.25 * 4 = 0, and 2 - 0.25 * 4 = 1
    assert_eq!(w, Matrix::new(1, 1, vec![0.0]).unwrap());
    assert_eq!(b, vec![1.0]);
}

#[test]
fn sgd_normalises_step_by_fan_in() {
    let params = UpdateParams { l2_reg: 0.0f32, step_size: 1.0 };
    let mut sgd = SGDTrainer::new(&params);
    let ws = Matrix::new(1, 4, vec![0.0f32; 4]).unwrap();
    let g = Matrix::new(1, 4, vec![1.0f32, 2.0, 3.0, 4.0]).unwrap();
    let (w, _) = sgd.train(&ws, &vec![0.0], &g, &vec![0.0]).unwrap();
    assert_eq!(w.data, vec![-0.25, -0.5, -0.75, -1.0]);
}

#[test]
fn batch_trainer_averages_three_gradients() {
    let params = UpdateParams { l2_reg: 0.0f32, step_size: 1.0 };
    let mut bt = BatchTrainer::new(&params, 3);
    let ws = Matrix::new(1, 1, vec![0.0f32]).unwrap();
    let b = vec![0.0f32];
    let g = |v: f32| Matrix::new(1, 1, vec![v]).unwrap();
    assert_eq!(bt.train(&ws, &b, &g(3.0), &vec![0.0]), None);
    assert_eq!(bt.train(&ws, &b, &g(6.0), &vec![3.0]), None);
    let (w, bias) = bt.train(&ws, &b, &g(0.0), &vec![0.0]).unwrap();
    // mean gradients 3 and 1
    assert_eq!(w.data, vec![-3.0]);
    assert_eq!(bias, vec![-1.0]);
}

#[test]
fn momentum_defers_with_inner_trainer() {
    let bt = BatchTrainer::new(&UPDATE_PARAMS, 2);
    let mut mgd = MomentumTrainer::new(0.5f32, bt);
    let ws = row(0.0, 0.0);
    assert_eq!(mgd.train(&ws, &vec![0.0], &row(1.0, 1.0), &vec![1.0]), None);
    assert!(mgd.velocity.is_none());
    assert!(mgd.train(&ws, &vec![0.0], &row(1.0, 1.0), &vec![1.0]).is_some());
    assert!(mgd.velocity.is_some());
}

#[test]
fn matrix_rejects_wrong_length() {
    assert!(Matrix::new(2, 3, vec![0.0f32; 5]).is_none());
    assert!(Matrix::new(2, 3, vec![0.0f32; 6]).is_some());
    assert!(Matrix::new(usize::MAX, 2, Vec::<f32>::new()).is_none());
}

#[test]
fn momentum_step_cases() {
    let ws = row(1.0, 2.0);
    let b = vec![1.0f32];
    // deferred: no answer, velocity kept
    let (r, v) = lair::trainer::momentum_step(0.5f32, None, &ws, &b, None);
    assert!(r.is_none() && v.is_none());
    // first update: passed through, its step becomes the velocity
    let (r, v) = lair::trainer::momentum_step(0.5f32, None, &ws, &b, Some((row(0.0, 1.0), vec![0.0])));
    assert_eq!(r, Some((row(0.0, 1.0), vec![0.0])));
    assert_eq!(v, Some((row(-1.0, -1.0), vec![-1.0])));
    // later update: v' = 0.5 v - (w - w1), answer w + v'
    let (r, v) = lair::trainer::momentum_step(0.5f32, v, &ws, &b, Some((row(0.0, 2.0), vec![1.0])));
    assert_eq!(v, Some((row(-1.5, -0.5), vec![-0.5])));
    assert_eq!(r, Some((row(-0.5, 1.5), vec![0.5])));
}
