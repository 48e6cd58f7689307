use lair::{Conv2d, ConvShape, LinearModel, Matrix, Model, SGDTrainer, UpdateParams};

/// Pools a patch of `n_in` elements to their sum, with a step size of zero so
/// that training leaves it as it is; its input gradient repeats the output
/// gradient on every element.
fn sum_pool(n_in: usize) -> LinearModel<f32, SGDTrainer<f32>> {
    let params = UpdateParams { step_size: 0.0f32, l2_reg: 0.0 };
    LinearModel::new(SGDTrainer::new(&params), Matrix::new(1, n_in, vec![1.0; n_in]).unwrap(), vec![0.0]).unwrap()
}

fn shape() -> ConvShape {
    ConvShape::new(2, 3, 1, 1, 3, 4).unwrap()
}

fn counting_input() -> Vec<f32> {
    (0..12).map(|i| i as f32 + 1.0).collect()
}

#[test]
fn create_conv_model() {
    let params = UpdateParams { step_size: 1e-6f32, l2_reg: 0.0 };
    let ws = Matrix::new(1, 6, vec![0.5, -0.25, 0.75, 0.1, -0.6, 0.3]).unwrap();
    let pooler = LinearModel::new(SGDTrainer::new(&params), ws, vec![0.2]).unwrap();
    let mut cnn = Conv2d::new(shape(), pooler).unwrap();
    let x: Vec<f32> = (0..12).map(|i| (i as f32) * 0.25 - 1.0).collect();
    let y = vec![0.5, -0.5, 1.0, 2.0];
    let yh = cnn.predict(&x);
    assert_eq!(yh.len(), 4);
    let de_dx = cnn.update(&x, &y);
    assert_eq!(de_dx.len(), 12);
}

#[test]
fn extracts_input_patch() {
    let s = shape();
    let input = counting_input();
    assert_eq!(s.get_input_patch(&input, 1, 1), vec![6.0, 7.0, 8.0, 10.0, 11.0, 12.0]);
    assert_eq!(s.get_input_patch(&input, 0, 1), vec![2.0, 3.0, 4.0, 6.0, 7.0, 8.0]);
    assert_eq!(s.get_input_patch(&input, 1, 0), vec![5.0, 6.0, 7.0, 9.0, 10.0, 11.0]);
    assert_eq!(s.get_input_patch(&input, 0, 0), vec![1.0, 2.0, 3.0, 5.0, 6.0, 7.0]);
}

#[test]
fn extracts_output_patch() {
    let s = shape();
    let output = vec![1.0f32, 2.0, 3.0, 4.0];
    assert_eq!(s.get_output_error_patch(&output, 0, 0), vec![1.0]);
    assert_eq!(s.get_output_error_patch(&output, 1, 0), vec![3.0]);
    assert_eq!(s.get_output_error_patch(&output, 1, 1), vec![4.0]);
    assert_eq!(s.get_output_error_patch(&output, 0, 1), vec![2.0]);
}

#[test]
fn patches_output() {
    let s = shape();
    let mut output = vec![0.0f32; 4];
    let pooled = vec![1.0f32];
    s.patch_output(&pooled, &mut output, 0, 0);
    assert_eq!(output, vec![1.0, 0.0, 0.0, 0.0]);
    s.patch_output(&pooled, &mut output, 1, 1);
    assert_eq!(output, vec![1.0, 0.0, 0.0, 1.0]);
    s.patch_output(&pooled, &mut output, 1, 0);
    assert_eq!(output, vec![1.0, 0.0, 1.0, 1.0]);
    s.patch_output(&pooled, &mut output, 0, 1);
    assert_eq!(output, vec![1.0, 1.0, 1.0, 1.0]);
}

#[test]
fn patches_error() {
    let s = shape();
    let mut pooled_error = vec![0.0f32; 12];
    let err = vec![1.0f32; 6];
    s.patch_error(&err, &mut pooled_error, 0, 0);
    assert_eq!(
        pooled_error,
        vec![1.0, 1.0, 1.0, 0.0, 1.0, 1.0, 1.0, 0.0, 0.0, 0.0, 0.0, 0.0]
    );
    s.patch_error(&err, &mut pooled_error, 1, 0);
    assert_eq!(
        pooled_error,
        vec![1.0, 1.0, 1.0, 0.0, 2.0, 2.0, 2.0, 0.0, 1.0, 1.0, 1.0, 0.0]
    );
    s.patch_error(&err, &mut pooled_error, 1, 1);
    assert_eq!(
        pooled_error,
        vec![1.0, 1.0, 1.0, 0.0, 2.0, 3.0, 3.0, 1.0, 1.0, 2.0, 2.0, 1.0]
    );
    s.patch_error(&err, &mut pooled_error, 0, 1);
    assert_eq!(
        pooled_error,
        vec![1.0, 2.0, 2.0, 1.0, 2.0, 4.0, 4.0, 2.0, 1.0, 2.0, 2.0, 1.0]
    );
}

#[test]
fn shape_rejects_patch_larger_than_input() {
    assert!(ConvShape::new(4, 3, 1, 1, 3, 4).is_none());
    assert!(ConvShape::new(2, 5, 1, 1, 3, 4).is_none());
    assert!(ConvShape::new(3, 4, 1, 1, 3, 4).is_some());
}

#[test]
fn shape_rejects_sizes_beyond_usize() {
    assert!(ConvShape::new(1, 1, usize::MAX, 1, 2, 2).is_none());
    assert!(ConvShape::new(1, 1, 1, usize::MAX, 2, 2).is_none());
    assert!(ConvShape::new(0, 0, 1, 1, usize::MAX, 2).is_none());
}

#[test]
fn conv_rejects_mismatched_pooler() {
    assert!(Conv2d::new(shape(), sum_pool(5)).is_none());
    let wide = ConvShape::new(2, 3, 1, 2, 3, 4).unwrap();
    assert!(Conv2d::new(wide, sum_pool(6)).is_none());
}

#[test]
fn conv_dimensions() {
    let cnn = Conv2d::new(ConvShape::new(2, 2, 3, 1, 4, 5).unwrap(), sum_pool(12)).unwrap();
    assert_eq!(cnn.num_inputs(), 60);
    assert_eq!(cnn.num_outputs(), 12);
}

#[test]
fn conv_predicts_every_grid_position() {
    let cnn = Conv2d::new(shape(), sum_pool(6)).unwrap();
    // patch sums of 1..12 laid out 3 x 4, patches 2 x 3
    assert_eq!(cnn.predict(&counting_input()), vec![24.0, 30.0, 48.0, 54.0]);
}

#[test]
fn conv_with_channels_keeps_channel_fastest() {
    // 2 x 2 input of 2 channels, 1 x 1 patches: every patch is one cell's channels
    let s = ConvShape::new(1, 1, 2, 1, 2, 2).unwrap();
    let x = vec![1.0f32, 10.0, 2.0, 20.0, 3.0, 30.0, 4.0, 40.0];
    assert_eq!(s.get_input_patch(&x, 1, 0), vec![3.0, 30.0]);
    let cnn = Conv2d::new(s, sum_pool(2)).unwrap();
    assert_eq!(cnn.predict(&x), vec![11.0, 22.0, 33.0, 44.0]);
}

#[test]
fn conv_uniform_input_pools_alike() {
    let cnn = Conv2d::new(shape(), sum_pool(6)).unwrap();
    let y = cnn.predict(&vec![0.5f32; 12]);
    assert_eq!(y, vec![3.0, 3.0, 3.0, 3.0]);
}

#[test]
fn conv_backpropagate_accumulates_over_whole_grid() {
    let mut cnn = Conv2d::new(shape(), sum_pool(6)).unwrap();
    let de_dx = cnn.backpropagate(&counting_input(), &vec![1.0f32; 4]);
    assert_eq!(
        de_dx,
        vec![1.0, 2.0, 2.0, 1.0, 2.0, 4.0, 4.0, 2.0, 1.0, 2.0, 2.0, 1.0]
    );
}

#[test]
fn conv_update_backpropagates_prediction_minus_target() {
    let mut cnn = Conv2d::new(shape(), sum_pool(6)).unwrap();
    // predictions are 24, 30, 48, 54
    let y = vec![23.0f32, 30.0, 46.0, 54.0];
    let de_dx = cnn.update(&counting_input(), &y);
    // errors 1, 0, 2, 0 spread over the patches at (0,0) and (1,0)
    assert_eq!(
        de_dx,
        vec![1.0, 1.0, 1.0, 0.0, 3.0, 3.0, 3.0, 0.0, 2.0, 2.0, 2.0, 0.0]
    );
}
