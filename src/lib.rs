//! Composable differentiable models over fixed-length vectors, generic over
//! their element type: affine layers, a thresholding layer, a two-stage
//! composer and a shared-weight 2-D convolution over any model, trained by
//! plain, batched or momentum gradient steps.
//!
//! Shapes are checked when a model is built and preserved by training.
//! Values computed by arithmetic are stated for element types whose
//! operations follow their specification (`scalar::exact`); the data movement
//! of the convolution and the bookkeeping of batches hold for every type.

pub mod batch;
pub mod conv2d;
pub mod img;
pub mod layered_model;
pub mod linear_model;
pub mod matrix;
pub mod model;
pub mod relu;
pub mod scalar;
pub mod trainer;

pub use batch::GradientBatch;
pub use conv2d::{Conv2d, ConvShape};
pub use img::overlay_matrix_to_vector;
pub use layered_model::LayeredModel;
pub use linear_model::LinearModel;
pub use matrix::Matrix;
pub use model::{Model, output_error};
pub use relu::Relu;
pub use scalar::Scalar;
pub use trainer::{BatchTrainer, GradientTrainer, MomentumTrainer, SGDTrainer, UpdateParams};
