use vstd::prelude::*;
use crate::matrix::{minus, seq_minus};
use crate::scalar::{Scalar, arithmetic_total, exact};

verus! {

/// A differentiable map from `input_dim()` elements to `output_dim()`
/// elements, with a hand-written backward pass.
///
/// `backpropagate` and `update` may change the model's parameters, never its
/// dimensions. What each returns, and what the model becomes, is stated by
/// `prediction`, `backprop` and `updates` wherever the arithmetic of `T` is
/// exact.
pub trait Model<T: Scalar>: Sized {
    /// The model's parts agree with each other.
    spec fn wf(&self) -> bool;

    spec fn input_dim(&self) -> nat;

    spec fn output_dim(&self) -> nat;

    /// What `predict` returns for the input `x`.
    spec fn prediction(&self, x: Seq<T>) -> Seq<T>;

    /// `backpropagate(x, de_dy)` may return `de_dx` and leave the model as
    /// `next`.
    spec fn backprop(&self, x: Seq<T>, de_dy: Seq<T>, de_dx: Seq<T>, next: Self) -> bool;

    /// `update(x, y)` may return `de_dx` and leave the model as `next`.
    spec fn updates(&self, x: Seq<T>, y: Seq<T>, de_dx: Seq<T>, next: Self) -> bool;

    fn num_inputs(&self) -> (n: usize)
        requires
            self.wf(),
        ensures
            n == self.input_dim(),
    ;

    fn num_outputs(&self) -> (n: usize)
        requires
            self.wf(),
        ensures
            n == self.output_dim(),
    ;

    /// Runs the model on `x`; changes nothing.
    fn predict(&self, x: &Vec<T>) -> (y: Vec<T>)
        requires
            self.wf(),
            arithmetic_total::<T>(),
            x.len() == self.input_dim(),
        ensures
            y.len() == self.output_dim(),
            exact::<T>() ==> y@ == self.prediction(x@),
    ;

    /// Given the gradient `de_dy` of the error with respect to the output at
    /// input `x`, returns the gradient with respect to the input, training any
    /// parameters on the way.
    fn backpropagate(&mut self, x: &Vec<T>, de_dy: &Vec<T>) -> (de_dx: Vec<T>)
        requires
            old(self).wf(),
            arithmetic_total::<T>(),
            x.len() == old(self).input_dim(),
            de_dy.len() == old(self).output_dim(),
        ensures
            final(self).wf(),
            final(self).input_dim() == old(self).input_dim(),
            final(self).output_dim() == old(self).output_dim(),
            de_dx.len() == old(self).input_dim(),
            exact::<T>() ==> old(self).backprop(x@, de_dy@, de_dx@, *final(self)),
    ;

    /// Trains the model towards the observation `y` at input `x`, returning
    /// the gradient with respect to the input.
    fn update(&mut self, x: &Vec<T>, y: &Vec<T>) -> (de_dx: Vec<T>)
        requires
            old(self).wf(),
            arithmetic_total::<T>(),
            x.len() == old(self).input_dim(),
            y.len() == old(self).output_dim(),
        ensures
            final(self).wf(),
            final(self).input_dim() == old(self).input_dim(),
            final(self).output_dim() == old(self).output_dim(),
            de_dx.len() == old(self).input_dim(),
            exact::<T>() ==> old(self).updates(x@, y@, de_dx@, *final(self)),
    ;
}

/// The error signal of a prediction: predicted minus observed, element by
/// element.
pub fn output_error<T: Scalar>(predicted: &Vec<T>, observed: &Vec<T>) -> (err: Vec<T>)
    requires
        arithmetic_total::<T>(),
        predicted.len() == observed.len(),
    ensures
        err.len() == predicted.len(),
        exact::<T>() ==> err@ == seq_minus(predicted@, observed@),
{
    minus(predicted, observed)
}

} // verus!
