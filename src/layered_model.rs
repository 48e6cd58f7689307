use vstd::prelude::*;
use crate::matrix::seq_minus;
use crate::model::{Model, output_error};
use crate::scalar::{Scalar, arithmetic_total};

verus! {

/// Two models in sequence: `model0` feeds `model1`.
pub struct LayeredModel<A, B> {
    pub model0: A,
    pub model1: B,
}

impl<A, B> LayeredModel<A, B> {
    /// Composes the two models; `None` where the output of `model0` does not
    /// have the length of the input of `model1`.
    pub fn new<T: Scalar>(model0: A, model1: B) -> (r: Option<Self>) where
        A: Model<T>,
        B: Model<T>,

        requires
            model0.wf(),
            model1.wf(),
        ensures
            model0.output_dim() == model1.input_dim() <==> r is Some,
            r matches Some(m) ==> m.model0 == model0 && m.model1 == model1,
    {
        if model0.num_outputs() == model1.num_inputs() {
            Some(LayeredModel { model0, model1 })
        } else {
            None
        }
    }
}

impl<T: Scalar, A: Model<T>, B: Model<T>> Model<T> for LayeredModel<A, B> {
    open spec fn wf(&self) -> bool {
        &&& self.model0.wf()
        &&& self.model1.wf()
        &&& self.model0.output_dim() == self.model1.input_dim()
    }

    open spec fn input_dim(&self) -> nat {
        self.model0.input_dim()
    }

    open spec fn output_dim(&self) -> nat {
        self.model1.output_dim()
    }

    open spec fn prediction(&self, x: Seq<T>) -> Seq<T> {
        self.model1.prediction(self.model0.prediction(x))
    }

    /// Chain rule: `model1` carries `de_dy` back to the gradient `de_dp` at
    /// `model0`'s prediction, then `model0` carries `de_dp` back to `x`.
    open spec fn backprop(&self, x: Seq<T>, de_dy: Seq<T>, de_dx: Seq<T>, next: Self) -> bool {
        exists|de_dp: Seq<T>|
            {
                &&& #[trigger] self.model1.backprop(
                    self.model0.prediction(x),
                    de_dy,
                    de_dp,
                    next.model1,
                )
                &&& self.model0.backprop(x, de_dp, de_dx, next.model0)
            }
    }

    /// Back-propagates the prediction minus the observation.
    open spec fn updates(&self, x: Seq<T>, y: Seq<T>, de_dx: Seq<T>, next: Self) -> bool {
        self.backprop(x, seq_minus(self.prediction(x), y), de_dx, next)
    }

    fn num_inputs(&self) -> (n: usize) {
        self.model0.num_inputs()
    }

    fn num_outputs(&self) -> (n: usize) {
        self.model1.num_outputs()
    }

    fn predict(&self, x: &Vec<T>) -> (y: Vec<T>) {
        let p = self.model0.predict(x);
        self.model1.predict(&p)
    }

    /// Chain rule: the gradient at the intermediate value is carried back
    /// through `model1`, then through `model0`.
    fn backpropagate(&mut self, x: &Vec<T>, de_dy: &Vec<T>) -> (de_dx: Vec<T>) {
        let p = self.model0.predict(x);
        let de_dp = self.model1.backpropagate(&p, de_dy);
        self.model0.backpropagate(x, &de_dp)
    }

    fn update(&mut self, x: &Vec<T>, y: &Vec<T>) -> (de_dx: Vec<T>) {
        let yh = self.predict(x);
        let err = output_error(&yh, y);
        self.backpropagate(x, &err)
    }
}

/// Composition law: a layered model predicts what its second model predicts
/// on the prediction of its first.
pub proof fn lemma_layered_prediction<T: Scalar, A: Model<T>, B: Model<T>>(
    m: LayeredModel<A, B>,
    x: Seq<T>,
)
    ensures
        m.prediction(x) == m.model1.prediction(m.model0.prediction(x)),
{
}

} // verus!
