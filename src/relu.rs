use vstd::prelude::*;
use vstd::std_specs::cmp::PartialOrdSpec;
use core::cmp::Ordering;
use crate::model::Model;
use crate::scalar::{Scalar, arithmetic_total, exact, zero};

verus! {

pub open spec fn below<T: Scalar>(a: T, b: T) -> bool {
    a.partial_cmp_spec(&b) == Some(Ordering::Less)
}

pub open spec fn above<T: Scalar>(a: T, b: T) -> bool {
    a.partial_cmp_spec(&b) == Some(Ordering::Greater)
}

pub open spec fn at_most<T: Scalar>(a: T, b: T) -> bool {
    a.partial_cmp_spec(&b) matches Some(Ordering::Less | Ordering::Equal)
}

/// `p` with every element below zero replaced by zero: `max(0, p[i])`.
pub open spec fn clip<T: Scalar>(p: Seq<T>) -> Seq<T> {
    Seq::new(p.len(), |i: int| if below(p[i], zero::<T>()) { zero::<T>() } else { p[i] })
}

/// `de_dy` where `p` is above zero, zero elsewhere.
pub open spec fn gate<T: Scalar>(p: Seq<T>, de_dy: Seq<T>) -> Seq<T> {
    Seq::new(p.len(), |i: int| if above(p[i], zero::<T>()) { de_dy[i] } else { zero::<T>() })
}

/// `yh[i]` where `yh[i]` and `y[i]` are both at most zero, `y[i]` elsewhere.
pub open spec fn target<T: Scalar>(yh: Seq<T>, y: Seq<T>) -> Seq<T> {
    Seq::new(
        yh.len(),
        |i: int|
            if at_most(yh[i], zero::<T>()) && at_most(y[i], zero::<T>()) {
                yh[i]
            } else {
                y[i]
            },
    )
}

/// The error gradient, let through where the inner prediction `p` is above
/// zero and stopped elsewhere.
pub fn relu_gate<T: Scalar>(p: &Vec<T>, de_dy: &Vec<T>) -> (de_dp: Vec<T>)
    requires
        p.len() == de_dy.len(),
    ensures
        de_dp.len() == p.len(),
        exact::<T>() ==> de_dp@ == gate(p@, de_dy@),
{
    let z = T::from(0u8);
    let mut de_dp: Vec<T> = Vec::new();
    let mut i: usize = 0;
    while i < p.len()
        invariant
            p.len() == de_dy.len(),
            de_dp.len() == i <= p.len(),
            exact::<T>() ==> z == zero::<T>(),
            exact::<T>() ==> forall|k: int|
                0 <= k < i ==> #[trigger] de_dp[k] == if above(p[k], zero::<T>()) {
                    de_dy[k]
                } else {
                    zero::<T>()
                },
        decreases p.len() - i,
    {
        if p[i] > z {
            de_dp.push(de_dy[i]);
        } else {
            de_dp.push(z);
        }
        i += 1;
    }
    assert(exact::<T>() ==> de_dp@ =~= gate(p@, de_dy@));
    de_dp
}

/// The target that a thresholded layer trains its inner model towards: the
/// inner prediction `yh` where it and the observation `y` are both at most
/// zero, the observation elsewhere.
pub fn corrected_target<T: Scalar>(yh: &Vec<T>, y: &Vec<T>) -> (t: Vec<T>)
    requires
        yh.len() == y.len(),
    ensures
        t.len() == yh.len(),
        exact::<T>() ==> t@ == target(yh@, y@),
{
    let z = T::from(0u8);
    let mut t: Vec<T> = Vec::new();
    let mut i: usize = 0;
    while i < yh.len()
        invariant
            yh.len() == y.len(),
            t.len() == i <= yh.len(),
            exact::<T>() ==> z == zero::<T>(),
            exact::<T>() ==> forall|k: int|
                0 <= k < i ==> #[trigger] t[k] == if at_most(yh[k], zero::<T>()) && at_most(
                    y[k],
                    zero::<T>(),
                ) {
                    yh[k]
                } else {
                    y[k]
                },
        decreases yh.len() - i,
    {
        if yh[i] <= z && y[i] <= z {
            t.push(yh[i]);
        } else {
            t.push(y[i]);
        }
        i += 1;
    }
    assert(exact::<T>() ==> t@ =~= target(yh@, y@));
    t
}

/// A model whose outputs are those of `model` thresholded at zero.
pub struct Relu<M> {
    pub model: M,
}

impl<M> Relu<M> {
    pub fn new(model: M) -> (r: Self)
        ensures
            r.model == model,
    {
        Relu { model }
    }
}

impl<T: Scalar, M: Model<T>> Model<T> for Relu<M> {
    open spec fn wf(&self) -> bool {
        self.model.wf()
    }

    open spec fn input_dim(&self) -> nat {
        self.model.input_dim()
    }

    open spec fn output_dim(&self) -> nat {
        self.model.output_dim()
    }

    open spec fn prediction(&self, x: Seq<T>) -> Seq<T> {
        clip(self.model.prediction(x))
    }

    /// The inner model back-propagates `de_dy` gated by its own prediction.
    open spec fn backprop(&self, x: Seq<T>, de_dy: Seq<T>, de_dx: Seq<T>, next: Self) -> bool {
        self.model.backprop(x, gate(self.model.prediction(x), de_dy), de_dx, next.model)
    }

    /// The inner model is updated towards `target` of its own prediction and
    /// the observation.
    open spec fn updates(&self, x: Seq<T>, y: Seq<T>, de_dx: Seq<T>, next: Self) -> bool {
        self.model.updates(x, target(self.model.prediction(x), y), de_dx, next.model)
    }

    fn num_inputs(&self) -> (n: usize) {
        self.model.num_inputs()
    }

    fn num_outputs(&self) -> (n: usize) {
        self.model.num_outputs()
    }

    fn predict(&self, x: &Vec<T>) -> (y: Vec<T>) {
        let mut y = self.model.predict(x);
        let ghost p = y@;
        let z = T::from(0u8);
        let mut i: usize = 0;
        while i < y.len()
            invariant
                y.len() == p.len(),
                i <= y.len(),
                exact::<T>() ==> z == zero::<T>(),
                forall|k: int| i <= k < y.len() ==> #[trigger] y[k] == p[k],
                exact::<T>() ==> forall|k: int| 0 <= k < i ==> #[trigger] y[k] == clip(p)[k],
            decreases y.len() - i,
        {
            if y[i] < z {
                y.set(i, z);
            }
            i += 1;
        }
        assert(exact::<T>() ==> y@ =~= clip(p));
        y
    }

    /// Carries the gradient back where the inner prediction is above zero.
    fn backpropagate(&mut self, x: &Vec<T>, de_dy: &Vec<T>) -> (de_dx: Vec<T>) {
        let p = self.model.predict(x);
        let de_dp = relu_gate(&p, de_dy);
        self.model.backpropagate(x, &de_dp)
    }

    /// Trains the inner model towards `corrected_target` of its own
    /// prediction, rather than back-propagating a thresholded error.
    fn update(&mut self, x: &Vec<T>, y: &Vec<T>) -> (de_dx: Vec<T>) {
        let yh = self.model.predict(x);
        let target = corrected_target(&yh, y);
        self.model.update(x, &target)
    }
}

} // verus!
