use vstd::prelude::*;
use vstd::std_specs::ops::{AddSpec, DivSpec, MulSpec, SubSpec};
use crate::batch::{GradientBatch, record_step};
use crate::matrix::{
    Matrix, copied, minus, minus_scaled, plus, scale, scaled_minus, scaled_minus_scaled, seq_minus,
    seq_plus, seq_scaled_minus,
};
use crate::scalar::{Scalar, arithmetic_total, count_of, count_spec, exact, one};

verus! {

/// Learning rate and weight decay of a gradient step.
#[derive(Clone, Copy, Debug)]
pub struct UpdateParams<T> {
    pub l2_reg: T,
    pub step_size: T,
}

/// The step of a layer with `fan_in` inputs: the step size over the fan-in.
pub open spec fn sgd_step<T: Scalar>(params: UpdateParams<T>, fan_in: nat) -> T {
    params.step_size.div_spec(count_spec::<T>(fan_in))
}

/// Weights after a gradient step: `(1 - l2_reg) * w - step * g`.
pub open spec fn sgd_weights<T: Scalar>(l2_reg: T, step: T, w: Seq<T>, g: Seq<T>) -> Seq<T> {
    Seq::new(
        w.len(),
        |i: int| one::<T>().sub_spec(l2_reg).mul_spec(w[i]).sub_spec(step.mul_spec(g[i])),
    )
}

/// Bias after a gradient step: `b - step * g`.
pub open spec fn sgd_bias<T: Scalar>(step: T, b: Seq<T>, g: Seq<T>) -> Seq<T> {
    Seq::new(b.len(), |i: int| b[i].sub_spec(step.mul_spec(g[i])))
}

/// The first `k` of `gs` summed element by element, from the left.
pub open spec fn grad_sum<T: Scalar>(gs: Seq<Seq<T>>, k: nat) -> Seq<T>
    decreases k,
{
    if k <= 1 {
        gs[0]
    } else {
        seq_plus(grad_sum(gs, (k - 1) as nat), gs[k - 1])
    }
}

/// The mean of `gs`: their sum times the reciprocal of their number.
pub open spec fn grad_mean<T: Scalar>(gs: Seq<Seq<T>>) -> Seq<T> {
    let n1 = one::<T>().div_spec(count_spec::<T>(gs.len()));
    Seq::new(grad_sum(gs, gs.len()).len(), |i: int| grad_sum(gs, gs.len())[i].mul_spec(n1))
}

/// The view of a trainer's answer: new weights and bias, or nothing.
pub open spec fn answer_view<T>(r: Option<(Matrix<T>, Vec<T>)>) -> Option<(Seq<T>, Seq<T>)> {
    match r {
        Some(p) => Some((p.0.data@, p.1@)),
        None => None,
    }
}

/// Turns the gradient of one observation into new weights and bias, or
/// defers.
pub trait GradientTrainer<T: Scalar>: Sized {
    /// The trainer's state is ready for weights of `rows` x `cols`.
    spec fn fits(&self, rows: nat, cols: nat) -> bool;

    /// Given weights `w` of `rows` x `cols`, bias `b` and their gradients
    /// `gw` and `gb`, the trainer may answer `r` and become `next`.
    spec fn trains(
        &self,
        rows: nat,
        cols: nat,
        w: Seq<T>,
        b: Seq<T>,
        gw: Seq<T>,
        gb: Seq<T>,
        r: Option<(Seq<T>, Seq<T>)>,
        next: Self,
    ) -> bool;

    fn train(
        &mut self,
        weights: &Matrix<T>,
        bias: &Vec<T>,
        gradient: &Matrix<T>,
        bias_gradient: &Vec<T>,
    ) -> (r: Option<(Matrix<T>, Vec<T>)>)
        requires
            arithmetic_total::<T>(),
            weights.wf(),
            gradient.wf(),
            gradient.rows == weights.rows,
            gradient.cols == weights.cols,
            bias.len() == weights.rows,
            bias_gradient.len() == weights.rows,
            old(self).fits(weights.rows as nat, weights.cols as nat),
        ensures
            final(self).fits(weights.rows as nat, weights.cols as nat),
            r matches Some(p) ==> {
                &&& p.0.wf()
                &&& p.0.rows == weights.rows
                &&& p.0.cols == weights.cols
                &&& p.1.len() == bias.len()
            },
            exact::<T>() ==> old(self).trains(
                weights.rows as nat,
                weights.cols as nat,
                weights.data@,
                bias@,
                gradient.data@,
                bias_gradient@,
                answer_view(r),
                *final(self),
            ),
    ;
}

/// Applies the gradient at every call, with the step normalised by the
/// layer's fan-in.
#[derive(Clone, Copy, Debug)]
pub struct SGDTrainer<T> {
    pub update_params: UpdateParams<T>,
}

impl<T: Scalar> SGDTrainer<T> {
    pub fn new(update_params: &UpdateParams<T>) -> (t: Self)
        ensures
            t.update_params == *update_params,
    {
        SGDTrainer { update_params: *update_params }
    }
}

impl<T: Scalar> GradientTrainer<T> for SGDTrainer<T> {
    open spec fn fits(&self, rows: nat, cols: nat) -> bool {
        true
    }

    /// Always answers, with `sgd_weights` and `sgd_bias` at the step of a
    /// layer with `cols` inputs; the trainer does not change.
    open spec fn trains(
        &self,
        rows: nat,
        cols: nat,
        w: Seq<T>,
        b: Seq<T>,
        gw: Seq<T>,
        gb: Seq<T>,
        r: Option<(Seq<T>, Seq<T>)>,
        next: Self,
    ) -> bool {
        let step = sgd_step(self.update_params, cols);
        &&& next == *self
        &&& r == Some((sgd_weights(self.update_params.l2_reg, step, w, gw), sgd_bias(step, b, gb)))
    }

    fn train(
        &mut self,
        weights: &Matrix<T>,
        bias: &Vec<T>,
        gradient: &Matrix<T>,
        bias_gradient: &Vec<T>,
    ) -> (r: Option<(Matrix<T>, Vec<T>)>)
        ensures
            *final(self) == *old(self),
            r is Some,
            r matches Some(p) ==> exact::<T>() ==> {
                let step = sgd_step(old(self).update_params, weights.cols as nat);
                &&& p.0.data@ == sgd_weights(
                    old(self).update_params.l2_reg,
                    step,
                    weights.data@,
                    gradient.data@,
                )
                &&& p.1@ == sgd_bias(step, bias@, bias_gradient@)
            },
    {
        let step: T = self.update_params.step_size / count_of(weights.cols);
        let bias_result = minus_scaled(bias, step, bias_gradient);
        let keep = T::from(1u8) - self.update_params.l2_reg;
        let ws_result = scaled_minus_scaled(keep, &weights.data, step, &gradient.data);
        proof {
            if exact::<T>() {
                assert(ws_result@ =~= sgd_weights(
                    self.update_params.l2_reg,
                    step,
                    weights.data@,
                    gradient.data@,
                ));
                assert(bias_result@ =~= sgd_bias(step, bias@, bias_gradient@));
            }
        }
        Some((Matrix { rows: weights.rows, cols: weights.cols, data: ws_result }, bias_result))
    }
}

/// The weight gradients held by `b`, in slot order.
pub open spec fn held_weights<T>(b: GradientBatch<(Matrix<T>, Vec<T>)>) -> Seq<Seq<T>> {
    b.gradients().map_values(|p: (Matrix<T>, Vec<T>)| p.0.data@)
}

/// The bias gradients held by `b`, in slot order.
pub open spec fn held_biases<T>(b: GradientBatch<(Matrix<T>, Vec<T>)>) -> Seq<Seq<T>> {
    b.gradients().map_values(|p: (Matrix<T>, Vec<T>)| p.1@)
}

/// Collects the gradients of `batch_size` calls, deferring, and on the last
/// call of each batch applies one gradient step with their mean.
pub struct BatchTrainer<T> {
    pub batch: GradientBatch<(Matrix<T>, Vec<T>)>,
    pub sgd: SGDTrainer<T>,
}

impl<T: Scalar> BatchTrainer<T> {
    pub fn new(update_params: &UpdateParams<T>, batch_size: usize) -> (t: Self)
        requires
            batch_size > 0,
        ensures
            t.batch.wf(),
            t.batch.size() == batch_size,
            t.batch.position() == 0,
            t.batch.gradients().len() == 0,
            t.sgd.update_params == *update_params,
    {
        BatchTrainer { batch: GradientBatch::new(batch_size), sgd: SGDTrainer::new(update_params) }
    }
}

impl<T: Scalar> GradientTrainer<T> for BatchTrainer<T> {
    open spec fn fits(&self, rows: nat, cols: nat) -> bool {
        &&& self.batch.wf()
        &&& forall|i: int|
            0 <= i < self.batch.gradients().len() ==> {
                let p = #[trigger] self.batch.gradients()[i];
                &&& p.0.wf()
                &&& p.0.rows == rows
                &&& p.0.cols == cols
                &&& p.1.len() == rows
            }
    }

    /// Records the gradients in the current slot and, where that completes
    /// the batch, answers with a gradient step on the mean of the batch;
    /// otherwise defers.
    open spec fn trains(
        &self,
        rows: nat,
        cols: nat,
        w: Seq<T>,
        b: Seq<T>,
        gw: Seq<T>,
        gb: Seq<T>,
        r: Option<(Seq<T>, Seq<T>)>,
        next: Self,
    ) -> bool {
        let (pos, held_w, full) = record_step(
            self.batch.position(),
            self.batch.size(),
            held_weights(self.batch),
            gw,
        );
        let held_b = record_step(self.batch.position(), self.batch.size(), held_biases(self.batch), gb).1;
        let step = sgd_step(self.sgd.update_params, cols);
        &&& next.sgd == self.sgd
        &&& next.batch.size() == self.batch.size()
        &&& next.batch.position() == pos
        &&& held_weights(next.batch) == held_w
        &&& held_biases(next.batch) == held_b
        &&& r == if full {
            Some(
                (
                    sgd_weights(self.sgd.update_params.l2_reg, step, w, grad_mean(held_w)),
                    sgd_bias(step, b, grad_mean(held_b)),
                ),
            )
        } else {
            None
        }
    }

    fn train(
        &mut self,
        weights: &Matrix<T>,
        bias: &Vec<T>,
        gradient: &Matrix<T>,
        bias_gradient: &Vec<T>,
    ) -> (r: Option<(Matrix<T>, Vec<T>)>)
        ensures
            final(self).sgd == old(self).sgd,
            final(self).batch.size() == old(self).batch.size(),
            ({
                let (pos, held, full) = record_step(
                    old(self).batch.position(),
                    old(self).batch.size(),
                    held_weights(old(self).batch),
                    gradient.data@,
                );
                &&& final(self).batch.position() == pos
                &&& held_weights(final(self).batch) == held
                &&& held_biases(final(self).batch) == record_step(
                    old(self).batch.position(),
                    old(self).batch.size(),
                    held_biases(old(self).batch),
                    bias_gradient@,
                ).1
                &&& r is Some <==> full
            }),
            r matches Some(p) ==> exact::<T>() ==> {
                let step = sgd_step(old(self).sgd.update_params, weights.cols as nat);
                &&& p.0.data@ == sgd_weights(
                    old(self).sgd.update_params.l2_reg,
                    step,
                    weights.data@,
                    grad_mean(held_weights(final(self).batch)),
                )
                &&& p.1@ == sgd_bias(step, bias@, grad_mean(held_biases(final(self).batch)))
            },
    {
        let ghost old_batch = self.batch;
        proof {
            old_batch.lemma_wf();
        }
        let entry = (
            Matrix { rows: gradient.rows, cols: gradient.cols, data: copied(&gradient.data) },
            copied(bias_gradient),
        );
        let full = self.batch.record(entry);
        proof {
            self.batch.lemma_wf();
            let g0 = old_batch.gradients();
            let g1 = self.batch.gradients();
            if g0.len() == old_batch.position() {
                assert(g1 == g0.push(entry));
                assert(held_weights(self.batch) =~= held_weights(old_batch).push(gradient.data@));
                assert(held_biases(self.batch) =~= held_biases(old_batch).push(bias_gradient@));
            } else {
                assert(g1 == g0.update(old_batch.position() as int, entry));
                assert(held_weights(self.batch) =~= held_weights(old_batch).update(
                    old_batch.position() as int,
                    gradient.data@,
                ));
                assert(held_biases(self.batch) =~= held_biases(old_batch).update(
                    old_batch.position() as int,
                    bias_gradient@,
                ));
            }
            assert forall|i: int| 0 <= i < g1.len() implies {
                let p = #[trigger] g1[i];
                &&& p.0.wf()
                &&& p.0.rows == weights.rows
                &&& p.0.cols == weights.cols
                &&& p.1.len() == weights.rows
            } by {
                if i != old_batch.position() {
                    assert(g1[i] == g0[i]);
                }
            }
        }
        if !full {
            return None;
        }
        let ghost hw = held_weights(self.batch);
        let ghost hb = held_biases(self.batch);
        let grads = self.batch.gradients_vec();
        let mut sum_w = copied(&grads[0].0.data);
        let mut sum_b = copied(&grads[0].1);
        let mut k: usize = 1;
        while k < grads.len()
            invariant
                arithmetic_total::<T>(),
                grads@ == self.batch.gradients(),
                hw == held_weights(self.batch),
                hb == held_biases(self.batch),
                self.fits(weights.rows as nat, weights.cols as nat),
                weights.wf(),
                1 <= k <= grads.len(),
                sum_w.len() == weights.data.len(),
                sum_b.len() == weights.rows,
                exact::<T>() ==> sum_w@ == grad_sum(hw, k as nat),
                exact::<T>() ==> sum_b@ == grad_sum(hb, k as nat),
            decreases grads.len() - k,
        {
            let ghost p = grads@[k as int];
            assert(p == self.batch.gradients()[k as int]);
            sum_w = plus(&sum_w, &grads[k].0.data);
            sum_b = plus(&sum_b, &grads[k].1);
            k += 1;
        }
        let n1 = T::from(1u8) / count_of(self.batch.batch_size());
        let mean_w = scale(&sum_w, n1);
        let mean_b = scale(&sum_b, n1);
        proof {
            if exact::<T>() {
                assert(mean_w@ =~= grad_mean(hw));
                assert(mean_b@ =~= grad_mean(hb));
            }
        }
        let mean = Matrix { rows: weights.rows, cols: weights.cols, data: mean_w };
        self.sgd.train(weights, bias, &mean, &mean_b)
    }
}

/// The view of a velocity, as for an answer.
pub open spec fn velocity_view<T>(v: Option<(Matrix<T>, Vec<T>)>) -> Option<(Seq<T>, Seq<T>)> {
    answer_view(v)
}

/// One momentum step around the inner trainer's answer `inner` for weights
/// `w` and bias `b`, with the velocity `v` so far: the answer and the new
/// velocity.
///
/// - The inner trainer deferred: defer, and keep the velocity.
/// - First update `(w1, b1)`: answer it, and take `(w1 - w, b1 - b)` as the
///   velocity.
/// - Later updates `(w1, b1)`: the velocity becomes
///   `v' = momentum * v - (w - w1)` (and likewise for the bias), and the
///   answer is `(w + v'w, b + v'b)`.
pub open spec fn momentum_spec<T: Scalar>(
    momentum: T,
    v: Option<(Seq<T>, Seq<T>)>,
    w: Seq<T>,
    b: Seq<T>,
    inner: Option<(Seq<T>, Seq<T>)>,
) -> (Option<(Seq<T>, Seq<T>)>, Option<(Seq<T>, Seq<T>)>) {
    match inner {
        None => (None, v),
        Some((w1, b1)) => match v {
            None => (Some((w1, b1)), Some((seq_minus(w1, w), seq_minus(b1, b)))),
            Some((vw, vb)) => {
                let vw1 = seq_scaled_minus(momentum, vw, seq_minus(w, w1));
                let vb1 = seq_scaled_minus(momentum, vb, seq_minus(b, b1));
                (Some((seq_plus(w, vw1), seq_plus(b, vb1))), Some((vw1, vb1)))
            },
        },
    }
}

/// Shapes of a velocity, or of an answer, for weights of `rows` x `cols`.
pub open spec fn shaped<T>(v: Option<(Matrix<T>, Vec<T>)>, rows: nat, cols: nat) -> bool {
    v matches Some(p) ==> {
        &&& p.0.wf()
        &&& p.0.rows == rows
        &&& p.0.cols == cols
        &&& p.1.len() == rows
    }
}

/// Computes `momentum_spec`: the answer and the new velocity.
pub fn momentum_step<T: Scalar>(
    momentum: T,
    velocity: Option<(Matrix<T>, Vec<T>)>,
    weights: &Matrix<T>,
    bias: &Vec<T>,
    inner: Option<(Matrix<T>, Vec<T>)>,
) -> (r: (Option<(Matrix<T>, Vec<T>)>, Option<(Matrix<T>, Vec<T>)>))
    requires
        arithmetic_total::<T>(),
        weights.wf(),
        bias.len() == weights.rows,
        shaped(velocity, weights.rows as nat, weights.cols as nat),
        shaped(inner, weights.rows as nat, weights.cols as nat),
    ensures
        shaped(r.0, weights.rows as nat, weights.cols as nat),
        shaped(r.1, weights.rows as nat, weights.cols as nat),
        inner is None ==> r.0 is None && r.1 == velocity,
        inner is Some ==> r.0 is Some && r.1 is Some,
        exact::<T>() ==> (answer_view(r.0), velocity_view(r.1)) == momentum_spec(
            momentum,
            velocity_view(velocity),
            weights.data@,
            bias@,
            answer_view(inner),
        ),
{
    match inner {
        None => (None, velocity),
        Some((w1, b1)) => {
            match velocity {
                Some(v) => {
                    let gw = minus(&weights.data, &w1.data);
                    let gb = minus(bias, &b1);
                    let vw1 = scaled_minus(momentum, &v.0.data, &gw);
                    let vb1 = scaled_minus(momentum, &v.1, &gb);
                    let rw = plus(&weights.data, &vw1);
                    let rb = plus(bias, &vb1);
                    (
                        Some((Matrix { rows: weights.rows, cols: weights.cols, data: rw }, rb)),
                        Some((Matrix { rows: weights.rows, cols: weights.cols, data: vw1 }, vb1)),
                    )
                },
                None => {
                    let vw = minus(&w1.data, &weights.data);
                    let vb = minus(&b1, bias);
                    (
                        Some((w1, b1)),
                        Some((Matrix { rows: weights.rows, cols: weights.cols, data: vw }, vb)),
                    )
                },
            }
        },
    }
}

/// Carries part of each step into the next: the heavy-ball update
/// (Goodfellow, Bengio and Courville, section 8.3.2) around an inner trainer,
/// as `momentum_spec` states it. The inner trainer returns updated
/// parameters, not a step, so the step of an update `(w1, b1)` of `(w, b)` is
/// `w1 - w`, and the velocity adds it to `momentum` times the last velocity.
pub struct MomentumTrainer<T, G> {
    pub momentum: T,
    pub velocity: Option<(Matrix<T>, Vec<T>)>,
    pub gd: G,
}

impl<T: Scalar, G: GradientTrainer<T>> MomentumTrainer<T, G> {
    pub fn new(momentum: T, gd: G) -> (t: Self)
        ensures
            t.momentum == momentum,
            t.velocity is None,
            t.gd == gd,
    {
        MomentumTrainer { momentum, velocity: None, gd }
    }
}

impl<T: Scalar, G: GradientTrainer<T>> GradientTrainer<T> for MomentumTrainer<T, G> {
    open spec fn fits(&self, rows: nat, cols: nat) -> bool {
        &&& self.gd.fits(rows, cols)
        &&& shaped(self.velocity, rows, cols)
    }

    /// Hands the arguments unchanged to the inner trainer, which answers
    /// `inner` and becomes `next.gd`; the answer and the new velocity are
    /// `momentum_spec` of `inner`.
    open spec fn trains(
        &self,
        rows: nat,
        cols: nat,
        w: Seq<T>,
        b: Seq<T>,
        gw: Seq<T>,
        gb: Seq<T>,
        r: Option<(Seq<T>, Seq<T>)>,
        next: Self,
    ) -> bool {
        exists|inner: Option<(Seq<T>, Seq<T>)>|
            {
                &&& #[trigger] self.gd.trains(rows, cols, w, b, gw, gb, inner, next.gd)
                &&& next.momentum == self.momentum
                &&& (r, velocity_view(next.velocity)) == momentum_spec(
                    self.momentum,
                    velocity_view(self.velocity),
                    w,
                    b,
                    inner,
                )
            }
    }

    fn train(
        &mut self,
        weights: &Matrix<T>,
        bias: &Vec<T>,
        gradient: &Matrix<T>,
        bias_gradient: &Vec<T>,
    ) -> (r: Option<(Matrix<T>, Vec<T>)>) {
        let inner = self.gd.train(weights, bias, gradient, bias_gradient);
        let velocity = self.velocity.take();
        let (r, v) = momentum_step(self.momentum, velocity, weights, bias, inner);
        self.velocity = v;
        r
    }
}

} // verus!
