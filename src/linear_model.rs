use vstd::prelude::*;
use vstd::std_specs::ops::{AddSpec, MulSpec, SubSpec};
use crate::matrix::{
    Matrix, augmented, augmented_spec, blend, mat_mul, mat_mul_bt, product, product_bt, seq_blend,
    seq_minus,
};
use crate::model::{Model, output_error};
use crate::scalar::{Scalar, arithmetic_total, exact, one, zero};
use crate::trainer::{GradientTrainer, answer_view};

verus! {

/// `a[off] * x[0] + ... + a[off + k - 1] * x[k - 1]`, summed from the left
/// starting at zero.
pub open spec fn dot<T: Scalar>(a: Seq<T>, off: int, x: Seq<T>, k: nat) -> T
    decreases k,
{
    if k == 0 {
        zero::<T>()
    } else {
        dot(a, off, x, (k - 1) as nat).add_spec(a[off + k - 1].mul_spec(x[k - 1]))
    }
}

/// `a[j] * y[0] + a[cols + j] * y[1] + ... ` over the first `k` rows of the
/// row-major `a`: column `j` of `a` dotted with `y`, summed from the left
/// starting at zero.
pub open spec fn column_dot<T: Scalar>(a: Seq<T>, cols: int, j: int, y: Seq<T>, k: nat) -> T
    decreases k,
{
    if k == 0 {
        zero::<T>()
    } else {
        column_dot(a, cols, j, y, (k - 1) as nat).add_spec(a[(k - 1) * cols + j].mul_spec(y[k - 1]))
    }
}

/// `w x + b`.
pub open spec fn affine<T: Scalar>(w: Matrix<T>, b: Seq<T>, x: Seq<T>) -> Seq<T> {
    Seq::new(w.rows as nat, |i: int| dot(w.data@, i * w.cols, x, w.cols as nat).add_spec(b[i]))
}

/// `wᵗ y`.
pub open spec fn transposed_product<T: Scalar>(w: Matrix<T>, y: Seq<T>) -> Seq<T> {
    Seq::new(w.cols as nat, |j: int| column_dot(w.data@, w.cols as int, j, y, w.rows as nat))
}

/// The outer product `y xᵗ`, row by row.
pub open spec fn outer<T: Scalar>(y: Seq<T>, x: Seq<T>) -> Seq<T> {
    Seq::new(y.len() * x.len(), |k: int| y[k / (x.len() as int)].mul_spec(x[k % (x.len() as int)]))
}

/// The first `m` columns of the row-major `rows` x `cols` matrix `a`.
pub open spec fn leading_columns<T>(a: Seq<T>, rows: nat, cols: nat, m: nat) -> Seq<T> {
    Seq::new(rows * m, |q: int| a[(q / (m as int)) * cols + q % (m as int)])
}

/// The last column of the row-major `rows` x `cols` matrix `a`.
pub open spec fn last_column<T>(a: Seq<T>, rows: nat, cols: nat) -> Seq<T> {
    Seq::new(rows, |i: int| a[i * cols + cols - 1])
}

/// The least-squares fit `y x1ᵗ g` of the outputs `y` (`n` x `d`) on the
/// inputs `x` (`m` x `d`), with `x1` the inputs with a row of ones appended
/// and `g` the inverse of `x1 x1ᵗ`: an `n` x `(m + 1)` matrix whose last
/// column is the bias.
pub open spec fn bulk_fit<T: Scalar>(x: Seq<T>, y: Seq<T>, g: Seq<T>, n: nat, m: nat, d: nat) -> Seq<T> {
    product(product_bt(y, augmented_spec(x, d), n, m + 1, d), g, n, m + 1, m + 1)
}

/// An affine layer `x ↦ w x + b`, whose weights and bias change only through
/// its trainer.
pub struct LinearModel<T, G> {
    pub trainer: G,
    pub ws: Matrix<T>,
    pub bs: Vec<T>,
}

proof fn lemma_row_offset(i: int, cols: int, j: int, rows: int)
    requires
        0 <= i < rows,
        0 <= j < cols,
    ensures
        0 <= i * cols + j < rows * cols,
        0 <= i * cols <= i * cols + j,
{
    assert(0 <= i * cols + j < rows * cols) by (nonlinear_arith)
        requires 0 <= i < rows, 0 <= j < cols;
    assert(0 <= i * cols) by (nonlinear_arith)
        requires 0 <= i, 0 <= cols;
}

impl<T: Scalar, G: GradientTrainer<T>> LinearModel<T, G> {
    /// A layer with weights `ws` and bias `bs`; `None` where `bs` does not
    /// have one element per row of `ws`.
    pub fn new(trainer: G, ws: Matrix<T>, bs: Vec<T>) -> (r: Option<Self>)
        requires
            ws.wf(),
            trainer.fits(ws.rows as nat, ws.cols as nat),
        ensures
            r is Some <==> bs.len() == ws.rows,
            r matches Some(m) ==> m.trainer == trainer && m.ws == ws && m.bs == bs,
    {
        if bs.len() == ws.rows {
            Some(LinearModel { trainer, ws, bs })
        } else {
            None
        }
    }

    /// Moves the weights and bias a fraction `a` of the way towards
    /// `other`'s: `(1 - a) * w + a * w'`.
    pub fn merge<H>(&mut self, a: T, other: &LinearModel<T, H>)
        requires
            arithmetic_total::<T>(),
            old(self).ws.wf(),
            old(self).bs.len() == old(self).ws.rows,
            other.ws.rows == old(self).ws.rows,
            other.ws.cols == old(self).ws.cols,
            other.ws.wf(),
            other.bs.len() == other.ws.rows,
        ensures
            final(self).trainer == old(self).trainer,
            final(self).ws.rows == old(self).ws.rows,
            final(self).ws.cols == old(self).ws.cols,
            final(self).ws.wf(),
            final(self).bs.len() == old(self).bs.len(),
            exact::<T>() ==> {
                let keep = one::<T>().sub_spec(a);
                &&& final(self).ws.data@ == seq_blend(keep, old(self).ws.data@, a, other.ws.data@)
                &&& final(self).bs@ == seq_blend(keep, old(self).bs@, a, other.bs@)
            },
    {
        let keep = T::from(1u8) - a;
        let ws = blend(keep, &self.ws.data, a, &other.ws.data);
        let bs = blend(keep, &self.bs, a, &other.bs);
        self.ws = Matrix { rows: self.ws.rows, cols: self.ws.cols, data: ws };
        self.bs = bs;
    }

    /// Closed-form least squares over the columns of `x` (inputs) and `y`
    /// (outputs), given the inverse `gram_inverse` of the Gram matrix of
    /// `augmented(x)` (see `gram`), or `None` where it is singular. The fit
    /// `bulk_fit` splits into the weights (its first columns) and the bias
    /// (its last column). Without an inverse the model is left as it was.
    pub fn update_bulk(&mut self, x: &Matrix<T>, y: &Matrix<T>, gram_inverse: Option<&Matrix<T>>) -> (r:
        Result<(), String>)
        requires
            old(self).wf(),
            arithmetic_total::<T>(),
            x.wf(),
            y.wf(),
            x.rows == old(self).ws.cols,
            y.rows == old(self).ws.rows,
            x.cols == y.cols,
            x.rows < usize::MAX,
            (x.rows + 1) * x.cols <= usize::MAX,
            y.rows * (x.rows + 1) <= usize::MAX,
            gram_inverse matches Some(g) ==> g.wf() && g.rows == x.rows + 1 && g.cols == x.rows + 1,
        ensures
            r is Err <==> gram_inverse is None,
            r is Err ==> *final(self) == *old(self),
            final(self).wf(),
            final(self).trainer == old(self).trainer,
            final(self).ws.rows == old(self).ws.rows,
            final(self).ws.cols == old(self).ws.cols,
            r is Ok ==> exact::<T>() ==> {
                let n = y.rows as nat;
                let m = x.rows as nat;
                let w1 = bulk_fit(x.data@, y.data@, gram_inverse.unwrap().data@, n, m, x.cols as nat);
                &&& final(self).ws.data@ == leading_columns(w1, n, m + 1, m)
                &&& final(self).bs@ == last_column(w1, n, m + 1)
            },
    {
        let g = match gram_inverse {
            Some(g) => g,
            None => {
                return Err("cannot update_bulk, no inverse for the Gram matrix of the inputs".to_owned());
            },
        };
        let m = x.rows;
        let n = y.rows;
        let x1 = augmented(x);
        let yx = mat_mul_bt(y, &x1);
        let w1 = mat_mul(&yx, g);
        let ghost fit = w1.data@;
        let cols = m + 1;
        let mut ws: Vec<T> = Vec::new();
        let mut bs: Vec<T> = Vec::new();
        let mut i: usize = 0;
        assert(0 * m == 0);
        while i < n
            invariant
                w1.wf(),
                w1.rows == n,
                w1.cols == cols,
                cols == m + 1,
                fit == w1.data@,
                n * cols <= usize::MAX,
                i <= n,
                ws.len() == i * m,
                bs.len() == i,
                forall|q: int| 0 <= q < ws.len() ==> #[trigger] ws@[q] == leading_columns(fit, n as nat, cols as nat, m as nat)[q],
                forall|q: int| 0 <= q < bs.len() ==> #[trigger] bs@[q] == last_column(fit, n as nat, cols as nat)[q],
            decreases n - i,
        {
            let mut j: usize = 0;
            while j < m
                invariant
                    w1.wf(),
                    w1.rows == n,
                    w1.cols == cols,
                    cols == m + 1,
                    fit == w1.data@,
                    n * cols <= usize::MAX,
                    i < n,
                    j <= m,
                    ws.len() == i * m + j,
                    forall|q: int| 0 <= q < ws.len() ==> #[trigger] ws@[q] == leading_columns(fit, n as nat, cols as nat, m as nat)[q],
                decreases m - j,
            {
                proof {
                    lemma_row_offset(i as int, cols as int, j as int, n as int);
                    vstd::arithmetic::div_mod::lemma_fundamental_div_mod_converse(
                        i * m + j,
                        m as int,
                        i as int,
                        j as int,
                    );
                    lemma_row_offset(i as int, m as int, j as int, n as int);
                }
                ws.push(w1.data[i * cols + j]);
                j += 1;
            }
            proof {
                lemma_row_offset(i as int, cols as int, m as int, n as int);
                assert(i * m + m == (i + 1) * m) by (nonlinear_arith);
            }
            bs.push(w1.data[i * cols + m]);
            i += 1;
        }
        proof {
            if exact::<T>() {
                assert(ws@ =~= leading_columns(fit, n as nat, cols as nat, m as nat));
                assert(bs@ =~= last_column(fit, n as nat, cols as nat));
            }
        }
        self.ws = Matrix { rows: n, cols: m, data: ws };
        self.bs = bs;
        Ok(())
    }

    pub fn get_ws(&self) -> (w: &Matrix<T>)
        ensures
            *w == self.ws,
    {
        &self.ws
    }

    /// `ws x + bs`.
    fn affine_map(&self, x: &Vec<T>) -> (y: Vec<T>)
        requires
            self.wf(),
            arithmetic_total::<T>(),
            x.len() == self.ws.cols,
        ensures
            y.len() == self.ws.rows,
            exact::<T>() ==> y@ == affine(self.ws, self.bs@, x@),
    {
        let rows = self.ws.rows;
        let cols = self.ws.cols;
        let mut y: Vec<T> = Vec::new();
        let mut i: usize = 0;
        while i < rows
            invariant
                self.wf(),
                arithmetic_total::<T>(),
                x.len() == cols,
                rows == self.ws.rows,
                cols == self.ws.cols,
                y.len() == i <= rows,
                exact::<T>() ==> forall|k: int|
                    0 <= k < i ==> #[trigger] y[k] == affine(self.ws, self.bs@, x@)[k],
            decreases rows - i,
        {
            let mut acc = T::from(0u8);
            let mut j: usize = 0;
            while j < cols
                invariant
                    self.wf(),
                    arithmetic_total::<T>(),
                    x.len() == cols,
                    rows == self.ws.rows,
                    cols == self.ws.cols,
                    i < rows,
                    j <= cols,
                    exact::<T>() ==> acc == dot(self.ws.data@, i * cols, x@, j as nat),
                decreases cols - j,
            {
                proof {
                    lemma_row_offset(i as int, cols as int, j as int, rows as int);
                }
                acc = acc + self.ws.data[i * cols + j] * x[j];
                j += 1;
            }
            y.push(acc + self.bs[i]);
            i += 1;
        }
        assert(exact::<T>() ==> y@ =~= affine(self.ws, self.bs@, x@));
        y
    }

    /// `wsᵗ de_dy`.
    fn input_gradient(&self, de_dy: &Vec<T>) -> (de_dx: Vec<T>)
        requires
            self.wf(),
            arithmetic_total::<T>(),
            de_dy.len() == self.ws.rows,
        ensures
            de_dx.len() == self.ws.cols,
            exact::<T>() ==> de_dx@ == transposed_product(self.ws, de_dy@),
    {
        let rows = self.ws.rows;
        let cols = self.ws.cols;
        let mut de_dx: Vec<T> = Vec::new();
        let mut j: usize = 0;
        while j < cols
            invariant
                self.wf(),
                arithmetic_total::<T>(),
                de_dy.len() == rows,
                rows == self.ws.rows,
                cols == self.ws.cols,
                de_dx.len() == j <= cols,
                exact::<T>() ==> forall|k: int|
                    0 <= k < j ==> #[trigger] de_dx[k] == transposed_product(self.ws, de_dy@)[k],
            decreases cols - j,
        {
            let mut acc = T::from(0u8);
            let mut i: usize = 0;
            while i < rows
                invariant
                    self.wf(),
                    arithmetic_total::<T>(),
                    de_dy.len() == rows,
                    rows == self.ws.rows,
                    cols == self.ws.cols,
                    j < cols,
                    i <= rows,
                    exact::<T>() ==> acc == column_dot(self.ws.data@, cols as int, j as int, de_dy@, i as nat),
                decreases rows - i,
            {
                proof {
                    lemma_row_offset(i as int, cols as int, j as int, rows as int);
                }
                acc = acc + self.ws.data[i * cols + j] * de_dy[i];
                i += 1;
            }
            de_dx.push(acc);
            j += 1;
        }
        assert(exact::<T>() ==> de_dx@ =~= transposed_product(self.ws, de_dy@));
        de_dx
    }
}

/// The outer product `y xᵗ`, a `y.len()` x `x.len()` matrix.
pub fn outer_product<T: Scalar>(y: &Vec<T>, x: &Vec<T>) -> (m: Matrix<T>)
    requires
        arithmetic_total::<T>(),
        y.len() * x.len() <= usize::MAX,
    ensures
        m.wf(),
        m.rows == y.len(),
        m.cols == x.len(),
        exact::<T>() ==> m.data@ == outer(y@, x@),
{
    let mut data: Vec<T> = Vec::new();
    let mut i: usize = 0;
    while i < y.len()
        invariant
            arithmetic_total::<T>(),
            y.len() * x.len() <= usize::MAX,
            i <= y.len(),
            data.len() == i * x.len(),
            exact::<T>() ==> forall|a: int, b: int|
                0 <= a < i && 0 <= b < x.len() ==> #[trigger] data@[a * x.len() + b] == y[a].mul_spec(x[b]),
        decreases y.len() - i,
    {
        let mut j: usize = 0;
        while j < x.len()
            invariant
                arithmetic_total::<T>(),
                y.len() * x.len() <= usize::MAX,
                i < y.len(),
                j <= x.len(),
                data.len() == i * x.len() + j,
                exact::<T>() ==> forall|a: int, b: int|
                    0 <= a < i && 0 <= b < x.len() ==> #[trigger] data@[a * x.len() + b] == y[a].mul_spec(x[b]),
                exact::<T>() ==> forall|b: int|
                    0 <= b < j ==> #[trigger] data@[i * x.len() + b] == y[i as int].mul_spec(x[b]),
            decreases x.len() - j,
        {
            proof {
                lemma_row_offset(i as int, x.len() as int, j as int, y.len() as int);
            }
            let ghost prev = data@;
            data.push(y[i] * x[j]);
            proof {
                if exact::<T>() {
                    assert forall|a: int, b: int|
                        0 <= a < i && 0 <= b < x.len() implies #[trigger] data@[a * x.len() + b]
                        == y[a].mul_spec(x[b]) by {
                        assert(a * x.len() + b < i * x.len()) by (nonlinear_arith)
                            requires 0 <= a < i, 0 <= b < x.len();
                        assert(data@[a * x.len() + b] == prev[a * x.len() + b]);
                    }
                }
            }
            j += 1;
        }
        proof {
            assert(i * x.len() + x.len() == (i + 1) * x.len()) by (nonlinear_arith);
            if exact::<T>() {
                assert forall|a: int, b: int|
                    0 <= a < i + 1 && 0 <= b < x.len() implies #[trigger] data@[a * x.len() + b]
                    == y[a].mul_spec(x[b]) by {
                    if a == i {
                    }
                }
            }
        }
        i += 1;
    }
    proof {
        if exact::<T>() {
            let m = x.len() as int;
            assert forall|k: int| 0 <= k < data.len() implies #[trigger] data@[k] == outer(y@, x@)[k] by {
                vstd::arithmetic::div_mod::lemma_fundamental_div_mod(k, m);
                let a = k / m;
                let b = k % m;
                assert(k == a * m + b) by (nonlinear_arith)
                    requires k == m * (k / m) + k % m, a == k / m, b == k % m;
                assert(0 <= a < y.len()) by (nonlinear_arith)
                    requires k == a * m + b, 0 <= b < m, 0 <= k < y.len() * m;
            }
            assert(data@ =~= outer(y@, x@));
        }
    }
    Matrix { rows: y.len(), cols: x.len(), data }
}

impl<T: Scalar, G: GradientTrainer<T>> Model<T> for LinearModel<T, G> {
    open spec fn wf(&self) -> bool {
        &&& self.ws.wf()
        &&& self.bs.len() == self.ws.rows
        &&& self.trainer.fits(self.ws.rows as nat, self.ws.cols as nat)
    }

    open spec fn input_dim(&self) -> nat {
        self.ws.cols as nat
    }

    open spec fn output_dim(&self) -> nat {
        self.ws.rows as nat
    }

    open spec fn prediction(&self, x: Seq<T>) -> Seq<T> {
        affine(self.ws, self.bs@, x)
    }

    /// Returns `wsᵗ de_dy`; the trainer is handed the weights, the bias, the
    /// weight gradient `de_dy xᵗ` and the bias gradient `de_dy`, and its
    /// answer replaces the weights and bias, or, where it defers, they stay.
    open spec fn backprop(&self, x: Seq<T>, de_dy: Seq<T>, de_dx: Seq<T>, next: Self) -> bool {
        &&& de_dx == transposed_product(self.ws, de_dy)
        &&& next.ws.rows == self.ws.rows
        &&& next.ws.cols == self.ws.cols
        &&& exists|r: Option<(Seq<T>, Seq<T>)>|
            {
                &&& #[trigger] self.trainer.trains(
                    self.ws.rows as nat,
                    self.ws.cols as nat,
                    self.ws.data@,
                    self.bs@,
                    outer(de_dy, x),
                    de_dy,
                    r,
                    next.trainer,
                )
                &&& match r {
                    Some((w, b)) => next.ws.data@ == w && next.bs@ == b,
                    None => next.ws.data@ == self.ws.data@ && next.bs@ == self.bs@,
                }
            }
    }

    /// Back-propagates the prediction minus the observation.
    open spec fn updates(&self, x: Seq<T>, y: Seq<T>, de_dx: Seq<T>, next: Self) -> bool {
        self.backprop(x, seq_minus(self.prediction(x), y), de_dx, next)
    }

    fn num_inputs(&self) -> (n: usize) {
        self.ws.cols
    }

    fn num_outputs(&self) -> (n: usize) {
        self.ws.rows
    }

    fn predict(&self, x: &Vec<T>) -> (y: Vec<T>) {
        self.affine_map(x)
    }

    /// Returns `wsᵗ de_dy`, and hands the trainer the gradient `de_dy xᵗ` of
    /// the weights and `de_dy` of the bias; where it answers with new
    /// parameters they replace the old ones.
    fn backpropagate(&mut self, x: &Vec<T>, de_dy: &Vec<T>) -> (de_dx: Vec<T>) {
        let input_error = self.input_gradient(de_dy);
        proof {
            assert(de_dy.len() * x.len() <= usize::MAX) by (nonlinear_arith)
                requires de_dy.len() * x.len() == self.ws.data.len(), self.ws.data.len() <= usize::MAX;
        }
        let grad = outer_product(de_dy, x);
        let answer = self.trainer.train(&self.ws, &self.bs, &grad, de_dy);
        let ghost answered = answer_view(answer);
        match answer {
            Some((ws, bs)) => {
                self.ws = ws;
                self.bs = bs;
            },
            None => {},
        }
        input_error
    }

    fn update(&mut self, x: &Vec<T>, y: &Vec<T>) -> (de_dx: Vec<T>) {
        let yh = self.predict(x);
        let err = output_error(&yh, y);
        self.backpropagate(x, &err)
    }
}

} // verus!
