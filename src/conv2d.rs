use vstd::prelude::*;
use vstd::arithmetic::div_mod::{
    lemma_div_denominator, lemma_fundamental_div_mod, lemma_fundamental_div_mod_converse,
};
use vstd::std_specs::ops::AddSpec;
use crate::model::{Model, output_error};
use crate::matrix::seq_minus;
use crate::scalar::{Scalar, arithmetic_total, exact, zero};

verus! {

/// Geometry of a stride-one, unpadded 2-D convolution.
///
/// The input is an `in_rows` x `in_cols` grid of `in_depth` channels,
/// flattened with the channel varying fastest, then the column, then the row.
/// A patch is a `patch_rows` x `patch_cols` window of it, flattened the same
/// way. The pooling model maps each patch to `out_depth` values, and the output
/// holds one such block per grid position, in row-major order.
#[derive(Clone, Copy, Debug, PartialEq, Eq)]
pub struct ConvShape {
    pub patch_rows: usize,
    pub patch_cols: usize,
    pub in_depth: usize,
    pub out_depth: usize,
    pub in_rows: usize,
    pub in_cols: usize,
}

impl ConvShape {
    pub open spec fn out_rows(self) -> int {
        self.in_rows - self.patch_rows + 1
    }

    pub open spec fn out_cols(self) -> int {
        self.in_cols - self.patch_cols + 1
    }

    /// Number of grid positions.
    pub open spec fn positions(self) -> int {
        self.out_rows() * self.out_cols()
    }

    pub open spec fn patch_len(self) -> int {
        self.in_depth * (self.patch_rows * self.patch_cols)
    }

    pub open spec fn input_len(self) -> int {
        self.in_depth * (self.in_rows * self.in_cols)
    }

    pub open spec fn output_len(self) -> int {
        self.out_depth * self.positions()
    }

    /// The patches fit in the input, and every size fits in a `usize`.
    pub open spec fn wf(self) -> bool {
        &&& self.patch_rows <= self.in_rows
        &&& self.patch_cols <= self.in_cols
        &&& self.in_rows * self.in_cols <= usize::MAX
        &&& self.input_len() <= usize::MAX
        &&& self.patch_rows * self.patch_cols <= usize::MAX
        &&& self.patch_len() <= usize::MAX
        &&& self.positions() <= usize::MAX
        &&& self.output_len() <= usize::MAX
    }

    /// Offset in the flattened input of channel `k` at row `i`, column `j` of
    /// the patch whose corner is grid position (`r`, `c`).
    pub open spec fn input_offset(self, r: int, c: int, i: int, j: int, k: int) -> int {
        self.in_depth * ((r + i) * self.in_cols + (c + j)) + k
    }

    /// Offset in the flattened input of element `q` of the patch at (`r`, `c`).
    pub open spec fn patch_source(self, r: int, c: int, q: int) -> int {
        let d = self.in_depth as int;
        self.input_offset(r, c, q / (d * self.patch_cols), (q / d) % (self.patch_cols as int), q % d)
    }

    /// Offset in the output of value `t` of the block of grid position (`r`, `c`).
    pub open spec fn output_offset(self, r: int, c: int, t: int) -> int {
        self.out_depth * (r * self.out_cols() + c) + t
    }

    /// The patch at (`r`, `c`) of the input `x`.
    pub open spec fn patch<T>(self, x: Seq<T>, r: int, c: int) -> Seq<T> {
        Seq::new(self.patch_len() as nat, |q: int| x[self.patch_source(r, c, q)])
    }

    /// The output block of the `p`-th grid position in `y`.
    pub open spec fn block<T>(self, y: Seq<T>, p: int) -> Seq<T> {
        y.subrange(self.out_depth * p, self.out_depth * p + self.out_depth)
    }

    /// The patch of `x` at the `p`-th grid position.
    pub open spec fn position_patch<T>(self, x: Seq<T>, p: int) -> Seq<T> {
        self.patch(x, self.position_row(p), self.position_col(p))
    }

    /// Row of the `p`-th grid position, in row-major order.
    pub open spec fn position_row(self, p: int) -> int {
        p / self.out_cols()
    }

    /// Column of the `p`-th grid position, in row-major order.
    pub open spec fn position_col(self, p: int) -> int {
        p % self.out_cols()
    }

    /// `acc` after adding, for each of the first `k` grid positions in
    /// row-major order, the patch gradient `grads[p]` of the `p`-th position
    /// onto the input elements of its patch.
    pub open spec fn scatter<T: Scalar>(self, acc: Seq<T>, grads: Seq<Seq<T>>, k: nat) -> Seq<T>
        decreases k,
    {
        if k == 0 {
            acc
        } else {
            let prev = self.scatter(acc, grads, (k - 1) as nat);
            let r = self.position_row(k - 1);
            let c = self.position_col(k - 1);
            Seq::new(
                prev.len(),
                |n: int|
                    if self.in_patch(r, c, n) {
                        prev[n].add_spec(grads[k - 1][self.patch_index(r, c, n)])
                    } else {
                        prev[n]
                    },
            )
        }
    }

    /// `scatter` reads only the gradients of the positions it has reached.
    proof fn lemma_scatter_prefix<T: Scalar>(self, acc: Seq<T>, grads: Seq<Seq<T>>, g: Seq<T>, k: nat)
        requires
            k <= grads.len(),
        ensures
            self.scatter(acc, grads.push(g), k) == self.scatter(acc, grads, k),
        decreases k,
    {
        if k > 0 {
            self.lemma_scatter_prefix(acc, grads, g, (k - 1) as nat);
            assert(grads.push(g)[k - 1] == grads[k - 1]);
        }
    }

    /// (`r`, `c`) is a grid position.
    pub open spec fn on_grid(self, r: int, c: int) -> bool {
        0 <= r < self.out_rows() && 0 <= c < self.out_cols()
    }

    /// Grid row of input offset `n`.
    pub open spec fn cell_row(self, n: int) -> int {
        (n / (self.in_depth as int)) / (self.in_cols as int)
    }

    /// Grid column of input offset `n`.
    pub open spec fn cell_col(self, n: int) -> int {
        (n / (self.in_depth as int)) % (self.in_cols as int)
    }

    /// Channel of input offset `n`.
    pub open spec fn channel(self, n: int) -> int {
        n % (self.in_depth as int)
    }

    /// Input offset `n` lies in the patch at (`r`, `c`).
    pub open spec fn in_patch(self, r: int, c: int, n: int) -> bool {
        &&& r <= self.cell_row(n) < r + self.patch_rows
        &&& c <= self.cell_col(n) < c + self.patch_cols
    }

    /// Where input offset `n` sits in the flattened patch at (`r`, `c`).
    pub open spec fn patch_index(self, r: int, c: int, n: int) -> int {
        self.in_depth * ((self.cell_row(n) - r) * self.patch_cols + (self.cell_col(n) - c))
            + self.channel(n)
    }

    /// Element (`i`, `j`, `k`) of a patch is element `q` of its flattening,
    /// and it lies inside the input.
    proof fn lemma_patch_index(self, r: int, c: int, i: int, j: int, k: int)
        requires
            self.wf(),
            self.on_grid(r, c),
            0 <= i < self.patch_rows,
            0 <= j < self.patch_cols,
            0 <= k < self.in_depth,
        ensures
            0 <= i * self.patch_cols + j < self.patch_rows * self.patch_cols,
            0 <= self.in_depth * (i * self.patch_cols + j) + k < self.patch_len(),
            0 <= (r + i) * self.in_cols + (c + j) < self.in_rows * self.in_cols,
            self.patch_source(r, c, self.in_depth * (i * self.patch_cols + j) + k)
                == self.input_offset(r, c, i, j, k),
            0 <= self.input_offset(r, c, i, j, k) < self.input_len(),
            self.in_patch(r, c, self.input_offset(r, c, i, j, k)),
            self.patch_index(r, c, self.input_offset(r, c, i, j, k))
                == self.in_depth * (i * self.patch_cols + j) + k,
    {
        let d = self.in_depth as int;
        let pc = self.patch_cols as int;
        let q = d * (i * pc + j) + k;
        assert(q == (i * pc + j) * d + k) by (nonlinear_arith)
            requires q == d * (i * pc + j) + k;
        lemma_fundamental_div_mod_converse(q, d, i * pc + j, k);
        lemma_fundamental_div_mod_converse(i * pc + j, pc, i, j);
        lemma_div_denominator(q, d, pc);
        assert(0 <= i * pc + j < self.patch_rows * pc) by (nonlinear_arith)
            requires 0 <= i < self.patch_rows, 0 <= j < pc;
        assert(0 <= q < d * (self.patch_rows * pc)) by (nonlinear_arith)
            requires q == d * (i * pc + j) + k, 0 <= i * pc + j < self.patch_rows * pc, 0 <= k < d;
                let ic = self.in_cols as int;
        let cell = (r + i) * ic + (c + j);
        assert(0 <= cell < self.in_rows * ic) by (nonlinear_arith)
            requires
                cell == (r + i) * ic + (c + j),
                0 <= r + i < self.in_rows,
                0 <= c + j < ic,
        ;
        assert(0 <= d * cell + k < d * (self.in_rows * ic)) by (nonlinear_arith)
            requires 0 <= cell < self.in_rows * ic, 0 <= k < d;
        let n = self.input_offset(r, c, i, j, k);
        assert(n == cell * d + k) by (nonlinear_arith)
            requires n == d * cell + k;
        lemma_fundamental_div_mod_converse(n, d, cell, k);
        lemma_fundamental_div_mod_converse(cell, ic, r + i, c + j);
    }

    /// Every input offset in the patch at (`r`, `c`) is the image of its place
    /// in the flattened patch.
    proof fn lemma_patch_cell(self, r: int, c: int, n: int)
        requires
            self.wf(),
            self.on_grid(r, c),
            0 <= n < self.input_len(),
            self.in_patch(r, c, n),
        ensures
            0 <= self.patch_index(r, c, n) < self.patch_len(),
            self.patch_source(r, c, self.patch_index(r, c, n)) == n,
    {
        let d = self.in_depth as int;
        let ic = self.in_cols as int;
        if d == 0 {
            assert(self.input_len() == 0) by (nonlinear_arith)
                requires d == 0, self.input_len() == d * (self.in_rows * ic);
        }
        if ic == 0 {
            assert(self.input_len() == 0) by (nonlinear_arith)
                requires ic == 0, self.input_len() == d * (self.in_rows * ic);
        }
        lemma_fundamental_div_mod(n, d);
        lemma_fundamental_div_mod(n / d, ic);
        let i = self.cell_row(n) - r;
        let j = self.cell_col(n) - c;
        let k = self.channel(n);
        assert(n == d * ((r + i) * ic + (c + j)) + k) by (nonlinear_arith)
            requires
                n == d * (n / d) + n % d,
                n / d == ic * ((n / d) / ic) + (n / d) % ic,
                (n / d) / ic == r + i,
                (n / d) % ic == c + j,
                k == n % d,
        ;
        self.lemma_patch_index(r, c, i, j, k);
    }

    /// The geometry with these sizes; `None` where a patch does not fit in the
    /// input or a size does not fit in a `usize`.
    pub fn new(
        patch_rows: usize,
        patch_cols: usize,
        in_depth: usize,
        out_depth: usize,
        in_rows: usize,
        in_cols: usize,
    ) -> (r: Option<ConvShape>)
        ensures
            ({
                let s = ConvShape { patch_rows, patch_cols, in_depth, out_depth, in_rows, in_cols };
                match r {
                    Some(t) => t == s && s.wf(),
                    None => !s.wf(),
                }
            }),
    {
        let s = ConvShape { patch_rows, patch_cols, in_depth, out_depth, in_rows, in_cols };
        if s.is_valid() {
            Some(s)
        } else {
            None
        }
    }

    /// Checks the geometry: a patch fits in the input and every size fits in a
    /// `usize`.
    pub fn is_valid(&self) -> (r: bool)
        ensures
            r == self.wf(),
    {
        let s = *self;
        let patch_rows = self.patch_rows;
        let patch_cols = self.patch_cols;
        let in_depth = self.in_depth;
        let out_depth = self.out_depth;
        let in_rows = self.in_rows;
        let in_cols = self.in_cols;
        if patch_rows > in_rows || patch_cols > in_cols {
            return false;
        }
        let out_rows = match (in_rows - patch_rows).checked_add(1) {
            Some(v) => v,
            None => {
                assert(s.positions() > usize::MAX) by (nonlinear_arith)
                    requires s.out_rows() > usize::MAX, s.out_cols() >= 1;
                return false;
            },
        };
        let out_cols = match (in_cols - patch_cols).checked_add(1) {
            Some(v) => v,
            None => {
                assert(s.positions() > usize::MAX) by (nonlinear_arith)
                    requires s.out_cols() > usize::MAX, s.out_rows() >= 1;
                return false;
            },
        };
        let cells = match in_rows.checked_mul(in_cols) {
            Some(v) => v,
            None => return false,
        };
        if in_depth.checked_mul(cells).is_none() {
            return false;
        }
        let patch_cells = match patch_rows.checked_mul(patch_cols) {
            Some(v) => v,
            None => return false,
        };
        if in_depth.checked_mul(patch_cells).is_none() {
            return false;
        }
        let positions = match out_rows.checked_mul(out_cols) {
            Some(v) => v,
            None => return false,
        };
        if out_depth.checked_mul(positions).is_none() {
            return false;
        }
        true
    }

    proof fn lemma_grid_fits(self)
        requires
            self.wf(),
        ensures
            1 <= self.out_rows() <= usize::MAX,
            1 <= self.out_cols() <= usize::MAX,
            self.out_depth * (0 * self.out_cols()) == 0,
    {
        let orows = self.out_rows();
        let oc = self.out_cols();
        assert(oc <= orows * oc && orows <= orows * oc) by (nonlinear_arith)
            requires orows >= 1, oc >= 1;
        assert(self.out_depth * (0 * oc) == 0) by (nonlinear_arith);
    }

    proof fn lemma_output_offset(self, r: int, c: int, t: int)
        requires
            self.wf(),
            self.on_grid(r, c),
            0 <= t < self.out_depth,
        ensures
            0 <= self.output_offset(r, c, t) < self.output_len(),
            self.out_cols() <= usize::MAX,
            0 <= r * self.out_cols() + c < self.positions(),
            self.output_offset(r, c, t) == self.output_offset(r, c, 0) + t,
    {
        let oc = self.out_cols();
        let block = r * oc + c;
        assert(0 <= block < self.out_rows() * oc) by (nonlinear_arith)
            requires block == r * oc + c, 0 <= r < self.out_rows(), 0 <= c < oc;
        assert(oc <= self.out_rows() * oc) by (nonlinear_arith)
            requires 1 <= self.out_rows(), 0 <= oc;
        assert(0 <= self.out_depth * block + t < self.out_depth * (self.out_rows() * oc))
            by (nonlinear_arith)
            requires 0 <= block < self.out_rows() * oc, 0 <= t < self.out_depth;
    }

    /// Appends the channels of row `i`, column `j` of the patch at (`r`, `c`).
    fn copy_cell<T: Copy>(&self, input: &Vec<T>, r: usize, c: usize, i: usize, j: usize, patch: &mut Vec<T>)
        requires
            self.wf(),
            input.len() == self.input_len(),
            self.on_grid(r as int, c as int),
            i < self.patch_rows,
            j < self.patch_cols,
            old(patch).len() == self.in_depth * (i * self.patch_cols + j),
            forall|q: int|
                0 <= q < old(patch).len() ==> #[trigger] old(patch)[q] == input[self.patch_source(
                    r as int,
                    c as int,
                    q,
                )],
        ensures
            final(patch).len() == self.in_depth * (i * self.patch_cols + j + 1),
            forall|q: int|
                0 <= q < final(patch).len() ==> #[trigger] final(patch)[q] == input[self.patch_source(
                    r as int,
                    c as int,
                    q,
                )],
    {
        let mut k: usize = 0;
        while k < self.in_depth
            invariant
                self.wf(),
                input.len() == self.input_len(),
                self.on_grid(r as int, c as int),
                i < self.patch_rows,
                j < self.patch_cols,
                0 <= k <= self.in_depth,
                patch.len() == self.in_depth * (i * self.patch_cols + j) + k,
                forall|q: int|
                    0 <= q < patch.len() ==> #[trigger] patch[q] == input[self.patch_source(
                        r as int,
                        c as int,
                        q,
                    )],
            decreases self.in_depth - k,
        {
            proof {
                self.lemma_patch_index(r as int, c as int, i as int, j as int, k as int);
            }
            let n = self.in_depth * ((r + i) * self.in_cols + (c + j)) + k;
            patch.push(input[n]);
            k += 1;
        }
        assert(self.in_depth * (i * self.patch_cols + j) + self.in_depth == self.in_depth * (i
            * self.patch_cols + j + 1)) by (nonlinear_arith);
    }

    /// The patch of `input` that the pooling model sees at grid position (`r`, `c`).
    pub fn get_input_patch<T: Copy>(&self, input: &Vec<T>, r: usize, c: usize) -> (patch: Vec<T>)
        requires
            self.wf(),
            input.len() == self.input_len(),
            self.on_grid(r as int, c as int),
        ensures
            patch@ == self.patch(input@, r as int, c as int),
    {
        let mut patch: Vec<T> = Vec::new();
        assert(self.in_depth * (0 * self.patch_cols) == 0) by (nonlinear_arith);
        let mut i: usize = 0;
        while i < self.patch_rows
            invariant
                self.wf(),
                input.len() == self.input_len(),
                self.on_grid(r as int, c as int),
                0 <= i <= self.patch_rows,
                patch.len() == self.in_depth * (i * self.patch_cols),
                forall|q: int|
                    0 <= q < patch.len() ==> #[trigger] patch[q] == input[self.patch_source(
                        r as int,
                        c as int,
                        q,
                    )],
            decreases self.patch_rows - i,
        {
            let mut j: usize = 0;
            while j < self.patch_cols
                invariant
                    self.wf(),
                    input.len() == self.input_len(),
                    self.on_grid(r as int, c as int),
                    0 <= i < self.patch_rows,
                    0 <= j <= self.patch_cols,
                    patch.len() == self.in_depth * (i * self.patch_cols + j),
                    forall|q: int|
                        0 <= q < patch.len() ==> #[trigger] patch[q] == input[self.patch_source(
                            r as int,
                            c as int,
                            q,
                        )],
                decreases self.patch_cols - j,
            {
                self.copy_cell(input, r, c, i, j, &mut patch);
                j += 1;
            }
            assert(self.in_depth * (i * self.patch_cols + self.patch_cols) == self.in_depth * ((i
                + 1) * self.patch_cols)) by (nonlinear_arith);
            i += 1;
        }
        assert(patch@ =~= self.patch(input@, r as int, c as int));
        patch
    }

    /// The block of `err` that the pooling model produced at grid position (`r`, `c`).
    pub fn get_output_error_patch<T: Copy>(&self, err: &Vec<T>, r: usize, c: usize) -> (block: Vec<
        T,
    >)
        requires
            self.wf(),
            err.len() == self.output_len(),
            self.on_grid(r as int, c as int),
        ensures
            block.len() == self.out_depth,
            forall|t: int|
                0 <= t < self.out_depth ==> #[trigger] block[t] == err[self.output_offset(
                    r as int,
                    c as int,
                    t,
                )],
    {
        let mut block: Vec<T> = Vec::new();
        let mut t: usize = 0;
        while t < self.out_depth
            invariant
                self.wf(),
                err.len() == self.output_len(),
                self.on_grid(r as int, c as int),
                0 <= t <= self.out_depth,
                block.len() == t,
                forall|u: int|
                    0 <= u < t ==> #[trigger] block[u] == err[self.output_offset(
                        r as int,
                        c as int,
                        u,
                    )],
            decreases self.out_depth - t,
        {
            proof {
                self.lemma_output_offset(r as int, c as int, t as int);
            }
            let n = self.out_depth * (r * (self.in_cols - self.patch_cols + 1) + c) + t;
            block.push(err[n]);
            t += 1;
        }
        block
    }

    /// Writes `pooled` into the block of `dest` that belongs to grid position
    /// (`r`, `c`), leaving the rest of `dest` as it was.
    pub fn patch_output<T: Copy>(&self, pooled: &Vec<T>, dest: &mut Vec<T>, r: usize, c: usize)
        requires
            self.wf(),
            pooled.len() == self.out_depth,
            old(dest).len() == self.output_len(),
            self.on_grid(r as int, c as int),
        ensures
            final(dest).len() == old(dest).len(),
            forall|t: int|
                0 <= t < self.out_depth ==> final(dest)[#[trigger] self.output_offset(
                    r as int,
                    c as int,
                    t,
                )] == pooled[t],
            forall|n: int|
                0 <= n < old(dest).len() && !(self.output_offset(r as int, c as int, 0) <= n
                    < self.output_offset(r as int, c as int, 0) + self.out_depth)
                    ==> #[trigger] final(dest)[n] == old(dest)[n],
    {
        let ghost d0 = dest@;
        let mut t: usize = 0;
        while t < self.out_depth
            invariant
                self.wf(),
                pooled.len() == self.out_depth,
                dest.len() == self.output_len(),
                d0.len() == dest.len(),
                self.on_grid(r as int, c as int),
                0 <= t <= self.out_depth,
                forall|u: int|
                    0 <= u < t ==> dest[#[trigger] self.output_offset(r as int, c as int, u)]
                        == pooled[u],
                forall|n: int|
                    0 <= n < dest.len() && !(self.output_offset(r as int, c as int, 0) <= n
                        < self.output_offset(r as int, c as int, 0) + t) ==> #[trigger] dest[n]
                        == d0[n],
            decreases self.out_depth - t,
        {
            proof {
                self.lemma_output_offset(r as int, c as int, t as int);
            }
            let n = self.out_depth * (r * (self.in_cols - self.patch_cols + 1) + c) + t;
            dest.set(n, pooled[t]);
            t += 1;
        }
    }

    /// Adds the channels of row `i`, column `j` of the gradient `error`
    /// onto `dest`.
    fn add_cell<T: Scalar>(&self, error: &Vec<T>, dest: &mut Vec<T>, r: usize, c: usize, i: usize, j: usize)
        requires
            self.wf(),
            arithmetic_total::<T>(),
            error.len() == self.patch_len(),
            old(dest).len() == self.input_len(),
            self.on_grid(r as int, c as int),
            i < self.patch_rows,
            j < self.patch_cols,
        ensures
            final(dest).len() == old(dest).len(),
            forall|n: int|
                0 <= n < old(dest).len() && !(self.in_patch(r as int, c as int, n)
                    && self.in_depth * (i * self.patch_cols + j) <= self.patch_index(r as int, c as int, n)
                    < self.in_depth * (i * self.patch_cols + j + 1))
                    ==> #[trigger] final(dest)[n] == old(dest)[n],
            T::obeys_add_spec() ==> forall|n: int|
                0 <= n < old(dest).len() && self.in_patch(r as int, c as int, n)
                    && self.in_depth * (i * self.patch_cols + j) <= self.patch_index(r as int, c as int, n)
                    < self.in_depth * (i * self.patch_cols + j + 1)
                    ==> #[trigger] final(dest)[n] == old(dest)[n].add_spec(
                    error[self.patch_index(r as int, c as int, n)],
                ),
    {
        let ghost d0 = dest@;
        let ghost ri = r as int;
        let ghost ci = c as int;
        let ghost base = self.in_depth * (i * self.patch_cols + j);
        let mut k: usize = 0;
        while k < self.in_depth
            invariant
                self.wf(),
                arithmetic_total::<T>(),
                error.len() == self.patch_len(),
                dest.len() == self.input_len(),
                d0.len() == dest.len(),
                self.on_grid(ri, ci),
                ri == r,
                ci == c,
                i < self.patch_rows,
                j < self.patch_cols,
                base == self.in_depth * (i * self.patch_cols + j),
                0 <= k <= self.in_depth,
                forall|n: int|
                    0 <= n < dest.len() && !(self.in_patch(ri, ci, n) && base <= self.patch_index(
                        ri,
                        ci,
                        n,
                    ) < base + k) ==> #[trigger] dest[n] == d0[n],
                T::obeys_add_spec() ==> forall|n: int|
                    0 <= n < dest.len() && self.in_patch(ri, ci, n) && base <= self.patch_index(
                        ri,
                        ci,
                        n,
                    ) < base + k ==> #[trigger] dest[n] == d0[n].add_spec(
                        error[self.patch_index(ri, ci, n)],
                    ),
            decreases self.in_depth - k,
        {
            let ghost o = self.input_offset(ri, ci, i as int, j as int, k as int);
            proof {
                self.lemma_patch_index(ri, ci, i as int, j as int, k as int);
                assert forall|n: int|
                    0 <= n < dest.len() && self.in_patch(ri, ci, n) && self.patch_index(ri, ci, n)
                        == base + k implies n == o by {
                    self.lemma_patch_cell(ri, ci, n);
                }
            }
            let src = self.in_depth * (i * self.patch_cols + j) + k;
            let n = self.in_depth * ((r + i) * self.in_cols + (c + j)) + k;
            let v = dest[n] + error[src];
            dest.set(n, v);
            k += 1;
        }
        assert(base + self.in_depth == self.in_depth * (i * self.patch_cols + j + 1))
            by (nonlinear_arith) requires base == self.in_depth * (i * self.patch_cols + j);
    }

    /// Adds the gradient `error`, taken with respect to the patch at grid
    /// position (`r`, `c`), onto the matching elements of `dest`. Patches
    /// overlap, so contributions accumulate rather than overwrite.
    pub fn patch_error<T: Scalar>(&self, error: &Vec<T>, dest: &mut Vec<T>, r: usize, c: usize)
        requires
            self.wf(),
            arithmetic_total::<T>(),
            error.len() == self.patch_len(),
            old(dest).len() == self.input_len(),
            self.on_grid(r as int, c as int),
        ensures
            final(dest).len() == old(dest).len(),
            forall|n: int|
                0 <= n < old(dest).len() && !self.in_patch(r as int, c as int, n)
                    ==> #[trigger] final(dest)[n] == old(dest)[n],
            T::obeys_add_spec() ==> forall|n: int|
                0 <= n < old(dest).len() && self.in_patch(r as int, c as int, n)
                    ==> #[trigger] final(dest)[n] == old(dest)[n].add_spec(
                    error[self.patch_index(r as int, c as int, n)],
                ),
    {
        let ghost d0 = dest@;
        let ghost ri = r as int;
        let ghost ci = c as int;
        assert(self.in_depth * (0 * self.patch_cols) == 0) by (nonlinear_arith);
        let mut i: usize = 0;
        while i < self.patch_rows
            invariant
                self.wf(),
                arithmetic_total::<T>(),
                error.len() == self.patch_len(),
                dest.len() == self.input_len(),
                d0.len() == dest.len(),
                self.on_grid(ri, ci),
                ri == r,
                ci == c,
                0 <= i <= self.patch_rows,
                forall|n: int|
                    0 <= n < dest.len() && !(self.in_patch(ri, ci, n) && self.patch_index(ri, ci, n)
                        < self.in_depth * (i * self.patch_cols)) ==> #[trigger] dest[n] == d0[n],
                T::obeys_add_spec() ==> forall|n: int|
                    0 <= n < dest.len() && self.in_patch(ri, ci, n) && self.patch_index(ri, ci, n)
                        < self.in_depth * (i * self.patch_cols) ==> #[trigger] dest[n]
                        == d0[n].add_spec(error[self.patch_index(ri, ci, n)]),
            decreases self.patch_rows - i,
        {
            let mut j: usize = 0;
            while j < self.patch_cols
                invariant
                    self.wf(),
                    arithmetic_total::<T>(),
                    error.len() == self.patch_len(),
                    dest.len() == self.input_len(),
                    d0.len() == dest.len(),
                    self.on_grid(ri, ci),
                    ri == r,
                    ci == c,
                    0 <= i < self.patch_rows,
                    0 <= j <= self.patch_cols,
                    forall|n: int|
                        0 <= n < dest.len() && !(self.in_patch(ri, ci, n) && self.patch_index(
                            ri,
                            ci,
                            n,
                        ) < self.in_depth * (i * self.patch_cols + j)) ==> #[trigger] dest[n]
                            == d0[n],
                    T::obeys_add_spec() ==> forall|n: int|
                        0 <= n < dest.len() && self.in_patch(ri, ci, n) && self.patch_index(
                            ri,
                            ci,
                            n,
                        ) < self.in_depth * (i * self.patch_cols + j) ==> #[trigger] dest[n]
                            == d0[n].add_spec(error[self.patch_index(ri, ci, n)]),
                decreases self.patch_cols - j,
            {
                let ghost prev = dest@;
                self.add_cell(error, dest, r, c, i, j);
                proof {
                    let lo = self.in_depth * (i * self.patch_cols + j);
                    let hi = self.in_depth * (i * self.patch_cols + j + 1);
                    assert(lo <= hi) by (nonlinear_arith)
                        requires lo == self.in_depth * (i * self.patch_cols + j), hi == self.in_depth * (i * self.patch_cols + j + 1);
                    assert forall|n: int|
                        0 <= n < dest.len() && !(self.in_patch(ri, ci, n) && self.patch_index(
                            ri,
                            ci,
                            n,
                        ) < hi) implies #[trigger] dest[n] == d0[n] by {
                        assert(dest[n] == prev[n]);
                    }
                    if T::obeys_add_spec() {
                        assert forall|n: int|
                            0 <= n < dest.len() && self.in_patch(ri, ci, n) && self.patch_index(
                                ri,
                                ci,
                                n,
                            ) < hi implies #[trigger] dest[n] == d0[n].add_spec(
                            error[self.patch_index(ri, ci, n)],
                        ) by {
                            if self.patch_index(ri, ci, n) < lo {
                                assert(dest[n] == prev[n]);
                            }
                        }
                    }
                }
                j += 1;
            }
            assert(self.in_depth * (i * self.patch_cols + self.patch_cols) == self.in_depth * ((i
                + 1) * self.patch_cols)) by (nonlinear_arith);
            i += 1;
        }
        assert forall|n: int|
            0 <= n < dest.len() && self.in_patch(ri, ci, n) implies self.patch_index(ri, ci, n)
            < self.in_depth * (self.patch_rows * self.patch_cols) by {
            self.lemma_patch_cell(ri, ci, n);
        }
    }
}

/// 2-D convolution: one pooling model, the same instance and so the same
/// weights, applied at every grid position of `shape`.
pub struct Conv2d<P> {
    pub shape: ConvShape,
    pub pooler: P,
}

impl<P> Conv2d<P> {
    /// Tiles `pooler` over `shape`; `None` where the geometry is invalid or the
    /// pooling model does not map a patch to `out_depth` values.
    pub fn new<T: Scalar>(shape: ConvShape, pooler: P) -> (r: Option<Self>) where P: Model<T>
        requires
            pooler.wf(),
        ensures
            shape.wf() && pooler.input_dim() == shape.patch_len() && pooler.output_dim()
                == shape.out_depth <==> r is Some,
            r matches Some(m) ==> m.shape == shape && m.pooler == pooler,
    {
        if !shape.is_valid() {
            return None;
        }
        let patch_len = shape.in_depth * (shape.patch_rows * shape.patch_cols);
        if pooler.num_inputs() == patch_len && pooler.num_outputs() == shape.out_depth {
            Some(Conv2d { shape, pooler })
        } else {
            None
        }
    }

    /// The value at output offset `n` for input `x`: value `n % out_depth` of
    /// what the pooling model makes of the patch at the `n / out_depth`-th grid
    /// position.
    pub open spec fn pooled_value<T: Scalar>(&self, x: Seq<T>, n: int) -> T where P: Model<T> {
        let oc = self.shape.out_cols();
        let pos = n / (self.shape.out_depth as int);
        self.pooler.prediction(self.shape.patch(x, pos / oc, pos % oc))[n
            % (self.shape.out_depth as int)]
    }
}

/// `len` copies of `v`.
pub open spec fn filled<T>(v: T, len: nat) -> Seq<T> {
    Seq::new(len, |n: int| v)
}

proof fn lemma_block_offset(s: ConvShape, r: int, c: int, t: int)
    requires
        s.wf(),
        s.on_grid(r, c),
        0 <= t < s.out_depth,
    ensures
        s.output_offset(r, c, t) / (s.out_depth as int) == r * s.out_cols() + c,
        s.output_offset(r, c, t) % (s.out_depth as int) == t,
        (r * s.out_cols() + c) / s.out_cols() == r,
        (r * s.out_cols() + c) % s.out_cols() == c,
{
    let od = s.out_depth as int;
    let oc = s.out_cols();
    let pos = r * oc + c;
    assert(s.output_offset(r, c, t) == pos * od + t) by (nonlinear_arith)
        requires s.output_offset(r, c, t) == od * pos + t;
    lemma_fundamental_div_mod_converse(s.output_offset(r, c, t), od, pos, t);
    lemma_fundamental_div_mod_converse(pos, oc, r, c);
}

impl<T: Scalar, P: Model<T>> Model<T> for Conv2d<P> {
    open spec fn wf(&self) -> bool {
        &&& self.shape.wf()
        &&& self.pooler.wf()
        &&& self.pooler.input_dim() == self.shape.patch_len()
        &&& self.pooler.output_dim() == self.shape.out_depth
    }

    open spec fn input_dim(&self) -> nat {
        self.shape.input_len() as nat
    }

    open spec fn output_dim(&self) -> nat {
        self.shape.output_len() as nat
    }

    open spec fn prediction(&self, x: Seq<T>) -> Seq<T> {
        Seq::new(self.shape.output_len() as nat, |n: int| self.pooled_value(x, n))
    }

    /// The pooling model passes through `states`, one state per grid
    /// position in row-major order and a last one: at the `k`-th position it
    /// back-propagates the output block of `de_dy` at its patch of `x`,
    /// giving `grads[k]`; `de_dx` sums the patch gradients onto zeros.
    open spec fn backprop(&self, x: Seq<T>, de_dy: Seq<T>, de_dx: Seq<T>, next: Self) -> bool {
        let s = self.shape;
        &&& next.shape == s
        &&& exists|states: Seq<P>, grads: Seq<Seq<T>>|
            #![trigger states.last(), grads.len()]
            {
                &&& states.len() == s.positions() + 1
                &&& grads.len() == s.positions()
                &&& states[0] == self.pooler
                &&& states.last() == next.pooler
                &&& forall|k: int|
                    0 <= k < s.positions() ==> #[trigger] states[k].backprop(
                        s.position_patch(x, k),
                        s.block(de_dy, k),
                        grads[k],
                        states[k + 1],
                    )
                &&& de_dx == s.scatter(filled(zero::<T>(), s.input_len() as nat), grads, grads.len())
            }
    }

    /// Back-propagates the prediction minus the observation.
    open spec fn updates(&self, x: Seq<T>, y: Seq<T>, de_dx: Seq<T>, next: Self) -> bool {
        self.backprop(x, seq_minus(self.prediction(x), y), de_dx, next)
    }

    fn num_inputs(&self) -> (n: usize) {
        self.shape.in_depth * (self.shape.in_rows * self.shape.in_cols)
    }

    fn num_outputs(&self) -> (n: usize) {
        proof {
            self.shape.lemma_grid_fits();
        }
        let out_rows = self.shape.in_rows - self.shape.patch_rows + 1;
        let out_cols = self.shape.in_cols - self.shape.patch_cols + 1;
        assert(out_cols <= out_rows * out_cols) by (nonlinear_arith)
            requires out_rows >= 1, out_cols >= 0;
        self.shape.out_depth * (out_rows * out_cols)
    }

    /// Pools every patch, in row-major order of the grid, and writes each
    /// result into the output block of its grid position.
    fn predict(&self, x: &Vec<T>) -> (y: Vec<T>) {
        let ghost s = self.shape;
        let ghost want = self.prediction(x@);
        let out_len = self.num_outputs();
        let zero = T::default();
        let mut y: Vec<T> = Vec::new();
        while y.len() < out_len
            invariant
                y.len() <= out_len,
            decreases out_len - y.len(),
        {
            y.push(zero);
        }
        proof {
            s.lemma_grid_fits();
        }
        let out_rows = self.shape.in_rows - self.shape.patch_rows + 1;
        let out_cols = self.shape.in_cols - self.shape.patch_cols + 1;
        let mut r: usize = 0;
        while r < out_rows
            invariant
                self.wf(),
                s == self.shape,
                arithmetic_total::<T>(),
                x.len() == s.input_len(),
                want == self.prediction(x@),
                y.len() == s.output_len(),
                out_rows == s.out_rows(),
                out_cols == s.out_cols(),
                0 <= r <= out_rows,
                exact::<T>() ==> forall|n: int|
                    0 <= n < s.out_depth * (r * out_cols) ==> #[trigger] y[n] == want[n],
            decreases out_rows - r,
        {
            let mut c: usize = 0;
            while c < out_cols
                invariant
                    self.wf(),
                    s == self.shape,
                    arithmetic_total::<T>(),
                    x.len() == s.input_len(),
                    want == self.prediction(x@),
                    y.len() == s.output_len(),
                    out_rows == s.out_rows(),
                    out_cols == s.out_cols(),
                    0 <= r < out_rows,
                    0 <= c <= out_cols,
                    exact::<T>() ==> forall|n: int|
                        0 <= n < s.out_depth * (r * out_cols + c) ==> #[trigger] y[n] == want[n],
                decreases out_cols - c,
            {
                let sub_image = self.shape.get_input_patch(x, r, c);
                let sub_result = self.pooler.predict(&sub_image);
                let ghost prev = y@;
                self.shape.patch_output(&sub_result, &mut y, r, c);
                proof {
                    let lo = s.out_depth * (r * out_cols + c);
                    let hi = s.out_depth * (r * out_cols + c + 1);
                    assert(hi == lo + s.out_depth) by (nonlinear_arith)
                        requires lo == s.out_depth * (r * out_cols + c), hi == s.out_depth * (r * out_cols + c + 1);
                    assert(lo == s.output_offset(r as int, c as int, 0));
                    if s.out_depth > 0 {
                        s.lemma_output_offset(r as int, c as int, s.out_depth - 1);
                    }
                    assert forall|n: int| exact::<T>() && 0 <= n < hi implies #[trigger] y[n] == want[n] by {
                        if n < lo {
                            assert(s.out_depth > 0) by (nonlinear_arith)
                                requires 0 <= n < lo, lo == s.out_depth * (r * out_cols + c), r * out_cols + c >= 0;
                            assert(!(s.output_offset(r as int, c as int, 0) <= n < s.output_offset(r as int, c as int, 0) + s.out_depth));
                            assert(y[n] == prev[n]);
                        } else {
                            let t = n - lo;
                            s.lemma_output_offset(r as int, c as int, t);
                            lemma_block_offset(s, r as int, c as int, t);
                            assert(n == s.output_offset(r as int, c as int, t));
                            assert(y[s.output_offset(r as int, c as int, t)] == sub_result[t]);
                        }
                    }
                }
                c += 1;
            }
            assert(s.out_depth * (r * out_cols + out_cols) == s.out_depth * ((r + 1) * out_cols))
                by (nonlinear_arith);
            r += 1;
        }
        assert(exact::<T>() ==> y@ =~= want);
        y
    }

    /// Visits the grid positions in row-major order. At each, the pooling
    /// model, as the earlier positions left it, back-propagates the output
    /// block of `de_dy` at its patch of `x`; the patch gradients are summed
    /// into a gradient that starts at zero.
    fn backpropagate(&mut self, x: &Vec<T>, de_dy: &Vec<T>) -> (de_dx: Vec<T>) {
        let ghost s = self.shape;
        let ghost p0 = self.pooler;
        let in_len = self.num_inputs();
        let z = T::from(0u8);
        let mut de_dx: Vec<T> = Vec::new();
        while de_dx.len() < in_len
            invariant
                de_dx.len() <= in_len,
                forall|n: int| 0 <= n < de_dx.len() ==> #[trigger] de_dx[n] == z,
            decreases in_len - de_dx.len(),
        {
            de_dx.push(z);
        }
        let ghost init = de_dx@;
        assert(init =~= filled(z, s.input_len() as nat));
        let ghost mut grads: Seq<Seq<T>> = Seq::empty();
        let ghost mut states: Seq<P> = seq![self.pooler];
        proof {
            s.lemma_grid_fits();
        }
        let out_rows = self.shape.in_rows - self.shape.patch_rows + 1;
        let out_cols = self.shape.in_cols - self.shape.patch_cols + 1;
        assert(0 * out_cols == 0);
        let mut r: usize = 0;
        while r < out_rows
            invariant
                self.wf(),
                s == self.shape,
                arithmetic_total::<T>(),
                x.len() == s.input_len(),
                de_dy.len() == s.output_len(),
                de_dx.len() == s.input_len(),
                out_rows == s.out_rows(),
                out_cols == s.out_cols(),
                exact::<T>() ==> init == filled(zero::<T>(), s.input_len() as nat),
                states.len() == grads.len() + 1,
                states[0] == p0,
                states.last() == self.pooler,
                forall|p: int| 0 <= p < grads.len() ==> (#[trigger] grads[p]).len() == s.patch_len(),
                exact::<T>() ==> forall|k: int|
                    0 <= k < grads.len() ==> #[trigger] states[k].backprop(
                        s.position_patch(x@, k),
                        s.block(de_dy@, k),
                        grads[k],
                        states[k + 1],
                    ),
                exact::<T>() ==> de_dx@ == s.scatter(init, grads, grads.len()),
                0 <= r <= out_rows,
                grads.len() == r * out_cols,
            decreases out_rows - r,
        {
            let mut c: usize = 0;
            while c < out_cols
                invariant
                    self.wf(),
                    s == self.shape,
                    arithmetic_total::<T>(),
                    x.len() == s.input_len(),
                    de_dy.len() == s.output_len(),
                    de_dx.len() == s.input_len(),
                    out_rows == s.out_rows(),
                    out_cols == s.out_cols(),
                    exact::<T>() ==> init == filled(zero::<T>(), s.input_len() as nat),
                    states.len() == grads.len() + 1,
                    states[0] == p0,
                    states.last() == self.pooler,
                    forall|p: int| 0 <= p < grads.len() ==> (#[trigger] grads[p]).len() == s.patch_len(),
                    exact::<T>() ==> forall|k: int|
                        0 <= k < grads.len() ==> #[trigger] states[k].backprop(
                            s.position_patch(x@, k),
                            s.block(de_dy@, k),
                            grads[k],
                            states[k + 1],
                        ),
                    exact::<T>() ==> de_dx@ == s.scatter(init, grads, grads.len()),
                    0 <= r < out_rows,
                    0 <= c <= out_cols,
                    grads.len() == r * out_cols + c,
                decreases out_cols - c,
            {
                let err_patch = self.shape.get_output_error_patch(de_dy, r, c);
                let sub_x = self.shape.get_input_patch(x, r, c);
                let ghost before = self.pooler;
                let sub_result = self.pooler.backpropagate(&sub_x, &err_patch);
                let ghost prev = de_dx@;
                self.shape.patch_error(&sub_result, &mut de_dx, r, c);
                proof {
                    let pos = grads.len() as int;
                    s.lemma_scatter_prefix(init, grads, sub_result@, grads.len());
                    vstd::arithmetic::div_mod::lemma_fundamental_div_mod_converse(
                        pos,
                        out_cols as int,
                        r as int,
                        c as int,
                    );
                    assert(sub_x@ == s.position_patch(x@, pos));
                    if s.out_depth > 0 {
                        s.lemma_output_offset(r as int, c as int, s.out_depth - 1);
                    }
                    assert(s.output_offset(r as int, c as int, 0) == s.out_depth * pos);
                    assert(0 <= s.out_depth * pos) by (nonlinear_arith)
                        requires 0 <= pos;
                    if s.out_depth == 0 {
                        assert(s.out_depth * pos == 0) by (nonlinear_arith)
                            requires s.out_depth == 0;
                    }
                    assert(s.out_depth * pos + s.out_depth <= de_dy.len());
                    assert(s.block(de_dy@, pos).len() == s.out_depth);
                    assert forall|t: int| 0 <= t < s.out_depth implies err_patch@[t] == s.block(
                        de_dy@,
                        pos,
                    )[t] by {
                        s.lemma_output_offset(r as int, c as int, t);
                    }
                    assert(err_patch@ =~= s.block(de_dy@, pos));
                    let old_states = states;
                    let old_grads = grads;
                    grads = grads.push(sub_result@);
                    states = states.push(self.pooler);
                    assert(states[pos] == before);
                    if exact::<T>() {
                        assert forall|k: int|
                            0 <= k < grads.len() implies #[trigger] states[k].backprop(
                            s.position_patch(x@, k),
                            s.block(de_dy@, k),
                            grads[k],
                            states[k + 1],
                        ) by {
                            if k < pos {
                                assert(states[k] == old_states[k]);
                                assert(states[k + 1] == old_states[k + 1]);
                                assert(grads[k] == old_grads[k]);
                            }
                        }
                        assert(de_dx@ =~= s.scatter(init, grads, grads.len()));
                    }
                }
                c += 1;
            }
            assert(r * out_cols + out_cols == (r + 1) * out_cols) by (nonlinear_arith);
            r += 1;
        }
        proof {
            assert(grads.len() == s.positions());
        }
        de_dx
    }

    fn update(&mut self, x: &Vec<T>, y: &Vec<T>) -> (de_dx: Vec<T>) {
        let yh = self.predict(x);
        let err = output_error(&yh, y);
        self.backpropagate(x, &err)
    }
}

/// Where every grid position sees the same patch of `x`, every grid position
/// pools to the same block of output.
pub proof fn lemma_uniform_patches_pool_alike<T: Scalar, P: Model<T>>(m: Conv2d<P>, x: Seq<T>)
    requires
        m.wf(),
        x.len() == m.shape.input_len(),
        forall|r: int, c: int|
            m.shape.on_grid(r, c) ==> #[trigger] m.shape.patch(x, r, c) == m.shape.patch(x, 0, 0),
    ensures
        forall|r: int, c: int, t: int|
            m.shape.on_grid(r, c) && 0 <= t < m.shape.out_depth ==> #[trigger] m.prediction(
                x,
            )[m.shape.output_offset(r, c, t)] == m.prediction(x)[m.shape.output_offset(0, 0, t)],
{
    let s = m.shape;
    assert forall|r: int, c: int, t: int|
        s.on_grid(r, c) && 0 <= t < s.out_depth implies #[trigger] m.prediction(
            x,
        )[s.output_offset(r, c, t)] == m.prediction(x)[s.output_offset(0, 0, t)] by {
        s.lemma_output_offset(r, c, t);
        s.lemma_output_offset(0, 0, t);
        lemma_block_offset(s, r, c, t);
        lemma_block_offset(s, 0, 0, t);
        assert(s.patch(x, r, c) == s.patch(x, 0, 0));
    }
}

} // verus!
