use vstd::prelude::*;
use vstd::std_specs::ops::{AddSpec, MulSpec, SubSpec};
use crate::scalar::{Scalar, arithmetic_total, exact, one, zero};

verus! {

/// A `rows` x `cols` matrix, stored row by row: element (`i`, `j`) is
/// `data[i * cols + j]`.
#[derive(Clone, Debug, PartialEq)]
pub struct Matrix<T> {
    pub rows: usize,
    pub cols: usize,
    pub data: Vec<T>,
}

impl<T> Matrix<T> {
    pub open spec fn wf(&self) -> bool {
        self.data.len() == self.rows * self.cols
    }

    /// The matrix with these rows and columns; `None` where `data` does not
    /// hold `rows * cols` elements.
    pub fn new(rows: usize, cols: usize, data: Vec<T>) -> (r: Option<Self>)
        ensures
            r is Some <==> data.len() == rows * cols,
            r matches Some(m) ==> m.rows == rows && m.cols == cols && m.data == data,
    {
        match rows.checked_mul(cols) {
            Some(n) => {
                if n == data.len() {
                    Some(Matrix { rows, cols, data })
                } else {
                    None
                }
            },
            None => None,
        }
    }
}

/// Element `i` of each is `a[i] + b[i]`.
pub open spec fn seq_plus<T: Scalar>(a: Seq<T>, b: Seq<T>) -> Seq<T> {
    Seq::new(a.len(), |i: int| a[i].add_spec(b[i]))
}

/// Element `i` of each is `a[i] - b[i]`.
pub open spec fn seq_minus<T: Scalar>(a: Seq<T>, b: Seq<T>) -> Seq<T> {
    Seq::new(a.len(), |i: int| a[i].sub_spec(b[i]))
}

/// Element `i` of each is `k * a[i] - b[i]`.
pub open spec fn seq_scaled_minus<T: Scalar>(k: T, a: Seq<T>, b: Seq<T>) -> Seq<T> {
    Seq::new(a.len(), |i: int| k.mul_spec(a[i]).sub_spec(b[i]))
}

/// An element-by-element copy of `v`.
pub fn copied<T: Copy>(v: &Vec<T>) -> (r: Vec<T>)
    ensures
        r@ == v@,
{
    let mut r: Vec<T> = Vec::new();
    let mut i: usize = 0;
    while i < v.len()
        invariant
            r.len() == i <= v.len(),
            forall|j: int| 0 <= j < i ==> #[trigger] r[j] == v[j],
        decreases v.len() - i,
    {
        r.push(v[i]);
        i += 1;
    }
    assert(r@ =~= v@);
    r
}

/// `a[i] + b[i]` for every `i`.
pub fn plus<T: Scalar>(a: &Vec<T>, b: &Vec<T>) -> (r: Vec<T>)
    requires
        arithmetic_total::<T>(),
        a.len() == b.len(),
    ensures
        r.len() == a.len(),
        exact::<T>() ==> r@ == seq_plus(a@, b@),
{
    let mut r: Vec<T> = Vec::new();
    let mut i: usize = 0;
    while i < a.len()
        invariant
            arithmetic_total::<T>(),
            a.len() == b.len(),
            r.len() == i <= a.len(),
            exact::<T>() ==> forall|j: int| 0 <= j < i ==> #[trigger] r[j] == a[j].add_spec(b[j]),
        decreases a.len() - i,
    {
        r.push(a[i] + b[i]);
        i += 1;
    }
    assert(exact::<T>() ==> r@ =~= seq_plus(a@, b@));
    r
}

/// `a[i] - b[i]` for every `i`.
pub fn minus<T: Scalar>(a: &Vec<T>, b: &Vec<T>) -> (r: Vec<T>)
    requires
        arithmetic_total::<T>(),
        a.len() == b.len(),
    ensures
        r.len() == a.len(),
        exact::<T>() ==> r@ == seq_minus(a@, b@),
{
    let mut r: Vec<T> = Vec::new();
    let mut i: usize = 0;
    while i < a.len()
        invariant
            arithmetic_total::<T>(),
            a.len() == b.len(),
            r.len() == i <= a.len(),
            exact::<T>() ==> forall|j: int| 0 <= j < i ==> #[trigger] r[j] == a[j].sub_spec(b[j]),
        decreases a.len() - i,
    {
        r.push(a[i] - b[i]);
        i += 1;
    }
    assert(exact::<T>() ==> r@ =~= seq_minus(a@, b@));
    r
}

/// `a[i] * k` for every `i`.
pub fn scale<T: Scalar>(a: &Vec<T>, k: T) -> (r: Vec<T>)
    requires
        arithmetic_total::<T>(),
    ensures
        r.len() == a.len(),
        exact::<T>() ==> forall|i: int| 0 <= i < r.len() ==> #[trigger] r[i] == a[i].mul_spec(k),
{
    let mut r: Vec<T> = Vec::new();
    let mut i: usize = 0;
    while i < a.len()
        invariant
            arithmetic_total::<T>(),
            r.len() == i <= a.len(),
            exact::<T>() ==> forall|j: int| 0 <= j < i ==> #[trigger] r[j] == a[j].mul_spec(k),
        decreases a.len() - i,
    {
        r.push(a[i] * k);
        i += 1;
    }
    r
}

/// `ka * a[i] - kb * b[i]` for every `i`.
pub fn scaled_minus_scaled<T: Scalar>(ka: T, a: &Vec<T>, kb: T, b: &Vec<T>) -> (r: Vec<T>)
    requires
        arithmetic_total::<T>(),
        a.len() == b.len(),
    ensures
        r.len() == a.len(),
        exact::<T>() ==> forall|i: int|
            0 <= i < r.len() ==> #[trigger] r[i] == ka.mul_spec(a[i]).sub_spec(kb.mul_spec(b[i])),
{
    let mut r: Vec<T> = Vec::new();
    let mut i: usize = 0;
    while i < a.len()
        invariant
            arithmetic_total::<T>(),
            a.len() == b.len(),
            r.len() == i <= a.len(),
            exact::<T>() ==> forall|j: int|
                0 <= j < i ==> #[trigger] r[j] == ka.mul_spec(a[j]).sub_spec(kb.mul_spec(b[j])),
        decreases a.len() - i,
    {
        r.push(ka * a[i] - kb * b[i]);
        i += 1;
    }
    r
}

/// Element `i` of each is `ka * a[i] + kb * b[i]`.
pub open spec fn seq_blend<T: Scalar>(ka: T, a: Seq<T>, kb: T, b: Seq<T>) -> Seq<T> {
    Seq::new(a.len(), |i: int| ka.mul_spec(a[i]).add_spec(kb.mul_spec(b[i])))
}

/// `ka * a[i] + kb * b[i]` for every `i`.
pub fn blend<T: Scalar>(ka: T, a: &Vec<T>, kb: T, b: &Vec<T>) -> (r: Vec<T>)
    requires
        arithmetic_total::<T>(),
        a.len() == b.len(),
    ensures
        r.len() == a.len(),
        exact::<T>() ==> r@ == seq_blend(ka, a@, kb, b@),
{
    let mut r: Vec<T> = Vec::new();
    let mut i: usize = 0;
    while i < a.len()
        invariant
            arithmetic_total::<T>(),
            a.len() == b.len(),
            r.len() == i <= a.len(),
            exact::<T>() ==> forall|j: int|
                0 <= j < i ==> #[trigger] r[j] == ka.mul_spec(a[j]).add_spec(kb.mul_spec(b[j])),
        decreases a.len() - i,
    {
        r.push(ka * a[i] + kb * b[i]);
        i += 1;
    }
    assert(exact::<T>() ==> r@ =~= seq_blend(ka, a@, kb, b@));
    r
}

/// `a[i] - k * b[i]` for every `i`.
pub fn minus_scaled<T: Scalar>(a: &Vec<T>, k: T, b: &Vec<T>) -> (r: Vec<T>)
    requires
        arithmetic_total::<T>(),
        a.len() == b.len(),
    ensures
        r.len() == a.len(),
        exact::<T>() ==> forall|i: int|
            0 <= i < r.len() ==> #[trigger] r[i] == a[i].sub_spec(k.mul_spec(b[i])),
{
    let mut r: Vec<T> = Vec::new();
    let mut i: usize = 0;
    while i < a.len()
        invariant
            arithmetic_total::<T>(),
            a.len() == b.len(),
            r.len() == i <= a.len(),
            exact::<T>() ==> forall|j: int|
                0 <= j < i ==> #[trigger] r[j] == a[j].sub_spec(k.mul_spec(b[j])),
        decreases a.len() - i,
    {
        r.push(a[i] - k * b[i]);
        i += 1;
    }
    r
}

/// `k * a[i] - b[i]` for every `i`.
pub fn scaled_minus<T: Scalar>(k: T, a: &Vec<T>, b: &Vec<T>) -> (r: Vec<T>)
    requires
        arithmetic_total::<T>(),
        a.len() == b.len(),
    ensures
        r.len() == a.len(),
        exact::<T>() ==> r@ == seq_scaled_minus(k, a@, b@),
{
    let mut r: Vec<T> = Vec::new();
    let mut i: usize = 0;
    while i < a.len()
        invariant
            arithmetic_total::<T>(),
            a.len() == b.len(),
            r.len() == i <= a.len(),
            exact::<T>() ==> forall|j: int|
                0 <= j < i ==> #[trigger] r[j] == k.mul_spec(a[j]).sub_spec(b[j]),
        decreases a.len() - i,
    {
        r.push(k * a[i] - b[i]);
        i += 1;
    }
    assert(exact::<T>() ==> r@ =~= seq_scaled_minus(k, a@, b@));
    r
}

} // verus!

verus! {

/// `a[i * inner + 0] * b[0 * cols + j] + ...` over the first `k` terms:
/// entry (`i`, `j`) of the product of the row-major `a` (`inner` columns) and
/// `b` (`cols` columns), summed from the left starting at zero.
pub open spec fn col_dot<T: Scalar>(a: Seq<T>, i: int, inner: int, b: Seq<T>, j: int, cols: int, k: nat) -> T
    decreases k,
{
    if k == 0 {
        zero::<T>()
    } else {
        col_dot(a, i, inner, b, j, cols, (k - 1) as nat).add_spec(
            a[i * inner + k - 1].mul_spec(b[(k - 1) * cols + j]),
        )
    }
}

/// Row `i` of `a` dotted with row `j` of `b`, both row-major with `inner`
/// columns, over the first `k` terms, summed from the left starting at zero.
pub open spec fn row_dot<T: Scalar>(a: Seq<T>, i: int, b: Seq<T>, j: int, inner: int, k: nat) -> T
    decreases k,
{
    if k == 0 {
        zero::<T>()
    } else {
        row_dot(a, i, b, j, inner, (k - 1) as nat).add_spec(
            a[i * inner + k - 1].mul_spec(b[j * inner + k - 1]),
        )
    }
}

/// The `rows` x `cols` product `a b` of the row-major `a` (`rows` x `inner`)
/// and `b` (`inner` x `cols`).
pub open spec fn product<T: Scalar>(a: Seq<T>, b: Seq<T>, rows: nat, inner: nat, cols: nat) -> Seq<T> {
    Seq::new(
        rows * cols,
        |q: int| col_dot(a, q / (cols as int), inner as int, b, q % (cols as int), cols as int, inner),
    )
}

/// The `rows` x `brows` product `a bᵗ` of the row-major `a` (`rows` x
/// `inner`) and `b` (`brows` x `inner`).
pub open spec fn product_bt<T: Scalar>(a: Seq<T>, b: Seq<T>, rows: nat, brows: nat, inner: nat) -> Seq<T> {
    Seq::new(
        rows * brows,
        |q: int| row_dot(a, q / (brows as int), b, q % (brows as int), inner as int, inner),
    )
}

proof fn lemma_entry(i: int, j: int, rows: int, cols: int)
    requires
        0 <= i < rows,
        0 <= j < cols,
    ensures
        (i * cols + j) / cols == i,
        (i * cols + j) % cols == j,
        0 <= i * cols + j < rows * cols,
        0 <= i * cols,
{
    vstd::arithmetic::div_mod::lemma_fundamental_div_mod_converse(i * cols + j, cols, i, j);
    assert(0 <= i * cols + j < rows * cols) by (nonlinear_arith)
        requires 0 <= i < rows, 0 <= j < cols;
    assert(0 <= i * cols) by (nonlinear_arith)
        requires 0 <= i, 0 <= cols;
}

/// The product `a b`.
pub fn mat_mul<T: Scalar>(a: &Matrix<T>, b: &Matrix<T>) -> (c: Matrix<T>)
    requires
        arithmetic_total::<T>(),
        a.wf(),
        b.wf(),
        a.cols == b.rows,
        a.rows * b.cols <= usize::MAX,
    ensures
        c.wf(),
        c.rows == a.rows,
        c.cols == b.cols,
        exact::<T>() ==> c.data@ == product(a.data@, b.data@, a.rows as nat, a.cols as nat, b.cols as nat),
{
    let ghost want = product(a.data@, b.data@, a.rows as nat, a.cols as nat, b.cols as nat);
    let mut data: Vec<T> = Vec::new();
    let mut i: usize = 0;
    assert(0 * b.cols == 0);
    while i < a.rows
        invariant
            arithmetic_total::<T>(),
            a.wf(),
            b.wf(),
            a.cols == b.rows,
            a.rows * b.cols <= usize::MAX,
            want == product(a.data@, b.data@, a.rows as nat, a.cols as nat, b.cols as nat),
            i <= a.rows,
            data.len() == i * b.cols,
            exact::<T>() ==> forall|q: int| 0 <= q < data.len() ==> #[trigger] data@[q] == want[q],
        decreases a.rows - i,
    {
        let mut j: usize = 0;
        while j < b.cols
            invariant
                arithmetic_total::<T>(),
                a.wf(),
                b.wf(),
                a.cols == b.rows,
                a.rows * b.cols <= usize::MAX,
                want == product(a.data@, b.data@, a.rows as nat, a.cols as nat, b.cols as nat),
                i < a.rows,
                j <= b.cols,
                data.len() == i * b.cols + j,
                exact::<T>() ==> forall|q: int| 0 <= q < data.len() ==> #[trigger] data@[q] == want[q],
            decreases b.cols - j,
        {
            let mut acc = T::from(0u8);
            let mut k: usize = 0;
            while k < a.cols
                invariant
                    arithmetic_total::<T>(),
                    a.wf(),
                    b.wf(),
                    a.cols == b.rows,
                    i < a.rows,
                    j < b.cols,
                    k <= a.cols,
                    exact::<T>() ==> acc == col_dot(
                        a.data@,
                        i as int,
                        a.cols as int,
                        b.data@,
                        j as int,
                        b.cols as int,
                        k as nat,
                    ),
                decreases a.cols - k,
            {
                proof {
                    lemma_entry(i as int, k as int, a.rows as int, a.cols as int);
                    lemma_entry(k as int, j as int, b.rows as int, b.cols as int);
                }
                acc = acc + a.data[i * a.cols + k] * b.data[k * b.cols + j];
                k += 1;
            }
            proof {
                lemma_entry(i as int, j as int, a.rows as int, b.cols as int);
            }
            data.push(acc);
            j += 1;
        }
        assert(i * b.cols + b.cols == (i + 1) * b.cols) by (nonlinear_arith);
        i += 1;
    }
    assert(exact::<T>() ==> data@ =~= want);
    Matrix { rows: a.rows, cols: b.cols, data }
}

/// The product `a bᵗ`.
pub fn mat_mul_bt<T: Scalar>(a: &Matrix<T>, b: &Matrix<T>) -> (c: Matrix<T>)
    requires
        arithmetic_total::<T>(),
        a.wf(),
        b.wf(),
        a.cols == b.cols,
        a.rows * b.rows <= usize::MAX,
    ensures
        c.wf(),
        c.rows == a.rows,
        c.cols == b.rows,
        exact::<T>() ==> c.data@ == product_bt(a.data@, b.data@, a.rows as nat, b.rows as nat, a.cols as nat),
{
    let ghost want = product_bt(a.data@, b.data@, a.rows as nat, b.rows as nat, a.cols as nat);
    let mut data: Vec<T> = Vec::new();
    let mut i: usize = 0;
    assert(0 * b.rows == 0);
    while i < a.rows
        invariant
            arithmetic_total::<T>(),
            a.wf(),
            b.wf(),
            a.cols == b.cols,
            a.rows * b.rows <= usize::MAX,
            want == product_bt(a.data@, b.data@, a.rows as nat, b.rows as nat, a.cols as nat),
            i <= a.rows,
            data.len() == i * b.rows,
            exact::<T>() ==> forall|q: int| 0 <= q < data.len() ==> #[trigger] data@[q] == want[q],
        decreases a.rows - i,
    {
        let mut j: usize = 0;
        while j < b.rows
            invariant
                arithmetic_total::<T>(),
                a.wf(),
                b.wf(),
                a.cols == b.cols,
                a.rows * b.rows <= usize::MAX,
                want == product_bt(a.data@, b.data@, a.rows as nat, b.rows as nat, a.cols as nat),
                i < a.rows,
                j <= b.rows,
                data.len() == i * b.rows + j,
                exact::<T>() ==> forall|q: int| 0 <= q < data.len() ==> #[trigger] data@[q] == want[q],
            decreases b.rows - j,
        {
            let mut acc = T::from(0u8);
            let mut k: usize = 0;
            while k < a.cols
                invariant
                    arithmetic_total::<T>(),
                    a.wf(),
                    b.wf(),
                    a.cols == b.cols,
                    i < a.rows,
                    j < b.rows,
                    k <= a.cols,
                    exact::<T>() ==> acc == row_dot(
                        a.data@,
                        i as int,
                        b.data@,
                        j as int,
                        a.cols as int,
                        k as nat,
                    ),
                decreases a.cols - k,
            {
                proof {
                    lemma_entry(i as int, k as int, a.rows as int, a.cols as int);
                    lemma_entry(j as int, k as int, b.rows as int, b.cols as int);
                }
                acc = acc + a.data[i * a.cols + k] * b.data[j * b.cols + k];
                k += 1;
            }
            proof {
                lemma_entry(i as int, j as int, a.rows as int, b.rows as int);
            }
            data.push(acc);
            j += 1;
        }
        assert(i * b.rows + b.rows == (i + 1) * b.rows) by (nonlinear_arith);
        i += 1;
    }
    assert(exact::<T>() ==> data@ =~= want);
    Matrix { rows: a.rows, cols: b.rows, data }
}

/// `x` with a row of ones appended below it.
pub open spec fn augmented_spec<T: Scalar>(x: Seq<T>, cols: nat) -> Seq<T> {
    x + Seq::new(cols, |j: int| one::<T>())
}

/// `x` with a row of ones appended below it.
pub fn augmented<T: Scalar>(x: &Matrix<T>) -> (x1: Matrix<T>)
    requires
        x.wf(),
        x.rows < usize::MAX,
        (x.rows + 1) * x.cols <= usize::MAX,
    ensures
        x1.wf(),
        x1.rows == x.rows + 1,
        x1.cols == x.cols,
        exact::<T>() ==> x1.data@ == augmented_spec(x.data@, x.cols as nat),
{
    let one_v = T::from(1u8);
    let mut data = copied(&x.data);
    let mut j: usize = 0;
    while j < x.cols
        invariant
            x.wf(),
            (x.rows + 1) * x.cols <= usize::MAX,
            j <= x.cols,
            data.len() == x.data.len() + j,
            forall|q: int| 0 <= q < x.data.len() ==> #[trigger] data@[q] == x.data@[q],
            forall|q: int| x.data.len() <= q < data.len() ==> #[trigger] data@[q] == one_v,
        decreases x.cols - j,
    {
        proof {
            assert(x.rows * x.cols + j < (x.rows + 1) * x.cols) by (nonlinear_arith)
                requires j < x.cols;
        }
        data.push(one_v);
        j += 1;
    }
    assert((x.rows + 1) * x.cols == x.rows * x.cols + x.cols) by (nonlinear_arith);
    assert(exact::<T>() ==> data@ =~= augmented_spec(x.data@, x.cols as nat));
    Matrix { rows: x.rows + 1, cols: x.cols, data }
}

/// The Gram matrix `x1 x1ᵗ`.
pub fn gram<T: Scalar>(x1: &Matrix<T>) -> (g: Matrix<T>)
    requires
        arithmetic_total::<T>(),
        x1.wf(),
        x1.rows * x1.rows <= usize::MAX,
    ensures
        g.wf(),
        g.rows == x1.rows,
        g.cols == x1.rows,
        exact::<T>() ==> g.data@ == product_bt(x1.data@, x1.data@, x1.rows as nat, x1.rows as nat, x1.cols as nat),
{
    mat_mul_bt(x1, x1)
}

} // verus!
