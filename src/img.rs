use vstd::prelude::*;

verus! {

/// Offset `n` of a column-major `nrows`-row matrix lies in the `rows` x
/// `cols` window whose top-left corner is (`top`, `left`).
pub open spec fn in_window(n: int, nrows: int, top: int, left: int, rows: int, cols: int) -> bool {
    &&& top <= n % nrows < top + rows
    &&& left <= n / nrows < left + cols
}

/// The offset, in a column-major matrix of `rows` rows, of the element that
/// the window places at offset `n` of the destination.
pub open spec fn window_source(n: int, nrows: int, top: int, left: int, rows: int) -> int {
    (n / nrows - left) * rows + (n % nrows - top)
}

proof fn lemma_cell(nrows: int, rows: int, row: int, col: int, top: int, left: int, ncols: int)
    requires
        0 <= row < rows,
        0 <= col,
        0 <= top,
        0 <= left,
        rows + top <= nrows,
        col + left < ncols,
    ensures
        0 <= (col + left) * nrows + (row + top) < nrows * ncols,
        ((col + left) * nrows + (row + top)) / nrows == col + left,
        ((col + left) * nrows + (row + top)) % nrows == row + top,
{
    let n = (col + left) * nrows + (row + top);
    vstd::arithmetic::div_mod::lemma_fundamental_div_mod_converse(n, nrows, col + left, row + top);
    assert(n < nrows * ncols) by (nonlinear_arith)
        requires n == (col + left) * nrows + (row + top), row + top < nrows, col + left < ncols, 0 <= row + top;
    assert(0 <= n) by (nonlinear_arith)
        requires n == (col + left) * nrows + (row + top), 0 <= row + top, 0 <= col + left, 0 <= nrows;
}

/// Copies column `col` of `mat` into its place in `dest`.
fn copy_column<T: Copy>(
    mat: &Vec<T>,
    rows: usize,
    cols: usize,
    col: usize,
    top: usize,
    left: usize,
    dest: &mut Vec<T>,
    nrows: usize,
    ncols: usize,
)
    requires
        mat.len() == rows * cols,
        old(dest).len() == nrows * ncols,
        rows + top <= nrows,
        cols + left <= ncols,
        col < cols,
    ensures
        final(dest).len() == old(dest).len(),
        forall|n: int|
            0 <= n < final(dest).len() ==> #[trigger] final(dest)[n] == if in_window(
                n,
                nrows as int,
                top as int,
                (left + col) as int,
                rows as int,
                1,
            ) {
                mat[window_source(n, nrows as int, top as int, left as int, rows as int)]
            } else {
                old(dest)[n]
            },
{
    let ghost d0 = dest@;
    let mut row: usize = 0;
    while row < rows
        invariant
            mat.len() == rows * cols,
            dest.len() == nrows * ncols,
            d0.len() == dest.len(),
            rows + top <= nrows,
            cols + left <= ncols,
            col < cols,
            0 <= row <= rows,
            forall|n: int|
                0 <= n < dest.len() ==> #[trigger] dest[n] == if in_window(
                    n,
                    nrows as int,
                    top as int,
                    (left + col) as int,
                    row as int,
                    1,
                ) {
                    mat[window_source(n, nrows as int, top as int, left as int, rows as int)]
                } else {
                    d0[n]
                },
        decreases rows - row,
    {
        proof {
            lemma_cell(nrows as int, rows as int, row as int, col as int, top as int, left as int, ncols as int);
            assert(col * rows + row < rows * cols) by (nonlinear_arith)
                requires col < cols, row < rows;
        }
        let n = (col + left) * nrows + (row + top);
        let v = mat[col * rows + row];
        let ghost prev = dest@;
        dest.set(n, v);
        assert forall|m: int| 0 <= m < dest.len() && m != n implies #[trigger] dest[m] == if in_window(
            m,
            nrows as int,
            top as int,
            (left + col) as int,
            row + 1,
            1,
        ) {
            mat[window_source(m, nrows as int, top as int, left as int, rows as int)]
        } else {
            d0[m]
        } by {
            assert(dest[m] == prev[m]);
            vstd::arithmetic::div_mod::lemma_fundamental_div_mod(m, nrows as int);
            if m % (nrows as int) == top + row && m / (nrows as int) == left + col {
                assert(m == n) by (nonlinear_arith)
                    requires
                        m == (nrows as int) * (m / (nrows as int)) + m % (nrows as int),
                        m % (nrows as int) == top + row,
                        m / (nrows as int) == left + col,
                        n == (col + left) * nrows + (row + top),
                ;
            }
        }
        row += 1;
    }
}

/// Copies the column-major `rows` x `cols` matrix `mat` into the column-major
/// `nrows` x `ncols` matrix `dest`, with its top-left corner at
/// (`dest_row`, `dest_col`); the rest of `dest` is left as it was.
pub fn overlay_matrix_to_vector<T: Copy>(
    mat: &Vec<T>,
    rows: usize,
    cols: usize,
    dest_row: usize,
    dest_col: usize,
    dest: &mut Vec<T>,
    nrows: usize,
    ncols: usize,
)
    requires
        mat.len() == rows * cols,
        old(dest).len() == nrows * ncols,
        rows + dest_row <= nrows,
        cols + dest_col <= ncols,
    ensures
        final(dest).len() == old(dest).len(),
        forall|n: int|
            0 <= n < final(dest).len() ==> #[trigger] final(dest)[n] == if in_window(
                n,
                nrows as int,
                dest_row as int,
                dest_col as int,
                rows as int,
                cols as int,
            ) {
                mat[window_source(n, nrows as int, dest_row as int, dest_col as int, rows as int)]
            } else {
                old(dest)[n]
            },
{
    let ghost d0 = dest@;
    let mut col: usize = 0;
    while col < cols
        invariant
            mat.len() == rows * cols,
            dest.len() == nrows * ncols,
            d0.len() == dest.len(),
            rows + dest_row <= nrows,
            cols + dest_col <= ncols,
            0 <= col <= cols,
            forall|n: int|
                0 <= n < dest.len() ==> #[trigger] dest[n] == if in_window(
                    n,
                    nrows as int,
                    dest_row as int,
                    dest_col as int,
                    rows as int,
                    col as int,
                ) {
                    mat[window_source(n, nrows as int, dest_row as int, dest_col as int, rows as int)]
                } else {
                    d0[n]
                },
        decreases cols - col,
    {
        let ghost prev = dest@;
        copy_column(mat, rows, cols, col, dest_row, dest_col, dest, nrows, ncols);
        assert forall|n: int| 0 <= n < dest.len() implies #[trigger] dest[n] == if in_window(
            n,
            nrows as int,
            dest_row as int,
            dest_col as int,
            rows as int,
            col + 1,
        ) {
            mat[window_source(n, nrows as int, dest_row as int, dest_col as int, rows as int)]
        } else {
            d0[n]
        } by {
            assert(dest[n] == if in_window(
                n,
                nrows as int,
                dest_row as int,
                (dest_col + col) as int,
                rows as int,
                1,
            ) {
                mat[window_source(n, nrows as int, dest_row as int, dest_col as int, rows as int)]
            } else {
                prev[n]
            });
        }
        col += 1;
    }
}

} // verus!
