//! Dense row-major matrix value type with dimension-aware construction.
//!
//! The element type is generic so that the engine's structural logic (layout,
//! padding, trimming) is independent of the arithmetic, which callers supply
//! as closures to the multiplication routines.

use vstd::prelude::*;

use crate::error::MulError;

verus! {

/// A dense matrix stored row-major: element `(r, c)` lives at `data[r * cols + c]`.
///
/// Invariant (`wf`): `data.len() == rows * cols`. Construction fails rather
/// than producing an inconsistent instance.
pub struct Matrix<T> {
    /// Count of rows of the matrix.
    pub rows: usize,
    /// Count of columns of the matrix.
    pub cols: usize,
    /// The matrix data, row-major.
    pub data: Vec<T>,
}

impl<T> Matrix<T> {
    /// Well-formedness: the data length matches the declared dimensions.
    pub open spec fn wf(self) -> bool {
        self.data@.len() == self.rows * self.cols
    }

    /// The element at row `i`, column `j`.
    pub open spec fn idx(self, i: int, j: int) -> T {
        self.data@[i * self.cols + j]
    }

    /// Row `i` as a sequence of `cols` elements.
    pub open spec fn row_seq(self, i: int) -> Seq<T> {
        Seq::new(self.cols as nat, |w: int| self.idx(i, w))
    }

    /// Column `j` as a sequence of `rows` elements.
    pub open spec fn col_seq(self, j: int) -> Seq<T> {
        Seq::new(self.rows as nat, |w: int| self.idx(w, j))
    }
}

/// The smallest multiple of `tile` that is at least `d`.
pub open spec fn pad_dim(d: int, tile: int) -> int {
    if d % tile == 0 {
        d
    } else {
        d - d % tile + tile
    }
}

/// A row-major index stays inside the data when the row and column are in
/// range.
pub proof fn lemma_index_bound(rows: int, cols: int, i: int, j: int)
    requires
        0 <= i < rows,
        0 <= j < cols,
    ensures
        0 <= i * cols + j < rows * cols,
{
    assert(0 <= i * cols + j < rows * cols) by (nonlinear_arith)
        requires
            0 <= i < rows,
            0 <= j < cols,
    ;
}

/// Multiplication of dimensions is monotone in both factors.
pub proof fn lemma_dims_monotone(r1: int, c1: int, r2: int, c2: int)
    requires
        0 <= r1 <= r2,
        0 <= c1 <= c2,
    ensures
        r1 * c1 <= r2 * c2,
{
    assert(r1 * c1 <= r2 * c2) by (nonlinear_arith)
        requires
            0 <= r1 <= r2,
            0 <= c1 <= c2,
    ;
}

impl<T: Copy> Clone for Matrix<T> {
    /// An independent copy with the same dimensions and contents.
    fn clone(&self) -> (res: Self)
        ensures
            res.rows == self.rows,
            res.cols == self.cols,
            res.data@ == self.data@,
    {
        let mut data: Vec<T> = Vec::new();
        let mut i: usize = 0;
        while i < self.data.len()
            invariant
                i <= self.data@.len(),
                data@ == self.data@.take(i as int),
            decreases self.data@.len() - i,
        {
            data.push(self.data[i]);
            i = i + 1;
            proof {
                assert(data@ =~= self.data@.take(i as int));
            }
        }
        proof {
            assert(data@ =~= self.data@);
        }
        Matrix { rows: self.rows, cols: self.cols, data }
    }
}

impl<T: Copy> Matrix<T> {
    /// Create a matrix from its dimensions and row-major data.
    ///
    /// Fails with `InvalidConstruction` exactly when `rows * cols` differs
    /// from `data.len()`; it never panics, whatever the dimensions are.
    pub fn create(rows: usize, cols: usize, data: &Vec<T>) -> (res: Result<Self, MulError>)
        ensures
            match res {
                Ok(m) => {
                    &&& rows * cols == data@.len()
                    &&& m.wf()
                    &&& m.rows == rows
                    &&& m.cols == cols
                    &&& m.data@ == data@
                },
                Err(e) => {
                    &&& rows * cols != data@.len()
                    &&& e == MulError::InvalidConstruction
                },
            },
    {
        let len = data.len();
        let fits = match rows.checked_mul(cols) {
            Some(n) => n == len,
            // The true product exceeds usize::MAX, so it cannot equal any
            // vector length.
            None => false,
        };
        if !fits {
            return Err(MulError::InvalidConstruction);
        }

        let mut copied: Vec<T> = Vec::new();
        let mut i: usize = 0;
        while i < data.len()
            invariant
                i <= data@.len(),
                copied@ == data@.take(i as int),
            decreases data@.len() - i,
        {
            copied.push(data[i]);
            i = i + 1;
            proof {
                assert(copied@ =~= data@.take(i as int));
            }
        }
        proof {
            assert(copied@ =~= data@);
        }
        Ok(Matrix { rows, cols, data: copied })
    }

    /// Create a matrix of the given size with every element equal to `fill`
    /// (the caller's zero, for the engine's uses).
    pub fn create_empty(rows: usize, cols: usize, fill: T) -> (res: Self)
        requires
            rows * cols <= usize::MAX,
        ensures
            res.wf(),
            res.rows == rows,
            res.cols == cols,
            forall|w: int| 0 <= w < res.data@.len() ==> res.data@[w] == fill,
    {
        let n = rows * cols;
        let mut data: Vec<T> = Vec::new();
        let mut i: usize = 0;
        while i < n
            invariant
                i <= n,
                data@.len() == i,
                forall|w: int| 0 <= w < i ==> data@[w] == fill,
            decreases n - i,
        {
            data.push(fill);
            i = i + 1;
        }
        Matrix { rows, cols, data }
    }

    /// The element at row `row`, column `col`. Bounds are the caller's
    /// obligation; every caller inside the engine proves them.
    #[inline]
    pub fn get(&self, row: usize, col: usize) -> (res: T)
        requires
            self.wf(),
            row < self.rows,
            col < self.cols,
        ensures
            res == self.idx(row as int, col as int),
    {
        proof {
            lemma_index_bound(self.rows as int, self.cols as int, row as int, col as int);
            assert(self.data.len() == self.data@.len());
        }
        self.data[row * self.cols + col]
    }

    /// Overwrite the element at row `row`, column `col`; every other element
    /// and the dimensions are untouched.
    #[inline]
    pub fn set(&mut self, row: usize, col: usize, new: T)
        requires
            old(self).wf(),
            row < old(self).rows,
            col < old(self).cols,
        ensures
            final(self).wf(),
            final(self).rows == old(self).rows,
            final(self).cols == old(self).cols,
            final(self).data@ == old(self).data@.update(
                row * old(self).cols + col,
                new,
            ),
            final(self).idx(row as int, col as int) == new,
            forall|i: int, j: int|
                0 <= i < old(self).rows && 0 <= j < old(self).cols
                    && !(i == row && j == col)
                    ==> final(self).idx(i, j) == old(self).idx(i, j),
    {
        proof {
            lemma_index_bound(self.rows as int, self.cols as int, row as int, col as int);
            assert(self.data.len() == self.data@.len());
        }
        self.data.set(row * self.cols + col, new);
        proof {
            assert forall|i: int, j: int|
                0 <= i < self.rows && 0 <= j < self.cols && !(i == row && j == col)
                    implies #[trigger] self.idx(i, j) == old(self).idx(i, j) by {
                lemma_distinct_cells(self.cols as int, i, j, row as int, col as int);
                lemma_index_bound(self.rows as int, self.cols as int, i, j);
            }
        }
    }

    /// A reference to the raw row-major data, for read-only traversal.
    pub fn iter(&self) -> (res: &Vec<T>)
        ensures
            res@ == self.data@,
    {
        &self.data
    }

    /// A copy of this matrix padded with `fill` so that both dimensions are
    /// multiples of `tile`; the original content sits in the top-left corner.
    /// A matrix whose dimensions already divide evenly is returned unchanged
    /// in size (as an independent copy).
    pub fn create_zero_padded(&self, tile: usize, fill: T) -> (res: Self)
        requires
            self.wf(),
            tile >= 1,
            pad_dim(self.rows as int, tile as int) <= usize::MAX,
            pad_dim(self.cols as int, tile as int) <= usize::MAX,
            pad_dim(self.rows as int, tile as int) * pad_dim(self.cols as int, tile as int)
                <= usize::MAX,
        ensures
            res.wf(),
            res.rows == pad_dim(self.rows as int, tile as int),
            res.cols == pad_dim(self.cols as int, tile as int),
            forall|i: int, j: int|
                0 <= i < res.rows && 0 <= j < res.cols
                    ==> #[trigger] res.idx(i, j) == (if i < self.rows && j < self.cols {
                        self.idx(i, j)
                    } else {
                        fill
                    }),
    {
        proof {
            lemma_pad_dim_bounds(self.rows as int, tile as int);
            lemma_pad_dim_bounds(self.cols as int, tile as int);
            assert(0 <= self.rows % tile <= self.rows) by (nonlinear_arith)
                requires
                    tile >= 1,
            ;
            assert(0 <= self.cols % tile <= self.cols) by (nonlinear_arith)
                requires
                    tile >= 1,
            ;
        }
        let new_rows = if self.rows % tile == 0 {
            self.rows
        } else {
            self.rows - self.rows % tile + tile
        };
        let new_cols = if self.cols % tile == 0 {
            self.cols
        } else {
            self.cols - self.cols % tile + tile
        };

        let mut res = Matrix::create_empty(new_rows, new_cols, fill);
        proof {
            lemma_dims_monotone(
                self.rows as int,
                self.cols as int,
                new_rows as int,
                new_cols as int,
            );
            assert forall|r: int, c: int|
                0 <= r < res.rows && 0 <= c < res.cols
                    implies #[trigger] res.idx(r, c) == fill by {
                lemma_index_bound(res.rows as int, res.cols as int, r, c);
            }
        }
        let mut i: usize = 0;
        while i < self.rows
            invariant
                i <= self.rows,
                self.wf(),
                res.wf(),
                res.rows == new_rows,
                res.cols == new_cols,
                self.rows <= new_rows,
                self.cols <= new_cols,
                forall|r: int, c: int|
                    0 <= r < res.rows && 0 <= c < res.cols
                        ==> #[trigger] res.idx(r, c) == (if r < i && c < self.cols {
                            self.idx(r, c)
                        } else {
                            fill
                        }),
            decreases self.rows - i,
        {
            let mut j: usize = 0;
            while j < self.cols
                invariant
                    i < self.rows,
                    j <= self.cols,
                    self.wf(),
                    res.wf(),
                    res.rows == new_rows,
                    res.cols == new_cols,
                    self.rows <= new_rows,
                    self.cols <= new_cols,
                    forall|r: int, c: int|
                        0 <= r < res.rows && 0 <= c < res.cols
                            ==> #[trigger] res.idx(r, c) == (if (r < i && c < self.cols)
                                || (r == i && c < j) {
                                self.idx(r, c)
                            } else {
                                fill
                            }),
                decreases self.cols - j,
            {
                let v = self.get(i, j);
                res.set(i, j, v);
                j = j + 1;
            }
            i = i + 1;
        }
        res
    }

    /// The top-left `rows x cols` submatrix, copied out as an independent
    /// matrix.
    pub fn create_trimmed(&self, rows: usize, cols: usize) -> (res: Self)
        requires
            self.wf(),
            rows <= self.rows,
            cols <= self.cols,
        ensures
            res.wf(),
            res.rows == rows,
            res.cols == cols,
            forall|i: int, j: int|
                0 <= i < rows && 0 <= j < cols ==> #[trigger] res.idx(i, j) == self.idx(i, j),
    {
        proof {
            lemma_dims_monotone(rows as int, cols as int, self.rows as int, self.cols as int);
        }
        let mut data: Vec<T> = Vec::new();
        let mut i: usize = 0;
        while i < rows
            invariant
                i <= rows,
                rows <= self.rows,
                cols <= self.cols,
                self.wf(),
                data@.len() == i * cols,
                forall|r: int, c: int|
                    0 <= r < i && 0 <= c < cols ==> data@[r * cols + c] == self.idx(r, c),
            decreases rows - i,
        {
            let mut j: usize = 0;
            while j < cols
                invariant
                    i < rows,
                    j <= cols,
                    rows <= self.rows,
                    cols <= self.cols,
                    self.wf(),
                    data@.len() == i * cols + j,
                    forall|r: int, c: int|
                        0 <= r < i && 0 <= c < cols ==> data@[r * cols + c] == self.idx(r, c),
                    forall|c: int| 0 <= c < j ==> data@[i * cols + c] == self.idx(i as int, c),
                decreases cols - j,
            {
                proof {
                    lemma_index_bound(rows as int, cols as int, i as int, j as int);
                }
                let v = self.get(i, j);
                data.push(v);
                j = j + 1;
                proof {
                    assert forall|r: int, c: int|
                        0 <= r < i && 0 <= c < cols
                            implies data@[r * cols + c] == self.idx(r, c) by {
                        lemma_index_bound(i as int, cols as int, r, c);
                    }
                }
            }
            proof {
                assert((i + 1) * cols == i * cols + cols) by (nonlinear_arith);
            }
            i = i + 1;
        }
        Matrix { rows, cols, data }
    }
}

/// Two distinct cells of one row-major layout occupy distinct data slots.
pub proof fn lemma_distinct_cells(cols: int, i1: int, j1: int, i2: int, j2: int)
    requires
        0 <= j1 < cols,
        0 <= j2 < cols,
        0 <= i1,
        0 <= i2,
        !(i1 == i2 && j1 == j2),
    ensures
        i1 * cols + j1 != i2 * cols + j2,
{
    assert(i1 * cols + j1 != i2 * cols + j2) by (nonlinear_arith)
        requires
            0 <= j1 < cols,
            0 <= j2 < cols,
            0 <= i1,
            0 <= i2,
            !(i1 == i2 && j1 == j2),
    ;
}

/// Padding never shrinks a dimension and adds less than one full tile.
pub proof fn lemma_pad_dim_bounds(d: int, tile: int)
    requires
        0 <= d,
        1 <= tile,
    ensures
        d <= pad_dim(d, tile),
        pad_dim(d, tile) < d + tile,
        pad_dim(d, tile) % tile == 0,
{
    vstd::arithmetic::div_mod::lemma_mod_division_less_than_divisor(d, tile);
    if d % tile != 0 {
        vstd::arithmetic::div_mod::lemma_fundamental_div_mod(d, tile);
        assert(pad_dim(d, tile) == tile * (d / tile) + tile);
        assert(tile * (d / tile) + tile == (d / tile + 1) * tile) by (nonlinear_arith);
        vstd::arithmetic::div_mod::lemma_mod_multiples_basic(d / tile + 1, tile);
    }
}

} // verus!
