//! The multiplication algorithms and their common specification.
//!
//! Element arithmetic is handed in as two closures, `plus` and `times`,
//! together with the additive identity `zero`. A result element is pinned
//! down by `dot_chain`: the left-to-right chain of `times`/`plus`
//! applications over one row of the left operand and one column of the right
//! operand. Every strategy (the host reference loop and the models of the
//! three accelerator kernels) ensures the same chain, so any two strategies
//! agree exactly whenever the closures behave as functions.

use vstd::prelude::*;

use crate::error::MulError;
use crate::matrix::Matrix;
use crate::matrix::lemma_index_bound;
use crate::matrix::pad_dim;
use crate::sources::ELEM_PER_THREAD;
use crate::sources::TILE;

verus! {

/// The closure accepts every pair of arguments.
pub open spec fn total2<T, F: Fn(T, T) -> T>(f: F) -> bool {
    forall|x: T, y: T| #[trigger] call_requires(f, (x, y))
}

/// The closure's possible outputs form a function of its arguments.
pub open spec fn deterministic2<T, F: Fn(T, T) -> T>(f: F) -> bool {
    forall|x: T, y: T, r1: T, r2: T|
        #![trigger call_ensures(f, (x, y), r1), call_ensures(f, (x, y), r2)]
        call_ensures(f, (x, y), r1) && call_ensures(f, (x, y), r2) ==> r1 == r2
}

/// Multiplying the zero element by itself can only yield zero. Padding
/// introduces exactly such products.
pub open spec fn times_zero_zero<T, F: Fn(T, T) -> T>(times: F, zero: T) -> bool {
    forall|p: T| #[trigger] call_ensures(times, (zero, zero), p) ==> p == zero
}

/// Adding zero on the right can only return the left argument unchanged.
pub open spec fn plus_zero_identity<T, F: Fn(T, T) -> T>(plus: F, zero: T) -> bool {
    forall|x: T, r: T| #[trigger] call_ensures(plus, (x, zero), r) ==> r == x
}

/// `r` is a possible value of the accumulator after folding the first `n`
/// products of `u` and `v` in order, starting from `zero`:
/// `((zero + u[0]*v[0]) + u[1]*v[1]) + ...`.
pub open spec fn dot_chain<T, FA: Fn(T, T) -> T, FM: Fn(T, T) -> T>(
    plus: FA,
    times: FM,
    zero: T,
    u: Seq<T>,
    v: Seq<T>,
    n: int,
    r: T,
) -> bool
    decreases n,
{
    if n <= 0 {
        r == zero
    } else {
        exists|prev: T, p: T|
            {
                &&& dot_chain(plus, times, zero, u, v, n - 1, prev)
                &&& call_ensures(times, (u[n - 1], v[n - 1]), p)
                &&& #[trigger] call_ensures(plus, (prev, p), r)
            }
    }
}

/// `res` is a possible product of `m1` and `m2`: the dimensions are
/// `m1.rows x m2.cols` and every element is a `dot_chain` over the matching
/// row and column, across the whole shared dimension.
pub open spec fn is_product_of<T, FA: Fn(T, T) -> T, FM: Fn(T, T) -> T>(
    res: Matrix<T>,
    m1: Matrix<T>,
    m2: Matrix<T>,
    plus: FA,
    times: FM,
    zero: T,
) -> bool {
    &&& res.wf()
    &&& res.rows == m1.rows
    &&& res.cols == m2.cols
    &&& forall|i: int, j: int|
        0 <= i < res.rows && 0 <= j < res.cols ==> dot_chain(
            plus,
            times,
            zero,
            m1.row_seq(i),
            m2.col_seq(j),
            m1.cols as int,
            #[trigger] res.idx(i, j),
        )
}

/// Reference multiplication on the calling thread: the plain triple loop.
///
/// Succeeds exactly when the shared dimension agrees, and then every element
/// of the result is the in-order chain of products demanded by
/// `is_product_of`.
pub fn multiply_host<T: Copy, FA: Fn(T, T) -> T, FM: Fn(T, T) -> T>(
    m1: &Matrix<T>,
    m2: &Matrix<T>,
    zero: T,
    plus: FA,
    times: FM,
) -> (res: Result<Matrix<T>, MulError>)
    requires
        m1.wf(),
        m2.wf(),
        total2(plus),
        total2(times),
        m1.rows * m2.cols <= usize::MAX,
    ensures
        match res {
            Ok(r) => m1.cols == m2.rows && is_product_of(r, *m1, *m2, plus, times, zero),
            Err(e) => m1.cols != m2.rows && e == MulError::DimensionMismatch,
        },
{
    if m1.cols != m2.rows {
        return Err(MulError::DimensionMismatch);
    }

    let mut res = Matrix::create_empty(m1.rows, m2.cols, zero);
    let mut i: usize = 0;
    while i < m1.rows
        invariant
            i <= m1.rows,
            m1.wf(),
            m2.wf(),
            res.wf(),
            total2(plus),
            total2(times),
            m1.cols == m2.rows,
            res.rows == m1.rows,
            res.cols == m2.cols,
            forall|r: int, c: int|
                0 <= r < i && 0 <= c < res.cols ==> dot_chain(
                    plus,
                    times,
                    zero,
                    m1.row_seq(r),
                    m2.col_seq(c),
                    m1.cols as int,
                    #[trigger] res.idx(r, c),
                ),
        decreases m1.rows - i,
    {
        let mut j: usize = 0;
        while j < m2.cols
            invariant
                i < m1.rows,
                j <= m2.cols,
                m1.wf(),
                m2.wf(),
                res.wf(),
                total2(plus),
                total2(times),
                m1.cols == m2.rows,
                res.rows == m1.rows,
                res.cols == m2.cols,
                forall|r: int, c: int|
                    0 <= r < i && 0 <= c < res.cols ==> dot_chain(
                        plus,
                        times,
                        zero,
                        m1.row_seq(r),
                        m2.col_seq(c),
                        m1.cols as int,
                        #[trigger] res.idx(r, c),
                    ),
                forall|c: int|
                    0 <= c < j ==> dot_chain(
                        plus,
                        times,
                        zero,
                        m1.row_seq(i as int),
                        m2.col_seq(c),
                        m1.cols as int,
                        #[trigger] res.idx(i as int, c),
                    ),
            decreases m2.cols - j,
        {
            let ghost u = m1.row_seq(i as int);
            let ghost v = m2.col_seq(j as int);
            let mut sum = zero;
            let mut w: usize = 0;
            while w < m1.cols
                invariant
                    w <= m1.cols,
                    i < m1.rows,
                    j < m2.cols,
                    m1.wf(),
                    m2.wf(),
                    total2(plus),
                    total2(times),
                    m1.cols == m2.rows,
                    u == m1.row_seq(i as int),
                    v == m2.col_seq(j as int),
                    dot_chain(plus, times, zero, u, v, w as int, sum),
                decreases m1.cols - w,
            {
                let a = m1.get(i, w);
                let b = m2.get(w, j);
                let p = times(a, b);
                let s2 = plus(sum, p);
                proof {
                    assert(u[w as int] == a && v[w as int] == b);
                    assert(dot_chain(plus, times, zero, u, v, w as int + 1, s2));
                }
                sum = s2;
                w = w + 1;
            }
            res.set(i, j, sum);
            j = j + 1;
        }
        i = i + 1;
    }
    Ok(res)
}

/// The naive accelerator kernel, modelled on the host: one work item per
/// output element `(i = column, j = row)`, each computing a full dot product
/// straight from global memory. The grid is walked in launch order.
pub fn run_naive<T: Copy, FA: Fn(T, T) -> T, FM: Fn(T, T) -> T>(
    a: &Matrix<T>,
    b: &Matrix<T>,
    zero: T,
    plus: FA,
    times: FM,
) -> (res: Matrix<T>)
    requires
        a.wf(),
        b.wf(),
        total2(plus),
        total2(times),
        a.cols == b.rows,
        a.rows * b.cols <= usize::MAX,
    ensures
        is_product_of(res, *a, *b, plus, times, zero),
{
    let mut res = Matrix::create_empty(a.rows, b.cols, zero);
    // Work item (i, j) of the 2-D launch grid (B.cols x A.rows).
    let mut j: usize = 0;
    while j < a.rows
        invariant
            j <= a.rows,
            a.wf(),
            b.wf(),
            res.wf(),
            total2(plus),
            total2(times),
            a.cols == b.rows,
            res.rows == a.rows,
            res.cols == b.cols,
            forall|r: int, c: int|
                0 <= r < j && 0 <= c < res.cols ==> dot_chain(
                    plus,
                    times,
                    zero,
                    a.row_seq(r),
                    b.col_seq(c),
                    a.cols as int,
                    #[trigger] res.idx(r, c),
                ),
        decreases a.rows - j,
    {
        let mut i: usize = 0;
        while i < b.cols
            invariant
                j < a.rows,
                i <= b.cols,
                a.wf(),
                b.wf(),
                res.wf(),
                total2(plus),
                total2(times),
                a.cols == b.rows,
                res.rows == a.rows,
                res.cols == b.cols,
                forall|r: int, c: int|
                    0 <= r < j && 0 <= c < res.cols ==> dot_chain(
                        plus,
                        times,
                        zero,
                        a.row_seq(r),
                        b.col_seq(c),
                        a.cols as int,
                        #[trigger] res.idx(r, c),
                    ),
                forall|c: int|
                    0 <= c < i ==> dot_chain(
                        plus,
                        times,
                        zero,
                        a.row_seq(j as int),
                        b.col_seq(c),
                        a.cols as int,
                        #[trigger] res.idx(j as int, c),
                    ),
            decreases b.cols - i,
        {
            let ghost u = a.row_seq(j as int);
            let ghost v = b.col_seq(i as int);
            let mut sum = zero;
            let mut w: usize = 0;
            while w < a.cols
                invariant
                    w <= a.cols,
                    j < a.rows,
                    i < b.cols,
                    a.wf(),
                    b.wf(),
                    total2(plus),
                    total2(times),
                    a.cols == b.rows,
                    u == a.row_seq(j as int),
                    v == b.col_seq(i as int),
                    dot_chain(plus, times, zero, u, v, w as int, sum),
                decreases a.cols - w,
            {
                let x = a.get(j, w);
                let y = b.get(w, i);
                let p = times(x, y);
                let s2 = plus(sum, p);
                proof {
                    assert(u[w as int] == x && v[w as int] == y);
                    assert(dot_chain(plus, times, zero, u, v, w as int + 1, s2));
                }
                sum = s2;
                w = w + 1;
            }
            res.set(j, i, sum);
            i = i + 1;
        }
        j = j + 1;
    }
    res
}

/// Element `(r, c)` of `res` holds a complete chain over row `r` of `a` and
/// column `c` of `b`.
spec fn cell_done<T, FA: Fn(T, T) -> T, FM: Fn(T, T) -> T>(
    res: Matrix<T>,
    a: Matrix<T>,
    b: Matrix<T>,
    plus: FA,
    times: FM,
    zero: T,
    r: int,
    c: int,
) -> bool {
    dot_chain(plus, times, zero, a.row_seq(r), b.col_seq(c), a.cols as int, res.idx(r, c))
}

/// Accumulator `(lj, li)` of the work group anchored at `(row0, col0)` holds
/// a chain of the first `len` products of its output element.
spec fn acc_chain<T, FA: Fn(T, T) -> T, FM: Fn(T, T) -> T>(
    acc: Matrix<T>,
    a: Matrix<T>,
    b: Matrix<T>,
    plus: FA,
    times: FM,
    zero: T,
    row0: int,
    col0: int,
    lj: int,
    li: int,
    len: int,
) -> bool {
    dot_chain(plus, times, zero, a.row_seq(row0 + lj), b.col_seq(col0 + li), len, acc.idx(lj, li))
}

/// A dimension that divides evenly by `t` equals its group count times `t`.
proof fn lemma_div_exact(d: int, t: int)
    requires
        1 <= t,
        0 <= d,
        d % t == 0,
    ensures
        (d / t) * t == d,
{
    vstd::arithmetic::div_mod::lemma_fundamental_div_mod(d, t);
    assert(t * (d / t) == (d / t) * t) by (nonlinear_arith);
}

/// A group index strictly below the group count keeps its whole tile inside
/// the dimension it partitions.
proof fn lemma_group_bounds(g: int, n_groups: int, t: int, total: int)
    requires
        0 <= g < n_groups,
        1 <= t,
        n_groups * t == total,
    ensures
        0 <= g * t,
        g * t + t <= total,
    {
    assert(0 <= g * t && g * t + t <= n_groups * t) by (nonlinear_arith)
        requires
            0 <= g < n_groups,
            1 <= t,
    ;
}

/// Cell `(r, c)` of a tile being staged holds the matching element of the
/// source block anchored at `(row0, col0)`.
spec fn block_loaded<T>(
    data: Seq<T>,
    src: Matrix<T>,
    row0: int,
    col0: int,
    t: int,
    r: int,
    c: int,
) -> bool {
    data[r * t + c] == src.idx(row0 + r, col0 + c)
}

/// The cooperative load phase of a tiled kernel: a work group copies a
/// square block of `src`, anchored at `(row0, col0)`, into local memory.
fn load_tile<T: Copy>(src: &Matrix<T>, row0: usize, col0: usize, t: usize) -> (tile: Matrix<T>)
    requires
        src.wf(),
        row0 + t <= src.rows,
        col0 + t <= src.cols,
        t * t <= usize::MAX,
    ensures
        tile.wf(),
        tile.rows == t,
        tile.cols == t,
        forall|x: int, y: int|
            0 <= x < t && 0 <= y < t ==> #[trigger] tile.idx(x, y) == src.idx(row0 + x, col0 + y),
{
    let mut data: Vec<T> = Vec::new();
    let mut x: usize = 0;
    while x < t
        invariant
            x <= t,
            src.wf(),
            row0 + t <= src.rows,
            col0 + t <= src.cols,
            data@.len() == x * t,
            forall|r: int, c: int|
                0 <= r < x && 0 <= c < t ==> #[trigger] block_loaded(
                    data@,
                    *src,
                    row0 as int,
                    col0 as int,
                    t as int,
                    r,
                    c,
                ),
        decreases t - x,
    {
        let mut y: usize = 0;
        while y < t
            invariant
                x < t,
                y <= t,
                src.wf(),
                row0 + t <= src.rows,
                col0 + t <= src.cols,
                data@.len() == x * t + y,
                forall|r: int, c: int|
                    0 <= r < x && 0 <= c < t ==> #[trigger] block_loaded(
                        data@,
                        *src,
                        row0 as int,
                        col0 as int,
                        t as int,
                        r,
                        c,
                    ),
                forall|c: int|
                    0 <= c < y ==> #[trigger] block_loaded(
                        data@,
                        *src,
                        row0 as int,
                        col0 as int,
                        t as int,
                        x as int,
                        c,
                    ),
            decreases t - y,
        {
            let v = src.get(row0 + x, col0 + y);
            let ghost pre = data@;
            data.push(v);
            y = y + 1;
            proof {
                assert forall|r: int, c: int|
                    0 <= r < x && 0 <= c < t
                        implies #[trigger] block_loaded(
                    data@,
                    *src,
                    row0 as int,
                    col0 as int,
                    t as int,
                    r,
                    c,
                ) by {
                    lemma_index_bound(x as int, t as int, r, c);
                    assert(block_loaded(pre, *src, row0 as int, col0 as int, t as int, r, c));
                }
                assert forall|c: int|
                    0 <= c < y
                        implies #[trigger] block_loaded(
                    data@,
                    *src,
                    row0 as int,
                    col0 as int,
                    t as int,
                    x as int,
                    c,
                ) by {
                    if c < y - 1 {
                        assert(block_loaded(pre, *src, row0 as int, col0 as int, t as int, x as int, c));
                    }
                }
            }
        }
        proof {
            assert((x + 1) * t == x * t + t) by (nonlinear_arith);
        }
        x = x + 1;
    }
    let tile = Matrix { rows: t, cols: t, data };
    proof {
        assert forall|x: int, y: int|
            0 <= x < t && 0 <= y < t
                implies #[trigger] tile.idx(x, y) == src.idx(row0 + x, col0 + y) by {
            assert(block_loaded(tile.data@, *src, row0 as int, col0 as int, t as int, x, y));
        }
    }
    tile
}

/// The write-back phase: the group's accumulators land in the output block
/// anchored at `(row0, col0)`; everything outside the block is untouched.
fn store_tile<T: Copy>(res: &mut Matrix<T>, tile: &Matrix<T>, row0: usize, col0: usize)
    requires
        old(res).wf(),
        tile.wf(),
        row0 + tile.rows <= old(res).rows,
        col0 + tile.cols <= old(res).cols,
    ensures
        final(res).wf(),
        final(res).rows == old(res).rows,
        final(res).cols == old(res).cols,
        forall|r: int, c: int|
            0 <= r < old(res).rows && 0 <= c < old(res).cols
                ==> #[trigger] final(res).idx(r, c) == (if row0 <= r < row0 + tile.rows
                    && col0 <= c < col0 + tile.cols {
                    tile.idx(r - row0, c - col0)
                } else {
                    old(res).idx(r, c)
                }),
{
    let mut x: usize = 0;
    while x < tile.rows
        invariant
            x <= tile.rows,
            res.wf(),
            tile.wf(),
            res.rows == old(res).rows,
            res.cols == old(res).cols,
            row0 + tile.rows <= res.rows,
            col0 + tile.cols <= res.cols,
            forall|r: int, c: int|
                0 <= r < res.rows && 0 <= c < res.cols
                    ==> #[trigger] res.idx(r, c) == (if row0 <= r < row0 + x
                        && col0 <= c < col0 + tile.cols {
                        tile.idx(r - row0, c - col0)
                    } else {
                        old(res).idx(r, c)
                    }),
        decreases tile.rows - x,
    {
        let mut y: usize = 0;
        while y < tile.cols
            invariant
                x < tile.rows,
                y <= tile.cols,
                res.wf(),
                tile.wf(),
                res.rows == old(res).rows,
                res.cols == old(res).cols,
                row0 + tile.rows <= res.rows,
                col0 + tile.cols <= res.cols,
                forall|r: int, c: int|
                    0 <= r < res.rows && 0 <= c < res.cols
                        ==> #[trigger] res.idx(r, c) == (if (row0 <= r < row0 + x
                            && col0 <= c < col0 + tile.cols)
                            || (r == row0 + x && col0 <= c < col0 + y) {
                            tile.idx(r - row0, c - col0)
                        } else {
                            old(res).idx(r, c)
                        }),
            decreases tile.cols - y,
        {
            let v = tile.get(x, y);
            res.set(row0 + x, col0 + y, v);
            y = y + 1;
        }
        x = x + 1;
    }
}

/// One tile step of the compute phase: after both local tiles are fully
/// staged (the first barrier), every thread of the group folds the tile's
/// products into its accumulator, in tile order (the second barrier keeps
/// the staging of the next step from overlapping).
#[verifier::rlimit(60)]
fn tile_accumulate<T: Copy, FA: Fn(T, T) -> T + Copy, FM: Fn(T, T) -> T + Copy>(
    acc: &mut Matrix<T>,
    la: &Matrix<T>,
    lb: &Matrix<T>,
    a: &Matrix<T>,
    b: &Matrix<T>,
    row0: usize,
    col0: usize,
    k0: usize,
    plus: FA,
    times: FM,
    zero: T,
)
    requires
        old(acc).wf(),
        la.wf(),
        lb.wf(),
        a.wf(),
        b.wf(),
        total2(plus),
        total2(times),
        old(acc).rows == TILE,
        old(acc).cols == TILE,
        la.rows == TILE,
        la.cols == TILE,
        lb.rows == TILE,
        lb.cols == TILE,
        a.cols == b.rows,
        row0 + TILE <= a.rows,
        col0 + TILE <= b.cols,
        k0 + TILE <= a.cols,
        forall|x: int, y: int|
            0 <= x < TILE && 0 <= y < TILE ==> #[trigger] la.idx(x, y) == a.idx(row0 + x, k0 + y),
        forall|x: int, y: int|
            0 <= x < TILE && 0 <= y < TILE ==> #[trigger] lb.idx(x, y) == b.idx(k0 + x, col0 + y),
        forall|x: int, y: int|
            0 <= x < TILE && 0 <= y < TILE ==> #[trigger] acc_chain(
                *old(acc),
                *a,
                *b,
                plus,
                times,
                zero,
                row0 as int,
                col0 as int,
                x,
                y,
                k0 as int,
            ),
    ensures
        final(acc).wf(),
        final(acc).rows == TILE,
        final(acc).cols == TILE,
        forall|x: int, y: int|
            0 <= x < TILE && 0 <= y < TILE ==> #[trigger] acc_chain(
                *final(acc),
                *a,
                *b,
                plus,
                times,
                zero,
                row0 as int,
                col0 as int,
                x,
                y,
                k0 + TILE,
            ),
{
    let ghost r0 = row0 as int;
    let ghost c0 = col0 as int;
    let mut lj: usize = 0;
    while lj < TILE
        invariant
            lj <= TILE,
            acc.wf(),
            la.wf(),
            lb.wf(),
            a.wf(),
            b.wf(),
            total2(plus),
            total2(times),
            acc.rows == TILE,
            acc.cols == TILE,
            la.rows == TILE,
            la.cols == TILE,
            lb.rows == TILE,
            lb.cols == TILE,
            a.cols == b.rows,
            row0 + TILE <= a.rows,
            col0 + TILE <= b.cols,
            k0 + TILE <= a.cols,
            r0 == row0 as int,
            c0 == col0 as int,
            forall|x: int, y: int|
                0 <= x < TILE && 0 <= y < TILE ==> #[trigger] la.idx(x, y) == a.idx(
                    row0 + x,
                    k0 + y,
                ),
            forall|x: int, y: int|
                0 <= x < TILE && 0 <= y < TILE ==> #[trigger] lb.idx(x, y) == b.idx(
                    k0 + x,
                    col0 + y,
                ),
            forall|x: int, y: int|
                0 <= x < lj && 0 <= y < TILE ==> #[trigger] acc_chain(
                    *acc,
                    *a,
                    *b,
                    plus,
                    times,
                    zero,
                    r0,
                    c0,
                    x,
                    y,
                    k0 + TILE,
                ),
            forall|x: int, y: int|
                lj <= x < TILE && 0 <= y < TILE ==> #[trigger] acc_chain(
                    *acc,
                    *a,
                    *b,
                    plus,
                    times,
                    zero,
                    r0,
                    c0,
                    x,
                    y,
                    k0 as int,
                ),
        decreases TILE - lj,
    {
        let mut li: usize = 0;
        while li < TILE
            invariant
                lj < TILE,
                li <= TILE,
                acc.wf(),
                la.wf(),
                lb.wf(),
                a.wf(),
                b.wf(),
                total2(plus),
                total2(times),
                acc.rows == TILE,
                acc.cols == TILE,
                la.rows == TILE,
                la.cols == TILE,
                lb.rows == TILE,
                lb.cols == TILE,
                a.cols == b.rows,
                row0 + TILE <= a.rows,
                col0 + TILE <= b.cols,
                k0 + TILE <= a.cols,
                r0 == row0 as int,
                c0 == col0 as int,
                forall|x: int, y: int|
                    0 <= x < TILE && 0 <= y < TILE ==> #[trigger] la.idx(x, y) == a.idx(
                        row0 + x,
                        k0 + y,
                    ),
                forall|x: int, y: int|
                    0 <= x < TILE && 0 <= y < TILE ==> #[trigger] lb.idx(x, y) == b.idx(
                        k0 + x,
                        col0 + y,
                    ),
                forall|x: int, y: int|
                    0 <= x < lj && 0 <= y < TILE ==> #[trigger] acc_chain(
                        *acc,
                        *a,
                        *b,
                        plus,
                        times,
                        zero,
                        r0,
                        c0,
                        x,
                        y,
                        k0 + TILE,
                    ),
                forall|y: int|
                    0 <= y < li ==> #[trigger] acc_chain(
                        *acc,
                        *a,
                        *b,
                        plus,
                        times,
                        zero,
                        r0,
                        c0,
                        lj as int,
                        y,
                        k0 + TILE,
                    ),
                forall|y: int|
                    li <= y < TILE ==> #[trigger] acc_chain(
                        *acc,
                        *a,
                        *b,
                        plus,
                        times,
                        zero,
                        r0,
                        c0,
                        lj as int,
                        y,
                        k0 as int,
                    ),
                forall|x: int, y: int|
                    lj < x < TILE && 0 <= y < TILE ==> #[trigger] acc_chain(
                        *acc,
                        *a,
                        *b,
                        plus,
                        times,
                        zero,
                        r0,
                        c0,
                        x,
                        y,
                        k0 as int,
                    ),
            decreases TILE - li,
        {
            let ghost u = a.row_seq(r0 + lj);
            let ghost v = b.col_seq(c0 + li);
            let mut s = acc.get(lj, li);
            proof {
                assert(acc_chain(*acc, *a, *b, plus, times, zero, r0, c0, lj as int, li as int,
                    k0 as int));
            }
            let mut z: usize = 0;
            while z < TILE
                invariant
                    lj < TILE,
                    li < TILE,
                    z <= TILE,
                    la.wf(),
                    lb.wf(),
                    a.wf(),
                    b.wf(),
                    total2(plus),
                    total2(times),
                    la.rows == TILE,
                    la.cols == TILE,
                    lb.rows == TILE,
                    lb.cols == TILE,
                    a.cols == b.rows,
                    row0 + TILE <= a.rows,
                    col0 + TILE <= b.cols,
                    k0 + TILE <= a.cols,
                    r0 == row0 as int,
                    c0 == col0 as int,
                    u == a.row_seq(r0 + lj),
                    v == b.col_seq(c0 + li),
                    forall|x: int, y: int|
                        0 <= x < TILE && 0 <= y < TILE ==> #[trigger] la.idx(x, y) == a.idx(
                            row0 + x,
                            k0 + y,
                        ),
                    forall|x: int, y: int|
                        0 <= x < TILE && 0 <= y < TILE ==> #[trigger] lb.idx(x, y) == b.idx(
                            k0 + x,
                            col0 + y,
                        ),
                    dot_chain(plus, times, zero, u, v, k0 + z, s),
                decreases TILE - z,
            {
                let xa = la.get(lj, z);
                let yb = lb.get(z, li);
                let p = times(xa, yb);
                let s2 = plus(s, p);
                proof {
                    assert(u[k0 + z] == a.idx(r0 + lj, k0 + z));
                    assert(v[k0 + z] == b.idx(k0 + z, c0 + li));
                    assert(dot_chain(plus, times, zero, u, v, k0 + z + 1, s2));
                }
                s = s2;
                z = z + 1;
            }
            let ghost pre = *acc;
            acc.set(lj, li, s);
            proof {
                assert(acc.idx(lj as int, li as int) == s);
                assert(acc_chain(*acc, *a, *b, plus, times, zero, r0, c0, lj as int, li as int,
                    k0 + TILE));
                assert forall|x: int, y: int|
                    0 <= x < lj && 0 <= y < TILE implies #[trigger] acc_chain(
                    *acc, *a, *b, plus, times, zero, r0, c0, x, y, k0 + TILE,
                ) by {
                    assert(acc_chain(pre, *a, *b, plus, times, zero, r0, c0, x, y, k0 + TILE));
                    assert(acc.idx(x, y) == pre.idx(x, y));
                }
                assert forall|y: int|
                    0 <= y < li + 1 implies #[trigger] acc_chain(
                    *acc, *a, *b, plus, times, zero, r0, c0, lj as int, y, k0 + TILE,
                ) by {
                    if y < li {
                        assert(acc_chain(pre, *a, *b, plus, times, zero, r0, c0, lj as int, y,
                            k0 + TILE));
                        assert(acc.idx(lj as int, y) == pre.idx(lj as int, y));
                    }
                }
                assert forall|y: int|
                    li + 1 <= y < TILE implies #[trigger] acc_chain(
                    *acc, *a, *b, plus, times, zero, r0, c0, lj as int, y, k0 as int,
                ) by {
                    assert(acc_chain(pre, *a, *b, plus, times, zero, r0, c0, lj as int, y,
                        k0 as int));
                    assert(acc.idx(lj as int, y) == pre.idx(lj as int, y));
                }
                assert forall|x: int, y: int|
                    lj < x < TILE && 0 <= y < TILE implies #[trigger] acc_chain(
                    *acc, *a, *b, plus, times, zero, r0, c0, x, y, k0 as int,
                ) by {
                    assert(acc_chain(pre, *a, *b, plus, times, zero, r0, c0, x, y, k0 as int));
                    assert(acc.idx(x, y) == pre.idx(x, y));
                }
            }
            li = li + 1;
        }
        lj = lj + 1;
    }
}

/// One tile step of the coarsened compute phase: the same staging and
/// barrier discipline as the tiled kernel, but each thread computes
/// `ELEM_PER_THREAD` output elements stacked `TILE / ELEM_PER_THREAD` rows
/// apart, holding one running sum per element.
#[verifier::rlimit(60)]
fn tile_accumulate_coarsened<T: Copy, FA: Fn(T, T) -> T + Copy, FM: Fn(T, T) -> T + Copy>(
    acc: &mut Matrix<T>,
    la: &Matrix<T>,
    lb: &Matrix<T>,
    a: &Matrix<T>,
    b: &Matrix<T>,
    row0: usize,
    col0: usize,
    k0: usize,
    plus: FA,
    times: FM,
    zero: T,
)
    requires
        old(acc).wf(),
        la.wf(),
        lb.wf(),
        a.wf(),
        b.wf(),
        total2(plus),
        total2(times),
        old(acc).rows == TILE,
        old(acc).cols == TILE,
        la.rows == TILE,
        la.cols == TILE,
        lb.rows == TILE,
        lb.cols == TILE,
        a.cols == b.rows,
        row0 + TILE <= a.rows,
        col0 + TILE <= b.cols,
        k0 + TILE <= a.cols,
        forall|x: int, y: int|
            0 <= x < TILE && 0 <= y < TILE ==> #[trigger] la.idx(x, y) == a.idx(row0 + x, k0 + y),
        forall|x: int, y: int|
            0 <= x < TILE && 0 <= y < TILE ==> #[trigger] lb.idx(x, y) == b.idx(k0 + x, col0 + y),
        forall|x: int, y: int|
            0 <= x < TILE && 0 <= y < TILE ==> #[trigger] acc_chain(
                *old(acc),
                *a,
                *b,
                plus,
                times,
                zero,
                row0 as int,
                col0 as int,
                x,
                y,
                k0 as int,
            ),
    ensures
        final(acc).wf(),
        final(acc).rows == TILE,
        final(acc).cols == TILE,
        forall|x: int, y: int|
            0 <= x < TILE && 0 <= y < TILE ==> #[trigger] acc_chain(
                *final(acc),
                *a,
                *b,
                plus,
                times,
                zero,
                row0 as int,
                col0 as int,
                x,
                y,
                k0 + TILE,
            ),
{
    let ghost r0 = row0 as int;
    let ghost c0 = col0 as int;
    // Each thread covers one row of the lower half and its partner
    // `half` rows further down.
    let half = TILE / ELEM_PER_THREAD;
    let mut lj: usize = 0;
    while lj < half
        invariant
            lj <= half,
            half == TILE / ELEM_PER_THREAD,
            acc.wf(),
            la.wf(),
            lb.wf(),
            a.wf(),
            b.wf(),
            total2(plus),
            total2(times),
            acc.rows == TILE,
            acc.cols == TILE,
            la.rows == TILE,
            la.cols == TILE,
            lb.rows == TILE,
            lb.cols == TILE,
            a.cols == b.rows,
            row0 + TILE <= a.rows,
            col0 + TILE <= b.cols,
            k0 + TILE <= a.cols,
            r0 == row0 as int,
            c0 == col0 as int,
            forall|x: int, y: int|
                0 <= x < TILE && 0 <= y < TILE ==> #[trigger] la.idx(x, y) == a.idx(
                    row0 + x,
                    k0 + y,
                ),
            forall|x: int, y: int|
                0 <= x < TILE && 0 <= y < TILE ==> #[trigger] lb.idx(x, y) == b.idx(
                    k0 + x,
                    col0 + y,
                ),
            forall|x: int, y: int|
                0 <= y < TILE && (0 <= x < lj || half <= x < half + lj) ==> #[trigger] acc_chain(
                    *acc,
                    *a,
                    *b,
                    plus,
                    times,
                    zero,
                    r0,
                    c0,
                    x,
                    y,
                    k0 + TILE,
                ),
            forall|x: int, y: int|
                0 <= y < TILE && (lj <= x < half || half + lj <= x < TILE) ==> #[trigger] acc_chain(
                    *acc,
                    *a,
                    *b,
                    plus,
                    times,
                    zero,
                    r0,
                    c0,
                    x,
                    y,
                    k0 as int,
                ),
        decreases half - lj,
    {
        let mut li: usize = 0;
        while li < TILE
            invariant
                lj < half,
                li <= TILE,
                half == TILE / ELEM_PER_THREAD,
                acc.wf(),
                la.wf(),
                lb.wf(),
                a.wf(),
                b.wf(),
                total2(plus),
                total2(times),
                acc.rows == TILE,
                acc.cols == TILE,
                la.rows == TILE,
                la.cols == TILE,
                lb.rows == TILE,
                lb.cols == TILE,
                a.cols == b.rows,
                row0 + TILE <= a.rows,
                col0 + TILE <= b.cols,
                k0 + TILE <= a.cols,
                r0 == row0 as int,
                c0 == col0 as int,
                forall|x: int, y: int|
                    0 <= x < TILE && 0 <= y < TILE ==> #[trigger] la.idx(x, y) == a.idx(
                        row0 + x,
                        k0 + y,
                    ),
                forall|x: int, y: int|
                    0 <= x < TILE && 0 <= y < TILE ==> #[trigger] lb.idx(x, y) == b.idx(
                        k0 + x,
                        col0 + y,
                    ),
                forall|x: int, y: int|
                    0 <= y < TILE && (0 <= x < lj || half <= x < half + lj) ==> #[trigger] acc_chain(
                        *acc,
                        *a,
                        *b,
                        plus,
                        times,
                        zero,
                        r0,
                        c0,
                        x,
                        y,
                        k0 + TILE,
                    ),
                forall|y: int|
                    0 <= y < li ==> #[trigger] acc_chain(
                        *acc,
                        *a,
                        *b,
                        plus,
                        times,
                        zero,
                        r0,
                        c0,
                        lj as int,
                        y,
                        k0 + TILE,
                    ),
                forall|y: int|
                    0 <= y < li ==> #[trigger] acc_chain(
                        *acc,
                        *a,
                        *b,
                        plus,
                        times,
                        zero,
                        r0,
                        c0,
                        lj + half,
                        y,
                        k0 + TILE,
                    ),
                forall|y: int|
                    li <= y < TILE ==> #[trigger] acc_chain(
                        *acc,
                        *a,
                        *b,
                        plus,
                        times,
                        zero,
                        r0,
                        c0,
                        lj as int,
                        y,
                        k0 as int,
                    ),
                forall|y: int|
                    li <= y < TILE ==> #[trigger] acc_chain(
                        *acc,
                        *a,
                        *b,
                        plus,
                        times,
                        zero,
                        r0,
                        c0,
                        lj + half,
                        y,
                        k0 as int,
                    ),
                forall|x: int, y: int|
                    0 <= y < TILE && (lj < x < half || half + lj < x < TILE) ==> #[trigger] acc_chain(
                        *acc,
                        *a,
                        *b,
                        plus,
                        times,
                        zero,
                        r0,
                        c0,
                        x,
                        y,
                        k0 as int,
                    ),
            decreases TILE - li,
        {
            let ghost u0 = a.row_seq(r0 + lj);
            let ghost u1 = a.row_seq(r0 + lj + half);
            let ghost v = b.col_seq(c0 + li);
            let mut s0 = acc.get(lj, li);
            let mut s1 = acc.get(lj + half, li);
            proof {
                assert(acc_chain(*acc, *a, *b, plus, times, zero, r0, c0, lj as int, li as int,
                    k0 as int));
                assert(acc_chain(*acc, *a, *b, plus, times, zero, r0, c0, lj + half, li as int,
                    k0 as int));
            }
            let mut z: usize = 0;
            while z < TILE
                invariant
                    lj < half,
                    li < TILE,
                    z <= TILE,
                    half == TILE / ELEM_PER_THREAD,
                    la.wf(),
                    lb.wf(),
                    a.wf(),
                    b.wf(),
                    total2(plus),
                    total2(times),
                    la.rows == TILE,
                    la.cols == TILE,
                    lb.rows == TILE,
                    lb.cols == TILE,
                    a.cols == b.rows,
                    row0 + TILE <= a.rows,
                    col0 + TILE <= b.cols,
                    k0 + TILE <= a.cols,
                    r0 == row0 as int,
                    c0 == col0 as int,
                    u0 == a.row_seq(r0 + lj),
                    u1 == a.row_seq(r0 + lj + half),
                    v == b.col_seq(c0 + li),
                    forall|x: int, y: int|
                        0 <= x < TILE && 0 <= y < TILE ==> #[trigger] la.idx(x, y) == a.idx(
                            row0 + x,
                            k0 + y,
                        ),
                    forall|x: int, y: int|
                        0 <= x < TILE && 0 <= y < TILE ==> #[trigger] lb.idx(x, y) == b.idx(
                            k0 + x,
                            col0 + y,
                        ),
                    dot_chain(plus, times, zero, u0, v, k0 + z, s0),
                    dot_chain(plus, times, zero, u1, v, k0 + z, s1),
                decreases TILE - z,
            {
                let yb = lb.get(z, li);
                let xa0 = la.get(lj, z);
                let p0 = times(xa0, yb);
                let t0 = plus(s0, p0);
                let xa1 = la.get(lj + half, z);
                let p1 = times(xa1, yb);
                let t1 = plus(s1, p1);
                proof {
                    assert(u0[k0 + z] == a.idx(r0 + lj, k0 + z));
                    assert(u1[k0 + z] == a.idx(r0 + lj + half, k0 + z));
                    assert(v[k0 + z] == b.idx(k0 + z, c0 + li));
                    assert(dot_chain(plus, times, zero, u0, v, k0 + z + 1, t0));
                    assert(dot_chain(plus, times, zero, u1, v, k0 + z + 1, t1));
                }
                s0 = t0;
                s1 = t1;
                z = z + 1;
            }
            let ghost pre = *acc;
            acc.set(lj, li, s0);
            let ghost mid = *acc;
            acc.set(lj + half, li, s1);
            proof {
                assert(acc.idx(lj as int, li as int) == mid.idx(lj as int, li as int));
                assert(mid.idx(lj as int, li as int) == s0);
                assert(acc.idx(lj + half, li as int) == s1);
                assert(acc_chain(*acc, *a, *b, plus, times, zero, r0, c0, lj as int, li as int,
                    k0 + TILE));
                assert(acc_chain(*acc, *a, *b, plus, times, zero, r0, c0, lj + half, li as int,
                    k0 + TILE));
                assert forall|x: int, y: int|
                    0 <= y < TILE && (0 <= x < lj || half <= x < half + lj) implies
                    #[trigger] acc_chain(
                    *acc, *a, *b, plus, times, zero, r0, c0, x, y, k0 + TILE,
                ) by {
                    assert(acc_chain(pre, *a, *b, plus, times, zero, r0, c0, x, y, k0 + TILE));
                    assert(mid.idx(x, y) == pre.idx(x, y));
                    assert(acc.idx(x, y) == mid.idx(x, y));
                }
                assert forall|y: int|
                    0 <= y < li + 1 implies #[trigger] acc_chain(
                    *acc, *a, *b, plus, times, zero, r0, c0, lj as int, y, k0 + TILE,
                ) by {
                    if y < li {
                        assert(acc_chain(pre, *a, *b, plus, times, zero, r0, c0, lj as int, y,
                            k0 + TILE));
                        assert(mid.idx(lj as int, y) == pre.idx(lj as int, y));
                        assert(acc.idx(lj as int, y) == mid.idx(lj as int, y));
                    }
                }
                assert forall|y: int|
                    0 <= y < li + 1 implies #[trigger] acc_chain(
                    *acc, *a, *b, plus, times, zero, r0, c0, lj + half, y, k0 + TILE,
                ) by {
                    if y < li {
                        assert(acc_chain(pre, *a, *b, plus, times, zero, r0, c0, lj + half, y,
                            k0 + TILE));
                        assert(mid.idx(lj + half, y) == pre.idx(lj + half, y));
                        assert(acc.idx(lj + half, y) == mid.idx(lj + half, y));
                    }
                }
                assert forall|y: int|
                    li + 1 <= y < TILE implies #[trigger] acc_chain(
                    *acc, *a, *b, plus, times, zero, r0, c0, lj as int, y, k0 as int,
                ) by {
                    assert(acc_chain(pre, *a, *b, plus, times, zero, r0, c0, lj as int, y,
                        k0 as int));
                    assert(mid.idx(lj as int, y) == pre.idx(lj as int, y));
                    assert(acc.idx(lj as int, y) == mid.idx(lj as int, y));
                }
                assert forall|y: int|
                    li + 1 <= y < TILE implies #[trigger] acc_chain(
                    *acc, *a, *b, plus, times, zero, r0, c0, lj + half, y, k0 as int,
                ) by {
                    assert(acc_chain(pre, *a, *b, plus, times, zero, r0, c0, lj + half, y,
                        k0 as int));
                    assert(mid.idx(lj + half, y) == pre.idx(lj + half, y));
                    assert(acc.idx(lj + half, y) == mid.idx(lj + half, y));
                }
                assert forall|x: int, y: int|
                    0 <= y < TILE && (lj < x < half || half + lj < x < TILE) implies
                    #[trigger] acc_chain(
                    *acc, *a, *b, plus, times, zero, r0, c0, x, y, k0 as int,
                ) by {
                    assert(acc_chain(pre, *a, *b, plus, times, zero, r0, c0, x, y, k0 as int));
                    assert(mid.idx(x, y) == pre.idx(x, y));
                    assert(acc.idx(x, y) == mid.idx(x, y));
                }
            }
            li = li + 1;
        }
        lj = lj + 1;
    }
}

/// The tiled accelerator kernel, modelled on the host: work groups of
/// `TILE x TILE` threads stage square tiles of both operands into local
/// memory and accumulate `TILE` products per step, walking the shared
/// dimension one tile at a time. Requires every dimension to be an exact
/// multiple of `TILE`; callers pad beforehand and trim afterwards.
pub fn run_tiled<T: Copy, FA: Fn(T, T) -> T + Copy, FM: Fn(T, T) -> T + Copy>(
    a: &Matrix<T>,
    b: &Matrix<T>,
    zero: T,
    plus: FA,
    times: FM,
) -> (res: Matrix<T>)
    requires
        a.wf(),
        b.wf(),
        total2(plus),
        total2(times),
        a.cols == b.rows,
        a.rows as int % (TILE as int) == 0,
        a.cols as int % (TILE as int) == 0,
        b.cols as int % (TILE as int) == 0,
        a.rows * b.cols <= usize::MAX,
    ensures
        is_product_of(res, *a, *b, plus, times, zero),
{
    let t = TILE;
    let groups_j = a.rows / t;
    let groups_i = b.cols / t;
    let steps = a.cols / t;
    proof {
        lemma_div_exact(a.rows as int, t as int);
        lemma_div_exact(b.cols as int, t as int);
        lemma_div_exact(a.cols as int, t as int);
    }

    let mut res = Matrix::create_empty(a.rows, b.cols, zero);
    let mut gj: usize = 0;
    while gj < groups_j
        invariant
            gj <= groups_j,
            a.wf(),
            b.wf(),
            res.wf(),
            total2(plus),
            total2(times),
            a.cols == b.rows,
            res.rows == a.rows,
            res.cols == b.cols,
            t == TILE,
            groups_j * t == a.rows,
            groups_i * t == b.cols,
            steps * t == a.cols,
            forall|r: int, c: int|
                0 <= r < gj * t && 0 <= c < res.cols ==> #[trigger] cell_done(
                    res,
                    *a,
                    *b,
                    plus,
                    times,
                    zero,
                    r,
                    c,
                ),
        decreases groups_j - gj,
    {
        let mut gi: usize = 0;
        while gi < groups_i
            invariant
                gj < groups_j,
                gi <= groups_i,
                a.wf(),
                b.wf(),
                res.wf(),
                total2(plus),
                total2(times),
                a.cols == b.rows,
                res.rows == a.rows,
                res.cols == b.cols,
                t == TILE,
                groups_j * t == a.rows,
                groups_i * t == b.cols,
                steps * t == a.cols,
                forall|r: int, c: int|
                    0 <= r < gj * t && 0 <= c < res.cols ==> #[trigger] cell_done(
                        res,
                        *a,
                        *b,
                        plus,
                        times,
                        zero,
                        r,
                        c,
                    ),
                forall|r: int, c: int|
                    gj * t <= r < gj * t + t && 0 <= c < gi * t ==> #[trigger] cell_done(
                        res,
                        *a,
                        *b,
                        plus,
                        times,
                        zero,
                        r,
                        c,
                    ),
            decreases groups_i - gi,
        {
            proof {
                lemma_group_bounds(gj as int, groups_j as int, t as int, a.rows as int);
                lemma_group_bounds(gi as int, groups_i as int, t as int, b.cols as int);
            }
            let row0 = gj * t;
            let col0 = gi * t;
            let mut acc = Matrix::create_empty(t, t, zero);
            proof {
                assert forall|x: int, y: int|
                    0 <= x < TILE && 0 <= y < TILE implies acc_chain(
                    acc,
                    *a,
                    *b,
                    plus,
                    times,
                    zero,
                    row0 as int,
                    col0 as int,
                    x,
                    y,
                    0,
                ) by {
                    lemma_index_bound(t as int, t as int, x, y);
                    assert(acc.idx(x, y) == zero);
                }
            }
            let mut w: usize = 0;
            while w < steps
                invariant
                    w <= steps,
                    a.wf(),
                    b.wf(),
                    acc.wf(),
                    total2(plus),
                    total2(times),
                    a.cols == b.rows,
                    acc.rows == TILE,
                    acc.cols == TILE,
                    t == TILE,
                    steps * t == a.cols,
                    row0 == gj * t,
                    col0 == gi * t,
                    row0 + t <= a.rows,
                    col0 + t <= b.cols,
                    forall|x: int, y: int|
                        0 <= x < TILE && 0 <= y < TILE ==> #[trigger] acc_chain(
                            acc,
                            *a,
                            *b,
                            plus,
                            times,
                            zero,
                            row0 as int,
                            col0 as int,
                            x,
                            y,
                            w * t,
                        ),
                decreases steps - w,
            {
                proof {
                    lemma_group_bounds(w as int, steps as int, t as int, a.cols as int);
                }
                let k0 = w * t;
                let la = load_tile(a, row0, k0, t);
                let lb = load_tile(b, k0, col0, t);
                tile_accumulate(&mut acc, &la, &lb, a, b, row0, col0, k0, plus, times, zero);
                proof {
                    assert((w + 1) * t == w * t + t) by (nonlinear_arith);
                }
                w = w + 1;
            }
            let ghost res_pre = res;
            store_tile(&mut res, &acc, row0, col0);
            proof {
                assert forall|r: int, c: int|
                    (0 <= r < gj * t && 0 <= c < res.cols) || (gj * t <= r < gj * t + t && 0 <= c
                        < gi * t + t) implies #[trigger] cell_done(
                    res,
                    *a,
                    *b,
                    plus,
                    times,
                    zero,
                    r,
                    c,
                ) by {
                    if row0 <= r < row0 + t && col0 <= c < col0 + t {
                        assert(acc_chain(
                            acc, *a, *b, plus, times, zero,
                            row0 as int, col0 as int, r - row0, c - col0, steps * t,
                        ));
                        assert(res.idx(r, c) == acc.idx(r - row0, c - col0));
                    } else {
                        assert(cell_done(res_pre, *a, *b, plus, times, zero, r, c));
                        assert(res.idx(r, c) == res_pre.idx(r, c));
                    }
                }
                assert((gi + 1) * t == gi * t + t) by (nonlinear_arith);
            }
            gi = gi + 1;
        }
        proof {
            assert((gj + 1) * t == gj * t + t) by (nonlinear_arith);
        }
        gj = gj + 1;
    }
    proof {
        assert forall|i: int, j: int|
            0 <= i < res.rows && 0 <= j < res.cols implies dot_chain(
            plus,
            times,
            zero,
            a.row_seq(i),
            b.col_seq(j),
            a.cols as int,
            #[trigger] res.idx(i, j),
        ) by {
            assert(cell_done(res, *a, *b, plus, times, zero, i, j));
        }
    }
    res
}

/// The coarsened accelerator kernel, modelled on the host: the same
/// `TILE`-sized staging and barrier discipline as the tiled kernel, but
/// work groups of `TILE x (TILE / ELEM_PER_THREAD)` threads, each thread
/// computing `ELEM_PER_THREAD` output elements of its group's block.
/// Requires every dimension to be an exact multiple of `TILE`; callers pad
/// beforehand and trim afterwards.
pub fn run_coarsened<T: Copy, FA: Fn(T, T) -> T + Copy, FM: Fn(T, T) -> T + Copy>(
    a: &Matrix<T>,
    b: &Matrix<T>,
    zero: T,
    plus: FA,
    times: FM,
) -> (res: Matrix<T>)
    requires
        a.wf(),
        b.wf(),
        total2(plus),
        total2(times),
        a.cols == b.rows,
        a.rows as int % (TILE as int) == 0,
        a.cols as int % (TILE as int) == 0,
        b.cols as int % (TILE as int) == 0,
        a.rows * b.cols <= usize::MAX,
    ensures
        is_product_of(res, *a, *b, plus, times, zero),
{
    let t = TILE;
    let groups_j = a.rows / t;
    let groups_i = b.cols / t;
    let steps = a.cols / t;
    proof {
        lemma_div_exact(a.rows as int, t as int);
        lemma_div_exact(b.cols as int, t as int);
        lemma_div_exact(a.cols as int, t as int);
    }

    let mut res = Matrix::create_empty(a.rows, b.cols, zero);
    let mut gj: usize = 0;
    while gj < groups_j
        invariant
            gj <= groups_j,
            a.wf(),
            b.wf(),
            res.wf(),
            total2(plus),
            total2(times),
            a.cols == b.rows,
            res.rows == a.rows,
            res.cols == b.cols,
            t == TILE,
            groups_j * t == a.rows,
            groups_i * t == b.cols,
            steps * t == a.cols,
            forall|r: int, c: int|
                0 <= r < gj * t && 0 <= c < res.cols ==> #[trigger] cell_done(
                    res,
                    *a,
                    *b,
                    plus,
                    times,
                    zero,
                    r,
                    c,
                ),
        decreases groups_j - gj,
    {
        let mut gi: usize = 0;
        while gi < groups_i
            invariant
                gj < groups_j,
                gi <= groups_i,
                a.wf(),
                b.wf(),
                res.wf(),
                total2(plus),
                total2(times),
                a.cols == b.rows,
                res.rows == a.rows,
                res.cols == b.cols,
                t == TILE,
                groups_j * t == a.rows,
                groups_i * t == b.cols,
                steps * t == a.cols,
                forall|r: int, c: int|
                    0 <= r < gj * t && 0 <= c < res.cols ==> #[trigger] cell_done(
                        res,
                        *a,
                        *b,
                        plus,
                        times,
                        zero,
                        r,
                        c,
                    ),
                forall|r: int, c: int|
                    gj * t <= r < gj * t + t && 0 <= c < gi * t ==> #[trigger] cell_done(
                        res,
                        *a,
                        *b,
                        plus,
                        times,
                        zero,
                        r,
                        c,
                    ),
            decreases groups_i - gi,
        {
            proof {
                lemma_group_bounds(gj as int, groups_j as int, t as int, a.rows as int);
                lemma_group_bounds(gi as int, groups_i as int, t as int, b.cols as int);
            }
            let row0 = gj * t;
            let col0 = gi * t;
            let mut acc = Matrix::create_empty(t, t, zero);
            proof {
                assert forall|x: int, y: int|
                    0 <= x < TILE && 0 <= y < TILE implies acc_chain(
                    acc,
                    *a,
                    *b,
                    plus,
                    times,
                    zero,
                    row0 as int,
                    col0 as int,
                    x,
                    y,
                    0,
                ) by {
                    lemma_index_bound(t as int, t as int, x, y);
                    assert(acc.idx(x, y) == zero);
                }
            }
            let mut w: usize = 0;
            while w < steps
                invariant
                    w <= steps,
                    a.wf(),
                    b.wf(),
                    acc.wf(),
                    total2(plus),
                    total2(times),
                    a.cols == b.rows,
                    acc.rows == TILE,
                    acc.cols == TILE,
                    t == TILE,
                    steps * t == a.cols,
                    row0 == gj * t,
                    col0 == gi * t,
                    row0 + t <= a.rows,
                    col0 + t <= b.cols,
                    forall|x: int, y: int|
                        0 <= x < TILE && 0 <= y < TILE ==> #[trigger] acc_chain(
                            acc,
                            *a,
                            *b,
                            plus,
                            times,
                            zero,
                            row0 as int,
                            col0 as int,
                            x,
                            y,
                            w * t,
                        ),
                decreases steps - w,
            {
                proof {
                    lemma_group_bounds(w as int, steps as int, t as int, a.cols as int);
                }
                let k0 = w * t;
                let la = load_tile(a, row0, k0, t);
                let lb = load_tile(b, k0, col0, t);
                tile_accumulate_coarsened(&mut acc, &la, &lb, a, b, row0, col0, k0, plus, times, zero);
                proof {
                    assert((w + 1) * t == w * t + t) by (nonlinear_arith);
                }
                w = w + 1;
            }
            let ghost res_pre = res;
            store_tile(&mut res, &acc, row0, col0);
            proof {
                assert forall|r: int, c: int|
                    (0 <= r < gj * t && 0 <= c < res.cols) || (gj * t <= r < gj * t + t && 0 <= c
                        < gi * t + t) implies #[trigger] cell_done(
                    res,
                    *a,
                    *b,
                    plus,
                    times,
                    zero,
                    r,
                    c,
                ) by {
                    if row0 <= r < row0 + t && col0 <= c < col0 + t {
                        assert(acc_chain(
                            acc, *a, *b, plus, times, zero,
                            row0 as int, col0 as int, r - row0, c - col0, steps * t,
                        ));
                        assert(res.idx(r, c) == acc.idx(r - row0, c - col0));
                    } else {
                        assert(cell_done(res_pre, *a, *b, plus, times, zero, r, c));
                        assert(res.idx(r, c) == res_pre.idx(r, c));
                    }
                }
                assert((gi + 1) * t == gi * t + t) by (nonlinear_arith);
            }
            gi = gi + 1;
        }
        proof {
            assert((gj + 1) * t == gj * t + t) by (nonlinear_arith);
        }
        gj = gj + 1;
    }
    proof {
        assert forall|i: int, j: int|
            0 <= i < res.rows && 0 <= j < res.cols implies dot_chain(
            plus,
            times,
            zero,
            a.row_seq(i),
            b.col_seq(j),
            a.cols as int,
            #[trigger] res.idx(i, j),
        ) by {
            assert(cell_done(res, *a, *b, plus, times, zero, i, j));
        }
    }
    res
}

/// Law: a chain's value is a function of the inputs once the closures are.
/// Any two accumulators reached by folding the same `n` products coincide.
/// Re-running a strategy therefore reproduces its result exactly, and any
/// two strategies that ensure the same chain agree with each other.
pub proof fn lemma_dot_chain_deterministic<T, FA: Fn(T, T) -> T, FM: Fn(T, T) -> T>(
    plus: FA,
    times: FM,
    zero: T,
    u: Seq<T>,
    v: Seq<T>,
    n: int,
    r1: T,
    r2: T,
)
    requires
        deterministic2(plus),
        deterministic2(times),
        dot_chain(plus, times, zero, u, v, n, r1),
        dot_chain(plus, times, zero, u, v, n, r2),
    ensures
        r1 == r2,
    decreases n,
{
    if n > 0 {
        let (prev1, p1) = choose|prev: T, p: T|
            {
                &&& dot_chain(plus, times, zero, u, v, n - 1, prev)
                &&& call_ensures(times, (u[n - 1], v[n - 1]), p)
                &&& #[trigger] call_ensures(plus, (prev, p), r1)
            };
        let (prev2, p2) = choose|prev: T, p: T|
            {
                &&& dot_chain(plus, times, zero, u, v, n - 1, prev)
                &&& call_ensures(times, (u[n - 1], v[n - 1]), p)
                &&& #[trigger] call_ensures(plus, (prev, p), r2)
            };
        lemma_dot_chain_deterministic(plus, times, zero, u, v, n - 1, prev1, prev2);
    }
}

/// Law: a chain only reads the first `n` entries of its operand sequences,
/// so it carries over to any sequences that agree on those entries.
pub proof fn lemma_dot_chain_prefix<T, FA: Fn(T, T) -> T, FM: Fn(T, T) -> T>(
    plus: FA,
    times: FM,
    zero: T,
    u1: Seq<T>,
    v1: Seq<T>,
    u2: Seq<T>,
    v2: Seq<T>,
    n: int,
    r: T,
)
    requires
        dot_chain(plus, times, zero, u1, v1, n, r),
        forall|w: int| 0 <= w < n ==> u1[w] == u2[w] && v1[w] == v2[w],
    ensures
        dot_chain(plus, times, zero, u2, v2, n, r),
    decreases n,
{
    if n > 0 {
        let (prev, p) = choose|prev: T, p: T|
            {
                &&& dot_chain(plus, times, zero, u1, v1, n - 1, prev)
                &&& call_ensures(times, (u1[n - 1], v1[n - 1]), p)
                &&& #[trigger] call_ensures(plus, (prev, p), r)
            };
        lemma_dot_chain_prefix(plus, times, zero, u1, v1, u2, v2, n - 1, prev);
        assert(dot_chain(plus, times, zero, u2, v2, n, r));
    }
}

/// Law: trailing all-zero entries contribute nothing. A chain over a
/// zero-padded suffix collapses to the chain over the unpadded prefix,
/// provided zero is absorbed by `times` and neutral for `plus`. This is what
/// lets the tiled strategies pad their operands and trim the result.
pub proof fn lemma_dot_chain_zero_collapse<T, FA: Fn(T, T) -> T, FM: Fn(T, T) -> T>(
    plus: FA,
    times: FM,
    zero: T,
    u: Seq<T>,
    v: Seq<T>,
    n: int,
    n2: int,
    r: T,
)
    requires
        times_zero_zero(times, zero),
        plus_zero_identity(plus, zero),
        dot_chain(plus, times, zero, u, v, n2, r),
        0 <= n <= n2,
        forall|w: int| n <= w < n2 ==> u[w] == zero && v[w] == zero,
    ensures
        dot_chain(plus, times, zero, u, v, n, r),
    decreases n2 - n,
{
    if n < n2 {
        assert(n2 > 0);
        assert(u[n2 - 1] == zero && v[n2 - 1] == zero);
        assert(exists|prev: T, p: T|
            {
                &&& dot_chain(plus, times, zero, u, v, n2 - 1, prev)
                &&& call_ensures(times, (u[n2 - 1], v[n2 - 1]), p)
                &&& #[trigger] call_ensures(plus, (prev, p), r)
            });
        let (prev, p) = choose|prev: T, p: T|
            {
                &&& dot_chain(plus, times, zero, u, v, n2 - 1, prev)
                &&& call_ensures(times, (u[n2 - 1], v[n2 - 1]), p)
                &&& #[trigger] call_ensures(plus, (prev, p), r)
            };
        assert(call_ensures(times, (zero, zero), p));
        assert(p == zero);
        assert(r == prev);
        lemma_dot_chain_zero_collapse(plus, times, zero, u, v, n, n2 - 1, r);
    }
}

/// Law: with deterministic closures, any two products of the same operands
/// are identical, element for element and as raw data. This is the exact
/// form of the cross-check against the host reference, and of idempotence of
/// re-running a strategy.
pub proof fn lemma_products_unique<T, FA: Fn(T, T) -> T, FM: Fn(T, T) -> T>(
    ra: Matrix<T>,
    rb: Matrix<T>,
    m1: Matrix<T>,
    m2: Matrix<T>,
    plus: FA,
    times: FM,
    zero: T,
)
    requires
        deterministic2(plus),
        deterministic2(times),
        is_product_of(ra, m1, m2, plus, times, zero),
        is_product_of(rb, m1, m2, plus, times, zero),
    ensures
        ra.rows == rb.rows,
        ra.cols == rb.cols,
        forall|i: int, j: int|
            0 <= i < ra.rows && 0 <= j < ra.cols ==> ra.idx(i, j) == rb.idx(i, j),
        ra.data@ == rb.data@,
{
    assert forall|i: int, j: int|
        0 <= i < ra.rows && 0 <= j < ra.cols implies ra.idx(i, j) == rb.idx(i, j) by {
        lemma_dot_chain_deterministic(
            plus,
            times,
            zero,
            m1.row_seq(i),
            m2.col_seq(j),
            m1.cols as int,
            ra.idx(i, j),
            rb.idx(i, j),
        );
    }
    assert forall|w: int| 0 <= w < ra.data@.len() implies ra.data@[w] == rb.data@[w] by {
        let cols = ra.cols as int;
        let rows = ra.rows as int;
        assert(cols > 0) by {
            if cols == 0 {
                assert(rows * 0 == 0) by (nonlinear_arith);
            }
        }
        let i = w / cols;
        let j = w % cols;
        vstd::arithmetic::div_mod::lemma_fundamental_div_mod(w, cols);
        vstd::arithmetic::div_mod::lemma_mod_division_less_than_divisor(w, cols);
        assert(0 <= i < rows && w == i * cols + j) by (nonlinear_arith)
            requires
                cols > 0,
                0 <= j < cols,
                w == cols * i + j,
                0 <= w < rows * cols,
        ;
        assert(ra.idx(i, j) == rb.idx(i, j));
    }
    assert(ra.data@ =~= rb.data@);
}


/// Law: padding both operands out to tile multiples, multiplying, and
/// trimming the result back yields a product of the original operands:
/// the extra chain links are zero products, which collapse away.
pub proof fn lemma_padded_product<T, FA: Fn(T, T) -> T, FM: Fn(T, T) -> T>(
    res: Matrix<T>,
    raw: Matrix<T>,
    ap: Matrix<T>,
    bp: Matrix<T>,
    m1: Matrix<T>,
    m2: Matrix<T>,
    plus: FA,
    times: FM,
    zero: T,
)
    requires
        times_zero_zero(times, zero),
        plus_zero_identity(plus, zero),
        m1.wf(),
        m2.wf(),
        ap.wf(),
        bp.wf(),
        m1.cols == m2.rows,
        ap.rows >= m1.rows,
        ap.cols >= m1.cols,
        bp.rows >= m2.rows,
        bp.cols >= m2.cols,
        ap.cols == bp.rows,
        forall|i: int, j: int|
            0 <= i < ap.rows && 0 <= j < ap.cols ==> #[trigger] ap.idx(i, j) == (
            if i < m1.rows && j < m1.cols {
                m1.idx(i, j)
            } else {
                zero
            }),
        forall|i: int, j: int|
            0 <= i < bp.rows && 0 <= j < bp.cols ==> #[trigger] bp.idx(i, j) == (
            if i < m2.rows && j < m2.cols {
                m2.idx(i, j)
            } else {
                zero
            }),
        is_product_of(raw, ap, bp, plus, times, zero),
        res.wf(),
        res.rows == m1.rows,
        res.cols == m2.cols,
        forall|i: int, j: int|
            0 <= i < res.rows && 0 <= j < res.cols ==> #[trigger] res.idx(i, j) == raw.idx(i, j),
    ensures
        is_product_of(res, m1, m2, plus, times, zero),
{
    assert forall|i: int, j: int|
        0 <= i < res.rows && 0 <= j < res.cols implies dot_chain(
        plus,
        times,
        zero,
        m1.row_seq(i),
        m2.col_seq(j),
        m1.cols as int,
        #[trigger] res.idx(i, j),
    ) by {
        let up = ap.row_seq(i);
        let vp = bp.col_seq(j);
        assert(dot_chain(plus, times, zero, up, vp, ap.cols as int, raw.idx(i, j)));
        assert forall|w: int| m1.cols <= w < ap.cols implies up[w] == zero && vp[w] == zero by {
            assert(ap.idx(i, w) == zero);
            assert(bp.idx(w, j) == zero);
        }
        lemma_dot_chain_zero_collapse(
            plus,
            times,
            zero,
            up,
            vp,
            m1.cols as int,
            ap.cols as int,
            raw.idx(i, j),
        );
        assert forall|w: int|
            0 <= w < m1.cols implies up[w] == m1.row_seq(i)[w] && vp[w] == m2.col_seq(j)[w] by {
            assert(ap.idx(i, w) == m1.idx(i, w));
            assert(bp.idx(w, j) == m2.idx(w, j));
        }
        lemma_dot_chain_prefix(
            plus,
            times,
            zero,
            up,
            vp,
            m1.row_seq(i),
            m2.col_seq(j),
            m1.cols as int,
            raw.idx(i, j),
        );
    }
}

/// The naive accelerator strategy end to end: the dimension gate, then one
/// work item per output element. No padding is needed.
pub fn multiply_naive<T: Copy, FA: Fn(T, T) -> T + Copy, FM: Fn(T, T) -> T + Copy>(
    m1: &Matrix<T>,
    m2: &Matrix<T>,
    zero: T,
    plus: FA,
    times: FM,
) -> (res: Result<Matrix<T>, MulError>)
    requires
        m1.wf(),
        m2.wf(),
        total2(plus),
        total2(times),
        m1.rows * m2.cols <= usize::MAX,
    ensures
        match res {
            Ok(r) => m1.cols == m2.rows && is_product_of(r, *m1, *m2, plus, times, zero),
            Err(e) => m1.cols != m2.rows && e == MulError::DimensionMismatch,
        },
{
    if m1.cols != m2.rows {
        return Err(MulError::DimensionMismatch);
    }
    Ok(run_naive(m1, m2, zero, plus, times))
}

/// The tiled accelerator strategy end to end: the dimension gate, zero
/// padding of both operands to `TILE` multiples, the tiled kernel, and the
/// trim back to the true output dimensions.
pub fn multiply_tiled<T: Copy, FA: Fn(T, T) -> T + Copy, FM: Fn(T, T) -> T + Copy>(
    m1: &Matrix<T>,
    m2: &Matrix<T>,
    zero: T,
    plus: FA,
    times: FM,
) -> (res: Result<Matrix<T>, MulError>)
    requires
        m1.wf(),
        m2.wf(),
        total2(plus),
        total2(times),
        times_zero_zero(times, zero),
        plus_zero_identity(plus, zero),
        pad_dim(m1.rows as int, TILE as int) <= usize::MAX,
        pad_dim(m1.cols as int, TILE as int) <= usize::MAX,
        pad_dim(m2.rows as int, TILE as int) <= usize::MAX,
        pad_dim(m2.cols as int, TILE as int) <= usize::MAX,
        pad_dim(m1.rows as int, TILE as int) * pad_dim(m1.cols as int, TILE as int)
            <= usize::MAX,
        pad_dim(m2.rows as int, TILE as int) * pad_dim(m2.cols as int, TILE as int)
            <= usize::MAX,
        pad_dim(m1.rows as int, TILE as int) * pad_dim(m2.cols as int, TILE as int)
            <= usize::MAX,
    ensures
        match res {
            Ok(r) => m1.cols == m2.rows && is_product_of(r, *m1, *m2, plus, times, zero),
            Err(e) => m1.cols != m2.rows && e == MulError::DimensionMismatch,
        },
{
    if m1.cols != m2.rows {
        return Err(MulError::DimensionMismatch);
    }
    let ap = m1.create_zero_padded(TILE, zero);
    let bp = m2.create_zero_padded(TILE, zero);
    proof {
        crate::matrix::lemma_pad_dim_bounds(m1.rows as int, TILE as int);
        crate::matrix::lemma_pad_dim_bounds(m1.cols as int, TILE as int);
        crate::matrix::lemma_pad_dim_bounds(m2.rows as int, TILE as int);
        crate::matrix::lemma_pad_dim_bounds(m2.cols as int, TILE as int);
    }
    let raw = run_tiled(&ap, &bp, zero, plus, times);
    let trimmed = raw.create_trimmed(m1.rows, m2.cols);
    proof {
        lemma_padded_product(trimmed, raw, ap, bp, *m1, *m2, plus, times, zero);
    }
    Ok(trimmed)
}

/// The coarsened accelerator strategy end to end: the dimension gate, zero
/// padding of both operands to `TILE` multiples, the coarsened kernel, and
/// the trim back to the true output dimensions.
pub fn multiply_coarsened<T: Copy, FA: Fn(T, T) -> T + Copy, FM: Fn(T, T) -> T + Copy>(
    m1: &Matrix<T>,
    m2: &Matrix<T>,
    zero: T,
    plus: FA,
    times: FM,
) -> (res: Result<Matrix<T>, MulError>)
    requires
        m1.wf(),
        m2.wf(),
        total2(plus),
        total2(times),
        times_zero_zero(times, zero),
        plus_zero_identity(plus, zero),
        pad_dim(m1.rows as int, TILE as int) <= usize::MAX,
        pad_dim(m1.cols as int, TILE as int) <= usize::MAX,
        pad_dim(m2.rows as int, TILE as int) <= usize::MAX,
        pad_dim(m2.cols as int, TILE as int) <= usize::MAX,
        pad_dim(m1.rows as int, TILE as int) * pad_dim(m1.cols as int, TILE as int)
            <= usize::MAX,
        pad_dim(m2.rows as int, TILE as int) * pad_dim(m2.cols as int, TILE as int)
            <= usize::MAX,
        pad_dim(m1.rows as int, TILE as int) * pad_dim(m2.cols as int, TILE as int)
            <= usize::MAX,
    ensures
        match res {
            Ok(r) => m1.cols == m2.rows && is_product_of(r, *m1, *m2, plus, times, zero),
            Err(e) => m1.cols != m2.rows && e == MulError::DimensionMismatch,
        },
{
    if m1.cols != m2.rows {
        return Err(MulError::DimensionMismatch);
    }
    let ap = m1.create_zero_padded(TILE, zero);
    let bp = m2.create_zero_padded(TILE, zero);
    proof {
        crate::matrix::lemma_pad_dim_bounds(m1.rows as int, TILE as int);
        crate::matrix::lemma_pad_dim_bounds(m1.cols as int, TILE as int);
        crate::matrix::lemma_pad_dim_bounds(m2.rows as int, TILE as int);
        crate::matrix::lemma_pad_dim_bounds(m2.cols as int, TILE as int);
    }
    let raw = run_coarsened(&ap, &bp, zero, plus, times);
    let trimmed = raw.create_trimmed(m1.rows, m2.cols);
    proof {
        lemma_padded_product(trimmed, raw, ap, bp, *m1, *m2, plus, times, zero);
    }
    Ok(trimmed)
}


} // verus!
