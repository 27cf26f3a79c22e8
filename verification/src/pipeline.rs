//! The accelerator execution pipeline's decisions, as plain data: what to
//! upload, how big the output buffer is, which dimensions to bind as kernel
//! arguments, and how to size the launch grid. The caller that owns the
//! accelerator performs the uploads, the launch and the blocking read, then
//! hands the raw output and the five stage timings back to the strategy's
//! `complete` step.

use vstd::prelude::*;

use crate::error::MulError;
use crate::matrix::Matrix;
use crate::matrix::lemma_pad_dim_bounds;
use crate::matrix::pad_dim;
use crate::sources::TILE;

verus! {

/// The timings one accelerator run leaves behind, in milliseconds.
#[derive(Copy, Clone, Debug, PartialEq, Eq, Structural)]
pub struct TimeStat {
    /// Sum of all five profiled stages.
    pub total_time: u64,
    /// The kernel launch alone.
    pub kernel_time: u64,
}

/// Everything the accelerator needs for one launch: the operands to upload
/// (padded where the kernel demands it), the output buffer's dimensions,
/// the three dimension arguments bound to the kernel, and the grid sizes.
/// A zero local size means the driver chooses the work-group shape.
pub struct LaunchPlan<T> {
    /// The left operand to upload.
    pub a: Matrix<T>,
    /// The right operand to upload.
    pub b: Matrix<T>,
    /// Rows of the device-side output buffer.
    pub out_rows: usize,
    /// Columns of the device-side output buffer.
    pub out_cols: usize,
    /// Kernel argument `n`: columns of the uploaded right operand.
    pub arg_n: usize,
    /// Kernel argument `m`: rows of the uploaded left operand.
    pub arg_m: usize,
    /// Kernel argument `k`: the uploaded shared dimension.
    pub arg_k: usize,
    /// Global work size along the column axis.
    pub global_x: usize,
    /// Global work size along the row axis.
    pub global_y: usize,
    /// Local work size along the column axis; zero to let the driver pick.
    pub local_x: usize,
    /// Local work size along the row axis; zero to let the driver pick.
    pub local_y: usize,
}

/// A launch plan that uploads the operands as they are: one work item per
/// output element, the work-group shape left to the driver.
pub open spec fn is_unpadded_plan<T>(p: LaunchPlan<T>, m1: Matrix<T>, m2: Matrix<T>) -> bool {
    &&& p.a.wf()
    &&& p.a.rows == m1.rows
    &&& p.a.cols == m1.cols
    &&& p.a.data@ == m1.data@
    &&& p.b.wf()
    &&& p.b.rows == m2.rows
    &&& p.b.cols == m2.cols
    &&& p.b.data@ == m2.data@
    &&& p.out_rows == m1.rows
    &&& p.out_cols == m2.cols
    &&& p.arg_n == m2.cols
    &&& p.arg_m == m1.rows
    &&& p.arg_k == m1.cols
    &&& p.global_x == m2.cols
    &&& p.global_y == m1.rows
    &&& p.local_x == 0
    &&& p.local_y == 0
}

/// A launch plan whose operands are zero-padded to `TILE` multiples, with a
/// `TILE`-shaped work group in which each thread covers `coarsening` rows.
pub open spec fn is_padded_plan<T>(
    p: LaunchPlan<T>,
    m1: Matrix<T>,
    m2: Matrix<T>,
    zero: T,
    coarsening: int,
) -> bool {
    &&& p.a.wf()
    &&& p.a.rows == pad_dim(m1.rows as int, TILE as int)
    &&& p.a.cols == pad_dim(m1.cols as int, TILE as int)
    &&& forall|i: int, j: int|
        0 <= i < p.a.rows && 0 <= j < p.a.cols ==> #[trigger] p.a.idx(i, j) == (if i < m1.rows
            && j < m1.cols {
            m1.idx(i, j)
        } else {
            zero
        })
    &&& p.b.wf()
    &&& p.b.rows == pad_dim(m2.rows as int, TILE as int)
    &&& p.b.cols == pad_dim(m2.cols as int, TILE as int)
    &&& forall|i: int, j: int|
        0 <= i < p.b.rows && 0 <= j < p.b.cols ==> #[trigger] p.b.idx(i, j) == (if i < m2.rows
            && j < m2.cols {
            m2.idx(i, j)
        } else {
            zero
        })
    &&& p.out_rows == p.a.rows
    &&& p.out_cols == p.b.cols
    &&& p.arg_n == p.b.cols
    &&& p.arg_m == p.a.rows
    &&& p.arg_k == p.a.cols
    &&& p.global_x == p.b.cols
    &&& p.global_y == p.a.rows as int / coarsening
    &&& p.local_x == TILE
    &&& p.local_y == TILE as int / coarsening
}

/// The padded dimensions of both operands, and of the output, fit the
/// machine.
pub open spec fn padded_sizes_fit<T>(m1: Matrix<T>, m2: Matrix<T>) -> bool {
    &&& pad_dim(m1.rows as int, TILE as int) <= usize::MAX
    &&& pad_dim(m1.cols as int, TILE as int) <= usize::MAX
    &&& pad_dim(m2.rows as int, TILE as int) <= usize::MAX
    &&& pad_dim(m2.cols as int, TILE as int) <= usize::MAX
    &&& pad_dim(m1.rows as int, TILE as int) * pad_dim(m1.cols as int, TILE as int) <= usize::MAX
    &&& pad_dim(m2.rows as int, TILE as int) * pad_dim(m2.cols as int, TILE as int) <= usize::MAX
    &&& pad_dim(m1.rows as int, TILE as int) * pad_dim(m2.cols as int, TILE as int) <= usize::MAX
}

/// Plan a launch that uploads the operands unchanged. Fails with
/// `DimensionMismatch` exactly when the shared dimension disagrees.
pub fn plan_unpadded<T: Copy>(m1: &Matrix<T>, m2: &Matrix<T>) -> (res: Result<
    LaunchPlan<T>,
    MulError,
>)
    requires
        m1.wf(),
        m2.wf(),
    ensures
        match res {
            Ok(p) => m1.cols == m2.rows && is_unpadded_plan(p, *m1, *m2),
            Err(e) => m1.cols != m2.rows && e == MulError::DimensionMismatch,
        },
{
    if m1.cols != m2.rows {
        return Err(MulError::DimensionMismatch);
    }
    Ok(
        LaunchPlan {
            a: m1.clone(),
            b: m2.clone(),
            out_rows: m1.rows,
            out_cols: m2.cols,
            arg_n: m2.cols,
            arg_m: m1.rows,
            arg_k: m1.cols,
            global_x: m2.cols,
            global_y: m1.rows,
            local_x: 0,
            local_y: 0,
        },
    )
}

/// Plan a launch for a tiled kernel: both operands zero-padded to `TILE`
/// multiples, a `TILE x (TILE / coarsening)` work group, and each thread
/// covering `coarsening` rows. Fails with `DimensionMismatch` exactly when
/// the shared dimension disagrees.
pub fn plan_padded<T: Copy>(m1: &Matrix<T>, m2: &Matrix<T>, zero: T, coarsening: usize) -> (res:
    Result<LaunchPlan<T>, MulError>)
    requires
        m1.wf(),
        m2.wf(),
        1 <= coarsening,
        padded_sizes_fit(*m1, *m2),
    ensures
        match res {
            Ok(p) => m1.cols == m2.rows && is_padded_plan(p, *m1, *m2, zero, coarsening as int),
            Err(e) => m1.cols != m2.rows && e == MulError::DimensionMismatch,
        },
{
    if m1.cols != m2.rows {
        return Err(MulError::DimensionMismatch);
    }
    proof {
        lemma_pad_dim_bounds(m1.rows as int, TILE as int);
        lemma_pad_dim_bounds(m1.cols as int, TILE as int);
        lemma_pad_dim_bounds(m2.rows as int, TILE as int);
        lemma_pad_dim_bounds(m2.cols as int, TILE as int);
    }
    let a = m1.create_zero_padded(TILE, zero);
    let b = m2.create_zero_padded(TILE, zero);
    let out_rows = a.rows;
    let out_cols = b.cols;
    let arg_n = b.cols;
    let arg_m = a.rows;
    let arg_k = a.cols;
    let global_x = b.cols;
    let global_y = a.rows / coarsening;
    let local_y = TILE / coarsening;
    Ok(
        LaunchPlan {
            a,
            b,
            out_rows,
            out_cols,
            arg_n,
            arg_m,
            arg_k,
            global_x,
            global_y,
            local_x: TILE,
            local_y,
        },
    )
}

} // verus!
