//! The host reference strategy: the plain triple loop on the calling
//! thread, with wall-clock timing of the whole call.

use vstd::prelude::*;

use crate::error::MulError;
use crate::kernels::is_product_of;
use crate::kernels::multiply_host;
use crate::kernels::total2;
use crate::matrix::Matrix;
use crate::multiplier::MultiplierInfo;
use crate::multiplier::MultiplierStat;
use crate::timing::elapsed_millis;

verus! {

/// The reference multiplier. It records how long its last successful
/// multiplication took; it has no device and reports zero accelerator
/// time.
pub struct BasicMultiplier {
    last_time: Option<u64>,
}

impl BasicMultiplier {
    /// The wall-clock milliseconds of the last successful multiplication,
    /// absent until one has happened.
    pub closed spec fn last_run_ms(self) -> Option<u64> {
        self.last_time
    }

    /// Multiply on the calling thread. Succeeds exactly when the shared
    /// dimension agrees; the result is the in-order chain of products over
    /// each row/column pair, and a successful call leaves a recorded run
    /// time behind.
    pub fn multiply<T: Copy, FA: Fn(T, T) -> T, FM: Fn(T, T) -> T>(
        &mut self,
        m1: &Matrix<T>,
        m2: &Matrix<T>,
        zero: T,
        plus: FA,
        times: FM,
    ) -> (res: Result<Matrix<T>, MulError>)
        requires
            m1.wf(),
            m2.wf(),
            total2(plus),
            total2(times),
            m1.rows * m2.cols <= usize::MAX,
        ensures
            match res {
                Ok(r) => {
                    &&& m1.cols == m2.rows
                    &&& is_product_of(r, *m1, *m2, plus, times, zero)
                    &&& final(self).last_run_ms() is Some
                },
                Err(e) => {
                    &&& m1.cols != m2.rows
                    &&& e == MulError::DimensionMismatch
                    &&& *final(self) == *old(self)
                },
            },
    {
        let start = std::time::Instant::now();
        match multiply_host(m1, m2, zero, plus, times) {
            Ok(r) => {
                let elapsed = elapsed_millis(&start);
                self.last_time = Some(elapsed);
                Ok(r)
            },
            Err(e) => Err(e),
        }
    }

    /// The host strategy involves no accelerator.
    pub fn info(&self) -> (res: Result<MultiplierInfo, MulError>)
        ensures
            res matches Ok(MultiplierInfo::OnDeviceMultiplier),
    {
        Ok(MultiplierInfo::OnDeviceMultiplier)
    }

    /// Statistics of the last run: the recorded wall-clock total and a zero
    /// accelerator share; `None` before the first successful multiply.
    pub fn stat(&self) -> (res: Option<MultiplierStat>)
        ensures
            match res {
                Some(s) => self.last_run_ms() == Some(s.total_time) && s.gpu_time == 0,
                None => self.last_run_ms() is None,
            },
    {
        match self.last_time {
            Some(t) => Some(MultiplierStat { total_time: t, gpu_time: 0 }),
            None => None,
        }
    }
}

impl Default for BasicMultiplier {
    /// A fresh instance with no run recorded yet.
    fn default() -> (res: Self)
        ensures
            res.last_run_ms() is None,
    {
        BasicMultiplier { last_time: None }
    }
}

} // verus!
