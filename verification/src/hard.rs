//! The coarsened accelerator strategy: the tiled staging discipline with
//! each thread computing `ELEM_PER_THREAD` output elements. Its algorithm
//! is modelled and verified by `kernels::run_coarsened`; this type carries
//! the selected device, plans the padded launch, and accounts for the
//! timings.

use vstd::prelude::*;

use crate::args::DeviceType;
use crate::device::DeviceDesc;
use crate::device::filtered;
use crate::device::get_device;
use crate::error::MulError;
use crate::matrix::Matrix;
use crate::multiplier::MultiplierInfo;
use crate::multiplier::MultiplierStat;
use crate::pipeline::LaunchPlan;
use crate::pipeline::TimeStat;
use crate::pipeline::is_padded_plan;
use crate::pipeline::padded_sizes_fit;
use crate::pipeline::plan_padded;
use crate::sources::ELEM_PER_THREAD;
use crate::sources::HARD_MUL;
use crate::timing::PipelineTimes;
use crate::timing::aggregate_times;

verus! {

/// The coarsened accelerator multiplier: a selected device plus the
/// statistics of its last completed run.
pub struct HardMultiplier {
    device: DeviceDesc,
    stat: Option<TimeStat>,
}

impl HardMultiplier {
    /// The device this strategy was bound to at construction.
    pub closed spec fn spec_device(self) -> DeviceDesc {
        self.device
    }

    /// The statistics of the last completed run, absent until one has
    /// completed.
    pub closed spec fn last_stat(self) -> Option<MultiplierStat> {
        match self.stat {
            Some(t) => Some(MultiplierStat { total_time: t.total_time, gpu_time: t.kernel_time }),
            None => None,
        }
    }

    /// Bind the strategy to the device at `index` within the devices that
    /// the requested class keeps. Fails with `DeviceNotFound` exactly when
    /// the index is out of range of the filtered list.
    pub fn new(device_type: DeviceType, index: usize, devices: &Vec<DeviceDesc>) -> (res: Result<
        Self,
        MulError,
    >)
        ensures
            match res {
                Ok(m) => {
                    &&& index < filtered(devices@, device_type).len()
                    &&& m.spec_device().eqv(filtered(devices@, device_type)[index as int])
                    &&& m.last_stat() is None
                },
                Err(e) => {
                    &&& index >= filtered(devices@, device_type).len()
                    &&& e == (MulError::DeviceNotFound {
                        index,
                        available: filtered(devices@, device_type).len() as usize,
                    })
                },
            },
    {
        match get_device(devices, device_type, index) {
            Ok(device) => Ok(HardMultiplier { device, stat: None }),
            Err(e) => Err(e),
        }
    }

    /// The cached device and platform names.
    pub fn info(&self) -> (res: Result<MultiplierInfo, MulError>)
        ensures
            (res matches Ok(MultiplierInfo::OpenClMultiplier { device_name, platform_name })
                && device_name@ == self.spec_device().name@ && platform_name@
                == self.spec_device().platform_name@),
    {
        Ok(
            MultiplierInfo::OpenClMultiplier {
                device_name: self.device.name.clone(),
                platform_name: self.device.platform_name.clone(),
            },
        )
    }

    /// Statistics of the last run; `None` until one has completed.
    pub fn stat(&self) -> (res: Option<MultiplierStat>)
        ensures
            res == self.last_stat(),
    {
        match self.stat {
            Some(t) => Some(MultiplierStat { total_time: t.total_time, gpu_time: t.kernel_time }),
            None => None,
        }
    }

    /// The device program this strategy compiles and launches.
    pub fn kernel_source(&self) -> &'static str {
        HARD_MUL
    }

    /// Decide the launch: the coarsened kernel needs both operands
    /// zero-padded to `TILE` multiples and a `TILE x (TILE /
    /// ELEM_PER_THREAD)` work group, each thread covering `ELEM_PER_THREAD`
    /// rows. Fails with `DimensionMismatch` exactly when the shared
    /// dimension disagrees.
    pub fn prepare<T: Copy>(&self, m1: &Matrix<T>, m2: &Matrix<T>, zero: T) -> (res: Result<
        LaunchPlan<T>,
        MulError,
    >)
        requires
            m1.wf(),
            m2.wf(),
            padded_sizes_fit(*m1, *m2),
        ensures
            match res {
                Ok(p) => m1.cols == m2.rows && is_padded_plan(
                    p,
                    *m1,
                    *m2,
                    zero,
                    ELEM_PER_THREAD as int,
                ),
                Err(e) => m1.cols != m2.rows && e == MulError::DimensionMismatch,
            },
    {
        plan_padded(m1, m2, zero, ELEM_PER_THREAD)
    }

    /// Account for a finished run: record the five stage timings and trim
    /// the raw device output down to the true result dimensions.
    pub fn complete<T: Copy>(
        &mut self,
        raw: &Matrix<T>,
        out_rows: usize,
        out_cols: usize,
        stage_times: &PipelineTimes,
    ) -> (res: Matrix<T>)
        requires
            raw.wf(),
            out_rows <= raw.rows,
            out_cols <= raw.cols,
            stage_times.wf(),
        ensures
            res.wf(),
            res.rows == out_rows,
            res.cols == out_cols,
            forall|i: int, j: int|
                0 <= i < out_rows && 0 <= j < out_cols ==> #[trigger] res.idx(i, j) == raw.idx(
                    i,
                    j,
                ),
            final(self).spec_device() == old(self).spec_device(),
            (final(self).last_stat() matches Some(s) && s.total_time == stage_times.spec_total_ms()
                && s.gpu_time == stage_times.kernel.spec_ms()),
    {
        let totals = aggregate_times(stage_times);
        self.stat = Some(TimeStat { total_time: totals.0, kernel_time: totals.1 });
        raw.create_trimmed(out_rows, out_cols)
    }
}

} // verus!
