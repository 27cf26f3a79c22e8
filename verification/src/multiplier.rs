//! The strategy facade: the uniform `info` / `stat` surface over the host
//! and accelerator multipliers, and the dispatcher that builds one from a
//! requested mode.

use vstd::prelude::*;

use crate::args::DeviceType;
use crate::args::Mode;
use crate::basic::BasicMultiplier;
use crate::device::DeviceDesc;
use crate::device::filtered;
use crate::device::get_device;
use crate::easy::EasyMultiplier;
use crate::error::MulError;
use crate::hard::HardMultiplier;
use crate::medium::MediumMultiplier;

verus! {

/// Where a multiplication runs: on the calling thread, or on an
/// accelerator identified by its device and platform names.
#[derive(Debug)]
pub enum MultiplierInfo {
    /// Multiplication happens on the host, no accelerator involved.
    OnDeviceMultiplier,
    /// Multiplication is done on an accelerator.
    OpenClMultiplier {
        /// The name of the device performing the multiplication.
        device_name: String,
        /// The name of the platform the device belongs to.
        platform_name: String,
    },
}

/// Run statistics for a multiplication. Present only after at least one
/// successful `multiply`; absent, not zeroed, before that.
#[derive(Copy, Clone, Debug, PartialEq, Eq, Structural)]
pub struct MultiplierStat {
    /// Total time of execution in milliseconds.
    pub total_time: u64,
    /// Kernel time in milliseconds; zero when multiplication happens on the
    /// host.
    pub gpu_time: u64,
}

/// The closed set of execution strategies, dispatched through one surface.
pub enum Multiplier {
    /// The host reference strategy.
    Basic(BasicMultiplier),
    /// The naive accelerator strategy.
    Easy(EasyMultiplier),
    /// The tiled accelerator strategy.
    Medium(MediumMultiplier),
    /// The coarsened accelerator strategy.
    Hard(HardMultiplier),
}

impl Multiplier {
    /// The statistics the wrapped strategy has recorded, if any.
    pub open spec fn spec_stat(self) -> Option<MultiplierStat> {
        match self {
            Multiplier::Basic(b) => match b.last_run_ms() {
                Some(t) => Some(MultiplierStat { total_time: t, gpu_time: 0 }),
                None => None,
            },
            Multiplier::Easy(e) => e.last_stat(),
            Multiplier::Medium(m) => m.last_stat(),
            Multiplier::Hard(h) => h.last_stat(),
        }
    }

    /// Info on the device that performs the multiplication: the host for
    /// the basic strategy, the selected device's cached names otherwise.
    pub fn info(&self) -> (res: Result<MultiplierInfo, MulError>)
        ensures
            match *self {
                Multiplier::Basic(_) => res matches Ok(MultiplierInfo::OnDeviceMultiplier),
                Multiplier::Easy(e) => (res matches Ok(
                    MultiplierInfo::OpenClMultiplier { device_name, platform_name },
                ) && device_name@ == e.spec_device().name@ && platform_name@
                    == e.spec_device().platform_name@),
                Multiplier::Medium(m) => (res matches Ok(
                    MultiplierInfo::OpenClMultiplier { device_name, platform_name },
                ) && device_name@ == m.spec_device().name@ && platform_name@
                    == m.spec_device().platform_name@),
                Multiplier::Hard(h) => (res matches Ok(
                    MultiplierInfo::OpenClMultiplier { device_name, platform_name },
                ) && device_name@ == h.spec_device().name@ && platform_name@
                    == h.spec_device().platform_name@),
            },
    {
        match self {
            Multiplier::Basic(b) => b.info(),
            Multiplier::Easy(e) => e.info(),
            Multiplier::Medium(m) => m.info(),
            Multiplier::Hard(h) => h.info(),
        }
    }

    /// Statistics of the last run; `None` until the strategy has completed
    /// a multiplication.
    pub fn stat(&self) -> (res: Option<MultiplierStat>)
        ensures
            res == self.spec_stat(),
    {
        match self {
            Multiplier::Basic(b) => b.stat(),
            Multiplier::Easy(e) => e.stat(),
            Multiplier::Medium(m) => m.stat(),
            Multiplier::Hard(h) => h.stat(),
        }
    }
}

/// The device class a mode falls back to when none was requested.
pub open spec fn requested_device_type(o: Option<DeviceType>) -> DeviceType {
    match o {
        Some(d) => d,
        None => DeviceType::All,
    }
}

/// The device index a mode falls back to when none was requested.
pub open spec fn requested_index(o: Option<usize>) -> usize {
    match o {
        Some(i) => i,
        None => 0,
    }
}

/// Build the multiplier for a requested mode. The basic mode needs no
/// device; each accelerator mode resolves one from the enumerated list,
/// defaulting to any device at index zero, and fails with `DeviceNotFound`
/// exactly when the resolved index is out of range of the filtered list.
pub fn implementation(mode: Mode, devices: &Vec<DeviceDesc>) -> (res: Result<
    Multiplier,
    MulError,
>)
    ensures
        match mode {
            Mode::Basic => (res matches Ok(Multiplier::Basic(b)) && b.last_run_ms() is None),
            Mode::Easy { device_type, index } => {
                let flt = filtered(devices@, requested_device_type(device_type));
                let idx = requested_index(index);
                match res {
                    Ok(m) => (m matches Multiplier::Easy(e) && idx < flt.len()
                        && e.spec_device().eqv(flt[idx as int]) && e.last_stat() is None),
                    Err(e) => idx >= flt.len() && e == (MulError::DeviceNotFound {
                        index: idx,
                        available: flt.len() as usize,
                    }),
                }
            },
            Mode::Medium { device_type, index } => {
                let flt = filtered(devices@, requested_device_type(device_type));
                let idx = requested_index(index);
                match res {
                    Ok(m) => (m matches Multiplier::Medium(mm) && idx < flt.len()
                        && mm.spec_device().eqv(flt[idx as int]) && mm.last_stat() is None),
                    Err(e) => idx >= flt.len() && e == (MulError::DeviceNotFound {
                        index: idx,
                        available: flt.len() as usize,
                    }),
                }
            },
            Mode::Hard { device_type, index } => {
                let flt = filtered(devices@, requested_device_type(device_type));
                let idx = requested_index(index);
                match res {
                    Ok(m) => (m matches Multiplier::Hard(h) && idx < flt.len()
                        && h.spec_device().eqv(flt[idx as int]) && h.last_stat() is None),
                    Err(e) => idx >= flt.len() && e == (MulError::DeviceNotFound {
                        index: idx,
                        available: flt.len() as usize,
                    }),
                }
            },
        },
{
    match mode {
        Mode::Basic => Ok(Multiplier::Basic(BasicMultiplier::default())),
        Mode::Easy { device_type, index } => {
            let dt = match device_type {
                Some(d) => d,
                None => DeviceType::All,
            };
            let idx = match index {
                Some(i) => i,
                None => 0,
            };
            match EasyMultiplier::new(dt, idx, devices) {
                Ok(e) => Ok(Multiplier::Easy(e)),
                Err(err) => Err(err),
            }
        },
        Mode::Medium { device_type, index } => {
            let dt = match device_type {
                Some(d) => d,
                None => DeviceType::All,
            };
            let idx = match index {
                Some(i) => i,
                None => 0,
            };
            match MediumMultiplier::new(dt, idx, devices) {
                Ok(m) => Ok(Multiplier::Medium(m)),
                Err(err) => Err(err),
            }
        },
        Mode::Hard { device_type, index } => {
            let dt = match device_type {
                Some(d) => d,
                None => DeviceType::All,
            };
            let idx = match index {
                Some(i) => i,
                None => 0,
            };
            match HardMultiplier::new(dt, idx, devices) {
                Ok(h) => Ok(Multiplier::Hard(h)),
                Err(err) => Err(err),
            }
        },
    }
}

} // verus!
