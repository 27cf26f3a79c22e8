//! The caller-facing configuration values: which device class to run on,
//! which execution mode to use, and the input/output locations.

use vstd::prelude::*;

verus! {

/// The class of compute device the selector should pick from.
#[derive(Copy, Clone, Debug, PartialEq, Eq, Structural)]
pub enum DeviceType {
    /// Dedicated gpu.
    DGpu,
    /// Integrated gpu.
    IGpu,
    /// Any gpu.
    Gpu,
    /// Any cpu.
    Cpu,
    /// Any device found.
    All,
}

impl Default for DeviceType {
    /// The default class accepts every device.
    fn default() -> (res: Self)
        ensures
            res == DeviceType::All,
    {
        DeviceType::All
    }
}

/// The execution strategies on offer.
#[derive(Debug)]
pub enum Mode {
    /// Basic implementation is just 3 loops on the host.
    Basic,
    /// Easy implementation is a naive implementation that uses the gpu.
    Easy { device_type: Option<DeviceType>, index: Option<usize> },
    /// Medium implementation is a less naive implementation that uses local
    /// memory on the gpu.
    Medium { device_type: Option<DeviceType>, index: Option<usize> },
    /// Hard is an okay implementation that optimized thread throughput.
    Hard { device_type: Option<DeviceType>, index: Option<usize> },
}

/// The tool's configuration: where the operands come from, where the result
/// goes, and how to multiply.
#[derive(Debug)]
pub struct Args {
    /// Input file with the matrices that are to be multiplied.
    pub input: String,
    /// Output file where the result of the multiplication will be.
    pub output: String,
    /// Choose where to multiply the matrices.
    pub mode: Mode,
}

} // verus!
