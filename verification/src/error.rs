//! The engine's failure taxonomy. Every fallible operation of the library
//! reports one of these variants; nothing is retried or swallowed.

use vstd::prelude::*;

verus! {

/// The accelerator pipeline stage at which a native-API call failed.
#[derive(Clone, Copy, Debug, PartialEq, Eq, Structural)]
pub enum AccelStage {
    /// Creating the device context.
    Context,
    /// Creating the command queue.
    Queue,
    /// Allocating a device buffer.
    Alloc,
    /// Compiling the kernel program.
    Compile,
    /// Binding a kernel argument.
    ArgBind,
    /// Enqueueing a transfer or the kernel launch.
    Enqueue,
    /// The blocking read of the output buffer.
    Read,
}

/// Every failure the engine can report.
#[derive(Clone, Copy, Debug, PartialEq, Eq, Structural)]
pub enum MulError {
    /// Matrix construction was handed a data length that does not match the
    /// declared dimensions.
    InvalidConstruction,
    /// The shared dimension of the two operands disagrees.
    DimensionMismatch,
    /// The device selector's index fell outside the filtered device list;
    /// carries the requested index and how many devices were available.
    DeviceNotFound { index: usize, available: usize },
    /// A native accelerator call failed; carries the stage and the native
    /// error code.
    AcceleratorError { stage: AccelStage, code: i64 },
    /// The matrix text format was malformed.
    FormatError,
}

} // verus!
