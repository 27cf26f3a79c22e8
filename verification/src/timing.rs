//! Time measurement. The wall clock itself is outside what can be reasoned
//! about, so the two monotonic-clock calls are taken on trust with no
//! promise about the values they yield; everything computed from device
//! timestamps is ordinary verified arithmetic.

use vstd::prelude::*;

verus! {

#[verifier::external_type_specification]
#[verifier::external_body]
pub struct ExInstant(std::time::Instant);

/// Relies on std::time::Instant::now: an opaque reading of the monotonic
/// clock. Nothing is promised of its value.
pub assume_specification[ std::time::Instant::now ]() -> std::time::Instant;

/// Relies on std::time::Instant::elapsed: the time since the reading was
/// taken. The amount depends on the wall clock, so nothing is promised of
/// it.
pub assume_specification[ std::time::Instant::elapsed ](
    i: &std::time::Instant,
) -> std::time::Duration;

/// Relies on std::time::Duration::as_millis: the duration in whole
/// milliseconds. The duration itself is opaque here, so nothing is promised
/// of the value.
pub assume_specification[ std::time::Duration::as_millis ](d: &std::time::Duration) -> u128;

/// Milliseconds elapsed since `start`, saturating at `u64::MAX`.
pub fn elapsed_millis(start: &std::time::Instant) -> u64 {
    let ms = start.elapsed().as_millis();
    if ms > u64::MAX as u128 {
        u64::MAX
    } else {
        ms as u64
    }
}

/// One profiled pipeline stage: the device's start and end timestamps, in
/// nanoseconds.
#[derive(Copy, Clone, Debug, PartialEq, Eq, Structural)]
pub struct StageSpan {
    /// Device timestamp at which the stage began.
    pub start: u64,
    /// Device timestamp at which the stage ended.
    pub end: u64,
}

impl StageSpan {
    /// The timestamps are ordered.
    pub open spec fn wf(self) -> bool {
        self.start <= self.end
    }

    /// The stage's elapsed time in whole milliseconds: the nanosecond
    /// difference truncated by integer division. Sub-millisecond stages
    /// report zero; that is a measurement-resolution limit, not an error.
    pub open spec fn spec_ms(self) -> int {
        (self.end - self.start) / 1_000_000
    }
}

/// The five profiled stages of one accelerator multiplication: the three
/// input transfers, the kernel run, and the blocking read-back.
#[derive(Copy, Clone, Debug, PartialEq, Eq, Structural)]
pub struct PipelineTimes {
    /// Upload of the left operand.
    pub write_a: StageSpan,
    /// Upload of the right operand.
    pub write_b: StageSpan,
    /// Upload of the zero-initialized output buffer.
    pub write_out: StageSpan,
    /// The kernel launch.
    pub kernel: StageSpan,
    /// The blocking read of the output buffer.
    pub read: StageSpan,
}

impl PipelineTimes {
    /// Every stage's timestamps are ordered.
    pub open spec fn wf(self) -> bool {
        self.write_a.wf() && self.write_b.wf() && self.write_out.wf() && self.kernel.wf()
            && self.read.wf()
    }

    /// Total time: the sum of all five stages, in milliseconds.
    pub open spec fn spec_total_ms(self) -> int {
        self.write_a.spec_ms() + self.write_b.spec_ms() + self.write_out.spec_ms()
            + self.kernel.spec_ms() + self.read.spec_ms()
    }
}

/// A stage's elapsed milliseconds, truncated.
pub fn stage_elapsed_ms(span: StageSpan) -> (res: u64)
    requires
        span.wf(),
    ensures
        res == span.spec_ms(),
{
    (span.end - span.start) / 1_000_000
}

/// A stage's elapsed milliseconds never exceeds what fits alongside four
/// more of them in a u64.
proof fn lemma_stage_ms_bound(span: StageSpan)
    requires
        span.wf(),
    ensures
        0 <= span.spec_ms() <= u64::MAX as int / 1_000_000,
{
    assert(0 <= (span.end - span.start) / 1_000_000 <= u64::MAX as int / 1_000_000)
        by (nonlinear_arith)
        requires
            0 <= span.end - span.start <= u64::MAX as int,
    ;
}

/// The total and kernel-only times of one pipeline run, in milliseconds.
/// The total is the sum of the five stages; the accelerator share is the
/// kernel stage alone.
pub fn aggregate_times(times: &PipelineTimes) -> (res: (u64, u64))
    requires
        times.wf(),
    ensures
        res.0 == times.spec_total_ms(),
        res.1 == times.kernel.spec_ms(),
{
    proof {
        lemma_stage_ms_bound(times.write_a);
        lemma_stage_ms_bound(times.write_b);
        lemma_stage_ms_bound(times.write_out);
        lemma_stage_ms_bound(times.kernel);
        lemma_stage_ms_bound(times.read);
    }
    let wa = stage_elapsed_ms(times.write_a);
    let wb = stage_elapsed_ms(times.write_b);
    let wo = stage_elapsed_ms(times.write_out);
    let kernel = stage_elapsed_ms(times.kernel);
    let read = stage_elapsed_ms(times.read);
    let total = wa + wb + wo + kernel + read;
    (total, kernel)
}

} // verus!
