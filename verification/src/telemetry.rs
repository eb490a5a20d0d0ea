//! What a session reports about itself: when the audio callbacks last ran,
//! how loud the last output buffer was, how many output frames found the
//! queue empty, how long the last frame took from capture to output, and how
//! busy the filter thread is.
//!
//! Times are nanoseconds on the session's monotonic clock.

use crate::sample::is_zero_frame;
use crate::sample::Scalar;
use vstd::prelude::*;

verus! {

/// The number of output channels of the device.
pub const NUM_OUTPUT_CHANNELS: usize = 6;

/// Frames per second, and the number of filter iterations between two
/// load reports.
pub const SAMPLE_RATE: u32 = 48000;

/// A callback that has not run for longer than this has stalled.
pub const STALL_NANOS: u64 = 1000000000;

/// The record that the audio callbacks write and the supervisor reads.
pub struct SharedData<S> {
    /// When the input callback last started.
    pub input_buffer_timestamp: u64,
    /// When the output callback last started.
    pub output_buffer_timestamp: u64,
    /// The level of each output channel over the last output buffer.
    pub output_buffer_volumes: [S; NUM_OUTPUT_CHANNELS],
    /// How many output frames were filled with silence for want of a sample.
    pub missed_sample_count: usize,
    /// The time from capture to output of the last output frame.
    pub total_latency: u64,
}

/// The time from `then` to `now`, zero when `then` is the later one.
pub open spec fn age(now: u64, then: u64) -> int {
    if now >= then {
        now - then
    } else {
        0
    }
}

/// Either callback last ran more than `STALL_NANOS` before `now`.
pub open spec fn is_stalled(now: u64, input_timestamp: u64, output_timestamp: u64) -> bool {
    age(now, input_timestamp) > STALL_NANOS || age(now, output_timestamp) > STALL_NANOS
}

impl<S: Scalar> SharedData<S> {
    /// The record of a session that starts at `now`: both callbacks count
    /// as having just run, all levels are zero, nothing was missed.
    pub fn new(now: u64) -> (shared: Self)
        ensures
            shared.input_buffer_timestamp == now,
            shared.output_buffer_timestamp == now,
            is_zero_frame(shared.output_buffer_volumes),
            shared.missed_sample_count == 0,
            shared.total_latency == 0,
    {
        let z = S::zero();
        SharedData {
            input_buffer_timestamp: now,
            output_buffer_timestamp: now,
            output_buffer_volumes: [z; NUM_OUTPUT_CHANNELS],
            missed_sample_count: 0,
            total_latency: 0,
        }
    }

    /// Notes that the input callback started at `now`.
    pub fn mark_input(&mut self, now: u64)
        ensures
            final(self).input_buffer_timestamp == now,
            final(self).output_buffer_timestamp == old(self).output_buffer_timestamp,
            final(self).output_buffer_volumes == old(self).output_buffer_volumes,
            final(self).missed_sample_count == old(self).missed_sample_count,
            final(self).total_latency == old(self).total_latency,
    {
        self.input_buffer_timestamp = now;
    }

    /// Whether a stream has stalled at `now`.
    pub fn streams_stalled(&self, now: u64) -> (stalled: bool)
        ensures
            stalled == is_stalled(now, self.input_buffer_timestamp, self.output_buffer_timestamp),
    {
        let input_delta = now.saturating_sub(self.input_buffer_timestamp);
        let output_delta = now.saturating_sub(self.output_buffer_timestamp);
        output_delta > STALL_NANOS || input_delta > STALL_NANOS
    }

    /// The latency of the last output frame in whole milliseconds.
    pub fn latency_millis(&self) -> (millis: u64)
        ensures
            millis == self.total_latency / 1000000,
    {
        self.total_latency / 1000000
    }
}

/// The longest busy time whose parts per million fit 128 bits: the largest
/// `u128` over a million, rounded down.
pub const MAX_BUSY_NANOS: u128 = 340282366920938463463374607431768;

/// The load in percent: the busy time as parts per million of the elapsed
/// time, divided by ten thousand. Both divisions round down.
pub open spec fn load_of(busy_nanos: u128, elapsed_nanos: u128) -> int {
    (busy_nanos * 1000000) / (elapsed_nanos as int) / 10000
}

/// Whether the load can be computed in the machine's numbers: time has
/// elapsed, the parts per million fit 128 bits and the percentage fits 64.
pub open spec fn load_is_defined(busy_nanos: u128, elapsed_nanos: u128) -> bool {
    &&& elapsed_nanos > 0
    &&& busy_nanos * 1000000 <= u128::MAX
    &&& load_of(busy_nanos, elapsed_nanos) <= u64::MAX
}

/// The load in percent of a thread that was busy for `busy_nanos` out of
/// `elapsed_nanos`, where it is defined.
pub fn load_percent(busy_nanos: u128, elapsed_nanos: u128) -> (load: Option<u64>)
    ensures
        load is Some <==> load_is_defined(busy_nanos, elapsed_nanos),
        load matches Some(percent) ==> percent == load_of(busy_nanos, elapsed_nanos),
{
    if elapsed_nanos == 0 {
        return None;
    }
    if busy_nanos > MAX_BUSY_NANOS {
        return None;
    }
    let proportion: u128 = busy_nanos * 1000000 / elapsed_nanos;
    let percent: u128 = proportion / 10000;
    if percent > 0xffff_ffff_ffff_ffffu128 {
        None
    } else {
        Some(percent as u64)
    }
}

/// Adds up the busy time of the filter thread and says when a report is
/// due: at the first iteration and then every `SAMPLE_RATE` iterations.
pub struct LoadMeter {
    iteration: u32,
    busy_nanos: u128,
}

impl LoadMeter {
    /// The place of the next iteration in its run of `SAMPLE_RATE`.
    pub closed spec fn iteration(&self) -> nat {
        self.iteration as nat
    }

    /// The busy time added up since the last report.
    pub closed spec fn busy(&self) -> nat {
        self.busy_nanos as nat
    }

    /// The iteration stays inside its run, and the busy time is that of no
    /// more iterations than a run has.
    pub open spec fn wf(&self) -> bool {
        &&& self.iteration() < SAMPLE_RATE
        &&& self.busy() <= (SAMPLE_RATE - 1) * u64::MAX
        &&& self.iteration() > 0 ==> self.busy() <= (self.iteration() - 1) * u64::MAX
    }

    /// A meter before the first iteration.
    pub fn new() -> (meter: Self)
        ensures
            meter.wf(),
            meter.iteration() == 0,
            meter.busy() == 0,
    {
        LoadMeter { iteration: 0, busy_nanos: 0 }
    }

    /// Takes in the busy time of one iteration. When a report is due it
    /// hands out the busy time added up since the last one, this iteration
    /// included, and starts over.
    pub fn record(&mut self, busy_nanos: u64) -> (due: Option<u128>)
        requires
            old(self).wf(),
        ensures
            final(self).wf(),
            final(self).iteration() == (old(self).iteration() + 1) % (SAMPLE_RATE as nat),
            due is Some <==> old(self).iteration() == 0,
            due matches Some(total) ==> total == old(self).busy() + busy_nanos,
            due is Some ==> final(self).busy() == 0,
            due is None ==> final(self).busy() == old(self).busy() + busy_nanos,
    {
        let total: u128 = self.busy_nanos + (busy_nanos as u128);
        let due = if self.iteration == 0 {
            self.busy_nanos = 0;
            Some(total)
        } else {
            self.busy_nanos = total;
            None
        };
        if self.iteration + 1 == SAMPLE_RATE {
            self.iteration = 0;
        } else {
            self.iteration = self.iteration + 1;
        }
        due
    }
}

} // verus!
