//! The three stations of the audio pipeline.
//!
//! The input callback spreads each interleaved input frame over the filter
//! channels, stamps it and sends it to the filter thread. The filter thread
//! pushes each frame into the filter and hands what comes out to the
//! throttle. The output callback takes one frame per output frame from the
//! throttled queue, or silence when the queue is empty, scales it and writes
//! it into the interleaved output buffer.

use crate::counting_mpsc::is_count;
use crate::counting_mpsc::is_lowered;
use crate::counting_mpsc::is_raised;
use crate::counting_mpsc::Receiver;
use crate::counting_mpsc::SendError;
use crate::counting_mpsc::Sender;
use crate::counting_mpsc::TryRecvError;
use crate::fir_module::after_pop;
use crate::fir_module::is_output;
use crate::fir_module::primed;
use crate::fir_module::FirFilter;
use crate::marked::lemma_picked_len;
use crate::marked::lemma_picked_push;
use crate::marked::picked;
use crate::sample::is_product;
use crate::sample::is_zero_frame;
use crate::sample::Sample;
use crate::sample::Scalar;
use crate::telemetry::SharedData;
use crate::telemetry::NUM_OUTPUT_CHANNELS;
use crate::throttle_module::is_control_step;
use crate::throttle_module::throttled;
use crate::throttle_module::Real;
use crate::throttle_module::ThrottleError;
use crate::throttle_module::ThrottleSender;
use vstd::prelude::*;

verus! {

/// The number of channels that the filter works on.
pub const NUM_FIR_CHANNELS: usize = 8;

/// The number of input channels of the device.
pub const NUM_INPUT_CHANNELS: usize = 2;

/// The length of every impulse that is not empty.
pub const FIR_IMPULSE_LEN: usize = 2046;

/// For each filter channel the input channel that feeds it.
pub const INPUT_CHANNEL_MAPPING: [usize; NUM_FIR_CHANNELS] = [1, 1, 1, 0, 0, 0, 0, 0];

/// The time from one frame to the next in whole nanoseconds: a second over
/// the sample rate of 48000, rounded down.
pub const FRAME_PERIOD_NANOS: u64 = 20833;

/// A frame of the filter's width.
pub type Frame<S> = Sample<S, NUM_FIR_CHANNELS>;

/// The number of whole frames in an interleaved buffer of `len` values with
/// `channels` values per frame.
pub open spec fn frames_in(len: nat, channels: usize) -> int {
    len as int / channels as int
}

/// The capture or playback time of frame number `frame` in a buffer whose
/// callback started at `start`.
pub open spec fn frame_time(start: u64, frame: int) -> int {
    start + frame * FRAME_PERIOD_NANOS
}

/// The time of frame number `frame` in a buffer whose callback started at
/// `start`.
pub fn frame_timestamp(start: u64, frame: usize) -> (time: u64)
    requires
        frame_time(start, frame as int) <= u64::MAX,
    ensures
        time == frame_time(start, frame as int),
{
    start + (frame as u64) * FRAME_PERIOD_NANOS
}

/// `sample` is frame number `frame` of the interleaved input `data`, spread
/// over the filter channels by the channel mapping and stamped with its
/// capture time.
pub open spec fn is_input_frame<S>(data: Seq<S>, start: u64, frame: int, sample: Frame<S>) -> bool {
    &&& sample.timestamp == frame_time(start, frame)
    &&& forall|c: int|
        0 <= c < NUM_FIR_CHANNELS ==> (#[trigger] sample.data[c]) == data[frame
            * NUM_INPUT_CHANNELS + INPUT_CHANNEL_MAPPING[c]]
}

/// `after` is `before` with the first `count` frames of `data` appended.
pub open spec fn extends_by_frames<S>(
    before: Seq<Frame<S>>,
    after: Seq<Frame<S>>,
    data: Seq<S>,
    start: u64,
    count: int,
) -> bool {
    &&& after.len() == before.len() + count
    &&& after.subrange(0, before.len() as int) == before
    &&& forall|f: int|
        0 <= f < count ==> is_input_frame(data, start, f, #[trigger] after[before.len() + f])
}

/// Spreads frame number `frame` of the interleaved input over the filter
/// channels.
pub fn expand_frame<S: Copy>(data: &[S], frame: usize) -> (out: [S; NUM_FIR_CHANNELS])
    requires
        (frame + 1) * NUM_INPUT_CHANNELS <= data@.len(),
    ensures
        forall|c: int|
            0 <= c < NUM_FIR_CHANNELS ==> (#[trigger] out[c]) == data@[frame * NUM_INPUT_CHANNELS
                + INPUT_CHANNEL_MAPPING[c]],
{
    let len: usize = data.len();
    let base: usize = frame * NUM_INPUT_CHANNELS;
    let mut arr: [S; NUM_FIR_CHANNELS] = [data[base]; NUM_FIR_CHANNELS];
    let mut channel: usize = 0;
    while channel < NUM_FIR_CHANNELS
        invariant
            channel <= NUM_FIR_CHANNELS,
            base == frame * NUM_INPUT_CHANNELS,
            base + NUM_INPUT_CHANNELS <= data@.len(),
            forall|c: int|
                0 <= c < channel ==> (#[trigger] arr[c]) == data@[base + INPUT_CHANNEL_MAPPING[c]],
        decreases NUM_FIR_CHANNELS - channel,
    {
        let input_channel = INPUT_CHANNEL_MAPPING[channel];
        arr[channel] = data[base + input_channel];
        channel += 1;
    }
    arr
}

/// The body of the input callback. Every whole frame of the interleaved
/// buffer `data`, whose callback started at `start`, is spread over the
/// filter channels, stamped and sent, in order. The first frame that the
/// channel refuses ends the work and comes back in the error.
pub fn process_input_data<S: Scalar>(data: &[S], start: u64, sender: &mut Sender<Frame<S>>) -> (r:
    Result<(), SendError<Frame<S>>>)
    requires
        frame_time(start, frames_in(data@.len(), NUM_INPUT_CHANNELS)) <= u64::MAX,
    ensures
        final(sender).counter() == old(sender).counter(),
        final(sender).queue() == old(sender).queue(),
        final(sender).accepted().len() > old(sender).accepted().len() ==> is_raised(
            old(sender).counter(),
        ),
        match r {
            Ok(()) => extends_by_frames(
                old(sender).accepted(),
                final(sender).accepted(),
                data@,
                start,
                frames_in(data@.len(), NUM_INPUT_CHANNELS),
            ),
            Err(e) => exists|sent: int|
                0 <= sent < frames_in(data@.len(), NUM_INPUT_CHANNELS)
                    && #[trigger] extends_by_frames(
                    old(sender).accepted(),
                    final(sender).accepted(),
                    data@,
                    start,
                    sent,
                ) && is_input_frame(data@, start, sent, e.0),
        },
{
    let num_input_frames: usize = data.len() / NUM_INPUT_CHANNELS;
    let ghost before = sender.accepted();
    let mut frame: usize = 0;
    assert(before.subrange(0, before.len() as int) == before);
    while frame < num_input_frames
        invariant
            frame <= num_input_frames,
            num_input_frames == frames_in(data@.len(), NUM_INPUT_CHANNELS),
            frame_time(start, num_input_frames as int) <= u64::MAX,
            before == old(sender).accepted(),
            sender.counter() == old(sender).counter(),
            sender.queue() == old(sender).queue(),
            frame > 0 ==> is_raised(sender.counter()),
            extends_by_frames(before, sender.accepted(), data@, start, frame as int),
        decreases num_input_frames - frame,
    {
        let arr = expand_frame(data, frame);
        let timestamp = frame_timestamp(start, frame);
        let sample = Sample { timestamp, data: arr };
        match sender.send(sample) {
            Ok(()) => {
                assert(sender.accepted().subrange(0, before.len() as int) == before);
            },
            Err(e) => {
                return Err(e);
            },
        }
        frame += 1;
    }
    Ok(())
}

/// The place of channel `channel` of frame `frame` in an interleaved
/// output buffer.
pub open spec fn output_slot(frame: int, channel: int) -> int {
    frame * NUM_OUTPUT_CHANNELS + channel
}

/// `played` is what the output callback, started at `start`, played into
/// its buffer: for each frame the sample it used and whether that sample
/// came from the queue. A sample that did not is silence stamped with
/// `start`. Each slot of a played frame holds the sample's channel times
/// `gain`; the rest of the buffer is as it was.
pub open spec fn is_playback<S: Scalar>(
    played: Seq<(Frame<S>, bool)>,
    start: u64,
    gain: S,
    before: Seq<S>,
    after: Seq<S>,
) -> bool {
    &&& after.len() == before.len()
    &&& played.len() * NUM_OUTPUT_CHANNELS <= before.len()
    &&& forall|f: int|
        0 <= f < played.len() && !(#[trigger] played[f]).1 ==> is_zero_frame(played[f].0.data)
            && played[f].0.timestamp == start
    &&& forall|f: int, c: int|
        0 <= f < played.len() && 0 <= c < NUM_OUTPUT_CHANNELS ==> is_product(
            played[f].0.data[c],
            gain,
            #[trigger] after[output_slot(f, c)],
        )
    &&& forall|i: int|
        played.len() * NUM_OUTPUT_CHANNELS <= i < before.len() ==> (#[trigger] after[i])
            == before[i]
}

/// The time from the stamp `captured` of a sample to the playback time of
/// frame number `frame`, zero when the stamp is the later one.
pub open spec fn frame_latency(start: u64, frame: int, captured: u64) -> int {
    if frame_time(start, frame) >= captured {
        frame_time(start, frame) - captured
    } else {
        0
    }
}

/// `after` is `before` with frame number `frame` played from `sample`: each
/// of the frame's slots holds the sample's channel times `gain`, and every
/// other slot is as it was.
pub open spec fn is_frame_played<S: Scalar>(
    sample: Frame<S>,
    frame: int,
    gain: S,
    before: Seq<S>,
    after: Seq<S>,
) -> bool {
    &&& after.len() == before.len()
    &&& forall|c: int|
        0 <= c < NUM_OUTPUT_CHANNELS ==> is_product(
            sample.data[c],
            gain,
            #[trigger] after[output_slot(frame, c)],
        )
    &&& forall|i: int|
        0 <= i < before.len() && !(output_slot(frame, 0) <= i < output_slot(
            frame,
            NUM_OUTPUT_CHANNELS as int,
        )) ==> (#[trigger] after[i]) == before[i]
}

/// What one arrival from the queue makes of frame number `frame`.
///
/// A closed channel ends the playback: the error is handed on and nothing
/// is changed. A sample is played as it came. An empty queue is a miss: it
/// is counted, and silence stamped with `start` is played in the sample's
/// place. Whatever is played sets the latency; the rest of the telemetry is
/// untouched.
pub open spec fn is_frame_outcome<S: Scalar>(
    arrival: Result<Frame<S>, TryRecvError>,
    frame: int,
    start: u64,
    gain: S,
    buffer_before: Seq<S>,
    shared_before: SharedData<S>,
    buffer_after: Seq<S>,
    shared_after: SharedData<S>,
    r: Result<(Frame<S>, bool), TryRecvError>,
) -> bool {
    match arrival {
        Err(TryRecvError::Disconnected) => {
            &&& r == Err::<(Frame<S>, bool), TryRecvError>(TryRecvError::Disconnected)
            &&& buffer_after == buffer_before
            &&& shared_after == shared_before
        },
        _ => {
            &&& r matches Ok((played, fresh))
            &&& match arrival {
                Ok(sample) => {
                    &&& played == sample
                    &&& fresh
                    &&& shared_after.missed_sample_count == shared_before.missed_sample_count
                },
                _ => {
                    &&& is_zero_frame(played.data)
                    &&& played.timestamp == start
                    &&& !fresh
                    &&& shared_after.missed_sample_count == shared_before.missed_sample_count
                        + 1
                },
            }
            &&& is_frame_played(played, frame, gain, buffer_before, buffer_after)
            &&& shared_after.total_latency == frame_latency(start, frame, played.timestamp)
            &&& shared_after.input_buffer_timestamp == shared_before.input_buffer_timestamp
            &&& shared_after.output_buffer_timestamp == shared_before.output_buffer_timestamp
            &&& shared_after.output_buffer_volumes == shared_before.output_buffer_volumes
        },
    }
}

/// The latency that the telemetry shows after `played`: that of the last
/// frame played, from the stamp of its sample to its playback time, or what
/// it showed before when no frame was played.
pub open spec fn latency_after<S>(played: Seq<(Frame<S>, bool)>, start: u64, before: u64) -> int {
    if played.len() == 0 {
        before as int
    } else {
        let last = played.len() - 1;
        frame_latency(start, last, played[last].0.timestamp)
    }
}

/// The telemetry after the output callback, started at `start`, played
/// `played`: the callback's start is noted, every frame that found the
/// queue empty is counted as missed, and the latency is that of the last
/// frame. The rest is untouched.
pub open spec fn is_played_telemetry<S>(
    played: Seq<(Frame<S>, bool)>,
    start: u64,
    before: SharedData<S>,
    after: SharedData<S>,
) -> bool {
    &&& after.output_buffer_timestamp == start
    &&& after.input_buffer_timestamp == before.input_buffer_timestamp
    &&& after.output_buffer_volumes == before.output_buffer_volumes
    &&& after.missed_sample_count == before.missed_sample_count + played.len() - picked(
        played,
    ).len()
    &&& after.total_latency == latency_after(played, start, before.total_latency)
}

/// Plays frame number `frame` of the output buffer from what the queue
/// handed out for it. It returns the sample that was played and whether it
/// came from the queue, or the error that ends the playback.
pub fn play_frame<S: Scalar>(
    data: &mut [S],
    frame: usize,
    start: u64,
    gain: S,
    shared_data: &mut SharedData<S>,
    arrival: Result<Frame<S>, TryRecvError>,
) -> (r: Result<(Frame<S>, bool), TryRecvError>)
    requires
        (frame + 1) * NUM_OUTPUT_CHANNELS <= old(data)@.len(),
        frame_time(start, frame as int) <= u64::MAX,
        old(shared_data).missed_sample_count < usize::MAX,
    ensures
        is_frame_outcome(
            arrival,
            frame as int,
            start,
            gain,
            old(data)@,
            *old(shared_data),
            final(data)@,
            *final(shared_data),
            r,
        ),
{
    let (sample, fresh) = match arrival {
        Ok(sample) => (sample, true),
        Err(TryRecvError::Empty) => {
            shared_data.missed_sample_count += 1;
            (Sample::new(start), false)
        },
        Err(TryRecvError::Disconnected) => {
            return Err(TryRecvError::Disconnected);
        },
    };
    let timestamp = frame_timestamp(start, frame);
    shared_data.total_latency = timestamp.saturating_sub(sample.timestamp);
    let len: usize = data.len();
    let base: usize = frame * NUM_OUTPUT_CHANNELS;
    let ghost buffer_here = data@;
    let mut channel: usize = 0;
    while channel < NUM_OUTPUT_CHANNELS
        invariant
            channel <= NUM_OUTPUT_CHANNELS,
            base == frame * NUM_OUTPUT_CHANNELS,
            base + NUM_OUTPUT_CHANNELS <= data@.len(),
            data@.len() == buffer_here.len(),
            buffer_here.len() == len,
            forall|i: int|
                0 <= i < data@.len() && !(base <= i < base + channel) ==> (#[trigger] data@[i])
                    == buffer_here[i],
            forall|c: int|
                0 <= c < channel ==> is_product(sample.data[c], gain, #[trigger] data@[base + c]),
        decreases NUM_OUTPUT_CHANNELS - channel,
    {
        data[base + channel] = sample.data[channel].times(gain);
        channel += 1;
    }
    proof {
        assert forall|c: int| 0 <= c < NUM_OUTPUT_CHANNELS implies is_product(
            sample.data[c],
            gain,
            #[trigger] data@[output_slot(frame as int, c)],
        ) by {
            assert(output_slot(frame as int, c) == base + c);
        }
    }
    Ok((sample, fresh))
}

/// The body of the output callback, started at `start`. For every whole
/// frame of the interleaved buffer `data` it takes one sample from the
/// queue without waiting and plays the frame from what came, as
/// `play_frame` does. It stops with an error at the first frame that finds
/// the channel closed. What the queue hands out is up to the sender.
pub fn process_output_data<S: Scalar>(
    data: &mut [S],
    start: u64,
    gain: S,
    shared_data: &mut SharedData<S>,
    receiver: &mut Receiver<Frame<S>>,
) -> (r: Result<(), TryRecvError>)
    requires
        frame_time(start, frames_in(old(data)@.len(), NUM_OUTPUT_CHANNELS)) <= u64::MAX,
        old(shared_data).missed_sample_count + frames_in(old(data)@.len(), NUM_OUTPUT_CHANNELS)
            <= usize::MAX,
    ensures
        r matches Err(e) ==> e == TryRecvError::Disconnected,
        final(receiver).counter() == old(receiver).counter(),
        final(receiver).queue() == old(receiver).queue(),
        exists|played: Seq<(Frame<S>, bool)>|
            {
                &&& #[trigger] is_playback(played, start, gain, old(data)@, final(data)@)
                &&& is_played_telemetry(played, start, *old(shared_data), *final(shared_data))
                &&& final(receiver).delivered() == old(receiver).delivered() + picked(played)
                &&& picked(played).len() > 0 ==> is_lowered(old(receiver).counter())
                &&& r is Ok ==> played.len() == frames_in(old(data)@.len(), NUM_OUTPUT_CHANNELS)
                &&& r is Err ==> played.len() < frames_in(old(data)@.len(), NUM_OUTPUT_CHANNELS)
            },
{
    let num_output_frames: usize = data.len() / NUM_OUTPUT_CHANNELS;
    shared_data.output_buffer_timestamp = start;
    let ghost mut played: Seq<(Frame<S>, bool)> = Seq::empty();
    let ghost buffer_before = data@;
    let ghost delivered_before = receiver.delivered();
    let mut frame: usize = 0;
    while frame < num_output_frames
        invariant
            frame <= num_output_frames,
            num_output_frames == frames_in(buffer_before.len(), NUM_OUTPUT_CHANNELS),
            num_output_frames * NUM_OUTPUT_CHANNELS <= buffer_before.len(),
            frame_time(start, num_output_frames as int) <= u64::MAX,
            old(shared_data).missed_sample_count + num_output_frames <= usize::MAX,
            played.len() == frame,
            buffer_before == old(data)@,
            delivered_before == old(receiver).delivered(),
            receiver.counter() == old(receiver).counter(),
            receiver.queue() == old(receiver).queue(),
            is_playback(played, start, gain, buffer_before, data@),
            is_played_telemetry(played, start, *old(shared_data), *shared_data),
            receiver.delivered() == delivered_before + picked(played),
            picked(played).len() > 0 ==> is_lowered(receiver.counter()),
        decreases num_output_frames - frame,
    {
        proof {
            lemma_picked_len(played);
        }
        let ghost buffer_here = data@;
        let arrival = receiver.try_recv();
        match play_frame(data, frame, start, gain, shared_data, arrival) {
            Ok((sample, fresh)) => {
                proof {
                    lemma_picked_push(played, sample, fresh);
                    let longer = played.push((sample, fresh));
                    assert forall|f: int, c: int|
                        0 <= f < longer.len() && 0 <= c < NUM_OUTPUT_CHANNELS implies is_product(
                        longer[f].0.data[c],
                        gain,
                        #[trigger] data@[output_slot(f, c)],
                    ) by {
                        if f < frame {
                            assert(longer[f] == played[f]);
                            assert(data@[output_slot(f, c)] == buffer_here[output_slot(f, c)]);
                        }
                    }
                    played = longer;
                }
            },
            Err(e) => {
                return Err(e);
            },
        }
        frame += 1;
    }
    Ok(())
}

/// `out` is what a filter with `taps` puts out for the delay line `line`
/// after a silent run of `run` frames: the sum over the oldest frames, or a
/// zero frame when the run covers the line, stamped like the oldest frame.
pub open spec fn is_filtered<S: Scalar>(
    taps: Seq<[S; NUM_FIR_CHANNELS]>,
    line: Seq<Frame<S>>,
    run: nat,
    out: Frame<S>,
) -> bool {
    &&& out.timestamp == line[0].timestamp
    &&& is_output(taps, line, run >= line.len(), out.data)
}

/// One step of the filter thread: `sample` goes into the filter, and the
/// frame that comes out, if one does, goes to the throttle, which forwards
/// or drops it. While the filter is filling up nothing reaches the throttle.
pub fn filter_step<S: Scalar, R: Real>(
    fir: &mut FirFilter<S, NUM_FIR_CHANNELS>,
    throttle: &mut ThrottleSender<Frame<S>, R>,
    sample: Frame<S>,
) -> (r: Result<(), ThrottleError<Frame<S>>>)
    requires
        old(fir).wf(),
        old(throttle).wf(),
    ensures
        final(fir).wf(),
        final(throttle).wf(),
        final(fir).taps() == old(fir).taps(),
        final(fir).delay_line() == after_pop(
            old(fir).taps().len(),
            old(fir).delay_line().push(sample),
        ),
        final(throttle).gains() == old(throttle).gains(),
        final(throttle).downstream_counter() == old(throttle).downstream_counter(),
        final(throttle).downstream_queue() == old(throttle).downstream_queue(),
        final(throttle).forwarded() != old(throttle).forwarded() ==> is_raised(
            old(throttle).downstream_counter(),
        ),
        !primed(old(fir).taps().len(), old(fir).delay_line().len() + 1) ==> {
            &&& r is Ok
            &&& final(throttle).history() == old(throttle).history()
            &&& final(throttle).forwarded() == old(throttle).forwarded()
            &&& final(throttle).iterations() == old(throttle).iterations()
            &&& final(throttle).pid() == old(throttle).pid()
        },
        primed(old(fir).taps().len(), old(fir).delay_line().len() + 1) ==> exists|
            out: Frame<S>,
            depth: usize,
            drive: Option<u64>,
        |
            {
                &&& is_filtered(
                    old(fir).taps(),
                    old(fir).delay_line().push(sample),
                    final(fir).silent_run(),
                    out,
                )
                &&& is_count(old(throttle).downstream_counter(), depth)
                &&& #[trigger] is_control_step(
                    old(throttle).gains(),
                    old(throttle).pid(),
                    depth,
                    final(throttle).pid(),
                    drive,
                )
                &&& #[trigger] throttled(
                    old(throttle).iterations(),
                    old(throttle).forwarded(),
                    out,
                    drive,
                    final(throttle).iterations(),
                    final(throttle).forwarded(),
                    r,
                )
                &&& final(throttle).history() == old(throttle).history().push(
                    (out, final(throttle).forwarded() != old(throttle).forwarded()),
                )
            },
{
    fir.push_sample(sample);
    match fir.pop_sample() {
        None => Ok(()),
        Some(out) => throttle.send(out),
    }
}

} // verus!
