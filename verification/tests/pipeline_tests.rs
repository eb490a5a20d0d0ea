use fir_pipeline::anti_pop_module::AntiPop;
use fir_pipeline::counting_mpsc::channel;
use fir_pipeline::counting_mpsc::TryRecvError;
use fir_pipeline::fir_module::FirFilter;
use fir_pipeline::impulse::parse_impulse;
use fir_pipeline::impulse::FromLine;
use fir_pipeline::impulse::ImpulseError;
use fir_pipeline::pipeline::expand_frame;
use fir_pipeline::pipeline::filter_step;
use fir_pipeline::pipeline::frame_timestamp;
use fir_pipeline::pipeline::play_frame;
use fir_pipeline::pipeline::process_input_data;
use fir_pipeline::pipeline::process_output_data;
use fir_pipeline::pipeline::Frame;
use fir_pipeline::pipeline::FIR_IMPULSE_LEN;
use fir_pipeline::pipeline::FRAME_PERIOD_NANOS;
use fir_pipeline::pipeline::INPUT_CHANNEL_MAPPING;
use fir_pipeline::pipeline::NUM_FIR_CHANNELS;
use fir_pipeline::pipeline::NUM_INPUT_CHANNELS;
use fir_pipeline::sample::Sample;
use fir_pipeline::sample::Scalar;
use fir_pipeline::supervisor::check_streams;
use fir_pipeline::supervisor::parse_command;
use fir_pipeline::supervisor::supervise;
use fir_pipeline::supervisor::Round;
use fir_pipeline::supervisor::RunResult;
use fir_pipeline::telemetry::load_percent;
use fir_pipeline::telemetry::LoadMeter;
use fir_pipeline::telemetry::SharedData;
use fir_pipeline::telemetry::MAX_BUSY_NANOS;
use fir_pipeline::telemetry::NUM_OUTPUT_CHANNELS;
use fir_pipeline::telemetry::SAMPLE_RATE;
use fir_pipeline::telemetry::STALL_NANOS;
use fir_pipeline::throttle_module::channel as throttle_channel;
use fir_pipeline::throttle_module::Real;

#[derive(Clone, Copy, Debug, PartialEq)]
struct F32(f32);

impl Scalar for F32 {
    fn zero() -> Self {
        F32(0.0)
    }

    fn plus(self, other: Self) -> Self {
        F32(self.0 + other.0)
    }

    fn times(self, other: Self) -> Self {
        F32(self.0 * other.0)
    }

    fn is_zero(self) -> bool {
        self.0 == 0.0
    }
}

impl FromLine for F32 {
    fn from_line(line: &str) -> Option<Self> {
        line.parse::<f32>().ok().map(F32)
    }
}

#[derive(Clone, Copy, Debug, PartialEq)]
struct F64(f64);

impl Real for F64 {
    fn from_int(v: i64) -> Self {
        F64(v as f64)
    }

    fn plus(self, other: Self) -> Self {
        F64(self.0 + other.0)
    }

    fn minus(self, other: Self) -> Self {
        F64(self.0 - other.0)
    }

    fn times(self, other: Self) -> Self {
        F64(self.0 * other.0)
    }

    fn over(self, other: Self) -> Self {
        F64(self.0 / other.0)
    }

    fn is_positive(self) -> bool {
        self.0 > 0.0
    }

    fn truncate(self) -> u64 {
        self.0 as u64
    }
}

const VOLUME_SCALAR: F32 = F32(0.5);

fn floats(values: &[f32]) -> Vec<F32> {
    values.iter().map(|v| F32(*v)).collect()
}

fn delta(len: usize) -> Vec<F32> {
    let mut h = vec![F32(0.0); len];
    h[0] = F32(1.0);
    h
}

#[test]
fn configuration_is_the_documented_one() {
    assert_eq!(SAMPLE_RATE, 48000);
    assert_eq!(NUM_INPUT_CHANNELS, 2);
    assert_eq!(NUM_OUTPUT_CHANNELS, 6);
    assert_eq!(NUM_FIR_CHANNELS, 8);
    assert_eq!(FIR_IMPULSE_LEN, 2046);
    assert_eq!(INPUT_CHANNEL_MAPPING, [1, 1, 1, 0, 0, 0, 0, 0]);
    assert_eq!(FRAME_PERIOD_NANOS, 1_000_000_000 / 48_000);
    assert_eq!(STALL_NANOS, 1_000_000_000);
    assert_eq!(MAX_BUSY_NANOS, u128::MAX / 1_000_000);
}

#[test]
fn impulse_is_read_line_by_line() {
    let text: String = (0..2046).map(|k| format!("{}\n", (k as f32) * 0.5 - 3.0)).collect();
    let lines: Vec<&str> = text.lines().collect();
    let impulse = parse_impulse::<F32>(&lines).unwrap();
    assert_eq!(impulse.len(), 2046);
    assert_eq!(impulse[0], F32(-3.0));
    assert_eq!(impulse[1], F32(-2.5));
    assert_eq!(impulse[2045], F32(1019.5));
}

#[test]
fn lines_that_are_no_number_are_passed_over() {
    let mut lines: Vec<&str> = vec!["# tweeter", "", "1.5", "one", " 2.5", "-2.5e-1", "3,0"];
    lines.extend(std::iter::repeat("0.25").take(2044));
    lines.push("end");
    let impulse = parse_impulse::<F32>(&lines).unwrap();
    assert_eq!(impulse.len(), 2046);
    assert_eq!(impulse[0], F32(1.5));
    assert_eq!(impulse[1], F32(-0.25));
    assert_eq!(impulse[2], F32(0.25));
    assert_eq!(impulse[2045], F32(0.25));
}

#[test]
fn impulse_of_another_length_is_refused() {
    let short: Vec<&str> = std::iter::repeat("1.0").take(2045).collect();
    assert_eq!(parse_impulse::<F32>(&short), Err(ImpulseError { found: 2045 }));
    let long: Vec<&str> = std::iter::repeat("1.0").take(2047).collect();
    assert_eq!(parse_impulse::<F32>(&long), Err(ImpulseError { found: 2047 }));
    assert_eq!(parse_impulse::<F32>(&Vec::new()), Err(ImpulseError { found: 0 }));
    // 2046 lines, one of them no number.
    let mut spoiled: Vec<&str> = std::iter::repeat("1.0").take(2045).collect();
    spoiled.push("x");
    assert_eq!(parse_impulse::<F32>(&spoiled), Err(ImpulseError { found: 2045 }));
}

#[test]
fn frame_is_spread_by_the_channel_mapping() {
    // Two frames of (left, right).
    let data = floats(&[10.0, 20.0, 30.0, 40.0]);
    let l = F32(10.0);
    let r = F32(20.0);
    assert_eq!(expand_frame(&data, 0), [r, r, r, l, l, l, l, l]);
    let l = F32(30.0);
    let r = F32(40.0);
    assert_eq!(expand_frame(&data, 1), [r, r, r, l, l, l, l, l]);
}

#[test]
fn frame_times_are_a_whole_period_apart() {
    assert_eq!(frame_timestamp(1000, 0), 1000);
    assert_eq!(frame_timestamp(1000, 1), 21_833);
    assert_eq!(frame_timestamp(1000, 3), 63_499);
    assert_eq!(frame_timestamp(0, 48_000), 999_984_000);
}

#[test]
fn input_callback_sends_every_whole_frame_stamped() {
    let (mut tx, mut rx) = channel::<Frame<F32>>();
    // Three whole frames and one value left over.
    let data = floats(&[1.0, 2.0, 3.0, 4.0, 5.0, 6.0, 7.0]);
    process_input_data(&data, 5_000, &mut tx).unwrap();
    assert_eq!(rx.get_count(), 3);
    for frame in 0..3u64 {
        let sample = rx.try_recv().unwrap();
        let l = F32((2 * frame + 1) as f32);
        let r = F32((2 * frame + 2) as f32);
        assert_eq!(sample.timestamp, 5_000 + frame * 20_833);
        assert_eq!(sample.data, [r, r, r, l, l, l, l, l]);
    }
    assert_eq!(rx.try_recv().err(), Some(TryRecvError::Empty));
}

#[test]
fn input_callback_on_empty_buffer_sends_nothing() {
    let (mut tx, rx) = channel::<Frame<F32>>();
    process_input_data(&floats(&[]), 0, &mut tx).unwrap();
    process_input_data(&floats(&[1.0]), 0, &mut tx).unwrap();
    assert_eq!(rx.get_count(), 0);
}

#[test]
fn input_callback_reports_the_frame_that_a_closed_channel_refused() {
    let (mut tx, rx) = channel::<Frame<F32>>();
    drop(rx);
    let data = floats(&[1.0, 2.0, 3.0, 4.0]);
    match process_input_data(&data, 9, &mut tx) {
        Ok(()) => panic!("sent into a closed channel"),
        Err(e) => {
            assert_eq!(e.0.timestamp, 9);
            assert_eq!(e.0.data[0], F32(2.0));
            assert_eq!(e.0.data[3], F32(1.0));
        }
    }
    assert_eq!(tx.get_count(), 0);
}

fn ramp() -> [F32; 8] {
    let mut data = [F32(0.0); 8];
    for c in 0..8 {
        data[c] = F32((c + 1) as f32);
    }
    data
}

#[test]
fn frame_is_played_from_the_sample_that_arrived() {
    let mut shared = SharedData::<F32>::new(3);
    shared.missed_sample_count = 4;
    let mut data = vec![F32(9.0); 20];
    let arrival = Ok(Sample { timestamp: 1_000, data: ramp() });
    let (played, fresh) =
        play_frame(&mut data, 1, 50_000, VOLUME_SCALAR, &mut shared, arrival).unwrap();
    assert!(fresh);
    assert_eq!(played.timestamp, 1_000);
    assert_eq!(played.data, ramp());
    // Frame 1 is slots 6 to 11; channels 6 and 7 of the sample are not played.
    let mut expected = vec![F32(9.0); 6];
    expected.extend(floats(&[0.5, 1.0, 1.5, 2.0, 2.5, 3.0]));
    expected.extend(vec![F32(9.0); 8]);
    assert_eq!(data, expected);
    assert_eq!(shared.missed_sample_count, 4);
    assert_eq!(shared.total_latency, 50_000 + 20_833 - 1_000);
    assert_eq!(shared.input_buffer_timestamp, 3);
    assert_eq!(shared.output_buffer_timestamp, 3);
}

#[test]
fn frame_without_a_sample_is_silence_and_a_miss() {
    let mut shared = SharedData::<F32>::new(0);
    shared.missed_sample_count = 4;
    let mut data = vec![F32(9.0); 12];
    let (played, fresh) = play_frame(
        &mut data,
        0,
        50_000,
        VOLUME_SCALAR,
        &mut shared,
        Err(TryRecvError::Empty),
    )
    .unwrap();
    assert!(!fresh);
    assert_eq!(played.timestamp, 50_000);
    assert_eq!(played.data, [F32(0.0); 8]);
    let mut expected = vec![F32(0.0); 6];
    expected.extend(vec![F32(9.0); 6]);
    assert_eq!(data, expected);
    assert_eq!(shared.missed_sample_count, 5);
    assert_eq!(shared.total_latency, 0);
}

#[test]
fn closed_channel_ends_the_playback_and_changes_nothing() {
    let mut shared = SharedData::<F32>::new(7);
    shared.missed_sample_count = 4;
    shared.total_latency = 11;
    let mut data = vec![F32(9.0); 12];
    let r = play_frame(
        &mut data,
        1,
        50_000,
        VOLUME_SCALAR,
        &mut shared,
        Err(TryRecvError::Disconnected),
    );
    assert_eq!(r.err(), Some(TryRecvError::Disconnected));
    assert_eq!(data, vec![F32(9.0); 12]);
    assert_eq!(shared.missed_sample_count, 4);
    assert_eq!(shared.total_latency, 11);
    assert_eq!(shared.output_buffer_timestamp, 7);
}

#[test]
fn one_queued_sample_is_played_and_the_next_frame_is_missed() {
    let (mut tx, mut rx) = channel::<Frame<F32>>();
    tx.send(Sample { timestamp: 0, data: ramp() }).unwrap();
    let mut shared = SharedData::<F32>::new(0);
    let mut data = vec![F32(9.0); 12];
    process_output_data(&mut data, 0, VOLUME_SCALAR, &mut shared, &mut rx).unwrap();
    assert_eq!(
        data,
        floats(&[0.5, 1.0, 1.5, 2.0, 2.5, 3.0, 0.0, 0.0, 0.0, 0.0, 0.0, 0.0])
    );
    assert_eq!(shared.missed_sample_count, 1);
    assert_eq!(rx.get_count(), 0);
}

#[test]
fn as_many_samples_are_taken_as_frames_are_played() {
    for (queued, frames) in [(0usize, 3usize), (2, 3), (3, 3), (5, 3), (4, 0)] {
        let (mut tx, mut rx) = channel::<Frame<F32>>();
        for k in 0..queued {
            tx.send(Sample { timestamp: 0, data: [F32((k + 1) as f32); 8] }).unwrap();
        }
        let mut shared = SharedData::<F32>::new(0);
        shared.missed_sample_count = 10;
        let mut data = vec![F32(9.0); frames * 6];
        process_output_data(&mut data, 0, VOLUME_SCALAR, &mut shared, &mut rx).unwrap();
        let taken = queued.min(frames);
        assert_eq!(rx.get_count(), queued - taken);
        assert_eq!(shared.missed_sample_count, 10 + frames - taken);
        for f in 0..frames {
            // Oldest first, each at half volume; silence where none was left.
            let expected = if f < taken { 0.5 * (f + 1) as f32 } else { 0.0 };
            assert_eq!(data[f * 6..(f + 1) * 6], vec![F32(expected); 6][..]);
        }
    }
}

#[test]
fn closed_and_empty_channel_ends_the_output_callback() {
    let (tx, mut rx) = channel::<Frame<F32>>();
    drop(tx);
    let mut shared = SharedData::<F32>::new(0);
    let mut data = vec![F32(9.0); 6];
    let r = process_output_data(&mut data, 0, VOLUME_SCALAR, &mut shared, &mut rx);
    assert_eq!(r, Err(TryRecvError::Disconnected));
    assert_eq!(data, vec![F32(9.0); 6]);
    assert_eq!(shared.missed_sample_count, 0);
}

#[test]
fn stalled_streams_end_the_round_before_any_line_is_read() {
    let mut shared = SharedData::<F32>::new(0);
    shared.mark_input(2_000_000_000);
    let lines = vec!["q", "r"];
    assert_eq!(
        supervise(&shared, 2_000_000_000, &lines),
        Round { end: Some(RunResult::StreamsStopped), lines_read: 0, invalid: 0 }
    );
}

#[test]
fn first_command_ends_the_round_and_later_lines_stay_pending() {
    let shared = SharedData::<F32>::new(0);
    assert_eq!(
        supervise(&shared, 5, &vec!["x", "", "q", "r", "y"]),
        Round { end: Some(RunResult::Quit), lines_read: 3, invalid: 2 }
    );
    assert_eq!(
        supervise(&shared, 5, &vec!["r", "q"]),
        Round { end: Some(RunResult::Reload), lines_read: 1, invalid: 0 }
    );
}

#[test]
fn round_without_command_reads_every_line_and_goes_on() {
    let shared = SharedData::<F32>::new(0);
    assert_eq!(
        supervise(&shared, 5, &vec!["x", "quit"]),
        Round { end: None, lines_read: 2, invalid: 2 }
    );
    assert_eq!(
        supervise(&shared, 5, &Vec::new()),
        Round { end: None, lines_read: 0, invalid: 0 }
    );
}

#[test]
fn output_callback_scales_and_interleaves() {
    let (mut tx, mut rx) = channel::<Frame<F32>>();
    let mut first = [F32(0.0); 8];
    let mut second = [F32(0.0); 8];
    for c in 0..8 {
        first[c] = F32((c + 1) as f32);
        second[c] = F32(-2.0 * (c + 1) as f32);
    }
    tx.send(Sample { timestamp: 100, data: first }).unwrap();
    tx.send(Sample { timestamp: 200, data: second }).unwrap();
    let mut shared = SharedData::<F32>::new(0);
    let mut data = vec![F32(9.0); 12];
    process_output_data(&mut data, 50_000, VOLUME_SCALAR, &mut shared, &mut rx).unwrap();
    assert_eq!(
        data,
        floats(&[0.5, 1.0, 1.5, 2.0, 2.5, 3.0, -1.0, -2.0, -3.0, -4.0, -5.0, -6.0])
    );
    assert_eq!(shared.output_buffer_timestamp, 50_000);
    assert_eq!(shared.input_buffer_timestamp, 0);
    assert_eq!(shared.missed_sample_count, 0);
    // The second frame plays at 50000 + 20833 and was captured at 200.
    assert_eq!(shared.total_latency, 70_633);
    assert_eq!(rx.get_count(), 0);
}

#[test]
fn output_callback_fills_missing_frames_with_silence_and_counts_them() {
    let (mut tx, mut rx) = channel::<Frame<F32>>();
    tx.send(Sample { timestamp: 7, data: [F32(4.0); 8] }).unwrap();
    let mut shared = SharedData::<F32>::new(0);
    shared.missed_sample_count = 10;
    // Three whole frames and two values left over.
    let mut data = vec![F32(9.0); 20];
    process_output_data(&mut data, 1_000, VOLUME_SCALAR, &mut shared, &mut rx).unwrap();
    let mut expected = vec![F32(2.0); 6];
    expected.extend(vec![F32(0.0); 12]);
    expected.extend(vec![F32(9.0); 2]);
    assert_eq!(data, expected);
    assert_eq!(shared.missed_sample_count, 12);
    // The last frame is a stand-in stamped with the callback's start.
    assert_eq!(shared.total_latency, 2 * 20_833);
}

#[test]
fn output_callback_latency_is_zero_for_a_sample_from_the_future() {
    let (mut tx, mut rx) = channel::<Frame<F32>>();
    tx.send(Sample { timestamp: 5_000, data: [F32(1.0); 8] }).unwrap();
    let mut shared = SharedData::<F32>::new(0);
    let mut data = vec![F32(0.0); 6];
    process_output_data(&mut data, 1_000, VOLUME_SCALAR, &mut shared, &mut rx).unwrap();
    assert_eq!(shared.total_latency, 0);
}

#[test]
fn output_callback_without_whole_frame_only_notes_its_start() {
    let (mut tx, mut rx) = channel::<Frame<F32>>();
    tx.send(Sample { timestamp: 7, data: [F32(4.0); 8] }).unwrap();
    let mut shared = SharedData::<F32>::new(3);
    shared.total_latency = 77;
    let mut data = vec![F32(9.0); 5];
    process_output_data(&mut data, 1_000, VOLUME_SCALAR, &mut shared, &mut rx).unwrap();
    assert_eq!(data, vec![F32(9.0); 5]);
    assert_eq!(shared.output_buffer_timestamp, 1_000);
    assert_eq!(shared.total_latency, 77);
    assert_eq!(shared.missed_sample_count, 0);
    assert_eq!(rx.get_count(), 1);
}

#[test]
fn output_callback_stops_at_a_closed_channel() {
    let (mut tx, mut rx) = channel::<Frame<F32>>();
    tx.send(Sample { timestamp: 7, data: [F32(4.0); 8] }).unwrap();
    drop(tx);
    let mut shared = SharedData::<F32>::new(0);
    let mut data = vec![F32(9.0); 12];
    let r = process_output_data(&mut data, 1_000, VOLUME_SCALAR, &mut shared, &mut rx);
    assert_eq!(r, Err(TryRecvError::Disconnected));
    // The frame that was still queued was played.
    assert_eq!(data[..6], vec![F32(2.0); 6][..]);
    assert_eq!(data[6..], vec![F32(9.0); 6][..]);
    assert_eq!(shared.missed_sample_count, 0);
}

#[test]
fn filter_step_feeds_the_throttle_once_primed() {
    let mut fir = FirFilter::<F32, 8>::new(vec![floats(&[1.0, 1.0])]).unwrap();
    let (mut throttle, mut rx) = throttle_channel::<Frame<F32>, F64>();
    filter_step(&mut fir, &mut throttle, Sample { timestamp: 1, data: [F32(1.0); 8] }).unwrap();
    assert_eq!(rx.get_count(), 0);
    filter_step(&mut fir, &mut throttle, Sample { timestamp: 2, data: [F32(2.0); 8] }).unwrap();
    let out = rx.try_recv().unwrap();
    assert_eq!(out.timestamp, 1);
    assert_eq!(out.data[0], F32(3.0));
    assert_eq!(out.data[1], F32(0.0));
}

#[test]
fn filter_step_reports_a_closed_output_queue() {
    let mut fir = FirFilter::<F32, 8>::new(Vec::new()).unwrap();
    let (mut throttle, rx) = throttle_channel::<Frame<F32>, F64>();
    drop(rx);
    let sample = Sample { timestamp: 1, data: [F32(1.0); 8] };
    assert!(filter_step(&mut fir, &mut throttle, sample).is_err());
}

/// Runs input callback, filter thread and output callback in turn on one
/// thread, one input buffer at a time, and returns the output frames.
fn run_pipeline(impulses: Vec<Vec<F32>>, input: &[F32], buffer_frames: usize) -> (Vec<[F32; 6]>, SharedData<F32>) {
    let mut fir = FirFilter::<F32, 8>::new(impulses).unwrap();
    let (mut input_tx, mut input_rx) = channel::<Frame<F32>>();
    let (mut throttle, mut output_rx) = throttle_channel::<Frame<F32>, F64>();
    let mut shared = SharedData::<F32>::new(0);
    let mut played = Vec::new();
    let mut now: u64 = 0;
    for buffer in input.chunks(buffer_frames * NUM_INPUT_CHANNELS) {
        shared.mark_input(now);
        process_input_data(buffer, now, &mut input_tx).unwrap();
        while let Ok(sample) = input_rx.try_recv() {
            filter_step(&mut fir, &mut throttle, sample).unwrap();
        }
        let ready = output_rx.get_count();
        let mut out = vec![F32(0.0); ready * NUM_OUTPUT_CHANNELS];
        process_output_data(&mut out, now, VOLUME_SCALAR, &mut shared, &mut output_rx).unwrap();
        for frame in out.chunks(NUM_OUTPUT_CHANNELS) {
            played.push([frame[0], frame[1], frame[2], frame[3], frame[4], frame[5]]);
        }
        now += (buffer_frames as u64) * FRAME_PERIOD_NANOS;
    }
    (played, shared)
}

#[test]
fn identity_impulses_pass_the_sine_at_half_volume() {
    let impulses: Vec<Vec<F32>> = (0..8).map(|_| delta(FIR_IMPULSE_LEN)).collect();
    // 1 s of a 1 kHz sine on both input channels.
    let frames = 48_000usize;
    let sine: Vec<f32> = (0..frames)
        .map(|k| (2.0 * std::f32::consts::PI * 1000.0 * (k as f32) / 48_000.0).sin())
        .collect();
    let mut input = Vec::with_capacity(frames * 2);
    for s in sine.iter() {
        input.push(F32(*s));
        input.push(F32(*s));
    }
    let (played, shared) = run_pipeline(impulses, &input, 480);
    // The first 2045 frames prime the filter; every later one pushes out
    // the oldest frame of the line.
    assert_eq!(played.len(), frames - (FIR_IMPULSE_LEN - 1));
    for (k, frame) in played.iter().enumerate() {
        for c in 0..6 {
            assert_eq!(frame[c], F32(0.5 * sine[k]), "frame {} channel {}", k, c);
        }
    }
    assert_eq!(shared.missed_sample_count, 0);
}

#[test]
fn silence_in_gives_silence_out() {
    let h: Vec<F32> = (0..FIR_IMPULSE_LEN).map(|t| F32(0.001 * (t as f32) - 1.0)).collect();
    let impulses = vec![h.clone(), h.clone(), Vec::new(), Vec::new(), h.clone(), h];
    // 10 s of silence.
    let frames = 480_000usize;
    let input = vec![F32(0.0); frames * 2];
    let (played, shared) = run_pipeline(impulses, &input, 480);
    assert_eq!(played.len(), frames - (FIR_IMPULSE_LEN - 1));
    assert!(played.iter().all(|frame| frame.iter().all(|v| *v == F32(0.0))));
    assert_eq!(shared.missed_sample_count, 0);
}

#[test]
fn fresh_session_starts_with_clean_telemetry() {
    let shared = SharedData::<F32>::new(123);
    assert_eq!(shared.input_buffer_timestamp, 123);
    assert_eq!(shared.output_buffer_timestamp, 123);
    assert_eq!(shared.output_buffer_volumes, [F32(0.0); 6]);
    assert_eq!(shared.missed_sample_count, 0);
    assert_eq!(shared.total_latency, 0);
    assert_eq!(shared.latency_millis(), 0);
}

#[test]
fn reload_resets_what_the_session_before_counted() {
    let (_tx, mut rx) = channel::<Frame<F32>>();
    let mut shared = SharedData::<F32>::new(0);
    let mut data = vec![F32(1.0); 60];
    process_output_data(&mut data, 10, VOLUME_SCALAR, &mut shared, &mut rx).unwrap();
    shared.output_buffer_volumes = [F32(0.7); 6];
    assert_eq!(shared.missed_sample_count, 10);
    // The session ends on "r" and the next one starts from scratch.
    assert_eq!(parse_command("r"), Some(RunResult::Reload));
    let shared = SharedData::<F32>::new(5_000);
    assert_eq!(shared.missed_sample_count, 0);
    assert_eq!(shared.output_buffer_volumes, [F32(0.0); 6]);
}

#[test]
fn latency_is_shown_in_whole_milliseconds() {
    let mut shared = SharedData::<F32>::new(0);
    shared.total_latency = 42_999_999;
    assert_eq!(shared.latency_millis(), 42);
    shared.total_latency = 999_999;
    assert_eq!(shared.latency_millis(), 0);
}

#[test]
fn stalled_output_stops_the_session() {
    let mut shared = SharedData::<F32>::new(0);
    shared.mark_input(2_000_000_000);
    shared.output_buffer_timestamp = 1_000_000_000;
    // The output callback last ran 1.0 s ago: not yet over a second.
    assert_eq!(check_streams(&shared, 2_000_000_000), None);
    assert!(!shared.streams_stalled(2_000_000_000));
    assert_eq!(check_streams(&shared, 2_000_000_001), Some(RunResult::StreamsStopped));
    assert!(shared.streams_stalled(2_000_000_001));
}

#[test]
fn stalled_input_stops_the_session() {
    let mut shared = SharedData::<F32>::new(0);
    shared.output_buffer_timestamp = 5_000_000_000;
    shared.mark_input(3_999_999_999);
    assert_eq!(check_streams(&shared, 5_000_000_000), Some(RunResult::StreamsStopped));
    shared.mark_input(4_000_000_000);
    assert_eq!(check_streams(&shared, 5_000_000_000), None);
}

#[test]
fn callbacks_ahead_of_the_supervisor_clock_are_fresh() {
    let shared = SharedData::<F32>::new(9_000_000_000);
    assert_eq!(check_streams(&shared, 0), None);
}

#[test]
fn commands_are_q_and_r_alone() {
    assert_eq!(parse_command("q"), Some(RunResult::Quit));
    assert_eq!(parse_command("r"), Some(RunResult::Reload));
    for other in ["", "x", "Q", "R", "qq", "q ", " q", "quit", "r\n", "\u{71}\u{301}"] {
        assert_eq!(parse_command(other), None, "{:?} was taken for a command", other);
    }
}

#[test]
fn load_is_parts_per_million_over_ten_thousand() {
    assert_eq!(load_percent(500, 1_000), Some(50));
    assert_eq!(load_percent(1, 3), Some(33));
    assert_eq!(load_percent(0, 1_000), Some(0));
    assert_eq!(load_percent(999, 100_000), Some(0));
    assert_eq!(load_percent(1_000, 100_000), Some(1));
    assert_eq!(load_percent(1_000_000_000, 1_000_000_000), Some(100));
    assert_eq!(load_percent(3, 1), Some(300));
}

#[test]
fn load_is_undefined_without_elapsed_time_or_beyond_the_machine() {
    assert_eq!(load_percent(5, 0), None);
    assert_eq!(load_percent(u128::MAX, 1), None);
    assert_eq!(load_percent(u128::MAX / 1_000_000, u128::MAX), Some(0));
    assert_eq!(load_percent(u128::MAX / 1_000_000 + 1, u128::MAX), None);
    // 2^64 percent does not fit.
    assert_eq!(load_percent(1 << 64, 100), None);
    assert_eq!(load_percent((1 << 64) - 1, 100), Some(u64::MAX));
}

#[test]
fn load_report_is_due_at_the_first_iteration_and_every_second_of_frames() {
    let mut meter = LoadMeter::new();
    assert_eq!(meter.record(7), Some(7));
    for _ in 1..48_000 {
        assert_eq!(meter.record(2), None);
    }
    assert_eq!(meter.record(5), Some(2 * 47_999 + 5));
    assert_eq!(meter.record(1), None);
    for _ in 0..47_998 {
        assert_eq!(meter.record(0), None);
    }
    assert_eq!(meter.record(u64::MAX), Some(1 + u64::MAX as u128));
}

#[test]
fn anti_pop_store_can_be_built() {
    let _store = AntiPop::<F32, 8>::new(0);
}
