use callme::audio::debug::{feedback_ring, FeedbackInput, FeedbackOutput, Underflow};
use callme::audio::record::{
    after_force_send, capture_ring, is_recordable, push_frames, CaptureState, OpusEncoderLoop,
    Overrun, Queued,
};
use callme::audio::{opus_params, OutboundAudio, SampleRate, StreamParams};
use callme::codec::opus::Flow;
use callme::ring::SampleRing;

fn same(samples: Vec<u32>) -> Vec<u32> {
    samples
}

fn keep((): (), frame: Vec<u32>) -> ((), Vec<u32>) {
    ((), frame)
}

// Encodes a frame as its first sample and the number of the call.
fn encode(calls: u8, frame: Vec<u32>) -> (u8, Vec<u8>) {
    (calls.wrapping_add(1), vec![frame[0] as u8, calls])
}

fn opus(audio: OutboundAudio) -> (Vec<u8>, u32) {
    match audio {
        OutboundAudio::Opus { payload, sample_count } => (payload.to_vec(), sample_count),
    }
}

#[test]
fn capture_rings_hold_sixteen_frames() {
    let mut ring = capture_ring(&opus_params());
    assert_eq!(ring.push_slice(&[1; 20_000]), 15_360);
}

#[test]
fn streams_without_samples_are_not_recorded() {
    assert!(is_recordable(&opus_params()));
    assert!(!is_recordable(&StreamParams::new(SampleRate(999), 1)));
    assert!(!is_recordable(&StreamParams::new(SampleRate(48_000), 0)));
}

#[test]
fn recording_processes_whole_frames() {
    let mut ring = capture_ring(&opus_params());
    let mut state = CaptureState::new(&opus_params());
    let resample = |samples: Vec<u32>| samples.iter().map(|sample| sample * 2).collect();
    let process = |count: u32, frame: Vec<u32>| {
        assert_eq!(frame.len(), 480);
        (count + 1, frame.iter().map(|sample| sample + 1).collect())
    };
    let recorded: Vec<u32> = (0..1000).collect();
    let (warnings, count) = state.callback(&mut ring, recorded, &resample, 0, &process);
    assert!(warnings.is_empty());
    assert_eq!(count, 2);
    let expected: Vec<u32> = (0..960).map(|sample| sample * 2 + 1).collect();
    assert_eq!(ring.pop_all(), expected);
}

#[test]
fn recording_keeps_the_order_of_samples() {
    let mut ring = capture_ring(&opus_params());
    let mut state = CaptureState::new(&opus_params());
    let samples: Vec<u32> = (0..4800).collect();
    for chunk in samples.chunks(333) {
        assert!(state.callback(&mut ring, chunk.to_vec(), &same, (), &keep).0.is_empty());
    }
    assert_eq!(ring.pop_all(), samples);
}

#[test]
fn frames_that_do_not_fit_are_warned_of() {
    let mut ring = SampleRing::new(5);
    let frames = vec![vec![1, 2, 3], vec![4, 5, 6], vec![7, 8, 9]];
    let warnings = push_frames(&mut ring, &frames);
    assert_eq!(
        warnings,
        vec![Overrun { missing: 1, len: 3 }, Overrun { missing: 3, len: 3 }]
    );
    assert_eq!(ring.pop_all(), vec![1, 2, 3, 4, 5]);
}

#[test]
fn encoded_frames_go_through_the_queue() {
    let (mut encoder, receiver) = OpusEncoderLoop::new(0);
    let mut ring = capture_ring(&opus_params());
    ring.push_slice(&[4; 1000]);
    ring.push_slice(&[5; 1000]);
    let (flow, outcomes) = encoder.turn(&mut ring, &encode);
    assert_eq!(flow, Flow::Continue);
    assert!(matches!(outcomes[..], [Queued::Sent, Queued::Sent]));
    assert_eq!(after_force_send(&outcomes[0]), (Flow::Continue, false));
    assert!(ring.is_empty());
    assert_eq!(opus(receiver.try_recv().unwrap()), (vec![4, 0], 960));
    assert_eq!(opus(receiver.try_recv().unwrap()), (vec![4, 1], 960));
    assert!(receiver.try_recv().is_err());
}

#[test]
fn frames_are_taken_from_the_ring_one_by_one() {
    let (mut encoder, _receiver) = OpusEncoderLoop::new(0u8);
    let mut ring = capture_ring(&opus_params());
    ring.push_slice(&[4; 1000]);
    assert_eq!(encoder.next_frame(&mut ring), Some((vec![4; 960], 960)));
    assert_eq!(ring.occupied_len(), 40);
    assert_eq!(encoder.next_frame(&mut ring), None);
    assert!(ring.is_empty());
}

#[test]
fn full_queues_drop_the_oldest_frame() {
    let (mut encoder, receiver) = OpusEncoderLoop::new(0);
    for _ in 0..128 {
        assert!(matches!(encoder.publish(vec![1; 960], 960, &encode), Queued::Sent));
    }
    let outcome = encoder.publish(vec![2; 960], 960, &encode);
    assert_eq!(after_force_send(&outcome), (Flow::Continue, true));
    match outcome {
        Queued::Replaced(oldest) => assert_eq!(opus(oldest), (vec![1, 0], 960)),
        _ => panic!("the queue is full"),
    }
    assert_eq!(opus(receiver.try_recv().unwrap()), (vec![1, 1], 960));
}

#[test]
fn closed_queues_stop_the_encoder() {
    let (mut encoder, receiver) = OpusEncoderLoop::new(0);
    drop(receiver);
    let mut ring = capture_ring(&opus_params());
    ring.push_slice(&[9; 3000]);
    let (flow, mut outcomes) = encoder.turn(&mut ring, &encode);
    assert_eq!(flow, Flow::Break);
    assert_eq!(outcomes.len(), 1);
    assert_eq!(ring.occupied_len(), 2040);
    match outcomes.remove(0) {
        Queued::Closed(frame) => assert_eq!(opus(frame), (vec![9, 0], 960)),
        _ => panic!("the queue is closed"),
    }
}

#[test]
fn feedback_records_by_frames() {
    let mut ring = feedback_ring();
    let mut input = FeedbackInput::new();
    let process =
        |(): (), frame: Vec<u32>| ((), frame.iter().map(|sample| sample + 1).collect());
    assert!(input.callback(&mut ring, &[1; 400], (), &process).0.is_empty());
    assert!(ring.is_empty());
    assert!(input.callback(&mut ring, &[1; 100], (), &process).0.is_empty());
    assert_eq!(ring.pop_all(), vec![2; 480]);
}

#[test]
fn feedback_holds_pushes_against_what_came_in() {
    let mut ring = feedback_ring();
    let mut input = FeedbackInput::new();
    let (warnings, ()) = input.callback(&mut ring, &[1; 500], (), &keep);
    assert_eq!(warnings, vec![Overrun { missing: 20, len: 500 }]);
}

#[test]
fn feedback_plays_one_frame_at_a_time() {
    let mut ring = feedback_ring();
    let mut output = FeedbackOutput::new();
    let samples: Vec<u32> = (0..1000).collect();
    ring.push_slice(&samples);
    let (out, warning) = output.callback(&mut ring, &same, 300);
    assert_eq!(out, samples[..300].to_vec());
    assert_eq!(warning, None);
    assert_eq!(ring.occupied_len(), 520);
    let (out, warning) = output.callback(&mut ring, &same, 700);
    assert_eq!(out, samples[300..960].to_vec());
    assert_eq!(warning, Some(Underflow { missing: 40, wanted: 700, buffered: 40 }));
    let (out, warning) = output.callback(&mut ring, &same, 10);
    assert!(out.is_empty());
    assert_eq!(warning, Some(Underflow { missing: 10, wanted: 10, buffered: 40 }));
}
