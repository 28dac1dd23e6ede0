use audio_link::playback::{fill_output, play};
use audio_link::queue::FrameQueue;
use audio_link::sample::Sample;

fn samples(amplitudes: &[f32]) -> Vec<Sample> {
    amplitudes.iter().map(|a| Sample { bits: a.to_bits() }).collect()
}

fn garbage(len: usize) -> Vec<Sample> {
    (0..len).map(|i| Sample { bits: 0xDEAD_0000 + i as u32 }).collect()
}

fn amplitudes(period: &[Sample]) -> Vec<f32> {
    period.iter().map(|s| f32::from_bits(s.bits)).collect()
}

#[test]
fn silent_sample_is_positive_zero() {
    assert_eq!(Sample::silence(), Sample { bits: 0 });
    assert_eq!(Sample::silence().bits, 0.0f32.to_bits());
}

#[test]
fn empty_queue_turns_256_samples_of_garbage_into_zeros() {
    let mut inbound = FrameQueue::new();
    let mut output = garbage(256);
    play(&mut inbound, &mut output);
    assert_eq!(output.len(), 256);
    assert_eq!(output, vec![Sample { bits: 0 }; 256]);
    assert_eq!(amplitudes(&output), vec![0.0f32; 256]);
    assert!(inbound.is_empty());
}

#[test]
fn underrun_silences_a_period_of_any_length() {
    for len in [0usize, 1, 2, 63, 480, 4096] {
        let mut inbound = FrameQueue::new();
        let mut output = garbage(len);
        play(&mut inbound, &mut output);
        assert_eq!(output, vec![Sample { bits: 0 }; len]);
    }
}

#[test]
fn underrun_after_the_queue_has_run_dry() {
    let mut inbound = FrameQueue::new();
    inbound.send(samples(&[0.5, 0.5]));
    let mut output = garbage(2);
    play(&mut inbound, &mut output);
    assert_eq!(output, samples(&[0.5, 0.5]));
    play(&mut inbound, &mut output);
    assert_eq!(output, samples(&[0.0, 0.0]));
}

#[test]
fn arrived_buffer_of_the_period_s_length_is_played_whole() {
    let mut inbound = FrameQueue::new();
    inbound.send(samples(&[0.1, 0.2, 0.3, 0.4]));
    let mut output = garbage(4);
    play(&mut inbound, &mut output);
    assert_eq!(output, samples(&[0.1, 0.2, 0.3, 0.4]));
}

#[test]
fn shorter_arrived_buffer_leaves_the_tail_as_it_was() {
    let mut inbound = FrameQueue::new();
    inbound.send(samples(&[0.1, 0.2]));
    let mut output = garbage(5);
    play(&mut inbound, &mut output);
    let before = garbage(5);
    assert_eq!(&output[..2], &samples(&[0.1, 0.2])[..]);
    assert_eq!(&output[2..], &before[2..]);
}

#[test]
fn longer_arrived_buffer_is_cut_to_the_period() {
    let mut inbound = FrameQueue::new();
    inbound.send(samples(&[0.1, 0.2, 0.3, 0.4, 0.5, 0.6]));
    let mut output = garbage(4);
    play(&mut inbound, &mut output);
    assert_eq!(output, samples(&[0.1, 0.2, 0.3, 0.4]));
    assert!(inbound.is_empty());
}

#[test]
fn empty_arrived_buffer_changes_nothing() {
    let mut inbound = FrameQueue::new();
    inbound.send(Vec::new());
    let mut output = garbage(8);
    play(&mut inbound, &mut output);
    assert_eq!(output, garbage(8));
    assert!(inbound.is_empty());
}

#[test]
fn each_period_takes_one_buffer() {
    let mut inbound = FrameQueue::new();
    inbound.send(samples(&[0.1, 0.1]));
    inbound.send(samples(&[0.2, 0.2]));
    inbound.send(samples(&[0.3, 0.3]));
    let mut output = garbage(2);
    play(&mut inbound, &mut output);
    assert_eq!(output, samples(&[0.1, 0.1]));
    assert_eq!(inbound.len(), 2);
    play(&mut inbound, &mut output);
    assert_eq!(output, samples(&[0.2, 0.2]));
    assert_eq!(inbound.len(), 1);
    play(&mut inbound, &mut output);
    assert_eq!(output, samples(&[0.3, 0.3]));
    assert_eq!(inbound.len(), 0);
}

#[test]
fn period_of_no_samples_still_takes_a_buffer() {
    let mut inbound = FrameQueue::new();
    inbound.send(samples(&[0.1]));
    let mut output: Vec<Sample> = Vec::new();
    play(&mut inbound, &mut output);
    assert!(output.is_empty());
    assert!(inbound.is_empty());
}

#[test]
fn fill_output_without_a_buffer_is_silence() {
    let mut output = garbage(16);
    fill_output(&mut output, None);
    assert_eq!(output, vec![Sample { bits: 0 }; 16]);
}

#[test]
fn fill_output_copies_position_by_position() {
    let arrived = samples(&[1.0, -1.0, 0.25]);
    let mut output = garbage(4);
    fill_output(&mut output, Some(&arrived));
    assert_eq!(output[0], arrived[0]);
    assert_eq!(output[1], arrived[1]);
    assert_eq!(output[2], arrived[2]);
    assert_eq!(output[3], garbage(4)[3]);
}
