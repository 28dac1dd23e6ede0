use audio_link::normalizer::{capture, normalize};
use audio_link::queue::FrameQueue;
use audio_link::sample::Sample;

fn samples(amplitudes: &[f32]) -> Vec<Sample> {
    amplitudes.iter().map(|a| Sample { bits: a.to_bits() }).collect()
}

#[test]
fn mono_buffer_is_doubled() {
    let raw = samples(&[0.1, -0.2, 0.3]);
    let stereo = normalize(&raw, 1);
    assert_eq!(stereo, samples(&[0.1, 0.1, -0.2, -0.2, 0.3, 0.3]));
}

#[test]
fn mono_output_is_twice_as_long_with_equal_left_and_right() {
    for n in [0usize, 1, 2, 5, 64, 1000] {
        let raw: Vec<Sample> = (0..n).map(|i| Sample { bits: 0x3F00_0000 + i as u32 }).collect();
        let stereo = normalize(&raw, 1);
        assert_eq!(stereo.len(), 2 * n);
        for i in 0..n {
            assert_eq!(stereo[2 * i], raw[i]);
            assert_eq!(stereo[2 * i + 1], raw[i]);
        }
    }
}

#[test]
fn stereo_buffer_passes_unchanged() {
    let raw = samples(&[0.1, 0.2, 0.3, 0.4]);
    assert_eq!(normalize(&raw, 2), raw);
}

#[test]
fn more_than_two_channels_pass_unchanged() {
    let raw = samples(&[0.1, 0.2, 0.3, 0.4, 0.5, 0.6]);
    assert_eq!(normalize(&raw, 3), raw);
    assert_eq!(normalize(&raw, 6), raw);
    assert_eq!(normalize(&raw, u16::MAX), raw);
}

#[test]
fn zero_channels_pass_unchanged() {
    let raw = samples(&[0.7, 0.8]);
    assert_eq!(normalize(&raw, 0), raw);
}

#[test]
fn empty_buffer_stays_empty() {
    assert_eq!(normalize(&[], 1), Vec::<Sample>::new());
    assert_eq!(normalize(&[], 2), Vec::<Sample>::new());
}

#[test]
fn amplitudes_are_not_clamped() {
    let raw = samples(&[7.5, -12.0, f32::INFINITY]);
    assert_eq!(normalize(&raw, 1), samples(&[7.5, 7.5, -12.0, -12.0, f32::INFINITY, f32::INFINITY]));
    assert_eq!(normalize(&raw, 2), raw);
}

#[test]
fn capture_queues_the_normalized_buffer() {
    let mut outbound = FrameQueue::new();
    capture(&mut outbound, &samples(&[0.25]), 1);
    capture(&mut outbound, &samples(&[0.5, 0.75]), 2);
    assert_eq!(outbound.len(), 2);
    assert_eq!(outbound.try_recv(), Some(samples(&[0.25, 0.25])));
    assert_eq!(outbound.try_recv(), Some(samples(&[0.5, 0.75])));
    assert_eq!(outbound.try_recv(), None);
}

#[test]
fn capture_queues_an_empty_buffer_too() {
    let mut outbound = FrameQueue::new();
    capture(&mut outbound, &[], 1);
    assert_eq!(outbound.len(), 1);
    assert_eq!(outbound.try_recv(), Some(Vec::new()));
}
