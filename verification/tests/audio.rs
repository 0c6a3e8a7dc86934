//! Samples between devices and buffers, and the settings of the audio.

use std::collections::VecDeque;

use discord_lite::audio::devices::{
    config_48k, find_device, loop_step, LoopStep, MicTest, StreamRange,
};
use discord_lite::audio::stream::{
    channel_sums, drain_output, energy, fill_output, next_chunk, pairs, push_input_i16, take_frame,
};
use discord_lite::audio::{cap, AudioOptions, FRAME_LEN};
use discord_lite::config::NoiseMode;

fn deque(v: &[i16]) -> VecDeque<i16> {
    v.iter().copied().collect()
}

#[test]
fn buffers_keep_the_newest() {
    let mut b = deque(&[1, 2, 3, 4]);
    cap(&mut b, 2);
    assert_eq!(b, deque(&[3, 4]));
    cap(&mut b, 5);
    assert_eq!(b, deque(&[3, 4]));
    cap(&mut b, 0);
    assert!(b.is_empty());
}

#[test]
fn input_becomes_two_channels() {
    let mut b = deque(&[9]);
    push_input_i16(&mut b, &[1i16, 2, 3], 1, |s| s);
    assert_eq!(b, deque(&[9, 1, 1, 2, 2, 3, 3]));
    let mut b = deque(&[]);
    push_input_i16(&mut b, &[0.5f32, -0.5, 1.0, 0.0], 2, |s| (s * 100.0) as i16);
    assert_eq!(b, deque(&[50, -50, 100, 0]));
    let mut b = deque(&[]);
    push_input_i16(&mut b, &[1i16, 2, 3, 4, 5, 6], 3, |s| s);
    assert_eq!(b, deque(&[1, 2, 4, 5]));
    push_input_i16(&mut b, &[1i16], 0, |s| s);
    push_input_i16(&mut b, &[0i16; 0], 2, |s| s);
    assert_eq!(b.len(), 4);
    // A short last frame.
    let mut b = deque(&[]);
    push_input_i16(&mut b, &[1i16, 2, 3, 4, 5], 3, |s| s);
    assert_eq!(b, deque(&[1, 2, 4, 5]));
}

#[test]
fn output_is_filled() {
    let mut data = [7i16; 6];
    let mut src = deque(&[1, 2, 3]);
    let frames = fill_output(&mut data, &mut src, 3, false, |s| s * 10, |s| s + 1, -1);
    assert_eq!(frames, vec![(10, 20), (30, 0)]);
    assert_eq!(data, [11, 21, -1, 31, 1, -1]);
    assert!(src.is_empty());
    // While deafened nothing is taken.
    let mut src = deque(&[1, 2]);
    let frames = fill_output(&mut data, &mut src, 2, true, |s| s, |s| s, 0);
    assert_eq!(frames, vec![(0, 0); 3]);
    assert_eq!(data, [0; 6]);
    assert_eq!(src.len(), 2);
    // A device without channels.
    let mut data = [5i16; 2];
    assert!(fill_output(&mut data, &mut src, 0, false, |s| s, |s| s, 0).is_empty());
    assert_eq!(data, [5; 2]);
    // One channel plays the left one.
    let mut mono = [0i16; 2];
    let mut src = deque(&[1, 2, 3, 4]);
    fill_output(&mut mono, &mut src, 1, false, |s| s, |s| s, 0);
    assert_eq!(mono, [1, 3]);
}

#[test]
fn resampled_output_takes_whole_frames() {
    let mut data = [9i16; 4];
    let mut native = deque(&[1, 2, 3]);
    drain_output(&mut data, &mut native, 2, false, |s| s, |s| s, 0);
    assert_eq!(data, [1, 2, 0, 0]);
    assert_eq!(native, deque(&[3]));
    let mut native = deque(&[1, 2]);
    drain_output(&mut data, &mut native, 2, true, |s| s, |s| s, 0);
    assert_eq!(data, [0; 4]);
    assert_eq!(native.len(), 2);
}

#[test]
fn chunks_to_resample() {
    let mut src: VecDeque<i16> = (0..1001).map(|i| i as i16).collect();
    let chunk = next_chunk(0, 600, &mut src).unwrap();
    assert_eq!(chunk.len(), 960);
    assert_eq!((chunk[0], chunk[959]), (0, 959));
    let chunk = next_chunk(960, 600, &mut src).unwrap();
    assert_eq!(chunk.len(), 40);
    assert_eq!(src.len(), 1);
    assert!(next_chunk(1000, 600, &mut src).is_none());
    let mut src = deque(&[1, 2]);
    assert!(next_chunk(1200, 600, &mut src).is_none());
    assert_eq!(src.len(), 2);
}

#[test]
fn energy_and_sums() {
    let frames = vec![(3, -4), (i16::MIN, i16::MAX)];
    assert_eq!(energy(&frames), 25 + 32768 * 32768 + 32767 * 32767);
    assert_eq!(channel_sums(&frames), vec![-1, -1]);
    assert_eq!(pairs(&vec![1, 2, 3, 4, 5]), vec![(1, 2), (3, 4)]);
}

#[test]
fn frames_are_taken_whole() {
    let mut b = deque(&[1, 2, 3]);
    assert_eq!(take_frame(&mut b, 4), None);
    assert_eq!(take_frame(&mut b, 2), Some(vec![1, 2]));
    assert_eq!(b, deque(&[3]));
}

#[test]
fn options_stay_in_range() {
    let mut o = AudioOptions::new();
    o.set_input_volume(500);
    o.set_output_volume(7);
    o.set_mic_level(101);
    o.set_sensitivity_db(5);
    assert_eq!((o.input_volume(), o.output_volume(), o.mic_level()), (200, 7, 100));
    assert_eq!(o.sensitivity_db(), 0);
    o.set_noise_mode(NoiseMode::Off);
    assert_eq!(o.noise_mode(), NoiseMode::Off);
}

#[test]
fn far_end_is_kept_only_for_the_canceller() {
    let mut o = AudioOptions::new();
    o.push_far_ref(&[1, 2]);
    assert_eq!(o.take_far_ref(2), vec![0, 0]);
    o.set_aec(true);
    assert!(o.aec_enabled());
    o.push_far_ref(&[1, 2, 3]);
    assert_eq!(o.take_far_ref(2), vec![1, 2]);
    assert_eq!(o.take_far_ref(3), vec![3, 0, 0]);
    let many: Vec<i32> = (0..24_001).collect();
    o.push_far_ref(&many);
    assert_eq!(o.take_far_ref(1), vec![1]);
    o.set_aec(false);
    o.set_aec(true);
    assert_eq!(o.take_far_ref(1), vec![0]);
}

#[test]
fn devices_by_name() {
    let names = vec![None, Some("a".to_string()), Some("b".to_string()), Some("b".to_string())];
    assert_eq!(find_device(&names, "b"), Some(2));
    assert_eq!(find_device(&names, "c"), None);
}

#[test]
fn format_of_a_device() {
    let range = |min_rate, max_rate, channels, usable| StreamRange {
        min_rate,
        max_rate,
        channels,
        usable,
    };
    let ranges = vec![
        range(8000, 96000, 2, false),
        range(8000, 44100, 2, true),
        range(8000, 48000, 1, true),
        range(48000, 48000, 2, true),
    ];
    assert_eq!(config_48k(48000, 2, &ranges), None);
    assert_eq!(config_48k(44100, 2, &ranges), Some(3));
    assert_eq!(config_48k(44100, 6, &ranges), Some(2));
    assert_eq!(config_48k(44100, 2, &Vec::new()), None);
}

#[test]
fn microphone_loop() {
    assert_eq!(loop_step(true, 1, 2, FRAME_LEN), LoopStep::End);
    assert_eq!(loop_step(false, 1, 2, FRAME_LEN), LoopStep::Reopen);
    assert_eq!(loop_step(false, 2, 2, FRAME_LEN - 1), LoopStep::Wait);
    assert_eq!(loop_step(false, 2, 2, FRAME_LEN), LoopStep::Process);
    let mut t = MicTest::new();
    assert!(!t.stopped());
    t.stop();
    assert!(t.stopped());
}
