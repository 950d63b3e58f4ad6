use pico_project::ir_remote::buttons::{KEY_0, KEY_1, KEY_HASH, KEY_OK, KEY_STAR};
use pico_project::ir_remote::{IrCommand, IrRemote, SAMPLE_PERIOD_US};

const LEADER_PULSE: u16 = 180;
const LEADER_SPACE: u16 = 90;
const BIT_PULSE: u16 = 11;
const ZERO_SPACE: u16 = 11;
const ONE_SPACE: u16 = 33;

fn nec_word(address: u8, command: u8) -> u32 {
    (address as u32) | ((!address as u32) << 8) | ((command as u32) << 16) | ((!command as u32) << 24)
}

fn frame_counts(word: u32) -> Vec<u16> {
    let mut counts = vec![LEADER_PULSE, LEADER_SPACE];
    for i in 0..32 {
        counts.push(BIT_PULSE);
        counts.push(if (word >> i) & 1 == 1 { ONE_SPACE } else { ZERO_SPACE });
    }
    counts
}

/// Each stretch: the edge sample plus `count` samples at the same level,
/// the first active; then the sample at which IR returns.
fn frame_samples(counts: &[u16]) -> Vec<bool> {
    let mut samples = Vec::new();
    for (j, &count) in counts.iter().enumerate() {
        let level = j % 2 == 0;
        for _ in 0..=count {
            samples.push(level);
        }
    }
    samples.push(true);
    samples
}

fn poll_all(remote: &mut IrRemote, samples: &[bool]) -> Vec<Option<IrCommand>> {
    samples.iter().map(|&s| remote.poll_raw(s)).collect()
}

#[test]
fn sample_period_is_fifty_microseconds() {
    assert_eq!(SAMPLE_PERIOD_US, 50);
}

#[test]
fn sampled_frame_decodes_on_last_sample() {
    let mut remote = IrRemote::new();
    let samples = frame_samples(&frame_counts(nec_word(0x00, KEY_OK)));
    let outs = poll_all(&mut remote, &samples);
    let (last, rest) = outs.split_last().unwrap();
    assert!(rest.iter().all(|o| o.is_none()));
    assert_eq!(*last, Some(IrCommand { address: 0x00, command: KEY_OK }));
}

#[test]
fn idle_samples_before_a_frame_are_harmless() {
    let mut remote = IrRemote::default();
    for _ in 0..1000 {
        assert_eq!(remote.poll_raw(false), None);
    }
    let samples = frame_samples(&frame_counts(nec_word(0x21, KEY_0)));
    let outs = poll_all(&mut remote, &samples);
    assert_eq!(*outs.last().unwrap(), Some(IrCommand { address: 0x21, command: KEY_0 }));
}

#[test]
fn boundary_counts_decode() {
    let mut counts = frame_counts(nec_word(0x05, 0x42));
    counts[0] = 160;
    counts[1] = 100;
    counts[2] = 8;
    counts[4] = 16;
    // Bit 0 of the address is 1: its space at the 1-bit bounds.
    counts[3] = 20;
    counts[65] = 40;
    let mut remote = IrRemote::new();
    let outs = poll_all(&mut remote, &frame_samples(&counts));
    assert_eq!(*outs.last().unwrap(), Some(IrCommand { address: 0x05, command: 0x42 }));
}

#[test]
fn bad_checksum_emits_nothing() {
    let bad = 0x00u32 | (0xFFu32 << 8) | (0x1Cu32 << 16) | (0x1Cu32 << 24);
    let mut remote = IrRemote::new();
    let outs = poll_all(&mut remote, &frame_samples(&frame_counts(bad)));
    assert!(outs.iter().all(|o| o.is_none()));
}

#[test]
fn out_of_range_leader_pulse_is_ignored() {
    let mut counts = frame_counts(nec_word(0x00, 0x1C));
    counts[0] = 150;
    let mut remote = IrRemote::new();
    let outs = poll_all(&mut remote, &frame_samples(&counts));
    assert!(outs.iter().all(|o| o.is_none()));
}

#[test]
fn ambiguous_bit_space_abandons_frame() {
    let mut counts = frame_counts(nec_word(0x00, 0x1C));
    // 18 samples is neither a 0 (<= 16) nor a 1 (20..=40).
    counts[7] = 18;
    let mut remote = IrRemote::new();
    let outs = poll_all(&mut remote, &frame_samples(&counts));
    assert!(outs.iter().all(|o| o.is_none()));
    // Back to the inactive level before the next frame.
    remote.poll_raw(false);
    let outs = poll_all(&mut remote, &frame_samples(&frame_counts(nec_word(0x00, 0x1C))));
    assert_eq!(*outs.last().unwrap(), Some(IrCommand { address: 0x00, command: 0x1C }));
}

#[test]
fn stalled_frame_times_out_and_next_frame_decodes() {
    let mut remote = IrRemote::new();
    let samples = frame_samples(&frame_counts(nec_word(0x00, 0x1C)));
    // Stop in the middle of a bit space and leave the line quiet.
    poll_all(&mut remote, &samples[..500]);
    for _ in 0..400 {
        assert_eq!(remote.poll_raw(samples[499]), None);
    }
    let mut tail_fix = Vec::new();
    if samples[499] {
        tail_fix.push(false);
    }
    poll_all(&mut remote, &tail_fix);
    let outs = poll_all(&mut remote, &samples);
    assert_eq!(*outs.last().unwrap(), Some(IrCommand { address: 0x00, command: 0x1C }));
}

#[test]
fn reset_returns_to_idle() {
    let mut remote = IrRemote::new();
    let samples = frame_samples(&frame_counts(nec_word(0x00, 0x1C)));
    poll_all(&mut remote, &samples[..300]);
    remote.reset();
    // The pin level seen last is kept; drive it inactive before a new frame.
    remote.poll_raw(false);
    let outs = poll_all(&mut remote, &samples);
    assert_eq!(*outs.last().unwrap(), Some(IrCommand { address: 0x00, command: 0x1C }));
}

#[test]
fn decode_command_of_fresh_receiver_fails_checksum() {
    let remote = IrRemote::new();
    assert_eq!(remote.decode_command(), None);
}

#[test]
fn two_frames_in_a_row_both_decode() {
    let mut remote = IrRemote::new();
    let mut samples = frame_samples(&frame_counts(nec_word(0x00, 0x16)));
    // Return to the inactive level and stay quiet before the next frame.
    for _ in 0..50 {
        samples.push(false);
    }
    let outs = poll_all(&mut remote, &samples);
    assert_eq!(outs.iter().filter(|o| o.is_some()).count(), 1);
    let outs = poll_all(&mut remote, &frame_samples(&frame_counts(nec_word(0x00, 0x0C))));
    assert_eq!(*outs.last().unwrap(), Some(IrCommand { address: 0x00, command: 0x0C }));
}

#[test]
fn placeholder_button_codes() {
    assert_eq!(KEY_0, 0x16);
    assert_eq!(KEY_1, 0x0C);
    assert_eq!(KEY_STAR, 0x40);
    assert_eq!(KEY_HASH, 0x43);
    assert_eq!(KEY_OK, 0x47);
}

#[test]
fn quiet_line_after_leader_pulse_times_out() {
    let mut remote = IrRemote::new();
    // Leader pulse edge, then the line held active for 301 samples.
    assert_eq!(remote.poll_raw(true), None);
    for _ in 0..301 {
        assert_eq!(remote.poll_raw(true), None);
    }
    // Idle again: the falling edge is ignored and a new frame decodes.
    assert_eq!(remote.poll_raw(false), None);
    let samples = frame_samples(&frame_counts(nec_word(0x00, 0x52)));
    let outs = poll_all(&mut remote, &samples);
    assert_eq!(*outs.last().unwrap(), Some(IrCommand { address: 0x00, command: 0x52 }));
}

#[test]
fn finished_receiver_answers_like_a_fresh_one() {
    let mut used = IrRemote::new();
    poll_all(&mut used, &frame_samples(&frame_counts(nec_word(0x00, 0x1C))));
    let mut fresh = IrRemote::new();
    let mut samples = vec![false; 7];
    samples.extend(frame_samples(&frame_counts(nec_word(0x33, 0x5E))));
    samples.extend(vec![false; 3]);
    samples.extend(frame_samples(&frame_counts(0x0102_0304)));
    assert_eq!(poll_all(&mut used, &samples), poll_all(&mut fresh, &samples));
}

#[test]
fn any_misfitting_count_yields_nothing() {
    for (j, bad) in [(0usize, 201u16), (1, 79), (2, 7), (3, 17), (40, 41), (65, 19)] {
        let mut counts = frame_counts(nec_word(0x00, 0x1C));
        counts[j] = bad;
        let mut remote = IrRemote::new();
        let outs = poll_all(&mut remote, &frame_samples(&counts));
        assert!(outs.iter().all(|o| o.is_none()), "stretch {} count {}", j, bad);
    }
}

#[test]
fn overlong_stretch_yields_nothing() {
    let mut remote = IrRemote::new();
    let mut samples = vec![true; 70_000];
    samples.extend(frame_samples(&frame_counts(nec_word(0x00, 0x1C)))[181..].iter().copied());
    let outs = poll_all(&mut remote, &samples);
    assert!(outs.iter().all(|o| o.is_none()));
}
