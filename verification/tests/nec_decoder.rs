use pico_project::ir_nec_pio::buttons::{name_of, KEY_0, KEY_HASH, KEY_OK, KEY_STAR, KEY_UP};
use pico_project::ir_nec_pio::program::build_ir_program;
use pico_project::ir_nec_pio::{IrCommand, NecDecoder};

const LEADER_PULSE: u32 = 4500;
const LEADER_SPACE: u32 = 2250;
const REPEAT_SPACE: u32 = 1125;
const BIT_PULSE: u32 = 281;
const ZERO_SPACE: u32 = 281;
const ONE_SPACE: u32 = 844;

fn nec_word(address: u8, command: u8) -> u32 {
    (address as u32) | ((!address as u32) << 8) | ((command as u32) << 16) | ((!command as u32) << 24)
}

fn frame_events(word: u32) -> Vec<(u32, bool)> {
    let mut events = vec![(LEADER_PULSE, true), (LEADER_SPACE, false)];
    for i in 0..32 {
        events.push((BIT_PULSE, true));
        let space = if (word >> i) & 1 == 1 { ONE_SPACE } else { ZERO_SPACE };
        events.push((space, false));
    }
    events
}

fn feed(decoder: &mut NecDecoder, events: &[(u32, bool)]) -> Vec<Option<IrCommand>> {
    events.iter().map(|&(d, p)| decoder.process(d, p)).collect()
}

#[test]
fn frame_decodes_to_its_command() {
    let mut decoder = NecDecoder::new();
    let outs = feed(&mut decoder, &frame_events(nec_word(0x00, 0x1C)));
    assert_eq!(outs.len(), 66);
    assert!(outs[..65].iter().all(|o| o.is_none()));
    assert_eq!(outs[65], Some(IrCommand { address: 0x00, command: 0x1C }));
}

#[test]
fn frame_with_extended_address_decodes() {
    // Byte 1 is not checked: a 16-bit address still decodes.
    let word = 0x12u32 | (0x34u32 << 8) | (0x45u32 << 16) | ((!0x45u8 as u32) << 24);
    let mut decoder = NecDecoder::new();
    let outs = feed(&mut decoder, &frame_events(word));
    assert_eq!(outs[65], Some(IrCommand { address: 0x12, command: 0x45 }));
}

#[test]
fn bad_checksum_emits_nothing_and_keeps_held_command() {
    let mut decoder = NecDecoder::new();
    let first = feed(&mut decoder, &frame_events(nec_word(0x01, 0x18)));
    assert_eq!(first[65], Some(IrCommand { address: 0x01, command: 0x18 }));
    let bad = 0x01u32 | (0xFEu32 << 8) | (0x18u32 << 16) | (0x18u32 << 24);
    let outs = feed(&mut decoder, &frame_events(bad));
    assert!(outs.iter().all(|o| o.is_none()));
    // A repeat frame still re-emits the last valid command.
    assert_eq!(decoder.process(LEADER_PULSE, true), None);
    assert_eq!(decoder.process(REPEAT_SPACE, false), Some(IrCommand { address: 0x01, command: 0x18 }));
}

#[test]
fn repeat_frame_reemits_held_command() {
    let mut decoder = NecDecoder::new();
    feed(&mut decoder, &frame_events(nec_word(0x00, 0x52)));
    for _ in 0..3 {
        assert_eq!(decoder.process(LEADER_PULSE, true), None);
        assert_eq!(decoder.process(REPEAT_SPACE, false), Some(IrCommand { address: 0x00, command: 0x52 }));
        // The trailing short pulse of a repeat frame is absorbed.
        assert_eq!(decoder.process(BIT_PULSE, true), None);
    }
}

#[test]
fn repeat_frame_before_any_command_emits_nothing() {
    let mut decoder = NecDecoder::new();
    assert_eq!(decoder.process(LEADER_PULSE, true), None);
    assert_eq!(decoder.process(REPEAT_SPACE, false), None);
}

#[test]
fn timing_boundaries_are_inclusive() {
    let mut decoder = NecDecoder::new();
    let mut events = frame_events(nec_word(0x07, 0x09));
    events[0].0 = 4000;
    events[1].0 = 2500;
    events[2].0 = 200;
    events[4].0 = 400;
    let outs = feed(&mut decoder, &events);
    assert_eq!(outs[65], Some(IrCommand { address: 0x07, command: 0x09 }));

    let mut decoder = NecDecoder::new();
    let mut events = frame_events(nec_word(0x07, 0x09));
    events[0].0 = 3999;
    let outs = feed(&mut decoder, &events);
    assert!(outs.iter().all(|o| o.is_none()));
}

#[test]
fn bad_bit_space_abandons_frame_and_next_frame_decodes() {
    let mut decoder = NecDecoder::new();
    let mut events = frame_events(nec_word(0x00, 0x1C));
    // 500 counts is neither a 0 (<= 400) nor a 1 (600..=1000).
    events[5].0 = 500;
    let outs = feed(&mut decoder, &events);
    assert!(outs.iter().all(|o| o.is_none()));
    let outs = feed(&mut decoder, &frame_events(nec_word(0x00, 0x47)));
    assert_eq!(outs[65], Some(IrCommand { address: 0x00, command: 0x47 }));
}

#[test]
fn wrong_polarity_resets_mid_frame() {
    let mut decoder = NecDecoder::new();
    let mut events = frame_events(nec_word(0x00, 0x1C));
    events[10].1 = false;
    let outs = feed(&mut decoder, &events);
    assert!(outs.iter().all(|o| o.is_none()));
}

#[test]
fn leader_space_out_of_range_resets() {
    let mut decoder = NecDecoder::new();
    assert_eq!(decoder.process(LEADER_PULSE, true), None);
    assert_eq!(decoder.process(1500, false), None);
    // The decoder is waiting for a leader pulse again: a frame decodes.
    let outs = feed(&mut decoder, &frame_events(nec_word(0x00, 0x5A)));
    assert_eq!(outs[65], Some(IrCommand { address: 0x00, command: 0x5A }));
}

#[test]
fn reset_discards_partial_frame() {
    let mut decoder = NecDecoder::new();
    let events = frame_events(nec_word(0x00, 0x1C));
    feed(&mut decoder, &events[..20]);
    decoder.reset();
    let outs = feed(&mut decoder, &events);
    assert_eq!(outs[65], Some(IrCommand { address: 0x00, command: 0x1C }));
}

#[test]
fn fifo_words_carry_duration_and_polarity() {
    let mut decoder = NecDecoder::new();
    let word = nec_word(0x00, 0x08);
    let mut last = None;
    for (duration, is_pulse) in frame_events(word) {
        let fifo_word = (duration << 1) | if is_pulse { 0 } else { 1 };
        last = decoder.process_word(fifo_word);
    }
    assert_eq!(last, Some(IrCommand { address: 0x00, command: 0x08 }));
}

#[test]
fn fifo_word_with_space_polarity_is_not_a_pulse() {
    let mut decoder = NecDecoder::new();
    // A leader-pulse length reported as a space does not start a frame.
    assert_eq!(decoder.process_word((LEADER_PULSE << 1) | 1), None);
    assert_eq!(decoder.process_word(LEADER_SPACE << 1 | 1), None);
    let mut last = None;
    for (duration, is_pulse) in frame_events(nec_word(0x00, 0x15)) {
        last = decoder.process_word((duration << 1) | if is_pulse { 0 } else { 1 });
    }
    assert_eq!(last, Some(IrCommand { address: 0x00, command: 0x15 }));
}

#[test]
fn decode_command_checks_only_command_complement() {
    let mut decoder = NecDecoder::new();
    assert_eq!(decoder.decode_command(), None);
    let outs = feed(&mut decoder, &frame_events(nec_word(0x10, 0x20)));
    assert_eq!(outs[65], Some(IrCommand { address: 0x10, command: 0x20 }));
}

#[test]
fn button_names() {
    assert_eq!(name_of(KEY_0), "KEY_0");
    assert_eq!(name_of(0x45), "KEY_1");
    assert_eq!(name_of(0x46), "KEY_2");
    assert_eq!(name_of(0x47), "KEY_3");
    assert_eq!(name_of(0x44), "KEY_4");
    assert_eq!(name_of(0x40), "KEY_5");
    assert_eq!(name_of(0x43), "KEY_6");
    assert_eq!(name_of(0x07), "KEY_7");
    assert_eq!(name_of(0x15), "KEY_8");
    assert_eq!(name_of(0x09), "KEY_9");
    assert_eq!(name_of(KEY_STAR), "KEY_STAR");
    assert_eq!(name_of(KEY_HASH), "KEY_HASH");
    assert_eq!(name_of(KEY_UP), "KEY_UP");
    assert_eq!(name_of(0x52), "KEY_DOWN");
    assert_eq!(name_of(0x08), "KEY_LEFT");
    assert_eq!(name_of(0x5A), "KEY_RIGHT");
    assert_eq!(name_of(KEY_OK), "KEY_OK");
}

#[test]
fn unknown_codes_have_no_button_name() {
    assert_eq!(name_of(0x00), "UNKNOWN");
    assert_eq!(name_of(0xFF), "UNKNOWN");
    assert_eq!(name_of(0x0C), "UNKNOWN");
}

#[test]
fn ir_program_machine_code() {
    let program = build_ir_program();
    let expected: [u16; 20] = [
        0x00C0, // jmp pin, wait_start
        0xE040, // set y, 0
        0xA02B, // mov x, ~null
        0x00C5, // count_low: jmp pin, low_done
        0x0043, // jmp x--, count_low
        0xA0C9, // low_done: mov isr, ~x
        0x4041, // in y, 1
        0x8000, // push noblock
        0xE041, // set y, 1
        0xA02B, // mov x, ~null
        0x00CF, // count_high: jmp pin, cont_high
        0xA0C9, // mov isr, ~x
        0x4041, // in y, 1
        0x8000, // push noblock
        0x0000, // jmp wait_start
        0x004A, // cont_high: jmp x--, count_high
        0xA0C9, // mov isr, ~x
        0x4041, // in y, 1
        0x8000, // push noblock
        0x0000, // jmp wait_start
    ];
    assert_eq!(program.code.as_slice(), &expected[..]);
    assert_eq!(program.wrap.source, 19);
    assert_eq!(program.wrap.target, 0);
    assert_eq!(program.origin, None);
}

#[test]
fn dropped_value_costs_at_most_one_frame() {
    let mut decoder = NecDecoder::new();
    let mut corrupted = frame_events(nec_word(0x00, 0x1C));
    corrupted.remove(20);
    let outs = feed(&mut decoder, &corrupted);
    assert!(outs.iter().all(|o| o.is_none()));
    // The next frame may be lost while the decoder gets back in step ...
    let outs = feed(&mut decoder, &frame_events(nec_word(0x00, 0x44)));
    assert!(outs[..65].iter().all(|o| o.is_none()));
    assert!(outs[65].is_none() || outs[65] == Some(IrCommand { address: 0x00, command: 0x44 }));
    // ... and the one after it decodes.
    let outs = feed(&mut decoder, &frame_events(nec_word(0x00, 0x40)));
    assert_eq!(outs[65], Some(IrCommand { address: 0x00, command: 0x40 }));
}

#[test]
fn frame_fed_mid_frame_is_lost_but_resynchronizes() {
    let mut decoder = NecDecoder::new();
    let events = frame_events(nec_word(0x00, 0x1C));
    feed(&mut decoder, &events[..7]);
    let outs = feed(&mut decoder, &events);
    assert!(outs.iter().all(|o| o.is_none()));
    let outs = feed(&mut decoder, &events);
    assert_eq!(outs[65], Some(IrCommand { address: 0x00, command: 0x1C }));
}

#[test]
fn waiting_decoder_absorbs_non_leader_values() {
    let mut decoder = NecDecoder::new();
    for &(d, p) in &[(281u32, true), (2250, false), (3999, true), (5001, true), (4500, false), (0, true)] {
        assert_eq!(decoder.process(d, p), None);
    }
    let outs = feed(&mut decoder, &frame_events(nec_word(0x00, 0x09)));
    assert_eq!(outs[65], Some(IrCommand { address: 0x00, command: 0x09 }));
}
