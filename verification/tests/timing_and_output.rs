use pico_project::buzzer::{error_beep_sounds, plan_tone, zelda_chest_sounds, Sound, TonePlan};
use pico_project::clock::{delay_done, elapsed_us};
use pico_project::core_1::Core1Task;
use pico_project::ir_nec_pio::IrCommand;
use pico_project::main_core1::{LedBlinker, BLINK_DURATION_US};
use pico_project::oled::{command_header, command_lines, HEADER_CAPACITY};
use pico_project::rgb_led::{LedSequenceStepper, PicoBricksLedStepper, PicoBricksRgbLedSequence};
use smart_leds::RGB8;

#[test]
fn elapsed_handles_timer_rollover() {
    assert_eq!(elapsed_us(1000, 1500), 500);
    assert_eq!(elapsed_us(u32::MAX - 9, 10), 20);
    assert_eq!(elapsed_us(7, 7), 0);
}

#[test]
fn delay_is_done_after_the_requested_time() {
    assert!(!delay_done(10, 59, 50));
    assert!(delay_done(10, 60, 50));
    assert!(delay_done(u32::MAX - 20, 29, 50));
    assert!(!delay_done(u32::MAX - 20, 28, 50));
    assert!(delay_done(5, 5, 0));
}

#[test]
fn blink_lasts_one_hundred_milliseconds() {
    assert_eq!(BLINK_DURATION_US, 100_000);
    let mut led = LedBlinker::new();
    assert!(!led.is_on());
    assert!(!led.update(123_456));
    led.trigger(1_000);
    assert!(led.is_on());
    assert!(!led.update(1_000 + 99_999));
    assert!(led.is_on());
    assert!(led.update(1_000 + 100_000));
    assert!(!led.is_on());
    assert!(!led.update(1_000 + 200_000));
}

#[test]
fn blink_survives_timer_rollover() {
    let mut led = LedBlinker::new();
    led.trigger(u32::MAX - 50_000);
    assert!(!led.update(49_998));
    assert!(led.update(49_999));
}

#[test]
fn retrigger_restarts_the_blink() {
    let mut led = LedBlinker::new();
    led.trigger(0);
    led.trigger(90_000);
    assert!(!led.update(150_000));
    assert!(led.update(190_000));
}

fn sample_frame(command: u8) -> Vec<bool> {
    let word = ((command as u32) << 16) | ((!command as u32) << 24) | (0xFFu32 << 8);
    let mut counts: Vec<u16> = vec![180, 90];
    for i in 0..32 {
        counts.push(11);
        counts.push(if (word >> i) & 1 == 1 { 33 } else { 11 });
    }
    let mut samples = Vec::new();
    for (j, &count) in counts.iter().enumerate() {
        for _ in 0..=count {
            samples.push(j % 2 == 0);
        }
    }
    samples.push(true);
    samples
}

#[test]
fn core1_blinks_led_after_a_command() {
    let mut task = Core1Task::new();
    let samples = sample_frame(0x1C);
    let mut now: u32 = 0;
    for &s in &samples {
        assert!(!task.step(now, s));
        now += 50;
    }
    // The command was decoded on the last sample: the LED shows from the next step.
    let decoded_at = now - 50;
    assert!(task.step(now, true));
    now += 50;
    while now.wrapping_sub(decoded_at) < 100_000 {
        assert!(task.step(now, true));
        now += 50;
    }
    assert!(!task.step(now, true));
}

#[test]
fn core1_stays_dark_without_commands() {
    let mut task = Core1Task::new();
    for i in 0..5000u32 {
        assert!(!task.step(i * 50, i % 7 == 0));
    }
}

#[test]
fn command_header_formats_hex_bytes() {
    let header = command_header(IrCommand { address: 0x00, command: 0x1C });
    assert_eq!(header, "IR: 0x00 0x1C");
    let header = command_header(IrCommand { address: 0xAB, command: 0x0D });
    assert_eq!(header, "IR: 0xAB 0x0D");
    let header = command_header(IrCommand { address: 0xFF, command: 0xF0 });
    assert_eq!(header, "IR: 0xFF 0xF0");
    assert!(header.len() <= HEADER_CAPACITY);
}

#[test]
fn command_lines_name_the_button() {
    let (header, name) = command_lines(IrCommand { address: 0x00, command: 0x18 });
    assert_eq!(header, "IR: 0x00 0x18");
    assert_eq!(name, "KEY_UP");
    let (_, name) = command_lines(IrCommand { address: 0x00, command: 0x99 });
    assert_eq!(name, "UNKNOWN");
}

#[test]
fn silent_note_waits_its_duration() {
    assert_eq!(plan_tone(0, 250), TonePlan::Silence { duration_ms: 250 });
    assert_eq!(plan_tone(0, u32::MAX), TonePlan::Silence { duration_ms: u32::MAX });
}

#[test]
fn tone_plans_whole_periods() {
    assert_eq!(plan_tone(400, 150), TonePlan::Square { half_period_us: 1250, cycles: 60 });
    assert_eq!(plan_tone(440, 100), TonePlan::Square { half_period_us: 1136, cycles: 44 });
    assert_eq!(plan_tone(880, 600), TonePlan::Square { half_period_us: 568, cycles: 528 });
    assert_eq!(plan_tone(500_000, 10), TonePlan::Square { half_period_us: 1, cycles: 5000 });
    assert_eq!(plan_tone(1, 1), TonePlan::Square { half_period_us: 500_000, cycles: 0 });
}

#[test]
fn error_beep_is_a_descending_third() {
    assert_eq!(
        error_beep_sounds(),
        [
            Sound::Tone { freq_hz: 400, duration_ms: 150 },
            Sound::Pause { duration_ms: 50 },
            Sound::Tone { freq_hz: 320, duration_ms: 300 },
        ]
    );
}

#[test]
fn chest_sound_is_an_arpeggio() {
    assert_eq!(
        zelda_chest_sounds(),
        [
            Sound::Tone { freq_hz: 440, duration_ms: 100 },
            Sound::Tone { freq_hz: 554, duration_ms: 100 },
            Sound::Tone { freq_hz: 659, duration_ms: 100 },
            Sound::Tone { freq_hz: 880, duration_ms: 600 },
        ]
    );
}

fn rainbow() -> PicoBricksRgbLedSequence<5> {
    [
        [RGB8::new(32, 0, 0)],
        [RGB8::new(0, 32, 0)],
        [RGB8::new(0, 0, 32)],
        [RGB8::new(12, 12, 12)],
        [RGB8::new(0, 0, 0)],
    ]
}

#[test]
fn stepper_draws_first_step_immediately() {
    let mut stepper: PicoBricksLedStepper<5> = LedSequenceStepper::new(rainbow(), 300);
    assert_eq!(stepper.update(7_000_000), Some(0));
    assert_eq!(stepper.step_colors(0), &[RGB8::new(32, 0, 0)]);
    assert_eq!(stepper.update(7_000_001), None);
}

#[test]
fn stepper_advances_each_step_duration_and_wraps() {
    let mut stepper: PicoBricksLedStepper<5> = LedSequenceStepper::new(rainbow(), 300);
    let mut now: u32 = 1_000;
    assert_eq!(stepper.update(now), Some(0));
    let mut drawn = Vec::new();
    for _ in 0..6 {
        assert_eq!(stepper.update(now + 299_999), None);
        now += 300_000;
        drawn.push(stepper.update(now).unwrap());
    }
    assert_eq!(drawn, vec![1, 2, 3, 4, 0, 1]);
    assert_eq!(stepper.step_colors(3), &[RGB8::new(12, 12, 12)]);
}

#[test]
fn stepper_survives_timer_rollover() {
    let mut stepper: PicoBricksLedStepper<5> = LedSequenceStepper::new(rainbow(), 300);
    assert_eq!(stepper.update(u32::MAX - 100_000), Some(0));
    assert_eq!(stepper.update(199_998), None);
    assert_eq!(stepper.update(199_999), Some(1));
}

#[test]
fn stepper_duration_saturates() {
    let mut stepper: PicoBricksLedStepper<5> = LedSequenceStepper::new(rainbow(), u32::MAX);
    assert_eq!(stepper.update(0), Some(0));
    assert_eq!(stepper.update(u32::MAX - 1), None);
    assert_eq!(stepper.update(u32::MAX), Some(1));
}

#[test]
fn stepper_with_longer_chain() {
    let seq = [[RGB8::new(1, 2, 3), RGB8::new(4, 5, 6)], [RGB8::new(7, 8, 9), RGB8::new(0, 0, 0)]];
    let mut stepper: LedSequenceStepper<2, 2> = LedSequenceStepper::new(seq, 1);
    assert_eq!(stepper.update(0), Some(0));
    assert_eq!(stepper.update(1_000), Some(1));
    assert_eq!(stepper.step_colors(1), &[RGB8::new(7, 8, 9), RGB8::new(0, 0, 0)]);
    assert_eq!(stepper.update(2_000), Some(0));
}
