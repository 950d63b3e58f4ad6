# pico_project

IR remote decoding, LED timing, buzzer tones and display text for a PicoBricks
board (Raspberry Pi Pico W), as a verified library plus the firmware around it.

- `src/ir_nec_pio.rs`: NEC decoding of the pulse/space durations measured by
  PIO1 (`NecDecoder`), with the button names (`buttons.rs`), the PIO program
  built with the `pio` assembler (`program.rs`), and proofs about whole
  frames, repeat frames and resynchronisation (`frame.rs`).
- `src/ir_remote.rs`: NEC decoding by polling the receiver pin every 50 µs
  (`IrRemote`), with proofs about sampled frames and the edge timeout (`frame.rs`).
- `src/main_core1.rs`, `src/core_1.rs`, `src/clock.rs`: LED blink timing and the
  core 1 polling loop, on the wrapping microsecond timer, with a proof of the
  LED level over any run of the loop.
- `src/rgb_led.rs`: the colour sequence stepper for the WS2812 LED.
- `src/buzzer.rs`: tone planning and the two sounds.
- `src/oled.rs`: the header text and button name shown on the OLED.
- `app/`: the firmware: board bring-up, the polling core 1 that `main` starts,
  the interrupt-driven core 1 and OLED output kept beside it, and the drivers
  that perform what the library decides.
