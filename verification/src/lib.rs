//! IR remote decoding, LED timing, sounds and display text for a PicoBricks
//! (Raspberry Pi Pico W) board.
pub mod buzzer;
pub mod clock;
pub mod core_1;
pub mod ir_nec_pio;
pub mod ir_remote;
pub mod main_core1;
pub mod oled;
pub mod rgb_led;
