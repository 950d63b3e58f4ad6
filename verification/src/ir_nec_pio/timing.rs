//! NEC timing thresholds, in PIO counts of 2 µs each.
use vstd::prelude::*;

verus! {

/// Shortest accepted leader pulse (9 ms nominal = 4500 counts).
pub const LEADER_PULSE_MIN: u32 = 4000;
/// Longest accepted leader pulse.
pub const LEADER_PULSE_MAX: u32 = 5000;
/// Shortest accepted leader space (4.5 ms nominal = 2250 counts).
pub const LEADER_SPACE_MIN: u32 = 2000;
/// Longest accepted leader space.
pub const LEADER_SPACE_MAX: u32 = 2500;
/// Shortest accepted repeat-frame space (2.25 ms nominal = 1125 counts).
pub const REPEAT_SPACE_MIN: u32 = 900;
/// Longest accepted repeat-frame space.
pub const REPEAT_SPACE_MAX: u32 = 1300;
/// Shortest accepted bit pulse (562.5 µs nominal = 281 counts).
pub const BIT_PULSE_MIN: u32 = 200;
/// Longest accepted bit pulse.
pub const BIT_PULSE_MAX: u32 = 400;
/// Longest space that still encodes a 0 bit.
pub const BIT_ZERO_SPACE_MAX: u32 = 400;
/// Shortest space that encodes a 1 bit (1687.5 µs nominal = 844 counts).
pub const BIT_ONE_SPACE_MIN: u32 = 600;
/// Longest space that encodes a 1 bit.
pub const BIT_ONE_SPACE_MAX: u32 = 1000;

} // verus!
