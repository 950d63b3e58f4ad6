//! Core 1 housekeeping: the LED blink that acknowledges each decoded command.
//!
//! Core 1 sleeps until the PIO interrupt has decoded commands or the
//! housekeeping alarm fires; each decoded command restarts a 100 ms blink of
//! the simple LED, and each wake-up switches the LED off once the blink is over.
use vstd::prelude::*;

use crate::clock::{elapsed_us, spec_elapsed_us};

verus! {

/// How long the LED stays on after a command, in microseconds.
pub const BLINK_DURATION_US: u32 = 100_000;

/// LED blink state: whether the LED is lit and when it was switched on.
pub struct LedBlinker {
    on: bool,
    start_time: u32,
}

/// The abstract state of a `LedBlinker`.
pub struct LedBlinkerView {
    pub on: bool,
    pub start_time: u32,
}

impl View for LedBlinker {
    type V = LedBlinkerView;

    closed spec fn view(&self) -> LedBlinkerView {
        LedBlinkerView { on: self.on, start_time: self.start_time }
    }
}

/// Whether a blink lit at `start_time` is over at `now`.
pub open spec fn blink_expired(start_time: u32, now: u32) -> bool {
    spec_elapsed_us(start_time, now) >= BLINK_DURATION_US
}

/// The blink state after checking it at `now`: a lit LED whose blink is over goes dark.
pub open spec fn blink_update(b: LedBlinkerView, now: u32) -> LedBlinkerView {
    if b.on && blink_expired(b.start_time, now) {
        LedBlinkerView { on: false, ..b }
    } else {
        b
    }
}

impl LedBlinker {
    /// A dark LED.
    pub fn new() -> (r: Self)
        ensures
            r@ == (LedBlinkerView { on: false, start_time: 0 }),
    {
        Self { on: false, start_time: 0 }
    }

    /// Starts (or restarts) a blink at `now`; the caller drives the LED high.
    pub fn trigger(&mut self, now: u32)
        ensures
            final(self)@ == (LedBlinkerView { on: true, start_time: now }),
    {
        self.on = true;
        self.start_time = now;
    }

    /// Checks the blink at `now`. Returns true when the blink has just ended and
    /// the caller must drive the LED low.
    pub fn update(&mut self, now: u32) -> (switch_off: bool)
        ensures
            final(self)@ == blink_update(old(self)@, now),
            switch_off == (old(self)@.on && blink_expired(old(self)@.start_time, now)),
    {
        if self.on {
            let elapsed = elapsed_us(self.start_time, now);
            if elapsed >= BLINK_DURATION_US {
                self.on = false;
                return true;
            }
        }
        false
    }

    /// Whether the LED is lit.
    pub fn is_on(&self) -> (r: bool)
        ensures
            r == self@.on,
    {
        self.on
    }
}

/// A blink triggered at `start` is still lit when checked at any `now` less
/// than 100 ms later (timer roll-over included), and goes dark at the first
/// check 100 ms or more after it.
pub proof fn lemma_blink_lasts(start: u32, now: u32)
    ensures
        blink_update(LedBlinkerView { on: true, start_time: start }, now).on == (spec_elapsed_us(start, now) < BLINK_DURATION_US),
{
}

} // verus!
