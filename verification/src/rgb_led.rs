//! Non-blocking stepping through a sequence of colours for an addressable LED chain.
use vstd::prelude::*;

use smart_leds::RGB8;

use crate::clock::{elapsed_us, spec_elapsed_us};

verus! {

#[verifier::external_type_specification]
#[verifier::external_body]
#[verifier::reject_recursive_types(ComponentType)]
pub struct ExRgb<ComponentType>(smart_leds::RGB<ComponentType>);

/// One colour for each LED in the chain: what one write to the chain sends.
pub type LedChainUpdate<const LED_CHAIN_LENGTH: usize> = [RGB8; LED_CHAIN_LENGTH];

/// One chain update for each step of a sequence.
pub type LedChainSequence<const LED_CHAIN_LENGTH: usize, const SEQUENCE_LENGTH: usize> = [[RGB8; LED_CHAIN_LENGTH]; SEQUENCE_LENGTH];

/// The PicoBricks built-in LED "chain" has a single WS2812 LED.
pub type PicoBricksRgbLedSequence<const SEQUENCE_LENGTH: usize> = [[RGB8; 1]; SEQUENCE_LENGTH];

/// Non-blocking sequence stepper.
///
/// Owns the colour sequence and the timestamp (microseconds since boot) at
/// which the current step was last drawn. `update` draws nothing unless enough
/// time has passed to advance. The first call draws step 0 so the LED is never
/// left dark waiting out the initial interval.
pub struct LedSequenceStepper<const LED_CHAIN_LENGTH: usize, const SEQUENCE_LENGTH: usize> {
    sequence: [[RGB8; LED_CHAIN_LENGTH]; SEQUENCE_LENGTH],
    step_duration_us: u32,
    current_step: usize,
    last_step_us: u32,
    first_update: bool,
}

/// The stepper for the PicoBricks single-LED chain.
pub type PicoBricksLedStepper<const SEQUENCE_LENGTH: usize> = LedSequenceStepper<1, SEQUENCE_LENGTH>;

/// The timing state of a `LedSequenceStepper`.
pub struct LedStepperView {
    pub step_duration_us: u32,
    pub current_step: usize,
    pub last_step_us: u32,
    pub first_update: bool,
}

/// `ms` milliseconds in microseconds, saturating at `u32::MAX`.
pub open spec fn ms_to_us_saturating(ms: u32) -> u32 {
    if ms * 1000 > u32::MAX {
        u32::MAX
    } else {
        (ms * 1000) as u32
    }
}

/// One call of `update` at `now` on a sequence of `len` steps: the next timing
/// state and the step to draw, if any.
pub open spec fn stepper_update(m: LedStepperView, now: u32, len: nat) -> (LedStepperView, Option<usize>) {
    if m.first_update {
        (LedStepperView { first_update: false, last_step_us: now, ..m }, Some(m.current_step))
    } else if spec_elapsed_us(m.last_step_us, now) < m.step_duration_us {
        (m, None)
    } else {
        let next = ((m.current_step + 1) % (len as int)) as usize;
        (LedStepperView { current_step: next, last_step_us: now, ..m }, Some(next))
    }
}

impl<const LED_CHAIN_LENGTH: usize, const SEQUENCE_LENGTH: usize> View for LedSequenceStepper<
    LED_CHAIN_LENGTH,
    SEQUENCE_LENGTH,
> {
    type V = LedStepperView;

    closed spec fn view(&self) -> LedStepperView {
        LedStepperView {
            step_duration_us: self.step_duration_us,
            current_step: self.current_step,
            last_step_us: self.last_step_us,
            first_update: self.first_update,
        }
    }
}

impl<const LED_CHAIN_LENGTH: usize, const SEQUENCE_LENGTH: usize> LedSequenceStepper<
    LED_CHAIN_LENGTH,
    SEQUENCE_LENGTH,
> {
    #[verifier::type_invariant]
    spec fn step_in_range(self) -> bool {
        self.current_step == 0 || self.current_step < SEQUENCE_LENGTH
    }

    /// The colour sequence, one chain update per step.
    pub closed spec fn steps(&self) -> Seq<[RGB8; LED_CHAIN_LENGTH]> {
        self.sequence@
    }

    /// A stepper at step 0 that draws it on the first `update`, then advances
    /// every `step_duration_ms` milliseconds.
    pub fn new(
        sequence: [[RGB8; LED_CHAIN_LENGTH]; SEQUENCE_LENGTH],
        step_duration_ms: u32,
    ) -> (r: Self)
        ensures
            r@ == (LedStepperView {
                step_duration_us: ms_to_us_saturating(step_duration_ms),
                current_step: 0,
                last_step_us: 0,
                first_update: true,
            }),
            r.steps() == sequence@,
    {
        let step_duration_us = match step_duration_ms.checked_mul(1_000) {
            Some(us) => us,
            None => u32::MAX,
        };
        Self { sequence, step_duration_us, current_step: 0, last_step_us: 0, first_update: true }
    }

    /// Checks the stepper at `now` (microseconds since boot, wrapping). Returns
    /// the step whose colours must be written to the chain now: step 0 on the
    /// first call, the next step (cyclically) once a step duration has passed
    /// since the last one was drawn, and nothing otherwise.
    pub fn update(&mut self, now: u32) -> (step: Option<usize>)
        requires
            SEQUENCE_LENGTH > 0,
        ensures
            (final(self)@, step) == stepper_update(old(self)@, now, SEQUENCE_LENGTH as nat),
            final(self).steps() == old(self).steps(),
            final(self)@.current_step < SEQUENCE_LENGTH,
    {
        proof {
            use_type_invariant(&*self);
        }
        if self.first_update {
            self.first_update = false;
            self.last_step_us = now;
            return Some(self.current_step);
        }
        // The wrapping difference tolerates the 32-bit microsecond timer roll-over (~71 min).
        if elapsed_us(self.last_step_us, now) < self.step_duration_us {
            return None;
        }
        self.current_step = (self.current_step + 1) % SEQUENCE_LENGTH;
        self.last_step_us = now;
        Some(self.current_step)
    }

    /// The colours of step `i`.
    pub fn step_colors(&self, i: usize) -> (r: &[RGB8; LED_CHAIN_LENGTH])
        requires
            i < SEQUENCE_LENGTH,
        ensures
            *r == self.steps()[i as int],
    {
        &self.sequence[i]
    }
}

} // verus!
