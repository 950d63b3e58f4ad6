//! NEC IR decoding by polling the receiver pin at a fixed sample rate.
//!
//! NEC protocol timing (38 kHz carrier):
//! - Leader: 9 ms pulse + 4.5 ms space
//! - Repeat: 9 ms pulse + 2.25 ms space
//! - Bit 0: 562.5 µs pulse + 562.5 µs space
//! - Bit 1: 562.5 µs pulse + 1.6875 ms space
//! - 32 bits: address (8) + ~address (8) + command (8) + ~command (8)
use vstd::prelude::*;

pub mod buttons;
pub mod bytes;
pub mod frame;

use crate::ir_nec_pio::{decode_word, lemma_xor_complement, shift_in_bit, word_byte};

verus! {

/// Sample period in microseconds: poll the IR receiver at this rate.
pub const SAMPLE_PERIOD_US: u32 = 50;

/// 8 ms: shortest leader pulse, in samples.
pub const LEADER_PULSE_MIN: u16 = 160;
/// 10 ms: longest leader pulse.
pub const LEADER_PULSE_MAX: u16 = 200;
/// 4 ms: shortest leader space.
pub const LEADER_SPACE_MIN: u16 = 80;
/// 5 ms: longest leader space.
pub const LEADER_SPACE_MAX: u16 = 100;
/// 400 µs: shortest bit pulse.
pub const BIT_PULSE_MIN: u16 = 8;
/// 800 µs: longest bit pulse.
pub const BIT_PULSE_MAX: u16 = 16;
/// 800 µs: a space no longer than this encodes 0.
pub const BIT_ZERO_SPACE_MAX: u16 = 16;
/// 1 ms: a space at least this long (and at most `BIT_ONE_SPACE_MAX`) encodes 1.
pub const BIT_ONE_SPACE_MIN: u16 = 20;
/// 2 ms: longest space that encodes 1.
pub const BIT_ONE_SPACE_MAX: u16 = 40;
/// Samples without an edge after which a partial frame is abandoned.
pub const EDGE_TIMEOUT_SAMPLES: u16 = 300;

/// Receiver states.
#[derive(Debug, Clone, Copy, PartialEq, Eq, Structural)]
pub enum State {
    Idle,
    LeaderPulse,
    LeaderSpace,
    BitPulse,
    BitSpace,
}

/// Decoded NEC command with address and command bytes.
#[derive(Debug, Clone, Copy, PartialEq, Eq, Structural)]
pub struct IrCommand {
    pub address: u8,
    pub command: u8,
}

/// NEC IR receiver using polling-based decoding.
pub struct IrRemote {
    state: State,
    sample_count: u16,
    bits_received: u8,
    data: u32,
    last_pin_state: bool,
}

/// The abstract state of an `IrRemote`.
pub struct IrRemoteView {
    pub state: State,
    pub sample_count: u16,
    pub bits_received: u8,
    pub data: u32,
    pub last_pin_state: bool,
}

impl View for IrRemote {
    type V = IrRemoteView;

    closed spec fn view(&self) -> IrRemoteView {
        IrRemoteView {
            state: self.state,
            sample_count: self.sample_count,
            bits_received: self.bits_received,
            data: self.data,
            last_pin_state: self.last_pin_state,
        }
    }
}

/// A pulse held for this many samples after its edge can start a frame.
pub open spec fn is_leader_pulse_count(count: int) -> bool {
    LEADER_PULSE_MIN <= count <= LEADER_PULSE_MAX
}

/// A leader space of this many samples announces 32 data bits.
pub open spec fn is_leader_space_count(count: int) -> bool {
    LEADER_SPACE_MIN <= count <= LEADER_SPACE_MAX
}

/// A pulse of this many samples starts a data bit.
pub open spec fn is_bit_pulse_count(count: int) -> bool {
    BIT_PULSE_MIN <= count <= BIT_PULSE_MAX
}

/// The bit that a space of this many samples encodes, if any.
pub open spec fn space_count_bit(count: int) -> Option<u32> {
    if count <= BIT_ZERO_SPACE_MAX {
        Some(0)
    } else if BIT_ONE_SPACE_MIN <= count <= BIT_ONE_SPACE_MAX {
        Some(1)
    } else {
        None
    }
}

/// The command a complete 32-bit word carries, as `decode_word` reads it.
pub open spec fn remote_decode_word(data: u32) -> Option<IrCommand> {
    match decode_word(data) {
        Some(c) => Some(IrCommand { address: c.address, command: c.command }),
        None => None,
    }
}

/// The receiver after a reset: idle, counters cleared, pin level remembered.
pub open spec fn remote_reset(m: IrRemoteView) -> IrRemoteView {
    IrRemoteView { state: State::Idle, sample_count: 0, bits_received: 0, data: 0, last_pin_state: m.last_pin_state }
}

/// What the receiver does at a level change, `count` samples after the previous one.
pub open spec fn remote_edge(m: IrRemoteView, count: u16, ir_active: bool) -> (IrRemoteView, Option<IrCommand>) {
    match m.state {
        State::Idle => {
            if ir_active {
                (IrRemoteView { state: State::LeaderPulse, ..m }, None)
            } else {
                (m, None)
            }
        },
        State::LeaderPulse => {
            if ir_active {
                (m, None)
            } else if is_leader_pulse_count(count as int) {
                (IrRemoteView { state: State::LeaderSpace, ..m }, None)
            } else {
                (remote_reset(m), None)
            }
        },
        State::LeaderSpace => {
            if !ir_active {
                (m, None)
            } else if is_leader_space_count(count as int) {
                (IrRemoteView { state: State::BitPulse, bits_received: 0, data: 0, ..m }, None)
            } else {
                (remote_reset(m), None)
            }
        },
        State::BitPulse => {
            if ir_active {
                (m, None)
            } else if is_bit_pulse_count(count as int) {
                (IrRemoteView { state: State::BitSpace, ..m }, None)
            } else {
                (remote_reset(m), None)
            }
        },
        State::BitSpace => {
            if !ir_active {
                (m, None)
            } else if space_count_bit(count as int) is Some {
                let data = shift_in_bit(m.data, space_count_bit(count as int)->0);
                if m.bits_received + 1 == 32 {
                    (remote_reset(m), remote_decode_word(data))
                } else {
                    (
                        IrRemoteView {
                            state: State::BitPulse,
                            bits_received: (m.bits_received + 1) as u8,
                            data,
                            ..m
                        },
                        None,
                    )
                }
            } else {
                (remote_reset(m), None)
            }
        },
    }
}

/// One sample of the receiver: the next state and the command completed, if any.
/// `ir_active` is true while IR is detected (pin low).
pub open spec fn remote_step(m: IrRemoteView, ir_active: bool) -> (IrRemoteView, Option<IrCommand>) {
    if ir_active != m.last_pin_state {
        remote_edge(
            IrRemoteView { sample_count: 0, last_pin_state: ir_active, ..m },
            m.sample_count,
            ir_active,
        )
    } else {
        let count: u16 = if m.sample_count == u16::MAX { u16::MAX } else { (m.sample_count + 1) as u16 };
        let m1 = IrRemoteView { sample_count: count, ..m };
        if count > EDGE_TIMEOUT_SAMPLES && m.state != State::Idle {
            (remote_reset(m1), None)
        } else {
            (m1, None)
        }
    }
}

impl IrRemote {
    #[verifier::type_invariant]
    spec fn bits_in_range(self) -> bool {
        self.bits_received < 32
    }

    /// An idle receiver with the pin last seen inactive.
    pub fn new() -> (r: Self)
        ensures
            r@ == (IrRemoteView {
                state: State::Idle,
                sample_count: 0,
                bits_received: 0,
                data: 0,
                last_pin_state: false,
            }),
    {
        Self { state: State::Idle, sample_count: 0, bits_received: 0, data: 0, last_pin_state: false }
    }

    /// Polls with the raw pin state (true = IR signal detected, i.e. pin low).
    /// Returns the command when this sample completes a valid frame.
    pub fn poll_raw(&mut self, ir_active: bool) -> (r: Option<IrCommand>)
        ensures
            (final(self)@, r) == remote_step(old(self)@, ir_active),
    {
        proof {
            use_type_invariant(&*self);
        }
        let edge = ir_active != self.last_pin_state;
        self.last_pin_state = ir_active;

        if edge {
            let count = self.sample_count;
            self.sample_count = 0;

            match self.state {
                State::Idle => {
                    if ir_active {
                        // Rising edge: start of leader pulse.
                        self.state = State::LeaderPulse;
                    }
                },
                State::LeaderPulse => {
                    if !ir_active {
                        // Falling edge: end of leader pulse.
                        if (LEADER_PULSE_MIN..=LEADER_PULSE_MAX).contains(&count) {
                            self.state = State::LeaderSpace;
                        } else {
                            self.reset();
                        }
                    }
                },
                State::LeaderSpace => {
                    if ir_active {
                        // Rising edge: end of leader space.
                        if (LEADER_SPACE_MIN..=LEADER_SPACE_MAX).contains(&count) {
                            self.state = State::BitPulse;
                            self.bits_received = 0;
                            self.data = 0;
                        } else {
                            self.reset();
                        }
                    }
                },
                State::BitPulse => {
                    if !ir_active {
                        // Falling edge: end of bit pulse.
                        if (BIT_PULSE_MIN..=BIT_PULSE_MAX).contains(&count) {
                            self.state = State::BitSpace;
                        } else {
                            self.reset();
                        }
                    }
                },
                State::BitSpace => {
                    if ir_active {
                        // Rising edge: end of bit space, decode the bit.
                        let bit: u32 = if count <= BIT_ZERO_SPACE_MAX {
                            0
                        } else if (BIT_ONE_SPACE_MIN..=BIT_ONE_SPACE_MAX).contains(&count) {
                            1
                        } else {
                            self.reset();
                            return None;
                        };

                        self.data = (self.data >> 1) | (bit << 31);
                        let received = self.bits_received + 1;

                        if received == 32 {
                            let result = self.decode_command();
                            self.reset();
                            return result;
                        } else {
                            self.bits_received = received;
                            self.state = State::BitPulse;
                        }
                    }
                },
            }
        } else {
            // No edge: count the sample (saturating).
            self.sample_count = self.sample_count.saturating_add(1);

            // Timeout: waiting too long for an edge abandons the frame.
            if self.sample_count > EDGE_TIMEOUT_SAMPLES && self.state != State::Idle {
                self.reset();
            }
        }

        None
    }

    /// Returns to idle, discarding any partial frame; the pin level is kept.
    pub fn reset(&mut self)
        ensures
            final(self)@ == remote_reset(old(self)@),
    {
        proof {
            use_type_invariant(&*self);
        }
        self.state = State::Idle;
        self.sample_count = 0;
        self.bits_received = 0;
        self.data = 0;
    }

    /// The command carried by the 32 received bits, if its checksum holds.
    pub fn decode_command(&self) -> (r: Option<IrCommand>)
        ensures
            r == remote_decode_word(self@.data),
    {
        // NEC format: address (8) + ~address (8) + command (8) + ~command (8)
        let address = (self.data & 0xFF) as u8;
        let _address_inv = ((self.data >> 8) & 0xFF) as u8;
        let command = ((self.data >> 16) & 0xFF) as u8;
        let command_inv = ((self.data >> 24) & 0xFF) as u8;
        proof {
            let data = self.data;
            assert((data >> 0u32) & 0xFF == data & 0xFF) by (bit_vector);
            assert(word_byte(data, 0) == address);
            assert(word_byte(data, 2) == command);
            assert(word_byte(data, 3) == command_inv);
            lemma_xor_complement(command, command_inv);
        }
        // Only the command is validated: extended NEC remotes use a 16-bit address.
        if command ^ command_inv == 0xFF {
            Some(IrCommand { address, command })
        } else {
            None
        }
    }
}

impl Default for IrRemote {
    fn default() -> (r: Self)
        ensures
            r@ == (IrRemoteView {
                state: State::Idle,
                sample_count: 0,
                bits_received: 0,
                data: 0,
                last_pin_state: false,
            }),
    {
        Self::new()
    }
}

} // verus!
