//! NEC IR decoding from the pulse and space durations that the PIO program measures.
//!
//! The PIO state machine times each low (pulse) and high (space) stretch of the
//! IR receiver's output and pushes `(count << 1) | polarity` words. The decoder
//! here turns that stream of durations into `IrCommand`s: a leader pulse and
//! leader space followed by 32 bit pulse/space pairs, least significant bit
//! first, or a leader pulse and a short space for a repeat frame.
use vstd::prelude::*;

pub mod buttons;
pub mod frame;
pub mod program;
pub mod timing;

use crate::ir_nec_pio::timing::{
    BIT_ONE_SPACE_MAX, BIT_ONE_SPACE_MIN, BIT_PULSE_MAX, BIT_PULSE_MIN, BIT_ZERO_SPACE_MAX,
    LEADER_PULSE_MAX, LEADER_PULSE_MIN, LEADER_SPACE_MAX, LEADER_SPACE_MIN, REPEAT_SPACE_MAX,
    REPEAT_SPACE_MIN,
};

verus! {

/// Decoded NEC command with address and command bytes.
#[derive(Debug, Clone, Copy, PartialEq, Eq, Structural)]
pub struct IrCommand {
    pub address: u8,
    pub command: u8,
}

/// NEC protocol decoder states.
///
/// Sequence: LeaderPulse -> LeaderSpace -> (BitPulse -> BitSpace) x 32.
#[derive(Debug, Clone, Copy, PartialEq, Eq, Structural)]
pub enum DecoderState {
    /// Waiting for the 9 ms pulse that starts every NEC transmission.
    LeaderPulse,
    /// Waiting for the 4.5 ms space (or 2.25 ms repeat space) after the leader pulse.
    LeaderSpace,
    /// Waiting for the 562 µs pulse that starts each data bit.
    BitPulse,
    /// Waiting for the space that encodes the bit value.
    BitSpace,
}

/// NEC protocol decoder state machine.
pub struct NecDecoder {
    state: DecoderState,
    bits_received: u8,
    data: u32,
    /// Most recently decoded valid command, re-emitted on repeat frames.
    last_command: Option<IrCommand>,
}

/// The abstract state of a `NecDecoder`.
pub struct NecDecoderView {
    pub state: DecoderState,
    pub bits_received: u8,
    pub data: u32,
    pub last_command: Option<IrCommand>,
}

impl View for NecDecoder {
    type V = NecDecoderView;

    closed spec fn view(&self) -> NecDecoderView {
        NecDecoderView {
            state: self.state,
            bits_received: self.bits_received,
            data: self.data,
            last_command: self.last_command,
        }
    }
}

/// A pulse of this many counts can start a frame.
pub open spec fn is_leader_pulse(duration: u32) -> bool {
    LEADER_PULSE_MIN <= duration <= LEADER_PULSE_MAX
}

/// A space of this many counts after the leader pulse announces 32 data bits.
pub open spec fn is_leader_space(duration: u32) -> bool {
    LEADER_SPACE_MIN <= duration <= LEADER_SPACE_MAX
}

/// A space of this many counts after the leader pulse marks a repeat frame.
pub open spec fn is_repeat_space(duration: u32) -> bool {
    REPEAT_SPACE_MIN <= duration <= REPEAT_SPACE_MAX
}

/// A pulse of this many counts starts a data bit.
pub open spec fn is_bit_pulse(duration: u32) -> bool {
    BIT_PULSE_MIN <= duration <= BIT_PULSE_MAX
}

/// The bit that a space of this many counts encodes, if any.
pub open spec fn space_bit(duration: u32) -> Option<u32> {
    if duration <= BIT_ZERO_SPACE_MAX {
        Some(0)
    } else if BIT_ONE_SPACE_MIN <= duration <= BIT_ONE_SPACE_MAX {
        Some(1)
    } else {
        None
    }
}

/// Shifts a received bit in at the top: bits arrive least significant first.
pub open spec fn shift_in_bit(data: u32, bit: u32) -> u32 {
    (data >> 1u32) | (bit << 31u32)
}

/// Byte `k` (0 = least significant) of a 32-bit word.
pub open spec fn word_byte(data: u32, k: u32) -> u8 {
    ((data >> (8 * k) as u32) & 0xFF) as u8
}

/// The command that a complete 32-bit NEC word carries: address in byte 0,
/// command in byte 2, and byte 3 must be the complement of the command.
/// Byte 1 is not checked, so extended (16-bit address) remotes also decode.
pub open spec fn decode_word(data: u32) -> Option<IrCommand> {
    let address = word_byte(data, 0);
    let command = word_byte(data, 2);
    let command_inv = word_byte(data, 3);
    if command as int + command_inv as int == 255 {
        Some(IrCommand { address, command })
    } else {
        None
    }
}

/// The decoder after a reset: waiting for a leader pulse, the held command kept.
pub open spec fn reset_view(m: NecDecoderView) -> NecDecoderView {
    NecDecoderView { state: DecoderState::LeaderPulse, bits_received: 0, data: 0, last_command: m.last_command }
}

/// One step of the NEC decoder: the next state and the command emitted, if any,
/// for a pulse (`is_pulse`) or space of `duration` counts.
pub open spec fn nec_step(m: NecDecoderView, duration: u32, is_pulse: bool) -> (NecDecoderView, Option<IrCommand>) {
    match m.state {
        DecoderState::LeaderPulse => {
            if is_pulse && is_leader_pulse(duration) {
                (NecDecoderView { state: DecoderState::LeaderSpace, ..m }, None)
            } else {
                (m, None)
            }
        },
        DecoderState::LeaderSpace => {
            if !is_pulse && is_leader_space(duration) {
                (NecDecoderView { state: DecoderState::BitPulse, bits_received: 0, data: 0, ..m }, None)
            } else if !is_pulse && is_repeat_space(duration) {
                (NecDecoderView { state: DecoderState::LeaderPulse, ..m }, m.last_command)
            } else {
                (reset_view(m), None)
            }
        },
        DecoderState::BitPulse => {
            if is_pulse && is_bit_pulse(duration) {
                (NecDecoderView { state: DecoderState::BitSpace, ..m }, None)
            } else {
                (reset_view(m), None)
            }
        },
        DecoderState::BitSpace => {
            if !is_pulse && space_bit(duration) is Some {
                let data = shift_in_bit(m.data, space_bit(duration)->0);
                if m.bits_received + 1 == 32 {
                    let result = decode_word(data);
                    let last = if result is Some { result } else { m.last_command };
                    (
                        NecDecoderView { state: DecoderState::LeaderPulse, bits_received: 0, data: 0, last_command: last },
                        result,
                    )
                } else {
                    (
                        NecDecoderView {
                            state: DecoderState::BitPulse,
                            bits_received: (m.bits_received + 1) as u8,
                            data,
                            ..m
                        },
                        None,
                    )
                }
            } else {
                (reset_view(m), None)
            }
        },
    }
}

/// The duration that a PIO FIFO word `(count << 1) | polarity` carries.
pub open spec fn fifo_duration(word: u32) -> u32 {
    word >> 1u32
}

/// Whether a PIO FIFO word reports a pulse (polarity 0, pin low) rather than a space.
pub open spec fn fifo_is_pulse(word: u32) -> bool {
    word & 1u32 == 0
}

/// For bytes, `a ^ b == 0xFF` says exactly that `b` is the complement of `a`.
pub proof fn lemma_xor_complement(a: u8, b: u8)
    by (bit_vector)
    ensures
        (a ^ b == 0xFFu8) == (a + b == 255),
{
}

impl NecDecoder {
    #[verifier::type_invariant]
    spec fn bits_in_range(self) -> bool {
        self.bits_received < 32
    }

    /// A decoder waiting for a leader pulse, with no command held.
    pub fn new() -> (r: Self)
        ensures
            r@ == (NecDecoderView {
                state: DecoderState::LeaderPulse,
                bits_received: 0,
                data: 0,
                last_command: None,
            }),
    {
        Self { state: DecoderState::LeaderPulse, bits_received: 0, data: 0, last_command: None }
    }

    /// Processes one duration value from the PIO program.
    /// `is_pulse` is true for a pulse (pin low) and false for a space (pin high).
    /// Returns the command completed by this value: a fully received frame with
    /// a valid checksum, or the held command on a repeat frame.
    pub fn process(&mut self, duration: u32, is_pulse: bool) -> (r: Option<IrCommand>)
        ensures
            (final(self)@, r) == nec_step(old(self)@, duration, is_pulse),
    {
        proof {
            use_type_invariant(&*self);
        }
        match self.state {
            DecoderState::LeaderPulse => {
                if is_pulse && (LEADER_PULSE_MIN..=LEADER_PULSE_MAX).contains(&duration) {
                    self.state = DecoderState::LeaderSpace;
                }
            },
            DecoderState::LeaderSpace => {
                if !is_pulse && (LEADER_SPACE_MIN..=LEADER_SPACE_MAX).contains(&duration) {
                    self.state = DecoderState::BitPulse;
                    self.bits_received = 0;
                    self.data = 0;
                } else if !is_pulse && (REPEAT_SPACE_MIN..=REPEAT_SPACE_MAX).contains(&duration) {
                    // Repeat frame: no data follows, re-emit the held command. The
                    // trailing short pulse is absorbed by LeaderPulse.
                    self.state = DecoderState::LeaderPulse;
                    return self.last_command;
                } else {
                    self.reset();
                }
            },
            DecoderState::BitPulse => {
                if is_pulse && (BIT_PULSE_MIN..=BIT_PULSE_MAX).contains(&duration) {
                    self.state = DecoderState::BitSpace;
                } else {
                    self.reset();
                }
            },
            DecoderState::BitSpace => {
                if !is_pulse {
                    let bit: u32 = if duration <= BIT_ZERO_SPACE_MAX {
                        0
                    } else if (BIT_ONE_SPACE_MIN..=BIT_ONE_SPACE_MAX).contains(&duration) {
                        1
                    } else {
                        self.reset();
                        return None;
                    };
                    self.data = (self.data >> 1) | (bit << 31);
                    let received = self.bits_received + 1;
                    if received == 32 {
                        let result = self.decode_command();
                        self.reset();
                        // Remember only valid commands, so a bad checksum keeps
                        // the previously held command for repeat frames.
                        if result.is_some() {
                            self.last_command = result;
                        }
                        return result;
                    } else {
                        self.bits_received = received;
                        self.state = DecoderState::BitPulse;
                    }
                } else {
                    self.reset();
                }
            },
        }
        None
    }

    /// Processes one word pushed by the PIO program: `(count << 1) | polarity`,
    /// polarity 0 for a pulse and 1 for a space.
    pub fn process_word(&mut self, word: u32) -> (r: Option<IrCommand>)
        ensures
            (final(self)@, r) == nec_step(old(self)@, fifo_duration(word), fifo_is_pulse(word)),
    {
        let is_pulse = (word & 1) == 0;
        let duration = word >> 1;
        self.process(duration, is_pulse)
    }

    /// Returns to waiting for a leader pulse, discarding any partial frame.
    pub fn reset(&mut self)
        ensures
            final(self)@ == reset_view(old(self)@),
    {
        proof {
            use_type_invariant(&*self);
        }
        self.state = DecoderState::LeaderPulse;
        self.bits_received = 0;
        self.data = 0;
    }

    /// The command carried by the 32 received bits, if its checksum holds.
    pub fn decode_command(&self) -> (r: Option<IrCommand>)
        ensures
            r == decode_word(self@.data),
    {
        let address = (self.data & 0xFF) as u8;
        let command = ((self.data >> 16) & 0xFF) as u8;
        let command_inv = ((self.data >> 24) & 0xFF) as u8;
        proof {
            let data = self.data;
            assert((data >> 0u32) & 0xFF == data & 0xFF) by (bit_vector);
            assert(word_byte(data, 0) == address);
            assert(word_byte(data, 2) == command);
            assert(word_byte(data, 3) == command_inv);
            lemma_xor_complement(command, command_inv);
        }
        if command ^ command_inv == 0xFF {
            Some(IrCommand { address, command })
        } else {
            None
        }
    }
}

} // verus!
