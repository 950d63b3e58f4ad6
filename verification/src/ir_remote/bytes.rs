//! What the polling receiver's commands are made of: the bytes of the word
//! that a sampled frame carries.
use vstd::prelude::*;

use crate::ir_nec_pio::frame::{lemma_decode_word_reads_bytes, lemma_nec_word_bytes, nec_word};
use crate::ir_remote::frame::{
    is_sampled_nec_frame, lemma_sampled_frame_decodes, remote_run, sampled_frame,
};
use crate::ir_remote::{remote_decode_word, IrCommand, IrRemoteView, State};

verus! {

/// The polling receiver's word decoding reads bytes arithmetically: it
/// succeeds exactly when the top byte is 255 minus the command byte (byte 2),
/// and then gives the low byte as the address and byte 2 as the command.
pub proof fn lemma_remote_decode_reads_bytes(w: u32)
    ensures
        remote_decode_word(w) is Some <==> (w as int / 0x1_0000) % 0x100 + w as int / 0x100_0000 == 255,
        remote_decode_word(w) is Some ==> remote_decode_word(w) == Some(
            IrCommand { address: (w as int % 0x100) as u8, command: ((w as int / 0x1_0000) % 0x100) as u8 },
        ),
{
    lemma_decode_word_reads_bytes(w);
}

/// A well-timed sampled frame for any word `w`, polled by an idle receiver
/// with the pin inactive, yields a command at its last sample exactly when the
/// word's top byte is the complement of its command byte (byte 2), and that
/// command has the word's low byte as address and byte 2 as command.
pub proof fn lemma_sampled_frame_command_bytes(m: IrRemoteView, counts: Seq<nat>, w: u32)
    requires
        m.state == State::Idle,
        !m.last_pin_state,
        is_sampled_nec_frame(counts, w),
    ensures
        remote_run(m, sampled_frame(counts)).1.last() is Some <==> (w as int / 0x1_0000) % 0x100 + w as int
            / 0x100_0000 == 255,
        remote_run(m, sampled_frame(counts)).1.last() is Some ==> remote_run(m, sampled_frame(counts)).1.last()
            == Some(
            IrCommand { address: (w as int % 0x100) as u8, command: ((w as int / 0x1_0000) % 0x100) as u8 },
        ),
{
    lemma_sampled_frame_decodes(m, counts, w);
    lemma_remote_decode_reads_bytes(w);
}

/// Every address byte `a`, second byte `b` and command byte `c`: a well-timed
/// sampled frame carrying `c` with its complement yields exactly address `a`
/// and command `c` at its last sample.
pub proof fn lemma_sampled_frame_decodes_every_command(m: IrRemoteView, counts: Seq<nat>, a: u8, b: u8, c: u8)
    requires
        m.state == State::Idle,
        !m.last_pin_state,
        is_sampled_nec_frame(counts, nec_word(a, b, c)),
    ensures
        remote_run(m, sampled_frame(counts)).1.last() == Some(IrCommand { address: a, command: c }),
{
    lemma_sampled_frame_command_bytes(m, counts, nec_word(a, b, c));
    lemma_nec_word_bytes(a, b, c);
}

} // verus!
