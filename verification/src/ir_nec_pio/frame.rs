//! What the NEC decoder makes of whole transmissions: a full frame decodes to
//! its command, and a repeat frame re-emits the held command.
use vstd::prelude::*;

use crate::ir_nec_pio::{
    decode_word, is_bit_pulse, is_leader_pulse, is_leader_space, is_repeat_space, nec_step,
    space_bit, DecoderState, IrCommand, NecDecoderView,
};

verus! {

/// The decoder state and the outputs after processing `events` in order,
/// each event a duration and whether it is a pulse.
pub open spec fn nec_run(m: NecDecoderView, events: Seq<(u32, bool)>) -> (NecDecoderView, Seq<Option<IrCommand>>)
    decreases events.len(),
{
    if events.len() == 0 {
        (m, Seq::empty())
    } else {
        let (m1, outs) = nec_run(m, events.drop_last());
        let (m2, out) = nec_step(m1, events.last().0, events.last().1);
        (m2, outs.push(out))
    }
}

/// Bit `i` of `w` (0 = least significant).
pub open spec fn bit_of(w: u32, i: int) -> u32 {
    (w >> (i as u32)) & 1u32
}

/// The pulse that starts data bit `i` of a frame.
pub open spec fn frame_bit_pulse(events: Seq<(u32, bool)>, i: int) -> (u32, bool) {
    events[2 + 2 * i]
}

/// The space that carries data bit `i` of a frame.
pub open spec fn frame_bit_space(events: Seq<(u32, bool)>, i: int) -> (u32, bool) {
    events[3 + 2 * i]
}

/// `events` is a well-timed NEC frame transmitting the 32-bit word `w`:
/// a leader pulse, a leader space, then for each bit, least significant first,
/// a bit pulse and a space whose length encodes the bit.
pub open spec fn is_nec_frame(events: Seq<(u32, bool)>, w: u32) -> bool {
    &&& events.len() == 66
    &&& events[0].1 && is_leader_pulse(events[0].0)
    &&& !events[1].1 && is_leader_space(events[1].0)
    &&& forall|i: int|
        0 <= i < 32 ==> (#[trigger] frame_bit_pulse(events, i)).1 && is_bit_pulse(
            frame_bit_pulse(events, i).0,
        )
    &&& forall|i: int|
        0 <= i < 32 ==> !(#[trigger] frame_bit_space(events, i)).1 && space_bit(
            frame_bit_space(events, i).0,
        ) == Some(bit_of(w, i))
}

/// The data register after the first `k` bits of `w` have been shifted in.
pub open spec fn received_bits(w: u32, k: int) -> u32 {
    if k <= 0 {
        0
    } else {
        w << ((32 - k) as u32)
    }
}

proof fn lemma_shift_in_next(w: u32, k: u32)
    by (bit_vector)
    requires
        k < 32,
    ensures
        ((if k == 0 { 0u32 } else { w << ((32 - k) as u32) }) >> 1u32) | (((w >> k) & 1u32) << 31u32)
            == w << ((31 - k) as u32),
{
}

proof fn lemma_run_step(m: NecDecoderView, events: Seq<(u32, bool)>, n: int)
    requires
        0 <= n < events.len(),
    ensures
        nec_run(m, events.take(n + 1)) == ({
            let (m1, outs) = nec_run(m, events.take(n));
            let (m2, out) = nec_step(m1, events[n].0, events[n].1);
            (m2, outs.push(out))
        }),
{
    assert(events.take(n + 1).drop_last() =~= events.take(n));
}

proof fn lemma_frame_prefix(m: NecDecoderView, events: Seq<(u32, bool)>, w: u32, k: int)
    requires
        m.state == DecoderState::LeaderPulse,
        is_nec_frame(events, w),
        0 <= k <= 31,
    ensures
        nec_run(m, events.take(2 + 2 * k)).0 == (NecDecoderView {
            state: DecoderState::BitPulse,
            bits_received: k as u8,
            data: received_bits(w, k),
            last_command: m.last_command,
        }),
        nec_run(m, events.take(2 + 2 * k)).1.len() == 2 + 2 * k,
        forall|i: int|
            0 <= i < 2 + 2 * k ==> (#[trigger] nec_run(m, events.take(2 + 2 * k)).1[i]) is None,
    decreases k,
{
    if k == 0 {
        lemma_run_step(m, events, 0);
        lemma_run_step(m, events, 1);
        assert(events.take(0) =~= Seq::<(u32, bool)>::empty());
    } else {
        lemma_frame_prefix(m, events, w, k - 1);
        let n = 2 * k;
        lemma_run_step(m, events, n);
        lemma_run_step(m, events, n + 1);
        assert(events[n] == frame_bit_pulse(events, k - 1));
        assert(events[n + 1] == frame_bit_space(events, k - 1));
        lemma_shift_in_next(w, (k - 1) as u32);
        assert(bit_of(w, k - 1) == (w >> ((k - 1) as u32)) & 1u32);
    }
}

/// A well-timed NEC frame for the word `w`, fed to a decoder that is waiting
/// for a leader pulse, emits nothing until its last space and then exactly
/// `decode_word(w)`: the address and command when the command's complement
/// checks, nothing otherwise. The decoder ends waiting for the next frame and
/// holds the new command, or keeps the one it held when the checksum fails.
pub proof fn lemma_frame_decodes(m: NecDecoderView, events: Seq<(u32, bool)>, w: u32)
    requires
        m.state == DecoderState::LeaderPulse,
        is_nec_frame(events, w),
    ensures
        nec_run(m, events).1.len() == 66,
        forall|i: int| 0 <= i < 65 ==> (#[trigger] nec_run(m, events).1[i]) is None,
        nec_run(m, events).1[65] == decode_word(w),
        nec_run(m, events).0 == (NecDecoderView {
            state: DecoderState::LeaderPulse,
            bits_received: 0,
            data: 0,
            last_command: if decode_word(w) is Some { decode_word(w) } else { m.last_command },
        }),
{
    lemma_frame_prefix(m, events, w, 31);
    lemma_run_step(m, events, 64);
    lemma_run_step(m, events, 65);
    assert(events[64] == frame_bit_pulse(events, 31));
    assert(events[65] == frame_bit_space(events, 31));
    lemma_shift_in_next(w, 31);
    assert(w << 0u32 == w) by (bit_vector);
    assert(events.take(66) =~= events);
}

/// A repeat frame (leader pulse, then the short repeat space) fed to a decoder
/// that is waiting for a leader pulse emits nothing on the pulse and the held
/// command on the space, and leaves the decoder waiting, holding that command.
pub proof fn lemma_repeat_reemits(m: NecDecoderView, pulse: u32, space: u32)
    requires
        m.state == DecoderState::LeaderPulse,
        is_leader_pulse(pulse),
        is_repeat_space(space),
    ensures
        nec_run(m, seq![(pulse, true), (space, false)]).1 =~= seq![None, m.last_command],
        nec_run(m, seq![(pulse, true), (space, false)]).0 == m,
{
    let events = seq![(pulse, true), (space, false)];
    lemma_run_step(m, events, 0);
    lemma_run_step(m, events, 1);
    assert(events.take(0) =~= Seq::<(u32, bool)>::empty());
    assert(events.take(2) =~= events);
}

/// A held button: a valid frame followed by a repeat frame emits the frame's
/// command a second time on the repeat space.
pub proof fn lemma_held_button_repeats(
    m: NecDecoderView,
    events: Seq<(u32, bool)>,
    w: u32,
    pulse: u32,
    space: u32,
)
    requires
        m.state == DecoderState::LeaderPulse,
        is_nec_frame(events, w),
        decode_word(w) is Some,
        is_leader_pulse(pulse),
        is_repeat_space(space),
    ensures
        nec_run(nec_run(m, events).0, seq![(pulse, true), (space, false)]).1[1] == decode_word(w),
{
    lemma_frame_decodes(m, events, w);
    lemma_repeat_reemits(nec_run(m, events).0, pulse, space);
}

proof fn lemma_run_append(m: NecDecoderView, a: Seq<(u32, bool)>, b: Seq<(u32, bool)>)
    ensures
        nec_run(m, a + b).0 == nec_run(nec_run(m, a).0, b).0,
        nec_run(m, a + b).1 =~= nec_run(m, a).1 + nec_run(nec_run(m, a).0, b).1,
    decreases b.len(),
{
    if b.len() == 0 {
        assert(a + b =~= a);
    } else {
        lemma_run_append(m, a, b.drop_last());
        assert((a + b).drop_last() =~= a + b.drop_last());
    }
}

/// No event of `events` is a pulse long enough to be a leader pulse.
pub open spec fn has_no_leader_pulse(events: Seq<(u32, bool)>) -> bool {
    forall|i: int| 0 <= i < events.len() ==> !((#[trigger] events[i]).1 && is_leader_pulse(events[i].0))
}

/// A decoder waiting for a leader pulse ignores any run of values none of
/// which is a leader pulse, such as the short trailing pulse of a repeat
/// frame: it emits nothing and is left exactly as it was, so a frame that
/// follows decodes as it would have without them.
pub proof fn lemma_waiting_ignores(m: NecDecoderView, events: Seq<(u32, bool)>)
    requires
        m.state == DecoderState::LeaderPulse,
        has_no_leader_pulse(events),
    ensures
        nec_run(m, events).0 == m,
        nec_run(m, events).1.len() == events.len(),
        forall|i: int| 0 <= i < events.len() ==> (#[trigger] nec_run(m, events).1[i]) is None,
    decreases events.len(),
{
    if events.len() > 0 {
        let prefix = events.drop_last();
        assert(has_no_leader_pulse(prefix)) by {
            assert forall|i: int| 0 <= i < prefix.len() implies !((#[trigger] prefix[i]).1 && is_leader_pulse(prefix[i].0)) by {
                assert(prefix[i] == events[i]);
            }
        }
        lemma_waiting_ignores(m, prefix);
        assert(events.last() == events[events.len() - 1]);
    }
}

/// A well-timed frame brings the decoder back in step from any state, as
/// after a dropped FIFO value: it emits nothing before its last space, on that
/// space at most the frame's own command, and leaves the decoder waiting for
/// the next leader pulse, so the frame after it decodes. From a state other
/// than waiting for a leader pulse the frame itself is lost.
pub proof fn lemma_frame_resynchronizes(m: NecDecoderView, events: Seq<(u32, bool)>, w: u32)
    requires
        is_nec_frame(events, w),
    ensures
        nec_run(m, events).0.state == DecoderState::LeaderPulse,
        nec_run(m, events).1.len() == 66,
        forall|i: int| 0 <= i < 65 ==> (#[trigger] nec_run(m, events).1[i]) is None,
        nec_run(m, events).1[65] is None || nec_run(m, events).1[65] == decode_word(w),
        m.state != DecoderState::LeaderPulse ==> nec_run(m, events).1[65] is None,
{
    if m.state == DecoderState::LeaderPulse {
        lemma_frame_decodes(m, events, w);
    } else {
        let first = events.take(1);
        let rest = events.skip(1);
        assert(first + rest =~= events);
        lemma_run_step(m, events, 0);
        assert(events.take(0) =~= Seq::<(u32, bool)>::empty());
        let m1 = nec_run(m, first).0;
        assert(m1.state == DecoderState::LeaderPulse);
        assert(has_no_leader_pulse(rest)) by {
            assert forall|i: int| 0 <= i < rest.len() implies !((#[trigger] rest[i]).1 && is_leader_pulse(rest[i].0)) by {
                assert(rest[i] == events[i + 1]);
                let j = i + 1;
                if j % 2 == 0 {
                    assert(events[j] == frame_bit_pulse(events, (j - 2) / 2));
                } else if j >= 3 {
                    assert(events[j] == frame_bit_space(events, (j - 3) / 2));
                }
            }
        }
        lemma_waiting_ignores(m1, rest);
        lemma_run_append(m, first, rest);
    }
}

/// The 32-bit NEC word for address byte `a`, second byte `b` (the address's
/// complement, or its high byte on extended remotes) and command `c`, with
/// the complement of `c` in the top byte.
pub open spec fn nec_word(a: u8, b: u8, c: u8) -> u32 {
    (a as int + b as int * 0x100 + c as int * 0x1_0000 + (255 - c) as int * 0x100_0000) as u32
}

proof fn lemma_word_arithmetic(w: u32)
    ensures
        ((w >> 0u32) & 0xFFu32) as int == w as int % 0x100,
        ((w >> 16u32) & 0xFFu32) as int == (w as int / 0x1_0000) % 0x100,
        ((w >> 24u32) & 0xFFu32) as int == w as int / 0x100_0000,
{
    assert((w >> 0u32) & 0xFFu32 == w % 0x100) by (bit_vector);
    assert((w >> 16u32) & 0xFFu32 == (w / 0x1_0000) % 0x100) by (bit_vector);
    assert((w >> 24u32) & 0xFFu32 == w / 0x100_0000) by (bit_vector);
}

/// Decoding a word reads its bytes arithmetically: it succeeds exactly when
/// the top byte is 255 minus the command byte (byte 2), and then gives the
/// low byte as the address and byte 2 as the command.
pub proof fn lemma_decode_word_reads_bytes(w: u32)
    ensures
        decode_word(w) is Some <==> (w as int / 0x1_0000) % 0x100 + w as int / 0x100_0000 == 255,
        decode_word(w) is Some ==> decode_word(w) == Some(
            IrCommand { address: (w as int % 0x100) as u8, command: ((w as int / 0x1_0000) % 0x100) as u8 },
        ),
{
    lemma_word_arithmetic(w);
}

/// The bytes of `nec_word(a, b, c)`, read arithmetically.
pub proof fn lemma_nec_word_bytes(a: u8, b: u8, c: u8)
    ensures
        nec_word(a, b, c) as int % 0x100 == a,
        (nec_word(a, b, c) as int / 0x1_0000) % 0x100 == c,
        nec_word(a, b, c) as int / 0x100_0000 == 255 - c,
{
    let v = a as int + b as int * 0x100 + c as int * 0x1_0000 + (255 - c) as int * 0x100_0000;
    assert(0 <= v < 0x1_0000_0000);
    assert(v % 0x100 == a) by (nonlinear_arith)
        requires
            v == a as int + b as int * 0x100 + c as int * 0x1_0000 + (255 - c) as int * 0x100_0000,
            0 <= a < 256,
    ;
    assert((v / 0x1_0000) % 0x100 == c) by (nonlinear_arith)
        requires
            v == a as int + b as int * 0x100 + c as int * 0x1_0000 + (255 - c) as int * 0x100_0000,
            0 <= a < 256,
            0 <= b < 256,
            0 <= c < 256,
    ;
    assert(v / 0x100_0000 == 255 - c) by (nonlinear_arith)
        requires
            v == a as int + b as int * 0x100 + c as int * 0x1_0000 + (255 - c) as int * 0x100_0000,
            0 <= a < 256,
            0 <= b < 256,
            0 <= c < 256,
    ;
}

/// A well-timed frame for any word `w`, fed to a decoder waiting for a leader
/// pulse, yields a command (and becomes the held command) exactly when the
/// word's top byte is the complement of its command byte (byte 2), and that
/// command has the word's low byte as address and byte 2 as command.
pub proof fn lemma_frame_command_bytes(m: NecDecoderView, events: Seq<(u32, bool)>, w: u32)
    requires
        m.state == DecoderState::LeaderPulse,
        is_nec_frame(events, w),
    ensures
        nec_run(m, events).1[65] is Some <==> (w as int / 0x1_0000) % 0x100 + w as int / 0x100_0000 == 255,
        nec_run(m, events).1[65] is Some ==> nec_run(m, events).1[65] == Some(
            IrCommand { address: (w as int % 0x100) as u8, command: ((w as int / 0x1_0000) % 0x100) as u8 },
        ),
        nec_run(m, events).1[65] is Some ==> nec_run(m, events).0.last_command == nec_run(m, events).1[65],
        nec_run(m, events).1[65] is None ==> nec_run(m, events).0.last_command == m.last_command,
{
    lemma_frame_decodes(m, events, w);
    lemma_decode_word_reads_bytes(w);
}

/// Every address byte `a`, second byte `b` and command byte `c`: a well-timed
/// frame carrying `c` with its complement decodes to exactly address `a` and
/// command `c`.
pub proof fn lemma_frame_decodes_every_command(m: NecDecoderView, events: Seq<(u32, bool)>, a: u8, b: u8, c: u8)
    requires
        m.state == DecoderState::LeaderPulse,
        is_nec_frame(events, nec_word(a, b, c)),
    ensures
        nec_run(m, events).1[65] == Some(IrCommand { address: a, command: c }),
{
    lemma_frame_command_bytes(m, events, nec_word(a, b, c));
    lemma_nec_word_bytes(a, b, c);
}

} // verus!
