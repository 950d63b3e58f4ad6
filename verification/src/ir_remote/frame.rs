//! What the polling receiver makes of a whole sampled NEC frame.
use vstd::prelude::*;

use crate::ir_nec_pio::frame::{bit_of, received_bits};
use crate::ir_nec_pio::shift_in_bit;
use crate::ir_remote::{
    is_bit_pulse_count, is_leader_pulse_count, is_leader_space_count, remote_decode_word,
    remote_step, space_count_bit, IrCommand, IrRemoteView, State, EDGE_TIMEOUT_SAMPLES,
};

verus! {

/// The receiver state and the outputs after polling the samples in order.
pub open spec fn remote_run(m: IrRemoteView, samples: Seq<bool>) -> (IrRemoteView, Seq<Option<IrCommand>>)
    decreases samples.len(),
{
    if samples.len() == 0 {
        (m, Seq::empty())
    } else {
        let (m1, outs) = remote_run(m, samples.drop_last());
        let (m2, out) = remote_step(m1, samples.last());
        (m2, outs.push(out))
    }
}

/// `n` samples at a constant level.
pub open spec fn level_run(level: bool, n: nat) -> Seq<bool> {
    Seq::new(n, |_i: int| level)
}

/// A stretch of constant level: the sample at which the level changes, then
/// `count` more samples at that level. The receiver counts `count` at the
/// edge that ends the stretch.
pub open spec fn stretch(level: bool, count: nat) -> Seq<bool> {
    seq![level] + level_run(level, count)
}

/// Consecutive stretches whose counts are `counts`, the first active (IR
/// detected), then alternating.
pub open spec fn stretches(counts: Seq<nat>) -> Seq<bool>
    decreases counts.len(),
{
    if counts.len() == 0 {
        Seq::empty()
    } else {
        stretches(counts.drop_last()) + stretch(counts.len() % 2 == 1, counts.last() as nat)
    }
}

/// The count of the pulse that starts data bit `i`.
pub open spec fn bit_pulse_count(counts: Seq<nat>, i: int) -> nat {
    counts[2 + 2 * i]
}

/// The count of the space that carries data bit `i`.
pub open spec fn bit_space_count(counts: Seq<nat>, i: int) -> nat {
    counts[3 + 2 * i]
}

/// `counts` are the stretch lengths of a well-timed NEC frame carrying `w`:
/// leader pulse, leader space, then a pulse and a space per bit, least
/// significant bit first.
pub open spec fn is_sampled_nec_frame(counts: Seq<nat>, w: u32) -> bool {
    &&& counts.len() == 66
    &&& is_leader_pulse_count(counts[0] as int)
    &&& is_leader_space_count(counts[1] as int)
    &&& forall|i: int| 0 <= i < 32 ==> is_bit_pulse_count(#[trigger] bit_pulse_count(counts, i) as int)
    &&& forall|i: int|
        0 <= i < 32 ==> space_count_bit(#[trigger] bit_space_count(counts, i) as int) == Some(bit_of(w, i))
}

/// The samples of a frame with stretch counts `counts`: the stretches, then
/// the sample at which IR returns and ends the last space.
pub open spec fn sampled_frame(counts: Seq<nat>) -> Seq<bool> {
    stretches(counts).push(true)
}

/// The receiver state after stretch `j` of a frame for `w`, started from `m`.
pub open spec fn frame_state(m: IrRemoteView, counts: Seq<nat>, w: u32, j: int) -> IrRemoteView {
    if j == 0 {
        IrRemoteView { state: State::LeaderPulse, sample_count: counts[0] as u16, last_pin_state: true, ..m }
    } else if j == 1 {
        IrRemoteView { state: State::LeaderSpace, sample_count: counts[1] as u16, last_pin_state: false, ..m }
    } else if j % 2 == 0 {
        IrRemoteView {
            state: State::BitPulse,
            sample_count: counts[j] as u16,
            bits_received: ((j - 2) / 2) as u8,
            data: received_bits(w, (j - 2) / 2),
            last_pin_state: true,
        }
    } else {
        IrRemoteView {
            state: State::BitSpace,
            sample_count: counts[j] as u16,
            bits_received: ((j - 3) / 2) as u8,
            data: received_bits(w, (j - 3) / 2),
            last_pin_state: false,
        }
    }
}

proof fn lemma_run_append(m: IrRemoteView, a: Seq<bool>, b: Seq<bool>)
    ensures
        remote_run(m, a + b).0 == remote_run(remote_run(m, a).0, b).0,
        remote_run(m, a + b).1 =~= remote_run(m, a).1 + remote_run(remote_run(m, a).0, b).1,
    decreases b.len(),
{
    if b.len() == 0 {
        assert(a + b =~= a);
    } else {
        lemma_run_append(m, a, b.drop_last());
        assert((a + b).drop_last() =~= a + b.drop_last());
        assert((a + b).last() == b.last());
    }
}

proof fn lemma_hold(m: IrRemoteView, n: nat)
    requires
        m.sample_count + n <= EDGE_TIMEOUT_SAMPLES,
    ensures
        remote_run(m, level_run(m.last_pin_state, n)).0 == (IrRemoteView {
            sample_count: (m.sample_count + n) as u16,
            ..m
        }),
        remote_run(m, level_run(m.last_pin_state, n)).1 =~= Seq::new(n, |_i: int| None::<IrCommand>),
    decreases n,
{
    if n > 0 {
        lemma_hold(m, (n - 1) as nat);
        assert(level_run(m.last_pin_state, n).drop_last() =~= level_run(m.last_pin_state, (n - 1) as nat));
    } else {
        assert(level_run(m.last_pin_state, n) =~= Seq::<bool>::empty());
    }
}

proof fn lemma_stretch(m: IrRemoteView, level: bool, count: nat)
    requires
        level != m.last_pin_state,
        remote_step(m, level).0.sample_count == 0,
        remote_step(m, level).0.last_pin_state == level,
        count <= EDGE_TIMEOUT_SAMPLES,
    ensures
        remote_run(m, stretch(level, count)).0 == (IrRemoteView {
            sample_count: count as u16,
            ..remote_step(m, level).0
        }),
        remote_run(m, stretch(level, count)).1 =~= seq![remote_step(m, level).1] + Seq::new(
            count,
            |_i: int| None::<IrCommand>,
        ),
{
    let first = seq![level];
    lemma_run_append(m, first, level_run(level, count));
    assert(first.drop_last() =~= Seq::<bool>::empty());
    assert(remote_run(m, first.drop_last()) == (m, Seq::<Option<IrCommand>>::empty()));
    assert(remote_run(m, first).1 =~= seq![remote_step(m, level).1]);
    lemma_hold(remote_step(m, level).0, count);
}

proof fn lemma_frame_stretches(m: IrRemoteView, counts: Seq<nat>, w: u32, j: int)
    requires
        m.state == State::Idle,
        !m.last_pin_state,
        is_sampled_nec_frame(counts, w),
        0 <= j < 66,
    ensures
        remote_run(m, stretches(counts.take(j + 1))).0 == frame_state(m, counts, w, j),
        forall|i: int|
            0 <= i < remote_run(m, stretches(counts.take(j + 1))).1.len() ==> (#[trigger] remote_run(
                m,
                stretches(counts.take(j + 1)),
            ).1[i]) is None,
    decreases j,
{
    let prefix = counts.take(j + 1);
    assert(prefix.drop_last() =~= counts.take(j));
    assert(prefix.last() == counts[j]);
    assert(stretches(prefix) == stretches(counts.take(j)) + stretch(j % 2 == 0, counts[j] as nat));
    if j == 0 {
        assert(counts.take(0) =~= Seq::<nat>::empty());
        assert(Seq::<bool>::empty() + stretch(true, counts[0] as nat) =~= stretch(true, counts[0] as nat));
        lemma_stretch(m, true, counts[0] as nat);
    } else {
        lemma_frame_stretches(m, counts, w, j - 1);
        let before = remote_run(m, stretches(counts.take(j))).0;
        lemma_run_append(m, stretches(counts.take(j)), stretch(j % 2 == 0, counts[j] as nat));
        if j == 1 || j == 2 {
        } else if j % 2 == 0 {
            let k = (j - 3) / 2;
            assert(counts[j - 1] == bit_space_count(counts, k));
            lemma_shift_in_step(w, k);
        } else {
            let k = (j - 3) / 2;
            assert(counts[j - 1] == bit_pulse_count(counts, k));
        }
        assert(counts[j] <= 200) by {
            if j == 1 {
            } else if j % 2 == 0 {
                assert(counts[j] == bit_pulse_count(counts, (j - 2) / 2));
            } else {
                assert(counts[j] == bit_space_count(counts, (j - 3) / 2));
            }
        }
        lemma_stretch(before, j % 2 == 0, counts[j] as nat);
    }
}

proof fn lemma_shift_in_step(w: u32, k: int)
    requires
        0 <= k < 31,
    ensures
        ((received_bits(w, k) >> 1u32) | (bit_of(w, k) << 31u32)) == received_bits(w, k + 1),
{
    let ku = k as u32;
    assert(((if ku == 0 { 0u32 } else { w << ((32 - ku) as u32) }) >> 1u32) | (((w >> ku) & 1u32)
        << 31u32) == w << ((31 - ku) as u32)) by (bit_vector)
        requires
            ku < 32,
    ;
}

/// A well-timed NEC frame for the word `w`, sampled into a receiver that is
/// idle with the pin inactive, produces no output until the sample at which
/// IR returns after the last space, and there exactly `remote_decode_word(w)`:
/// the address and command when the command's complement checks, nothing
/// otherwise. The receiver ends idle with the pin seen active.
pub proof fn lemma_sampled_frame_decodes(m: IrRemoteView, counts: Seq<nat>, w: u32)
    requires
        m.state == State::Idle,
        !m.last_pin_state,
        is_sampled_nec_frame(counts, w),
    ensures
        remote_run(m, sampled_frame(counts)).1.len() == sampled_frame(counts).len(),
        forall|i: int|
            0 <= i < sampled_frame(counts).len() - 1 ==> (#[trigger] remote_run(m, sampled_frame(counts)).1[i])
                is None,
        remote_run(m, sampled_frame(counts)).1.last() == remote_decode_word(w),
        remote_run(m, sampled_frame(counts)).0 == (IrRemoteView {
            state: State::Idle,
            sample_count: 0,
            bits_received: 0,
            data: 0,
            last_pin_state: true,
        }),
{
    lemma_frame_stretches(m, counts, w, 65);
    assert(counts.take(66) =~= counts);
    let frame = sampled_frame(counts);
    assert(frame.drop_last() =~= stretches(counts));
    assert(counts[65] == bit_space_count(counts, 31));
    assert(((w << 1u32) >> 1u32) | (((w >> 31u32) & 1u32) << 31u32) == w) by (bit_vector);
    lemma_run_len(m, frame);
}

proof fn lemma_run_len(m: IrRemoteView, samples: Seq<bool>)
    ensures
        remote_run(m, samples).1.len() == samples.len(),
    decreases samples.len(),
{
    if samples.len() > 0 {
        lemma_run_len(m, samples.drop_last());
    }
}

proof fn lemma_quiet_line_idles(m: IrRemoteView, i: nat)
    requires
        i <= EDGE_TIMEOUT_SAMPLES + 1,
    ensures
        remote_run(m, level_run(m.last_pin_state, i)).0.state == State::Idle || (i <= remote_run(
            m,
            level_run(m.last_pin_state, i),
        ).0.sample_count && (i > 0 ==> remote_run(m, level_run(m.last_pin_state, i)).0.sample_count
            <= EDGE_TIMEOUT_SAMPLES)),
        remote_run(m, level_run(m.last_pin_state, i)).0.last_pin_state == m.last_pin_state,
        remote_run(m, level_run(m.last_pin_state, i)).1.len() == i,
        forall|k: int| 0 <= k < i ==> (#[trigger] remote_run(m, level_run(m.last_pin_state, i)).1[k]) is None,
    decreases i,
{
    if i > 0 {
        lemma_quiet_line_idles(m, (i - 1) as nat);
        assert(level_run(m.last_pin_state, i).drop_last() =~= level_run(m.last_pin_state, (i - 1) as nat));
    } else {
        assert(level_run(m.last_pin_state, i) =~= Seq::<bool>::empty());
    }
}

/// A receiver left without an edge for more than 300 samples (15 ms) abandons
/// any partial frame: whatever its state, 301 samples at the level it last saw
/// leave it idle, and emit nothing.
pub proof fn lemma_stalled_frame_times_out(m: IrRemoteView)
    ensures
        remote_run(m, level_run(m.last_pin_state, 301)).0.state == State::Idle,
        forall|k: int|
            0 <= k < 301 ==> (#[trigger] remote_run(m, level_run(m.last_pin_state, 301)).1[k]) is None,
{
    lemma_quiet_line_idles(m, 301);
}

/// Two receivers that can only differ in what their next steps ignore: the
/// sample count while idle, and the partial word before the first data bit.
pub open spec fn remote_agree(m1: IrRemoteView, m2: IrRemoteView) -> bool {
    &&& m1.state == m2.state
    &&& m1.last_pin_state == m2.last_pin_state
    &&& m1.state != State::Idle ==> m1.sample_count == m2.sample_count
    &&& (m1.state == State::BitPulse || m1.state == State::BitSpace) ==> (m1.bits_received
        == m2.bits_received && m1.data == m2.data)
}

proof fn lemma_agree_step(m1: IrRemoteView, m2: IrRemoteView, ir_active: bool)
    requires
        remote_agree(m1, m2),
    ensures
        remote_agree(remote_step(m1, ir_active).0, remote_step(m2, ir_active).0),
        remote_step(m1, ir_active).1 == remote_step(m2, ir_active).1,
{
}

proof fn lemma_agree_run(m1: IrRemoteView, m2: IrRemoteView, samples: Seq<bool>)
    requires
        remote_agree(m1, m2),
    ensures
        remote_agree(remote_run(m1, samples).0, remote_run(m2, samples).0),
        remote_run(m1, samples).1 == remote_run(m2, samples).1,
    decreases samples.len(),
{
    if samples.len() > 0 {
        lemma_agree_run(m1, m2, samples.drop_last());
        lemma_agree_step(remote_run(m1, samples.drop_last()).0, remote_run(m2, samples.drop_last()).0, samples.last());
    }
}

/// An idle receiver, whether it timed out, finished a frame or was just
/// created, answers exactly like any other idle receiver once both have seen
/// the inactive level: after `poll_raw(false)` every further sequence of
/// samples yields the same outputs from both.
pub proof fn lemma_idle_receivers_agree(m1: IrRemoteView, m2: IrRemoteView, samples: Seq<bool>)
    requires
        m1.state == State::Idle,
        m2.state == State::Idle,
    ensures
        remote_run(m1, seq![false] + samples).1 == remote_run(m2, seq![false] + samples).1,
{
    let first = seq![false];
    assert(first.drop_last() =~= Seq::<bool>::empty());
    assert(remote_run(m1, first.drop_last()) == (m1, Seq::<Option<IrCommand>>::empty()));
    assert(remote_run(m2, first.drop_last()) == (m2, Seq::<Option<IrCommand>>::empty()));
    assert(remote_run(m1, first).1 =~= remote_run(m2, first).1);
    lemma_agree_run(remote_run(m1, first).0, remote_run(m2, first).0, samples);
    lemma_run_append(m1, first, samples);
    lemma_run_append(m2, first, samples);
}

/// `poll_raw` emits a command only at the rising edge that ends the space of
/// the 32nd data bit, when that space encodes a bit and the completed word's
/// command byte checks against its complement.
pub proof fn lemma_output_only_at_frame_end(m: IrRemoteView, ir_active: bool)
    ensures
        remote_step(m, ir_active).1 is Some ==> {
            &&& ir_active && !m.last_pin_state
            &&& m.state == State::BitSpace
            &&& m.bits_received == 31
            &&& space_count_bit(m.sample_count as int) is Some
            &&& remote_step(m, ir_active).1 == remote_decode_word(
                shift_in_bit(m.data, space_count_bit(m.sample_count as int)->0),
            )
        },
{
}

/// How far a receiver is into a frame, counted in edges: idle 0, leader
/// pulse 1, leader space 2, then two per received data bit.
pub open spec fn remote_progress(m: IrRemoteView) -> int {
    match m.state {
        State::Idle => 0,
        State::LeaderPulse => 1,
        State::LeaderSpace => 2,
        State::BitPulse => 3 + 2 * m.bits_received,
        State::BitSpace => 4 + 2 * m.bits_received,
    }
}

/// The count of stretch `j` fits its place in a frame: leader pulse, leader
/// space, then alternately a bit pulse and a space that encodes a bit.
pub open spec fn stretch_count_ok(counts: Seq<nat>, j: int) -> bool {
    if j == 0 {
        is_leader_pulse_count(counts[0] as int)
    } else if j == 1 {
        is_leader_space_count(counts[1] as int)
    } else if j % 2 == 0 {
        is_bit_pulse_count(counts[j] as int)
    } else {
        space_count_bit(counts[j] as int) is Some
    }
}

/// All 66 stretch counts of a frame fit their places.
pub open spec fn frame_timing_ok(counts: Seq<nat>) -> bool {
    &&& counts.len() == 66
    &&& forall|j: int| 0 <= j < 66 ==> #[trigger] stretch_count_ok(counts, j)
}

/// The data word after shifting in the bits that the first `k` bit spaces encode.
pub open spec fn spaces_data(counts: Seq<nat>, k: int) -> u32
    decreases k,
{
    if k <= 0 {
        0
    } else {
        shift_in_bit(spaces_data(counts, k - 1), space_count_bit(bit_space_count(counts, k - 1) as int)->0)
    }
}

/// The receiver state after stretch `j` when every earlier count fit its place.
pub open spec fn exact_frame_state(m: IrRemoteView, counts: Seq<nat>, j: int) -> IrRemoteView {
    if j == 0 {
        IrRemoteView { state: State::LeaderPulse, sample_count: counts[0] as u16, last_pin_state: true, ..m }
    } else if j == 1 {
        IrRemoteView { state: State::LeaderSpace, sample_count: counts[1] as u16, last_pin_state: false, ..m }
    } else if j % 2 == 0 {
        IrRemoteView {
            state: State::BitPulse,
            sample_count: counts[j] as u16,
            bits_received: ((j - 2) / 2) as u8,
            data: spaces_data(counts, (j - 2) / 2),
            last_pin_state: true,
        }
    } else {
        IrRemoteView {
            state: State::BitSpace,
            sample_count: counts[j] as u16,
            bits_received: ((j - 3) / 2) as u8,
            data: spaces_data(counts, (j - 3) / 2),
            last_pin_state: false,
        }
    }
}

proof fn lemma_edge_progress(m: IrRemoteView, level: bool)
    requires
        level != m.last_pin_state,
    ensures
        remote_step(m, level).0.sample_count == 0,
        remote_step(m, level).0.last_pin_state == level,
        remote_progress(remote_step(m, level).0) <= remote_progress(m) + 1,
        remote_step(m, level).1 is Some ==> m.state == State::BitSpace && m.bits_received == 31,
{
}

proof fn lemma_hold_after_edge(m: IrRemoteView, n: nat)
    requires
        m.sample_count == 0,
    ensures
        remote_run(m, level_run(m.last_pin_state, n)).0.last_pin_state == m.last_pin_state,
        remote_run(m, level_run(m.last_pin_state, n)).1.len() == n,
        forall|i: int| 0 <= i < n ==> (#[trigger] remote_run(m, level_run(m.last_pin_state, n)).1[i]) is None,
        m.state != State::Idle && n <= EDGE_TIMEOUT_SAMPLES ==> remote_run(m, level_run(m.last_pin_state, n)).0
            == (IrRemoteView { sample_count: n as u16, ..m }),
        !(m.state != State::Idle && n <= EDGE_TIMEOUT_SAMPLES) ==> remote_run(
            m,
            level_run(m.last_pin_state, n),
        ).0.state == State::Idle,
    decreases n,
{
    if n > 0 {
        lemma_hold_after_edge(m, (n - 1) as nat);
        assert(level_run(m.last_pin_state, n).drop_last() =~= level_run(m.last_pin_state, (n - 1) as nat));
    } else {
        assert(level_run(m.last_pin_state, n) =~= Seq::<bool>::empty());
    }
}

proof fn lemma_stretch_any(m: IrRemoteView, level: bool, count: nat)
    requires
        level != m.last_pin_state,
    ensures
        ({
            let (m1, out) = remote_step(m, level);
            let r = remote_run(m, stretch(level, count));
            &&& r.0.last_pin_state == level
            &&& r.1 =~= seq![out] + remote_run(m1, level_run(level, count)).1
            &&& r.1.len() == count + 1
            &&& forall|i: int| 1 <= i < r.1.len() ==> (#[trigger] r.1[i]) is None
            &&& m1.state != State::Idle && count <= EDGE_TIMEOUT_SAMPLES ==> r.0 == (IrRemoteView {
                sample_count: count as u16,
                ..m1
            })
            &&& !(m1.state != State::Idle && count <= EDGE_TIMEOUT_SAMPLES) ==> r.0.state == State::Idle
        }),
{
    let first = seq![level];
    lemma_run_append(m, first, level_run(level, count));
    assert(first.drop_last() =~= Seq::<bool>::empty());
    assert(remote_run(m, first.drop_last()) == (m, Seq::<Option<IrCommand>>::empty()));
    assert(remote_run(m, first).1 =~= seq![remote_step(m, level).1]);
    lemma_edge_progress(m, level);
    lemma_hold_after_edge(remote_step(m, level).0, count);
}

/// The receiver after the first `j + 1` stretches.
spec fn stretch_run(m: IrRemoteView, counts: Seq<nat>, j: int) -> (IrRemoteView, Seq<Option<IrCommand>>) {
    remote_run(m, stretches(counts.take(j + 1)))
}

/// Every count before stretch `j` fits its place, and stretch `j` does not time out.
spec fn prefix_fits(counts: Seq<nat>, j: int) -> bool {
    (forall|i: int| 0 <= i < j ==> #[trigger] stretch_count_ok(counts, i)) && counts[j] <= EDGE_TIMEOUT_SAMPLES
}

proof fn lemma_exact_stretches(m: IrRemoteView, counts: Seq<nat>, j: int)
    requires
        m.state == State::Idle,
        !m.last_pin_state,
        counts.len() == 66,
        0 <= j < 66,
    ensures
        stretch_run(m, counts, j).0.last_pin_state == (j % 2 == 0),
        forall|i: int| 0 <= i < stretch_run(m, counts, j).1.len() ==> (#[trigger] stretch_run(m, counts, j).1[i]) is None,
        remote_progress(stretch_run(m, counts, j).0) <= j + 1,
        remote_progress(stretch_run(m, counts, j).0) == j + 1 ==> prefix_fits(counts, j),
        prefix_fits(counts, j) ==> stretch_run(m, counts, j).0 == exact_frame_state(m, counts, j),
    decreases j,
{
    let prefix = counts.take(j + 1);
    assert(prefix.drop_last() =~= counts.take(j));
    assert(prefix.last() == counts[j]);
    let level = j % 2 == 0;
    assert(stretches(prefix) == stretches(counts.take(j)) + stretch(level, counts[j] as nat));
    if j == 0 {
        assert(counts.take(0) =~= Seq::<nat>::empty());
        assert(Seq::<bool>::empty() + stretch(true, counts[0] as nat) =~= stretch(true, counts[0] as nat));
        lemma_stretch_any(m, true, counts[0] as nat);
    } else {
        lemma_exact_stretches(m, counts, j - 1);
        let before = stretch_run(m, counts, j - 1).0;
        lemma_run_append(m, stretches(counts.take(j)), stretch(level, counts[j] as nat));
        lemma_stretch_any(before, level, counts[j] as nat);
        let r = stretch_run(m, counts, j);
        let n0 = stretch_run(m, counts, j - 1).1.len();
        assert forall|i: int| 0 <= i < r.1.len() implies (#[trigger] r.1[i]) is None by {
            if i >= n0 {
                assert(remote_progress(before) <= j);
            } else {
                assert(r.1[i] == stretch_run(m, counts, j - 1).1[i]);
            }
        }
        if remote_progress(r.0) == j + 1 {
            assert(r.0.state != State::Idle);
            assert(remote_progress(before) == j);
            assert(before == exact_frame_state(m, counts, j - 1));
            if j >= 3 && j % 2 == 0 {
                assert(counts[j - 1] == bit_space_count(counts, (j - 4) / 2));
            }
            assert(stretch_count_ok(counts, j - 1));
            assert(prefix_fits(counts, j));
        }
        if prefix_fits(counts, j) {
            assert(stretch_count_ok(counts, j - 1));
            assert(counts[j - 1] <= 200);
            assert(prefix_fits(counts, j - 1));
            assert(before == exact_frame_state(m, counts, j - 1));
            if j >= 3 && j % 2 == 0 {
                assert(counts[j - 1] == bit_space_count(counts, (j - 4) / 2));
            }
        }
    }
}

/// Exactly what a frame-shaped run of samples yields, whatever its stretch
/// counts: from an idle receiver with the pin inactive, the samples of 66
/// alternating stretches (active first) and the sample at which IR returns
/// yield nothing until that last sample, and there the command of the word
/// the bit spaces encode when every count fits its place (and the command
/// byte checks against its complement), and nothing otherwise.
pub proof fn lemma_sampled_frame_exact(m: IrRemoteView, counts: Seq<nat>)
    requires
        m.state == State::Idle,
        !m.last_pin_state,
        counts.len() == 66,
    ensures
        remote_run(m, sampled_frame(counts)).1.len() == sampled_frame(counts).len(),
        forall|i: int|
            0 <= i < sampled_frame(counts).len() - 1 ==> (#[trigger] remote_run(m, sampled_frame(counts)).1[i])
                is None,
        remote_run(m, sampled_frame(counts)).1.last() == if frame_timing_ok(counts) {
            remote_decode_word(spaces_data(counts, 32))
        } else {
            None
        },
{
    lemma_exact_stretches(m, counts, 65);
    assert(counts.take(66) =~= counts);
    let frame = sampled_frame(counts);
    assert(frame.drop_last() =~= stretches(counts));
    assert(frame.last() == true);
    lemma_run_len(m, frame);
    let b = stretch_run(m, counts, 65).0;
    lemma_edge_progress(b, true);
    assert(counts[65] == bit_space_count(counts, 31));
    if frame_timing_ok(counts) {
        assert(stretch_count_ok(counts, 65));
        assert(prefix_fits(counts, 65));
    }
    if remote_step(b, true).1 is Some {
        assert(remote_progress(b) == 66);
        assert(prefix_fits(counts, 65));
        assert(b == exact_frame_state(m, counts, 65));
        assert(stretch_count_ok(counts, 65));
        assert forall|j: int| 0 <= j < 66 implies #[trigger] stretch_count_ok(counts, j) by {
            if j < 65 {
                assert(prefix_fits(counts, 65));
            }
        }
        assert(frame_timing_ok(counts));
    }
}

/// A well-timed frame for `w` is a frame whose counts all fit their places
/// and whose bit spaces encode exactly `w`.
pub proof fn lemma_frame_word_is_spaces_data(counts: Seq<nat>, w: u32)
    requires
        is_sampled_nec_frame(counts, w),
    ensures
        frame_timing_ok(counts),
        spaces_data(counts, 32) == w,
{
    assert forall|j: int| 0 <= j < 66 implies #[trigger] stretch_count_ok(counts, j) by {
        if j >= 2 && j % 2 == 0 {
            assert(counts[j] == bit_pulse_count(counts, (j - 2) / 2));
        } else if j >= 3 {
            assert(counts[j] == bit_space_count(counts, (j - 3) / 2));
        }
    }
    lemma_spaces_data_received(counts, w, 31);
    assert(space_count_bit(bit_space_count(counts, 31) as int) == Some(bit_of(w, 31)));
    assert(((w << 1u32) >> 1u32) | (((w >> 31u32) & 1u32) << 31u32) == w) by (bit_vector);
}

proof fn lemma_spaces_data_received(counts: Seq<nat>, w: u32, k: int)
    requires
        is_sampled_nec_frame(counts, w),
        0 <= k <= 31,
    ensures
        spaces_data(counts, k) == received_bits(w, k),
    decreases k,
{
    if k > 0 {
        lemma_spaces_data_received(counts, w, k - 1);
        assert(space_count_bit(bit_space_count(counts, k - 1) as int) == Some(bit_of(w, k - 1)));
        lemma_shift_in_step(w, k - 1);
    }
}

} // verus!
