//! Core 1 polling loop: samples the IR receiver every 50 µs and blinks the
//! simple LED for each decoded command.
use vstd::prelude::*;

use crate::ir_remote::{remote_step, IrRemote, IrRemoteView, State};
use crate::clock::spec_elapsed_us;
use crate::main_core1::{blink_update, LedBlinker, LedBlinkerView, BLINK_DURATION_US};

verus! {

/// The state of the core 1 polling loop: the IR receiver and the LED blink.
pub struct Core1Task {
    ir_remote: IrRemote,
    blinker: LedBlinker,
}

impl Core1Task {
    /// The receiver's abstract state.
    pub closed spec fn remote(&self) -> IrRemoteView {
        self.ir_remote@
    }

    /// The blink's abstract state.
    pub closed spec fn blink(&self) -> LedBlinkerView {
        self.blinker@
    }

    /// An idle receiver and a dark LED.
    pub fn new() -> (r: Self)
        ensures
            r.remote() == (IrRemoteView {
                state: State::Idle,
                sample_count: 0,
                bits_received: 0,
                data: 0,
                last_pin_state: false,
            }),
            r.blink() == (LedBlinkerView { on: false, start_time: 0 }),
    {
        Self { ir_remote: IrRemote::new(), blinker: LedBlinker::new() }
    }

    /// One iteration of the loop at time `now` with the receiver pin sampled as
    /// `ir_signal` (true = IR detected). Ends a blink that is over, returns the
    /// level to drive the LED to, then polls the receiver; a decoded command
    /// starts a new blink at `now`, which shows from the next iteration.
    pub fn step(&mut self, now: u32, ir_signal: bool) -> (led_high: bool)
        ensures
            led_high == blink_update(old(self).blink(), now).on,
            final(self).remote() == remote_step(old(self).remote(), ir_signal).0,
            final(self).blink() == (if remote_step(old(self).remote(), ir_signal).1 is Some {
                LedBlinkerView { on: true, start_time: now }
            } else {
                blink_update(old(self).blink(), now)
            }),
    {
        self.blinker.update(now);
        let led_high = self.blinker.is_on();
        if let Some(_cmd) = self.ir_remote.poll_raw(ir_signal) {
            self.blinker.trigger(now);
        }
        led_high
    }
}

/// The loop state after the iterations `inputs` (each the time and the
/// sampled pin), with the LED level driven and whether a command was decoded
/// at each iteration, as `Core1Task::step` states them.
pub open spec fn core1_run(r: IrRemoteView, b: LedBlinkerView, inputs: Seq<(u32, bool)>) -> (
    IrRemoteView,
    LedBlinkerView,
    Seq<bool>,
    Seq<bool>,
)
    decreases inputs.len(),
{
    if inputs.len() == 0 {
        (r, b, Seq::empty(), Seq::empty())
    } else {
        let (r1, b1, leds, decoded) = core1_run(r, b, inputs.drop_last());
        let (now, ir_signal) = inputs.last();
        let (r2, out) = remote_step(r1, ir_signal);
        let b2 = if out is Some {
            LedBlinkerView { on: true, start_time: now }
        } else {
            blink_update(b1, now)
        };
        (r2, b2, leds.push(blink_update(b1, now).on), decoded.push(out is Some))
    }
}

/// The LED blink that iteration `j`'s command started is still running at
/// iteration `k`: no later command restarted it, and at every iteration after
/// `j` up to `k` fewer than 100 ms had passed since iteration `j`.
pub open spec fn blink_running(inputs: Seq<(u32, bool)>, decoded: Seq<bool>, j: int, k: int) -> bool {
    &&& 0 <= j < k
    &&& decoded[j]
    &&& forall|i: int| j < i < k ==> !#[trigger] decoded[i]
    &&& forall|i: int|
        j < i <= k ==> spec_elapsed_us(inputs[j].0, #[trigger] inputs[i].0) < BLINK_DURATION_US
}

proof fn lemma_core1_blink_state(r: IrRemoteView, b: LedBlinkerView, inputs: Seq<(u32, bool)>)
    requires
        !b.on,
    ensures
        core1_run(r, b, inputs).2.len() == inputs.len(),
        core1_run(r, b, inputs).3.len() == inputs.len(),
        ({
            let (_, b_n, _, decoded) = core1_run(r, b, inputs);
            let n = inputs.len() as int;
            &&& b_n.on ==> exists|j: int|
                0 <= j < n && decoded[j] && b_n.start_time == inputs[j].0 && (forall|i: int|
                    j < i < n ==> !#[trigger] decoded[i]) && (forall|i: int|
                    j < i < n ==> spec_elapsed_us(inputs[j].0, #[trigger] inputs[i].0) < BLINK_DURATION_US)
            &&& forall|j: int|
                0 <= j < n && decoded[j] && (forall|i: int| j < i < n ==> !#[trigger] decoded[i]) && (
                forall|i: int|
                    j < i < n ==> spec_elapsed_us(inputs[j].0, #[trigger] inputs[i].0)
                        < BLINK_DURATION_US) ==> b_n.on && b_n.start_time == inputs[j].0
        }),
    decreases inputs.len(),
{
    if inputs.len() > 0 {
        let prev = inputs.drop_last();
        lemma_core1_blink_state(r, b, prev);
        let n = inputs.len() as int;
        let (_, b1, _, decoded1) = core1_run(r, b, prev);
        let (_, b_n, _, decoded) = core1_run(r, b, inputs);
        assert(decoded =~= decoded1.push(decoded[n - 1]));
        assert forall|i: int| 0 <= i < n - 1 implies inputs[i] == prev[i] by {}
        if b_n.on {
            if decoded[n - 1] {
                assert(b_n.start_time == inputs[n - 1].0);
            } else {
                let j = choose|j: int|
                    0 <= j < n - 1 && decoded1[j] && b1.start_time == prev[j].0 && (forall|i: int|
                        j < i < n - 1 ==> !#[trigger] decoded1[i]) && (forall|i: int|
                        j < i < n - 1 ==> spec_elapsed_us(prev[j].0, #[trigger] prev[i].0)
                            < BLINK_DURATION_US);
                assert(decoded[j] && b_n.start_time == inputs[j].0);
                assert(forall|i: int| j < i < n ==> !#[trigger] decoded[i]);
                assert(forall|i: int|
                    j < i < n ==> spec_elapsed_us(inputs[j].0, #[trigger] inputs[i].0) < BLINK_DURATION_US);
            }
        }
        assert forall|j: int|
            0 <= j < n && decoded[j] && (forall|i: int| j < i < n ==> !#[trigger] decoded[i]) && (
            forall|i: int|
                j < i < n ==> spec_elapsed_us(inputs[j].0, #[trigger] inputs[i].0)
                    < BLINK_DURATION_US) implies b_n.on && b_n.start_time == inputs[j].0 by {
            if j < n - 1 {
                assert(!decoded[n - 1]);
                assert(decoded1[j]);
                assert(forall|i: int| j < i < n - 1 ==> !#[trigger] decoded1[i]) by {
                    assert forall|i: int| j < i < n - 1 implies !#[trigger] decoded1[i] by {
                        assert(decoded[i] == decoded1[i]);
                    }
                }
                assert(forall|i: int|
                    j < i < n - 1 ==> spec_elapsed_us(prev[j].0, #[trigger] prev[i].0) < BLINK_DURATION_US) by {
                    assert forall|i: int| j < i < n - 1 implies spec_elapsed_us(prev[j].0, #[trigger] prev[i].0)
                        < BLINK_DURATION_US by {
                        assert(inputs[i] == prev[i]);
                    }
                }
                assert(spec_elapsed_us(inputs[j].0, inputs[n - 1].0) < BLINK_DURATION_US);
            }
        }
    }
}

/// Over any run of the core 1 loop from a dark LED, iteration `k` drives the
/// LED high exactly when the blink started by the latest earlier decoded
/// command is still running: at every iteration since that command fewer than
/// 100 ms had passed since it. Once a blink ends the LED stays dark until the
/// next command, even if the timer later wraps round.
pub proof fn lemma_led_lit_after_command(r: IrRemoteView, b: LedBlinkerView, inputs: Seq<(u32, bool)>, k: int)
    requires
        !b.on,
        0 <= k < inputs.len(),
    ensures
        core1_run(r, b, inputs).2[k] == exists|j: int| blink_running(inputs, core1_run(r, b, inputs).3, j, k),
{
    let prefix = inputs.take(k + 1);
    let before = inputs.take(k);
    assert(prefix.drop_last() =~= before);
    lemma_core1_blink_state(r, b, before);
    lemma_core1_prefix(r, b, inputs, k + 1);
    let (_, b_k, _, decoded_k) = core1_run(r, b, before);
    let leds = core1_run(r, b, inputs).2;
    let decoded = core1_run(r, b, inputs).3;
    let run_prefix = core1_run(r, b, prefix);
    assert(prefix.last() == inputs[k]);
    assert(run_prefix.2 == core1_run(r, b, before).2.push(blink_update(b_k, inputs[k].0).on));
    assert(run_prefix.3 =~= decoded_k.push(run_prefix.3[k]));
    assert(leds[k] == run_prefix.2[k]);
    assert(leds[k] == blink_update(b_k, inputs[k].0).on);
    assert forall|i: int| 0 <= i < k implies decoded[i] == decoded_k[i] && inputs[i] == before[i] by {
        assert(decoded[i] == run_prefix.3[i]);
    }
    if leds[k] {
        let j = choose|j: int|
            0 <= j < k && decoded_k[j] && b_k.start_time == before[j].0 && (forall|i: int|
                j < i < k ==> !#[trigger] decoded_k[i]) && (forall|i: int|
                j < i < k ==> spec_elapsed_us(before[j].0, #[trigger] before[i].0) < BLINK_DURATION_US);
        assert(blink_running(inputs, decoded, j, k));
    }
    if exists|j: int| blink_running(inputs, decoded, j, k) {
        let j = choose|j: int| blink_running(inputs, decoded, j, k);
        assert(decoded_k[j]);
        assert(forall|i: int| j < i < k ==> !#[trigger] decoded_k[i]);
        assert(forall|i: int| j < i < k ==> spec_elapsed_us(before[j].0, #[trigger] before[i].0) < BLINK_DURATION_US);
    }
}

proof fn lemma_core1_prefix(r: IrRemoteView, b: LedBlinkerView, inputs: Seq<(u32, bool)>, n: int)
    requires
        0 <= n <= inputs.len(),
    ensures
        core1_run(r, b, inputs.take(n)).2 =~= core1_run(r, b, inputs).2.take(n),
        core1_run(r, b, inputs.take(n)).3 =~= core1_run(r, b, inputs).3.take(n),
        core1_run(r, b, inputs).2.len() == inputs.len(),
        core1_run(r, b, inputs).3.len() == inputs.len(),
    decreases inputs.len(),
{
    if inputs.len() > 0 {
        if n == inputs.len() {
            assert(inputs.take(n) =~= inputs);
            lemma_core1_prefix(r, b, inputs.drop_last(), n - 1);
        } else {
            lemma_core1_prefix(r, b, inputs.drop_last(), n);
            assert(inputs.drop_last().take(n) =~= inputs.take(n));
        }
    }
}

} // verus!
