//! Buzzer tones: how a note becomes a square wave, and the notes of the
//! board's two sounds.
use vstd::prelude::*;

verus! {

/// "Uh-oh" high note, Hz.
pub const ERROR_HIGH_HZ: u32 = 400;
/// "Uh-oh" low note, a descending minor third below, Hz.
pub const ERROR_LOW_HZ: u32 = 320;
/// A4, Hz.
pub const A4_HZ: u32 = 440;
/// C#5, Hz.
pub const CS5_HZ: u32 = 554;
/// E5, Hz.
pub const E5_HZ: u32 = 659;
/// A5, Hz.
pub const A5_HZ: u32 = 880;

/// How one note is played.
#[derive(Debug, Clone, Copy, PartialEq, Eq, Structural)]
pub enum TonePlan {
    /// Frequency 0: stay silent for the note's duration.
    Silence { duration_ms: u32 },
    /// Drive the buzzer high then low for `half_period_us` each, `cycles` times.
    Square { half_period_us: u32, cycles: u32 },
}

/// One element of a sound: a note, or a pause between notes.
#[derive(Debug, Clone, Copy, PartialEq, Eq, Structural)]
pub enum Sound {
    Tone { freq_hz: u32, duration_ms: u32 },
    Pause { duration_ms: u32 },
}

/// A note that `plan_tone` can plan: silence, or a frequency of at most
/// 500 kHz (a half period of at least 1 µs) whose duration in microseconds
/// fits in 32 bits.
pub open spec fn is_playable(freq_hz: u32, duration_ms: u32) -> bool {
    freq_hz == 0 || (freq_hz <= 500_000 && duration_ms * 1000 <= u32::MAX)
}

/// Every note of a sound is playable.
pub open spec fn all_playable(sounds: Seq<Sound>) -> bool {
    forall|i: int|
        0 <= i < sounds.len() ==> match #[trigger] sounds[i] {
            Sound::Tone { freq_hz, duration_ms } => is_playable(freq_hz, duration_ms),
            Sound::Pause { .. } => true,
        }
}

/// The square wave for a note of `freq_hz` lasting `duration_ms`: a half
/// period of `500_000 / freq_hz` µs, repeated for as many whole periods as fit
/// in the duration. Frequency 0 is silence for the duration.
pub fn plan_tone(freq_hz: u32, duration_ms: u32) -> (r: TonePlan)
    requires
        is_playable(freq_hz, duration_ms),
    ensures
        freq_hz == 0 ==> r == (TonePlan::Silence { duration_ms }),
        freq_hz != 0 ==> r == (TonePlan::Square {
            half_period_us: (500_000u32 / freq_hz) as u32,
            cycles: ((duration_ms * 1000) / ((500_000u32 / freq_hz) * 2)) as u32,
        }),
        r matches TonePlan::Square { half_period_us, cycles } ==> half_period_us >= 1 && cycles * 2
            * half_period_us <= duration_ms * 1000,
        r matches TonePlan::Square { half_period_us, cycles } ==> half_period_us * freq_hz <= 500_000
            < (half_period_us + 1) * freq_hz && duration_ms * 1000 < (cycles + 1) * 2 * half_period_us,
{
    // Frequency 0 would divide by zero.
    if freq_hz == 0 {
        return TonePlan::Silence { duration_ms };
    }
    let half_period_us = 500_000 / freq_hz;
    assert(half_period_us >= 1) by (nonlinear_arith)
        requires
            0 < freq_hz <= 500_000,
            half_period_us == 500_000u32 / freq_hz,
    ;
    let duration_us = duration_ms * 1000;
    let cycles = duration_us / (half_period_us * 2);
    proof {
        let p = (half_period_us * 2) as int;
        assert(p > 0);
        assert((duration_us as int / p) * p <= duration_us as int) by (nonlinear_arith)
            requires
                p > 0,
                duration_us >= 0,
        ;
        assert(cycles * 2 * half_period_us == (duration_us as int / p) * p) by (nonlinear_arith)
            requires
                p == half_period_us * 2,
                cycles == duration_us as int / p,
        ;
        assert(duration_us < (cycles + 1) * 2 * half_period_us) by (nonlinear_arith)
            requires
                p == half_period_us * 2,
                p > 0,
                cycles == duration_us as int / p,
        ;
        assert(half_period_us * freq_hz <= 500_000 < (half_period_us + 1) * freq_hz) by (nonlinear_arith)
            requires
                freq_hz > 0,
                half_period_us == 500_000u32 / freq_hz,
        ;
    }
    TonePlan::Square { half_period_us, cycles }
}

/// The error sound: a descending minor third, like "uh-oh".
pub fn error_beep_sounds() -> (r: [Sound; 3])
    ensures
        r@ == seq![
            Sound::Tone { freq_hz: ERROR_HIGH_HZ, duration_ms: 150 },
            Sound::Pause { duration_ms: 50 },
            Sound::Tone { freq_hz: ERROR_LOW_HZ, duration_ms: 300 },
        ],
        all_playable(r@),
{
    [
        Sound::Tone { freq_hz: ERROR_HIGH_HZ, duration_ms: 150 },
        Sound::Pause { duration_ms: 50 },
        Sound::Tone { freq_hz: ERROR_LOW_HZ, duration_ms: 300 },
    ]
}

/// The treasure-chest sound: a quick ascending A major arpeggio, then a
/// sustained high A.
pub fn zelda_chest_sounds() -> (r: [Sound; 4])
    ensures
        r@ == seq![
            Sound::Tone { freq_hz: A4_HZ, duration_ms: 100 },
            Sound::Tone { freq_hz: CS5_HZ, duration_ms: 100 },
            Sound::Tone { freq_hz: E5_HZ, duration_ms: 100 },
            Sound::Tone { freq_hz: A5_HZ, duration_ms: 600 },
        ],
        all_playable(r@),
{
    [
        Sound::Tone { freq_hz: A4_HZ, duration_ms: 100 },
        Sound::Tone { freq_hz: CS5_HZ, duration_ms: 100 },
        Sound::Tone { freq_hz: E5_HZ, duration_ms: 100 },
        Sound::Tone { freq_hz: A5_HZ, duration_ms: 600 },
    ]
}

} // verus!
