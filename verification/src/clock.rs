//! Arithmetic on the free-running 32-bit microsecond timer.
use vstd::prelude::*;

verus! {

/// Microseconds elapsed between two readings of the wrapping 32-bit timer.
pub open spec fn spec_elapsed_us(start: u32, now: u32) -> u32 {
    if now >= start { (now - start) as u32 } else { (now - start + 0x1_0000_0000) as u32 }
}

/// Elapsed time from `start` to `now`, tolerant of one timer roll-over.
pub fn elapsed_us(start: u32, now: u32) -> (r: u32)
    ensures
        r == spec_elapsed_us(start, now),
{
    now.wrapping_sub(start)
}

/// The elapsed time is what must be added to `start`, modulo 2^32, to reach
/// `now`, and it is less than 2^32.
pub proof fn lemma_elapsed_reaches_now(start: u32, now: u32)
    ensures
        0 <= spec_elapsed_us(start, now) < 0x1_0000_0000,
        (start as int + spec_elapsed_us(start, now) as int) % 0x1_0000_0000 == now as int,
{
}

/// Whether a busy-wait of `us` microseconds begun at `start` is over at `now`.
pub fn delay_done(start: u32, now: u32, us: u32) -> (r: bool)
    ensures
        r == (spec_elapsed_us(start, now) >= us),
{
    elapsed_us(start, now) >= us
}

} // verus!
