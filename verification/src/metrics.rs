//! Output metrics of a device's frame loop: frames sent, output rate, liveness.

use vstd::prelude::*;

verus! {

/// Milliseconds since the Unix epoch by the wall clock (0 before the epoch).
///
/// Wraps `SystemTime::now()`; nothing is stated of the reading, which depends on the clock.
#[verifier::external_body]
fn wall_ms() -> (r: u64) {
    std::time::SystemTime::now().duration_since(std::time::UNIX_EPOCH).unwrap_or_default().as_millis() as u64
}

/// Time since `last_ms` as of `now_ms`; a clock that stepped back gives 0.
pub open spec fn spec_stale_ms(now_ms: u64, last_ms: u64) -> u64 {
    if now_ms >= last_ms {
        (now_ms - last_ms) as u64
    } else {
        0
    }
}

/// Time since `last_ms` as of `now_ms`; a clock that stepped back gives 0.
pub fn stale_ms(now_ms: u64, last_ms: u64) -> (r: u64)
    ensures
        r == spec_stale_ms(now_ms, last_ms),
{
    now_ms.saturating_sub(last_ms)
}

/// Frame counter, output rate and liveness of one device's frame loop, owned by that
/// loop (a caller that shares it between tasks puts it behind a lock).
pub struct OutputMetrics {
    frames_sent: u64,
    fps_out_bits: u64,
    last_tick_wall_ms: u64,
}

impl OutputMetrics {
    /// Frames sent so far.
    pub closed spec fn sent(&self) -> u64 {
        self.frames_sent
    }

    /// Output rate, as the bit pattern of an `f64`.
    pub closed spec fn rate_bits(&self) -> u64 {
        self.fps_out_bits
    }

    /// Wall-clock milliseconds of the last frame-loop tick.
    pub closed spec fn last_tick(&self) -> u64 {
        self.last_tick_wall_ms
    }

    /// No frames sent, output rate 0 (the bits of `0.0`), last tick now.
    pub fn new() -> (r: Self)
        ensures
            r.sent() == 0,
            r.rate_bits() == 0,
    {
        let now = wall_ms();
        OutputMetrics { frames_sent: 0, fps_out_bits: 0, last_tick_wall_ms: now }
    }

    /// Records that the frame loop ran now.
    pub fn mark_tick(&mut self)
        ensures
            final(self).sent() == old(self).sent(),
            final(self).rate_bits() == old(self).rate_bits(),
    {
        self.last_tick_wall_ms = wall_ms();
    }

    /// Counts one more frame sent (wrapping at `u64::MAX`).
    pub fn increment_frames_sent(&mut self)
        ensures
            final(self).sent() == (if old(self).sent() == u64::MAX {
                0
            } else {
                old(self).sent() + 1
            }),
            final(self).rate_bits() == old(self).rate_bits(),
            final(self).last_tick() == old(self).last_tick(),
    {
        self.frames_sent = self.frames_sent.wrapping_add(1);
    }

    /// Frames sent so far.
    pub fn frames_sent(&self) -> (r: u64)
        ensures
            r == self.sent(),
    {
        self.frames_sent
    }

    /// Stores the output rate, given as the bit pattern of an `f64`.
    pub fn store_fps_out_bits(&mut self, bits: u64)
        ensures
            final(self).rate_bits() == bits,
            final(self).sent() == old(self).sent(),
            final(self).last_tick() == old(self).last_tick(),
    {
        self.fps_out_bits = bits;
    }

    /// The output rate, as the bit pattern of an `f64` (0 is `0.0`).
    pub fn fps_out_bits(&self) -> (r: u64)
        ensures
            r == self.rate_bits(),
    {
        self.fps_out_bits
    }

    /// Milliseconds from the last frame-loop tick to `now_ms`; 0 when the clock
    /// stepped back.
    pub fn stale_ms_at(&self, now_ms: u64) -> (r: u64)
        ensures
            r == spec_stale_ms(now_ms, self.last_tick()),
    {
        stale_ms(now_ms, self.last_tick_wall_ms)
    }

    /// Milliseconds since the last frame-loop tick by the wall clock: `stale_ms_at`
    /// of the clock reading taken in the call.
    pub fn frame_loop_stale_ms(&self) -> (r: u64)
        ensures
            exists|now_ms: u64| r == spec_stale_ms(now_ms, self.last_tick()),
    {
        let now = wall_ms();
        self.stale_ms_at(now)
    }
}

} // verus!
