//! Progress reporting of a parallel download: smoothed speed, time left, and when to persist.

use vstd::prelude::*;
use crate::downloader::rate::{
    eta_secs, eta_spec, rate_per_sec, rate_spec, remaining_bytes, sat_mul, sat_sub,
    saturating_mul, elapsed_millis, elapsed_ms_u64,
};

verus! {

/// Interval between progress reports, in milliseconds.
pub const REPORT_INTERVAL_MS: u64 = 400;

/// Interval between saves of the download state, in milliseconds.
pub const SAVE_INTERVAL_MS: u128 = 2000;

/// One progress report: bytes done, bytes in all, bytes per second, seconds left.
#[derive(Debug, Clone, Copy, PartialEq, Eq, Structural)]
pub struct ProgressReport {
    pub downloaded: u64,
    pub total: u64,
    pub speed: u64,
    pub eta: u64,
}

/// What the reporter remembers between ticks.
#[derive(Debug, Clone, Copy, PartialEq, Eq, Structural)]
pub struct ProgressTracker {
    pub last_downloaded: u64,
    pub smoothed_speed: u64,
}

/// Speed measured over the last tick.
pub open spec fn instant_speed(t: ProgressTracker, total_dl: u64, elapsed_ms: u128) -> int {
    rate_spec(sat_sub(total_dl as int, t.last_downloaded as int), elapsed_ms_u64(elapsed_ms) as int)
}

/// Smoothed speed after a tick: the measurement itself at first, then seven tenths of the old
/// value plus three tenths of the new one.
pub open spec fn smoothed_after(t: ProgressTracker, total_dl: u64, elapsed_ms: u128) -> int {
    let inst = instant_speed(t, total_dl, elapsed_ms);
    if t.smoothed_speed == 0 {
        inst
    } else {
        (sat_mul(t.smoothed_speed as int, 7) + sat_mul(inst, 3)) / 10
    }
}

/// The blend of old and new speed stays within `u64` (it overflows only for absurd speeds).
pub open spec fn tick_fits(t: ProgressTracker, total_dl: u64, elapsed_ms: u128) -> bool {
    t.smoothed_speed == 0 || sat_mul(t.smoothed_speed as int, 7) + sat_mul(
        instant_speed(t, total_dl, elapsed_ms),
        3,
    ) <= u64::MAX
}

impl ProgressTracker {
    /// A tracker starting from the bytes already on disk.
    pub fn new(initial_downloaded: u64) -> (r: ProgressTracker)
        ensures
            r.last_downloaded == initial_downloaded,
            r.smoothed_speed == 0,
    {
        ProgressTracker { last_downloaded: initial_downloaded, smoothed_speed: 0 }
    }

    /// Whether a tick with these figures keeps the blended speed within `u64`.
    pub fn tick_fits_check(&self, total_dl: u64, elapsed_ms: u128) -> (r: bool)
        ensures
            r == tick_fits(*self, total_dl, elapsed_ms),
    {
        if self.smoothed_speed == 0 {
            return true;
        }
        let inst = rate_per_sec(remaining_bytes(total_dl, self.last_downloaded), elapsed_millis(elapsed_ms));
        let a = saturating_mul(self.smoothed_speed, 7);
        let b = saturating_mul(inst, 3);
        a <= u64::MAX - b
    }

    /// One reporting tick: measures, smooths, estimates the time left and remembers the count.
    pub fn tick(&mut self, total_dl: u64, total_size: u64, elapsed_ms: u128) -> (r: ProgressReport)
        requires
            tick_fits(*old(self), total_dl, elapsed_ms),
        ensures
            final(self).last_downloaded == total_dl,
            final(self).smoothed_speed == smoothed_after(*old(self), total_dl, elapsed_ms),
            r.downloaded == total_dl,
            r.total == total_size,
            r.speed == final(self).smoothed_speed,
            r.eta == eta_spec(sat_sub(total_size as int, total_dl as int), r.speed as int),
    {
        let elapsed = elapsed_millis(elapsed_ms);
        let delta = remaining_bytes(total_dl, self.last_downloaded);
        let inst = rate_per_sec(delta, elapsed);
        let smoothed = if self.smoothed_speed == 0 {
            inst
        } else {
            (saturating_mul(self.smoothed_speed, 7) + saturating_mul(inst, 3)) / 10
        };
        let rem = remaining_bytes(total_size, total_dl);
        let eta = eta_secs(rem, smoothed);
        self.smoothed_speed = smoothed;
        self.last_downloaded = total_dl;
        ProgressReport { downloaded: total_dl, total: total_size, speed: smoothed, eta }
    }
}

/// Whether enough time passed since the last save to persist the state again.
pub fn should_save(since_last_save_ms: u128) -> (r: bool)
    ensures
        r == (since_last_save_ms >= SAVE_INTERVAL_MS),
{
    since_last_save_ms >= SAVE_INTERVAL_MS
}

} // verus!
