//! Ultra-sleep and activity timer logic (the deep sleep itself is the board's).
use vstd::prelude::*;

use crate::buttons::sat_sub;
use crate::state::AppState;

verus! {

pub const DEFAULT_ULTRA_SLEEP_MS: u64 = 120_000;

pub const BAT_WARN_OVERLAY_MS: u64 = 2_500;

/// Tracks idle time and decides when ultra-sleep should trigger.
#[derive(Debug, Clone, PartialEq, Eq)]
pub struct ActivityTimer {
    pub ultra_sleep_ms: u64,
    pub last_activity_ms: u64,
    pub low_battery_latched: bool,
    pub battery_warn_until_ms: Option<u64>,
}

/// Screens during which the device never goes to ultra-sleep.
pub open spec fn keeps_awake(state: AppState) -> bool {
    state == AppState::Recording || state == AppState::Transfer || state == AppState::Error
}

impl ActivityTimer {
    pub fn new(ultra_sleep_ms: u64) -> (t: Self)
        ensures
            t == (ActivityTimer {
                ultra_sleep_ms,
                last_activity_ms: 0,
                low_battery_latched: false,
                battery_warn_until_ms: None,
            }),
    {
        Self {
            ultra_sleep_ms,
            last_activity_ms: 0,
            low_battery_latched: false,
            battery_warn_until_ms: None,
        }
    }

    pub fn reset_activity(&mut self, now_ms: u64)
        ensures
            *final(self) == (ActivityTimer { last_activity_ms: now_ms, ..*old(self) }),
    {
        self.last_activity_ms = now_ms;
    }

    pub fn idle_ms(&self, now_ms: u64) -> (ms: u64)
        ensures
            ms == sat_sub(now_ms, self.last_activity_ms),
    {
        now_ms.saturating_sub(self.last_activity_ms)
    }

    /// Sleep once idle for `ultra_sleep_ms`, except while recording, transferring
    /// or showing an error.
    pub fn should_ultra_sleep(&self, state: AppState, now_ms: u64) -> (r: bool)
        ensures
            r == (!keeps_awake(state) && sat_sub(now_ms, self.last_activity_ms)
                >= self.ultra_sleep_ms),
    {
        if state == AppState::Recording || state == AppState::Transfer || state == AppState::Error {
            return false;
        }
        self.idle_ms(now_ms) >= self.ultra_sleep_ms
    }

    /// Latch the low-battery warning at or below `low_threshold` (showing the
    /// overlay for `BAT_WARN_OVERLAY_MS`), release it at or above `recover_threshold`.
    pub fn update_battery_warning(
        &mut self,
        percent: Option<u8>,
        low_threshold: u8,
        recover_threshold: u8,
        now_ms: u64,
    ) -> (warned: bool)
        requires
            percent matches Some(p) && p <= low_threshold ==> now_ms + BAT_WARN_OVERLAY_MS
                <= u64::MAX,
        ensures
            match percent {
                None => !warned && *final(self) == *old(self),
                Some(p) => if p <= low_threshold {
                    warned && *final(self) == (ActivityTimer {
                        low_battery_latched: true,
                        battery_warn_until_ms: Some((now_ms + BAT_WARN_OVERLAY_MS) as u64),
                        ..*old(self)
                    })
                } else if p >= recover_threshold {
                    !warned && *final(self) == (ActivityTimer {
                        low_battery_latched: false,
                        ..*old(self)
                    })
                } else {
                    !warned && *final(self) == *old(self)
                },
            },
    {
        let pct = match percent {
            Some(p) => p,
            None => return false,
        };
        if pct <= low_threshold {
            self.low_battery_latched = true;
            self.battery_warn_until_ms = Some(now_ms + BAT_WARN_OVERLAY_MS);
            return true;
        }
        if pct >= recover_threshold {
            self.low_battery_latched = false;
        }
        false
    }

    pub fn battery_warning_active(&self, now_ms: u64) -> (r: bool)
        ensures
            r == (self.battery_warn_until_ms matches Some(until) && now_ms < until),
    {
        match self.battery_warn_until_ms {
            Some(until) => now_ms < until,
            None => false,
        }
    }

    pub fn clear_battery_warning_overlay(&mut self)
        ensures
            *final(self) == (ActivityTimer { battery_warn_until_ms: None, ..*old(self) }),
    {
        self.battery_warn_until_ms = None;
    }
}

impl Default for ActivityTimer {
    fn default() -> (t: Self)
        ensures
            t == (ActivityTimer {
                ultra_sleep_ms: DEFAULT_ULTRA_SLEEP_MS,
                last_activity_ms: 0,
                low_battery_latched: false,
                battery_warn_until_ms: None,
            }),
    {
        Self::new(DEFAULT_ULTRA_SLEEP_MS)
    }
}

/// Wake cause after deep sleep (host-simulated).
#[derive(Debug, Clone, Copy, PartialEq, Eq, Structural)]
pub enum WakeCause {
    PowerOn,
    RecHeld,
    PwrHeld,
    Timer,
}

/// Map the GPIO wake mask (EXT1 on REC+PWR) to a cause; REC wins over PWR.
pub fn wake_cause_from_pins(rec_held: bool, pwr_held: bool) -> (c: WakeCause)
    ensures
        c == (if rec_held {
            WakeCause::RecHeld
        } else if pwr_held {
            WakeCause::PwrHeld
        } else {
            WakeCause::PowerOn
        }),
{
    if rec_held {
        WakeCause::RecHeld
    } else if pwr_held {
        WakeCause::PwrHeld
    } else {
        WakeCause::PowerOn
    }
}

/// Activity resets the idle clock: right after `reset_activity(t)` nothing sleeps
/// before another `ultra_sleep_ms` have passed.
pub proof fn lemma_activity_postpones_sleep(t: ActivityTimer, now: u64, later: u64, s: AppState)
    requires
        now <= later,
        later - now < t.ultra_sleep_ms,
    ensures
        !(!keeps_awake(s) && sat_sub(later, (ActivityTimer { last_activity_ms: now, ..t }).last_activity_ms)
            >= t.ultra_sleep_ms),
{
}

} // verus!
