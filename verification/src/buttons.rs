//! Button debounce, long-press, and double-tap, without blocking delays.
use vstd::prelude::*;

use crate::io::{ButtonEvents, Buttons};
use crate::state::ButtonEvent;

verus! {

pub const DEFAULT_DEBOUNCE_MS: u64 = 6;

pub const DEFAULT_REC_HOLD_MS: u64 = 350;

pub const DEFAULT_LONG_MS: u64 = 600;

pub const DEFAULT_DOUBLE_MS: u64 = 200;

/// `a - b`, floored at zero.
pub open spec fn sat_sub(a: u64, b: u64) -> u64 {
    if a >= b {
        (a - b) as u64
    } else {
        0
    }
}

/// Time-based button engine for host simulation and firmware polling.
#[derive(Debug, Clone)]
pub struct ButtonEngine {
    pub debounce_ms: u64,
    pub rec_hold_ms: u64,
    pub long_ms: u64,
    pub double_ms: u64,
    pub pwr_ready: bool,
    pub rec_down_since: Option<u64>,
    pub rec_release_at: Option<u64>,
    pub rec_waiting_double: bool,
    pub pwr_down_since: Option<u64>,
    pub idle_rec_down_since: Option<u64>,
}

/// REC level step: press start, debounce, long hold, and release bookkeeping.
pub open spec fn rec_raw_step(e: ButtonEngine, pressed: bool, now: u64) -> (ButtonEngine, ButtonEvent) {
    if !pressed {
        match e.rec_down_since {
            Some(down) => if sat_sub(now, down) >= e.long_ms {
                (ButtonEngine { rec_down_since: None, ..e }, ButtonEvent::Long)
            } else {
                (
                    ButtonEngine {
                        rec_down_since: None,
                        rec_release_at: Some(now),
                        rec_waiting_double: true,
                        ..e
                    },
                    ButtonEvent::NoEvent,
                )
            },
            None => (e, ButtonEvent::NoEvent),
        }
    } else {
        match e.rec_down_since {
            None => (ButtonEngine { rec_down_since: Some(now), ..e }, ButtonEvent::NoEvent),
            Some(down) => if sat_sub(now, down) >= e.debounce_ms && sat_sub(now, down)
                >= e.long_ms {
                (e, ButtonEvent::Long)
            } else {
                (e, ButtonEvent::NoEvent)
            },
        }
    }
}

/// Single-tap step: fires once the double-tap window after a release has passed.
pub open spec fn rec_release_step(e: ButtonEngine, now: u64) -> (ButtonEngine, ButtonEvent) {
    if e.rec_waiting_double && e.rec_release_at is Some && sat_sub(now, e.rec_release_at->0)
        >= e.double_ms {
        (
            ButtonEngine { rec_waiting_double: false, rec_release_at: None, ..e },
            ButtonEvent::Single,
        )
    } else {
        (e, ButtonEvent::NoEvent)
    }
}

/// Debounced "held down" test that records the press start.
pub open spec fn debounce_step(down_since: Option<u64>, pressed: bool, now: u64, debounce_ms: u64) -> (
    Option<u64>,
    bool,
) {
    if pressed {
        let d = match down_since {
            Some(t) => t,
            None => now,
        };
        (Some(d), sat_sub(now, d) >= debounce_ms)
    } else {
        (None, false)
    }
}

/// Double-tap step: a debounced second press inside the window after a release.
pub open spec fn rec_double_step(e: ButtonEngine, pressed: bool, now: u64) -> (ButtonEngine, ButtonEvent) {
    if e.rec_waiting_double && e.rec_release_at is Some && sat_sub(now, e.rec_release_at->0)
        <= e.double_ms && pressed {
        let (d, held) = debounce_step(e.rec_down_since, true, now, e.debounce_ms);
        if held {
            (
                ButtonEngine {
                    rec_waiting_double: false,
                    rec_release_at: None,
                    rec_down_since: None,
                    ..e
                },
                ButtonEvent::Double,
            )
        } else {
            (ButtonEngine { rec_down_since: d, ..e }, ButtonEvent::NoEvent)
        }
    } else {
        (e, ButtonEvent::NoEvent)
    }
}

/// PWR step: one `Single` per debounced press; a release re-arms it.
pub open spec fn pwr_step(e: ButtonEngine, pressed: bool, now: u64) -> (ButtonEngine, ButtonEvent) {
    if !pressed {
        (ButtonEngine { pwr_down_since: None, pwr_ready: true, ..e }, ButtonEvent::NoEvent)
    } else if !e.pwr_ready {
        (e, ButtonEvent::NoEvent)
    } else {
        let (d, held) = debounce_step(e.pwr_down_since, true, now, e.debounce_ms);
        if held {
            (ButtonEngine { pwr_down_since: d, pwr_ready: false, ..e }, ButtonEvent::Single)
        } else {
            (ButtonEngine { pwr_down_since: d, ..e }, ButtonEvent::NoEvent)
        }
    }
}

/// Idle hold step: true once REC has been held for `rec_hold_ms`.
pub open spec fn idle_hold_step(e: ButtonEngine, pressed: bool, now: u64) -> (ButtonEngine, bool) {
    if !pressed {
        (ButtonEngine { idle_rec_down_since: None, ..e }, false)
    } else {
        match e.idle_rec_down_since {
            None => (ButtonEngine { idle_rec_down_since: Some(now), ..e }, false),
            Some(down) => (e, sat_sub(now, down) >= e.rec_hold_ms),
        }
    }
}

/// The combined REC poll: double-tap first, then the level step, then the
/// single-tap window once released.
pub open spec fn rec_poll_step(e: ButtonEngine, pressed: bool, now: u64) -> (ButtonEngine, ButtonEvent) {
    let (e1, ev1) = rec_double_step(e, pressed, now);
    if ev1 == ButtonEvent::Double {
        (e1, ev1)
    } else {
        let (e2, ev2) = rec_double_step(e1, pressed, now);
        if ev2 == ButtonEvent::Double {
            (e2, ev2)
        } else {
            let (e3, ev3) = rec_raw_step(e2, pressed, now);
            if ev3 != ButtonEvent::NoEvent {
                (e3, ev3)
            } else if !pressed {
                let (e4, ev4) = rec_raw_step(e3, false, now);
                if ev4 == ButtonEvent::Long {
                    (e4, ev4)
                } else {
                    rec_release_step(e4, now)
                }
            } else {
                (e3, ButtonEvent::NoEvent)
            }
        }
    }
}

impl ButtonEngine {
    pub fn new() -> (e: Self)
        ensures
            e.debounce_ms == DEFAULT_DEBOUNCE_MS,
            e.rec_hold_ms == DEFAULT_REC_HOLD_MS,
            e.long_ms == DEFAULT_LONG_MS,
            e.double_ms == DEFAULT_DOUBLE_MS,
            e.pwr_ready,
            e.rec_down_since is None,
            e.rec_release_at is None,
            !e.rec_waiting_double,
            e.pwr_down_since is None,
            e.idle_rec_down_since is None,
    {
        Self {
            debounce_ms: DEFAULT_DEBOUNCE_MS,
            rec_hold_ms: DEFAULT_REC_HOLD_MS,
            long_ms: DEFAULT_LONG_MS,
            double_ms: DEFAULT_DOUBLE_MS,
            pwr_ready: true,
            rec_down_since: None,
            rec_release_at: None,
            rec_waiting_double: false,
            pwr_down_since: None,
            idle_rec_down_since: None,
        }
    }

    pub fn with_timing(rec_hold_ms: u64, long_ms: u64, double_ms: u64) -> (e: Self)
        ensures
            e == (ButtonEngine { rec_hold_ms, long_ms, double_ms, ..ButtonEngine::spec_new() }),
    {
        let mut e = Self::new();
        e.rec_hold_ms = rec_hold_ms;
        e.long_ms = long_ms;
        e.double_ms = double_ms;
        e
    }

    /// The freshly built engine with the default timings.
    pub open spec fn spec_new() -> ButtonEngine {
        ButtonEngine {
            debounce_ms: DEFAULT_DEBOUNCE_MS,
            rec_hold_ms: DEFAULT_REC_HOLD_MS,
            long_ms: DEFAULT_LONG_MS,
            double_ms: DEFAULT_DOUBLE_MS,
            pwr_ready: true,
            rec_down_since: None,
            rec_release_at: None,
            rec_waiting_double: false,
            pwr_down_since: None,
            idle_rec_down_since: None,
        }
    }

    fn debounced_down(down_since: &mut Option<u64>, pressed: bool, now_ms: u64, debounce_ms: u64) -> (held: bool)
        ensures
            (*final(down_since), held) == debounce_step(*old(down_since), pressed, now_ms, debounce_ms),
    {
        if pressed {
            if down_since.is_none() {
                *down_since = Some(now_ms);
            }
            match *down_since {
                Some(t) => now_ms.saturating_sub(t) >= debounce_ms,
                None => false,
            }
        } else {
            *down_since = None;
            false
        }
    }

    /// Level-driven REC poll. `Long` only fires once the press has lasted `long_ms`.
    pub fn poll_rec_raw(&mut self, pressed: bool, now_ms: u64) -> (ev: ButtonEvent)
        ensures
            (*final(self), ev) == rec_raw_step(*old(self), pressed, now_ms),
            ev == ButtonEvent::Long ==> old(self).rec_down_since is Some && sat_sub(
                now_ms,
                old(self).rec_down_since->0,
            ) >= old(self).long_ms,
            ev == ButtonEvent::Long || ev == ButtonEvent::NoEvent,
    {
        if !pressed {
            if let Some(down) = self.rec_down_since {
                self.rec_down_since = None;
                let held = now_ms.saturating_sub(down);
                if held >= self.long_ms {
                    return ButtonEvent::Long;
                }
                self.rec_release_at = Some(now_ms);
                self.rec_waiting_double = true;
            }
            return ButtonEvent::NoEvent;
        }
        if self.rec_down_since.is_none() {
            self.rec_down_since = Some(now_ms);
            return ButtonEvent::NoEvent;
        }
        let down = self.rec_down_since.unwrap();
        if now_ms.saturating_sub(down) < self.debounce_ms {
            return ButtonEvent::NoEvent;
        }
        if now_ms.saturating_sub(down) >= self.long_ms {
            return ButtonEvent::Long;
        }
        ButtonEvent::NoEvent
    }

    /// `Single` once the double-tap window after a release has elapsed.
    pub fn poll_rec_release(&mut self, now_ms: u64) -> (ev: ButtonEvent)
        ensures
            (*final(self), ev) == rec_release_step(*old(self), now_ms),
            ev == ButtonEvent::Single ==> old(self).rec_waiting_double && sat_sub(
                now_ms,
                old(self).rec_release_at->0,
            ) >= old(self).double_ms,
    {
        if !self.rec_waiting_double {
            return ButtonEvent::NoEvent;
        }
        let release = match self.rec_release_at {
            Some(t) => t,
            None => return ButtonEvent::NoEvent,
        };
        if now_ms.saturating_sub(release) < self.double_ms {
            return ButtonEvent::NoEvent;
        }
        self.rec_waiting_double = false;
        self.rec_release_at = None;
        ButtonEvent::Single
    }

    /// `Double` for a debounced second press inside the window after a release.
    pub fn poll_rec_double(&mut self, pressed: bool, now_ms: u64) -> (ev: ButtonEvent)
        ensures
            (*final(self), ev) == rec_double_step(*old(self), pressed, now_ms),
            ev == ButtonEvent::Double ==> pressed && old(self).rec_waiting_double && sat_sub(
                now_ms,
                old(self).rec_release_at->0,
            ) <= old(self).double_ms,
    {
        if !self.rec_waiting_double {
            return ButtonEvent::NoEvent;
        }
        let release = match self.rec_release_at {
            Some(t) => t,
            None => return ButtonEvent::NoEvent,
        };
        if now_ms.saturating_sub(release) > self.double_ms {
            return ButtonEvent::NoEvent;
        }
        if pressed && Self::debounced_down(&mut self.rec_down_since, true, now_ms, self.debounce_ms) {
            self.rec_waiting_double = false;
            self.rec_release_at = None;
            self.rec_down_since = None;
            return ButtonEvent::Double;
        }
        ButtonEvent::NoEvent
    }

    /// One `Single` per debounced PWR press; nothing more until it is released.
    pub fn poll_pwr_raw(&mut self, pressed: bool, now_ms: u64) -> (ev: ButtonEvent)
        ensures
            (*final(self), ev) == pwr_step(*old(self), pressed, now_ms),
            ev == ButtonEvent::Single ==> pressed && old(self).pwr_ready && !final(self).pwr_ready,
    {
        if !pressed {
            self.pwr_down_since = None;
            self.pwr_ready = true;
            return ButtonEvent::NoEvent;
        }
        if !self.pwr_ready {
            return ButtonEvent::NoEvent;
        }
        if Self::debounced_down(&mut self.pwr_down_since, pressed, now_ms, self.debounce_ms) {
            self.pwr_ready = false;
            return ButtonEvent::Single;
        }
        ButtonEvent::NoEvent
    }

    /// True once REC has been held for `rec_hold_ms` from the first pressed poll.
    pub fn poll_idle_rec_hold(&mut self, pressed: bool, now_ms: u64) -> (held: bool)
        ensures
            (*final(self), held) == idle_hold_step(*old(self), pressed, now_ms),
    {
        if !pressed {
            self.idle_rec_down_since = None;
            return false;
        }
        if self.idle_rec_down_since.is_none() {
            self.idle_rec_down_since = Some(now_ms);
            return false;
        }
        let down = self.idle_rec_down_since.unwrap();
        now_ms.saturating_sub(down) >= self.rec_hold_ms
    }

    /// The whole REC decision for one poll given the pin level read this poll.
    pub fn poll_rec_level(&mut self, pressed: bool, now_ms: u64) -> (ev: ButtonEvent)
        ensures
            (*final(self), ev) == rec_poll_step(*old(self), pressed, now_ms),
    {
        let ev = self.poll_rec_double(pressed, now_ms);
        if ev == ButtonEvent::Long || ev == ButtonEvent::Double {
            return ev;
        }
        let ev = self.poll_rec_double(pressed, now_ms);
        if ev == ButtonEvent::Double {
            return ev;
        }
        let raw = self.poll_rec_raw(pressed, now_ms);
        if raw != ButtonEvent::NoEvent {
            return raw;
        }
        if !pressed {
            let ev = self.poll_rec_raw(false, now_ms);
            if ev == ButtonEvent::Long {
                return ev;
            }
            return self.poll_rec_release(now_ms);
        }
        ButtonEvent::NoEvent
    }
}

impl Default for ButtonEngine {
    fn default() -> (e: Self)
        ensures
            e == ButtonEngine::spec_new(),
    {
        Self::new()
    }
}

/// After a PWR `Single`, holding the button yields nothing until it is released,
/// and a release makes the next debounced press count again.
pub proof fn lemma_pwr_single_needs_release(e: ButtonEngine, t1: u64, t2: u64, t3: u64)
    requires
        pwr_step(e, true, t1).1 == ButtonEvent::Single,
    ensures
        pwr_step(pwr_step(e, true, t1).0, true, t2).1 == ButtonEvent::NoEvent,
        pwr_step(pwr_step(e, true, t1).0, false, t3).0.pwr_ready,
{
}

/// Adapter that reads pin levels from a `Buttons` trait implementation.
pub struct ButtonPoller<B: Buttons> {
    pub engine: ButtonEngine,
    pub pins: B,
}

impl<B: Buttons> ButtonPoller<B> {
    pub fn new(pins: B) -> (p: Self)
        ensures
            p.engine == ButtonEngine::spec_new(),
            p.pins == pins,
    {
        Self { engine: ButtonEngine::new(), pins }
    }

    pub fn pins(&self) -> (p: &B)
        ensures
            *p == self.pins,
    {
        &self.pins
    }

    pub fn pins_mut(&mut self) -> (p: &mut B)
        ensures
            *p == old(self).pins,
            final(self).pins == *final(p),
            final(self).engine == old(self).engine,
    {
        &mut self.pins
    }

    /// Current REC level as the pins report it.
    pub fn rec_pressed(&self) -> bool {
        self.pins.rec_pressed()
    }
}

impl<B: Buttons> ButtonEvents for ButtonPoller<B> {
    fn poll_rec(&mut self, now_ms: u64) -> (ev: ButtonEvent)
        ensures
            exists|pressed: bool|
                (#[trigger] rec_poll_step(old(self).engine, pressed, now_ms)) == (
                    final(self).engine,
                    ev,
                ),
    {
        let pressed = self.pins.rec_pressed();
        self.engine.poll_rec_level(pressed, now_ms)
    }

    fn poll_pwr(&mut self, now_ms: u64) -> (ev: ButtonEvent)
        ensures
            exists|pressed: bool|
                (#[trigger] pwr_step(old(self).engine, pressed, now_ms)) == (final(self).engine, ev),
    {
        let pressed = self.pins.pwr_pressed();
        self.engine.poll_pwr_raw(pressed, now_ms)
    }

    fn idle_rec_hold_started(&mut self, now_ms: u64) -> (held: bool)
        ensures
            exists|pressed: bool|
                (#[trigger] idle_hold_step(old(self).engine, pressed, now_ms)) == (
                    final(self).engine,
                    held,
                ),
    {
        let pressed = self.pins.rec_pressed();
        self.engine.poll_idle_rec_hold(pressed, now_ms)
    }
}

} // verus!
