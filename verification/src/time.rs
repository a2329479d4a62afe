//! NTP sync policy: the server list and the time-ready gate.
use vstd::prelude::*;

verus! {

/// NTP servers tried in order.
pub const NTP_SERVERS: [&'static str; 3] = ["pool.ntp.org", "time.google.com", "time.cloudflare.com"];

/// Tracks whether device time is trusted for note timestamps.
#[derive(Debug, Clone, PartialEq, Eq)]
pub struct TimeSyncState {
    pub time_ready: bool,
    pub server_index: usize,
    pub attempts: u32,
}

impl TimeSyncState {
    pub fn new() -> (t: Self)
        ensures
            t == (TimeSyncState { time_ready: false, server_index: 0, attempts: 0 }),
    {
        Self { time_ready: false, server_index: 0, attempts: 0 }
    }

    pub fn with_time_ready(ready: bool) -> (t: Self)
        ensures
            t == (TimeSyncState { time_ready: ready, server_index: 0, attempts: 0 }),
    {
        Self { time_ready: ready, ..Self::new() }
    }

    /// Current NTP server hostname for this attempt.
    pub fn current_server(&self) -> (s: &'static str)
        ensures
            s == NTP_SERVERS[(self.server_index % 3) as int],
    {
        NTP_SERVERS[self.server_index % 3]
    }

    /// Advance to next server after a failed sync attempt.
    pub fn on_sync_failed(&mut self)
        requires
            old(self).attempts < u32::MAX,
        ensures
            final(self).attempts == old(self).attempts + 1,
            final(self).server_index == (old(self).server_index + 1) % 3,
            final(self).time_ready == old(self).time_ready,
    {
        self.attempts += 1;
        self.server_index = (self.server_index % 3 + 1) % 3;
    }

    /// Mark time as ready after successful NTP + RTC write.
    pub fn on_sync_success(&mut self)
        ensures
            final(self).time_ready,
            final(self).attempts == 0,
            final(self).server_index == old(self).server_index,
    {
        self.time_ready = true;
        self.attempts = 0;
    }

    pub fn attempt_count(&self) -> (n: u32)
        ensures
            n == self.attempts,
    {
        self.attempts
    }

    /// Gate note `created_utc` until NTP has run at least once.
    pub fn can_stamp_notes(&self) -> (r: bool)
        ensures
            r == self.time_ready,
    {
        self.time_ready
    }
}

impl Default for TimeSyncState {
    fn default() -> (t: Self)
        ensures
            t == (TimeSyncState { time_ready: false, server_index: 0, attempts: 0 }),
    {
        Self::new()
    }
}

/// Three failures in a row come back to the first server.
pub proof fn lemma_servers_cycle(i: usize)
    ensures
        (((((i + 1) % 3) + 1) % 3) + 1) % 3 == i % 3,
{
}

} // verus!
