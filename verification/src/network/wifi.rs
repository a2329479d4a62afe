//! WiFi connect policy as pure functions: retries, timeouts and the retry UI.
use vstd::prelude::*;

verus! {

#[derive(Debug, Clone, Copy, PartialEq, Eq, Structural)]
pub enum WifiMode {
    Off,
    Sta,
}

#[derive(Debug, Clone, Copy, PartialEq, Eq, Structural)]
pub enum WifiConnectPhase {
    Idle,
    Connecting { attempt: u32, max_attempts: u32 },
    Connected,
    Failed,
}

/// Sync flow: up to 20 tries × 500 ms.
pub const SYNC_MAX_ATTEMPTS: u32 = 20;

pub const SYNC_RETRY_MS: u64 = 500;

/// Transfer mode: up to 24 tries.
pub const TRANSFER_MAX_ATTEMPTS: u32 = 24;

/// Advance connect state given whether the underlying stack reports connected.
/// A connecting phase keeps the attempt limit it started with.
pub fn advance_wifi_connect(
    phase: WifiConnectPhase,
    connected: bool,
    elapsed_ms: u64,
    retry_ms: u64,
    max_attempts: u32,
) -> (next: WifiConnectPhase)
    ensures
        next == match phase {
            WifiConnectPhase::Idle => WifiConnectPhase::Connecting { attempt: 1, max_attempts },
            WifiConnectPhase::Connecting { attempt, max_attempts: m } => if connected {
                WifiConnectPhase::Connected
            } else if elapsed_ms < retry_ms {
                phase
            } else if attempt >= m {
                WifiConnectPhase::Failed
            } else {
                WifiConnectPhase::Connecting { attempt: (attempt + 1) as u32, max_attempts: m }
            },
            other => other,
        },
{
    match phase {
        WifiConnectPhase::Idle => WifiConnectPhase::Connecting { attempt: 1, max_attempts },
        WifiConnectPhase::Connecting { attempt, max_attempts } => {
            if connected {
                return WifiConnectPhase::Connected;
            }
            if elapsed_ms < retry_ms {
                return WifiConnectPhase::Connecting { attempt, max_attempts };
            }
            if attempt >= max_attempts {
                WifiConnectPhase::Failed
            } else {
                WifiConnectPhase::Connecting { attempt: attempt + 1, max_attempts }
            }
        },
        other => other,
    }
}

/// After sync completes WiFi is disconnected.
pub fn post_sync_policy() -> (m: WifiMode)
    ensures
        m == WifiMode::Off,
{
    WifiMode::Off
}

/// Connected and Failed are final: no further step leaves them.
pub proof fn lemma_terminal_phases(c: bool, e: u64, r: u64, m: u32)
    ensures
        advance_wifi_connect_spec(WifiConnectPhase::Connected, c, e, r, m)
            == WifiConnectPhase::Connected,
        advance_wifi_connect_spec(WifiConnectPhase::Failed, c, e, r, m) == WifiConnectPhase::Failed,
{
}

/// The step relation `advance_wifi_connect` computes.
pub open spec fn advance_wifi_connect_spec(
    phase: WifiConnectPhase,
    connected: bool,
    elapsed_ms: u64,
    retry_ms: u64,
    max_attempts: u32,
) -> WifiConnectPhase {
    match phase {
        WifiConnectPhase::Idle => WifiConnectPhase::Connecting { attempt: 1, max_attempts },
        WifiConnectPhase::Connecting { attempt, max_attempts: m } => if connected {
            WifiConnectPhase::Connected
        } else if elapsed_ms < retry_ms {
            phase
        } else if attempt >= m {
            WifiConnectPhase::Failed
        } else {
            WifiConnectPhase::Connecting { attempt: (attempt + 1) as u32, max_attempts: m }
        },
        other => other,
    }
}

/// Each failed retry counts one attempt, and a connecting phase never counts past
/// its limit: it fails instead.
pub proof fn lemma_attempts_bounded(attempt: u32, m: u32, e: u64, r: u64, mx: u32)
    requires
        attempt <= m,
    ensures
        advance_wifi_connect_spec(
            WifiConnectPhase::Connecting { attempt, max_attempts: m },
            false,
            e,
            r,
            mx,
        ) matches WifiConnectPhase::Connecting { attempt: a2, max_attempts: m2 } ==> a2 <= m2
            && m2 == m,
{
}

} // verus!
