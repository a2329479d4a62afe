//! QR scan → string state machine (OLED UI track).
use vstd::prelude::*;

use crate::error::{CoreError, CoreResult};

verus! {

/// Screens for the QR scan product.
#[derive(Debug, Clone, Copy, PartialEq, Eq, Hash, Structural)]
pub enum QrAppState {
    Idle,
    Aiming,
    Decoded,
    Fail,
    Export,
}

/// Transition events for the QR scan state machine.
#[derive(Debug, Clone, Copy, PartialEq, Eq, Hash, Structural)]
pub enum QrTransition {
    StartScan,
    DebounceAccepted,
    ScanTimeout,
    Accept,
    Retry,
    DismissFail,
    ExportDone,
}

/// The scan transition table.
pub open spec fn qr_transition_target(s: QrAppState, e: QrTransition) -> Option<QrAppState> {
    match (s, e) {
        (QrAppState::Idle, QrTransition::StartScan) => Some(QrAppState::Aiming),
        (QrAppState::Fail, QrTransition::StartScan) => Some(QrAppState::Aiming),
        (QrAppState::Aiming, QrTransition::DebounceAccepted) => Some(QrAppState::Decoded),
        (QrAppState::Aiming, QrTransition::ScanTimeout) => Some(QrAppState::Fail),
        (QrAppState::Decoded, QrTransition::Accept) => Some(QrAppState::Export),
        (QrAppState::Export, QrTransition::ExportDone) => Some(QrAppState::Idle),
        (QrAppState::Decoded, QrTransition::Retry) => Some(QrAppState::Aiming),
        (QrAppState::Fail, QrTransition::Retry) => Some(QrAppState::Aiming),
        (QrAppState::Fail, QrTransition::DismissFail) => Some(QrAppState::Idle),
        _ => None,
    }
}

/// Testable QR scan state machine with explicit transitions.
#[derive(Debug, Clone, PartialEq, Eq)]
pub struct QrStateMachine {
    pub state: QrAppState,
}

impl QrStateMachine {
    pub fn new() -> (sm: Self)
        ensures
            sm.state == QrAppState::Idle,
    {
        Self { state: QrAppState::Idle }
    }

    pub fn state(&self) -> (s: QrAppState)
        ensures
            s == self.state,
    {
        self.state
    }

    /// Apply one event; a refused event leaves the screen unchanged.
    pub fn apply(&mut self, event: QrTransition) -> (res: CoreResult<QrAppState>)
        ensures
            match qr_transition_target(old(self).state, event) {
                Some(next) => res == Ok::<QrAppState, CoreError>(next) && final(self).state
                    == next,
                None => res == Err::<QrAppState, CoreError>(
                    CoreError::InvalidQrTransition { from: old(self).state, event },
                ) && final(self).state == old(self).state,
            },
    {
        let next = match (self.state, event) {
            (QrAppState::Idle | QrAppState::Fail, QrTransition::StartScan) => QrAppState::Aiming,
            (QrAppState::Aiming, QrTransition::DebounceAccepted) => QrAppState::Decoded,
            (QrAppState::Aiming, QrTransition::ScanTimeout) => QrAppState::Fail,
            (QrAppState::Decoded, QrTransition::Accept) => QrAppState::Export,
            (QrAppState::Export, QrTransition::ExportDone) => QrAppState::Idle,
            (QrAppState::Decoded | QrAppState::Fail, QrTransition::Retry) => QrAppState::Aiming,
            (QrAppState::Fail, QrTransition::DismissFail) => QrAppState::Idle,
            (from, event) => {
                return Err(CoreError::InvalidQrTransition { from, event });
            },
        };
        self.state = next;
        Ok(self.state)
    }
}

impl Default for QrStateMachine {
    fn default() -> (sm: Self)
        ensures
            sm.state == QrAppState::Idle,
    {
        Self::new()
    }
}

/// Every scan screen gets back to `Idle`: scanning either exports or fails, and
/// both lead home.
pub proof fn lemma_scan_returns_idle(s: QrAppState)
    ensures
        s == QrAppState::Aiming ==> qr_transition_target(
            qr_transition_target(s, QrTransition::ScanTimeout).unwrap(),
            QrTransition::DismissFail,
        ) == Some(QrAppState::Idle),
        s == QrAppState::Decoded ==> qr_transition_target(
            qr_transition_target(s, QrTransition::Accept).unwrap(),
            QrTransition::ExportDone,
        ) == Some(QrAppState::Idle),
{
}

} // verus!
