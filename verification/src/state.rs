//! Typed UPI payment state machine for Zoop Pay.
use vstd::prelude::*;

use crate::error::{CoreError, CoreResult};

verus! {

/// Application screens — UPI collect / history / settings.
#[derive(Debug, Clone, Copy, PartialEq, Eq, Hash, Structural)]
pub enum AppState {
    /// Home — fullscreen any-amount QR
    Idle,
    /// Pick a predefined price
    PricePick,
    /// Customer-facing UPI QR for a selected amount
    ShowQr,
    /// Awaiting bank / backend confirmation
    Waiting,
    /// Payment confirmed
    Success,
    Menu,
    History,
    HistoryDetail,
    CancelConfirm,
    Settings,
    DeviceInfo,
    /// Merchant VPA profile
    Merchant,
    Error,
    /// Audio capture in progress (voice-note track)
    Recording,
    /// Local transfer portal active (voice-note track)
    Transfer,
}

/// Physical button events (REC / PWR).
#[derive(Debug, Clone, Copy, PartialEq, Eq, Hash, Structural)]
pub enum ButtonEvent {
    /// No event this poll
    NoEvent,
    Single,
    Long,
    Double,
}

/// High-level transition events for the payment state machine.
#[derive(Debug, Clone, Copy, PartialEq, Eq, Hash, Structural)]
pub enum Transition {
    HoldRec,
    ReleaseRec,
    RecSingle,
    RecLong,
    RecDouble,
    PwrSingle,
    PwrDouble,
    /// ShowQr → Waiting
    PaymentPending,
    /// Waiting → Success
    PaymentSuccess,
    /// Waiting / ShowQr → Error
    PaymentFailed,
    /// Success → Idle
    PaymentDone,
    MenuBack,
    OpenCollect,
    OpenPrices,
    OpenHistory,
    OpenMerchant,
    OpenSettings,
    OpenDeviceInfo,
    ExitMerchant,
    /// PricePick → ShowQr after amount chosen
    SelectPrice,
    CancelConfirmed,
    CancelDismissed,
    ErrorDismissed,
    WakeToMenu,
    WakeToCollect,
}

/// The transition table: the screen reached from `s` on event `e`, or `None`
/// when the event is not accepted there.
pub open spec fn transition_target(s: AppState, e: Transition) -> Option<AppState> {
    match (s, e) {
        (AppState::Idle, Transition::RecSingle) => Some(AppState::History),
        (AppState::Idle, Transition::HoldRec) => Some(AppState::History),
        (AppState::Idle, Transition::OpenHistory) => Some(AppState::History),
        (AppState::Idle, Transition::RecLong) => Some(AppState::History),
        (AppState::Idle, Transition::RecDouble) => Some(AppState::History),
        (AppState::Idle, Transition::PwrSingle) => Some(AppState::Menu),
        (AppState::Idle, Transition::WakeToMenu) => Some(AppState::Menu),
        (AppState::Idle, Transition::WakeToCollect) => Some(AppState::PricePick),
        (AppState::Idle, Transition::OpenCollect) => Some(AppState::PricePick),
        (AppState::Idle, Transition::OpenPrices) => Some(AppState::PricePick),
        (AppState::PricePick, Transition::SelectPrice) => Some(AppState::ShowQr),
        (AppState::PricePick, Transition::RecSingle) => Some(AppState::ShowQr),
        (AppState::PricePick, Transition::MenuBack) => Some(AppState::Menu),
        (AppState::PricePick, Transition::RecLong) => Some(AppState::Menu),
        (AppState::PricePick, Transition::RecDouble) => Some(AppState::Menu),
        (AppState::PricePick, Transition::PwrSingle) => Some(AppState::PricePick),
        (AppState::ShowQr, Transition::ReleaseRec) => Some(AppState::Waiting),
        (AppState::ShowQr, Transition::PaymentPending) => Some(AppState::Waiting),
        (AppState::ShowQr, Transition::RecLong) => Some(AppState::CancelConfirm),
        (AppState::ShowQr, Transition::RecDouble) => Some(AppState::CancelConfirm),
        (AppState::ShowQr, Transition::PaymentFailed) => Some(AppState::Error),
        (AppState::ShowQr, Transition::MenuBack) => Some(AppState::PricePick),
        (AppState::ShowQr, Transition::PwrSingle) => Some(AppState::PricePick),
        (AppState::ShowQr, Transition::OpenHistory) => Some(AppState::History),
        (AppState::ShowQr, Transition::RecSingle) => Some(AppState::Waiting),
        (AppState::Waiting, Transition::PaymentSuccess) => Some(AppState::Success),
        (AppState::Waiting, Transition::PaymentFailed) => Some(AppState::Error),
        (AppState::Waiting, Transition::RecLong) => Some(AppState::CancelConfirm),
        (AppState::Waiting, Transition::RecDouble) => Some(AppState::CancelConfirm),
        (AppState::Waiting, Transition::MenuBack) => Some(AppState::CancelConfirm),
        (AppState::Success, Transition::PaymentDone) => Some(AppState::Idle),
        (AppState::Success, Transition::RecSingle) => Some(AppState::Idle),
        (AppState::Menu, Transition::OpenCollect) => Some(AppState::PricePick),
        (AppState::Menu, Transition::OpenPrices) => Some(AppState::PricePick),
        (AppState::Menu, Transition::OpenHistory) => Some(AppState::History),
        (AppState::Menu, Transition::OpenMerchant) => Some(AppState::Merchant),
        (AppState::Menu, Transition::OpenSettings) => Some(AppState::Settings),
        (AppState::Menu, Transition::MenuBack) => Some(AppState::Idle),
        (AppState::Menu, Transition::RecLong) => Some(AppState::Idle),
        (AppState::Menu, Transition::RecDouble) => Some(AppState::Idle),
        (AppState::History, Transition::RecSingle) => Some(AppState::Idle),
        (AppState::History, Transition::MenuBack) => Some(AppState::Idle),
        (AppState::History, Transition::RecLong) => Some(AppState::Idle),
        (AppState::History, Transition::RecDouble) => Some(AppState::Idle),
        (AppState::History, Transition::OpenHistory) => Some(AppState::HistoryDetail),
        (AppState::HistoryDetail, Transition::RecLong) => Some(AppState::CancelConfirm),
        (AppState::HistoryDetail, Transition::RecDouble) => Some(AppState::History),
        (AppState::HistoryDetail, Transition::MenuBack) => Some(AppState::History),
        (AppState::HistoryDetail, Transition::RecSingle) => Some(AppState::History),
        (AppState::CancelConfirm, Transition::CancelConfirmed) => Some(AppState::Idle),
        (AppState::CancelConfirm, Transition::RecSingle) => Some(AppState::Idle),
        (AppState::CancelConfirm, Transition::CancelDismissed) => Some(AppState::PricePick),
        (AppState::CancelConfirm, Transition::MenuBack) => Some(AppState::PricePick),
        (AppState::CancelConfirm, Transition::RecLong) => Some(AppState::PricePick),
        (AppState::CancelConfirm, Transition::RecDouble) => Some(AppState::PricePick),
        (AppState::Settings, Transition::OpenDeviceInfo) => Some(AppState::DeviceInfo),
        (AppState::Settings, Transition::MenuBack) => Some(AppState::Menu),
        (AppState::Settings, Transition::RecLong) => Some(AppState::Menu),
        (AppState::Settings, Transition::RecDouble) => Some(AppState::Menu),
        (AppState::DeviceInfo, Transition::MenuBack) => Some(AppState::Settings),
        (AppState::DeviceInfo, Transition::RecLong) => Some(AppState::Settings),
        (AppState::DeviceInfo, Transition::RecDouble) => Some(AppState::Settings),
        (AppState::DeviceInfo, Transition::RecSingle) => Some(AppState::Settings),
        (AppState::DeviceInfo, Transition::PwrSingle) => Some(AppState::Settings),
        (AppState::Merchant, Transition::ExitMerchant) => Some(AppState::Menu),
        (AppState::Merchant, Transition::MenuBack) => Some(AppState::Menu),
        (AppState::Merchant, Transition::RecLong) => Some(AppState::Menu),
        (AppState::Merchant, Transition::RecDouble) => Some(AppState::Menu),
        (AppState::Merchant, Transition::RecSingle) => Some(AppState::Menu),
        (AppState::Error, Transition::ErrorDismissed) => Some(AppState::Idle),
        _ => None,
    }
}

/// Only a confirmed payment reaches the success screen, and only from the
/// waiting screen; only a failed payment reaches the error screen, and a
/// failed payment on the QR or waiting screen always does.
pub proof fn lemma_payment_outcomes(s: AppState, e: Transition)
    ensures
        transition_target(s, e) == Some(AppState::Success) ==> e == Transition::PaymentSuccess && s
            == AppState::Waiting,
        transition_target(s, e) == Some(AppState::Error) ==> e == Transition::PaymentFailed,
        s == AppState::Waiting || s == AppState::ShowQr ==> transition_target(s, Transition::PaymentFailed)
            == Some(AppState::Error),
{
}

/// Testable state machine with explicit transitions.
#[derive(Debug, Clone, PartialEq, Eq)]
pub struct StateMachine {
    pub state: AppState,
    /// Last payment / order number
    pub last_txn_num: i32,
    pub activity_reset: bool,
}

impl StateMachine {
    pub fn new() -> (sm: Self)
        ensures
            sm.state == AppState::Idle,
            sm.last_txn_num == -1,
            !sm.activity_reset,
    {
        Self { state: AppState::Idle, last_txn_num: -1, activity_reset: false }
    }

    pub fn state(&self) -> (s: AppState)
        ensures
            s == self.state,
    {
        self.state
    }

    pub fn set_last_txn_num(&mut self, num: i32)
        ensures
            final(self).last_txn_num == num,
            final(self).state == old(self).state,
            final(self).activity_reset == old(self).activity_reset,
    {
        self.last_txn_num = num;
    }

    /// Apply one event. An accepted event moves to the table's target; a refused one
    /// leaves the screen unchanged and reports the pair. Either way the activity
    /// flag is raised.
    pub fn apply(&mut self, event: Transition) -> (res: CoreResult<AppState>)
        ensures
            final(self).activity_reset,
            final(self).last_txn_num == old(self).last_txn_num,
            match transition_target(old(self).state, event) {
                Some(next) => res == Ok::<AppState, CoreError>(next) && final(self).state == next,
                None => res == Err::<AppState, CoreError>(
                    CoreError::InvalidTransition { from: old(self).state, event },
                ) && final(self).state == old(self).state,
            },
    {
        self.activity_reset = true;
        let next = match (self.state, event) {
            (
                AppState::Idle,
                Transition::RecSingle
                | Transition::HoldRec
                | Transition::OpenHistory
                | Transition::RecLong
                | Transition::RecDouble,
            ) => AppState::History,
            (AppState::Idle, Transition::PwrSingle) => AppState::Menu,
            (AppState::Idle, Transition::WakeToMenu) => AppState::Menu,
            (
                AppState::Idle,
                Transition::WakeToCollect | Transition::OpenCollect | Transition::OpenPrices,
            ) => AppState::PricePick,
            (AppState::PricePick, Transition::SelectPrice | Transition::RecSingle) => {
                AppState::ShowQr
            },
            (
                AppState::PricePick,
                Transition::MenuBack | Transition::RecLong | Transition::RecDouble,
            ) => AppState::Menu,
            (AppState::PricePick, Transition::PwrSingle) => AppState::PricePick,
            (AppState::ShowQr, Transition::ReleaseRec | Transition::PaymentPending) => {
                AppState::Waiting
            },
            (AppState::ShowQr, Transition::RecLong | Transition::RecDouble) => {
                AppState::CancelConfirm
            },
            (AppState::ShowQr, Transition::PaymentFailed) => AppState::Error,
            (AppState::ShowQr, Transition::MenuBack | Transition::PwrSingle) => {
                AppState::PricePick
            },
            (AppState::ShowQr, Transition::OpenHistory) => AppState::History,
            // REC on priced QR = confirm / start waiting (not history)
            (AppState::ShowQr, Transition::RecSingle) => AppState::Waiting,
            (AppState::Waiting, Transition::PaymentSuccess) => AppState::Success,
            (AppState::Waiting, Transition::PaymentFailed) => AppState::Error,
            (
                AppState::Waiting,
                Transition::RecLong | Transition::RecDouble | Transition::MenuBack,
            ) => AppState::CancelConfirm,
            (AppState::Success, Transition::PaymentDone | Transition::RecSingle) => AppState::Idle,
            (AppState::Menu, Transition::OpenCollect | Transition::OpenPrices) => {
                AppState::PricePick
            },
            (AppState::Menu, Transition::OpenHistory) => AppState::History,
            (AppState::Menu, Transition::OpenMerchant) => AppState::Merchant,
            (AppState::Menu, Transition::OpenSettings) => AppState::Settings,
            (
                AppState::Menu,
                Transition::MenuBack | Transition::RecLong | Transition::RecDouble,
            ) => AppState::Idle,
            (
                AppState::History,
                Transition::RecSingle
                | Transition::MenuBack
                | Transition::RecLong
                | Transition::RecDouble,
            ) => AppState::Idle,
            (AppState::History, Transition::OpenHistory) => AppState::HistoryDetail,
            (AppState::HistoryDetail, Transition::RecLong) => AppState::CancelConfirm,
            (
                AppState::HistoryDetail,
                Transition::RecDouble | Transition::MenuBack | Transition::RecSingle,
            ) => AppState::History,
            (AppState::CancelConfirm, Transition::CancelConfirmed | Transition::RecSingle) => {
                AppState::Idle
            },
            (
                AppState::CancelConfirm,
                Transition::CancelDismissed
                | Transition::MenuBack
                | Transition::RecLong
                | Transition::RecDouble,
            ) => AppState::PricePick,
            (AppState::Settings, Transition::OpenDeviceInfo) => AppState::DeviceInfo,
            (
                AppState::Settings,
                Transition::MenuBack | Transition::RecLong | Transition::RecDouble,
            ) => AppState::Menu,
            (
                AppState::DeviceInfo,
                Transition::MenuBack
                | Transition::RecLong
                | Transition::RecDouble
                | Transition::RecSingle
                | Transition::PwrSingle,
            ) => AppState::Settings,
            (
                AppState::Merchant,
                Transition::ExitMerchant
                | Transition::MenuBack
                | Transition::RecLong
                | Transition::RecDouble
                | Transition::RecSingle,
            ) => AppState::Menu,
            (AppState::Error, Transition::ErrorDismissed) => AppState::Idle,
            _ => {
                return Err(CoreError::InvalidTransition { from: self.state, event });
            },
        };
        self.state = next;
        Ok(next)
    }

    pub fn take_activity_reset(&mut self) -> (v: bool)
        ensures
            v == old(self).activity_reset,
            !final(self).activity_reset,
            final(self).state == old(self).state,
            final(self).last_txn_num == old(self).last_txn_num,
    {
        let v = self.activity_reset;
        self.activity_reset = false;
        v
    }
}

impl Default for StateMachine {
    fn default() -> (sm: Self)
        ensures
            sm.state == AppState::Idle,
            sm.last_txn_num == -1,
            !sm.activity_reset,
    {
        Self::new()
    }
}

/// The screen reached after feeding `events` in order from `s`, or `None` as soon
/// as one of them is refused.
pub open spec fn run_events(s: AppState, events: Seq<Transition>) -> Option<AppState>
    decreases events.len(),
{
    if events.len() == 0 {
        Some(s)
    } else {
        match transition_target(s, events[0]) {
            Some(n) => run_events(n, events.drop_first()),
            None => None,
        }
    }
}

/// A priced collect runs home → prices → QR → waiting → paid → home.
pub proof fn lemma_collect_cycle_returns_home()
    ensures
        run_events(
            AppState::Idle,
            seq![
                Transition::OpenPrices,
                Transition::SelectPrice,
                Transition::PaymentPending,
                Transition::PaymentSuccess,
                Transition::PaymentDone,
            ],
        ) == Some(AppState::Idle),
{
    reveal_with_fuel(run_events, 6);
}

/// A refused event changes nothing: the screen after it is the screen before it.
pub proof fn lemma_refused_event_keeps_screen(s: AppState, e: Transition)
    requires
        transition_target(s, e) is None,
    ensures
        run_events(s, seq![e]) is None,
{
    reveal_with_fuel(run_events, 2);
}

/// Every payment-flow screen has a way back home within three events.
pub proof fn lemma_home_reachable(s: AppState)
    requires
        s != AppState::Recording,
        s != AppState::Transfer,
    ensures
        exists|events: Seq<Transition>|
            events.len() <= 3 && #[trigger] run_events(s, events) == Some(AppState::Idle),
{
    reveal_with_fuel(run_events, 4);
    let m = Transition::MenuBack;
    let w: Seq<Transition> = match s {
        AppState::Idle => seq![],
        AppState::PricePick => seq![m, m],
        AppState::ShowQr => seq![m, m, m],
        AppState::Waiting => seq![Transition::CancelConfirmed],
        AppState::Success => seq![Transition::PaymentDone],
        AppState::Menu => seq![m],
        AppState::History => seq![m],
        AppState::HistoryDetail => seq![m, m],
        AppState::CancelConfirm => seq![Transition::CancelConfirmed],
        AppState::Settings => seq![m, m],
        AppState::DeviceInfo => seq![m, m, m],
        AppState::Merchant => seq![m, m],
        AppState::Error => seq![Transition::ErrorDismissed],
        _ => seq![],
    };
    if s == AppState::Waiting {
        let w2 = seq![m, Transition::CancelConfirmed];
        assert(run_events(s, w2) == Some(AppState::Idle));
    } else {
        assert(run_events(s, w) == Some(AppState::Idle));
    }
}

} // verus!
