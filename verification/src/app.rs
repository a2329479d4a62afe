//! Application engine: the UPI payment screens driven by buttons, a clock and
//! the board traits.
use vstd::prelude::*;

use crate::buttons::{pwr_step, rec_poll_step, sat_sub, ButtonPoller};
use crate::battery::BatteryCurve;
use crate::display::draw::BYTES;
use crate::display::ui::{
    lines_view, battery_low_frame, blank, error_frame, screen_frame, screen_of, ScreenId, UiContext, UiView,
};
use crate::error::{CoreError, CoreResult};
use crate::io::{Audio, BatteryAdc, ButtonEvents, Buttons, Clock, Display, SoundKind, TimeSource};
use crate::payment::{
    list_label_spec, total_label_spec, PaymentRecord, lemma_totals_fit_push, paise_fits, parse_inr_paise_spec,
    checked_inr_paise, total_paise, totals_fit, MerchantProfile, PaymentLedger,
    PaymentRequest, PaymentStatus, PriceCatalog,
};
use crate::sleep::{keeps_awake, ActivityTimer, BAT_WARN_OVERLAY_MS};
use crate::sounds::SoundsPolicy;
use crate::state::{transition_target, AppState, ButtonEvent, StateMachine, Transition};
use crate::storage::FileStorage;
use crate::text::{chars_of, fmt_int, lemma_fmt_int_len, owned, push_int, push_str};
use crate::upi::{amount_label_spec, build_upi_uri, upi_uri_spec};

verus! {

pub const FIRMWARE_VERSION: &'static str = "v1.0";

/// The screen after `e`: the table's target, or the same screen when `e` is refused.
pub open spec fn after(s: AppState, e: Transition) -> AppState {
    match transition_target(s, e) {
        Some(t) => t,
        None => s,
    }
}

/// Any gesture at all.
pub open spec fn any_press(ev: ButtonEvent) -> bool {
    ev != ButtonEvent::NoEvent
}

/// A long press or a double tap: REC's "back" gesture.
pub open spec fn back_press(ev: ButtonEvent) -> bool {
    ev == ButtonEvent::Long || ev == ButtonEvent::Double
}

/// Next index of a list of `n` entries, wrapping to the top.
pub open spec fn cycle(i: usize, n: int) -> usize {
    ((i + 1) % n) as usize
}

/// What REC opens from menu entry `i`.
pub open spec fn menu_entry(i: usize) -> Transition {
    if i == 0 {
        Transition::OpenPrices
    } else if i == 1 {
        Transition::OpenHistory
    } else if i == 2 {
        Transition::OpenMerchant
    } else {
        Transition::OpenSettings
    }
}

/// Transaction note of a priced collect: `Zoop <number>`.
pub open spec fn collect_note(num: i32) -> Seq<char> {
    "Zoop "@ + fmt_int(num as int, 0)
}

/// The screen after one poll of both buttons on screen `s`; `menu` and
/// `settings` are the highlighted entries once PWR has moved them.
pub open spec fn screen_after_buttons(
    s: AppState,
    rec: ButtonEvent,
    pwr: ButtonEvent,
    menu: usize,
    settings: usize,
) -> AppState {
    match s {
        AppState::Idle => {
            let s1 = if any_press(rec) { after(s, Transition::OpenHistory) } else { s };
            if pwr == ButtonEvent::Single { after(s1, Transition::PwrSingle) } else { s1 }
        },
        AppState::PricePick => if rec == ButtonEvent::Single {
            after(s, Transition::SelectPrice)
        } else if back_press(rec) {
            after(s, Transition::MenuBack)
        } else {
            s
        },
        AppState::ShowQr => {
            let s1 = if rec == ButtonEvent::Single {
                after(s, Transition::PaymentPending)
            } else if back_press(rec) {
                after(s, Transition::RecLong)
            } else {
                s
            };
            if pwr == ButtonEvent::Single { after(s1, Transition::MenuBack) } else { s1 }
        },
        AppState::Waiting => if back_press(rec) { after(s, Transition::RecLong) } else { s },
        AppState::Success => if rec == ButtonEvent::Single { after(s, Transition::PaymentDone) } else { s },
        AppState::Menu => if rec == ButtonEvent::Single {
            after(s, menu_entry(menu))
        } else if back_press(rec) {
            after(s, Transition::MenuBack)
        } else {
            s
        },
        AppState::History => if any_press(rec) { after(s, Transition::MenuBack) } else { s },
        AppState::HistoryDetail => if rec == ButtonEvent::Long {
            after(s, Transition::RecLong)
        } else if any_press(rec) {
            after(s, Transition::MenuBack)
        } else {
            s
        },
        AppState::CancelConfirm => if rec == ButtonEvent::Single {
            after(s, Transition::CancelConfirmed)
        } else if back_press(rec) {
            after(s, Transition::CancelDismissed)
        } else {
            s
        },
        AppState::Settings => if rec == ButtonEvent::Single && (settings == 1 || settings == 2) {
            after(s, Transition::OpenDeviceInfo)
        } else if back_press(rec) {
            after(s, Transition::MenuBack)
        } else {
            s
        },
        AppState::DeviceInfo => if any_press(rec) { after(s, Transition::MenuBack) } else { s },
        AppState::Merchant => if any_press(rec) { after(s, Transition::ExitMerchant) } else { s },
        AppState::Error => if rec == ButtonEvent::Single || pwr == ButtonEvent::Single {
            after(s, Transition::ErrorDismissed)
        } else {
            s
        },
        _ => s,
    }
}

/// `[k]` when `b`, else nothing.
pub open spec fn beep_if(b: bool, k: SoundKind) -> Seq<SoundKind> {
    if b {
        seq![k]
    } else {
        seq![]
    }
}

/// The UI sounds one poll of both buttons logs on screen `s`, in order.
pub open spec fn beeps(s: AppState, rec: ButtonEvent, pwr: ButtonEvent) -> Seq<SoundKind> {
    let pwr1 = pwr == ButtonEvent::Single;
    let rec1 = rec == ButtonEvent::Single;
    match s {
        AppState::Idle => beep_if(any_press(rec), SoundKind::Select) + beep_if(pwr1, SoundKind::Select),
        AppState::PricePick => beep_if(pwr1, SoundKind::Next) + beep_if(rec1, SoundKind::Select)
            + beep_if(back_press(rec), SoundKind::Back),
        AppState::ShowQr => beep_if(rec1, SoundKind::Select),
        AppState::Menu => beep_if(pwr1, SoundKind::Next) + beep_if(rec1, SoundKind::Select)
            + beep_if(back_press(rec), SoundKind::Back),
        AppState::History => beep_if(pwr1, SoundKind::Next) + beep_if(any_press(rec), SoundKind::Back),
        AppState::HistoryDetail => beep_if(
            rec == ButtonEvent::Double || rec1,
            SoundKind::Back,
        ),
        AppState::CancelConfirm => beep_if(rec1, SoundKind::Delete),
        AppState::Settings => beep_if(pwr1, SoundKind::Next) + beep_if(back_press(rec), SoundKind::Back),
        AppState::DeviceInfo => beep_if(any_press(rec), SoundKind::Back),
        AppState::Merchant => beep_if(any_press(rec), SoundKind::Back),
        _ => seq![],
    }
}

/// `r2` is `r` marked pending (nothing when there is no request).
pub open spec fn pending_of(r: Option<PaymentRequest>, r2: Option<PaymentRequest>) -> bool {
    match r {
        None => r2 is None,
        Some(q) => r2 matches Some(q2) && q2.status == PaymentStatus::Pending && q2.amount_inr
            == q.amount_inr && q2.note == q.note && q2.uri == q.uri,
    }
}

/// The activity timer after a battery reading of `pct` at `now` (see
/// `ActivityTimer::update_battery_warning`).
pub open spec fn battery_update(a: ActivityTimer, pct: Option<u8>, now: u64) -> ActivityTimer {
    match pct {
        None => a,
        Some(p) => if p <= 15 {
            ActivityTimer {
                low_battery_latched: true,
                battery_warn_until_ms: Some((now + BAT_WARN_OVERLAY_MS) as u64),
                ..a
            }
        } else if p >= 20 {
            ActivityTimer { low_battery_latched: false, ..a }
        } else {
            a
        },
    }
}

/// The low-battery overlay is still up at `now`.
pub open spec fn warn_active(a: ActivityTimer, now: u64) -> bool {
    a.battery_warn_until_ms matches Some(until) && now < until
}

/// The screen a redraw shows on screen `s`: the low-battery overlay while it is
/// up, else the screen itself.
pub open spec fn shown_screen(s: AppState, warn: bool) -> ScreenId {
    if warn {
        ScreenId::BatteryLow
    } else {
        screen_of(s)
    }
}

/// The newest `n` ledger rows as history labels, newest first.
pub open spec fn recent_label_views(records: Seq<PaymentRecord>, n: int) -> Seq<Seq<char>> {
    let k = if n < records.len() { n } else { records.len() as int };
    Seq::new(
        k as nat,
        |i: int|
            list_label_spec(
                records[records.len() - 1 - i].num,
                records[records.len() - 1 - i].amount_inr@,
            ),
    )
}

/// The activity timer with its last activity moved to `now`.
pub open spec fn touched(a: ActivityTimer, now: u64) -> ActivityTimer {
    ActivityTimer { last_activity_ms: now, ..a }
}

/// High-level app context wiring core logic to BSP traits.
pub struct App<'a, S, D, A, T, ADC> {
    pub storage: &'a S,
    pub display: &'a mut D,
    pub audio: &'a mut A,
    pub time: &'a mut T,
    pub battery_adc: &'a mut ADC,
    pub state: StateMachine,
    pub activity: ActivityTimer,
    pub sounds: SoundsPolicy,
    pub menu_index: usize,
    pub settings_index: usize,
    pub history_index: usize,
    pub price_index: usize,
    pub detail_txn: i32,
    pub detail_page: usize,
    pub error_msg: String,
    pub merchant: MerchantProfile,
    pub prices: PriceCatalog,
    pub ledger: PaymentLedger,
    pub active: Option<PaymentRequest>,
    /// Default collect amount on home QR (`""` = any amount).
    pub default_amount_inr: String,
    pub waiting_since_ms: Option<u64>,
    pub last_screen: ScreenId,
}

impl<'a, S: FileStorage, D: Display, A: Audio, T: TimeSource, ADC: BatteryAdc> App<'a, S, D, A, T, ADC> {
    pub fn new(
        storage: &'a S,
        display: &'a mut D,
        audio: &'a mut A,
        time: &'a mut T,
        battery_adc: &'a mut ADC,
    ) -> (app: Self)
        ensures
            app.state.state == AppState::Idle,
            app.menu_index == 0,
            app.detail_txn == -1,
            app.ledger.records@.len() == 0,
            app.ledger.next_num == 1,
            app.active is None,
    {
        Self {
            storage,
            display,
            audio,
            time,
            battery_adc,
            state: StateMachine::new(),
            activity: ActivityTimer::default(),
            sounds: SoundsPolicy::default(),
            menu_index: 0,
            settings_index: 0,
            history_index: 0,
            price_index: 0,
            detail_txn: -1,
            detail_page: 0,
            error_msg: String::new(),
            merchant: MerchantProfile::default(),
            prices: PriceCatalog::from_defaults(),
            ledger: PaymentLedger::new(),
            active: None,
            default_amount_inr: String::new(),
            waiting_since_ms: None,
            last_screen: ScreenId::Idle,
        }
    }

    /// The highlighted menu entry once PWR has been handled.
    pub open spec fn menu_after(&self, pwr: ButtonEvent) -> usize {
        if self.state.state == AppState::Menu && pwr == ButtonEvent::Single {
            cycle(self.menu_index, 4)
        } else {
            self.menu_index
        }
    }

    /// The highlighted settings entry once PWR has been handled.
    pub open spec fn settings_after(&self, pwr: ButtonEvent) -> usize {
        if self.state.state == AppState::Settings && pwr == ButtonEvent::Single {
            cycle(self.settings_index, 3)
        } else {
            self.settings_index
        }
    }

    /// The highlighted price after one poll.
    pub open spec fn price_after(&self, rec: ButtonEvent, pwr: ButtonEvent) -> usize {
        let n = self.prices.amounts@.len();
        if self.state.state == AppState::PricePick && pwr == ButtonEvent::Single {
            cycle(self.price_index, if n == 0 { 1 } else { n as int })
        } else if self.state.state == AppState::Menu && rec == ButtonEvent::Single
            && self.menu_after(pwr) == 0 {
            0
        } else {
            self.price_index
        }
    }

    /// The highlighted history row after one poll (the list shows at most eight).
    pub open spec fn history_after(&self, rec: ButtonEvent, pwr: ButtonEvent) -> usize {
        let n = self.ledger.records@.len();
        let shown = if n < 8 { n as int } else { 8 };
        if self.state.state == AppState::Idle && any_press(rec) {
            0
        } else if self.state.state == AppState::Menu && rec == ButtonEvent::Single
            && self.menu_after(pwr) == 1 {
            0
        } else if self.state.state == AppState::History && pwr == ButtonEvent::Single {
            cycle(self.history_index, if shown == 0 { 1 } else { shown })
        } else {
            self.history_index
        }
    }

    /// The detail page after one poll: PWR pages on, saturating.
    pub open spec fn detail_page_after(&self, pwr: ButtonEvent) -> usize {
        if self.state.state == AppState::HistoryDetail && pwr == ButtonEvent::Single
            && self.detail_page < usize::MAX {
            (self.detail_page + 1) as usize
        } else {
            self.detail_page
        }
    }

    /// The amount a priced collect bills for list entry `i`: the catalog's, or
    /// `100.00` past its end.
    pub open spec fn amount_at(&self, i: usize) -> Seq<char> {
        if i < self.prices.amounts@.len() {
            self.prices.amounts@[i as int]@
        } else {
            "100.00"@
        }
    }

    /// `r` is the request a priced collect creates for list entry `i`.
    pub open spec fn is_collect_request(&self, i: usize, r: PaymentRequest) -> bool {
        &&& r.amount_inr@ == self.amount_at(i)
        &&& r.note@ == collect_note(self.ledger.next_num)
        &&& r.uri@ == upi_uri_spec(self.merchant.vpa@, self.merchant.name@, r.amount_inr@, r.note@)
        &&& r.status == PaymentStatus::QrShown
    }

    /// The active request `a` after one poll.
    pub open spec fn active_after(&self, rec: ButtonEvent, pwr: ButtonEvent, a: Option<PaymentRequest>) -> bool {
        let rec1 = rec == ButtonEvent::Single;
        match self.state.state {
            AppState::PricePick => if rec1 {
                a matches Some(r) && self.is_collect_request(self.price_after(rec, pwr), r)
            } else if back_press(rec) {
                a is None
            } else {
                a == self.active
            },
            AppState::ShowQr => if pwr == ButtonEvent::Single {
                a is None
            } else if rec1 {
                pending_of(self.active, a)
            } else {
                a == self.active
            },
            AppState::Success => if rec1 { a is None } else { a == self.active },
            AppState::CancelConfirm => if rec1 { a is None } else { a == self.active },
            AppState::Error => if self.dismisses_error(rec, pwr) { a is None } else { a == self.active },
            _ => a == self.active,
        }
    }

    /// When the current request started waiting, after one poll at `now`.
    pub open spec fn since_after(&self, rec: ButtonEvent, now: u64) -> Option<u64> {
        let rec1 = rec == ButtonEvent::Single;
        match self.state.state {
            AppState::PricePick => if rec1 { None } else { self.waiting_since_ms },
            AppState::ShowQr => if rec1 { Some(now) } else { self.waiting_since_ms },
            AppState::CancelConfirm => if rec1 { None } else { self.waiting_since_ms },
            _ => self.waiting_since_ms,
        }
    }

    /// A tap on the error screen dismisses it.
    pub open spec fn dismisses_error(&self, rec: ButtonEvent, pwr: ButtonEvent) -> bool {
        self.state.state == AppState::Error && (rec == ButtonEvent::Single || pwr
            == ButtonEvent::Single)
    }

    /// REC on the first settings entry toggles the UI sounds.
    pub open spec fn toggles_sounds(&self, rec: ButtonEvent, pwr: ButtonEvent) -> bool {
        self.state.state == AppState::Settings && rec == ButtonEvent::Single
            && self.settings_after(pwr) == 0
    }

    /// The ledger, merchant, catalog, home amount, detail number and last screen
    /// are those of `other`.
    pub open spec fn same_setup(&self, other: &Self) -> bool {
        &&& self.ledger == other.ledger
        &&& self.merchant == other.merchant
        &&& self.prices == other.prices
        &&& self.default_amount_inr == other.default_amount_inr
        &&& self.detail_txn == other.detail_txn
        &&& self.last_screen == other.last_screen
    }

    /// The timed step is due at `now`: a waiting payment confirms after 1.5 s,
    /// the success and error screens close after 2.5 s without activity.
    pub open spec fn timer_due(&self, now: u64) -> bool {
        match self.state.state {
            AppState::Waiting => {
                let since = match self.waiting_since_ms {
                    Some(t) => t,
                    None => now,
                };
                sat_sub(now, since) >= 1_500
            },
            AppState::Success => sat_sub(now, self.activity.last_activity_ms) >= 2_500,
            AppState::Error => sat_sub(now, self.activity.last_activity_ms) >= 2_500,
            _ => false,
        }
    }

    /// `post` is this app after a waiting payment is confirmed at `now`: the
    /// request is paid and recorded under the next number.
    pub open spec fn confirmed(&self, post: &Self, now: u64) -> bool {
        &&& post.state.state == after(self.state.state, Transition::PaymentSuccess)
        &&& post.waiting_since_ms is None
        &&& post.sounds.events@ == self.sounds.events@.push(SoundKind::Success)
        &&& post.activity == touched(self.activity, now)
        &&& match self.active {
            None => {
                &&& post.active is None
                &&& post.ledger == self.ledger
                &&& post.detail_txn == self.detail_txn
            },
            Some(r) => {
                &&& post.active matches Some(r2) && r2.status == PaymentStatus::Paid && r2.amount_inr
                    == r.amount_inr && r2.note == r.note && r2.uri == r.uri
                &&& post.ledger.next_num == self.ledger.next_num + 1
                &&& post.ledger.records@.drop_last() == self.ledger.records@
                &&& post.ledger.records@.len() == self.ledger.records@.len() + 1
                &&& post.ledger.records@.last().num == self.ledger.next_num
                &&& post.ledger.records@.last().amount_inr@ == r.amount_inr@
                &&& post.ledger.records@.last().note@ == r.note@
                &&& post.ledger.records@.last().status == PaymentStatus::Paid
                &&& post.detail_txn == self.ledger.next_num
            },
        }
        &&& post.error_msg == self.error_msg
    }

    /// `post` is this app after the timed step at `now`.
    pub open spec fn timer_core(&self, post: &Self, now: u64) -> bool {
        &&& post.menu_index == self.menu_index
        &&& post.settings_index == self.settings_index
        &&& post.history_index == self.history_index
        &&& post.price_index == self.price_index
        &&& post.detail_page == self.detail_page
        &&& post.merchant == self.merchant
        &&& post.prices == self.prices
        &&& post.default_amount_inr == self.default_amount_inr
        &&& post.last_screen == self.last_screen
        &&& post.sounds.enabled == self.sounds.enabled
        &&& post.state.last_txn_num == self.state.last_txn_num
        &&& if !self.timer_due(now) {
            &&& post.state == self.state
            &&& post.active == self.active
            &&& post.waiting_since_ms == self.waiting_since_ms
            &&& post.error_msg == self.error_msg
            &&& post.sounds.events == self.sounds.events
            &&& post.activity == self.activity
            &&& post.ledger == self.ledger
            &&& post.detail_txn == self.detail_txn
        } else if self.state.state == AppState::Waiting {
            self.confirmed(post, now)
        } else {
            &&& post.state.state == AppState::Idle
            &&& post.active is None
            &&& post.waiting_since_ms == self.waiting_since_ms
            &&& post.error_msg@ == if self.state.state == AppState::Error {
                Seq::<char>::empty()
            } else {
                self.error_msg@
            }
            &&& post.sounds.events == self.sounds.events
            &&& post.activity == touched(self.activity, now)
            &&& post.ledger == self.ledger
            &&& post.detail_txn == self.detail_txn
        }
    }

    /// Every field but the last screen and the board handles equals `other`'s.
    pub open spec fn same_logic(&self, other: &Self) -> bool {
        &&& self.same_core(other)
        &&& self.activity == other.activity
    }

    /// Every field but the last screen, the activity timer and the board handles
    /// equals `other`'s.
    pub open spec fn same_core(&self, other: &Self) -> bool {
        &&& self.state == other.state
        &&& self.sounds == other.sounds
        &&& self.menu_index == other.menu_index
        &&& self.settings_index == other.settings_index
        &&& self.history_index == other.history_index
        &&& self.price_index == other.price_index
        &&& self.detail_txn == other.detail_txn
        &&& self.detail_page == other.detail_page
        &&& self.error_msg == other.error_msg
        &&& self.merchant == other.merchant
        &&& self.prices == other.prices
        &&& self.ledger == other.ledger
        &&& self.active == other.active
        &&& self.default_amount_inr == other.default_amount_inr
        &&& self.waiting_since_ms == other.waiting_since_ms
    }

    /// The amount the screens show: the active request's, else the home amount.
    pub open spec fn shown_amount(&self) -> Seq<char> {
        match self.active {
            Some(r) => r.amount_inr@,
            None => self.default_amount_inr@,
        }
    }

    /// The UPI link the screens encode: the active request's, else the home
    /// any-amount link.
    pub open spec fn shown_link(&self) -> Seq<char> {
        match self.active {
            Some(r) => r.uri@,
            None => upi_uri_spec(
                self.merchant.vpa@,
                self.merchant.name@,
                self.default_amount_inr@,
                "Zoop Pay"@,
            ),
        }
    }

    /// What a redraw hands the screens, with battery reading `pct`.
    pub open spec fn screen_data(&self, pct: Option<u8>) -> UiView {
        UiView {
            battery_pct: pct,
            firmware_version: "v1.0"@,
            merchant_name: self.merchant.name@,
            upi_vpa: self.merchant.vpa@,
            amount_inr: self.shown_amount(),
            upi_uri: self.shown_link(),
            txn_note: match self.active {
                Some(r) => r.note@,
                None => Seq::<char>::empty(),
            },
            txn_count: self.ledger.records@.len() as usize,
            menu_index: self.menu_index,
            settings_index: self.settings_index,
            history_index: self.history_index,
            history_lines: recent_label_views(self.ledger.records@, 5),
            history_total: total_label_spec(total_paise(self.ledger.records@)),
            price_labels: self.prices.amounts@.map_values(|a: String| amount_label_spec(a@)),
            price_index: self.price_index,
            error_msg: self.error_msg@,
            device_rtc: "time not set"@,
            sounds_on: self.sounds.enabled,
            detail_lines: Seq::<Seq<char>>::empty(),
            detail_page: self.detail_page,
            transfer_ip: Seq::<char>::empty(),
        }
    }

    /// The frame a redraw paints on a panel of `len` bytes: the low-battery
    /// overlay while it is up, the error screen, or the current screen.
    pub open spec fn redraw_frame(&self, len: nat, warn: bool, pct: Option<u8>) -> Seq<u8> {
        let b = blank(len);
        if warn {
            battery_low_frame(b)
        } else if self.state.state == AppState::Error {
            error_frame(b, self.error_msg@)
        } else {
            screen_frame(b, self.state.state, self.screen_data(pct))
        }
    }

    /// A low-battery reading at `now` would set an overlay deadline past the
    /// clock's range.
    pub open spec fn clock_at_limit(pct: Option<u8>, now: u64) -> bool {
        pct matches Some(p) && p <= 15 && now > u64::MAX - BAT_WARN_OVERLAY_MS
    }

    /// What a redraw at `now` leaves in `post`, from this app with activity
    /// timer `act`: the library's own refusals (a clock at its limit, a
    /// framebuffer smaller than the panel) leave the panel untouched; otherwise
    /// the frame is drawn, flushed once, and the result is what the flush gave.
    pub open spec fn redraw_done(
        &self,
        act: ActivityTimer,
        post: &Self,
        pct: Option<u8>,
        now: u64,
        r: CoreResult<()>,
    ) -> bool {
        let upd = battery_update(act, pct, now);
        let warn = warn_active(upd, now);
        let frame = self.redraw_frame(self.display.frame().len(), warn, pct);
        if Self::clock_at_limit(pct, now) {
            &&& r matches Err(CoreError::Other(m)) && m@ == "clock at its limit"@
            &&& post.activity == act
            &&& post.last_screen == self.last_screen
            &&& post.display.frame() == self.display.frame()
            &&& post.display.flushes() == self.display.flushes()
        } else if self.display.frame().len() < BYTES {
            &&& r matches Err(CoreError::Other(m)) && m@ == "framebuffer smaller than the panel"@
            &&& post.activity == upd
            &&& post.last_screen == self.last_screen
            &&& post.display.frame() == self.display.frame()
            &&& post.display.flushes() == self.display.flushes()
        } else {
            &&& post.activity == upd
            &&& post.last_screen == shown_screen(self.state.state, warn)
            &&& post.display.frame() == frame
            &&& post.display.flushes() == self.display.flushes().push((frame, r))
        }
    }

    /// What a redraw computes stays in range: the ledger total fits in `i64`
    /// and the detail page's first line index in `usize`.
    pub open spec fn redraw_ok(&self) -> bool {
        &&& totals_fit(self.ledger.records@)
        &&& self.detail_page * 6 <= usize::MAX
    }

    /// A tick at `now` with button events `rec` and `pwr` confirms the waiting
    /// payment: the app waits, the buttons leave it waiting, and 1.5 s have
    /// passed since the wait began.
    pub open spec fn tick_confirms(&self, rec: ButtonEvent, pwr: ButtonEvent, now: u64) -> bool {
        let since = match self.waiting_since_ms {
            Some(t) => t,
            None => now,
        };
        &&& self.state.state == AppState::Waiting
        &&& screen_after_buttons(
            self.state.state,
            rec,
            pwr,
            self.menu_after(pwr),
            self.settings_after(pwr),
        ) == AppState::Waiting
        &&& sat_sub(now, since) >= 1_500
    }

    /// The ledger after such a tick: a confirmed payment with an active request
    /// appends one paid record under the next number, with the request's amount
    /// and note, and opens it as the detail; any other tick leaves the ledger.
    pub open spec fn tick_ledger(&self, post: &Self, rec: ButtonEvent, pwr: ButtonEvent, now: u64) -> bool {
        if self.tick_confirms(rec, pwr, now) && self.active is Some {
            let r = self.active->0;
            &&& post.ledger.records@.len() == self.ledger.records@.len() + 1
            &&& post.ledger.records@.drop_last() == self.ledger.records@
            &&& post.ledger.records@.last().num == self.ledger.next_num
            &&& post.ledger.records@.last().amount_inr@ == r.amount_inr@
            &&& post.ledger.records@.last().note@ == r.note@
            &&& post.ledger.records@.last().status == PaymentStatus::Paid
            &&& post.ledger.next_num == self.ledger.next_num + 1
            &&& post.detail_txn == self.ledger.next_num
        } else {
            post.ledger == self.ledger
        }
    }

    /// The screen after one tick at `now` in which the buttons reported `rec`
    /// and `pwr`: the screen handles them, then the timed step runs.
    pub open spec fn tick_screen(&self, rec: ButtonEvent, pwr: ButtonEvent, now: u64) -> AppState {
        let s1 = screen_after_buttons(
            self.state.state,
            rec,
            pwr,
            self.menu_after(pwr),
            self.settings_after(pwr),
        );
        let since = match self.since_after(rec, now) {
            Some(t) => t,
            None => now,
        };
        let last = if any_press(rec) || any_press(pwr) {
            now
        } else {
            self.activity.last_activity_ms
        };
        let due = match s1 {
            AppState::Waiting => sat_sub(now, since) >= 1_500,
            AppState::Success => sat_sub(now, last) >= 2_500,
            AppState::Error => sat_sub(now, last) >= 2_500,
            _ => false,
        };
        if !due {
            s1
        } else if s1 == AppState::Waiting {
            AppState::Success
        } else {
            AppState::Idle
        }
    }

    /// After a tick whose buttons reported `rec` and `pwr`, `post` has the
    /// highlighted entries, detail page and sound setting those events give,
    /// and this app's merchant, price catalog and home amount.
    pub open spec fn tick_cursor(&self, post: &Self, rec: ButtonEvent, pwr: ButtonEvent) -> bool {
        &&& post.menu_index == self.menu_after(pwr)
        &&& post.settings_index == self.settings_after(pwr)
        &&& post.price_index == self.price_after(rec, pwr)
        &&& post.history_index == self.history_after(rec, pwr)
        &&& post.detail_page == self.detail_page_after(pwr)
        &&& post.sounds.enabled == if self.toggles_sounds(rec, pwr) {
            !self.sounds.enabled
        } else {
            self.sounds.enabled
        }
        &&& post.merchant == self.merchant
        &&& post.prices == self.prices
        &&& post.default_amount_inr == self.default_amount_inr
    }

    /// What one tick needs: indices that can still move, a redraw that can draw
    /// every text, and room in the ledger for a payment that may complete.
    pub open spec fn tick_ok(&self) -> bool {
        &&& self.redraw_ok()
        &&& self.events_defined(ButtonEvent::Single)
        &&& (self.detail_page + 1) * 6 <= usize::MAX
        &&& (self.state.state == AppState::Waiting && self.active is Some) ==> {
            let r = self.active->0;
            &&& self.ledger.next_num < i32::MAX
            &&& paise_fits(r.amount_inr@)
            &&& i64::MIN <= total_paise(self.ledger.records@) + parse_inr_paise_spec(r.amount_inr@)
                <= i64::MAX
        }
    }

    /// No index overflows while handling one poll in which PWR reported `pwr`.
    pub open spec fn events_defined(&self, pwr: ButtonEvent) -> bool {
        pwr == ButtonEvent::Single ==> {
            &&& self.state.state == AppState::Menu ==> self.menu_index < usize::MAX
            &&& self.state.state == AppState::Settings ==> self.settings_index < usize::MAX
            &&& self.state.state == AppState::PricePick ==> self.price_index < usize::MAX
            &&& self.state.state == AppState::History ==> self.history_index < usize::MAX
        }
    }

    /// `post` is this app after one poll of `rec` and `pwr` at `now`, apart from
    /// the activity timer and the activity flag.
    pub open spec fn events_core(&self, post: &Self, rec: ButtonEvent, pwr: ButtonEvent, now: u64) -> bool {
        &&& post.state.state == screen_after_buttons(
            self.state.state,
            rec,
            pwr,
            self.menu_after(pwr),
            self.settings_after(pwr),
        )
        &&& post.state.last_txn_num == if self.state.state == AppState::PricePick && rec
            == ButtonEvent::Single {
            self.ledger.next_num
        } else {
            self.state.last_txn_num
        }
        &&& post.menu_index == self.menu_after(pwr)
        &&& post.settings_index == self.settings_after(pwr)
        &&& post.price_index == self.price_after(rec, pwr)
        &&& post.history_index == self.history_after(rec, pwr)
        &&& post.detail_page == self.detail_page_after(pwr)
        &&& self.active_after(rec, pwr, post.active)
        &&& post.waiting_since_ms == self.since_after(rec, now)
        &&& post.error_msg@ == if self.dismisses_error(rec, pwr) { Seq::<char>::empty() } else { self.error_msg@ }
        &&& post.sounds.enabled == if self.toggles_sounds(rec, pwr) { !self.sounds.enabled } else { self.sounds.enabled }
        &&& post.sounds.events@ == self.sounds.events@ + beeps(self.state.state, rec, pwr)
        &&& post.same_setup(self)
    }

    /// How a screen handler may touch the activity timer and flag: only moving
    /// the last activity to `now`, only on a REC gesture, and only raising the flag.
    pub open spec fn activity_kept(&self, post: &Self, rec: ButtonEvent, pwr: ButtonEvent, now: u64) -> bool {
        &&& (post.activity == self.activity || post.activity == touched(self.activity, now))
        &&& (!any_press(rec) ==> post.activity == self.activity)
        &&& (self.state.activity_reset ==> post.state.activity_reset)
        &&& (!any_press(rec) && !any_press(pwr) ==> post.state.activity_reset == self.state.activity_reset)
    }

    fn handle_idle(&mut self, rec: ButtonEvent, pwr: ButtonEvent, Ghost(now): Ghost<u64>)
        requires
            old(self).state.state == AppState::Idle,
        ensures
            *final(self).display == *old(self).display,
            old(self).events_core(&*final(self), rec, pwr, now),
            old(self).activity_kept(&*final(self), rec, pwr, now),
    {
        if rec == ButtonEvent::Single || rec == ButtonEvent::Long || rec == ButtonEvent::Double {
            self.sounds.play(self.audio, SoundKind::Select);
            self.history_index = 0;
            let _ = self.state.apply(Transition::OpenHistory);
        }
        if pwr == ButtonEvent::Single {
            self.sounds.play(self.audio, SoundKind::Select);
            let _ = self.state.apply(Transition::PwrSingle);
        }
        assert(self.sounds.events@ =~= old(self).sounds.events@ + beeps(old(self).state.state, rec, pwr));
    }

    fn handle_price_pick(&mut self, rec: ButtonEvent, pwr: ButtonEvent, now: u64)
        requires
            old(self).state.state == AppState::PricePick,
            old(self).events_defined(pwr),
        ensures
            *final(self).display == *old(self).display,
            old(self).events_core(&*final(self), rec, pwr, now),
            old(self).activity_kept(&*final(self), rec, pwr, now),
    {
        let n = if self.prices.len() == 0 { 1 } else { self.prices.len() };
        if pwr == ButtonEvent::Single {
            self.sounds.play(self.audio, SoundKind::Next);
            self.price_index = (self.price_index + 1) % n;
        }
        if rec == ButtonEvent::Single {
            let _ = self.start_priced_collect(now);
        }
        if rec == ButtonEvent::Long || rec == ButtonEvent::Double {
            self.active = None;
            self.sounds.play(self.audio, SoundKind::Back);
            let _ = self.state.apply(Transition::MenuBack);
        }
        assert(self.sounds.events@ =~= old(self).sounds.events@ + beeps(old(self).state.state, rec, pwr));
    }

    /// Start a collect for the highlighted price: a fresh request numbered after
    /// the ledger, shown as a QR.
    pub fn start_priced_collect(&mut self, now_ms: u64) -> (r: CoreResult<()>)
        ensures
            *final(self).display == *old(self).display,
            r is Ok,
            final(self).state.state == after(old(self).state.state, Transition::SelectPrice),
            final(self).state.last_txn_num == old(self).ledger.next_num,
            final(self).state.activity_reset,
            final(self).active matches Some(r) && old(self).is_collect_request(old(self).price_index, r),
            final(self).waiting_since_ms is None,
            final(self).sounds.events@ == old(self).sounds.events@.push(SoundKind::Select),
            final(self).sounds.enabled == old(self).sounds.enabled,
            final(self).activity == touched(old(self).activity, now_ms),
            final(self).same_setup(&*old(self)),
            final(self).menu_index == old(self).menu_index,
            final(self).settings_index == old(self).settings_index,
            final(self).history_index == old(self).history_index,
            final(self).price_index == old(self).price_index,
            final(self).detail_page == old(self).detail_page,
            final(self).error_msg == old(self).error_msg,
    {
        let amount = match self.prices.get(self.price_index) {
            Some(a) => owned(a),
            None => owned("100.00"),
        };
        let mut note = String::new();
        push_str(&mut note, "Zoop ");
        push_int(&mut note, self.ledger.next_num() as i64);
        proof {
            reveal_strlit("Zoop ");
            reveal_strlit("100.00");
        }
        assert(note@ =~= collect_note(self.ledger.next_num));
        let mut req = PaymentRequest::new(&self.merchant, amount.as_str(), note.as_str());
        req.mark_qr_shown();
        self.state.set_last_txn_num(self.ledger.next_num());
        self.active = Some(req);
        self.waiting_since_ms = None;
        self.sounds.play(self.audio, SoundKind::Select);
        let _ = self.state.apply(Transition::SelectPrice);
        self.activity.reset_activity(now_ms);
        Ok(())
    }

    fn handle_show_qr(&mut self, rec: ButtonEvent, pwr: ButtonEvent, now: u64)
        requires
            old(self).state.state == AppState::ShowQr,
        ensures
            *final(self).display == *old(self).display,
            old(self).events_core(&*final(self), rec, pwr, now),
            old(self).activity_kept(&*final(self), rec, pwr, now),
    {
        if rec == ButtonEvent::Single {
            // The merchant confirms the customer paid: start waiting.
            if let Some(mut req) = self.active.take() {
                req.mark_pending();
                self.active = Some(req);
            }
            self.waiting_since_ms = Some(now);
            self.sounds.play(self.audio, SoundKind::Select);
            let _ = self.state.apply(Transition::PaymentPending);
            self.activity.reset_activity(now);
        }
        if rec == ButtonEvent::Long || rec == ButtonEvent::Double {
            let _ = self.state.apply(Transition::RecLong);
        }
        if pwr == ButtonEvent::Single {
            self.active = None;
            let _ = self.state.apply(Transition::MenuBack);
        }
        assert(self.sounds.events@ =~= old(self).sounds.events@ + beeps(old(self).state.state, rec, pwr));
    }

    fn handle_waiting(&mut self, rec: ButtonEvent, pwr: ButtonEvent, Ghost(now): Ghost<u64>)
        requires
            old(self).state.state == AppState::Waiting,
        ensures
            *final(self).display == *old(self).display,
            old(self).events_core(&*final(self), rec, pwr, now),
            old(self).activity_kept(&*final(self), rec, pwr, now),
    {
        if rec == ButtonEvent::Long || rec == ButtonEvent::Double {
            let _ = self.state.apply(Transition::RecLong);
        }
        assert(self.sounds.events@ =~= old(self).sounds.events@ + beeps(old(self).state.state, rec, pwr));
    }

    fn handle_success(&mut self, rec: ButtonEvent, pwr: ButtonEvent, now: u64)
        requires
            old(self).state.state == AppState::Success,
        ensures
            *final(self).display == *old(self).display,
            old(self).events_core(&*final(self), rec, pwr, now),
            old(self).activity_kept(&*final(self), rec, pwr, now),
    {
        if rec == ButtonEvent::Single {
            self.finish_success(now);
        }
        assert(self.sounds.events@ =~= old(self).sounds.events@ + beeps(old(self).state.state, rec, pwr));
    }

    /// Leave the success screen: back home, request closed.
    fn finish_success(&mut self, now_ms: u64)
        ensures
            *final(self).display == *old(self).display,
            final(self).state.state == after(old(self).state.state, Transition::PaymentDone),
            final(self).state.last_txn_num == old(self).state.last_txn_num,
            final(self).state.activity_reset,
            final(self).active is None,
            final(self).activity == touched(old(self).activity, now_ms),
            final(self).sounds == old(self).sounds,
            final(self).same_setup(&*old(self)),
            final(self).menu_index == old(self).menu_index,
            final(self).settings_index == old(self).settings_index,
            final(self).history_index == old(self).history_index,
            final(self).price_index == old(self).price_index,
            final(self).detail_page == old(self).detail_page,
            final(self).error_msg == old(self).error_msg,
            final(self).waiting_since_ms == old(self).waiting_since_ms,
    {
        let _ = self.state.apply(Transition::PaymentDone);
        self.active = None;
        self.activity.reset_activity(now_ms);
    }

    fn handle_menu(&mut self, rec: ButtonEvent, pwr: ButtonEvent, Ghost(now): Ghost<u64>)
        requires
            old(self).state.state == AppState::Menu,
            old(self).events_defined(pwr),
        ensures
            *final(self).display == *old(self).display,
            old(self).events_core(&*final(self), rec, pwr, now),
            old(self).activity_kept(&*final(self), rec, pwr, now),
    {
        if pwr == ButtonEvent::Single {
            self.sounds.play(self.audio, SoundKind::Next);
            self.menu_index = (self.menu_index + 1) % 4;
        }
        if rec == ButtonEvent::Single {
            self.sounds.play(self.audio, SoundKind::Select);
            if self.menu_index == 0 {
                self.price_index = 0;
                let _ = self.state.apply(Transition::OpenPrices);
            } else if self.menu_index == 1 {
                self.history_index = 0;
                let _ = self.state.apply(Transition::OpenHistory);
            } else if self.menu_index == 2 {
                let _ = self.state.apply(Transition::OpenMerchant);
            } else {
                let _ = self.state.apply(Transition::OpenSettings);
            }
        }
        if rec == ButtonEvent::Long || rec == ButtonEvent::Double {
            self.sounds.play(self.audio, SoundKind::Back);
            let _ = self.state.apply(Transition::MenuBack);
        }
        assert(self.sounds.events@ =~= old(self).sounds.events@ + beeps(old(self).state.state, rec, pwr));
    }

    fn handle_history(&mut self, rec: ButtonEvent, pwr: ButtonEvent, Ghost(now): Ghost<u64>)
        requires
            old(self).state.state == AppState::History,
            old(self).events_defined(pwr),
        ensures
            *final(self).display == *old(self).display,
            old(self).events_core(&*final(self), rec, pwr, now),
            old(self).activity_kept(&*final(self), rec, pwr, now),
    {
        if pwr == ButtonEvent::Single {
            self.sounds.play(self.audio, SoundKind::Next);
            let shown = self.ledger.recent_labels(8).len();
            let n = if shown == 0 { 1 } else { shown };
            self.history_index = (self.history_index + 1) % n;
        }
        if rec != ButtonEvent::NoEvent {
            self.sounds.play(self.audio, SoundKind::Back);
            let _ = self.state.apply(Transition::MenuBack);
        }
        assert(self.sounds.events@ =~= old(self).sounds.events@ + beeps(old(self).state.state, rec, pwr));
    }

    fn handle_history_detail(&mut self, rec: ButtonEvent, pwr: ButtonEvent, Ghost(now): Ghost<u64>)
        requires
            old(self).state.state == AppState::HistoryDetail,
        ensures
            *final(self).display == *old(self).display,
            old(self).events_core(&*final(self), rec, pwr, now),
            old(self).activity_kept(&*final(self), rec, pwr, now),
    {
        if rec == ButtonEvent::Long {
            let _ = self.state.apply(Transition::RecLong);
        }
        if rec == ButtonEvent::Double || rec == ButtonEvent::Single {
            self.sounds.play(self.audio, SoundKind::Back);
            let _ = self.state.apply(Transition::MenuBack);
        }
        if pwr == ButtonEvent::Single {
            self.detail_page = self.detail_page.saturating_add(1);
        }
        assert(self.sounds.events@ =~= old(self).sounds.events@ + beeps(old(self).state.state, rec, pwr));
    }

    fn handle_cancel(&mut self, rec: ButtonEvent, pwr: ButtonEvent, Ghost(now): Ghost<u64>)
        requires
            old(self).state.state == AppState::CancelConfirm,
        ensures
            *final(self).display == *old(self).display,
            old(self).events_core(&*final(self), rec, pwr, now),
            old(self).activity_kept(&*final(self), rec, pwr, now),
    {
        if rec == ButtonEvent::Single {
            if let Some(mut req) = self.active.take() {
                req.mark_cancelled();
            }
            self.active = None;
            self.waiting_since_ms = None;
            self.sounds.play(self.audio, SoundKind::Delete);
            let _ = self.state.apply(Transition::CancelConfirmed);
        }
        if rec == ButtonEvent::Long || rec == ButtonEvent::Double {
            let _ = self.state.apply(Transition::CancelDismissed);
        }
        assert(self.sounds.events@ =~= old(self).sounds.events@ + beeps(old(self).state.state, rec, pwr));
    }

    fn handle_settings(&mut self, rec: ButtonEvent, pwr: ButtonEvent, Ghost(now): Ghost<u64>)
        requires
            old(self).state.state == AppState::Settings,
            old(self).events_defined(pwr),
        ensures
            *final(self).display == *old(self).display,
            old(self).events_core(&*final(self), rec, pwr, now),
            old(self).activity_kept(&*final(self), rec, pwr, now),
    {
        if pwr == ButtonEvent::Single {
            self.sounds.play(self.audio, SoundKind::Next);
            self.settings_index = (self.settings_index + 1) % 3;
        }
        if rec == ButtonEvent::Single {
            if self.settings_index == 0 {
                let enabled = !self.sounds.enabled;
                self.sounds.set_enabled(enabled);
            } else if self.settings_index == 1 || self.settings_index == 2 {
                let _ = self.state.apply(Transition::OpenDeviceInfo);
            }
        }
        if rec == ButtonEvent::Long || rec == ButtonEvent::Double {
            self.sounds.play(self.audio, SoundKind::Back);
            let _ = self.state.apply(Transition::MenuBack);
        }
        assert(self.sounds.events@ =~= old(self).sounds.events@ + beeps(old(self).state.state, rec, pwr));
    }

    /// Any REC gesture leaves the screen through `ev`.
    fn handle_nav_back(&mut self, rec: ButtonEvent, pwr: ButtonEvent, ev: Transition, Ghost(now): Ghost<u64>)
        requires
            old(self).state.state == AppState::DeviceInfo && ev == Transition::MenuBack
                || old(self).state.state == AppState::Merchant && ev == Transition::ExitMerchant,
        ensures
            *final(self).display == *old(self).display,
            old(self).events_core(&*final(self), rec, pwr, now),
            old(self).activity_kept(&*final(self), rec, pwr, now),
    {
        if rec == ButtonEvent::Long || rec == ButtonEvent::Double || rec == ButtonEvent::Single {
            self.sounds.play(self.audio, SoundKind::Back);
            let _ = self.state.apply(ev);
        }
        assert(self.sounds.events@ =~= old(self).sounds.events@ + beeps(old(self).state.state, rec, pwr));
    }

    fn handle_error(&mut self, rec: ButtonEvent, pwr: ButtonEvent, Ghost(now): Ghost<u64>)
        requires
            old(self).state.state == AppState::Error,
        ensures
            *final(self).display == *old(self).display,
            old(self).events_core(&*final(self), rec, pwr, now),
            old(self).activity_kept(&*final(self), rec, pwr, now),
    {
        if rec == ButtonEvent::Single || pwr == ButtonEvent::Single {
            let _ = self.state.apply(Transition::ErrorDismissed);
            self.active = None;
            self.error_msg = String::new();
        }
        assert(self.sounds.events@ =~= old(self).sounds.events@ + beeps(old(self).state.state, rec, pwr));
    }

    /// React to one poll of both buttons at `now_ms`: any gesture counts as
    /// activity, then the current screen handles it.
    pub fn handle_events(&mut self, rec: ButtonEvent, pwr: ButtonEvent, now_ms: u64)
        requires
            old(self).events_defined(pwr),
        ensures
            *final(self).display == *old(self).display,
            old(self).events_core(&*final(self), rec, pwr, now_ms),
            final(self).activity == if any_press(rec) || any_press(pwr) {
                touched(old(self).activity, now_ms)
            } else {
                old(self).activity
            },
            final(self).state.activity_reset == (old(self).state.activity_reset || any_press(rec)
                || any_press(pwr)),
    {
        if rec != ButtonEvent::NoEvent || pwr != ButtonEvent::NoEvent {
            self.activity.reset_activity(now_ms);
            self.state.activity_reset = true;
        }
        let ghost mid = *self;
        match self.state.state() {
            AppState::Idle => self.handle_idle(rec, pwr, Ghost(now_ms)),
            AppState::PricePick => self.handle_price_pick(rec, pwr, now_ms),
            AppState::ShowQr => self.handle_show_qr(rec, pwr, now_ms),
            AppState::Waiting => self.handle_waiting(rec, pwr, Ghost(now_ms)),
            AppState::Success => self.handle_success(rec, pwr, now_ms),
            AppState::Menu => self.handle_menu(rec, pwr, Ghost(now_ms)),
            AppState::History => self.handle_history(rec, pwr, Ghost(now_ms)),
            AppState::HistoryDetail => self.handle_history_detail(rec, pwr, Ghost(now_ms)),
            AppState::CancelConfirm => self.handle_cancel(rec, pwr, Ghost(now_ms)),
            AppState::Settings => self.handle_settings(rec, pwr, Ghost(now_ms)),
            AppState::DeviceInfo => self.handle_nav_back(rec, pwr, Transition::MenuBack, Ghost(now_ms)),
            AppState::Merchant => self.handle_nav_back(rec, pwr, Transition::ExitMerchant, Ghost(now_ms)),
            AppState::Error => self.handle_error(rec, pwr, Ghost(now_ms)),
            _ => {
                assert(self.sounds.events@ =~= mid.sounds.events@ + beeps(mid.state.state, rec, pwr));
            },
        }
    }

    /// Poll both buttons and react to what they report.
    fn handle_buttons<B: Buttons>(&mut self, buttons: &mut ButtonPoller<B>, now_ms: u64) -> (ev: (ButtonEvent, ButtonEvent))
        requires
            old(self).events_defined(ButtonEvent::Single),
        ensures
            *final(self).display == *old(self).display,
            exists|rp: bool, pp: bool|
                #![trigger rec_poll_step(old(buttons).engine, rp, now_ms), pwr_step(rec_poll_step(old(buttons).engine, rp, now_ms).0, pp, now_ms)]
                rec_poll_step(old(buttons).engine, rp, now_ms).1 == ev.0 && pwr_step(
                    rec_poll_step(old(buttons).engine, rp, now_ms).0,
                    pp,
                    now_ms,
                ) == (final(buttons).engine, ev.1),
            old(self).events_core(&*final(self), ev.0, ev.1, now_ms),
            final(self).activity == if any_press(ev.0) || any_press(ev.1) {
                touched(old(self).activity, now_ms)
            } else {
                old(self).activity
            },
            final(self).state.activity_reset == (old(self).state.activity_reset || any_press(ev.0)
                || any_press(ev.1)),
    {
        let ghost e0 = buttons.engine;
        let rec = buttons.poll_rec(now_ms);
        let ghost e1 = buttons.engine;
        let pwr = buttons.poll_pwr(now_ms);
        proof {
            let rp = choose|p: bool| #[trigger] rec_poll_step(e0, p, now_ms) == (e1, rec);
            let pp = choose|p: bool| #[trigger] pwr_step(e1, p, now_ms) == (buttons.engine, pwr);
            assert(rec_poll_step(e0, rp, now_ms).1 == rec && pwr_step(
                rec_poll_step(e0, rp, now_ms).0,
                pp,
                now_ms,
            ) == (buttons.engine, pwr));
        }
        self.handle_events(rec, pwr, now_ms);
        (rec, pwr)
    }

    /// Timed progress at `now_ms`: confirm a payment that has waited long
    /// enough, close the success and error screens after a quiet spell.
    fn advance_payment(&mut self, now_ms: u64)
        requires
            old(self).timer_due(now_ms) && old(self).state.state == AppState::Waiting
                && old(self).active is Some ==> old(self).ledger.next_num < i32::MAX,
        ensures
            *final(self).display == *old(self).display,
            old(self).timer_core(&*final(self), now_ms),
    {
        match self.state.state() {
            AppState::Waiting => {
                let since = match self.waiting_since_ms {
                    Some(t) => t,
                    None => now_ms,
                };
                if now_ms.saturating_sub(since) >= 1_500 {
                    self.complete_payment(now_ms);
                }
            },
            AppState::Success => {
                if self.activity.idle_ms(now_ms) >= 2_500 {
                    self.finish_success(now_ms);
                }
            },
            AppState::Error => {
                if self.activity.idle_ms(now_ms) >= 2_500 {
                    let _ = self.state.apply(Transition::ErrorDismissed);
                    self.active = None;
                    self.error_msg = String::new();
                    self.activity.reset_activity(now_ms);
                }
            },
            _ => {},
        }
    }

    /// The payment went through: record it and show success.
    fn complete_payment(&mut self, now_ms: u64)
        requires
            old(self).active is Some ==> old(self).ledger.next_num < i32::MAX,
        ensures
            *final(self).display == *old(self).display,
            old(self).confirmed(&*final(self), now_ms),
            final(self).state.last_txn_num == old(self).state.last_txn_num,
            final(self).menu_index == old(self).menu_index,
            final(self).settings_index == old(self).settings_index,
            final(self).history_index == old(self).history_index,
            final(self).price_index == old(self).price_index,
            final(self).detail_page == old(self).detail_page,
            final(self).merchant == old(self).merchant,
            final(self).prices == old(self).prices,
            final(self).default_amount_inr == old(self).default_amount_inr,
            final(self).last_screen == old(self).last_screen,
            final(self).sounds.enabled == old(self).sounds.enabled,
    {
        if let Some(mut req) = self.active.take() {
            req.mark_paid();
            let rec = self.ledger.push_paid(req.amount_inr.as_str(), req.note.as_str());
            self.detail_txn = rec.num;
            self.active = Some(req);
        }
        self.waiting_since_ms = None;
        self.sounds.play(self.audio, SoundKind::Success);
        let _ = self.state.apply(Transition::PaymentSuccess);
        self.activity.reset_activity(now_ms);
    }

    /// Note the ultra-sleep screen once the device has idled long enough.
    fn check_ultra_sleep(&mut self, now_ms: u64)
        ensures
            *final(self).display == *old(self).display,
            final(self).last_screen == if !keeps_awake(old(self).state.state) && sat_sub(
                now_ms,
                old(self).activity.last_activity_ms,
            ) >= old(self).activity.ultra_sleep_ms {
                ScreenId::UltraSleep
            } else {
                old(self).last_screen
            },
            final(self).same_logic(&*old(self)),
    {
        if self.activity.should_ultra_sleep(self.state.state(), now_ms) {
            self.last_screen = ScreenId::UltraSleep;
        }
    }

    /// Draw the current screen (or the low-battery overlay) and flush it.
    /// `battery_pct` is the charge the board measured, if it could.
    pub fn redraw<C: Clock>(&mut self, clock: &C, battery_pct: Option<u8>) -> (r: CoreResult<()>)
        requires
            old(self).redraw_ok(),
        ensures
            final(self).same_core(&*old(self)),
            exists|now: u64| #[trigger] old(self).redraw_done(old(self).activity, &*final(self), battery_pct, now, r),
    {
        let now = clock.now_ms();
        if let Some(p) = battery_pct {
            if p <= BatteryCurve::LOW_THRESHOLD && now > u64::MAX - BAT_WARN_OVERLAY_MS {
                let e = CoreError::Other(owned("clock at its limit"));
                assert(old(self).redraw_done(old(self).activity, &*self, battery_pct, now, Err(e)));
                return Err(e);
            }
            self.activity.update_battery_warning(
                Some(p),
                BatteryCurve::LOW_THRESHOLD,
                BatteryCurve::RECOVER_THRESHOLD,
                now,
            );
        }
        assert(self.activity == battery_update(old(self).activity, battery_pct, now));
        let state = self.state.state();
        let warn = self.activity.battery_warning_active(now);
        let error_msg = owned(self.error_msg.as_str());
        let history = self.ledger.recent_labels(5);
        let history_total = self.ledger.total_paid_label();
        let price_labels = self.prices.labels();
        let upi_uri = match &self.active {
            Some(r) => owned(r.uri.as_str()),
            None => build_upi_uri(
                self.merchant.vpa.as_str(),
                self.merchant.name.as_str(),
                self.default_amount_inr.as_str(),
                "Zoop Pay",
            ),
        };
        let txn_note = match &self.active {
            Some(r) => owned(r.note.as_str()),
            None => String::new(),
        };
        let merchant_name = owned(self.merchant.name.as_str());
        let merchant_vpa = owned(self.merchant.vpa.as_str());
        let txn_count = self.ledger.len();
        let menu_index = self.menu_index;
        let settings_index = self.settings_index;
        let history_index = self.history_index;
        let price_index = self.price_index;
        let detail_page = self.detail_page;
        let detail_num = self.detail_txn;
        let sounds_on = self.sounds.enabled;
        let empty: Vec<String> = Vec::new();
        proof {
            reveal_strlit("v1.0");
            reveal_strlit("time not set");
            reveal_strlit("");
            assert(self.ledger.records@.take(self.ledger.records@.len() as int) =~= self.ledger.records@);
            assert(i64::MIN <= total_paise(self.ledger.records@.take(self.ledger.records@.len() as int)) <= i64::MAX);
        }
        let amount = match &self.active {
            Some(r) => r.amount_inr.as_str(),
            None => self.default_amount_inr.as_str(),
        };
        let ghost data = self.screen_data(battery_pct);
        let ghost expected = old(self).redraw_frame(
            old(self).display.frame().len(),
            warn_active(self.activity, now),
            battery_pct,
        );
        assert(expected == self.redraw_frame(self.display.frame().len(), warn, battery_pct));
        proof {
            reveal_strlit("Zoop Pay");
            assert(lines_view(history@) =~= recent_label_views(self.ledger.records@, 5));
            assert(lines_view(price_labels@) =~= self.prices.amounts@.map_values(
                |a: String| amount_label_spec(a@),
            ));
            assert(lines_view(empty@) =~= Seq::<Seq<char>>::empty());
        }
        let fb = self.display.framebuffer_mut();
        if fb.len() < BYTES {
            let e = CoreError::Other(owned("framebuffer smaller than the panel"));
            assert(old(self).redraw_done(old(self).activity, &*self, battery_pct, now, Err(e)));
            return Err(e);
        }
        let mut ui = UiContext {
            buf: { fb },
            battery_pct,
            firmware_version: FIRMWARE_VERSION,
            merchant_name: merchant_name.as_str(),
            upi_vpa: merchant_vpa.as_str(),
            amount_inr: amount,
            upi_uri: upi_uri.as_str(),
            txn_note: txn_note.as_str(),
            txn_count,
            menu_index,
            settings_index,
            history_index,
            history_lines: history.as_slice(),
            history_total: history_total.as_str(),
            price_labels: price_labels.as_slice(),
            price_index,
            error_msg: error_msg.as_str(),
            device_rtc: "time not set",
            sounds_on,
            sync_done: 0,
            sync_pending: 0,
            note_count: txn_count,
            tag_index: 0,
            tags: empty.as_slice(),
            list_filter: "All",
            list_scroll: 0,
            detail_num,
            detail_tag: "",
            detail_lines: empty.as_slice(),
            detail_page,
            transfer_ip: "",
            transcribe_done: 0,
            transcribe_pending: 0,
        };
        // The screens get the data that `screen_data` describes, field by field.
        proof {
            assert(ui.ui_view().battery_pct == data.battery_pct);
            assert(ui.ui_view().firmware_version == data.firmware_version);
            assert(ui.ui_view().merchant_name == data.merchant_name);
            assert(ui.ui_view().upi_vpa == data.upi_vpa);
            assert(ui.ui_view().amount_inr == data.amount_inr);
            assert(ui.ui_view().upi_uri == data.upi_uri);
            assert(ui.ui_view().txn_note == data.txn_note);
            assert(ui.ui_view().txn_count == data.txn_count);
            assert(ui.ui_view().menu_index == data.menu_index);
            assert(ui.ui_view().settings_index == data.settings_index);
            assert(ui.ui_view().history_index == data.history_index);
            assert(ui.ui_view().history_lines == data.history_lines);
            assert(ui.ui_view().history_total == data.history_total);
            assert(ui.ui_view().price_labels == data.price_labels);
            assert(ui.ui_view().price_index == data.price_index);
            assert(ui.ui_view().error_msg == data.error_msg);
            assert(ui.ui_view().device_rtc == data.device_rtc);
            assert(ui.ui_view().sounds_on == data.sounds_on);
            assert(ui.ui_view().detail_lines == data.detail_lines);
            assert(ui.ui_view().detail_page == data.detail_page);
            assert(ui.ui_view().transfer_ip == data.transfer_ip);
            assert(ui.ui_view() == data);
        }
        let shown = if warn {
            ui.show_battery_low()
        } else if state == AppState::Error {
            ui.show_error_screen(error_msg.as_str())
        } else {
            ui.render(state)
        };
        assert(ui.buf@ == expected);
        self.last_screen = shown;
        let r = self.display.flush();
        assert(old(self).redraw_done(old(self).activity, &*self, battery_pct, now, r));
        r
    }

    /// Start up: count the boot as activity and draw the first screen.
    pub fn boot<C: Clock>(&mut self, clock: &C, battery_pct: Option<u8>) -> (r: CoreResult<()>)
        requires
            old(self).redraw_ok(),
        ensures
            final(self).state == old(self).state,
            final(self).ledger == old(self).ledger,
            final(self).active == old(self).active,
            exists|t: u64, now: u64|
                #[trigger] old(self).redraw_done(
                    touched(old(self).activity, t),
                    &*final(self),
                    battery_pct,
                    now,
                    r,
                ),
    {
        let now = clock.now_ms();
        self.activity.reset_activity(now);
        let ghost mid = *self;
        let r = self.redraw(clock, battery_pct);
        proof {
            let n = choose|n: u64| #[trigger] mid.redraw_done(mid.activity, &*self, battery_pct, n, r);
            assert(mid.redraw_frame(mid.display.frame().len(), warn_active(battery_update(mid.activity, battery_pct, n), n), battery_pct)
                == old(self).redraw_frame(old(self).display.frame().len(), warn_active(battery_update(mid.activity, battery_pct, n), n), battery_pct));
            assert(mid.activity == touched(old(self).activity, now));
            assert(old(self).redraw_done(touched(old(self).activity, now), &*self, battery_pct, n, r));
        }
        r
    }

    /// One main-loop iteration: poll the buttons, run the timed step, note an
    /// ultra-sleep, redraw. `battery_pct` is the charge the board measured.
    pub fn tick<B: Buttons, C: Clock>(
        &mut self,
        buttons: &mut ButtonPoller<B>,
        clock: &C,
        battery_pct: Option<u8>,
    ) -> (r: CoreResult<()>)
        requires
            old(self).tick_ok(),
        ensures
            exists|now: u64, rp: bool, pp: bool|
                #![trigger rec_poll_step(old(buttons).engine, rp, now), pwr_step(rec_poll_step(old(buttons).engine, rp, now).0, pp, now)]
                {
                    &&& pwr_step(rec_poll_step(old(buttons).engine, rp, now).0, pp, now).0
                        == final(buttons).engine
                    &&& final(self).state.state == old(self).tick_screen(
                        rec_poll_step(old(buttons).engine, rp, now).1,
                        pwr_step(rec_poll_step(old(buttons).engine, rp, now).0, pp, now).1,
                        now,
                    )
                    &&& old(self).tick_cursor(
                        &*final(self),
                        rec_poll_step(old(buttons).engine, rp, now).1,
                        pwr_step(rec_poll_step(old(buttons).engine, rp, now).0, pp, now).1,
                    )
                    &&& old(self).tick_ledger(
                        &*final(self),
                        rec_poll_step(old(buttons).engine, rp, now).1,
                        pwr_step(rec_poll_step(old(buttons).engine, rp, now).0, pp, now).1,
                        now,
                    )
                },
            exists|t: u64, n: nat| #[trigger] final(self).redraw_seen(battery_pct, t, r, n),
            final(self).display.flushes() == old(self).display.flushes() || final(self).display.flushes()
                == old(self).display.flushes().push((final(self).display.frame(), r)),
            final(self).ledger.records@ == old(self).ledger.records@ || (
            final(self).ledger.records@.len() == old(self).ledger.records@.len() + 1
                && final(self).ledger.records@.drop_last() == old(self).ledger.records@),
            old(self).ledger.numbered() ==> final(self).ledger.numbered(),
            final(self).ledger.records@.len() == old(self).ledger.records@.len() + 1 ==> {
                &&& old(self).state.state == AppState::Waiting
                &&& old(self).active is Some
                &&& final(self).ledger.records@.last().amount_inr@ == old(self).active->0.amount_inr@
                &&& final(self).ledger.records@.last().note@ == old(self).active->0.note@
                &&& final(self).ledger.records@.last().num == old(self).ledger.next_num
                &&& final(self).state.state == AppState::Success
            },
    {
        let now = clock.now_ms();
        let ghost pre = *self;
        let ghost e0 = buttons.engine;
        let (rec, pwr) = self.handle_buttons(buttons, now);
        let ghost mid = *self;
        proof {
            if mid.timer_due(now) && mid.state.state == AppState::Waiting {
                assert(pre.state.state == AppState::Waiting);
            }
        }
        self.advance_payment(now);
        let ghost mid2 = *self;
        proof {
            Self::lemma_tick_redraw_ok(&pre, &mid, &mid2, rec, pwr, now);
            let (rp, pp) = choose|rp: bool, pp: bool|
                #![trigger rec_poll_step(e0, rp, now), pwr_step(rec_poll_step(e0, rp, now).0, pp, now)]
                rec_poll_step(e0, rp, now).1 == rec && pwr_step(rec_poll_step(e0, rp, now).0, pp, now)
                    == (buttons.engine, pwr);
            assert(mid2.state.state == pre.tick_screen(rec, pwr, now));
            assert(pre.tick_cursor(&mid2, rec, pwr));
            assert(mid.timer_due(now) && mid.state.state == AppState::Waiting <==> pre.tick_confirms(rec, pwr, now));
            assert(pre.tick_ledger(&mid2, rec, pwr, now));
        }
        self.check_ultra_sleep(now);
        let ghost mid3 = *self;
        let r = self.redraw(clock, battery_pct);
        proof {
            let t = choose|t: u64| #[trigger] mid3.redraw_done(mid3.activity, &*self, battery_pct, t, r);
            Self::lemma_redraw_seen(&mid3, &*self, battery_pct, t, r, mid3.display.frame().len());
        }
        r
    }

    /// A redraw's outcome, told by the app it leaves on a panel of `n` bytes at
    /// time `t`: one of the library's two refusals, or the frame drawn and
    /// flushed last, with the flush's answer returned.
    pub open spec fn redraw_seen(&self, pct: Option<u8>, t: u64, r: CoreResult<()>, n: nat) -> bool {
        ||| (Self::clock_at_limit(pct, t) && (r matches Err(CoreError::Other(m)) && m@ == "clock at its limit"@))
        ||| (!Self::clock_at_limit(pct, t) && n < BYTES && (r matches Err(CoreError::Other(m)) && m@
            == "framebuffer smaller than the panel"@))
        ||| {
            &&& self.last_screen == shown_screen(self.state.state, warn_active(self.activity, t))
            &&& self.display.frame() == self.redraw_frame(n, warn_active(self.activity, t), pct)
            &&& self.display.flushes().len() > 0
            &&& self.display.flushes().last() == (self.display.frame(), r)
        }
    }

    /// The frame held by the panel's framebuffer.
    pub open spec fn panel_frame(&self) -> Seq<u8> {
        self.display.frame()
    }

    /// Every frame flushed to the panel so far, with the flush's answer.
    pub open spec fn flush_log(&self) -> Seq<(Seq<u8>, CoreResult<()>)> {
        self.display.flushes()
    }

    /// What one redraw does, as one statement: it never changes the screen
    /// state; a clock at its limit or a framebuffer smaller than the panel is
    /// refused with the panel untouched and nothing flushed; otherwise the
    /// battery warning is shown while it is active after the battery update,
    /// else the error screen in the error state, else the state's own screen,
    /// and the frame is flushed exactly once, the flush's answer returned.
    pub proof fn lemma_redraw_outcome(pre: &Self, post: &Self, pct: Option<u8>, now: u64, r: CoreResult<()>)
        requires
            pre.redraw_done(pre.activity, post, pct, now, r),
            post.same_core(pre),
        ensures
            post.state == pre.state,
            Self::clock_at_limit(pct, now) || pre.panel_frame().len() < BYTES ==> r is Err
                && post.flush_log() == pre.flush_log() && post.panel_frame() == pre.panel_frame(),
            !Self::clock_at_limit(pct, now) && pre.panel_frame().len() >= BYTES ==> {
                &&& post.last_screen == if warn_active(battery_update(pre.activity, pct, now), now) {
                    ScreenId::BatteryLow
                } else if pre.state.state == AppState::Error {
                    ScreenId::Error
                } else {
                    screen_of(pre.state.state)
                }
                &&& post.flush_log() == pre.flush_log().push((post.panel_frame(), r))
            },
    {
    }

    proof fn lemma_redraw_seen(pre: &Self, post: &Self, pct: Option<u8>, t: u64, r: CoreResult<()>, n: nat)
        requires
            pre.redraw_done(pre.activity, post, pct, t, r),
            post.same_core(pre),
            n == pre.display.frame().len(),
        ensures
            post.redraw_seen(pct, t, r, n),
    {
        assert(post.redraw_frame(n, warn_active(post.activity, t), pct) == pre.redraw_frame(
            n,
            warn_active(post.activity, t),
            pct,
        ));
    }

    /// The texts a tick hands to the redraw stay drawable and the ledger total
    /// stays inside `i64`.
    proof fn lemma_tick_redraw_ok(pre: &Self, mid: &Self, mid2: &Self, rec: ButtonEvent, pwr: ButtonEvent, now: u64)
        requires
            pre.tick_ok(),
            pre.events_core(mid, rec, pwr, now),
            mid.timer_core(mid2, now),
        ensures
            mid2.redraw_ok(),
            mid2.ledger.records@ == pre.ledger.records@ || (mid2.ledger.records@.len()
                == pre.ledger.records@.len() + 1 && mid2.ledger.records@.drop_last()
                == pre.ledger.records@),
            pre.ledger.numbered() ==> mid2.ledger.numbered(),
            mid2.ledger.records@.len() == pre.ledger.records@.len() + 1 ==> {
                &&& pre.state.state == AppState::Waiting
                &&& pre.active is Some
                &&& mid2.ledger.records@.last().amount_inr@ == pre.active->0.amount_inr@
                &&& mid2.ledger.records@.last().note@ == pre.active->0.note@
                &&& mid2.ledger.records@.last().num == pre.ledger.next_num
                &&& mid2.state.state == AppState::Success
            },
    {
        reveal_strlit("100.00");
        reveal_strlit("Zoop ");
        lemma_fmt_int_len(pre.ledger.next_num as int, 0);
        if mid.timer_due(now) && mid.state.state == AppState::Waiting {
            if let Some(r) = mid.active {
                assert(pre.state.state == AppState::Waiting);
                let recd = mid2.ledger.records@.last();
                assert(mid2.ledger.records@ == pre.ledger.records@.push(recd));
                lemma_totals_fit_push(pre.ledger.records@, recd);
                if pre.ledger.numbered() {
                    let rs = mid2.ledger.records@;
                    assert forall|a: int, b: int| 0 <= a < b < rs.len() implies #[trigger] rs[a].num
                        < #[trigger] rs[b].num by {
                        assert(rs[a] == pre.ledger.records@[a]);
                        if b < pre.ledger.records@.len() {
                            assert(rs[b] == pre.ledger.records@[b]);
                        }
                    }
                    assert forall|a: int| 0 <= a < rs.len() implies #[trigger] rs[a].num
                        < mid2.ledger.next_num by {
                        if a < pre.ledger.records@.len() {
                            assert(rs[a] == pre.ledger.records@[a]);
                        }
                    }
                }
            }
        }
    }

    /// Whether `redraw` (and `boot`) may be called: `true` exactly when
    /// `redraw_ok` holds.
    pub fn redraw_ready(&self) -> (r: bool)
        ensures
            r == self.redraw_ok(),
    {
        if self.ledger.checked_total().is_none() {
            return false;
        }
        self.detail_page <= usize::MAX / 6
    }

    /// Whether `tick` may be called: `true` exactly when `tick_ok` holds.
    pub fn tick_ready(&self) -> (r: bool)
        ensures
            r == self.tick_ok(),
    {
        if !self.redraw_ready() {
            return false;
        }
        let st = self.state.state();
        if st == AppState::Menu && self.menu_index == usize::MAX
            || st == AppState::Settings && self.settings_index == usize::MAX
            || st == AppState::PricePick && self.price_index == usize::MAX
            || st == AppState::History && self.history_index == usize::MAX {
            return false;
        }
        if self.detail_page >= usize::MAX / 6 {
            return false;
        }
        if st == AppState::Waiting {
            if let Some(r) = &self.active {
                if self.ledger.next_num() == i32::MAX {
                    return false;
                }
                let total = match self.ledger.checked_total() {
                    Some(t) => t,
                    None => {
                        return false;
                    },
                };
                proof {
                    assert(self.ledger.records@.take(self.ledger.records@.len() as int) =~= self.ledger.records@);
                }
                match checked_inr_paise(r.amount_inr.as_str()) {
                    Some(p) => {
                        return total.checked_add(p).is_some();
                    },
                    None => {
                        return false;
                    },
                }
            }
        }
        true
    }

    /// Sixteen raw ADC samples, or `None` when the ADC read fails.
    pub fn battery_samples(&mut self) -> (r: Option<Vec<u32>>) {
        match self.battery_adc.read_mv_samples(16) {
            Ok(v) => Some(v),
            Err(_) => None,
        }
    }
}

} // verus!
