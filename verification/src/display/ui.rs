//! UPI payment screens for 200×200 e-Paper — calm, QR-first collect flow.
//!
//! Outlined circles (the waiting spinner, the battery and sleep marks) are
//! not drawn here: `rings_for` gives their geometry for the caller to draw.
use vstd::prelude::*;
use vstd::utf8::encode_utf8;

use crate::display::draw::{
    check_spec, clear_screen, disc, draw_check, draw_header, draw_hints, draw_select_row,
    draw_soft_header, draw_str, draw_str_centered, fill_circle, header_spec, hints_spec, outline,
    select_row_spec, soft_header_spec, str_at, str_centered, stroke_rect, BLACK, BYTES, WIDTH,
};
use crate::display::qr::{draw_qr_centered, draw_qr_fullscreen, full_top, qr_paint, qr_symbol, QR_FULL_PX, QR_MAX_PX};
use crate::state::AppState;
use crate::text::{dec_digits, owned, push_dec, push_str};
use crate::upi::{amount_label_spec, format_amount_label};

verus! {

pub const HINTS_Y: i32 = 180;

pub const CONTENT_TOP: i32 = 36;

/// Shown by the QR screens when no merchant URI is configured.
pub const DEMO_URI: &'static str = "upi://pay?pa=demo@upi&pn=Zoop&cu=INR";

#[derive(Debug, Clone, Copy, PartialEq, Eq, Structural)]
pub enum ScreenId {
    Idle,
    PricePick,
    ShowQr,
    Waiting,
    Success,
    Menu,
    Settings,
    DeviceInfo,
    HistoryList,
    HistoryDetail,
    CancelConfirm,
    Merchant,
    Error,
    BatteryLow,
    UltraSleep,
    WifiConnecting,
    Syncing,
    Recording,
    Transfer,
}

pub struct UiContext<'a> {
    pub buf: &'a mut [u8],
    pub battery_pct: Option<u8>,
    pub firmware_version: &'a str,
    pub merchant_name: &'a str,
    pub upi_vpa: &'a str,
    pub amount_inr: &'a str,
    pub upi_uri: &'a str,
    pub txn_note: &'a str,
    pub txn_count: usize,
    pub menu_index: usize,
    pub settings_index: usize,
    pub history_index: usize,
    pub history_lines: &'a [String],
    /// Sum label for history screen e.g. `Rs 1530`
    pub history_total: &'a str,
    /// Predefined price labels for PricePick (`Rs 100`, …)
    pub price_labels: &'a [String],
    pub price_index: usize,
    pub error_msg: &'a str,
    pub device_rtc: &'a str,
    pub sounds_on: bool,
    pub sync_done: usize,
    pub sync_pending: usize,
    pub note_count: usize,
    pub tag_index: usize,
    pub tags: &'a [String],
    pub list_filter: &'a str,
    pub list_scroll: usize,
    pub detail_num: i32,
    pub detail_tag: &'a str,
    pub detail_lines: &'a [String],
    pub detail_page: usize,
    pub transfer_ip: &'a str,
    pub transcribe_done: usize,
    pub transcribe_pending: usize,
}

/// What the screens show, as plain values.
pub struct UiView {
    pub battery_pct: Option<u8>,
    pub firmware_version: Seq<char>,
    pub merchant_name: Seq<char>,
    pub upi_vpa: Seq<char>,
    pub amount_inr: Seq<char>,
    pub upi_uri: Seq<char>,
    pub txn_note: Seq<char>,
    pub txn_count: usize,
    pub menu_index: usize,
    pub settings_index: usize,
    pub history_index: usize,
    pub history_lines: Seq<Seq<char>>,
    pub history_total: Seq<char>,
    pub price_labels: Seq<Seq<char>>,
    pub price_index: usize,
    pub error_msg: Seq<char>,
    pub device_rtc: Seq<char>,
    pub sounds_on: bool,
    pub detail_lines: Seq<Seq<char>>,
    pub detail_page: usize,
    pub transfer_ip: Seq<char>,
}

/// First history line shown: the selected one, kept within the list.
pub open spec fn history_start_of(d: UiView) -> int {
    let n = d.history_lines.len() as int;
    min_int(d.history_index as int, if n >= 1 { n - 1 } else { 0 })
}

/// The frame drawn for `state` with data `d` on the cleared panel `b`.
pub open spec fn screen_frame(b: Seq<u8>, state: AppState, d: UiView) -> Seq<u8> {
    let amount = amount_label_spec(d.amount_inr);
    match state {
        AppState::Idle => qr_or_note(b, shown_uri(d.upi_uri), None, 96),
        AppState::PricePick => {
            let h = soft_header_spec(b, "AMOUNT"@, None);
            let n = d.price_labels.len() as int;
            if n == 0 {
                hints_spec(str_centered(h, 100, 90, "no prices"@, 1, BLACK), "Back"@, ""@)
            } else {
                hints_spec(
                    price_grid(h, d.price_labels, d.price_index as int, min_int(n, 6)),
                    "QR"@,
                    "Next"@,
                )
            }
        },
        AppState::ShowQr => hints_spec(
            qr_or_note(soft_header_spec(b, "PAY"@, Some(amount)), shown_uri(d.upi_uri), Some(28), 100),
            "Done"@,
            "Back"@,
        ),
        AppState::Waiting => {
            let b1 = disc(soft_header_spec(b, "WAITING"@, None), 100, 88, 6, 13, BLACK);
            let b2 = str_centered(str_centered(b1, 100, 128, "checking payment"@, 1, BLACK), 100, 148, amount, 1, BLACK);
            hints_spec(b2, ""@, "Cancel"@)
        },
        AppState::Success => {
            let b1 = str_centered(check_spec(soft_header_spec(b, "PAID"@, None), 100, 88), 100, 132, amount, 1, BLACK);
            let b2 = if d.txn_note.len() == 0 {
                b1
            } else {
                str_centered(b1, 100, 150, d.txn_note, 1, BLACK)
            };
            hints_spec(b2, "Done"@, ""@)
        },
        AppState::Menu => hints_spec(
            select_rows(soft_header_spec(b, "MENU"@, None), menu_items(), 40, 30, d.menu_index as int, 4),
            "Open"@,
            "Next"@,
        ),
        AppState::Settings => hints_spec(
            select_rows(soft_header_spec(b, "SETTINGS"@, None), settings_items(d.sounds_on), 44, 32, d.settings_index as int, 3),
            "Select"@,
            "Next"@,
        ),
        AppState::DeviceInfo => hints_spec(
            text_lines(
                soft_header_spec(b, "DEVICE"@, None),
                device_lines(d.firmware_version, d.battery_pct, d.device_rtc, d.txn_count),
                16,
                44,
                26,
                4,
            ),
            "Back"@,
            ""@,
        ),
        AppState::History => {
            let h = soft_header_spec(b, "RECENT"@, Some(d.history_total));
            let lines = d.history_lines;
            let b1 = if lines.len() == 0 {
                str_centered(h, 100, 90, "no payments yet"@, 1, BLACK)
            } else {
                let start = history_start_of(d);
                text_lines(h, lines.skip(start), 12, 40, 22, min_int(lines.len() - start, 5))
            };
            hints_spec(str_at(b1, 12, 162, "TOTAL  "@ + d.history_total, 1, BLACK), "Back"@, "Next"@)
        },
        AppState::HistoryDetail => {
            let h = soft_header_spec(b, "TXN"@, Some(amount));
            let lines = if d.history_lines.len() == 0 {
                d.detail_lines
            } else {
                d.history_lines
            };
            let start = d.detail_page * 6;
            let n = if start >= lines.len() { 0 } else { min_int(lines.len() - start, 6) };
            hints_spec(text_lines(h, lines.skip(start as int), 12, 40, 20, n), "Back"@, "Scroll"@)
        },
        AppState::CancelConfirm => {
            let b1 = str_centered(soft_header_spec(b, "CANCEL"@, None), 100, 80, "cancel this pay?"@, 1, BLACK);
            hints_spec(str_centered(b1, 100, 108, amount, 1, BLACK), "Yes"@, "Back"@)
        },
        AppState::Merchant => {
            let b1 = str_centered(soft_header_spec(b, "MERCHANT"@, None), 100, 56, d.merchant_name, 1, BLACK);
            let b2 = str_centered(str_centered(b1, 100, 84, d.upi_vpa, 1, BLACK), 100, 120, "static VPA"@, 1, BLACK);
            hints_spec(str_centered(b2, 100, 142, "QR stays on Home"@, 1, BLACK), "Back"@, ""@)
        },
        AppState::Error => error_frame(b, d.error_msg),
        AppState::Recording => hints_spec(soft_header_spec(b, "RECORDING"@, None), "Stop"@, ""@),
        AppState::Transfer => hints_spec(
            str_centered(soft_header_spec(b, "TRANSFER"@, None), 100, 88, d.transfer_ip, 1, BLACK),
            "Back"@,
            ""@,
        ),
    }
}

pub open spec fn lines_view(v: Seq<String>) -> Seq<Seq<char>> {
    v.map_values(|s: String| s@)
}

/// The white panel `n` bytes long.
pub open spec fn blank(n: nat) -> Seq<u8> {
    Seq::new(n, |i: int| 0xFFu8)
}

/// The QR shown: the configured URI, or the demo one when there is none.
pub open spec fn shown_uri(uri: Seq<char>) -> Seq<char> {
    if uri.len() == 0 {
        DEMO_URI@
    } else {
        uri
    }
}

/// A QR at `top_y` (or `None` for the full-panel one), or the fallback text.
pub open spec fn qr_or_note(b: Seq<u8>, uri: Seq<char>, top_y: Option<int>, note_y: int) -> Seq<u8> {
    match qr_symbol(encode_utf8(uri)) {
        Some((w, m)) => match top_y {
            Some(t) => qr_paint(b, m, w as int, QR_MAX_PX as int, t),
            None => qr_paint(b, m, w as int, QR_FULL_PX as int, full_top(w as int)),
        },
        None => str_centered(b, 100, note_y, "QR too long"@, 1, BLACK),
    }
}

/// Labels `0 .. n` of the two-column price grid, the selected one outlined.
pub open spec fn price_grid(b: Seq<u8>, labels: Seq<Seq<char>>, sel: int, n: int) -> Seq<u8>
    decreases n,
{
    if n <= 0 {
        b
    } else {
        let i = n - 1;
        let x = 12 + (i % 2) * 88;
        let y = 38 + (i / 2) * 28;
        let b1 = price_grid(b, labels, sel, n - 1);
        let b2 = if i == sel { outline(b1, x, y, 84, 24, 1, BLACK) } else { b1 };
        str_at(b2, x + 6, y + 8, labels[i], 1, BLACK)
    }
}

/// Rows `0 .. n` of a selectable list from `y0`, `step` pixels apart.
pub open spec fn select_rows(b: Seq<u8>, items: Seq<Seq<char>>, y0: int, step: int, sel: int, n: int) -> Seq<u8>
    decreases n,
{
    if n <= 0 {
        b
    } else {
        select_row_spec(select_rows(b, items, y0, step, sel, n - 1), y0 + (n - 1) * step, items[n - 1], n - 1 == sel)
    }
}

/// Lines `0 .. n` of `lines` drawn at column `x` from `y0`, `step` apart.
pub open spec fn text_lines(b: Seq<u8>, lines: Seq<Seq<char>>, x: int, y0: int, step: int, n: int) -> Seq<u8>
    decreases n,
{
    if n <= 0 {
        b
    } else {
        str_at(text_lines(b, lines, x, y0, step, n - 1), x, y0 + (n - 1) * step, lines[n - 1], 1, BLACK)
    }
}

pub open spec fn min_int(a: int, b: int) -> int {
    if a < b {
        a
    } else {
        b
    }
}

/// `Sounds  on` / `Sounds  off`, `Device`, `About`.
pub open spec fn settings_items(sounds_on: bool) -> Seq<Seq<char>> {
    seq!["Sounds  "@ + (if sounds_on { "on"@ } else { "off"@ }), "Device"@, "About"@]
}

pub open spec fn menu_items() -> Seq<Seq<char>> {
    seq!["Prices"@, "History"@, "Merchant"@, "Settings"@]
}

/// The device-info lines.
pub open spec fn device_lines(fw: Seq<char>, battery: Option<u8>, rtc: Seq<char>, txns: usize) -> Seq<Seq<char>> {
    seq![
        "FW "@ + fw,
        match battery {
            Some(p) => "Battery  "@ + dec_digits(p as nat) + "%"@,
            None => "Battery  --"@,
        },
        "Clock  "@ + rtc,
        "Txns  "@ + dec_digits(txns as nat),
    ]
}

/// The screen shown for each state.
pub open spec fn screen_of(state: AppState) -> ScreenId {
    match state {
        AppState::Idle => ScreenId::Idle,
        AppState::PricePick => ScreenId::PricePick,
        AppState::ShowQr => ScreenId::ShowQr,
        AppState::Waiting => ScreenId::Waiting,
        AppState::Success => ScreenId::Success,
        AppState::Menu => ScreenId::Menu,
        AppState::Settings => ScreenId::Settings,
        AppState::DeviceInfo => ScreenId::DeviceInfo,
        AppState::History => ScreenId::HistoryList,
        AppState::HistoryDetail => ScreenId::HistoryDetail,
        AppState::CancelConfirm => ScreenId::CancelConfirm,
        AppState::Merchant => ScreenId::Merchant,
        AppState::Error => ScreenId::Error,
        AppState::Recording => ScreenId::Recording,
        AppState::Transfer => ScreenId::Transfer,
    }
}

/// Outlined circles of a screen as `(cx, cy, r, thickness)`, drawn after it.
pub open spec fn rings_spec(id: ScreenId) -> Seq<(i32, i32, i32, i32)> {
    match id {
        ScreenId::Waiting => seq![(100i32, 88i32, 28i32, 2i32)],
        ScreenId::BatteryLow => seq![(100i32, 90i32, 26i32, 2i32)],
        ScreenId::UltraSleep => seq![(100i32, 92i32, 20i32, 1i32)],
        _ => Seq::empty(),
    }
}

/// Outlined circles the caller draws on top of screen `id`.
pub fn rings_for(id: ScreenId) -> (v: Vec<(i32, i32, i32, i32)>)
    ensures
        v@ == rings_spec(id),
{
    let mut v: Vec<(i32, i32, i32, i32)> = Vec::new();
    match id {
        ScreenId::Waiting => v.push((100, 88, 28, 2)),
        ScreenId::BatteryLow => v.push((100, 90, 26, 2)),
        ScreenId::UltraSleep => v.push((100, 92, 20, 1)),
        _ => {},
    }
    assert(v@ =~= rings_spec(id));
    v
}

/// The low-battery screen on a panel `b` (its ring drawn separately).
pub open spec fn battery_low_frame(b: Seq<u8>) -> Seq<u8> {
    str_centered(
        str_centered(soft_header_spec(b, "BATTERY"@, None), 100, 86, "!"@, 2, BLACK),
        100,
        130,
        "charge soon"@,
        1,
        BLACK,
    )
}

/// The error screen for `msg` on a panel `b`.
pub open spec fn error_frame(b: Seq<u8>, msg: Seq<char>) -> Seq<u8> {
    let b1 = str_centered(header_spec(b, "ERROR"@, None), 100, 88, msg, 1, BLACK);
    hints_spec(str_centered(b1, 100, 120, "try again"@, 1, BLACK), "OK"@, ""@)
}

fn pick_uri<'b>(upi_uri: &'b str) -> (u: &'b str)
    ensures
        u@ == shown_uri(upi_uri@),
{
    if upi_uri.is_empty() {
        DEMO_URI
    } else {
        upi_uri
    }
}

impl UiContext<'_> {
    /// Labels and lines short enough to draw, and a panel-sized buffer.
    pub open spec fn ui_ok(&self) -> bool {
        &&& self.buf@.len() >= BYTES
        &&& self.detail_page * 6 <= usize::MAX
    }

    /// Everything but the framebuffer is the same.
    pub open spec fn same_data(&self, other: &Self) -> bool {
        &&& self.battery_pct == other.battery_pct
        &&& self.firmware_version == other.firmware_version
        &&& self.merchant_name == other.merchant_name
        &&& self.upi_vpa == other.upi_vpa
        &&& self.amount_inr == other.amount_inr
        &&& self.upi_uri == other.upi_uri
        &&& self.txn_note == other.txn_note
        &&& self.txn_count == other.txn_count
        &&& self.menu_index == other.menu_index
        &&& self.settings_index == other.settings_index
        &&& self.history_index == other.history_index
        &&& self.history_lines == other.history_lines
        &&& self.history_total == other.history_total
        &&& self.price_labels == other.price_labels
        &&& self.price_index == other.price_index
        &&& self.error_msg == other.error_msg
        &&& self.device_rtc == other.device_rtc
        &&& self.sounds_on == other.sounds_on
        &&& self.sync_done == other.sync_done
        &&& self.sync_pending == other.sync_pending
        &&& self.detail_lines == other.detail_lines
        &&& self.detail_page == other.detail_page
        &&& self.transfer_ip == other.transfer_ip
    }

    pub open spec fn amount_spec(&self) -> Seq<char> {
        amount_label_spec(self.amount_inr@)
    }

    /// First history line shown: the selected one, kept within the list.
    pub open spec fn history_start(&self) -> int {
        let n = self.history_lines@.len() as int;
        min_int(self.history_index as int, if n >= 1 { n - 1 } else { 0 })
    }

    /// What the screens read from this context, as plain values.
    pub open spec fn ui_view(&self) -> UiView {
        UiView {
            battery_pct: self.battery_pct,
            firmware_version: self.firmware_version@,
            merchant_name: self.merchant_name@,
            upi_vpa: self.upi_vpa@,
            amount_inr: self.amount_inr@,
            upi_uri: self.upi_uri@,
            txn_note: self.txn_note@,
            txn_count: self.txn_count,
            menu_index: self.menu_index,
            settings_index: self.settings_index,
            history_index: self.history_index,
            history_lines: lines_view(self.history_lines@),
            history_total: self.history_total@,
            price_labels: lines_view(self.price_labels@),
            price_index: self.price_index,
            error_msg: self.error_msg@,
            device_rtc: self.device_rtc@,
            sounds_on: self.sounds_on,
            detail_lines: lines_view(self.detail_lines@),
            detail_page: self.detail_page,
            transfer_ip: self.transfer_ip@,
        }
    }

    /// The frame drawn for `state` on the cleared panel.
    pub open spec fn frame(&self, state: AppState) -> Seq<u8> {
        screen_frame(blank(self.buf@.len()), state, self.ui_view())
    }

    pub fn render(&mut self, state: AppState) -> (id: ScreenId)
        requires
            old(self).ui_ok(),
        ensures
            id == screen_of(state),
            final(self).buf@ == old(self).frame(state),
            final(self).same_data(&*old(self)),
            final(final(self).buf)@ == final(old(self).buf)@,
    {
        clear_screen(self.buf);
        match state {
            AppState::Idle => self.show_home(),
            AppState::PricePick => self.show_price_pick(),
            AppState::ShowQr => self.show_priced_qr(),
            AppState::Waiting => self.show_waiting(),
            AppState::Success => self.show_success(),
            AppState::Menu => self.show_menu(),
            AppState::Settings => self.show_settings(),
            AppState::DeviceInfo => self.show_device_info(),
            AppState::History => self.show_history(),
            AppState::HistoryDetail => self.show_history_detail(),
            AppState::CancelConfirm => self.show_cancel_confirm(),
            AppState::Merchant => self.show_merchant(),
            AppState::Error => {
                let msg = self.error_msg;
                self.show_error_screen(msg)
            },
            AppState::Recording => self.show_recording(),
            AppState::Transfer => self.show_transfer(),
        }
    }

    fn amount_label(&self) -> (s: String)
        ensures
            s@ == self.amount_spec(),
    {
        format_amount_label(self.amount_inr)
    }


    /// Home — max-coverage UPI QR (customer pays any amount).
    fn show_home(&mut self) -> (id: ScreenId)
        requires
            old(self).ui_ok(),
        ensures
            id == ScreenId::Idle,
            final(self).buf@ == qr_or_note(old(self).buf@, shown_uri(old(self).upi_uri@), None, 96),
            final(self).same_data(&*old(self)),
            final(final(self).buf)@ == final(old(self).buf)@,
    {
        proof {
            reveal_strlit("QR too long");
        }
        let uri = pick_uri(self.upi_uri);
        match draw_qr_fullscreen(self.buf, uri) {
            Ok(_) => {},
            Err(_) => {
                let cx = (WIDTH / 2) as i32;
                draw_str_centered(self.buf, cx, 96, "QR too long", 1, BLACK);
            },
        }
        ScreenId::Idle
    }

    /// Pick from predefined prices (2-column grid).
    fn show_price_pick(&mut self) -> (id: ScreenId)
        requires
            old(self).ui_ok(),
        ensures
            id == ScreenId::PricePick,
            final(self).buf@ == ({
                let h = soft_header_spec(old(self).buf@, "AMOUNT"@, None);
                let n = old(self).price_labels@.len() as int;
                if n == 0 {
                    hints_spec(str_centered(h, 100, 90, "no prices"@, 1, BLACK), "Back"@, ""@)
                } else {
                    hints_spec(
                        price_grid(h, lines_view(old(self).price_labels@), old(self).price_index as int, min_int(n, 6)),
                        "QR"@,
                        "Next"@,
                    )
                }
            }),
            final(self).same_data(&*old(self)),
            final(final(self).buf)@ == final(old(self).buf)@,
    {
        proof {
            reveal_strlit("");
            reveal_strlit("AMOUNT");
            reveal_strlit("Back");
            reveal_strlit("Next");
            reveal_strlit("QR");
            reveal_strlit("no prices");
        }
        draw_soft_header(self.buf, "AMOUNT", None);
        let cx = (WIDTH / 2) as i32;
        if self.price_labels.len() == 0 {
            draw_str_centered(self.buf, cx, 90, "no prices", 1, BLACK);
            draw_hints(self.buf, "Back", "");
            return ScreenId::PricePick;
        }
        let col_w = (WIDTH as i32 - 12 * 2) / 2;
        let row_h = 28i32;
        let y0 = CONTENT_TOP + 2;
        let n = if self.price_labels.len() < 6 { self.price_labels.len() } else { 6 };
        let ghost h = self.buf@;
        let mut i: usize = 0;
        while i < n
            invariant
                self.buf@.len() >= BYTES,
                n <= 6,
                n <= self.price_labels@.len(),
                i <= n,
                col_w == 88,
                row_h == 28,
                y0 == 38,
                self.buf@ == price_grid(h, lines_view(self.price_labels@), self.price_index as int, i as int),
                self.same_data(&*old(self)),
                final(self.buf)@ == final(old(self).buf)@,
            decreases n - i,
        {
            let col = (i % 2) as i32;
            let row = (i / 2) as i32;
            let x = 12 + col * col_w;
            let y = y0 + row * row_h;
            if i == self.price_index {
                stroke_rect(self.buf, x, y, col_w - 4, row_h - 4, 1, BLACK);
            }
            assert(lines_view(self.price_labels@)[i as int] == self.price_labels@[i as int]@);
            draw_str(self.buf, x + 6, y + 8, self.price_labels[i].as_str(), 1, BLACK);
            i += 1;
        }
        draw_hints(self.buf, "QR", "Next");
        ScreenId::PricePick
    }

    /// Amount-locked QR for a selected preset price.
    fn show_priced_qr(&mut self) -> (id: ScreenId)
        requires
            old(self).ui_ok(),
        ensures
            id == ScreenId::ShowQr,
            final(self).buf@ == hints_spec(
                qr_or_note(soft_header_spec(old(self).buf@, "PAY"@, Some(old(self).amount_spec())), shown_uri(old(self).upi_uri@), Some(28), 100),
                "Done"@,
                "Back"@,
            ),
            final(self).same_data(&*old(self)),
            final(final(self).buf)@ == final(old(self).buf)@,
    {
        proof {
            reveal_strlit("Back");
            reveal_strlit("Done");
            reveal_strlit("PAY");
            reveal_strlit("QR too long");
        }
        let label = self.amount_label();
        draw_soft_header(self.buf, "PAY", Some(label.as_str()));
        let uri = pick_uri(self.upi_uri);
        match draw_qr_centered(self.buf, uri, 28) {
            Ok(_) => {},
            Err(_) => {
                draw_str_centered(self.buf, (WIDTH / 2) as i32, 100, "QR too long", 1, BLACK);
            },
        }
        draw_hints(self.buf, "Done", "Back");
        ScreenId::ShowQr
    }

    fn show_waiting(&mut self) -> (id: ScreenId)
        requires
            old(self).ui_ok(),
        ensures
            id == ScreenId::Waiting,
            final(self).buf@ == ({
                let b1 = disc(soft_header_spec(old(self).buf@, "WAITING"@, None), 100, 88, 6, 13, BLACK);
                let b2 = str_centered(str_centered(b1, 100, 128, "checking payment"@, 1, BLACK), 100, 148, old(self).amount_spec(), 1, BLACK);
                hints_spec(b2, ""@, "Cancel"@)
            }),
            final(self).same_data(&*old(self)),
            final(final(self).buf)@ == final(old(self).buf)@,
    {
        proof {
            reveal_strlit("");
            reveal_strlit("Cancel");
            reveal_strlit("WAITING");
            reveal_strlit("checking payment");
        }
        draw_soft_header(self.buf, "WAITING", None);
        let cx = (WIDTH / 2) as i32;
        fill_circle(self.buf, cx, 88, 6, BLACK);
        draw_str_centered(self.buf, cx, 128, "checking payment", 1, BLACK);
        let label = self.amount_label();
        draw_str_centered(self.buf, cx, 148, label.as_str(), 1, BLACK);
        draw_hints(self.buf, "", "Cancel");
        ScreenId::Waiting
    }

    fn show_success(&mut self) -> (id: ScreenId)
        requires
            old(self).ui_ok(),
        ensures
            id == ScreenId::Success,
            final(self).buf@ == ({
                let b1 = str_centered(check_spec(soft_header_spec(old(self).buf@, "PAID"@, None), 100, 88), 100, 132, old(self).amount_spec(), 1, BLACK);
                let b2 = if old(self).txn_note@.len() == 0 {
                    b1
                } else {
                    str_centered(b1, 100, 150, old(self).txn_note@, 1, BLACK)
                };
                hints_spec(b2, "Done"@, ""@)
            }),
            final(self).same_data(&*old(self)),
            final(final(self).buf)@ == final(old(self).buf)@,
    {
        proof {
            reveal_strlit("");
            reveal_strlit("Done");
            reveal_strlit("PAID");
        }
        draw_soft_header(self.buf, "PAID", None);
        let cx = (WIDTH / 2) as i32;
        draw_check(self.buf, cx, 88);
        let label = self.amount_label();
        draw_str_centered(self.buf, cx, 132, label.as_str(), 1, BLACK);
        if !self.txn_note.is_empty() {
            draw_str_centered(self.buf, cx, 150, self.txn_note, 1, BLACK);
        }
        draw_hints(self.buf, "Done", "");
        ScreenId::Success
    }

    fn show_menu(&mut self) -> (id: ScreenId)
        requires
            old(self).ui_ok(),
        ensures
            id == ScreenId::Menu,
            final(self).buf@ == hints_spec(
                select_rows(soft_header_spec(old(self).buf@, "MENU"@, None), menu_items(), 40, 30, old(self).menu_index as int, 4),
                "Open"@,
                "Next"@,
            ),
            final(self).same_data(&*old(self)),
            final(final(self).buf)@ == final(old(self).buf)@,
    {
        proof {
            reveal_strlit("History");
            reveal_strlit("MENU");
            reveal_strlit("Merchant");
            reveal_strlit("Next");
            reveal_strlit("Open");
            reveal_strlit("Prices");
            reveal_strlit("Settings");
        }
        let items: [&str; 4] = ["Prices", "History", "Merchant", "Settings"];
        draw_soft_header(self.buf, "MENU", None);
        let y0 = CONTENT_TOP + 4;
        let ghost h = self.buf@;
        assert(items@.map_values(|s: &str| s@) =~= menu_items());
        let mut i: usize = 0;
        while i < 4
            invariant
                self.buf@.len() >= BYTES,
                i <= 4,
                y0 == 40,
                items@.map_values(|s: &str| s@) == menu_items(),
                forall|k: int| 0 <= k < 4 ==> (#[trigger] menu_items()[k]).len() <= 10,
                self.buf@ == select_rows(h, menu_items(), 40, 30, self.menu_index as int, i as int),
                self.same_data(&*old(self)),
                final(self.buf)@ == final(old(self).buf)@,
            decreases 4 - i,
        {
            assert(menu_items()[i as int] == items@[i as int]@);
            draw_select_row(self.buf, y0 + i as i32 * 30, items[i], i == self.menu_index);
            i += 1;
        }
        draw_hints(self.buf, "Open", "Next");
        ScreenId::Menu
    }

    fn show_settings(&mut self) -> (id: ScreenId)
        requires
            old(self).ui_ok(),
        ensures
            id == ScreenId::Settings,
            final(self).buf@ == hints_spec(
                select_rows(soft_header_spec(old(self).buf@, "SETTINGS"@, None), settings_items(old(self).sounds_on), 44, 32, old(self).settings_index as int, 3),
                "Select"@,
                "Next"@,
            ),
            final(self).same_data(&*old(self)),
            final(final(self).buf)@ == final(old(self).buf)@,
    {
        proof {
            reveal_strlit("About");
            reveal_strlit("Device");
            reveal_strlit("Next");
            reveal_strlit("SETTINGS");
            reveal_strlit("Select");
            reveal_strlit("Sounds  ");
            reveal_strlit("off");
            reveal_strlit("on");
        }
        let mut first = String::new();
        push_str(&mut first, "Sounds  ");
        push_str(&mut first, if self.sounds_on { "on" } else { "off" });
        let items: [String; 3] = [first, owned("Device"), owned("About")];
        assert(items@.map_values(|s: String| s@) =~= settings_items(self.sounds_on));
        draw_soft_header(self.buf, "SETTINGS", None);
        let y0 = CONTENT_TOP + 8;
        let ghost h = self.buf@;
        let mut i: usize = 0;
        while i < 3
            invariant
                self.buf@.len() >= BYTES,
                i <= 3,
                y0 == 44,
                items@.map_values(|s: String| s@) == settings_items(self.sounds_on),
                forall|k: int| 0 <= k < 3 ==> (#[trigger] settings_items(self.sounds_on)[k]).len() <= 12,
                self.buf@ == select_rows(h, settings_items(self.sounds_on), 44, 32, self.settings_index as int, i as int),
                self.same_data(&*old(self)),
                final(self.buf)@ == final(old(self).buf)@,
            decreases 3 - i,
        {
            assert(settings_items(self.sounds_on)[i as int] == items@[i as int]@);
            draw_select_row(self.buf, y0 + i as i32 * 32, items[i].as_str(), i == self.settings_index);
            i += 1;
        }
        draw_hints(self.buf, "Select", "Next");
        ScreenId::Settings
    }

    fn show_device_info(&mut self) -> (id: ScreenId)
        requires
            old(self).ui_ok(),
        ensures
            id == ScreenId::DeviceInfo,
            final(self).buf@ == hints_spec(
                text_lines(
                    soft_header_spec(old(self).buf@, "DEVICE"@, None),
                    device_lines(old(self).firmware_version@, old(self).battery_pct, old(self).device_rtc@, old(self).txn_count),
                    16,
                    44,
                    26,
                    4,
                ),
                "Back"@,
                ""@,
            ),
            final(self).same_data(&*old(self)),
            final(final(self).buf)@ == final(old(self).buf)@,
    {
        proof {
            reveal_strlit("");
            reveal_strlit("%");
            reveal_strlit("Back");
            reveal_strlit("Battery  ");
            reveal_strlit("Battery  --");
            reveal_strlit("Clock  ");
            reveal_strlit("DEVICE");
            reveal_strlit("FW ");
            reveal_strlit("Txns  ");
        }
        draw_soft_header(self.buf, "DEVICE", None);
        let mut l0 = String::new();
        push_str(&mut l0, "FW ");
        push_str(&mut l0, self.firmware_version);
        let mut l1 = String::new();
        match self.battery_pct {
            Some(p) => {
                push_str(&mut l1, "Battery  ");
                push_dec(&mut l1, p as u64);
                push_str(&mut l1, "%");
            },
            None => push_str(&mut l1, "Battery  --"),
        }
        let mut l2 = String::new();
        push_str(&mut l2, "Clock  ");
        push_str(&mut l2, self.device_rtc);
        let mut l3 = String::new();
        push_str(&mut l3, "Txns  ");
        push_dec(&mut l3, self.txn_count as u64);
        let lines: [String; 4] = [l0, l1, l2, l3];
        let ghost dl = device_lines(self.firmware_version@, self.battery_pct, self.device_rtc@, self.txn_count);
        assert(lines@.map_values(|s: String| s@) =~= dl);
        proof {
            crate::text::lemma_dec_digits_u64(self.txn_count as u64);
            if self.battery_pct is Some {
                crate::text::lemma_dec_digits_u64(self.battery_pct->0 as u64);
            }
        }
        let ghost h = self.buf@;
        let mut y = CONTENT_TOP + 8;
        let mut i: usize = 0;
        while i < 4
            invariant
                self.buf@.len() >= BYTES,
                i <= 4,
                y == 44 + i * 26,
                lines@.map_values(|s: String| s@) == dl,
                self.buf@ == text_lines(h, dl, 16, 44, 26, i as int),
                self.same_data(&*old(self)),
                final(self.buf)@ == final(old(self).buf)@,
            decreases 4 - i,
        {
            assert(dl[i as int] == lines@[i as int]@);
            draw_str(self.buf, 12 + 4, y, lines[i].as_str(), 1, BLACK);
            y += 26;
            i += 1;
        }
        draw_hints(self.buf, "Back", "");
        ScreenId::DeviceInfo
    }

    fn show_history(&mut self) -> (id: ScreenId)
        requires
            old(self).ui_ok(),
        ensures
            id == ScreenId::HistoryList,
            final(self).buf@ == ({
                let h = soft_header_spec(old(self).buf@, "RECENT"@, Some(old(self).history_total@));
                let lines = lines_view(old(self).history_lines@);
                let b1 = if lines.len() == 0 {
                    str_centered(h, 100, 90, "no payments yet"@, 1, BLACK)
                } else {
                    let start = old(self).history_start();
                    text_lines(h, lines.skip(start), 12, 40, 22, min_int(lines.len() - start, 5))
                };
                hints_spec(str_at(b1, 12, 162, "TOTAL  "@ + old(self).history_total@, 1, BLACK), "Back"@, "Next"@)
            }),
            final(self).same_data(&*old(self)),
            final(final(self).buf)@ == final(old(self).buf)@,
    {
        proof {
            reveal_strlit("Back");
            reveal_strlit("Next");
            reveal_strlit("RECENT");
            reveal_strlit("TOTAL  ");
            reveal_strlit("no payments yet");
        }
        draw_soft_header(self.buf, "RECENT", Some(self.history_total));
        let cx = (WIDTH / 2) as i32;
        let n = self.history_lines.len();
        if n == 0 {
            draw_str_centered(self.buf, cx, 90, "no payments yet", 1, BLACK);
        } else {
            let last = n - 1;
            let start = if self.history_index < last { self.history_index } else { last };
            let count = if n - start < 5 { n - start } else { 5 };
            let ghost lines = lines_view(self.history_lines@).skip(start as int);
            let ghost h = self.buf@;
            let mut y = CONTENT_TOP + 4;
            let mut k: usize = 0;
            while k < count
                invariant
                    self.buf@.len() >= BYTES,
                    n == self.history_lines@.len(),
                    start < n,
                    count <= 5,
                    start + count <= n,
                    k <= count,
                    y == 40 + k * 22,
                    lines == lines_view(self.history_lines@).skip(start as int),
                    self.buf@ == text_lines(h, lines, 12, 40, 22, k as int),
                    self.same_data(&*old(self)),
                    final(self.buf)@ == final(old(self).buf)@,
                decreases count - k,
            {
                assert(lines[k as int] == self.history_lines@[start + k]@);
                draw_str(self.buf, 12, y, self.history_lines[start + k].as_str(), 1, BLACK);
                y += 22;
                k += 1;
            }
        }
        let mut total_line = String::new();
        push_str(&mut total_line, "TOTAL  ");
        push_str(&mut total_line, self.history_total);
        draw_str(self.buf, 12, HINTS_Y - 18, total_line.as_str(), 1, BLACK);
        draw_hints(self.buf, "Back", "Next");
        ScreenId::HistoryList
    }

    fn show_history_detail(&mut self) -> (id: ScreenId)
        requires
            old(self).ui_ok(),
        ensures
            id == ScreenId::HistoryDetail,
            final(self).buf@ == ({
                let h = soft_header_spec(old(self).buf@, "TXN"@, Some(old(self).amount_spec()));
                let lines = if old(self).history_lines@.len() == 0 {
                    lines_view(old(self).detail_lines@)
                } else {
                    lines_view(old(self).history_lines@)
                };
                let start = old(self).detail_page * 6;
                let n = if start >= lines.len() { 0 } else { min_int(lines.len() - start, 6) };
                hints_spec(text_lines(h, lines.skip(start as int), 12, 40, 20, n), "Back"@, "Scroll"@)
            }),
            final(self).same_data(&*old(self)),
            final(final(self).buf)@ == final(old(self).buf)@,
    {
        proof {
            reveal_strlit("Back");
            reveal_strlit("Scroll");
            reveal_strlit("TXN");
        }
        let label = self.amount_label();
        draw_soft_header(self.buf, "TXN", Some(label.as_str()));
        let start = self.detail_page * 6;
        let lines: &[String] = if self.history_lines.len() == 0 { self.detail_lines } else { self.history_lines };
        let n = lines.len();
        let count = if start >= n { 0 } else if n - start < 6 { n - start } else { 6 };
        let ghost shown = lines_view(lines@).skip(start as int);
        let ghost h = self.buf@;
        let mut y = CONTENT_TOP + 4;
        let mut k: usize = 0;
        while k < count
            invariant
                self.buf@.len() >= BYTES,
                n == lines@.len(),
                count <= 6,
                count > 0 ==> start + count <= n,
                k <= count,
                y == 40 + k * 20,
                shown == lines_view(lines@).skip(start as int),
                self.buf@ == text_lines(h, shown, 12, 40, 20, k as int),
                self.same_data(&*old(self)),
                final(self.buf)@ == final(old(self).buf)@,
            decreases count - k,
        {
            assert(shown[k as int] == lines@[start + k]@);
            draw_str(self.buf, 12, y, lines[start + k].as_str(), 1, BLACK);
            y += 20;
            k += 1;
        }
        draw_hints(self.buf, "Back", "Scroll");
        ScreenId::HistoryDetail
    }

    fn show_cancel_confirm(&mut self) -> (id: ScreenId)
        requires
            old(self).ui_ok(),
        ensures
            id == ScreenId::CancelConfirm,
            final(self).buf@ == ({
                let b1 = str_centered(soft_header_spec(old(self).buf@, "CANCEL"@, None), 100, 80, "cancel this pay?"@, 1, BLACK);
                hints_spec(str_centered(b1, 100, 108, old(self).amount_spec(), 1, BLACK), "Yes"@, "Back"@)
            }),
            final(self).same_data(&*old(self)),
            final(final(self).buf)@ == final(old(self).buf)@,
    {
        proof {
            reveal_strlit("Back");
            reveal_strlit("CANCEL");
            reveal_strlit("Yes");
            reveal_strlit("cancel this pay?");
        }
        draw_soft_header(self.buf, "CANCEL", None);
        let cx = (WIDTH / 2) as i32;
        draw_str_centered(self.buf, cx, 80, "cancel this pay?", 1, BLACK);
        let label = self.amount_label();
        draw_str_centered(self.buf, cx, 108, label.as_str(), 1, BLACK);
        draw_hints(self.buf, "Yes", "Back");
        ScreenId::CancelConfirm
    }

    fn show_merchant(&mut self) -> (id: ScreenId)
        requires
            old(self).ui_ok(),
        ensures
            id == ScreenId::Merchant,
            final(self).buf@ == ({
                let b1 = str_centered(soft_header_spec(old(self).buf@, "MERCHANT"@, None), 100, 56, old(self).merchant_name@, 1, BLACK);
                let b2 = str_centered(str_centered(b1, 100, 84, old(self).upi_vpa@, 1, BLACK), 100, 120, "static VPA"@, 1, BLACK);
                hints_spec(str_centered(b2, 100, 142, "QR stays on Home"@, 1, BLACK), "Back"@, ""@)
            }),
            final(self).same_data(&*old(self)),
            final(final(self).buf)@ == final(old(self).buf)@,
    {
        proof {
            reveal_strlit("");
            reveal_strlit("Back");
            reveal_strlit("MERCHANT");
            reveal_strlit("QR stays on Home");
            reveal_strlit("static VPA");
        }
        draw_soft_header(self.buf, "MERCHANT", None);
        let cx = (WIDTH / 2) as i32;
        draw_str_centered(self.buf, cx, 56, self.merchant_name, 1, BLACK);
        draw_str_centered(self.buf, cx, 84, self.upi_vpa, 1, BLACK);
        draw_str_centered(self.buf, cx, 120, "static VPA", 1, BLACK);
        draw_str_centered(self.buf, cx, 142, "QR stays on Home", 1, BLACK);
        draw_hints(self.buf, "Back", "");
        ScreenId::Merchant
    }

    fn show_recording(&mut self) -> (id: ScreenId)
        requires
            old(self).ui_ok(),
        ensures
            id == ScreenId::Recording,
            final(self).buf@ == hints_spec(soft_header_spec(old(self).buf@, "RECORDING"@, None), "Stop"@, ""@),
            final(self).same_data(&*old(self)),
            final(final(self).buf)@ == final(old(self).buf)@,
    {
        proof {
            reveal_strlit("");
            reveal_strlit("RECORDING");
            reveal_strlit("Stop");
        }
        draw_soft_header(self.buf, "RECORDING", None);
        draw_hints(self.buf, "Stop", "");
        ScreenId::Recording
    }

    fn show_transfer(&mut self) -> (id: ScreenId)
        requires
            old(self).ui_ok(),
        ensures
            id == ScreenId::Transfer,
            final(self).buf@ == hints_spec(
                str_centered(soft_header_spec(old(self).buf@, "TRANSFER"@, None), 100, 88, old(self).transfer_ip@, 1, BLACK),
                "Back"@,
                ""@,
            ),
            final(self).same_data(&*old(self)),
            final(final(self).buf)@ == final(old(self).buf)@,
    {
        proof {
            reveal_strlit("");
            reveal_strlit("Back");
            reveal_strlit("TRANSFER");
        }
        draw_soft_header(self.buf, "TRANSFER", None);
        draw_str_centered(self.buf, (WIDTH / 2) as i32, 88, self.transfer_ip, 1, BLACK);
        draw_hints(self.buf, "Back", "");
        ScreenId::Transfer
    }

    /// Error screen with `msg`, drawn on a cleared panel.
    pub fn show_error_screen(&mut self, msg: &str) -> (id: ScreenId)
        requires
            old(self).buf@.len() >= BYTES,
        ensures
            id == ScreenId::Error,
            final(self).buf@ == error_frame(blank(old(self).buf@.len()), msg@),
            final(self).same_data(&*old(self)),
            final(final(self).buf)@ == final(old(self).buf)@,
    {
        proof {
            reveal_strlit("");
            reveal_strlit("ERROR");
            reveal_strlit("OK");
            reveal_strlit("try again");
        }
        clear_screen(self.buf);
        draw_header(self.buf, "ERROR", None);
        let cx = (WIDTH / 2) as i32;
        draw_str_centered(self.buf, cx, 88, msg, 1, BLACK);
        draw_str_centered(self.buf, cx, 120, "try again", 1, BLACK);
        draw_hints(self.buf, "OK", "");
        ScreenId::Error
    }

    /// Low-battery screen (its ring is drawn by the caller, see `rings_for`).
    pub fn show_battery_low(&mut self) -> (id: ScreenId)
        requires
            old(self).buf@.len() >= BYTES,
        ensures
            id == ScreenId::BatteryLow,
            final(self).buf@ == battery_low_frame(blank(old(self).buf@.len())),
            final(self).same_data(&*old(self)),
            final(final(self).buf)@ == final(old(self).buf)@,
    {
        proof {
            reveal_strlit("!");
            reveal_strlit("BATTERY");
            reveal_strlit("charge soon");
        }
        clear_screen(self.buf);
        draw_soft_header(self.buf, "BATTERY", None);
        let cx = (WIDTH / 2) as i32;
        draw_str_centered(self.buf, cx, 86, "!", 2, BLACK);
        draw_str_centered(self.buf, cx, 130, "charge soon", 1, BLACK);
        ScreenId::BatteryLow
    }

    /// Deep-sleep screen (its ring is drawn by the caller, see `rings_for`).
    pub fn show_ultra_sleep(&mut self) -> (id: ScreenId)
        requires
            old(self).buf@.len() >= BYTES,
        ensures
            id == ScreenId::UltraSleep,
            final(self).buf@ == str_centered(blank(old(self).buf@.len()), 100, 128, "resting"@, 1, BLACK),
            final(self).same_data(&*old(self)),
            final(final(self).buf)@ == final(old(self).buf)@,
    {
        proof {
            reveal_strlit("resting");
        }
        clear_screen(self.buf);
        let cx = (WIDTH / 2) as i32;
        let cy = 200 / 2 - 8;
        draw_str_centered(self.buf, cx, cy + 36, "resting", 1, BLACK);
        ScreenId::UltraSleep
    }

    pub fn show_wifi_connecting(&mut self, attempt: u32, max: u32) -> (id: ScreenId)
        requires
            old(self).buf@.len() >= BYTES,
        ensures
            id == ScreenId::WifiConnecting,
            final(self).buf@ == str_centered(
                str_centered(soft_header_spec(blank(old(self).buf@.len()), "WIFI"@, None), 100, 80, "connecting"@, 1, BLACK),
                100,
                110,
                dec_digits(attempt as nat) + " / "@ + dec_digits(max as nat),
                1,
                BLACK,
            ),
            final(self).same_data(&*old(self)),
            final(final(self).buf)@ == final(old(self).buf)@,
    {
        proof {
            reveal_strlit(" / ");
            reveal_strlit("WIFI");
            reveal_strlit("connecting");
        }
        clear_screen(self.buf);
        draw_soft_header(self.buf, "WIFI", None);
        let cx = (WIDTH / 2) as i32;
        draw_str_centered(self.buf, cx, 80, "connecting", 1, BLACK);
        let mut line = String::new();
        push_dec(&mut line, attempt as u64);
        push_str(&mut line, " / ");
        push_dec(&mut line, max as u64);
        proof {
            crate::text::lemma_dec_digits_u64(attempt as u64);
            crate::text::lemma_dec_digits_u64(max as u64);
        }
        draw_str_centered(self.buf, cx, 110, line.as_str(), 1, BLACK);
        ScreenId::WifiConnecting
    }

    /// Payment sync progress `done/pending`.
    pub fn show_transcribing(&mut self) -> (id: ScreenId)
        requires
            old(self).buf@.len() >= BYTES,
        ensures
            id == ScreenId::Syncing,
            final(self).buf@ == str_centered(
                str_centered(soft_header_spec(blank(old(self).buf@.len()), "SYNC"@, None), 100, 88, "confirming"@, 1, BLACK),
                100,
                118,
                dec_digits(old(self).sync_done as nat) + "/"@ + dec_digits(old(self).sync_pending as nat),
                2,
                BLACK,
            ),
            final(self).same_data(&*old(self)),
            final(final(self).buf)@ == final(old(self).buf)@,
    {
        proof {
            reveal_strlit("/");
            reveal_strlit("SYNC");
            reveal_strlit("confirming");
        }
        clear_screen(self.buf);
        draw_soft_header(self.buf, "SYNC", None);
        let cx = (WIDTH / 2) as i32;
        let mut line = String::new();
        push_dec(&mut line, self.sync_done as u64);
        push_str(&mut line, "/");
        push_dec(&mut line, self.sync_pending as u64);
        proof {
            crate::text::lemma_dec_digits_u64(self.sync_done as u64);
            crate::text::lemma_dec_digits_u64(self.sync_pending as u64);
        }
        draw_str_centered(self.buf, cx, 88, "confirming", 1, BLACK);
        draw_str_centered(self.buf, cx, 118, line.as_str(), 2, BLACK);
        ScreenId::Syncing
    }
}

} // verus!
