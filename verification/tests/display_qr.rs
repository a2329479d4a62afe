use zoop_core::display::draw::{self as epd, draw_header, draw_str, fill_rect, get_pixel, BLACK, BYTES, WHITE};
use zoop_core::display::oled::draw as oled;
use zoop_core::display::oled::ui::{truncate_ellipsis, OledScreenId, OledUiContext};
use zoop_core::display::qr::{draw_qr_centered, qr_fits_panel};
use zoop_core::display::ui::{rings_for, ScreenId, UiContext};
use zoop_core::qr::{decode_grayscale, DecodeError};
use zoop_core::state::AppState;
use zoop_core::state_qr::QrAppState;
use zoop_core::upi::build_upi_uri;

#[test]
fn draw_framebuffer_dimensions() {
    let mut buf = vec![0xFF; BYTES];
    fill_rect(&mut buf, 0, 0, 200, 200, BLACK);
    assert_eq!(get_pixel(&buf, 0, 0), BLACK);
    assert_eq!(get_pixel(&buf, 199, 199), BLACK);

    assert_eq!(oled::WIDTH, 128);
    assert_eq!(oled::HEIGHT, 64);
    assert_eq!(oled::BYTES, 1024);
    let mut small = vec![0xFF; oled::BYTES];
    oled::clear(&mut small);
    oled::fill_rect(&mut small, 0, 0, 128, 64, oled::BLACK);
    assert_eq!(oled::get_pixel(&small, 0, 0), oled::BLACK);
    assert_eq!(oled::get_pixel(&small, 127, 63), oled::BLACK);
}

#[test]
fn draw_draw_str_changes_buffer() {
    let a = vec![0xFF; BYTES];
    let mut b = a.clone();
    draw_str(&mut b, 10, 10, "HI", 1, BLACK);
    assert_ne!(a, b);

    let c = vec![0xFF; oled::BYTES];
    let mut d = c.clone();
    oled::draw_str(&mut d, 10, 10, "HI", 1, oled::BLACK);
    assert_ne!(c, d);
}

#[test]
fn header_bar_is_black_top_strip() {
    let mut buf = vec![0xFF; BYTES];
    draw_header(&mut buf, "MENU", None);
    assert_eq!(get_pixel(&buf, 10, 10), BLACK);
}

#[test]
fn set_pixel_touches_one_bit() {
    let mut buf = vec![0xFF; BYTES];
    epd::set_pixel(&mut buf, 9, 1, BLACK);
    assert_eq!(buf[25 + 1], 0b1011_1111);
    assert_eq!(get_pixel(&buf, 9, 1), BLACK);
    assert_eq!(get_pixel(&buf, 8, 1), WHITE);
    epd::set_pixel(&mut buf, 9, 1, WHITE);
    assert_eq!(buf[26], 0xFF);
    epd::set_pixel(&mut buf, 200, 0, BLACK);
    epd::set_pixel(&mut buf, -1, 0, BLACK);
    assert!(buf.iter().all(|&b| b == 0xFF));
    assert_eq!(get_pixel(&buf, -5, 3), WHITE);
}

#[test]
fn text_width_counts_cells() {
    assert_eq!(epd::text_width("", 2), 0);
    assert_eq!(epd::text_width("AB", 1), 11);
    assert_eq!(epd::text_width("ABC", 2), 34);
}

#[test]
fn lower_case_draws_like_upper_case() {
    let mut a = vec![0xFF; BYTES];
    let mut b = vec![0xFF; BYTES];
    draw_str(&mut a, 20, 20, "zoop", 2, BLACK);
    draw_str(&mut b, 20, 20, "ZOOP", 2, BLACK);
    assert_eq!(a, b);
}

#[test]
fn fill_circle_paints_disc_only() {
    let mut buf = vec![0xFF; BYTES];
    epd::fill_circle(&mut buf, 100, 100, 5, BLACK);
    assert_eq!(get_pixel(&buf, 100, 100), BLACK);
    assert_eq!(get_pixel(&buf, 105, 100), BLACK);
    assert_eq!(get_pixel(&buf, 104, 104), WHITE);
    assert_eq!(get_pixel(&buf, 106, 100), WHITE);
}

#[test]
fn truncate_works() {
    assert_eq!(truncate_ellipsis("hi", 5), "hi");
    assert_eq!(truncate_ellipsis("abcdefghij", 5), "abcd…");
    assert_eq!(truncate_ellipsis("exactly18chars!!!!", 18).chars().count(), 18);
}

fn count_dark(buf: &[u8]) -> usize {
    buf.iter().map(|b| b.count_zeros() as usize).sum()
}

#[test]
fn each_state_paints_dark_pixels() {
    let states = [QrAppState::Idle, QrAppState::Aiming, QrAppState::Decoded, QrAppState::Fail, QrAppState::Export];
    for state in states {
        let mut buf = vec![0xFF; oled::BYTES];
        let mut ui = OledUiContext {
            buf: &mut buf,
            battery_pct: Some(75),
            payload: "upi://pay?pa=merchant@oksbi&am=200.00",
            fail_reason: "Timeout",
        };
        let id = ui.render(state);
        assert!(count_dark(ui.buf) > 0, "{state:?} should paint dark pixels");
        let expected = match state {
            QrAppState::Idle => OledScreenId::Idle,
            QrAppState::Aiming => OledScreenId::Aiming,
            QrAppState::Decoded => OledScreenId::Decoded,
            QrAppState::Fail => OledScreenId::Fail,
            QrAppState::Export => OledScreenId::Export,
        };
        assert_eq!(id, expected);
    }
}

#[test]
fn oled_battery_bar_fill_grows_with_charge() {
    let mut low = vec![0xFF; oled::BYTES];
    let mut full = vec![0xFF; oled::BYTES];
    oled::draw_battery_bar(&mut low, 1);
    oled::draw_battery_bar(&mut full, 250);
    assert!(count_dark(&full) > count_dark(&low));
    assert_eq!(oled::get_pixel(&low, 109, 3), oled::BLACK);
    assert_eq!(oled::get_pixel(&low, 110, 3), oled::WHITE);
}

fn ctx<'a>(buf: &'a mut [u8], uri: &'a str, history: &'a [String], prices: &'a [String], tags: &'a [String]) -> UiContext<'a> {
    UiContext {
        buf,
        battery_pct: Some(80),
        firmware_version: "v1.0",
        merchant_name: "Akash Soni",
        upi_vpa: "akash@oksbi",
        amount_inr: "100.00",
        upi_uri: uri,
        txn_note: "order 12",
        txn_count: 3,
        menu_index: 0,
        settings_index: 0,
        history_index: 0,
        history_lines: history,
        history_total: "Rs 430",
        price_labels: prices,
        price_index: 1,
        error_msg: "PAY FAIL",
        device_rtc: "set",
        sounds_on: true,
        sync_done: 1,
        sync_pending: 2,
        note_count: 3,
        tag_index: 0,
        tags,
        list_filter: "All",
        list_scroll: 0,
        detail_num: 1,
        detail_tag: "",
        detail_lines: &[],
        detail_page: 0,
        transfer_ip: "",
        transcribe_done: 0,
        transcribe_pending: 0,
    }
}

#[test]
fn home_renders_fullscreen_qr() {
    let mut buf = vec![0xFF; BYTES];
    let uri = build_upi_uri("akash@oksbi", "Akash Soni", "100.00", "Zoop");
    let history = vec![];
    let prices = vec![];
    let tags = vec![];
    let mut ui = ctx(&mut buf, &uri, &history, &prices, &tags);
    assert_eq!(ui.render(AppState::Idle), ScreenId::Idle);
    let mut dark = 0;
    for y in 20..180 {
        for x in 20..180 {
            if get_pixel(&buf, x, y) == BLACK {
                dark += 1;
            }
        }
    }
    assert!(dark > 200, "home should paint a large QR, dark={dark}");
}

#[test]
fn price_pick_and_priced_qr() {
    let mut buf = vec![0xFF; BYTES];
    let uri = build_upi_uri("akash@oksbi", "Akash Soni", "200.00", "Zoop");
    let history = vec![];
    let prices = vec!["Rs 50".into(), "Rs 100".into(), "Rs 200".into(), "Rs 500".into()];
    let tags = vec![];
    let mut ui = ctx(&mut buf, &uri, &history, &prices, &tags);
    assert_eq!(ui.render(AppState::PricePick), ScreenId::PricePick);
    assert_eq!(ui.render(AppState::ShowQr), ScreenId::ShowQr);
}

#[test]
fn qr_screen_paints_modules() {
    let mut buf = vec![0xFF; BYTES];
    let uri = build_upi_uri("akash@oksbi", "Akash Soni", "100.00", "Zoop");
    let history = vec![];
    let prices = vec![];
    let tags = vec![];
    let mut ui = ctx(&mut buf, &uri, &history, &prices, &tags);
    assert_eq!(ui.render(AppState::ShowQr), ScreenId::ShowQr);
    let mut dark = 0;
    for y in 30..170 {
        for x in 30..170 {
            if get_pixel(&buf, x, y) == BLACK {
                dark += 1;
            }
        }
    }
    assert!(dark > 200);
}

#[test]
fn menu_outline_selects_row() {
    let mut buf = vec![0xFF; BYTES];
    let uri = "";
    let history = vec![];
    let prices = vec![];
    let tags = vec![];
    let mut ui = ctx(&mut buf, uri, &history, &prices, &tags);
    ui.menu_index = 1;
    assert_eq!(ui.render(AppState::Menu), ScreenId::Menu);
    assert_eq!(get_pixel(&buf, 12, 75), BLACK);
}

#[test]
fn every_state_has_a_screen() {
    let history = vec!["#001  Rs 50".to_string()];
    let prices = vec![];
    let tags = vec![];
    for (state, id) in [
        (AppState::Waiting, ScreenId::Waiting),
        (AppState::Success, ScreenId::Success),
        (AppState::Settings, ScreenId::Settings),
        (AppState::DeviceInfo, ScreenId::DeviceInfo),
        (AppState::History, ScreenId::HistoryList),
        (AppState::HistoryDetail, ScreenId::HistoryDetail),
        (AppState::CancelConfirm, ScreenId::CancelConfirm),
        (AppState::Merchant, ScreenId::Merchant),
        (AppState::Error, ScreenId::Error),
    ] {
        let mut buf = vec![0x00; BYTES];
        let mut ui = ctx(&mut buf, "", &history, &prices, &tags);
        assert_eq!(ui.render(state), id);
        assert!(count_dark(&buf) > 0);
        assert_eq!(get_pixel(&buf, 0, 199), WHITE);
    }
    assert_eq!(rings_for(ScreenId::Waiting), vec![(100, 88, 28, 2)]);
    assert!(rings_for(ScreenId::Menu).is_empty());
}

#[test]
fn draws_upi_qr_with_dark_modules() {
    let mut buf = vec![0xFF; BYTES];
    let uri = build_upi_uri("akash@oksbi", "Akash Soni", "100.00", "Zoop");
    assert!(qr_fits_panel(&uri));
    let modules = draw_qr_centered(&mut buf, &uri, 36).expect("qr");
    assert!(modules >= 21);
    let mut dark = 0;
    for y in 40..160 {
        for x in 40..160 {
            if get_pixel(&buf, x, y) == BLACK {
                dark += 1;
            }
        }
    }
    assert!(dark > 100, "expected QR ink, got {dark} dark px");
    assert_eq!(get_pixel(&buf, 0, 0), WHITE);
}

#[test]
fn oversized_payload_is_refused() {
    let mut buf = vec![0xFF; BYTES];
    let payload = "x".repeat(5000);
    assert!(!qr_fits_panel(&payload));
    assert!(draw_qr_centered(&mut buf, &payload, 36).is_err());
    assert!(buf.iter().all(|&b| b == 0xFF));
}

fn render_qr_grayscale(payload: &str, module_px: usize, quiet: usize) -> (usize, Vec<u8>) {
    let code = qrcode::QrCode::new(payload.as_bytes()).expect("encode QR");
    let modules = code.width();
    let total = modules + quiet * 2;
    let size = total * module_px;
    let mut pixels = vec![255u8; size * size];
    for y in 0..modules {
        for x in 0..modules {
            if code[(x, y)] == qrcode::Color::Dark {
                let ox = (x + quiet) * module_px;
                let oy = (y + quiet) * module_px;
                for dy in 0..module_px {
                    for dx in 0..module_px {
                        pixels[(oy + dy) * size + (ox + dx)] = 0;
                    }
                }
            }
        }
    }
    (size, pixels)
}

#[test]
fn decodes_plain_text() {
    let payload = "hello zoop";
    let (size, pixels) = render_qr_grayscale(payload, 4, 4);
    let got = decode_grayscale(size, size, &pixels).expect("decode");
    assert_eq!(got.payload, payload);
    assert!(got.version.is_some());
}

#[test]
fn decodes_url() {
    let payload = "https://example.com/pay?id=42";
    let (size, pixels) = render_qr_grayscale(payload, 4, 4);
    let got = decode_grayscale(size, size, &pixels).expect("decode");
    assert_eq!(got.payload, payload);
}

#[test]
fn decodes_upi_uri_raw_string() {
    let payload = "upi://pay?pa=merchant@oksbi&am=200.00&cu=INR";
    let (size, pixels) = render_qr_grayscale(payload, 4, 4);
    let got = decode_grayscale(size, size, &pixels).expect("decode");
    assert_eq!(got.payload, payload);
    assert!(got.payload.starts_with("upi://"));
}

#[test]
fn decodes_long_string() {
    let payload: String = (0..200).map(|i| char::from(b'a' + (i % 26) as u8)).collect();
    let (size, pixels) = render_qr_grayscale(&payload, 3, 4);
    let got = decode_grayscale(size, size, &pixels).expect("decode");
    assert_eq!(got.payload, payload);
}

#[test]
fn empty_frame_not_found() {
    let pixels = vec![255u8; 64 * 64];
    let err = decode_grayscale(64, 64, &pixels).unwrap_err();
    assert_eq!(err, DecodeError::NotFound);
}

#[test]
fn bad_dimensions() {
    assert_eq!(
        decode_grayscale(0, 10, &[]).unwrap_err(),
        DecodeError::InvalidFrame("width and height must be non-zero")
    );
    assert_eq!(
        decode_grayscale(10, 0, &[]).unwrap_err(),
        DecodeError::InvalidFrame("width and height must be non-zero")
    );
    let pixels = vec![0u8; 10];
    assert_eq!(
        decode_grayscale(4, 4, &pixels).unwrap_err(),
        DecodeError::InvalidFrame("pixels length does not match width*height")
    );
}

#[test]
fn line_follows_bresenham_steps() {
    let mut buf = vec![0xFFu8; BYTES];
    epd::line(&mut buf, 0, 0, 4, 2, BLACK);
    let on = [(0, 0), (1, 1), (2, 1), (3, 2), (4, 2)];
    for y in 0..4 {
        for x in 0..6 {
            let expect = if on.contains(&(x, y)) { BLACK } else { WHITE };
            assert_eq!(get_pixel(&buf, x, y), expect, "pixel ({x}, {y})");
        }
    }
}

#[test]
fn line_runs_backwards_and_clips() {
    let mut buf = vec![0xFFu8; BYTES];
    epd::line(&mut buf, 5, 3, -2, 3, BLACK);
    for x in 0..=5 {
        assert_eq!(get_pixel(&buf, x, 3), BLACK);
    }
    assert_eq!(get_pixel(&buf, 6, 3), WHITE);
    epd::line(&mut buf, 7, 7, 7, 7, BLACK);
    assert_eq!(get_pixel(&buf, 7, 7), BLACK);
}

#[test]
fn library_qr_frame_matches_reference_render() {
    for (payload, px, quiet) in [("hello zoop", 4usize, 4usize), ("upi://pay?pa=a@b&am=1.00", 2, 1), ("Z", 1, 0)] {
        let reference = render_qr_grayscale(payload, px, quiet);
        let ours = zoop_core::qr::render::render_qr_grayscale(payload, px, quiet);
        assert_eq!(ours, reference, "payload {payload}");
        let tried = zoop_core::qr::render::try_render_qr_grayscale(payload, px, quiet).expect("fits");
        assert_eq!(tried, reference);
    }
    // 21 modules + 2×2 quiet modules, 3 px each.
    let (side, pixels) = zoop_core::qr::render::render_qr_grayscale("A", 3, 2);
    assert_eq!(side, 75);
    assert_eq!(pixels.len(), 75 * 75);
    assert_eq!(pixels[0], 255);
    assert_eq!(pixels[6 * 75 + 6], 0);
}

#[test]
fn library_qr_frame_refuses_oversized_payload() {
    let payload = "x".repeat(5000);
    assert!(zoop_core::qr::render::try_render_qr_grayscale(&payload, 1, 0).is_none());
}
