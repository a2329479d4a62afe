use std::cell::RefCell;
use std::collections::BTreeMap;

use zoop_core::app::App;
use zoop_core::buttons::ButtonPoller;
use zoop_core::display::ui::ScreenId;
use zoop_core::error::{CoreError, CoreResult};
use zoop_core::mock::{MockAudio, MockBatteryAdc, MockButtons, MockClock, MockDisplay, MockTime};
use zoop_core::state::{AppState, ButtonEvent, Transition};
use zoop_core::storage::FileStorage;

/// In-memory file store for tests.
#[derive(Debug, Default)]
struct MockStorage {
    files: RefCell<BTreeMap<String, Vec<u8>>>,
}

impl MockStorage {
    fn new() -> CoreResult<Self> {
        Ok(Self::default())
    }
}

impl FileStorage for MockStorage {
    fn read_to_string(&self, path: &str) -> CoreResult<Option<String>> {
        match self.files.borrow().get(path) {
            Some(b) => String::from_utf8(b.clone())
                .map(Some)
                .map_err(|_| CoreError::Storage("not utf-8".into())),
            None => Ok(None),
        }
    }

    fn read_bytes(&self, path: &str) -> CoreResult<Option<Vec<u8>>> {
        Ok(self.files.borrow().get(path).cloned())
    }

    fn write_bytes(&mut self, path: &str, data: &[u8]) -> CoreResult<()> {
        self.files.borrow_mut().insert(path.to_string(), data.to_vec());
        Ok(())
    }

    fn path_exists(&self, path: &str) -> CoreResult<bool> {
        Ok(self.files.borrow().contains_key(path))
    }

    fn remove(&mut self, path: &str) -> CoreResult<()> {
        self.files.borrow_mut().remove(path);
        Ok(())
    }

    fn rename(&mut self, from: &str, to: &str) -> CoreResult<()> {
        let data = self
            .files
            .borrow_mut()
            .remove(from)
            .ok_or_else(|| CoreError::Storage("missing".into()))?;
        self.files.borrow_mut().insert(to.to_string(), data);
        Ok(())
    }
}

/// ADC samples of a battery at `volts` (the divider halves the voltage).
fn adc_at(volts_mv: u32) -> MockBatteryAdc {
    MockBatteryAdc { samples_mv: vec![volts_mv / 2; 16] }
}

/// Charge of a 4.1 V cell on the discharge curve.
const PCT_4100_MV: Option<u8> = Some(90);
/// Charge of a 4.0 V cell on the discharge curve.
const PCT_4000_MV: Option<u8> = Some(85);

fn test_app() -> (
    MockStorage,
    MockDisplay,
    MockAudio,
    ButtonPoller<MockButtons>,
    MockClock,
    MockTime,
    MockBatteryAdc,
) {
    (
        MockStorage::new().expect("s"),
        MockDisplay::new(),
        MockAudio::new(),
        ButtonPoller::new(MockButtons::default()),
        MockClock::default(),
        MockTime::default(),
        adc_at(4100),
    )
}

#[test]
fn boot_renders_idle() {
    let (mut storage, mut display, mut audio, _buttons, clock, mut time, mut adc) = test_app();
    let mut app = App::new(&storage, &mut display, &mut audio, &mut time, &mut adc);
    app.boot(&clock, PCT_4100_MV).expect("boot");
    assert_eq!(app.state.state(), AppState::Idle);
    assert_eq!(app.last_screen, ScreenId::Idle);
}

#[test]
fn rec_opens_history_from_home() {
    let (mut storage, mut display, mut audio, mut buttons, mut clock, mut time, mut adc) = test_app();
    let mut app = App::new(&storage, &mut display, &mut audio, &mut time, &mut adc);
    app.ledger.push_paid("100.00", "a");
    app.ledger.push_paid("50.00", "b");
    app.boot(&clock, PCT_4100_MV).expect("boot");

    // REC tap (press + release through debounce)
    let mut t = 0u64;
    buttons.pins_mut().rec = true;
    t += 10;
    clock.now_ms = t;
    app.tick(&mut buttons, &clock, PCT_4100_MV).expect("tick");
    t += 10;
    clock.now_ms = t;
    app.tick(&mut buttons, &clock, PCT_4100_MV).expect("tick");
    buttons.pins_mut().rec = false;
    for _ in 0..15 {
        t += 50;
        clock.now_ms = t;
        app.tick(&mut buttons, &clock, PCT_4100_MV).expect("tick");
        if app.state.state() == AppState::History {
            break;
        }
    }
    assert_eq!(app.state.state(), AppState::History);
    assert_eq!(app.ledger.total_paid_label(), "Rs 150");
}

#[test]
fn priced_collect_flow() {
    let (mut storage, mut display, mut audio, mut buttons, mut clock, mut time, mut adc) = test_app();
    let mut app = App::new(&storage, &mut display, &mut audio, &mut time, &mut adc);
    app.boot(&clock, PCT_4100_MV).expect("boot");

    // Jump to price pick
    let _ = app.state.apply(Transition::OpenPrices);
    app.price_index = 1; // 100.00
    app.start_priced_collect(0).expect("qr");
    assert_eq!(app.state.state(), AppState::ShowQr);
    assert!(app.active.as_ref().unwrap().uri.contains("am=100.00"));

    let mut t = 0u64;
    buttons.pins_mut().rec = true;
    t += 10;
    clock.now_ms = t;
    app.tick(&mut buttons, &clock, PCT_4100_MV).expect("tick");
    buttons.pins_mut().rec = false;
    for _ in 0..20 {
        t += 50;
        clock.now_ms = t;
        app.tick(&mut buttons, &clock, PCT_4100_MV).expect("tick");
        if app.state.state() == AppState::Waiting || app.state.state() == AppState::Success {
            break;
        }
    }
    assert!(matches!(
        app.state.state(),
        AppState::Waiting | AppState::Success
    ));
}

fn advance(
    clock: &mut MockClock,
    buttons: &mut ButtonPoller<MockButtons>,
    app: &mut App<'_, MockStorage, MockDisplay, MockAudio, MockTime, MockBatteryAdc>,
    ms: u64,
) {
    clock.now_ms = ms;
    app.tick(buttons, clock, PCT_4000_MV).expect("tick");
}

#[test]
fn sim_rec_opens_recent_history() {
    let mut storage = MockStorage::new().expect("storage");
    let mut display = MockDisplay::new();
    let mut audio = MockAudio::new();
    let mut buttons = ButtonPoller::new(MockButtons::default());
    let mut clock = MockClock::default();
    let mut time = MockTime {
        utc: Some("2026-07-11T10:00:00Z".to_string()),
    };
    let mut adc = adc_at(4000);

    let mut app = App::new(&storage, &mut display, &mut audio, &mut time, &mut adc);
    app.ledger.push_paid("100.00", "x");
    app.boot(&clock, PCT_4000_MV).expect("boot");

    let mut t = 0u64;

    buttons.pins_mut().rec = true;
    t += 10;
    advance(&mut clock, &mut buttons, &mut app, t);
    t += 10;
    advance(&mut clock, &mut buttons, &mut app, t);
    buttons.pins_mut().rec = false;
    for _ in 0..15 {
        t += 50;
        advance(&mut clock, &mut buttons, &mut app, t);
        if app.state.state() == AppState::History {
            break;
        }
    }
    assert_eq!(app.state.state(), AppState::History);
    assert_eq!(app.ledger.len(), 1);
}

#[test]
fn low_battery_reading_shows_overlay() {
    let (mut storage, mut display, mut audio, _buttons, clock, mut time, mut adc) = test_app();
    let mut app = App::new(&storage, &mut display, &mut audio, &mut time, &mut adc);
    app.boot(&clock, Some(10)).expect("boot");
    assert_eq!(app.last_screen, ScreenId::BatteryLow);
    assert!(app.activity.low_battery_latched);
    assert_eq!(app.activity.battery_warn_until_ms, Some(2_500));
}

#[test]
fn waiting_payment_is_recorded_after_delay() {
    let (mut storage, mut display, mut audio, mut buttons, mut clock, mut time, mut adc) = test_app();
    let mut app = App::new(&storage, &mut display, &mut audio, &mut time, &mut adc);
    app.boot(&clock, PCT_4100_MV).expect("boot");
    let _ = app.state.apply(Transition::OpenPrices);
    app.start_priced_collect(0).expect("qr");
    assert_eq!(app.active.as_ref().unwrap().amount_inr, "50.00");
    assert_eq!(app.active.as_ref().unwrap().note, "Zoop 1");
    assert_eq!(app.state.last_txn_num, 1);

    app.handle_events(ButtonEvent::Single, ButtonEvent::NoEvent, 100);
    assert_eq!(app.state.state(), AppState::Waiting);
    assert_eq!(app.waiting_since_ms, Some(100));

    clock.now_ms = 1_000;
    app.tick(&mut buttons, &clock, PCT_4100_MV).expect("tick");
    assert_eq!(app.state.state(), AppState::Waiting);
    clock.now_ms = 1_600;
    app.tick(&mut buttons, &clock, PCT_4100_MV).expect("tick");
    assert_eq!(app.state.state(), AppState::Success);
    assert_eq!(app.ledger.len(), 1);
    assert_eq!(app.detail_txn, 1);
    assert_eq!(app.ledger.total_paid_label(), "Rs 50");
    assert_eq!(app.last_screen, ScreenId::Success);

    // The success screen closes after 2.5 s without activity.
    clock.now_ms = 4_200;
    app.tick(&mut buttons, &clock, PCT_4100_MV).expect("tick");
    assert_eq!(app.state.state(), AppState::Idle);
    assert!(app.active.is_none());
}

#[test]
fn menu_entries_cycle_and_open() {
    let (mut storage, mut display, mut audio, _buttons, _clock, mut time, mut adc) = test_app();
    let mut app = App::new(&storage, &mut display, &mut audio, &mut time, &mut adc);
    app.handle_events(ButtonEvent::NoEvent, ButtonEvent::Single, 5);
    assert_eq!(app.state.state(), AppState::Menu);
    for _ in 0..3 {
        app.handle_events(ButtonEvent::NoEvent, ButtonEvent::Single, 6);
    }
    assert_eq!(app.menu_index, 3);
    app.handle_events(ButtonEvent::Single, ButtonEvent::NoEvent, 7);
    assert_eq!(app.state.state(), AppState::Settings);
    // First settings entry toggles the sounds.
    app.handle_events(ButtonEvent::Single, ButtonEvent::NoEvent, 8);
    assert!(!app.sounds.enabled);
    assert_eq!(app.activity.last_activity_ms, 8);
}

#[test]
fn error_screen_dismissed_by_tap() {
    let (mut storage, mut display, mut audio, _buttons, _clock, mut time, mut adc) = test_app();
    let mut app = App::new(&storage, &mut display, &mut audio, &mut time, &mut adc);
    app.state.state = AppState::Error;
    app.error_msg = "bank down".to_string();
    app.handle_events(ButtonEvent::NoEvent, ButtonEvent::Single, 1);
    assert_eq!(app.state.state(), AppState::Idle);
    assert_eq!(app.error_msg, "");
}

#[test]
fn readiness_checks_follow_overflow_limits() {
    let (mut storage, mut display, mut audio, _buttons, _clock, mut time, mut adc) = test_app();
    let mut app = App::new(&storage, &mut display, &mut audio, &mut time, &mut adc);
    assert!(app.redraw_ready());
    assert!(app.tick_ready());
    app.state.state = AppState::Menu;
    app.menu_index = usize::MAX;
    assert!(!app.tick_ready());
    app.menu_index = 0;
    app.ledger.push_paid("92233720368547758.07", "big");
    assert!(app.redraw_ready());
    app.ledger.push_paid("0.01", "over");
    assert!(!app.redraw_ready());
}

#[test]
fn battery_samples_reads_sixteen() {
    let (mut storage, mut display, mut audio, _buttons, _clock, mut time, mut adc) = test_app();
    let mut app = App::new(&storage, &mut display, &mut audio, &mut time, &mut adc);
    let s = app.battery_samples().expect("samples");
    assert_eq!(s.len(), 16);
    assert_eq!(s[0], 2050);
}

#[test]
fn boot_frame_is_the_home_qr() {
    let (mut storage, mut display, mut audio, _buttons, clock, mut time, mut adc) = test_app();
    {
        let mut app = App::new(&storage, &mut display, &mut audio, &mut time, &mut adc);
        app.boot(&clock, PCT_4100_MV).expect("boot");
    }
    let uri = zoop_core::upi::build_upi_uri("akash@oksbi", "Akash Soni", "", "Zoop Pay");
    let mut expect = vec![0u8; zoop_core::display::draw::BYTES];
    let empty: Vec<String> = Vec::new();
    let mut ui = zoop_core::display::ui::UiContext {
        buf: &mut expect,
        battery_pct: PCT_4100_MV,
        firmware_version: "v1.0",
        merchant_name: "Akash Soni",
        upi_vpa: "akash@oksbi",
        amount_inr: "",
        upi_uri: &uri,
        txn_note: "",
        txn_count: 0,
        menu_index: 0,
        settings_index: 0,
        history_index: 0,
        history_lines: &empty,
        history_total: "Rs 0",
        price_labels: &empty,
        price_index: 0,
        error_msg: "",
        device_rtc: "time not set",
        sounds_on: true,
        sync_done: 0,
        sync_pending: 0,
        note_count: 0,
        tag_index: 0,
        tags: &empty,
        list_filter: "All",
        list_scroll: 0,
        detail_num: -1,
        detail_tag: "",
        detail_lines: &empty,
        detail_page: 0,
        transfer_ip: "",
        transcribe_done: 0,
        transcribe_pending: 0,
    };
    assert_eq!(ui.render(AppState::Idle), ScreenId::Idle);
    assert_eq!(display.buffer, expect);
    assert_eq!(display.flush_count, 1);
}
