use zoop_core::buttons::ButtonEngine;
use zoop_core::error::CoreError;
use zoop_core::mock::{MockAudio, MockBatteryAdc, MockFileRegistry, MockPowerRails, MockTime};
use zoop_core::network::wifi::{
    advance_wifi_connect, WifiConnectPhase, SYNC_MAX_ATTEMPTS, SYNC_RETRY_MS, TRANSFER_MAX_ATTEMPTS,
};
use zoop_core::power::{power_on_sequence, power_sleep_sequence, sequence_matches};
use zoop_core::io::{Audio, BatteryAdc, PowerRails, SoundKind, TimeSource};
use zoop_core::qr::{DebounceOutcome, QrDebouncer};
use zoop_core::sleep::{wake_cause_from_pins, ActivityTimer, WakeCause};
use zoop_core::sounds::SoundsPolicy;
use zoop_core::state::{AppState, ButtonEvent, StateMachine, Transition};
use zoop_core::state_qr::{QrAppState, QrStateMachine, QrTransition};
use zoop_core::time::{TimeSyncState, NTP_SERVERS};

#[test]
fn pwr_single_requires_release_before_repeat() {
    let mut eng = ButtonEngine::new();
    assert_eq!(eng.poll_pwr_raw(true, 10), ButtonEvent::NoEvent);
    assert_eq!(eng.poll_pwr_raw(true, 20), ButtonEvent::Single);
    assert_eq!(eng.poll_pwr_raw(true, 30), ButtonEvent::NoEvent);
    assert_eq!(eng.poll_pwr_raw(false, 40), ButtonEvent::NoEvent);
    assert_eq!(eng.poll_pwr_raw(true, 50), ButtonEvent::NoEvent);
    assert_eq!(eng.poll_pwr_raw(true, 60), ButtonEvent::Single);
}

#[test]
fn rec_long_fires_after_threshold() {
    let mut eng = ButtonEngine::with_timing(350, 600, 200);
    assert_eq!(eng.poll_rec_raw(true, 0), ButtonEvent::NoEvent);
    assert_eq!(eng.poll_rec_raw(true, 10), ButtonEvent::NoEvent);
    assert_eq!(eng.poll_rec_raw(true, 700), ButtonEvent::Long);
}

#[test]
fn rec_single_after_double_window() {
    let mut eng = ButtonEngine::with_timing(350, 600, 200);
    eng.poll_rec_raw(true, 0);
    eng.poll_rec_raw(true, 10);
    eng.poll_rec_raw(false, 50);
    assert_eq!(eng.poll_rec_release(100), ButtonEvent::NoEvent);
    assert_eq!(eng.poll_rec_release(260), ButtonEvent::Single);
}

#[test]
fn rec_double_within_window() {
    let mut eng = ButtonEngine::with_timing(350, 600, 200);
    eng.poll_rec_raw(true, 0);
    eng.poll_rec_raw(true, 10);
    eng.poll_rec_raw(false, 50);
    assert_eq!(eng.poll_rec_double(true, 100), ButtonEvent::NoEvent);
    assert_eq!(eng.poll_rec_double(true, 120), ButtonEvent::Double);
}

#[test]
fn idle_rec_hold_requires_duration() {
    let mut eng = ButtonEngine::with_timing(350, 600, 200);
    assert!(!eng.poll_idle_rec_hold(true, 0));
    assert!(!eng.poll_idle_rec_hold(true, 100));
    assert!(eng.poll_idle_rec_hold(true, 400));
}

#[test]
fn pwr_held_down_fires_once() {
    let mut eng = ButtonEngine::new();
    let mut singles = 0;
    let mut t = 0u64;
    while t < 2000 {
        if eng.poll_pwr_raw(true, t) == ButtonEvent::Single {
            singles += 1;
        }
        t += 10;
    }
    assert_eq!(singles, 1);
}

#[test]
fn idle_rec_opens_history() {
    let mut sm = StateMachine::new();
    assert_eq!(sm.apply(Transition::RecSingle).expect("ok"), AppState::History);
    assert_eq!(sm.apply(Transition::MenuBack).expect("ok"), AppState::Idle);
}

#[test]
fn price_pick_to_qr_to_success() {
    let mut sm = StateMachine::new();
    sm.apply(Transition::OpenPrices).expect("prices");
    assert_eq!(sm.state(), AppState::PricePick);
    sm.apply(Transition::SelectPrice).expect("qr");
    assert_eq!(sm.state(), AppState::ShowQr);
    sm.apply(Transition::PaymentPending).expect("wait");
    assert_eq!(sm.apply(Transition::PaymentSuccess).expect("ok"), AppState::Success);
}

#[test]
fn menu_opens_prices() {
    let mut sm = StateMachine::new();
    sm.apply(Transition::PwrSingle).expect("menu");
    assert_eq!(sm.apply(Transition::OpenPrices).expect("ok"), AppState::PricePick);
}

#[test]
fn state_invalid_transition_errors() {
    let mut sm = StateMachine::new();
    assert!(sm.apply(Transition::ReleaseRec).is_err());
}

#[test]
fn refused_event_keeps_screen_and_names_it() {
    let mut sm = StateMachine::new();
    let err = sm.apply(Transition::PaymentSuccess).unwrap_err();
    assert_eq!(
        err,
        CoreError::InvalidTransition { from: AppState::Idle, event: Transition::PaymentSuccess }
    );
    assert_eq!(sm.state(), AppState::Idle);
}

#[test]
fn collect_cycle_returns_home() {
    let mut sm = StateMachine::new();
    for ev in [
        Transition::OpenPrices,
        Transition::SelectPrice,
        Transition::PaymentPending,
        Transition::PaymentSuccess,
        Transition::PaymentDone,
    ] {
        sm.apply(ev).expect("step");
    }
    assert_eq!(sm.state(), AppState::Idle);
}

#[test]
fn happy_path_idle_to_export_to_idle() {
    let mut sm = QrStateMachine::new();
    assert_eq!(sm.state(), QrAppState::Idle);
    assert_eq!(sm.apply(QrTransition::StartScan).unwrap(), QrAppState::Aiming);
    assert_eq!(sm.apply(QrTransition::DebounceAccepted).unwrap(), QrAppState::Decoded);
    assert_eq!(sm.apply(QrTransition::Accept).unwrap(), QrAppState::Export);
    assert_eq!(sm.apply(QrTransition::ExportDone).unwrap(), QrAppState::Idle);
}

#[test]
fn timeout_and_retry() {
    let mut sm = QrStateMachine::new();
    sm.apply(QrTransition::StartScan).unwrap();
    assert_eq!(sm.apply(QrTransition::ScanTimeout).unwrap(), QrAppState::Fail);
    assert_eq!(sm.apply(QrTransition::Retry).unwrap(), QrAppState::Aiming);
}

#[test]
fn dismiss_fail_to_idle() {
    let mut sm = QrStateMachine::new();
    sm.apply(QrTransition::StartScan).unwrap();
    sm.apply(QrTransition::ScanTimeout).unwrap();
    assert_eq!(sm.apply(QrTransition::DismissFail).unwrap(), QrAppState::Idle);
}

#[test]
fn state_qr_invalid_transition_errors() {
    let mut sm = QrStateMachine::new();
    let err = sm.apply(QrTransition::Accept).unwrap_err();
    assert_eq!(
        err,
        CoreError::InvalidQrTransition { from: QrAppState::Idle, event: QrTransition::Accept }
    );
}

#[test]
fn ultra_sleep_after_idle() {
    let mut t = ActivityTimer::new(120_000);
    t.reset_activity(0);
    assert!(!t.should_ultra_sleep(AppState::Idle, 60_000));
    assert!(t.should_ultra_sleep(AppState::Idle, 120_001));
}

#[test]
fn no_sleep_during_recording_or_transfer() {
    let mut t = ActivityTimer::new(120_000);
    t.reset_activity(0);
    assert!(!t.should_ultra_sleep(AppState::Recording, 200_000));
    assert!(!t.should_ultra_sleep(AppState::Transfer, 200_000));
}

#[test]
fn activity_postpones_sleep() {
    let mut t = ActivityTimer::new(120_000);
    t.reset_activity(0);
    t.reset_activity(100_000);
    assert!(!t.should_ultra_sleep(AppState::Idle, 150_000));
    assert_eq!(t.idle_ms(150_000), 50_000);
}

#[test]
fn battery_warning_latches_and_recovers() {
    let mut t = ActivityTimer::new(120_000);
    assert!(t.update_battery_warning(Some(10), 15, 20, 1000));
    assert!(t.low_battery_latched);
    assert!(t.battery_warning_active(2000));
    t.update_battery_warning(Some(25), 15, 20, 3000);
    assert!(!t.low_battery_latched);
}

#[test]
fn wake_cause_mapping() {
    assert_eq!(wake_cause_from_pins(true, false), WakeCause::RecHeld);
    assert_eq!(wake_cause_from_pins(false, true), WakeCause::PwrHeld);
}

#[test]
fn disabled_sounds_log_only() {
    let mut policy = SoundsPolicy::new(false);
    let mut audio = MockAudio::new();
    policy.play(&mut audio, SoundKind::Select);
    assert_eq!(policy.last_event(), Some(SoundKind::Select));
    assert!(audio.beep_log.is_empty());
}

#[test]
fn enabled_sounds_forward_to_audio() {
    let mut policy = SoundsPolicy::new(true);
    let mut audio = MockAudio::new();
    policy.play(&mut audio, SoundKind::Saved);
    assert_eq!(audio.beep_log, vec![SoundKind::Saved]);
}

#[test]
fn power_on_order_matches_reference() {
    let mut p = MockPowerRails::new();
    power_on_sequence(&mut p);
    assert!(sequence_matches(
        p.logged_sequence(),
        &["battery_hold_on", "epd_power_on", "audio_power_on"]
    ));
}

#[test]
fn sleep_sequence_order() {
    let mut p = MockPowerRails::new();
    power_sleep_sequence(&mut p);
    assert!(sequence_matches(
        p.logged_sequence(),
        &["audio_power_off", "epd_power_off", "battery_hold_on"]
    ));
}

#[test]
fn sequence_match_is_in_order_subsequence() {
    assert!(sequence_matches(&["a", "x", "b", "c"], &["a", "b", "c"]));
    assert!(!sequence_matches(&["b", "a"], &["a", "b"]));
    assert!(sequence_matches(&["a"], &[]));
}

#[test]
fn cycles_ntp_servers_on_failure() {
    let mut state = TimeSyncState::new();
    assert_eq!(state.current_server(), "pool.ntp.org");
    state.on_sync_failed();
    assert_eq!(state.current_server(), "time.google.com");
    state.on_sync_failed();
    assert_eq!(state.current_server(), "time.cloudflare.com");
    state.on_sync_failed();
    assert_eq!(state.current_server(), "pool.ntp.org");
}

#[test]
fn success_sets_time_ready() {
    let mut state = TimeSyncState::new();
    assert!(!state.can_stamp_notes());
    state.on_sync_success();
    assert!(state.time_ready);
    assert!(state.can_stamp_notes());
    assert_eq!(state.attempt_count(), 0);
}

#[test]
fn default_server_list_matches_reference() {
    assert_eq!(NTP_SERVERS.len(), 3);
    assert!(NTP_SERVERS.contains(&"pool.ntp.org"));
}

#[test]
fn connects_on_success() {
    let p = advance_wifi_connect(WifiConnectPhase::Idle, true, 0, SYNC_RETRY_MS, SYNC_MAX_ATTEMPTS);
    assert!(matches!(p, WifiConnectPhase::Connecting { attempt: 1, .. }));
    let p2 = advance_wifi_connect(p, true, 500, SYNC_RETRY_MS, SYNC_MAX_ATTEMPTS);
    assert_eq!(p2, WifiConnectPhase::Connected);
}

#[test]
fn fails_after_max_attempts() {
    let mut p = WifiConnectPhase::Connecting { attempt: 1, max_attempts: 3 };
    for i in 1..=3 {
        p = advance_wifi_connect(p, false, 500, 500, 3);
        if i < 3 {
            assert!(matches!(p, WifiConnectPhase::Connecting { .. }));
        }
    }
    assert_eq!(p, WifiConnectPhase::Failed);
}

#[test]
fn transfer_allows_more_attempts() {
    assert_eq!(TRANSFER_MAX_ATTEMPTS, 24);
    assert_eq!(SYNC_MAX_ATTEMPTS, 20);
}

#[test]
fn accepts_after_n() {
    let mut d = QrDebouncer::new(3);
    assert_eq!(d.push(Some("a")), DebounceOutcome::Pending { matched: 1, need: 3 });
    assert_eq!(d.push(Some("a")), DebounceOutcome::Pending { matched: 2, need: 3 });
    assert_eq!(d.push(Some("a")), DebounceOutcome::Accepted("a".into()));
}

#[test]
fn flicker_never_accepts() {
    let mut d = QrDebouncer::new(3);
    for _ in 0..10 {
        assert!(matches!(d.push(Some("a")), DebounceOutcome::Pending { .. }));
        assert!(matches!(d.push(Some("b")), DebounceOutcome::Pending { .. }));
    }
    assert!(d.last.is_some());
    assert_eq!(d.matched, 1);
}

#[test]
fn miss_clears() {
    let mut d = QrDebouncer::new(3);
    d.push(Some("a"));
    d.push(Some("a"));
    assert_eq!(d.push(None), DebounceOutcome::Cleared);
    assert_eq!(d.push(Some("a")), DebounceOutcome::Pending { matched: 1, need: 3 });
}

#[test]
fn need_one_immediate() {
    let mut d = QrDebouncer::new(1);
    assert_eq!(d.push(Some("x")), DebounceOutcome::Accepted("x".into()));
}

#[test]
fn mock_audio_chunk_is_silence_only_while_recording() {
    let mut audio = MockAudio::new();
    let mut buf = [1u8; 600];
    assert_eq!(audio.read_record_chunk(&mut buf).unwrap(), 0);
    assert!(buf.iter().all(|&b| b == 1));
    audio.start_record().unwrap();
    assert_eq!(audio.read_record_chunk(&mut buf).unwrap(), 512);
    assert!(buf[..512].iter().all(|&b| b == 0x7F));
    assert!(buf[512..].iter().all(|&b| b == 1));
    assert_eq!(audio.record_chunks, vec![vec![0x7Fu8; 512]]);
    let mut small = [0u8; 10];
    assert_eq!(audio.read_record_chunk(&mut small).unwrap(), 10);
    assert_eq!(audio.record_chunks.len(), 2);
    audio.stop_record();
    assert_eq!(audio.read_record_chunk(&mut small).unwrap(), 0);
    assert_eq!(audio.record_chunks.len(), 2);
}

#[test]
fn mock_adc_hands_out_its_first_samples() {
    let mut adc = MockBatteryAdc { samples_mv: vec![1, 2, 3] };
    assert_eq!(adc.read_mv_samples(2).unwrap(), vec![1, 2]);
    assert_eq!(adc.read_mv_samples(16).unwrap(), vec![1, 2, 3]);
    assert_eq!(adc.samples_mv, vec![1, 2, 3]);
}

#[test]
fn mock_time_reads_back_what_was_set() {
    let mut t = MockTime::default();
    assert_eq!(t.utc_iso(), None);
    t.set_utc_iso("2025-01-02T03:04:05Z").unwrap();
    assert_eq!(t.utc_iso(), Some("2025-01-02T03:04:05Z".to_string()));
}

#[test]
fn mock_registry_replaces_a_path() {
    let mut reg = MockFileRegistry::default();
    reg.insert_str("/notes/1.txt", "hello");
    reg.insert_str("/notes/1.txt", "bye");
    assert_eq!(reg.files.len(), 1);
    assert_eq!(reg.files.get("/notes/1.txt"), Some(&b"bye".to_vec()));
}

#[test]
fn debouncer_accepts_a_fresh_streak_on_its_last_frame() {
    let mut d = QrDebouncer::new(3);
    d.push(Some("a"));
    d.push(None);
    d.push(Some("b"));
    d.push(Some("b"));
    assert_eq!(d.push(Some("b")), DebounceOutcome::Accepted("b".to_string()));
    assert_eq!(d.push(Some("b")), DebounceOutcome::Pending { matched: 1, need: 3 });
}
