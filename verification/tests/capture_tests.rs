use second_screen::capture::{
    apply_settings_keys, choose_monitor, finish_settings, frame_delay_ms, remaining_sleep_ns,
    settings_background, settings_title, CaptureConfig, CaptureSettings, MonitorChoice,
    SettingsKeys,
};
use std::sync::atomic::Ordering;

fn keys() -> SettingsKeys {
    SettingsKeys { up: false, down: false, right: false, left: false, plus: false, minus: false }
}

#[test]
fn default_config() {
    let c = CaptureConfig::default();
    assert_eq!((c.width, c.height, c.fps.load(Ordering::SeqCst)), (1280, 720, 30));
    assert_eq!(std::sync::Arc::strong_count(&c.fps), 1);
    let shared = c.clone();
    shared.fps.store(5, Ordering::SeqCst);
    assert_eq!(c.fps.load(Ordering::SeqCst), 5);
}

#[test]
fn keys_change_settings() {
    let c = CaptureSettings { width: 1280, height: 720, fps: 30 };
    let r = apply_settings_keys(c, SettingsKeys { up: true, right: true, plus: true, ..keys() });
    assert_eq!((r.width, r.height, r.fps), (1290, 730, 31));
    let r = apply_settings_keys(c, SettingsKeys { down: true, left: true, minus: true, ..keys() });
    assert_eq!((r.width, r.height, r.fps), (1270, 710, 29));
    let low = CaptureSettings { width: 5, height: 0, fps: 0 };
    let r = apply_settings_keys(low, SettingsKeys { down: true, left: true, minus: true, ..keys() });
    assert_eq!((r.width, r.height, r.fps), (0, 0, 0));
    let high = CaptureSettings { width: u32::MAX - 3, height: u32::MAX, fps: u32::MAX };
    let r = apply_settings_keys(high, SettingsKeys { up: true, right: true, plus: true, ..keys() });
    assert_eq!((r.width, r.height, r.fps), (u32::MAX, u32::MAX, u32::MAX));
}

#[test]
fn title_and_finish() {
    let c = CaptureSettings { width: 800, height: 600, fps: 25 };
    assert_eq!(settings_title(c), "2ndScreen - 800x600 @ 25fps (Enter=OK Esc=Anuluj)");
    let d = finish_settings(true, c);
    assert_eq!((d.width, d.height, d.fps.load(Ordering::SeqCst)), (1280, 720, 30));
    let k = finish_settings(false, c);
    assert_eq!((k.width, k.height, k.fps.load(Ordering::SeqCst)), (800, 600, 25));
    let f = CaptureConfig::from_settings(c);
    assert_eq!((f.width, f.height, f.fps.load(Ordering::SeqCst)), (800, 600, 25));
}

#[test]
fn background_gradient() {
    let buf = settings_background(30);
    assert_eq!(buf.len(), 480 * 200);
    assert_eq!(buf[0], 0xFF00_0000);
    assert_eq!(buf[1], 0xFF00_0000 | 30);
    assert_eq!(buf[2 * 480 + 3], 0xFF00_0000 | 150);
    assert_eq!(settings_background(255)[7], 0xFF00_0000);
}

#[test]
fn pacing() {
    assert_eq!(frame_delay_ms(30), 33);
    assert_eq!(frame_delay_ms(0), 1000);
    assert_eq!(frame_delay_ms(2000), 0);
    assert_eq!(remaining_sleep_ns(33, 3_000_000), 30_000_000);
    assert_eq!(remaining_sleep_ns(33, 40_000_000), 0);
}

#[test]
fn monitor_choice() {
    assert_eq!(choose_monitor(&vec![]), None);
    assert_eq!(choose_monitor(&vec![false, true, true]), Some(MonitorChoice { index: 1, primary: true }));
    assert_eq!(choose_monitor(&vec![false, false]), Some(MonitorChoice { index: 0, primary: false }));
}

