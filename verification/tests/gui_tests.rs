use second_screen::capture::CaptureSettings;
use second_screen::gui::{AppModel, ClientEvent, FrameEffect, Repaint, Screen};
use second_screen::host::HostEvent;

#[test]
fn host_events_update_the_view() {
    let mut m = AppModel::new();
    m.apply_host_event(HostEvent::Log("a".to_string()));
    m.apply_host_event(HostEvent::ListenAddr { addr: "0.0.0.0:8080".to_string(), port: 8080 });
    m.apply_host_event(HostEvent::ClientConnected("1.2.3.4:5".to_string()));
    assert_eq!(m.host_log, vec!["a"]);
    assert_eq!(m.host_listen_addr.as_deref(), Some("0.0.0.0:8080 (port 8080)"));
    assert_eq!(m.host_client.as_deref(), Some("1.2.3.4:5"));
    m.apply_host_event(HostEvent::ClientDisconnected);
    assert!(m.host_client.is_none());
}

#[test]
fn host_start_and_stop() {
    let mut m = AppModel::new();
    assert!(!m.can_start_host());
    m.host_password = "  ".to_string();
    assert!(!m.can_start_host());
    m.host_password = "pw".to_string();
    assert!(m.can_start_host());
    m.host_log.push("old".to_string());
    let (cfg, pw, local) = m.start_host();
    assert_eq!(cfg, CaptureSettings { width: 1280, height: 720, fps: 30 });
    assert_eq!(pw, "pw");
    assert!(!local);
    assert!(m.host_log.is_empty());
    assert_eq!(m.screen, Screen::HostRunning);
    assert_eq!(m.repaint(), Repaint::Continuous);
    m.apply_host_event(HostEvent::ClientConnected("c".to_string()));
    m.stop_host();
    assert_eq!(m.screen, Screen::Menu);
    assert!(m.host_client.is_none());
    assert_eq!(m.repaint(), Repaint::AfterMillis(200));
}

#[test]
fn frames_reuse_the_texture_only_at_the_same_size() {
    let mut m = AppModel::new();
    let e = m.apply_client_event(ClientEvent::Frame { rgba: vec![0; 16], width: 2, height: 2 }, false);
    assert!(matches!(e, FrameEffect::Show { reuse: false, width: 2, height: 2, .. }));
    let e = m.apply_client_event(ClientEvent::Frame { rgba: vec![0; 16], width: 2, height: 2 }, true);
    assert!(matches!(e, FrameEffect::Show { reuse: true, .. }));
    let e = m.apply_client_event(ClientEvent::Frame { rgba: vec![0; 4], width: 1, height: 1 }, true);
    assert!(matches!(e, FrameEffect::Show { reuse: false, .. }));
    assert_eq!(m.client_frame_size, (1, 1));
}

#[test]
fn client_flow() {
    let mut m = AppModel::new();
    m.show(Screen::ClientSetup);
    assert!(!m.discover_hosts());
    assert!(m.client_discovering);
    m.apply_client_event(ClientEvent::HostsFound(vec![("h".to_string(), "1.1.1.1:8080".to_string())]), false);
    assert!(!m.client_discovering);
    m.select_host("1.1.1.1:8080");
    assert!(m.is_selected("1.1.1.1:8080"));
    assert!(m.can_connect());
    m.client_manual_addr = " 1.1.1.1:8080 ".to_string();
    m.client_password = "pw".to_string();
    m.apply_client_event(ClientEvent::AuthFailed("no".to_string()), false);
    let (addr, pw) = m.connect_to_host();
    assert_eq!((addr.as_str(), pw.as_str()), ("1.1.1.1:8080", "pw"));
    assert!(m.client_error.is_none());
    m.apply_client_event(ClientEvent::Connected, false);
    assert_eq!(m.screen, Screen::ClientStreaming);
    let e = m.apply_client_event(ClientEvent::Disconnected, true);
    assert!(matches!(e, FrameEffect::Drop));
    assert_eq!(m.screen, Screen::ClientSetup);
    assert_eq!(m.client_log.last().map(|s| s.as_str()), Some("Rozłączono."));
    m.disconnect_client();
    assert!(m.client_hosts.is_empty());
}

#[test]
fn client_events_leave_other_fields_alone() {
    let mut m = AppModel::new();
    m.apply_client_event(ClientEvent::Log("l".to_string()), false);
    m.apply_client_event(ClientEvent::HostsFound(vec![("h".to_string(), "a:1".to_string())]), false);
    m.apply_client_event(ClientEvent::AuthFailed("e".to_string()), false);
    m.apply_client_event(ClientEvent::Frame { rgba: vec![0; 4], width: 1, height: 1 }, false);
    assert_eq!(m.client_log, vec!["l"]);
    assert_eq!(m.client_error.as_deref(), Some("e"));
    m.apply_client_event(ClientEvent::Connected, false);
    assert_eq!(m.client_log, vec!["l"]);
    assert_eq!(m.client_hosts.len(), 1);
    assert!(!m.client_discovering);
}
