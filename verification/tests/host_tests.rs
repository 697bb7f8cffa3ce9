use second_screen::address::IpAddress;
use second_screen::host::{
    bind_candidates, bind_note, listen_report, mdns_host_name, mdns_instance_name, port_text,
    reachable_addresses, resolve_hostname, HostEvent, HostSession, HostnameLookup, SessionEvent,
    SessionPhase, SERVICE_TYPE,
};
use second_screen::protocol::{ClientMessage, HostMessage};

fn log_text(e: &HostEvent) -> &str {
    match e {
        HostEvent::Log(s) => s.as_str(),
        other => panic!("expected a log line, got {:?}", other),
    }
}

#[test]
fn right_password_is_accepted_then_streamed() {
    let mut s = HostSession::new("tajne".to_string(), "10.0.0.9:5000".to_string());
    let a = s.step(SessionEvent::Received(ClientMessage::Autoryzacja { haslo: "tajne".to_string() }));
    assert!(matches!(a.reply, Some(HostMessage::AutoryzacjaOk)));
    assert_eq!(a.events.len(), 1);
    assert_eq!(log_text(&a.events[0]), "Hasło poprawne!");
    assert!(!a.start_stream);
    assert_eq!(s.current_phase(), SessionPhase::Accepting);
    let b = s.step(SessionEvent::ReplySent);
    assert!(b.reply.is_none());
    assert!(b.start_stream);
    assert!(matches!(&b.events[..], [HostEvent::ClientConnected(p)] if p == "10.0.0.9:5000"));
    assert_eq!(s.current_phase(), SessionPhase::Streaming);
    let c = s.step(SessionEvent::StreamEnded);
    assert!(c.events.is_empty());
    assert_eq!(s.current_phase(), SessionPhase::Closed);
}

#[test]
fn wrong_password_is_refused() {
    let mut s = HostSession::new("tajne".to_string(), "peer".to_string());
    let a = s.step(SessionEvent::Received(ClientMessage::Autoryzacja { haslo: "Tajne".to_string() }));
    assert!(matches!(a.reply, Some(HostMessage::AutoryzacjaBlad)));
    assert_eq!(log_text(&a.events[0]), "BŁĄD: Złe hasło.");
    assert_eq!(s.current_phase(), SessionPhase::Rejecting);
    let b = s.step(SessionEvent::ReplySent);
    assert!(!b.start_stream);
    assert!(matches!(&b.events[..], [HostEvent::ClientDisconnected]));
    assert_eq!(s.current_phase(), SessionPhase::Closed);
    let c = s.step(SessionEvent::ReplySent);
    assert!(c.events.is_empty() && c.reply.is_none() && !c.start_stream);
}

#[test]
fn other_first_message_ends_session() {
    let mut s = HostSession::new("x".to_string(), "peer".to_string());
    let a = s.step(SessionEvent::Received(ClientMessage::RuchMyszki { x: 1, y: 2 }));
    assert!(a.reply.is_none());
    assert_eq!(log_text(&a.events[0]), "Nieprawidłowa wiadomość od klienta.");
    assert!(matches!(a.events[1], HostEvent::ClientDisconnected));
    assert_eq!(s.current_phase(), SessionPhase::Closed);

    let mut t = HostSession::new("x".to_string(), "peer".to_string());
    let b = t.step(SessionEvent::Malformed);
    assert_eq!(log_text(&b.events[0]), "Nieprawidłowa wiadomość od klienta.");
    assert_eq!(b.events.len(), 2);
}

#[test]
fn early_disconnect_is_reported() {
    let mut s = HostSession::new("x".to_string(), "peer".to_string());
    let a = s.step(SessionEvent::ReadFailed);
    assert_eq!(log_text(&a.events[0]), "Klient rozłączył się przed autoryzacją.");
    assert!(matches!(a.events[1], HostEvent::ClientDisconnected));
}

#[test]
fn failed_acceptance_reports_departure() {
    let mut s = HostSession::new("x".to_string(), "peer".to_string());
    s.step(SessionEvent::Received(ClientMessage::Autoryzacja { haslo: "x".to_string() }));
    let a = s.step(SessionEvent::ReplyFailed);
    assert!(!a.start_stream);
    assert!(matches!(&a.events[..], [HostEvent::ClientDisconnected]));
}

#[test]
fn hostname_fallbacks() {
    assert_eq!(resolve_hostname(HostnameLookup::Name("kuchnia".to_string())), "kuchnia");
    assert_eq!(resolve_hostname(HostnameLookup::NotUnicode), "Host");
    assert_eq!(resolve_hostname(HostnameLookup::Failed), "NieznanyHost");
}

#[test]
fn mdns_names() {
    assert_eq!(SERVICE_TYPE, "_2ndscreen._tcp.local.");
    assert_eq!(mdns_instance_name("pc"), "pc_screen");
    assert_eq!(mdns_host_name("pc"), "pc.local.");
}

#[test]
fn bind_order() {
    assert_eq!(bind_candidates(false), vec!["0.0.0.0:8080", "0.0.0.0:0", "127.0.0.1:0"]);
    assert_eq!(bind_candidates(true), vec!["127.0.0.1:0"]);
    assert_eq!(port_text("0.0.0.0:8080"), "8080");
    assert_eq!(port_text("127.0.0.1:0"), "0");
    assert_eq!(port_text("noport"), "noport");
    assert_eq!(bind_note(false, 0), None);
    assert_eq!(bind_note(false, 1).as_deref(), Some("Port 8080 zajęty, używam losowego."));
    assert_eq!(bind_note(false, 2).as_deref(), Some("Nie udało się nasłuchiwać na 0.0.0.0, używam tylko loopback."));
    assert_eq!(bind_note(true, 0), None);
}

#[test]
fn listen_report_defaults() {
    assert_eq!(listen_report(None, None), ("Nieznany adres".to_string(), 8080));
    assert_eq!(listen_report(Some("1.2.3.4:99".to_string()), Some(99)), ("1.2.3.4:99".to_string(), 99));
}

#[test]
fn reachable_addresses_skip_loopback_and_ipv6() {
    let addrs = reachable_addresses(
        &vec![
            IpAddress::V4([127, 0, 0, 1]),
            IpAddress::V4([10, 0, 0, 2]),
            IpAddress::V6([0xfe80, 0, 0, 0, 0, 0, 0, 1]),
            IpAddress::V4([192, 168, 100, 254]),
        ],
        8080,
    );
    assert_eq!(addrs, vec!["10.0.0.2:8080", "192.168.100.254:8080"]);
}
