use second_screen::address::IpAddress;
use second_screen::client::{
    add_discovered_host, authorization_outcome, choose_host, host_choice_message, host_line,
    probe_ports, HostChoiceError, authorization_request, build_candidate_hosts,
    local_only_setting, manual_address, parse_selection, AuthOutcome, HostProbe, ProbeAction,
    ProbeEvent,
};
use second_screen::protocol::{ClientMessage, HostMessage};

#[test]
fn build_candidate_hosts_contains_local_defaults() {
    let candidates = build_candidate_hosts(None, None, &vec![]);
    assert!(candidates.iter().any(|host| host == "127.0.0.1"));
    assert!(candidates.iter().any(|host| host == "localhost"));
}

#[test]
fn candidate_hosts_are_sorted_and_unique() {
    let candidates = build_candidate_hosts(
        Some("  pc ".to_string()),
        Some("alpha, ,beta,,localhost".to_string()),
        &vec![
            IpAddress::V4([192, 168, 1, 7]),
            IpAddress::V4([127, 0, 0, 1]),
            IpAddress::V6([0, 0, 0, 0, 0, 0, 0, 1]),
        ],
    );
    let mut expected: Vec<String> = vec![
        "pc", "alpha", "beta", "localhost", "127.0.0.1", "host", "desktop",
        "192.168.1.1", "192.168.1.2", "192.168.1.3", "192.168.1.5", "192.168.1.10",
        "192.168.1.20", "192.168.1.50", "192.168.1.100", "192.168.1.101", "192.168.1.200",
        "192.168.1.254",
    ]
    .into_iter()
    .map(|s| s.to_string())
    .collect();
    expected.sort();
    expected.dedup();
    assert_eq!(candidates, expected);
}

#[test]
fn blank_host_setting_is_ignored() {
    let candidates = build_candidate_hosts(Some("   ".to_string()), Some(",,".to_string()), &vec![]);
    assert_eq!(candidates, vec!["127.0.0.1", "desktop", "host", "localhost", "pc"]);
}

#[test]
fn local_only_setting_values() {
    assert!(local_only_setting(Some("1".to_string())));
    assert!(local_only_setting(Some("TRUE".to_string())));
    assert!(local_only_setting(Some("Yes".to_string())));
    assert!(!local_only_setting(Some("0".to_string())));
    assert!(!local_only_setting(Some(" yes".to_string())));
    assert!(!local_only_setting(None));
}

#[test]
fn discovered_hosts_are_kept_once_per_address() {
    let mut hosts: Vec<(String, String)> = Vec::new();
    add_discovered_host(&mut hosts, "a".to_string(), "10.0.0.2:8080".to_string());
    add_discovered_host(&mut hosts, "b".to_string(), "10.0.0.2:8080".to_string());
    add_discovered_host(&mut hosts, "c".to_string(), "10.0.0.3:8080".to_string());
    assert_eq!(
        hosts,
        vec![
            ("a".to_string(), "10.0.0.2:8080".to_string()),
            ("c".to_string(), "10.0.0.3:8080".to_string())
        ]
    );
}

#[test]
fn selection_reads_a_number_in_range() {
    assert_eq!(parse_selection(" 2\n", 3), Some(1));
    assert_eq!(parse_selection("+3", 3), Some(2));
    assert_eq!(parse_selection("1", 3), Some(0));
    assert_eq!(parse_selection("0", 3), None);
    assert_eq!(parse_selection("4", 3), None);
    assert_eq!(parse_selection("-1", 3), None);
    assert_eq!(parse_selection("", 3), None);
    assert_eq!(parse_selection("+", 3), None);
    assert_eq!(parse_selection("1 2", 3), None);
    assert_eq!(parse_selection("99999999999999999999999999", 3), None);
}

#[test]
fn manual_address_is_trimmed() {
    assert_eq!(manual_address("  127.0.0.1:8080\n"), Some("127.0.0.1:8080".to_string()));
    assert_eq!(manual_address(" \t\n"), None);
}

#[test]
fn request_carries_trimmed_password() {
    match authorization_request(" sekret\n") {
        ClientMessage::Autoryzacja { haslo } => assert_eq!(haslo, "sekret"),
        other => panic!("unexpected {:?}", other),
    }
}

#[test]
fn host_reply_outcomes() {
    assert_eq!(authorization_outcome(&Some(HostMessage::AutoryzacjaOk)), AuthOutcome::Accepted);
    assert_eq!(authorization_outcome(&Some(HostMessage::AutoryzacjaBlad)), AuthOutcome::Refused);
    assert_eq!(
        authorization_outcome(&Some(HostMessage::KlatkaObrazu { dane: vec![1] })),
        AuthOutcome::Unexpected
    );
    assert_eq!(authorization_outcome(&None), AuthOutcome::Unreadable);
}

fn connect_address(a: ProbeAction) -> String {
    match a {
        ProbeAction::Connect { address } => address,
        other => panic!("expected a connection, got {:?}", other),
    }
}

#[test]
fn probe_tries_ports_in_order_until_a_host_answers() {
    let mut probe = HostProbe::new("10.0.0.5".to_string(), probe_ports());
    assert_eq!(connect_address(probe.step(ProbeEvent::Begin)), "10.0.0.5:8080");
    assert_eq!(connect_address(probe.step(ProbeEvent::ConnectFailed)), "10.0.0.5:8081");
    match probe.step(ProbeEvent::Connected) {
        ProbeAction::Send(ClientMessage::Autoryzacja { haslo }) => assert_eq!(haslo, ""),
        other => panic!("unexpected {:?}", other),
    }
    assert!(matches!(probe.step(ProbeEvent::Sent), ProbeAction::Read));
    assert_eq!(
        connect_address(probe.step(ProbeEvent::Replied { understood: false })),
        "10.0.0.5:8082"
    );
    assert!(matches!(probe.step(ProbeEvent::Sent), ProbeAction::Nothing));
    assert!(matches!(probe.step(ProbeEvent::Connected), ProbeAction::Send(_)));
    assert!(matches!(probe.step(ProbeEvent::Sent), ProbeAction::Read));
    match probe.step(ProbeEvent::Replied { understood: true }) {
        ProbeAction::Found { address } => assert_eq!(address, "10.0.0.5:8082"),
        other => panic!("unexpected {:?}", other),
    }
}

#[test]
fn probe_gives_up_after_the_last_port() {
    let mut probe = HostProbe::new("pc".to_string(), probe_ports());
    assert_eq!(connect_address(probe.step(ProbeEvent::Begin)), "pc:8080");
    assert_eq!(connect_address(probe.step(ProbeEvent::ConnectFailed)), "pc:8081");
    assert_eq!(connect_address(probe.step(ProbeEvent::ConnectFailed)), "pc:8082");
    assert_eq!(connect_address(probe.step(ProbeEvent::ConnectFailed)), "pc:9090");
    assert!(matches!(probe.step(ProbeEvent::ConnectFailed), ProbeAction::NotFound));
    assert!(matches!(probe.step(ProbeEvent::Begin), ProbeAction::Nothing));
}

#[test]
fn probe_stops_when_the_message_cannot_be_encoded() {
    let mut probe = HostProbe::new("pc".to_string(), probe_ports());
    probe.step(ProbeEvent::Begin);
    probe.step(ProbeEvent::Connected);
    assert!(matches!(probe.step(ProbeEvent::EncodeFailed), ProbeAction::NotFound));
}

#[test]
fn shown_number_selects_the_host() {
    assert_eq!(host_line(1, "biuro", "10.0.0.2:8080"), "[2] biuro (Adres: 10.0.0.2:8080)");
    assert_eq!(parse_selection("2", 3), Some(1));
}

#[test]
fn probe_of_no_ports_tries_nothing() {
    let mut probe = HostProbe::new("127.0.0.1".to_string(), vec![]);
    assert!(matches!(probe.step(ProbeEvent::Begin), ProbeAction::NotFound));
    assert!(matches!(probe.step(ProbeEvent::ConnectFailed), ProbeAction::Nothing));
}

#[test]
fn probe_of_other_ports() {
    let mut probe = HostProbe::new("h".to_string(), vec![7000, 7001]);
    assert_eq!(connect_address(probe.step(ProbeEvent::Begin)), "h:7000");
    assert_eq!(connect_address(probe.step(ProbeEvent::ConnectFailed)), "h:7001");
    assert!(matches!(probe.step(ProbeEvent::ConnectFailed), ProbeAction::NotFound));
    assert_eq!(probe_ports(), vec![8080, 8081, 8082, 9090]);
}

#[test]
fn host_choice() {
    let none: Vec<(String, String)> = vec![];
    assert_eq!(choose_host(&none, " 1.2.3.4:8080\n"), Ok("1.2.3.4:8080".to_string()));
    assert_eq!(choose_host(&none, "  "), Err(HostChoiceError::NoAddress));
    let found = vec![("a".to_string(), "x:1".to_string()), ("b".to_string(), "y:2".to_string())];
    assert_eq!(choose_host(&found, "2\n"), Ok("y:2".to_string()));
    assert_eq!(choose_host(&found, "3"), Err(HostChoiceError::InvalidChoice));
    assert_eq!(host_choice_message(HostChoiceError::NoAddress), "Błąd: Nie podano adresu IP.");
    assert_eq!(host_choice_message(HostChoiceError::InvalidChoice), "Nieprawidłowy wybór.");
}
