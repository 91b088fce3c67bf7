use fungi_daemon::endpoint_listeners::ListeningRule;
use fungi_daemon::remote_services::TcpForwardingRule;
use fungi_daemon::tunnel_rules::TcpTunnelingControl;

const PEER: &str = "12D3KooWQjN7A4xA7bP9g4fC1Qm2nG1k5eYvG8K2Qw4p1D6sZ7Qx";
const OTHER_PEER: &str = "QmNLei78zWmzUdbeRB3CiUfAizWUrbeeZh5K1rhAQKCh51";

fn forward(host: &str, port: u16, peer: &str, remote_port: u16) -> TcpForwardingRule {
    TcpForwardingRule {
        local_host: host.into(),
        local_port: port,
        remote_peer_id: peer.into(),
        remote_protocol: None,
        remote_port,
        remote_service_id: None,
        remote_service_name: None,
        remote_service_port_name: None,
    }
}

fn listen(host: &str, port: u16, protocol: Option<&str>) -> ListeningRule {
    ListeningRule { host: host.into(), port, protocol: protocol.map(str::to_string) }
}

#[test]
fn tunneling_control_starts_without_rules() {
    let control = TcpTunnelingControl::new();
    assert!(control.get_forwarding_rules().is_empty());
    assert!(control.get_listening_rules().is_empty());
}

#[test]
fn added_forwarding_rule_is_listed_under_its_id() {
    let mut control = TcpTunnelingControl::new();
    let id = control.add_forwarding_rule(forward("127.0.0.1", 8080, PEER, 9090), Ok(())).unwrap();
    assert_eq!(id, format!("forward_127.0.0.1:8080_to_{PEER}"));
    let rules = control.get_forwarding_rules();
    assert_eq!(rules.len(), 1);
    assert_eq!(rules[0].0, id);
    assert_eq!(rules[0].1.local_port, 8080);
}

#[test]
fn forwarding_rules_on_other_ports_get_distinct_ids() {
    let mut control = TcpTunnelingControl::new();
    let first = control.add_forwarding_rule(forward("127.0.0.1", 8080, PEER, 80), Ok(())).unwrap();
    let second = control.add_forwarding_rule(forward("127.0.0.1", 8081, PEER, 81), Ok(())).unwrap();
    assert_ne!(first, second);
    assert_eq!(control.get_forwarding_rules().len(), 2);
}

#[test]
fn forwarding_rules_are_refused_in_order() {
    let mut control = TcpTunnelingControl::new();
    control.add_forwarding_rule(forward("127.0.0.1", 8080, PEER, 80), Ok(())).unwrap();
    assert_eq!(
        control.add_forwarding_rule(forward("127.0.0.1", 8080, PEER, 81), Err("bad".into())).unwrap_err(),
        format!("Forwarding rule already exists: forward_127.0.0.1:8080_to_{PEER}")
    );
    assert_eq!(
        control.add_forwarding_rule(forward("nowhere", 1, PEER, 81), Err("invalid socket address syntax".into())).unwrap_err(),
        "Invalid local socket address: invalid socket address syntax"
    );
    let bad_peer = control.add_forwarding_rule(forward("127.0.0.1", 2, "not-a-peer", 81), Ok(())).unwrap_err();
    assert!(bad_peer.starts_with("Invalid peer ID: "), "{bad_peer}");
    assert_eq!(control.get_forwarding_rules().len(), 1);
    control.add_forwarding_rule(forward("127.0.0.1", 3, OTHER_PEER, 81), Ok(())).unwrap();
    assert_eq!(control.get_forwarding_rules().len(), 2);
}

#[test]
fn removing_an_added_rule_restores_the_rules() {
    let mut control = TcpTunnelingControl::new();
    control.add_forwarding_rule(forward("127.0.0.1", 8080, PEER, 80), Ok(())).unwrap();
    let id = control.add_forwarding_rule(forward("127.0.0.1", 8081, PEER, 81), Ok(())).unwrap();
    control.remove_forwarding_rule(&id).unwrap();
    let left: Vec<u16> = control.get_forwarding_rules().iter().map(|(_, r)| r.local_port).collect();
    assert_eq!(left, vec![8080]);
    assert_eq!(control.remove_forwarding_rule(&id).unwrap_err(), format!("Forwarding rule not found: {id}"));
}

#[test]
fn listening_rules_are_named_for_their_protocol_or_port() {
    let mut control = TcpTunnelingControl::new();
    let by_port = control.add_listening_rule(listen("127.0.0.1", 9090, None), Ok(())).unwrap();
    assert_eq!(by_port, "listen_127.0.0.1:9090_for_port_9090");
    let by_protocol = control.add_listening_rule(listen("127.0.0.1", 9090, Some("/svc/web")), Ok(())).unwrap();
    assert_eq!(by_protocol, "listen_127.0.0.1:9090_for_/svc/web");
    assert_eq!(
        control.add_listening_rule(listen("127.0.0.1", 9090, None), Ok(())).unwrap_err(),
        "Listening rule already exists: listen_127.0.0.1:9090_for_port_9090"
    );
    let rules = control.get_listening_rules();
    assert_eq!(rules.len(), 2);
    assert_eq!(rules[0].1.port, 9090);
    control.remove_listening_rule(&by_port).unwrap();
    assert_eq!(control.remove_listening_rule(&by_port).unwrap_err(), format!("Listening rule not found: {by_port}"));
}

#[test]
fn rules_are_removed_by_what_they_forward() {
    let mut control = TcpTunnelingControl::new();
    control.add_forwarding_rule(forward("127.0.0.1", 8080, PEER, 80), Ok(())).unwrap();
    control.add_listening_rule(listen("127.0.0.1", 9090, None), Ok(())).unwrap();
    assert_eq!(
        control.remove_tcp_forwarding_rule("127.0.0.1".into(), 8080, PEER.into(), 81).unwrap_err(),
        format!("Forwarding rule not found: 127.0.0.1:8080 -> {PEER}:81")
    );
    assert!(control
        .remove_tcp_forwarding_rule_with_protocol("127.0.0.1".into(), 8080, PEER.into(), 80, Some("/p".into()))
        .is_err());
    control.remove_tcp_forwarding_rule("127.0.0.1".into(), 8080, PEER.into(), 80).unwrap();
    assert!(control.get_forwarding_rules().is_empty());
    assert_eq!(
        control.remove_tcp_listening_rule_with_protocol("127.0.0.1".into(), 9090, Some("/p".into())).unwrap_err(),
        "Listening rule not found: 127.0.0.1:9090"
    );
    control.remove_tcp_listening_rule("127.0.0.1".into(), 9090).unwrap();
    assert!(control.get_listening_rules().is_empty());
}

#[test]
fn configured_rules_are_added_when_enabled_and_stopped_together() {
    let mut control = TcpTunnelingControl::new();
    let forwarding = vec![
        (forward("127.0.0.1", 1, PEER, 1), Ok(())),
        (forward("127.0.0.1", 1, PEER, 2), Ok(())),
        (forward("bad", 2, PEER, 1), Err("invalid".to_string())),
        (forward("127.0.0.1", 3, PEER, 3), Ok(())),
    ];
    let listening = vec![(listen("127.0.0.1", 9, None), Ok(()))];
    control.init_from_config(true, &forwarding, false, &listening);
    let ports: Vec<u16> = control.get_forwarding_rules().iter().map(|(_, r)| r.local_port).collect();
    assert_eq!(ports, vec![1, 3]);
    assert!(control.get_listening_rules().is_empty());
    control.init_from_config(false, &forwarding, true, &listening);
    assert_eq!(control.get_listening_rules().len(), 1);
    assert_eq!(control.get_forwarding_rules().len(), 2);
    control.stop_all();
    assert!(control.get_forwarding_rules().is_empty());
    assert!(control.get_listening_rules().is_empty());
}
