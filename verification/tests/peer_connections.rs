use std::time::SystemTime;

use fungi_daemon::connections::{
    build_connection_snapshot, is_relay_connection, list_connections, sort_active_streams, ActiveStreamSnapshot,
};
use fungi_daemon::stream_selection::{StreamAttempts, StreamStep};
use libp2p::Multiaddr;
use fungi_daemon::model::{RuntimeKind, ServiceExposeTransport, ServiceExposeTransportKind, ServiceStatus};
use fungi_daemon::remote_services::{
    allocate_local_forward_port, enabled_remote_service, endpoint_forwarding_rule, existing_endpoint_forward,
    find_enableable_service, list_enabled_remote_services, list_service_accesses, plan_endpoint_access, remote_service_rule_ids,
    DiscoveredService, DiscoveredServiceEndpoint, EnabledRemoteServiceEndpoint, EndpointAccess, TcpForwardingRule,
};

fn connection(peer: &str, inbound: bool, id: &str) -> fungi_daemon::connections::ConnectionSnapshot {
    build_connection_snapshot(
        peer.into(),
        id.into(),
        inbound,
        &"/ip4/1.2.3.4/tcp/1".parse::<Multiaddr>().unwrap(),
        None,
        None,
        Vec::new(),
        "allowed".into(),
        None,
        None,
        false,
    )
}

#[test]
fn connection_snapshot_counts_streams_and_names_roles() {
    let at = SystemTime::now();
    let snapshot = build_connection_snapshot(
        "peer".into(),
        "7".into(),
        true,
        &"/ip4/10.0.0.1/tcp/4001/p2p-circuit".parse::<Multiaddr>().unwrap(),
        Some(42),
        Some(at),
        vec![("/a".into(), 2), ("/b".into(), 3)],
        "allowed".into(),
        Some("trusted".into()),
        Some("laptop".into()),
        false,
    );
    assert_eq!(snapshot.direction, "inbound");
    assert_eq!(snapshot.remote_addr, "/ip4/10.0.0.1/tcp/4001/p2p-circuit");
    assert!(snapshot.is_relay);
    assert_eq!(snapshot.last_rtt_ms, 42);
    assert_eq!(snapshot.last_ping_at, Some(at));
    assert_eq!(snapshot.active_streams_total, 5);
    assert_eq!(snapshot.active_streams_by_protocol[1].protocol_name, "/b");
    assert_eq!(snapshot.peer_role, "relayed-peer");
    assert_eq!(snapshot.policy_reason, "trusted");
    assert_eq!(snapshot.peer_name, "laptop");

    let no_time = build_connection_snapshot(
        "p".into(),
        "1".into(),
        false,
        &"/ip4/10.0.0.2/udp/9/quic-v1".parse::<Multiaddr>().unwrap(),
        Some(9),
        None,
        Vec::new(),
        "s".into(),
        None,
        None,
        true,
    );
    assert!(!no_time.is_relay);
    assert_eq!(no_time.remote_addr, "/ip4/10.0.0.2/udp/9/quic-v1");
    assert_eq!(no_time.last_rtt_ms, 0);
    assert_eq!(no_time.peer_role, "relay-carrier");
    assert_eq!(no_time.direction, "outbound");
}

#[test]
fn classifies_direct_connection_multiaddr() {
    let direct_addr: Multiaddr =
        "/ip4/127.0.0.1/tcp/4001/p2p/12D3KooWQjN7A4xA7bP9g4fC1Qm2nG1k5eYvG8K2Qw4p1D6sZ7Qx".parse().unwrap();

    assert!(!is_relay_connection(&direct_addr));
}

#[test]
fn classifies_relay_connection_multiaddr() {
    let relay_addr: Multiaddr = "/ip4/127.0.0.1/tcp/4001/p2p/12D3KooWQjN7A4xA7bP9g4fC1Qm2nG1k5eYvG8K2Qw4p1D6sZ7Qx/p2p-circuit/p2p/12D3KooWKv7kT3rB6uP8a6cS1Lh2dF5mN9qR4xC8vY2pJ7sH3wQz"
        .parse()
        .unwrap();

    assert!(is_relay_connection(&relay_addr));
}

#[test]
fn connections_are_listed_by_peer_direction_and_id() {
    let all = vec![connection("b", true, "1"), connection("a", false, "2"), connection("a", true, "3"), connection("a", true, "1")];
    let listed = list_connections(all.clone(), None);
    let keys: Vec<(String, String, String)> =
        listed.iter().map(|c| (c.peer_id.clone(), c.direction.clone(), c.connection_id.clone())).collect();
    assert_eq!(
        keys,
        vec![
            ("a".to_string(), "inbound".to_string(), "1".to_string()),
            ("a".to_string(), "inbound".to_string(), "3".to_string()),
            ("a".to_string(), "outbound".to_string(), "2".to_string()),
            ("b".to_string(), "inbound".to_string(), "1".to_string()),
        ]
    );
    assert_eq!(list_connections(all, Some("b")).len(), 1);
}

#[test]
fn streams_are_listed_by_id() {
    let now = SystemTime::now();
    let stream = |id: u64| ActiveStreamSnapshot {
        stream_id: id,
        peer_id: "p".into(),
        connection_id: "c".into(),
        protocol_name: "/x".into(),
        opened_at: now,
    };
    let ids: Vec<u64> = sort_active_streams(vec![stream(3), stream(1), stream(2)]).iter().map(|s| s.stream_id).collect();
    assert_eq!(ids, vec![1, 2, 3]);
}

fn discovered(id: &str, endpoints: Vec<DiscoveredServiceEndpoint>) -> DiscoveredService {
    DiscoveredService {
        service_name: format!("{id}-name"),
        service_id: id.into(),
        display_name: id.into(),
        runtime: RuntimeKind::External,
        transport: ServiceExposeTransport { kind: ServiceExposeTransportKind::Tcp },
        usage: None,
        icon_url: None,
        catalog_id: None,
        endpoints,
        status: ServiceStatus::running(),
    }
}

fn rule(peer: &str, id: Option<&str>, name: Option<&str>, port_name: Option<&str>, local_port: u16) -> TcpForwardingRule {
    TcpForwardingRule {
        local_host: "127.0.0.1".into(),
        local_port,
        remote_peer_id: peer.into(),
        remote_protocol: Some(format!("/p/{local_port}")),
        remote_port: 0,
        remote_service_id: id.map(str::to_string),
        remote_service_name: name.map(str::to_string),
        remote_service_port_name: port_name.map(str::to_string),
    }
}

#[test]
fn remote_service_to_enable_must_offer_endpoints() {
    let endpoint = DiscoveredServiceEndpoint { name: "web".into(), protocol: "/p".into(), service_port: 80 };
    let services = vec![discovered("empty", Vec::new()), discovered("web", vec![endpoint])];
    assert_eq!(find_enableable_service(&services, "web").unwrap(), 1);
    assert_eq!(
        find_enableable_service(&services, "empty").unwrap_err(),
        "remote service exposes no named TCP endpoints: empty"
    );
    assert_eq!(find_enableable_service(&services, "x").unwrap_err(), "remote service not found: x");
}

#[test]
fn local_forward_ports_prefer_the_service_port() {
    assert_eq!(allocate_local_forward_port(8080, true, &vec![50000], &vec![]).unwrap(), 8080);
    assert_eq!(allocate_local_forward_port(8080, true, &vec![50000, 50001], &vec![8080, 50000]).unwrap(), 50001);
    assert_eq!(allocate_local_forward_port(0, true, &vec![50002], &vec![]).unwrap(), 50002);
    assert_eq!(allocate_local_forward_port(8080, false, &vec![50003], &vec![]).unwrap(), 50003);
    assert!(allocate_local_forward_port(8080, false, &vec![1], &vec![1]).is_err());
}

#[test]
fn forwarding_rules_for_endpoints_are_found_and_made() {
    let endpoint = DiscoveredServiceEndpoint { name: "web".into(), protocol: "/fungi/service/web/web/0.2.0".into(), service_port: 80 };
    let service = discovered("web", vec![endpoint.clone()]);
    let made = endpoint_forwarding_rule("peer", &service, &endpoint, 18080);
    assert_eq!(made.local_host, "127.0.0.1");
    assert_eq!(made.remote_service_port_name.as_deref(), Some("web"));
    let rules = vec![("r1".to_string(), rule("peer", Some("web"), Some("web-name"), Some("api"), 1)), ("r2".to_string(), made)];
    assert_eq!(existing_endpoint_forward(&rules, "peer", "web", "web"), Some(1));
    assert_eq!(existing_endpoint_forward(&rules, "other", "web", "web"), None);
}

#[test]
fn enabled_services_are_grouped_from_forwarding_rules() {
    let rules = vec![
        ("r1".to_string(), rule("p2", Some("db"), Some("db-name"), Some("main"), 1)),
        ("r2".to_string(), rule("p1", Some("web"), Some("web-name"), Some("web"), 2)),
        ("r3".to_string(), rule("p1", Some("web"), Some("web-name"), Some("api"), 3)),
        ("r4".to_string(), rule("p1", None, Some("x"), Some("y"), 4)),
        ("r5".to_string(), rule("p1", Some("a"), Some("a-name"), Some("z"), 5)),
    ];
    let services = list_enabled_remote_services(&rules, None);
    let keys: Vec<(String, String)> = services.iter().map(|s| (s.peer_id.clone(), s.service_id.clone())).collect();
    assert_eq!(
        keys,
        vec![("p1".to_string(), "a".to_string()), ("p1".to_string(), "web".to_string()), ("p2".to_string(), "db".to_string())]
    );
    let web: Vec<&str> = services[1].endpoints.iter().map(|e| e.name.as_str()).collect();
    assert_eq!(web, vec!["api", "web"]);
    assert_eq!(services[1].endpoints[0].local_port, 3);
    assert_eq!(list_enabled_remote_services(&rules, Some("p2")).len(), 1);
    assert_eq!(remote_service_rule_ids(&rules, "p1", "web-name"), vec!["r2".to_string(), "r3".to_string()]);
    assert_eq!(remote_service_rule_ids(&rules, "p1", "a"), vec!["r5".to_string()]);
}

#[test]
fn enabled_service_endpoints_are_sorted_by_name() {
    let endpoint = |name: &str| EnabledRemoteServiceEndpoint {
        name: name.into(),
        protocol: "/p".into(),
        local_host: "127.0.0.1".into(),
        local_port: 1,
    };
    let service = enabled_remote_service("p".into(), "s".into(), "n".into(), vec![endpoint("b"), endpoint("a")]);
    assert_eq!(service.endpoints[0].name, "a");
}

#[test]
fn endpoint_access_reuses_rules_and_reserves_new_ports() {
    let endpoint = |name: &str, port: u16| DiscoveredServiceEndpoint { name: name.into(), protocol: "/p".into(), service_port: port };
    let service = discovered("web", vec![endpoint("web", 80), endpoint("api", 8080), endpoint("admin", 8080)]);
    let rules = vec![("r1".to_string(), rule("peer", Some("web"), Some("web-name"), Some("web"), 18080))];
    let plan = plan_endpoint_access("peer", &service, &rules, &vec![true, true, true], &vec![18080, 50000]).unwrap();
    assert_eq!(plan.len(), 3);
    assert!(matches!(&plan[0], EndpointAccess::Existing { local_host, local_port: 18080 } if local_host == "127.0.0.1"));
    assert!(matches!(plan[1], EndpointAccess::New { local_port: 8080 }));
    assert!(matches!(plan[2], EndpointAccess::New { local_port: 50000 }));

    let other_peer = plan_endpoint_access("other", &service, &rules, &vec![false, false, true], &vec![18080, 50000, 50001, 50002]).unwrap();
    assert!(matches!(other_peer[0], EndpointAccess::New { local_port: 50000 }));
    assert!(matches!(other_peer[1], EndpointAccess::New { local_port: 50001 }));
    assert!(matches!(other_peer[2], EndpointAccess::New { local_port: 8080 }));

    assert_eq!(
        plan_endpoint_access("other", &service, &rules, &vec![false, false, false], &vec![18080, 50000]).unwrap_err(),
        "failed to allocate a free local TCP port for remote service forwarding"
    );
}

fn relay_status(peer: Option<&str>) -> fungi_daemon::connections::RelayEndpointStatusSnapshot {
    fungi_daemon::connections::RelayEndpointStatusSnapshot {
        relay_addr: "/ip4/1.2.3.4/tcp/4001".into(),
        relay_peer_id: peer.map(str::to_string),
        transport: "tcp".into(),
        listener_registered: true,
        task_running: true,
        current_direct_connection_id: None,
        last_listener_seen_at: None,
        last_listener_missing_at: None,
        last_reservation_accepted_at: None,
        last_reservation_established_at: None,
        last_reservation_renewed_at: None,
        last_direct_connection_closed_at: None,
        last_management_action: None,
        last_error: None,
    }
}

#[test]
fn configured_relay_peers_are_recognized() {
    let statuses = vec![relay_status(None), relay_status(Some("relay-1"))];
    assert!(fungi_daemon::connections::is_configured_relay_peer(&statuses, "relay-1"));
    assert!(!fungi_daemon::connections::is_configured_relay_peer(&statuses, "peer"));
    assert!(!fungi_daemon::connections::is_configured_relay_peer(&Vec::new(), "relay-1"));
}

#[test]
fn stream_attempts_walk_the_selected_connections_in_order() {
    let mut attempts = StreamAttempts::new(2);
    assert!(matches!(attempts.next_step("p"), StreamStep::TryConnection(0)));
    attempts.record_failure("refused".into());
    assert!(matches!(attempts.next_step("p"), StreamStep::TryConnection(1)));
    attempts.record_failure("timed out".into());
    match attempts.next_step("p") {
        StreamStep::GiveUp(e) => assert_eq!(e, "Failed to open stream to peer p using selected connections: timed out"),
        other => panic!("unexpected step {other:?}"),
    }
    match StreamAttempts::new(0).next_step("q") {
        StreamStep::GiveUp(e) => {
            assert_eq!(e, "Failed to open stream to peer q using selected connections: no candidate connections returned")
        }
        other => panic!("unexpected step {other:?}"),
    }
}

#[test]
fn service_accesses_follow_the_enabled_services() {
    let rules = vec![
        ("r1".to_string(), rule("p2", Some("db"), Some("db-name"), Some("main"), 1)),
        ("r2".to_string(), rule("p1", Some("web"), Some("web-name"), Some("web"), 2)),
        ("r3".to_string(), rule("p1", Some("web"), Some("web-name"), Some("api"), 3)),
    ];
    let accesses = list_service_accesses(&rules, None);
    assert_eq!(accesses.len(), 2);
    assert_eq!(accesses[0].peer_id, "p1");
    assert_eq!(accesses[0].service_name, "web-name");
    let names: Vec<&str> = accesses[0].endpoints.iter().map(|e| e.name.as_str()).collect();
    assert_eq!(names, vec!["api", "web"]);
    assert_eq!(accesses[0].endpoints[0].local_port, 3);
    assert_eq!(accesses[0].endpoints[0].remote_port, 0);
    assert_eq!(list_service_accesses(&rules, Some("p2"))[0].service_id, "db");
}
