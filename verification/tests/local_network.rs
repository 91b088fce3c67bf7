use fungi_daemon::local_devices::{announced_properties, instance_name_of, LocalDevice, LocalDevices, MdnsEvent};

fn device(peer_id: &str, hostname: Option<&str>) -> LocalDevice {
    LocalDevice {
        peer_id: peer_id.to_string(),
        hostname: hostname.map(str::to_string),
        os: "linux".to_string(),
        version: "0.9.0".to_string(),
        private_ips: vec!["192.168.1.20".to_string()],
    }
}

#[test]
fn announcement_lists_identity_os_version_and_host_name() {
    let props = announced_properties(&device("12D3KooWA", Some("desk")));
    assert_eq!(
        props,
        vec![
            ("peer_id".to_string(), "12D3KooWA".to_string()),
            ("os".to_string(), "linux".to_string()),
            ("version".to_string(), "0.9.0".to_string()),
            ("hostname".to_string(), "desk".to_string()),
        ]
    );
    assert_eq!(announced_properties(&device("12D3KooWA", None)).len(), 3);
}

#[test]
fn instance_name_is_the_text_before_the_first_dot() {
    assert_eq!(instance_name_of("12D3KooWA._fungi._tcp.local."), "12D3KooWA");
    assert_eq!(instance_name_of("plain"), "plain");
    assert_eq!(instance_name_of(".local"), "");
}

#[test]
fn discovered_devices_are_kept_by_peer_id_without_this_node() {
    let none: Vec<String> = Vec::new();
    let mut devices = LocalDevices::new();
    devices.apply_event("12D3KooWSelf", MdnsEvent::Resolved(device("12D3KooWB", None)));
    devices.apply_event("12D3KooWSelf", MdnsEvent::Resolved(device("12D3KooWSelf", None)));
    devices.apply_event("12D3KooWSelf", MdnsEvent::Resolved(device("12D3KooWA", None)));
    devices.apply_event("12D3KooWSelf", MdnsEvent::Resolved(device("12D3KooWB", Some("laptop"))));
    devices.apply_event("12D3KooWSelf", MdnsEvent::Other);

    assert_eq!(devices.get_device_count(&none), 2);
    let all = devices.get_all_devices(&none);
    assert_eq!(all[0].peer_id, "12D3KooWA");
    assert_eq!(all[1].hostname.as_deref(), Some("laptop"));
    assert!(devices.get_device("12D3KooWSelf", &none).is_none());

    devices.apply_event("12D3KooWSelf", MdnsEvent::Removed("12D3KooWB._fungi._tcp.local.".to_string()));
    assert!(devices.get_device("12D3KooWB", &none).is_none());
    assert_eq!(devices.get_device("12D3KooWA", &none).unwrap().os, "linux");
    assert_eq!(devices.get_device_count(&none), 1);

    devices.forget("12D3KooWA");
    assert_eq!(devices.get_device_count(&none), 0);
    devices.apply_event("12D3KooWSelf", MdnsEvent::Resolved(device("12D3KooWC", None)));
    devices.clear();
    assert!(devices.get_all_devices(&none).is_empty());
}

#[test]
fn expired_devices_are_dropped_before_listing() {
    let none: Vec<String> = Vec::new();
    let mut devices = LocalDevices::new();
    for peer in ["12D3KooWA", "12D3KooWB", "12D3KooWC"] {
        devices.apply_event("12D3KooWSelf", MdnsEvent::Resolved(device(peer, None)));
    }
    let expired = vec!["12D3KooWB".to_string()];
    assert!(devices.get_device("12D3KooWB", &expired).is_none());
    assert_eq!(devices.get_device_count(&none), 2);
    let expired = vec!["12D3KooWA".to_string(), "12D3KooWZ".to_string()];
    let left: Vec<String> = devices.get_all_devices(&expired).into_iter().map(|d| d.peer_id).collect();
    assert_eq!(left, vec!["12D3KooWC".to_string()]);
    devices.cleanup_expired_devices(&vec!["12D3KooWC".to_string()]);
    assert_eq!(devices.get_device_count(&none), 0);
}
