use std::time::SystemTime;

use fungi_daemon::device_services::{
    device_service_snapshot_lookup, find_service, list_published_device_services, merge_device_service_snapshot,
    DeviceServiceSnapshotSource,
    SnapshotEpochs,
};
use fungi_daemon::model::{
    DeviceService, DeviceServiceEndpoint, DeviceServiceMetadata, DeviceServiceSnapshot, RuntimeKind, ServiceExpose,
    ServiceExposeTransport, ServiceExposeTransportKind, ServiceExposeUsage, ServiceExposeUsageKind, ServiceInstance,
    ServiceManifest, ServicePhase, ServicePort, ServicePortAllocation, ServicePortProtocol, ServiceRunMode,
    ServiceSource, ServiceStatus,
};

fn service_instance(name: &str, status: ServiceStatus) -> ServiceInstance {
    ServiceInstance {
        id: format!("external:{name}"),
        runtime: RuntimeKind::External,
        name: name.to_string(),
        definition_id: None,
        source: "127.0.0.1".to_string(),
        labels: Vec::new(),
        ports: vec![ServicePort {
            name: Some("web".into()),
            host_port: 18080,
            host_port_allocation: ServicePortAllocation::Fixed,
            service_port: 8080,
            protocol: ServicePortProtocol::Tcp,
        }],
        exposed_endpoints: Vec::new(),
        status,
    }
}

fn published_service(name: &str, status: ServiceStatus) -> DeviceService {
    DeviceService {
        name: name.to_string(),
        runtime: RuntimeKind::External,
        metadata: DeviceServiceMetadata {
            usage: Some(ServiceExposeUsage { kind: ServiceExposeUsageKind::Web, path: Some("/".to_string()) }),
            icon_url: Some("https://example.test/icon.svg".to_string()),
        },
        endpoints: vec![DeviceServiceEndpoint { name: "web".to_string(), protocol: format!("/fungi/service/{name}/web/0.2.0") }],
        status,
    }
}

#[test]
fn merges_managed_status_with_published_connectable_endpoint() {
    let peer_id = "12D3KooWQjN7A4xA7bP9g4fC1Qm2nG1k5eYvG8K2Qw4p1D6sZ7Qx".to_string();
    let snapshot = merge_device_service_snapshot(
        peer_id.clone(),
        vec![service_instance("web", ServiceStatus::running())],
        vec![published_service("web", ServiceStatus::running())],
        SystemTime::now(),
    );

    assert_eq!(snapshot.peer_id, peer_id);
    assert_eq!(snapshot.services.len(), 1);
    let service = &snapshot.services[0];
    assert_eq!(service.name, "web");
    assert_eq!(service.status.phase, ServicePhase::Running);
    assert_eq!(service.endpoints.len(), 1);
    assert_eq!(service.metadata.usage.as_ref().unwrap().kind, ServiceExposeUsageKind::Web);
    assert_eq!(service.endpoints[0].protocol, "/fungi/service/web/web/0.2.0");
}

#[test]
fn keeps_stopped_managed_service_without_connectable_endpoint() {
    let snapshot = merge_device_service_snapshot(
        "peer".into(),
        vec![service_instance("web", ServiceStatus::stopped())],
        Vec::new(),
        SystemTime::now(),
    );

    assert_eq!(snapshot.services.len(), 1);
    let service = &snapshot.services[0];
    assert_eq!(service.name, "web");
    assert_eq!(service.status.phase, ServicePhase::Stopped);
    assert!(service.endpoints.is_empty());
}

#[test]
fn keeps_discovery_only_service_from_published_snapshot() {
    let snapshot = merge_device_service_snapshot(
        "peer".into(),
        Vec::new(),
        vec![published_service("web", ServiceStatus::running())],
        SystemTime::now(),
    );

    assert_eq!(snapshot.services.len(), 1);
    let service = &snapshot.services[0];
    assert_eq!(service.name, "web");
    assert_eq!(service.status.phase, ServicePhase::Running);
    assert_eq!(service.endpoints.len(), 1);
}

#[test]
fn merge_keeps_managed_status_and_published_endpoints() {
    let snapshot = merge_device_service_snapshot(
        "peer".into(),
        vec![service_instance("web", ServiceStatus::running())],
        vec![published_service("web", ServiceStatus::stopped())],
        SystemTime::now(),
    );

    assert_eq!(snapshot.peer_id, "peer");
    assert_eq!(snapshot.services.len(), 1);
    let service = &snapshot.services[0];
    assert_eq!(service.name, "web");
    assert_eq!(service.status.phase, ServicePhase::Running);
    assert_eq!(service.endpoints.len(), 1);
    assert_eq!(service.metadata.usage.as_ref().unwrap().kind, ServiceExposeUsageKind::Web);
}

#[test]
fn merge_keeps_stopped_managed_service_without_endpoints() {
    let snapshot = merge_device_service_snapshot(
        "peer".into(),
        vec![service_instance("web", ServiceStatus::stopped())],
        Vec::new(),
        SystemTime::now(),
    );
    assert_eq!(snapshot.services.len(), 1);
    assert_eq!(snapshot.services[0].status.phase, ServicePhase::Stopped);
    assert!(snapshot.services[0].endpoints.is_empty());
}

#[test]
fn merge_keeps_discovery_only_services_in_name_order() {
    let snapshot = merge_device_service_snapshot(
        "peer".into(),
        vec![service_instance("zeta", ServiceStatus::running())],
        vec![published_service("web", ServiceStatus::running()), published_service("alpha", ServiceStatus::running())],
        SystemTime::now(),
    );
    let names: Vec<&str> = snapshot.services.iter().map(|s| s.name.as_str()).collect();
    assert_eq!(names, vec!["alpha", "web", "zeta"]);
    assert_eq!(snapshot.services[1].endpoints.len(), 1);
    assert!(find_service(snapshot.clone(), "web").is_some());
    assert!(find_service(snapshot, "nope").is_none());
}

#[test]
fn snapshot_lookup_prefers_live_then_cache_then_empty() {
    let now = SystemTime::now();
    let snap = |peer: &str| DeviceServiceSnapshot { peer_id: peer.into(), services: Vec::new(), updated_at: now };

    let live = device_service_snapshot_lookup("p".into(), Some(Ok(snap("live"))), Some(snap("cached")), now);
    assert_eq!(live.source, DeviceServiceSnapshotSource::Live);
    assert_eq!(live.snapshot.peer_id, "live");
    assert!(live.error.is_none());

    let stale = device_service_snapshot_lookup("p".into(), Some(Err("offline".into())), Some(snap("cached")), now);
    assert_eq!(stale.source, DeviceServiceSnapshotSource::Cache);
    assert_eq!(stale.error.as_deref(), Some("offline"));

    let empty = device_service_snapshot_lookup("p".into(), Some(Err("offline".into())), None, now);
    assert_eq!(empty.source, DeviceServiceSnapshotSource::Empty);
    assert_eq!(empty.snapshot.peer_id, "p");
    assert_eq!(empty.source.as_str(), "empty");

    let cached = device_service_snapshot_lookup("p".into(), None, Some(snap("cached")), now);
    assert_eq!(cached.source.as_str(), "cache");
    assert!(cached.error.is_none());
}

#[test]
fn snapshot_removal_rejects_only_writes_started_before_removal() {
    let mut epochs = SnapshotEpochs::new();
    let stale_epoch = epochs.epoch("peer-a");
    assert!(epochs.is_current("peer-a", stale_epoch));

    epochs.advance("peer-a").unwrap();

    assert!(!epochs.is_current("peer-a", stale_epoch));
    let current_epoch = epochs.epoch("peer-a");
    assert!(epochs.is_current("peer-a", current_epoch));
    assert_eq!(epochs.epoch("peer-b"), 0);
}

fn exposed_manifest(name: &str, port_name: &str) -> ServiceManifest {
    ServiceManifest {
        name: name.to_string(),
        definition_id: None,
        runtime: RuntimeKind::Wasmtime,
        run_mode: ServiceRunMode::Command,
        source: ServiceSource::WasmtimeUrl { url: "https://example.test/app.wasm".into() },
        expose: Some(ServiceExpose {
            transport: ServiceExposeTransport { kind: ServiceExposeTransportKind::Tcp },
            usage: Some(ServiceExposeUsage { kind: ServiceExposeUsageKind::Web, path: Some("/".into()) }),
            icon_url: Some("https://example.test/icon.svg".into()),
            catalog_id: None,
        }),
        env: Vec::new(),
        mounts: Vec::new(),
        ports: vec![ServicePort {
            name: Some(port_name.to_string()),
            host_port: 18080,
            host_port_allocation: ServicePortAllocation::Fixed,
            service_port: 8080,
            protocol: ServicePortProtocol::Tcp,
        }],
        command: Vec::new(),
        entrypoint: Vec::new(),
        working_dir: None,
        labels: Vec::new(),
    }
}

#[test]
fn running_exposed_services_are_published_in_name_order() {
    let mut hidden = exposed_manifest("hidden", "web");
    hidden.expose = None;
    let inspected = vec![
        (exposed_manifest("zeta", "web"), Ok(ServiceStatus::running())),
        (exposed_manifest("stopped", "web"), Ok(ServiceStatus::stopped())),
        (exposed_manifest("broken", "web"), Err("runtime unavailable".to_string())),
        (hidden, Ok(ServiceStatus::running())),
        (exposed_manifest("alpha", "http"), Ok(ServiceStatus::running())),
    ];

    let published = list_published_device_services(inspected);

    let names: Vec<&str> = published.iter().map(|s| s.name.as_str()).collect();
    assert_eq!(names, vec!["alpha", "zeta"]);
    assert_eq!(published[0].endpoints.len(), 1);
    assert_eq!(published[0].endpoints[0].name, "http");
    assert_eq!(published[0].endpoints[0].protocol, "/fungi/service/alpha/http/0.2.0");
    assert_eq!(published[0].metadata.icon_url.as_deref(), Some("https://example.test/icon.svg"));
    assert_eq!(published[1].status.phase, ServicePhase::Running);
}
