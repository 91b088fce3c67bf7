use fungi_daemon::model::{
    RuntimeKind, ServiceInstance, ServiceManifest, ServicePhase, ServiceRunMode, ServiceSource, ServiceStatus,
};
use fungi_daemon::service_listing::{list_services, listed_instance};

fn manifest(name: &str) -> ServiceManifest {
    ServiceManifest {
        name: name.to_string(),
        definition_id: Some(format!("{name}-def")),
        runtime: RuntimeKind::Wasmtime,
        run_mode: ServiceRunMode::Command,
        source: ServiceSource::WasmtimeUrl { url: "https://example.test/app.wasm".into() },
        expose: None,
        env: Vec::new(),
        mounts: Vec::new(),
        ports: Vec::new(),
        command: Vec::new(),
        entrypoint: Vec::new(),
        working_dir: None,
        labels: Vec::new(),
    }
}

fn instance(name: &str, status: ServiceStatus) -> ServiceInstance {
    ServiceInstance {
        id: String::new(),
        runtime: RuntimeKind::Wasmtime,
        name: name.to_string(),
        definition_id: None,
        source: "s".into(),
        labels: Vec::new(),
        ports: Vec::new(),
        exposed_endpoints: Vec::new(),
        status,
    }
}

#[test]
fn listed_instances_take_the_manifest_identity_or_name_the_error() {
    let ok = listed_instance(&manifest("web"), Ok(instance("other", ServiceStatus::running())));
    assert_eq!(ok.name, "web");
    assert_eq!(ok.id, "wasmtime:web");
    assert_eq!(ok.definition_id.as_deref(), Some("web-def"));
    assert_eq!(ok.status.phase, ServicePhase::Running);

    let failed = listed_instance(&manifest("api"), Err("socket closed".to_string()));
    assert_eq!(failed.id, "wasmtime:api");
    assert_eq!(failed.source, "https://example.test/app.wasm");
    assert_eq!(failed.status.phase, ServicePhase::Unknown);
    assert_eq!(failed.status.detail.as_deref(), Some("runtime error: socket closed"));
}

#[test]
fn pending_cleanups_replace_their_listings_and_all_come_by_name() {
    let failed = vec![instance("zeta", ServiceStatus::unknown().with_detail("state failed to load"))];
    let listed = vec![instance("web", ServiceStatus::running()), instance("alpha", ServiceStatus::stopped())];
    let pending = vec![instance("web", ServiceStatus::unknown().with_detail("cleanup pending"))];

    let services = list_services(failed, listed, pending);

    let names: Vec<&str> = services.iter().map(|s| s.name.as_str()).collect();
    assert_eq!(names, vec!["alpha", "web", "zeta"]);
    assert_eq!(services[1].status.detail.as_deref(), Some("cleanup pending"));
}
