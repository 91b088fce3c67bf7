use fungi_daemon::apply::{
    ensure_service_configuration_loaded, finish_apply, manifest_change, manifests_equal, plan_apply, reserved_host_ports_except,
};
use fungi_daemon::file_positions::{seek_needs_length, seek_position, SeekTarget};
use fungi_daemon::manifest_export::{
    document_with_instance_name, front_matter_with_body, service_manifest_document, yaml_without_document_start,
};
use fungi_daemon::model::{
    ManifestResolutionPolicy, RuntimeKind, ServiceExpose, ServiceExposeTransport, ServiceExposeTransportKind,
    ServiceExposeUsage, ServiceExposeUsageKind, ServiceInstance, ServiceManifest, ServicePhase, ServicePort,
    ServicePortAllocation, ServicePortProtocol, ServiceRunMode, ServiceSource, ServiceStatus,
};
use fungi_daemon::paths::ManifestPathRoots;
use fungi_daemon::remote_logs::{frame_length_prefix, frame_payload_len};
use fungi_daemon::service_control::{ServiceApplyFailureStage, ServiceManifestChange, ServiceWorkloadAction};
use fungi_daemon::service_file::parse_service_manifest_yaml;
use fungi_daemon::service_state::{DesiredServiceState, ServiceStateStore};

fn manifest(name: &str) -> ServiceManifest {
    ServiceManifest {
        name: name.into(),
        definition_id: None,
        runtime: RuntimeKind::Wasmtime,
        run_mode: ServiceRunMode::Command,
        source: ServiceSource::WasmtimeUrl { url: "https://example.test/web.wasm".into() },
        expose: None,
        env: Vec::new(),
        mounts: Vec::new(),
        ports: Vec::new(),
        command: Vec::new(),
        entrypoint: Vec::new(),
        working_dir: None,
        labels: Vec::new(),
    }
}

fn instance(name: &str, status: ServiceStatus) -> ServiceInstance {
    ServiceInstance {
        id: format!("wasmtime:{name}"),
        runtime: RuntimeKind::Wasmtime,
        name: name.into(),
        definition_id: None,
        source: "s".into(),
        labels: Vec::new(),
        ports: Vec::new(),
        exposed_endpoints: Vec::new(),
        status,
    }
}

fn port(name: Option<&str>, host_port: u16, service_port: u16) -> ServicePort {
    ServicePort {
        name: name.map(str::to_string),
        host_port,
        host_port_allocation: ServicePortAllocation::Fixed,
        service_port,
        protocol: ServicePortProtocol::Tcp,
    }
}

#[test]
fn manifests_compare_by_content() {
    let a = manifest("web");
    let mut b = manifest("web");
    assert!(manifests_equal(&a, &b));
    assert_eq!(manifest_change(Some(&a), &b), ServiceManifestChange::Unchanged);
    b.command = vec!["--x".into()];
    assert!(!manifests_equal(&a, &b));
    assert_eq!(manifest_change(Some(&a), &b), ServiceManifestChange::Changed);
    assert_eq!(manifest_change(None, &b), ServiceManifestChange::Created);
}

#[test]
fn apply_plan_for_a_new_service_uses_the_requested_id() {
    let store = ServiceStateStore::new("/s".into());
    let plan = plan_apply(&store, &manifest("web"), None, None, Some("svc_web")).unwrap();
    assert_eq!(plan.local_service_id, "svc_web");
    assert_eq!(plan.desired_state, DesiredServiceState::Stopped);
    assert_eq!(plan.manifest_change, ServiceManifestChange::Created);
    assert!(!plan.replacing_existing);
    assert!(!plan.stop_previous);
}

#[test]
fn apply_plan_for_a_stored_service_keeps_its_id_and_state() {
    let mut store = ServiceStateStore::new("/s".into());
    store.upsert_service_with_local_service_id(&manifest("web"), DesiredServiceState::Running, Some("svc_web")).unwrap();
    let plan = plan_apply(&store, &manifest("web"), None, None, None).unwrap();
    assert_eq!(plan.local_service_id, "svc_web");
    assert_eq!(plan.desired_state, DesiredServiceState::Running);
    assert_eq!(plan.manifest_change, ServiceManifestChange::Unchanged);
    assert_eq!(plan.previous_runtime, Some(RuntimeKind::Wasmtime));
    assert!(plan.replacing_existing);
    assert!(plan.stop_previous);
    assert_eq!(
        plan_apply(&store, &manifest("web"), None, None, Some("svc_other")).unwrap_err(),
        "local_service_id mismatch for service 'web': expected 'svc_web', got 'svc_other'"
    );
}

#[test]
fn apply_plan_refuses_a_different_definition() {
    let mut store = ServiceStateStore::new("/s".into());
    let mut first = manifest("web");
    first.definition_id = Some("code-server".into());
    store.upsert_service_with_local_service_id(&first, DesiredServiceState::Stopped, Some("svc_web")).unwrap();
    let mut next = manifest("web");
    next.definition_id = Some("filebrowser-lite".into());
    let error = plan_apply(&store, &next, None, None, None).unwrap_err();
    assert!(error.contains("definition id 'code-server'"));
    assert!(error.contains("definition id 'filebrowser-lite'"));
}

#[test]
fn finished_apply_reports_restart_and_failures() {
    let pulled = instance("web", ServiceStatus::stopped());
    let stopped = finish_apply(
        RuntimeKind::Wasmtime,
        ServiceManifestChange::Created,
        DesiredServiceState::Stopped,
        None,
        pulled.clone(),
        None,
        None,
    );
    assert_eq!(stopped.outcome.workload_action, ServiceWorkloadAction::NoAction);
    assert!(stopped.outcome.failure.is_none());

    let restarted = finish_apply(
        RuntimeKind::Wasmtime,
        ServiceManifestChange::Changed,
        DesiredServiceState::Running,
        None,
        pulled.clone(),
        Some(Ok(())),
        Some(Ok(instance("web", ServiceStatus::running()))),
    );
    assert_eq!(restarted.outcome.workload_action, ServiceWorkloadAction::Restarted);
    assert_eq!(restarted.outcome.final_status.phase, ServicePhase::Running);

    let failed = finish_apply(
        RuntimeKind::Wasmtime,
        ServiceManifestChange::Changed,
        DesiredServiceState::Running,
        None,
        pulled,
        Some(Err("launcher failed".into())),
        Some(Err("gone".into())),
    );
    let failure = failed.outcome.failure.unwrap();
    assert_eq!(failure.stage, ServiceApplyFailureStage::Restart);
    assert_eq!(failure.message, "launcher failed; failed to inspect final service state: gone");
    assert_eq!(failed.instance.status.phase, ServicePhase::Unknown);
}

#[test]
fn other_services_hold_their_host_ports() {
    let mut a = manifest("a");
    a.ports = vec![port(None, 8080, 80), port(None, 9090, 90)];
    let mut b = manifest("b");
    b.ports = vec![port(None, 7070, 70)];
    let held = reserved_host_ports_except(&vec![a, b], "b");
    assert!(held.contains(&8080));
    assert!(held.contains(&9090));
    assert!(!held.contains(&7070));
}

#[test]
fn stored_manifest_document_names_entries_and_client() {
    let mut m = manifest("files");
    m.definition_id = Some("filebrowser".into());
    m.ports = vec![port(Some("http"), 8080, 8080), port(None, 9000, 9000)];
    m.expose = Some(ServiceExpose {
        transport: ServiceExposeTransport { kind: ServiceExposeTransportKind::Tcp },
        usage: Some(ServiceExposeUsage { kind: ServiceExposeUsageKind::Web, path: Some("/".into()) }),
        icon_url: Some("https://example.test/icon.svg".into()),
        catalog_id: None,
    });
    let document = service_manifest_document(&m).unwrap();
    assert_eq!(document.fungi, "service/v1");
    assert_eq!(document.id, "filebrowser");
    assert_eq!(document.instance.as_deref(), Some("files"));
    let names: Vec<&str> = document.publish.iter().map(|(n, _)| n.as_str()).collect();
    assert_eq!(names, vec!["http", "main-1"]);
    let client = document.publish[0].1.client.as_ref().unwrap();
    assert_eq!(client.kind.as_deref(), Some("web"));
    assert_eq!(client.path.as_deref(), Some("/"));
    assert_eq!(document.run.as_ref().unwrap().source.url.as_deref(), Some("https://example.test/web.wasm"));

    let mut labelled = manifest("x");
    labelled.labels = vec![("a".into(), "b".into())];
    assert_eq!(service_manifest_document(&labelled).unwrap_err(), "fungi: service/v1 does not support labels");
    let mut with_entrypoint = manifest("x");
    with_entrypoint.entrypoint = vec!["/bin/sh".into()];
    with_entrypoint.working_dir = Some("/srv".into());
    assert_eq!(
        service_manifest_document(&with_entrypoint).unwrap_err(),
        "fungi: service/v1 does not support entrypoint"
    );
    with_entrypoint.entrypoint.clear();
    assert_eq!(
        service_manifest_document(&with_entrypoint).unwrap_err(),
        "fungi: service/v1 does not support working_dir"
    );
}

#[test]
fn exported_external_service_publishes_its_address() {
    let mut m = manifest("ssh");
    m.runtime = RuntimeKind::External;
    m.source = ServiceSource::ExistingTcp { host: "127.0.0.1".into(), port: 22 };
    m.ports = vec![port(Some("ssh"), 22, 22)];
    let document = service_manifest_document(&m).unwrap();
    assert!(document.run.is_none());
    assert!(document.instance.is_none());
    assert_eq!(document.publish[0].1.tcp.host.as_deref(), Some("127.0.0.1"));
    assert_eq!(document.publish[0].1.tcp.port, 22);
}

#[test]
fn front_matter_is_rewritten_with_its_body() {
    assert_eq!(yaml_without_document_start("---\nid: x\n".to_string()), "id: x\n");
    assert_eq!(yaml_without_document_start("id: x".to_string()), "id: x\n");
    assert_eq!(front_matter_with_body("id: x\n", "# Docs\n"), "---\nid: x\n---\n# Docs\n");

    let content = "---\nfungi: service/v1\nid: docs\npublish:\n  main:\n    tcp:\n      host: 127.0.0.1\n      port: 8080\n---\n\n# Docs\n";
    let (document, body) = document_with_instance_name(content, " published-docs ").unwrap();
    assert_eq!(document.instance.as_deref(), Some("published-docs"));
    assert_eq!(document.id, "docs");
    assert_eq!(body.as_deref(), Some("\n# Docs\n"));
    assert!(document_with_instance_name(content, "  ").is_err());
    assert!(document_with_instance_name("hello: world\n", "x").is_err());
}

#[test]
fn frame_lengths_round_trip_and_are_bounded() {
    let prefix = frame_length_prefix(300).unwrap();
    assert_eq!(prefix, [0, 0, 1, 44]);
    assert_eq!(frame_payload_len(prefix).unwrap(), 300);
    let error = frame_length_prefix(2 * 1024 * 1024 + 1).unwrap_err();
    assert!(error.contains("frame too large"));
    assert!(frame_payload_len([0, 0x20, 0, 1]).is_err());
}

#[test]
fn seeks_stay_within_the_file_start() {
    assert_eq!(seek_position(10, SeekTarget::Start(3), 0), 3);
    assert_eq!(seek_position(10, SeekTarget::Current(-20), 0), 0);
    assert_eq!(seek_position(10, SeekTarget::Current(5), 0), 15);
    assert_eq!(seek_position(10, SeekTarget::End(-4), 100), 96);
    assert_eq!(seek_position(10, SeekTarget::End(i64::MIN), 100), 0);
    assert!(seek_needs_length(SeekTarget::End(0)));
    assert!(!seek_needs_length(SeekTarget::Current(0)));
}

#[test]
fn docker_entries_get_distinct_offered_host_ports() {
    let yaml = "fungi: service/v1\nid: two\nrun:\n  provider: docker\n  source:\n    image: example/two:latest\npublish:\n  a:\n    tcp:\n      port: 80\n  b:\n    tcp:\n      port: 81\n";
    let roots = ManifestPathRoots {
        service_appdata_dir: "/tmp/d".into(),
        service_artifacts_dir: "/tmp/a".into(),
        user_root_dir: "/tmp/r".into(),
        user_home_dir: "/tmp/h".into(),
    };
    let policy = ManifestResolutionPolicy { ephemeral_host_ports: vec![50000, 50000, 50001] };
    let m = parse_service_manifest_yaml(yaml, "/tmp", &roots, &policy).unwrap();
    assert_eq!(m.ports[0].host_port, 50000);
    assert_eq!(m.ports[1].host_port, 50001);
    assert_eq!(m.ports[1].service_port, 81);
}

#[test]
fn stored_manifest_reads_back_as_it_was() {
    let client = "    client:\n      kind: WEB\n      path: ' / '\n";
    let yaml = format!(
        "fungi: service/v1\nid: files\ninstance: my-files\nrun:\n  provider: docker\n  source:\n    image: ' filebrowser/filebrowser:latest '\n  args: ['--port', '80']\n  env:\n    TZ: UTC\n  mounts:\n    - from: /srv/files\n      to: /data\npublish:\n  api:\n    tcp:\n      port: 81\n{client}  web:\n    tcp:\n      port: 80\n{client}"
    );
    let roots = ManifestPathRoots {
        service_appdata_dir: "/tmp/d".into(),
        service_artifacts_dir: "/tmp/a".into(),
        user_root_dir: "/tmp/r".into(),
        user_home_dir: "/tmp/h".into(),
    };
    let policy = ManifestResolutionPolicy { ephemeral_host_ports: vec![50000, 50001, 50002] };
    let first = parse_service_manifest_yaml(&yaml, "/tmp", &roots, &policy).unwrap();
    assert_eq!(first.ports.len(), 2);
    let document = service_manifest_document(&first).unwrap();
    assert_eq!(document.id, "files");
    assert_eq!(document.instance.as_deref(), Some("my-files"));
    assert_eq!(document.run.as_ref().unwrap().source.image.as_deref(), Some("filebrowser/filebrowser:latest"));
    let again = document
        .into_service_manifest_for_node_with_service_paths("/tmp", &roots, &policy, &std::collections::BTreeSet::new())
        .unwrap();
    assert!(manifests_equal(&first, &again));
    assert_eq!(again.ports[0].host_port, 50000);
    assert_eq!(again.ports[1].service_port, 80);
    assert_eq!(again.mounts[0].host_path, "/srv/files");
    let usage = again.expose.as_ref().unwrap().usage.as_ref().unwrap();
    assert_eq!(usage.kind, ServiceExposeUsageKind::Web);
    assert_eq!(usage.path.as_deref(), Some("/"));
}

#[test]
fn services_with_pending_cleanup_or_failed_state_are_refused() {
    let pending = ServiceStatus::unknown().with_detail("removal cleanup pending");
    let failed = ServiceStatus::unknown().with_detail("stored state is invalid");
    assert!(ensure_service_configuration_loaded("web", None, None).is_ok());
    assert_eq!(
        ensure_service_configuration_loaded("web", Some(&pending), Some(&failed)).unwrap_err(),
        "service 'web': removal cleanup pending"
    );
    assert_eq!(
        ensure_service_configuration_loaded("web", None, Some(&failed)).unwrap_err(),
        "service 'web': stored state is invalid"
    );
}
