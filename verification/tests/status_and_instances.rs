use fungi_daemon::docker::{
    docker_host_named_pipe_path, docker_spec_from_manifest_with_name, is_missing_docker_container_error, is_named_pipe_path,
    normalize_named_pipe_path,
    DockerPortProtocol,
};
use fungi_daemon::instances::{
    enrich_instance_from_manifest, ensure_matching_definition_id, ensure_wasmtime_manifest,
    external_instance_from_manifest, has_tcp_ports, map_wasmtime_instance, missing_instance_from_manifest,
    service_expose_endpoint_bindings, service_instance_id, service_port_protocol, source_display,
};
use fungi_daemon::model::{
    RuntimeKind, ServiceExpose, ServiceExposeTransport, ServiceExposeTransportKind, ServiceInstance, ServiceManifest,
    ServiceMount, ServicePhase, ServicePort, ServicePortAllocation, ServicePortProtocol, ServiceRunMode, ServiceSource,
    ServiceStatus,
};

fn manifest(name: &str, runtime: RuntimeKind, source: ServiceSource) -> ServiceManifest {
    ServiceManifest {
        name: name.to_string(),
        definition_id: None,
        runtime,
        run_mode: ServiceRunMode::Command,
        source,
        expose: None,
        env: Vec::new(),
        mounts: Vec::new(),
        ports: Vec::new(),
        command: Vec::new(),
        entrypoint: Vec::new(),
        working_dir: None,
        labels: Vec::new(),
    }
}

fn tcp_port(name: Option<&str>, host_port: u16, service_port: u16) -> ServicePort {
    ServicePort {
        name: name.map(str::to_string),
        host_port,
        host_port_allocation: ServicePortAllocation::Fixed,
        service_port,
        protocol: ServicePortProtocol::Tcp,
    }
}

#[test]
fn status_label_prefers_detail() {
    let status = ServiceStatus::new(ServicePhase::Unknown).with_detail("paused");

    assert_eq!(status.state_label(), "paused");
}

#[test]
fn exited_status_formats_exit_code_as_detail() {
    let status = ServiceStatus::exited(Some(137));

    assert_eq!(status.phase, ServicePhase::Exited);
    assert_eq!(status.detail.as_deref(), Some("exited(137)"));
    assert_eq!(status.state_label(), "exited(137)");
}

#[test]
fn negative_exit_code_keeps_its_sign() {
    assert_eq!(ServiceStatus::exited(Some(-1)).state_label(), "exited(-1)");
    assert_eq!(ServiceStatus::exited(None).state_label(), "exited");
}

#[test]
fn status_label_without_detail_is_the_phase() {
    assert_eq!(ServiceStatus::running().state_label(), "running");
    assert_eq!(ServiceStatus::missing().state_label(), "missing");
    assert!(ServiceStatus::running().is_running());
    assert!(!ServiceStatus::stopped().is_running());
}

#[test]
fn docker_manifest_can_use_internal_container_name() {
    let mut m = manifest(
        "c",
        RuntimeKind::Docker,
        ServiceSource::Docker { image: "ghcr.io/coder/code-server:latest".into() },
    );
    m.definition_id = Some("code-server".into());

    let spec = docker_spec_from_manifest_with_name(&m, "svc_01hz7j7n3evh1q4j1a8g9c2d3e").unwrap();

    assert_eq!(spec.name.as_deref(), Some("svc_01hz7j7n3evh1q4j1a8g9c2d3e"));
}

#[test]
fn tests_docker_manifest_maps_to_container_spec() {
    let mut m = manifest(
        "filebrowser",
        RuntimeKind::Docker,
        ServiceSource::Docker { image: "filebrowser/filebrowser:latest".into() },
    );
    m.env = vec![("FB_NOAUTH".to_string(), "true".to_string())];
    m.mounts = vec![ServiceMount { host_path: "/tmp/fungi/data".into(), runtime_path: "/srv".into() }];
    m.ports = vec![tcp_port(None, 8080, 80)];
    m.command = vec!["serve".into()];

    let spec = docker_spec_from_manifest_with_name(&m, &m.name).unwrap();
    assert_eq!(spec.name.as_deref(), Some("filebrowser"));
    assert_eq!(spec.image, "filebrowser/filebrowser:latest");
    assert_eq!(spec.ports[0].host_port, 8080);
    assert_eq!(spec.ports[0].container_port, 80);
    assert_eq!(spec.ports[0].protocol, DockerPortProtocol::Tcp);
    assert_eq!(spec.mounts[0].container_path, "/srv");
}

#[test]
fn tests_docker_manifest_rejects_wrong_source_type() {
    let m = manifest("bad", RuntimeKind::Docker, ServiceSource::WasmtimeFile { component: "/tmp/app.wasm".into() });

    assert!(docker_spec_from_manifest_with_name(&m, &m.name).is_err());
}

#[test]
fn docker_spec_refuses_other_runtimes() {
    let m = manifest("w", RuntimeKind::Wasmtime, ServiceSource::WasmtimeUrl { url: "https://x".into() });
    assert_eq!(
        docker_spec_from_manifest_with_name(&m, "w").unwrap_err(),
        "service manifest runtime does not match docker provider"
    );
    let wrong = manifest("d", RuntimeKind::Docker, ServiceSource::WasmtimeUrl { url: "https://x".into() });
    assert_eq!(
        docker_spec_from_manifest_with_name(&wrong, "d").unwrap_err(),
        "docker runtime requires a docker image source"
    );
}

#[test]
fn instance_ids_and_sources() {
    assert_eq!(service_instance_id(RuntimeKind::Wasmtime, "web"), "wasmtime:web");
    assert_eq!(service_instance_id(RuntimeKind::Docker, "db"), "docker:db");
    assert_eq!(
        source_display(&ServiceSource::ExistingTcp { host: "127.0.0.1".into(), port: 22 }),
        "127.0.0.1:22"
    );
    assert_eq!(source_display(&ServiceSource::Docker { image: "nginx".into() }), "nginx");
}

#[test]
fn endpoint_bindings_keep_named_tcp_ports_sorted_by_name() {
    let mut m = manifest("svc.echo", RuntimeKind::External, ServiceSource::ExistingTcp { host: "h".into(), port: 1 });
    m.expose = Some(ServiceExpose {
        transport: ServiceExposeTransport { kind: ServiceExposeTransportKind::Tcp },
        usage: None,
        icon_url: None,
        catalog_id: None,
    });
    let mut udp = tcp_port(Some("udp"), 5, 5);
    udp.protocol = ServicePortProtocol::Udp;
    m.ports = vec![tcp_port(Some(" web "), 8080, 80), tcp_port(None, 1, 1), tcp_port(Some("api"), 9090, 90), udp, tcp_port(Some("  "), 2, 2)];

    let bindings = service_expose_endpoint_bindings(&m);

    assert_eq!(bindings.len(), 2);
    assert_eq!(bindings[0].name, "api");
    assert_eq!(bindings[1].name, "web");
    assert_eq!(bindings[1].protocol, service_port_protocol("svc.echo", "web"));
    assert_eq!(bindings[1].host_port, 8080);
    assert_eq!(bindings[1].service_port, 80);
    assert!(has_tcp_ports(&m));
}

#[test]
fn endpoint_protocol_names_service_and_port() {
    assert_eq!(service_port_protocol("web", "web"), "/fungi/service/web/web/0.2.0");
}

#[test]
fn unexposed_manifest_publishes_no_endpoints() {
    let mut m = manifest("x", RuntimeKind::External, ServiceSource::ExistingTcp { host: "h".into(), port: 1 });
    m.ports = vec![tcp_port(Some("web"), 1, 1)];
    assert!(service_expose_endpoint_bindings(&m).is_empty());
}

#[test]
fn missing_and_external_instances_come_from_the_manifest() {
    let mut m = manifest("ssh", RuntimeKind::External, ServiceSource::ExistingTcp { host: "127.0.0.1".into(), port: 22 });
    m.ports = vec![tcp_port(Some("ssh"), 22, 22)];

    let missing = missing_instance_from_manifest(&m);
    assert_eq!(missing.id, "external:ssh");
    assert_eq!(missing.status.phase, ServicePhase::Missing);
    assert_eq!(missing.ports.len(), 1);

    let running = external_instance_from_manifest(&m, true);
    assert_eq!(running.source, "127.0.0.1:22");
    assert_eq!(running.status.phase, ServicePhase::Running);
    assert_eq!(external_instance_from_manifest(&m, false).status.phase, ServicePhase::Stopped);
}

#[test]
fn enriched_instance_takes_manifest_identity() {
    let m = manifest("web", RuntimeKind::Wasmtime, ServiceSource::WasmtimeUrl { url: "https://x".into() });
    let instance = ServiceInstance {
        id: String::new(),
        runtime: RuntimeKind::Wasmtime,
        name: "other".into(),
        definition_id: Some("d".into()),
        source: "s".into(),
        labels: Vec::new(),
        ports: Vec::new(),
        exposed_endpoints: Vec::new(),
        status: ServiceStatus::running(),
    };
    let enriched = enrich_instance_from_manifest(instance, &m);
    assert_eq!(enriched.id, "wasmtime:web");
    assert_eq!(enriched.name, "web");
    assert_eq!(enriched.definition_id, None);
    assert_eq!(enriched.source, "s");
}

#[test]
fn wasmtime_instance_status_follows_the_process() {
    let m = manifest("web", RuntimeKind::Wasmtime, ServiceSource::WasmtimeUrl { url: "https://x".into() });
    assert_eq!(map_wasmtime_instance("h", &m, "src", true, Some(3)).status.phase, ServicePhase::Running);
    let exited = map_wasmtime_instance("h", &m, "src", false, Some(3));
    assert_eq!(exited.status.state_label(), "exited(3)");
    assert_eq!(exited.id, "wasmtime:h");
    assert_eq!(map_wasmtime_instance("h", &m, "src", false, None).status.phase, ServicePhase::Stopped);
}

#[test]
fn wasmtime_manifest_checks() {
    let ok = manifest("w", RuntimeKind::Wasmtime, ServiceSource::WasmtimeUrl { url: " https://x ".into() });
    assert!(ensure_wasmtime_manifest(&ok).is_ok());
    let blank = manifest("w", RuntimeKind::Wasmtime, ServiceSource::WasmtimeUrl { url: "  ".into() });
    assert_eq!(ensure_wasmtime_manifest(&blank).unwrap_err(), "wasmtime source url must not be empty");
    let tcp = manifest("w", RuntimeKind::Wasmtime, ServiceSource::ExistingTcp { host: "h".into(), port: 1 });
    assert_eq!(ensure_wasmtime_manifest(&tcp).unwrap_err(), "wasmtime runtime requires a wasm component source");
    let docker = manifest("w", RuntimeKind::Docker, ServiceSource::Docker { image: "i".into() });
    assert!(ensure_wasmtime_manifest(&docker).is_err());
}

#[test]
fn definition_ids_must_match_to_replace() {
    assert!(ensure_matching_definition_id("c", None, Some("x")).is_ok());
    assert!(ensure_matching_definition_id("c", Some("x"), Some("x")).is_ok());
    let error = ensure_matching_definition_id("c", Some("code-server"), Some("filebrowser-lite")).unwrap_err();
    assert!(error.contains("definition id 'code-server'"));
    assert!(error.contains("definition id 'filebrowser-lite'"));
    assert!(ensure_matching_definition_id("c", Some("x"), None).unwrap_err().contains("without a definition id"));
}

#[test]
fn docker_hosts_name_windows_pipes() {
    assert_eq!(
        docker_host_named_pipe_path("npipe:////./pipe/docker_engine").as_deref(),
        Some(r"\\.\pipe\docker_engine")
    );
    assert_eq!(normalize_named_pipe_path("./pipe/docker_engine"), r"\\.\pipe\docker_engine");
    assert_eq!(normalize_named_pipe_path("/custom/pipe"), r"custom\pipe");
    assert!(docker_host_named_pipe_path("unix:///var/run/docker.sock").is_none());
    assert!(is_named_pipe_path(r"\\.\pipe\docker_engine"));
    assert!(is_named_pipe_path("//./pipe/docker_engine"));
    assert!(is_named_pipe_path("npipe:////./pipe/docker_engine"));
    assert!(!is_named_pipe_path("/var/run/docker.sock"));
}

#[test]
fn missing_docker_container_error_is_detected() {
    assert!(is_missing_docker_container_error(Some(404)));
}

#[test]
fn non_404_docker_error_is_not_detected_as_missing_container() {
    assert!(!is_missing_docker_container_error(Some(500)));
    assert!(!is_missing_docker_container_error(None));
}
