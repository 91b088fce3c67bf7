use fungi_daemon::model::{
    RuntimeKind, ServiceExpose, ServiceExposeTransport, ServiceExposeTransportKind, ServiceExposeUsage,
    ServiceExposeUsageKind, ServiceManifest, ServiceMount, ServicePort, ServicePortAllocation, ServicePortProtocol,
    ServiceRunMode, ServiceSource,
};
use fungi_daemon::wasmtime::{build_wasmtime_command, normalize_absolute_path, tail_lines, validate_allowed_host_paths};

fn manifest() -> ServiceManifest {
    ServiceManifest {
        name: "web".into(),
        definition_id: None,
        runtime: RuntimeKind::Wasmtime,
        run_mode: ServiceRunMode::Command,
        source: ServiceSource::WasmtimeUrl { url: "https://example.test/web.wasm".into() },
        expose: None,
        env: Vec::new(),
        mounts: Vec::new(),
        ports: Vec::new(),
        command: Vec::new(),
        entrypoint: Vec::new(),
        working_dir: None,
        labels: Vec::new(),
    }
}

#[test]
fn tail_keeps_the_last_lines() {
    assert_eq!(tail_lines("a\nb\nc\n", Some("2")), "b\nc\n");
    assert_eq!(tail_lines("a\nb\nc", Some("2")), "b\nc");
    assert_eq!(tail_lines("a\r\nb\r\n", Some("1")), "b\n");
    assert_eq!(tail_lines("a\nb\n", Some("0")), "");
    assert_eq!(tail_lines("a\nb\n", Some("10")), "a\nb\n");
    assert_eq!(tail_lines("a\nb\n", Some("x")), "a\nb\n");
    assert_eq!(tail_lines("a\nb\n", None), "a\nb\n");
    assert_eq!(tail_lines("", Some("3")), "");
}

#[test]
fn wasmtime_command_lists_interfaces_dirs_env_and_args() {
    let mut m = manifest();
    m.ports = vec![ServicePort {
        name: Some("http".into()),
        host_port: 8080,
        host_port_allocation: ServicePortAllocation::Fixed,
        service_port: 8080,
        protocol: ServicePortProtocol::Tcp,
    }];
    m.mounts = vec![
        ServiceMount { host_path: "/data/a".into(), runtime_path: " /srv ".into() },
        ServiceMount { host_path: "/data/b".into(), runtime_path: "/".into() },
    ];
    m.env = vec![("MODE".into(), "prod".into())];
    m.command = vec!["--listen".into(), "0.0.0.0:8080".into()];

    let command = build_wasmtime_command("/bin/launcher", "/home/f", "/svc/component.wasm", "/svc", &m);

    assert_eq!(command.program, "/bin/launcher");
    assert_eq!(
        command.args,
        vec![
            "--fungi-dir", "/home/f", "run", "-Scli", "-Shttp", "-Stcp", "-Sinherit-network", "-Sallow-ip-name-lookup",
            "--dir", "/data/a::srv", "--dir", "/data/b", "--env", "MODE=prod", "/svc/component.wasm", "--listen",
            "0.0.0.0:8080",
        ]
    );
    assert_eq!(command.current_dir, "/svc");
}

#[test]
fn wasmtime_command_without_tcp_ports_has_no_networking() {
    let mut m = manifest();
    m.working_dir = Some("/work".into());
    let command = build_wasmtime_command("l", "h", "c.wasm", "/svc", &m);
    assert_eq!(command.args, vec!["--fungi-dir", "h", "run", "-Scli", "-Shttp", "c.wasm"]);
    assert_eq!(command.current_dir, "/work");
}

#[test]
fn absolute_paths_are_normalized() {
    assert_eq!(normalize_absolute_path("/a/./b/../c//d/").unwrap(), "/a/c/d");
    assert_eq!(normalize_absolute_path("/..").unwrap(), "/");
    assert_eq!(normalize_absolute_path("/").unwrap(), "/");
    assert_eq!(normalize_absolute_path("rel/path").unwrap_err(), "host path must be absolute: rel/path");
}

#[test]
fn host_paths_must_lie_under_allowed_roots() {
    let mut m = manifest();
    m.mounts = vec![ServiceMount { host_path: "/data/app/../app/files".into(), runtime_path: "files".into() }];
    assert!(validate_allowed_host_paths(&m, &vec!["/data/app".to_string()]).is_ok());
    assert!(validate_allowed_host_paths(&m, &vec!["/data/ap".to_string(), "/data/app/".to_string()]).is_ok());
    assert_eq!(
        validate_allowed_host_paths(&m, &vec!["/data/ap".to_string()]).unwrap_err(),
        "wasmtime host path is outside allowed roots: /data/app/../app/files"
    );
    assert!(validate_allowed_host_paths(&m, &vec!["data".to_string()]).is_err());
    m.mounts = vec![ServiceMount { host_path: "/data/../etc".into(), runtime_path: "x".into() }];
    assert!(validate_allowed_host_paths(&m, &vec!["/data".to_string()]).is_err());
}

#[test]
fn wasmtime_tcp_entry_runs_command_with_network_permissions() {
    let temp_dir = tempfile::TempDir::new().unwrap();
    let component = temp_dir.path().join("demo.wasm").to_string_lossy().into_owned();
    let mut m = manifest();
    m.name = "tcp-service".into();
    m.source = ServiceSource::WasmtimeFile { component: component.clone() };
    m.expose = Some(ServiceExpose {
        transport: ServiceExposeTransport { kind: ServiceExposeTransportKind::Tcp },
        usage: Some(ServiceExposeUsage { kind: ServiceExposeUsageKind::Raw, path: None }),
        icon_url: None,
        catalog_id: None,
    });
    m.env = vec![
        ("HOME".into(), "guest-home=value".into()),
        ("SFTP_FS_ROOT".into(), "appdata/files with spaces".into()),
    ];
    m.ports = vec![ServicePort {
        name: Some("socks5".into()),
        host_port: 18081,
        host_port_allocation: ServicePortAllocation::Fixed,
        service_port: 1080,
        protocol: ServicePortProtocol::Tcp,
    }];
    m.command = vec!["--listen".into(), "127.0.0.1:1080".into()];
    let home = temp_dir.path().to_string_lossy().into_owned();
    let service_dir = temp_dir.path().join("service").to_string_lossy().into_owned();

    let command = build_wasmtime_command("/bin/fungi", &home, &component, &service_dir, &m);
    let args = command.args;

    assert!(args.iter().any(|arg| arg == "run"));
    assert!(!args.iter().any(|arg| arg == "serve"));
    assert!(args.iter().any(|arg| arg == "-Scli"));
    assert!(args.iter().any(|arg| arg == "-Shttp"));
    assert!(args.iter().any(|arg| arg == "-Stcp"));
    assert!(args.iter().any(|arg| arg == "-Sinherit-network"));
    assert!(args.iter().any(|arg| arg == "-Sallow-ip-name-lookup"));
    assert!(args.iter().any(|arg| arg == "--listen"));
    let component_index = args.iter().position(|arg| arg == &component).unwrap();
    for expected in ["SFTP_FS_ROOT=appdata/files with spaces", "HOME=guest-home=value"] {
        assert!(args[..component_index].windows(2).any(|pair| pair == ["--env", expected]));
    }
}

#[test]
fn wasmtime_command_without_tcp_ports_omits_network_permissions() {
    let temp_dir = tempfile::TempDir::new().unwrap();
    let component = temp_dir.path().join("demo.wasm").to_string_lossy().into_owned();
    let mut m = manifest();
    m.name = "http-service".into();
    m.source = ServiceSource::WasmtimeFile { component: component.clone() };
    m.expose = Some(ServiceExpose {
        transport: ServiceExposeTransport { kind: ServiceExposeTransportKind::Tcp },
        usage: Some(ServiceExposeUsage { kind: ServiceExposeUsageKind::Web, path: Some("/".into()) }),
        icon_url: None,
        catalog_id: None,
    });
    let home = temp_dir.path().to_string_lossy().into_owned();
    let service_dir = temp_dir.path().join("service").to_string_lossy().into_owned();

    let command = build_wasmtime_command("/bin/fungi", &home, &component, &service_dir, &m);
    let args = command.args;

    assert!(args.iter().any(|arg| arg == "run"));
    assert!(!args.iter().any(|arg| arg == "serve"));
    assert!(args.iter().any(|arg| arg == "-Shttp"));
    assert!(!args.iter().any(|arg| arg == "-Stcp"));
    assert!(!args.iter().any(|arg| arg == "-Sinherit-network"));
    assert!(!args.iter().any(|arg| arg == "-Sallow-ip-name-lookup"));
}
