use fungi_daemon::model::{
    ManifestResolutionPolicy, RuntimeKind, ServiceExposeTransportKind, ServiceExposeUsageKind, ServiceManifest,
    ServicePortAllocation, ServiceSource,
};
use fungi_daemon::paths::ManifestPathRoots;
use fungi_daemon::manifest_export::{document_with_instance_name, service_manifest_document};
use fungi_daemon::service_file::{
    parse_service_manifest_yaml, parse_service_manifest_yaml_with_policy, peek_service_manifest_name,
};
use fungi_daemon::service_state::{check_service_state_file, DesiredServiceState, PersistedService, ServiceStateStore};
use std::collections::BTreeSet;

fn roots(home: &str) -> ManifestPathRoots {
    ManifestPathRoots {
        service_appdata_dir: format!("{home}/data/svc_test"),
        service_artifacts_dir: format!("{home}/services/svc_test/artifacts"),
        user_root_dir: format!("{home}/root"),
        user_home_dir: format!("{home}/home"),
    }
}

fn policy() -> ManifestResolutionPolicy {
    ManifestResolutionPolicy { ephemeral_host_ports: vec![49152, 49153, 49154] }
}

fn parse(content: &str, base_dir: &str, home: &str) -> Result<ServiceManifest, String> {
    parse_service_manifest_yaml(content, base_dir, &roots(home), &policy())
}

#[test]
fn fungi_service_file_rejects_removed_wasmtime_http_mode() {
    let content = r#"
fungi: service/v1
id: filebrowser-lite
run:
  provider: wasmtime
  mode: http
  source:
    url: https://example.test/filebrowser.wasm
publish:
  http:
    tcp:
      port: 8082
    client:
      kind: web
      path: /
"#;

    let error = parse(content, ".", "/tmp/fungi-home").unwrap_err();

    assert!(error.contains("unknown field `mode`"));
}

#[test]
fn fungi_service_file_maps_wasmtime_listener_to_run_args() {
    let content = r#"
fungi: service/v1
id: filebrowser-lite
run:
  provider: wasmtime
  source:
    url: https://example.test/filebrowser.wasm
  args:
    - --listen
    - 127.0.0.1:8082
publish:
  http:
    tcp:
      port: 8082
    client:
      kind: web
      path: /
"#;

    let manifest = parse(content, ".", "/tmp/fungi-home").unwrap();

    assert_eq!(manifest.runtime, RuntimeKind::Wasmtime);
    assert_eq!(manifest.command, ["--listen".to_string(), "127.0.0.1:8082".to_string()]);
    assert_eq!(manifest.ports[0].host_port, 8082);
    assert_eq!(manifest.ports[0].host_port_allocation, ServicePortAllocation::Fixed);
}

#[test]
fn fungi_service_file_without_run_maps_to_external_tcp_service() {
    let content = r#"
fungi: service/v1
id: ssh-tunnel
publish:
  ssh:
    tcp:
      host: 127.0.0.1
      port: 22
    client:
      kind: ssh
"#;

    let manifest = parse(content, ".", "/tmp/fungi-home").unwrap();

    assert_eq!(manifest.runtime, RuntimeKind::External);
    assert!(matches!(
        manifest.source,
        ServiceSource::ExistingTcp { ref host, port } if host == "127.0.0.1" && port == 22
    ));
    assert_eq!(manifest.ports[0].host_port, 22);
    assert_eq!(
        manifest.expose.as_ref().unwrap().usage.as_ref().unwrap().kind,
        ServiceExposeUsageKind::Ssh
    );
}

#[test]
fn fungi_service_file_rejects_mixed_client_metadata() {
    let content = r#"
fungi: service/v1
id: mixed
run:
  provider: docker
  source:
    image: example/mixed:latest
publish:
  web:
    tcp:
      port: 8080
    client:
      kind: web
      path: /
  ssh:
    tcp:
      port: 22
    client:
      kind: ssh
"#;

    let error = parse(content, ".", "/tmp/fungi-home").expect_err("mixed client metadata should be rejected");

    assert!(error.contains("client metadata must match"));
}

#[test]
fn fungi_service_yaml_allows_yaml_document_start_without_front_matter_close() {
    let content = r#"---
fungi: service/v1
id: ssh-tunnel
publish:
  ssh:
    tcp:
      host: 127.0.0.1
      port: 22
    client:
      kind: ssh
"#;

    let manifest = parse(content, ".", "/tmp/fungi-home").unwrap();

    assert_eq!(manifest.name, "ssh-tunnel");
    assert_eq!(manifest.runtime, RuntimeKind::External);
}

#[test]
fn fungi_service_yaml_parse_error_keeps_field_detail() {
    let content = "\nfungi: service/v1\nid: broken\npublish:\n  main:\n    tcp: {}\n";

    let message = parse(content, ".", "/tmp/fungi-home").expect_err("missing tcp.port should be reported");

    assert!(message.contains("Failed to parse Fungi service YAML"));
    assert!(message.contains("missing field `port`"));
}

#[test]
fn fungi_service_yaml_rejects_legacy_name_field() {
    let content = r#"
fungi: service/v1
name: old-name
publish:
  main:
    tcp:
      port: 1080
    client:
      kind: raw
"#;

    let message = parse(content, ".", "/tmp/fungi-home")
        .expect_err("Fungi service files should require id instead of name");

    assert!(message.contains("Failed to parse Fungi service YAML"));
    assert!(message.contains("unknown field `name`"));
}

#[test]
fn fungi_service_docker_publish_allocates_host_port() {
    let yaml = r#"
fungi: service/v1
id: filebrowser
run:
  provider: docker
  source:
    image: filebrowser/filebrowser:latest
publish:
  http:
    tcp:
      port: 80
"#;

    let manifest = parse(yaml, "/tmp", "/tmp").unwrap();

    assert!(manifest.ports[0].host_port > 0);
    assert_eq!(manifest.ports[0].host_port_allocation, ServicePortAllocation::Auto);
}

#[test]
fn fungi_service_rejects_duplicate_fixed_publish_ports() {
    let yaml = r#"
fungi: service/v1
id: duplicate-host-port
run:
  provider: wasmtime
  source:
    url: https://example.test/web.wasm
publish:
  http:
    tcp:
      port: 18080
    client:
      kind: web
  metrics:
    tcp:
      port: 18080
"#;

    let error = parse(yaml, ".", "/tmp/fungi-home").expect_err("duplicate fixed publish ports should fail validation");
    assert!(error.contains("publish.metrics.tcp.port 18080 is already reserved"));
}

#[test]
fn fungi_service_document_supports_external_tcp_service() {
    let yaml = r#"
fungi: service/v1
id: home-ssh
publish:
  ssh:
    tcp:
      host: 127.0.0.1
      port: 22
    client:
      kind: ssh
"#;

    let manifest = parse(yaml, ".", "/tmp/fungi-home").unwrap();

    assert_eq!(manifest.runtime, RuntimeKind::External);
    assert!(matches!(
        manifest.source,
        ServiceSource::ExistingTcp { ref host, port } if host == "127.0.0.1" && port == 22
    ));
    assert_eq!(manifest.ports[0].name.as_deref(), Some("ssh"));
}

#[test]
fn parse_fungi_service_expose_defaults_service_identity() {
    let yaml = r#"
fungi: service/v1
id: filebrowser
run:
  provider: docker
  source:
    image: filebrowser/filebrowser:latest
publish:
  http:
    tcp:
      port: 80
    client:
      kind: web
      path: /
"#;

    let manifest = parse(yaml, "/tmp", "/tmp").unwrap();
    let expose = manifest.expose.as_ref().expect("expected expose config");
    assert_eq!(expose.transport.kind, ServiceExposeTransportKind::Tcp);
    let usage = expose.usage.as_ref().expect("expected usage config");
    assert_eq!(usage.kind, ServiceExposeUsageKind::Web);
    assert_eq!(usage.path.as_deref(), Some("/"));
}

#[test]
fn parse_fungi_service_rejects_mismatched_multi_entry_client_metadata() {
    let yaml = r#"
fungi: service/v1
id: multi
run:
  provider: docker
  source:
    image: example/multi:latest
publish:
  api:
    tcp:
      port: 8081
    client:
      kind: raw
  web:
    tcp:
      port: 8080
    client:
      kind: web
      path: /
"#;

    let error = parse(yaml, "/tmp", "/tmp").expect_err("per-entry client metadata is not supported yet");
    assert!(error.contains("client metadata must match"));
}

#[test]
fn parse_fungi_service_rejects_docker_publish_host() {
    let yaml = r#"
fungi: service/v1
id: web-service
run:
  provider: docker
  source:
    image: example/web:latest
publish:
  main:
    tcp:
      host: 127.0.0.1
      port: 1234
"#;

    let error = parse(yaml, "/tmp", "/tmp").expect_err("docker publish host should be rejected");
    assert!(error.contains("publish.main.tcp.host is not used with provider: docker"));
}

#[test]
fn parse_fungi_service_rejects_zero_publish_port() {
    let yaml = r#"
fungi: service/v1
id: raw-service
publish:
  main:
    tcp:
      host: 127.0.0.1
      port: 0
"#;

    let error = parse(yaml, "/tmp", "/tmp").expect_err("zero publish port should be rejected");
    assert!(error.contains("publish.main.tcp.port must be greater than 0"));
}

#[test]
fn parse_fungi_service_expose_maps_icon_url() {
    let yaml = r#"
fungi: service/v1
id: filebrowser
run:
  provider: docker
  source:
    image: filebrowser/filebrowser:latest
publish:
  http:
    tcp:
      port: 80
    client:
      kind: web
      path: /
      iconUrl: https://example.test/icon.svg
"#;

    let manifest = parse(yaml, "/tmp", "/tmp").unwrap();
    let expose = manifest.expose.as_ref().expect("expected expose config");

    assert_eq!(expose.icon_url.as_deref(), Some("https://example.test/icon.svg"));
}

#[test]
fn peeked_name_prefers_instance_over_id() {
    let yaml = "fungi: service/v1\nid: docs\ninstance: published-docs\npublish:\n  main:\n    tcp:\n      host: 127.0.0.1\n      port: 8080\n";

    assert_eq!(peek_service_manifest_name(yaml).unwrap(), "published-docs");
    let manifest = parse(yaml, ".", "/tmp/fungi-home").unwrap();
    assert_eq!(manifest.name, "published-docs");
    assert_eq!(manifest.definition_id.as_deref(), Some("docs"));
}

#[test]
fn docker_publish_without_offered_port_is_refused() {
    let yaml = "fungi: service/v1\nid: web\nrun:\n  provider: docker\n  source:\n    image: example/web:latest\npublish:\n  http:\n    tcp:\n      port: 80\n";
    let empty = ManifestResolutionPolicy { ephemeral_host_ports: Vec::new() };

    assert!(parse_service_manifest_yaml(yaml, "/tmp", &roots("/tmp"), &empty).is_err());
}

#[test]
fn front_matter_body_is_ignored() {
    let content = "---\nfungi: service/v1\nid: docs\npublish:\n  main:\n    tcp:\n      host: 127.0.0.1\n      port: 8080\n    client:\n      kind: raw\n---\n\n# Docs\n";

    let manifest = parse(content, ".", "/tmp/fungi-home").unwrap();

    assert_eq!(manifest.name, "docs");
    assert_eq!(manifest.runtime, RuntimeKind::External);
}

#[test]
fn content_that_is_not_a_service_file_is_refused() {
    assert!(parse("hello: world\n", ".", "/tmp/fungi-home").is_err());
}

#[test]
fn fungi_service_document_supports_explicit_service_path_roots() {
    let yaml = r#"
fungi: service/v1
id: filebrowser
run:
  provider: docker
  source:
    image: filebrowser/filebrowser:latest
  mounts:
    - from: $fungi.service.data/db
      to: /srv
    - from: $fungi.service.artifacts/static
      to: /static
    - from: $fungi.root
      to: /user
publish:
  http:
    tcp:
      port: 80
"#;

    let local_service_id = "svc_01hz7j7n3evh1q4j1a8g9c2d3e";
    let home = "/tmp/fungi-home";
    let path_roots = ManifestPathRoots {
        service_appdata_dir: format!("{home}/appdata/{local_service_id}"),
        service_artifacts_dir: format!("{home}/services/{local_service_id}/artifacts"),
        user_root_dir: format!("{home}/root"),
        user_home_dir: format!("{home}/workspace"),
    };
    let manifest = parse_service_manifest_yaml_with_policy(yaml, ".", &path_roots, &policy(), &BTreeSet::new()).unwrap();

    assert_eq!(manifest.mounts[0].host_path, format!("{}/db", path_roots.service_appdata_dir));
    assert_eq!(manifest.mounts[1].host_path, format!("{}/static", path_roots.service_artifacts_dir));
    assert_eq!(manifest.mounts[2].host_path, path_roots.user_root_dir);
}

#[test]
fn fungi_service_file_maps_docker_workload_port_and_workspace_mount() {
    let content = r#"---
fungi: service/v1
id: code-server
run:
  provider: docker
  source:
    image: ghcr.io/coder/code-server:4.117.0
  args:
    - --bind-addr
    - 0.0.0.0:8080
  mounts:
    - from: $fungi.workspace
      to: /home/coder/project
publish:
  http:
    tcp:
      port: 8080
    client:
      kind: web
      path: /
---

# code-server
"#;

    let home = "/tmp/fungi-home";
    let manifest = parse(content, ".", home).unwrap();

    assert_eq!(manifest.name, "code-server");
    assert_eq!(manifest.runtime, RuntimeKind::Docker);
    assert_eq!(manifest.mounts[0].host_path, roots(home).user_home_dir);
    assert_eq!(manifest.ports[0].service_port, 8080);
    assert_eq!(manifest.ports[0].host_port_allocation, ServicePortAllocation::Auto);
    assert_eq!(manifest.expose.as_ref().unwrap().usage.as_ref().unwrap().kind, ServiceExposeUsageKind::Web);
}

#[test]
fn fungi_service_document_supports_fungi_workspace_and_auto_host_port() {
    let yaml = r#"
fungi: service/v1
id: filebrowser
run:
  provider: docker
  source:
    image: filebrowser/filebrowser:latest
  mounts:
    - from: $fungi.workspace
      to: /srv
publish:
  http:
    tcp:
      port: 80
    client:
      kind: web
"#;

    let occupied_allowed_port_number: u16 = 49152;
    let used_host_ports = BTreeSet::from([occupied_allowed_port_number]);
    let home = "/tmp/fungi-home";
    let manifest =
        parse_service_manifest_yaml_with_policy(yaml, ".", &roots(home), &policy(), &used_host_ports).unwrap();

    assert_eq!(manifest.mounts[0].host_path, roots(home).user_home_dir);
    assert_ne!(manifest.ports[0].host_port, occupied_allowed_port_number);
    assert_eq!(manifest.ports[0].host_port_allocation, ServicePortAllocation::Auto);
}

#[test]
fn service_manifest_with_instance_name_keeps_front_matter_parseable() {
    let content = r#"---
fungi: service/v1
id: docs
publish:
  main:
    tcp:
      port: 8080
    client:
      kind: raw
---

# Docs
"#;

    let (document, body) = document_with_instance_name(content, "published-docs").unwrap();
    assert_eq!(document.instance.as_deref(), Some("published-docs"));
    assert_eq!(body.as_deref(), Some("\n# Docs\n"));

    let manifest = document
        .into_service_manifest_for_node_with_service_paths(".", &roots("/tmp/fungi-home"), &policy(), &BTreeSet::new())
        .unwrap();

    assert_eq!(manifest.name, "published-docs");
    assert_eq!(manifest.definition_id.as_deref(), Some("docs"));
    assert_eq!(manifest.runtime, RuntimeKind::External);
}

#[test]
fn service_manifest_to_yaml_renders_current_fungi_service_format() {
    let yaml = r#"
fungi: service/v1
id: code-server
run:
  provider: docker
  source:
    image: ghcr.io/coder/code-server:4.117.0
publish:
  http:
    tcp:
      port: 8080
    client:
      kind: web
"#;

    let manifest = parse(yaml, ".", "/tmp/fungi-home").unwrap();
    assert_eq!(manifest.ports[0].host_port_allocation, ServicePortAllocation::Auto);

    let rendered = service_manifest_document(&manifest).unwrap();
    assert_eq!(rendered.fungi, "service/v1");
    assert_eq!(rendered.id, "code-server");
    assert_eq!(rendered.publish.len(), 1);
    assert_eq!(rendered.publish[0].1.tcp.port, 8080);

    let reparsed = rendered
        .into_service_manifest_for_node_with_service_paths(".", &roots("/tmp/fungi-home"), &policy(), &BTreeSet::new())
        .unwrap();
    assert_eq!(reparsed.ports[0].service_port, 8080);
    assert_eq!(reparsed.ports[0].host_port_allocation, ServicePortAllocation::Auto);
}

#[test]
fn service_manifest_to_yaml_preserves_fixed_wasmtime_publish_port() {
    let yaml = r#"
fungi: service/v1
id: fixed-web
run:
  provider: wasmtime
  source:
    url: https://example.test/fixed-web.wasm
publish:
  http:
    tcp:
      port: 8080
    client:
      kind: web
"#;

    let manifest = parse(yaml, ".", "/tmp/fungi-home").unwrap();
    assert_eq!(manifest.ports[0].service_port, 8080);
    assert_eq!(manifest.ports[0].host_port, 8080);
    assert_eq!(manifest.ports[0].host_port_allocation, ServicePortAllocation::Fixed);

    let rendered = service_manifest_document(&manifest).unwrap();
    assert_eq!(rendered.fungi, "service/v1");
    assert_eq!(rendered.publish[0].1.tcp.port, 8080);

    let reparsed = rendered
        .into_service_manifest_for_node_with_service_paths(".", &roots("/tmp/fungi-home"), &policy(), &BTreeSet::new())
        .unwrap();
    assert_eq!(reparsed.ports[0].host_port, 8080);
    assert_eq!(reparsed.ports[0].host_port_allocation, ServicePortAllocation::Fixed);
}

#[test]
fn peeked_name_is_the_parsed_manifest_name() {
    let front_matter = "---\nfungi: service/v1\nid: ' notes '\npublish:\n  main:\n    tcp:\n      host: localhost\n      port: 3000\n---\n# Notes\n";

    let peeked = peek_service_manifest_name(front_matter).unwrap();
    let manifest = parse(front_matter, "/srv", "/tmp/fungi-home").unwrap();

    assert_eq!(peeked, "notes");
    assert_eq!(manifest.name, peeked);
}

#[test]
fn upserted_service_loads_back_as_the_same_record() {
    let yaml = "fungi: service/v1\nid: notes\npublish:\n  main:\n    tcp:\n      host: 127.0.0.1\n      port: 3000\n";
    let manifest = parse(yaml, "/srv", "/tmp/fungi-home").unwrap();
    let mut store = ServiceStateStore::new("/tmp/fungi-home/services".into());
    let id = store.upsert_service_with_local_service_id(&manifest, DesiredServiceState::Running, None).unwrap();

    let state_file = store.service_state_file(&id, "2024-05-01T00:00:00Z".into()).unwrap();
    let read_state = check_service_state_file(state_file, &store.service_dir(&id)).unwrap();
    let reread = service_manifest_document(&manifest)
        .unwrap()
        .into_service_manifest_for_node_with_service_paths("/srv", &roots("/tmp/fungi-home"), &policy(), &BTreeSet::new())
        .unwrap();
    let mut loaded = ServiceStateStore::new("/tmp/fungi-home/services".into());
    loaded
        .register_loaded_service(PersistedService {
            local_service_id: read_state.local_service_id,
            manifest: reread,
            desired_state: read_state.desired_state,
        })
        .unwrap();

    let before = store.persisted_services();
    let after = loaded.persisted_services();
    assert_eq!(after.len(), 1);
    assert_eq!(after[0].local_service_id, before[0].local_service_id);
    assert_eq!(format!("{:?}", after[0].manifest), format!("{:?}", before[0].manifest));
    assert_eq!(after[0].desired_state, DesiredServiceState::Running);
    assert_eq!(loaded.desired_state("notes"), Some(DesiredServiceState::Running));
}
