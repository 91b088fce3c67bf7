use fungi_daemon::model::{RuntimeKind, ServiceManifest, ServiceRunMode, ServiceSource};
use fungi_daemon::service_state::{
    check_service_state_file, default_schema_version, local_service_id_candidate, local_service_id_from_service_dir, normalize_local_service_id,
    DesiredServiceState, PersistedService, ServiceStateFile, ServiceStateStore, SERVICE_STATE_SCHEMA_VERSION,
};

fn manifest(name: &str) -> ServiceManifest {
    ServiceManifest {
        name: name.into(),
        definition_id: None,
        runtime: RuntimeKind::Docker,
        run_mode: ServiceRunMode::Command,
        source: ServiceSource::Docker { image: "nginx:latest".into() },
        expose: None,
        env: Vec::new(),
        mounts: Vec::new(),
        ports: Vec::new(),
        command: Vec::new(),
        entrypoint: Vec::new(),
        working_dir: None,
        labels: Vec::new(),
    }
}

#[test]
fn upsert_assigns_a_generated_local_id() {
    let mut store = ServiceStateStore::new("/tmp/fungi/services".into());
    let id = store.upsert_service_with_local_service_id(&manifest("demo"), DesiredServiceState::Stopped, None).unwrap();

    let persisted = store.persisted_services();
    assert_eq!(persisted.len(), 1);
    assert_eq!(persisted[0].local_service_id, id);
    assert!(id.starts_with("svc_"));
    assert_eq!(id.len(), 30);
    assert_ne!(id, "demo");
    assert!(id[4..].chars().all(|c| c.is_ascii_digit() || c.is_ascii_lowercase()));
    assert_eq!(persisted[0].manifest.name, "demo");
    assert_eq!(store.desired_state("demo"), Some(DesiredServiceState::Stopped));
    assert_eq!(store.service_dir(&id), format!("/tmp/fungi/services/{id}"));
}

#[test]
fn upsert_keeps_the_id_of_a_stored_service() {
    let mut store = ServiceStateStore::new("/s".into());
    let id = store.upsert_service_with_local_service_id(&manifest("demo"), DesiredServiceState::Stopped, Some(" svc_a ")).unwrap();
    assert_eq!(id, "svc_a");
    assert_eq!(store.preview_local_service_id("demo").unwrap(), "svc_a");
    let again = store.upsert_service_with_local_service_id(&manifest("demo"), DesiredServiceState::Running, None).unwrap();
    assert_eq!(again, "svc_a");
    assert_eq!(store.persisted_services().len(), 1);
    assert_eq!(store.desired_state("demo"), Some(DesiredServiceState::Running));
}

#[test]
fn upsert_refuses_a_conflicting_id() {
    let mut store = ServiceStateStore::new("/s".into());
    store.upsert_service_with_local_service_id(&manifest("a"), DesiredServiceState::Stopped, Some("svc_a")).unwrap();
    let taken = store.upsert_service_with_local_service_id(&manifest("b"), DesiredServiceState::Stopped, Some("svc_a"));
    assert_eq!(taken.unwrap_err(), "local_service_id 'svc_a' is already assigned to service 'a'");
    let mismatch = store.upsert_service_with_local_service_id(&manifest("a"), DesiredServiceState::Stopped, Some("svc_b"));
    assert_eq!(mismatch.unwrap_err(), "local_service_id mismatch for service 'a': expected 'svc_a', got 'svc_b'");
    let invalid = store.upsert_service_with_local_service_id(&manifest("c"), DesiredServiceState::Stopped, Some("bad id"));
    assert!(invalid.is_err());
    assert_eq!(store.persisted_services().len(), 1);
}

#[test]
fn services_are_kept_in_local_id_order() {
    let mut store = ServiceStateStore::new("/s".into());
    store.upsert_service_with_local_service_id(&manifest("z"), DesiredServiceState::Stopped, Some("svc_c")).unwrap();
    store.upsert_service_with_local_service_id(&manifest("y"), DesiredServiceState::Stopped, Some("svc_a")).unwrap();
    store.upsert_service_with_local_service_id(&manifest("x"), DesiredServiceState::Stopped, Some("svc_b")).unwrap();
    let ids: Vec<String> = store.persisted_services().into_iter().map(|s| s.local_service_id).collect();
    assert_eq!(ids, vec!["svc_a", "svc_b", "svc_c"]);
}

#[test]
fn desired_state_changes_only_the_named_service() {
    let mut store = ServiceStateStore::new("/s".into());
    store.upsert_service_with_local_service_id(&manifest("a"), DesiredServiceState::Stopped, Some("svc_a")).unwrap();
    store.upsert_service_with_local_service_id(&manifest("b"), DesiredServiceState::Stopped, Some("svc_b")).unwrap();
    store.set_desired_state("a", DesiredServiceState::Running).unwrap();
    assert_eq!(store.desired_state("a"), Some(DesiredServiceState::Running));
    assert_eq!(store.desired_state("b"), Some(DesiredServiceState::Stopped));
    assert_eq!(store.set_desired_state("c", DesiredServiceState::Running).unwrap_err(), "persisted service not found: c");
    let file = store.service_state_file("svc_a", "now".into()).unwrap();
    assert_eq!(file.desired_state, DesiredServiceState::Running);
    assert_eq!(file.schema_version, SERVICE_STATE_SCHEMA_VERSION);
    assert!(store.service_state_file("svc_x", "now".into()).is_err());
}

#[test]
fn remove_service_forgets_only_that_service() {
    let mut store = ServiceStateStore::new("/s".into());
    store.upsert_service_with_local_service_id(&manifest("a"), DesiredServiceState::Stopped, Some("svc_a")).unwrap();
    store.upsert_service_with_local_service_id(&manifest("b"), DesiredServiceState::Running, Some("svc_b")).unwrap();
    assert_eq!(store.remove_service("a").as_deref(), Some("svc_a"));
    assert_eq!(store.desired_state("a"), None);
    assert_eq!(store.desired_state("b"), Some(DesiredServiceState::Running));
    assert_eq!(store.remove_service("a"), None);
}

#[test]
fn loaded_services_reject_duplicates() {
    let mut store = ServiceStateStore::new("/s".into());
    let record = |id: &str, name: &str| PersistedService {
        local_service_id: id.into(),
        manifest: manifest(name),
        desired_state: DesiredServiceState::Stopped,
    };
    store.register_loaded_service(record("svc_a", "a")).unwrap();
    assert_eq!(
        store.register_loaded_service(record("svc_b", "a")).unwrap_err(),
        "Duplicate managed service name 'a' for local ids 'svc_a' and 'svc_b'"
    );
    assert_eq!(
        store.register_loaded_service(record("svc_a", "b")).unwrap_err(),
        "Duplicate managed service local id in /s"
    );
    assert_eq!(store.persisted_services().len(), 1);
}

#[test]
fn local_ids_are_checked_and_trimmed() {
    assert_eq!(normalize_local_service_id(" svc-1_a ", "id").unwrap(), "svc-1_a");
    assert_eq!(normalize_local_service_id("  ", "id").unwrap_err(), "id must not be empty");
    assert!(normalize_local_service_id("a/b", "id").is_err());
    assert_eq!(local_service_id_from_service_dir("/x/services/svc_a/").unwrap(), "svc_a");
    assert_eq!(default_schema_version(), 2);
}

#[test]
fn state_files_must_match_their_directory() {
    let file = ServiceStateFile::default_for_local_service_id("svc_a".into());
    assert_eq!(file.desired_state, DesiredServiceState::Stopped);
    assert!(check_service_state_file(file.clone(), "/s/svc_a").is_ok());
    assert!(check_service_state_file(file.clone(), "/s/svc_b").is_err());
    let mut old = file;
    old.schema_version = 1;
    assert!(check_service_state_file(old, "/s/svc_a").is_err());
}

#[test]
fn written_state_files_read_back_from_their_directory() {
    let mut store = ServiceStateStore::new("/var/lib/fungi/services/".to_string());
    store.upsert_service_with_local_service_id(&manifest("web"), DesiredServiceState::Running, Some("svc_web")).unwrap();
    let written = store.service_state_file("svc_web", "2024-05-01T00:00:00Z".into()).unwrap();
    let dir = store.service_dir("svc_web");
    assert_eq!(dir, "/var/lib/fungi/services/svc_web");

    let read = check_service_state_file(written.clone(), &dir).unwrap();

    assert_eq!(read.local_service_id, "svc_web");
    assert_eq!(read.desired_state, DesiredServiceState::Running);
    assert_eq!(read.updated_at, "2024-05-01T00:00:00Z");
    assert_eq!(read.schema_version, written.schema_version);
}

#[test]
fn generated_ids_are_the_lowercased_ulid_after_svc() {
    assert_eq!(local_service_id_candidate("01ARZ3NDEKTSV4RRFFQ69G5FAV"), "svc_01arz3ndektsv4rrffq69g5fav");
}
