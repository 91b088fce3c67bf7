use fungi_daemon::node_capabilities::{
    ensure_runtime_enabled,
    build_local_node_capabilities, build_local_runtime_status, runtime_supported, LocalRuntimeAvailability,
};
use fungi_daemon::model::RuntimeKind;
use fungi_daemon::recipes::{
    build_local_recipe_runtime_warnings, build_recipe_detail, cached_release_to_use, build_recipe_summaries, build_remote_recipe_runtime_warnings, build_recipe_summary, find_recipe, parse_recipe_runtime,
    release_asset_url, release_version_from_release_page_url, resolved_service_name, runtime_status_warning,
    OfficialRecipeRecord, ServiceRecipeRuntime,
};

fn record(id: &str, runtime: &str) -> OfficialRecipeRecord {
    OfficialRecipeRecord {
        id: id.to_string(),
        name: format!("{id} name"),
        description: "desc".to_string(),
        runtime: runtime.to_string(),
        manifest_asset: format!("{id}.fungi.yaml"),
        readme_asset: Some(format!("{id}.md")),
        homepage: None,
        tags: vec!["tag".to_string()],
        stability: "stable".to_string(),
    }
}

#[test]
fn maps_tcp_recipe_runtime_to_link() {
    assert_eq!(parse_recipe_runtime("tcp").unwrap(), ServiceRecipeRuntime::Link);
}

#[test]
fn recipe_runtimes_ignore_case_and_blanks() {
    assert_eq!(parse_recipe_runtime(" Docker ").unwrap(), ServiceRecipeRuntime::Docker);
    assert_eq!(parse_recipe_runtime("WASMTIME").unwrap(), ServiceRecipeRuntime::Wasmtime);
    assert_eq!(parse_recipe_runtime("link").unwrap(), ServiceRecipeRuntime::Link);
    assert_eq!(parse_recipe_runtime(" Podman ").unwrap_err(), "unsupported recipe runtime `podman`");
}

#[test]
fn parses_release_version_from_release_page_url() {
    let url = "https://github.com/enbop/fungi-service-recipes/releases/tag/v0.3.1";
    let segments: Vec<String> =
        ["enbop", "fungi-service-recipes", "releases", "tag", "v0.3.1"].iter().map(|s| s.to_string()).collect();

    assert_eq!(release_version_from_release_page_url(url, &segments).unwrap(), "v0.3.1");
}

#[test]
fn release_page_without_tag_is_refused() {
    let segments: Vec<String> = ["releases", "tag"].iter().map(|s| s.to_string()).collect();
    assert_eq!(
        release_version_from_release_page_url("u", &segments).unwrap_err(),
        "failed to determine recipe release version from u"
    );
}

#[test]
fn resolved_service_name_falls_back_to_recipe_id() {
    let r = record("filebrowser", "docker");
    assert_eq!(resolved_service_name(&r, None), "filebrowser");
    assert_eq!(resolved_service_name(&r, Some("  ")), "filebrowser");
    assert_eq!(resolved_service_name(&r, Some(" files ")), "files");
}

#[test]
fn recipe_summary_and_detail_for_a_release() {
    let r = record("filebrowser", "docker");
    let summary = build_recipe_summary(&r, "v1").unwrap();
    assert_eq!(summary.runtime, ServiceRecipeRuntime::Docker);
    assert_eq!(summary.source_label, "enbop/fungi-service-recipes");
    assert_eq!(summary.release_version, "v1");

    let detail = build_recipe_detail(&r, "v1", "/cache/filebrowser.fungi.yaml".into(), None).unwrap();
    assert_eq!(
        detail.remote_manifest_url,
        "https://github.com/enbop/fungi-service-recipes/releases/download/v1/filebrowser.fungi.yaml"
    );
    assert_eq!(
        detail.remote_readme_url.as_deref(),
        Some("https://github.com/enbop/fungi-service-recipes/releases/download/v1/filebrowser.md")
    );
    assert_eq!(release_asset_url("v2", "index.json"), "https://github.com/enbop/fungi-service-recipes/releases/download/v2/index.json");
    assert!(build_recipe_summary(&record("x", "podman"), "v1").is_err());
}

#[test]
fn recipe_lookup_and_listing() {
    let recipes = vec![record("a", "docker"), record("b", "tcp")];
    assert_eq!(find_recipe(&recipes, "b").unwrap(), 1);
    assert_eq!(find_recipe(&recipes, "c").unwrap_err(), "unknown recipe `c`");
    let summaries = build_recipe_summaries(&recipes, "v1").unwrap();
    assert_eq!(summaries.len(), 2);
    assert_eq!(summaries[1].runtime, ServiceRecipeRuntime::Link);
    assert!(build_recipe_summaries(&vec![record("a", "docker"), record("z", "vm")], "v1").is_err());
}

#[test]
fn runtime_warnings_explain_why_a_runtime_is_inactive() {
    assert!(runtime_status_warning("Wasmtime", true, true, true).is_empty());
    assert_eq!(runtime_status_warning("Wasmtime", false, true, false), vec!["Wasmtime runtime is disabled in local config"]);
    assert_eq!(
        runtime_status_warning("Docker", true, false, false),
        vec!["Docker runtime does not appear to be available locally"]
    );
    assert_eq!(
        runtime_status_warning("Docker", true, true, false),
        vec!["Docker runtime is configured but not active locally"]
    );
}

#[test]
fn local_capabilities_and_status() {
    let caps = build_local_node_capabilities(true);
    assert!(caps.runtimes.wasmtime);
    assert_eq!(caps.storage_roots, vec!["fungi_home".to_string()]);
    let status = build_local_runtime_status(true, true, false);
    assert!(!status.wasmtime.config_enabled);
    assert!(status.wasmtime.detected);
    assert!(!status.wasmtime.active);
    assert!(runtime_supported(RuntimeKind::External, false, false));
    assert!(!runtime_supported(RuntimeKind::Wasmtime, true, false));
}

fn availability(config_enabled: bool, detected: bool, active: bool) -> LocalRuntimeAvailability {
    LocalRuntimeAvailability { config_enabled, detected, active, endpoint: None }
}

#[test]
fn local_recipe_warnings_follow_the_runtime_status() {
    let docker = availability(true, false, false);
    let wasmtime = availability(true, true, true);
    assert_eq!(
        build_local_recipe_runtime_warnings(ServiceRecipeRuntime::Docker, &docker, &wasmtime),
        vec!["Docker runtime does not appear to be available locally".to_string()]
    );
    assert!(build_local_recipe_runtime_warnings(ServiceRecipeRuntime::Wasmtime, &docker, &wasmtime).is_empty());
    assert!(build_local_recipe_runtime_warnings(ServiceRecipeRuntime::Link, &docker, &docker).is_empty());
    assert_eq!(
        build_local_recipe_runtime_warnings(ServiceRecipeRuntime::Wasmtime, &docker, &availability(false, true, false)),
        vec!["Wasmtime runtime is disabled in local config".to_string()]
    );
}

#[test]
fn remote_recipe_warnings_follow_what_the_device_reports() {
    assert_eq!(
        build_remote_recipe_runtime_warnings(ServiceRecipeRuntime::Docker, "peer-a", Ok((false, true))),
        vec!["Target device peer-a does not report Docker runtime support".to_string()]
    );
    assert!(build_remote_recipe_runtime_warnings(ServiceRecipeRuntime::Wasmtime, "peer-a", Ok((false, true))).is_empty());
    assert_eq!(
        build_remote_recipe_runtime_warnings(ServiceRecipeRuntime::Link, "peer-a", Err("timeout".to_string())),
        vec!["Could not verify runtime compatibility for target device peer-a: timeout".to_string()]
    );
}

#[test]
fn runtimes_are_refused_when_not_enabled_here() {
    assert!(ensure_runtime_enabled(RuntimeKind::External, false, false).is_ok());
    assert!(ensure_runtime_enabled(RuntimeKind::Wasmtime, false, true).is_ok());
    assert!(ensure_runtime_enabled(RuntimeKind::Docker, true, false).is_ok());
    assert_eq!(
        ensure_runtime_enabled(RuntimeKind::Wasmtime, true, false).unwrap_err(),
        "wasmtime runtime is disabled in config"
    );
    assert_eq!(ensure_runtime_enabled(RuntimeKind::Docker, false, true).unwrap_err(), "docker runtime is not available");
}

#[test]
fn cached_recipe_release_is_used_unless_refreshing_or_missing() {
    assert_eq!(cached_release_to_use(false, Some("v1".into()), true), Some("v1".to_string()));
    assert_eq!(cached_release_to_use(true, Some("v1".into()), true), None);
    assert_eq!(cached_release_to_use(false, Some("v1".into()), false), None);
    assert_eq!(cached_release_to_use(false, None, true), None);
}
