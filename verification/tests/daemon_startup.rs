use fungi_daemon::startup::daemon_startup;

#[test]
fn startup_keeps_idle_connections_at_least_thirty_seconds() {
    assert_eq!(daemon_startup("/home/u/.fungi/config.toml", 5, true, true).idle_connection_timeout_secs, 30);
    assert_eq!(daemon_startup("/home/u/.fungi/config.toml", 600, true, true).idle_connection_timeout_secs, 600);
}

#[test]
fn startup_directories_sit_beside_the_config_file() {
    let startup = daemon_startup("/home/u/.fungi/config.toml", 60, true, false);
    assert_eq!(startup.fungi_home, "/home/u/.fungi");
    assert_eq!(startup.runtime_root, "/home/u/.fungi/runtime");
    assert_eq!(startup.services_dir, "/home/u/.fungi/services");
    assert!(!startup.wasmtime_enabled);
    assert!(daemon_startup("/c.toml", 60, true, true).wasmtime_enabled);

    let bare = daemon_startup("config.toml", 60, false, true);
    assert_eq!(bare.fungi_home, "");
    assert_eq!(bare.runtime_root, "runtime");
    assert!(!bare.wasmtime_enabled);

    let root = daemon_startup("/", 60, true, true);
    assert_eq!(root.fungi_home, ".");
    assert_eq!(root.services_dir, "./services");
}
