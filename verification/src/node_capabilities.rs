//! What a node tells others it can run, and how its runtimes stand
//! locally.

use vstd::prelude::*;

use crate::model::RuntimeKind;

verus! {

/// Which runtimes a node can run services on.
#[derive(Debug, Clone)]
pub struct NodeRuntimeCapabilities {
    pub wasmtime: bool,
}

/// What a node tells other devices it can do.
#[derive(Debug, Clone)]
pub struct NodeCapabilities {
    pub runtimes: NodeRuntimeCapabilities,
    pub storage_roots: Vec<String>,
}

/// How one runtime stands on this node.
#[derive(Debug, Clone)]
pub struct LocalRuntimeAvailability {
    pub config_enabled: bool,
    pub detected: bool,
    pub active: bool,
    pub endpoint: Option<String>,
}

/// How the runtimes stand on this node.
#[derive(Debug, Clone)]
pub struct LocalRuntimeStatus {
    pub wasmtime: LocalRuntimeAvailability,
}

/// Whether the runtime control serves a runtime: wasmtime when it is
/// enabled, docker when it is enabled, external TCP services always.
pub fn runtime_supported(runtime: RuntimeKind, docker_enabled: bool, wasmtime_enabled: bool) -> (r: bool)
    ensures
        r == match runtime {
            RuntimeKind::Docker => docker_enabled,
            RuntimeKind::Wasmtime => wasmtime_enabled,
            RuntimeKind::External => true,
        },
{
    match runtime {
        RuntimeKind::Docker => docker_enabled,
        RuntimeKind::Wasmtime => wasmtime_enabled,
        RuntimeKind::External => true,
    }
}

/// Checks that a service's runtime may be used here: docker only when it
/// is available, wasmtime only when it is enabled.
pub fn ensure_runtime_enabled(runtime: RuntimeKind, docker_enabled: bool, wasmtime_enabled: bool) -> (r: Result<
    (),
    String,
>)
    ensures
        match runtime {
            RuntimeKind::Docker => if docker_enabled {
                r is Ok
            } else {
                r matches Err(e) && e@ == "docker runtime is not available"@
            },
            RuntimeKind::Wasmtime => if wasmtime_enabled {
                r is Ok
            } else {
                r matches Err(e) && e@ == "wasmtime runtime is disabled in config"@
            },
            RuntimeKind::External => r is Ok,
        },
{
    match runtime {
        RuntimeKind::Docker => if docker_enabled {
            Ok(())
        } else {
            Err("docker runtime is not available".to_owned())
        },
        RuntimeKind::Wasmtime => if wasmtime_enabled {
            Ok(())
        } else {
            Err("wasmtime runtime is disabled in config".to_owned())
        },
        RuntimeKind::External => Ok(()),
    }
}

/// The capabilities this node reports: wasmtime as the runtime control
/// supports it, and the Fungi home as its one storage root.
pub fn build_local_node_capabilities(wasmtime_supported: bool) -> (r: NodeCapabilities)
    ensures
        r.runtimes.wasmtime == wasmtime_supported,
        r.storage_roots@.len() == 1,
        r.storage_roots@[0]@ == "fungi_home"@,
{
    let mut roots: Vec<String> = Vec::new();
    roots.push("fungi_home".to_owned());
    NodeCapabilities { runtimes: NodeRuntimeCapabilities { wasmtime: wasmtime_supported }, storage_roots: roots }
}

/// How wasmtime stands here: enabled unless the config disables it,
/// detected when this build can run it, active when the runtime control
/// supports it; it has no endpoint.
pub fn build_local_runtime_status(config_disables_wasmtime: bool, wasmtime_detected: bool, wasmtime_active: bool) -> (r:
    LocalRuntimeStatus)
    ensures
        r.wasmtime.config_enabled == !config_disables_wasmtime,
        r.wasmtime.detected == wasmtime_detected,
        r.wasmtime.active == wasmtime_active,
        r.wasmtime.endpoint is None,
{
    LocalRuntimeStatus {
        wasmtime: LocalRuntimeAvailability {
            config_enabled: !config_disables_wasmtime,
            detected: wasmtime_detected,
            active: wasmtime_active,
            endpoint: None,
        },
    }
}

} // verus!
