//! What a daemon derives from its configuration when it starts: how long
//! an idle connection is kept, where its home and runtime directories are,
//! and whether the wasmtime runtime is used.

use vstd::prelude::*;

use crate::paths::{join, join_path};
use crate::transfer_paths::{unix_components, TransferPathComponentView};

verus! {

/// The directory a Unix path is in, as `typed_path` takes its last
/// component off.
pub uninterp spec fn unix_parent_of(path: Seq<char>) -> Option<Seq<char>>;

/// `Utf8UnixPath::parent`: the path without its final component; none when
/// the path has no component or ends at the root.
#[verifier::external_body]
fn unix_parent(path: &str) -> (r: Option<String>)
    ensures
        match r {
            Some(p) => unix_parent_of(path@) == Some(p@),
            None => unix_parent_of(path@) is None,
        },
        r is None <==> (unix_components(path@).len() == 0 || unix_components(path@).last()
            == TransferPathComponentView::Root),
{
    typed_path::Utf8UnixPath::new(path).parent().map(|p| p.as_str().to_string())
}

/// The shortest time an idle connection is kept, in seconds.
pub const MIN_IDLE_CONNECTION_TIMEOUT_SECS: u64 = 30;

/// What a daemon derives from its configuration when it starts.
#[derive(Debug, Clone)]
pub struct DaemonStartup {
    /// How long an idle connection is kept: as configured, but not under
    /// the minimum.
    pub idle_connection_timeout_secs: u64,
    /// The directory of the configuration file, else `.`.
    pub fungi_home: String,
    /// Where the runtimes keep their files: `runtime` beside the
    /// configuration file.
    pub runtime_root: String,
    /// Where the state of managed services is kept: `services` in the home.
    pub services_dir: String,
    /// Whether services may run on wasmtime: enabled in the configuration
    /// and supported on this platform.
    pub wasmtime_enabled: bool,
}

/// The home directory of a configuration file; see `DaemonStartup`.
pub open spec fn home_of(config_file_path: Seq<char>) -> Seq<char> {
    match unix_parent_of(config_file_path) {
        Some(p) => p,
        None => "."@,
    }
}

/// What a daemon with this configuration starts with; see `DaemonStartup`.
pub fn daemon_startup(
    config_file_path: &str,
    idle_connection_timeout_secs: u64,
    wasmtime_configured: bool,
    wasmtime_supported: bool,
) -> (r: DaemonStartup)
    ensures
        r.idle_connection_timeout_secs == if idle_connection_timeout_secs < MIN_IDLE_CONNECTION_TIMEOUT_SECS {
            MIN_IDLE_CONNECTION_TIMEOUT_SECS
        } else {
            idle_connection_timeout_secs
        },
        r.fungi_home@ == home_of(config_file_path@),
        r.runtime_root@ == join(home_of(config_file_path@), "runtime"@),
        r.services_dir@ == join(home_of(config_file_path@), "services"@),
        r.wasmtime_enabled == (wasmtime_configured && wasmtime_supported),
{
    let fungi_home = match unix_parent(config_file_path) {
        Some(p) => p,
        None => ".".to_owned(),
    };
    let runtime_root = join_path(fungi_home.as_str(), "runtime");
    let services_dir = join_path(fungi_home.as_str(), "services");
    DaemonStartup {
        idle_connection_timeout_secs: if idle_connection_timeout_secs < MIN_IDLE_CONNECTION_TIMEOUT_SECS {
            MIN_IDLE_CONNECTION_TIMEOUT_SECS
        } else {
            idle_connection_timeout_secs
        },
        fungi_home,
        runtime_root,
        services_dir,
        wasmtime_enabled: wasmtime_configured && wasmtime_supported,
    }
}

} // verus!
