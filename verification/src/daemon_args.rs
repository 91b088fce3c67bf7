//! The daemon's command-line options.

use vstd::prelude::*;

verus! {

/// How the daemon was started.
#[derive(Debug, Clone, Default)]
pub struct DaemonArgs {
    /// Exit when standard input closes, as a subprocess does.
    pub exit_on_stdin_close: bool,
}

} // verus!
