//! The external tools the supervisor coordinates, and the bridge's socket.
use vstd::prelude::*;

verus! {

/// Where the bridge listens; the file stays behind if the bridge dies uncleanly.
pub const SOCKET_PATH: &'static str = "/tmp/acomm.sock";

/// Which of the external tools are installed, and whether the bridge socket exists.
#[derive(Clone, Copy, Debug, PartialEq, Eq)]
pub struct ComponentStatus {
    pub amem_available: bool,
    pub abeat_available: bool,
    pub acomm_available: bool,
    pub bridge_running: bool,
}

/// Relies on `std::path::Path::exists`: whether something is at `path` right now.
/// The answer depends on the disk, so nothing is promised of it.
#[verifier::external_body]
fn path_exists(path: &str) -> (r: bool) {
    std::path::Path::new(path).exists()
}

/// Whether the bridge socket file exists. A socket left by a crashed bridge
/// counts too: this is no proof that the bridge accepts connections.
pub fn is_bridge_running() -> (r: bool) {
    path_exists(SOCKET_PATH)
}

} // verus!
