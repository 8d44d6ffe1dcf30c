use std::path::Path;

use yuiclaw::components::{is_bridge_running, ComponentStatus, SOCKET_PATH};

#[test]
fn test_bridge_not_running_for_random_path() {
    assert!(!Path::new("/tmp/yuiclaw_nonexistent_socket_test_xyz.sock").exists());
}

#[test]
fn bridge_check_agrees_with_socket_file() {
    assert_eq!(is_bridge_running(), Path::new(SOCKET_PATH).exists());
}

#[test]
fn component_status_holds_its_flags() {
    let s = ComponentStatus {
        amem_available: true,
        abeat_available: false,
        acomm_available: true,
        bridge_running: false,
    };
    assert!(s.amem_available && !s.abeat_available && s.acomm_available && !s.bridge_running);
}
