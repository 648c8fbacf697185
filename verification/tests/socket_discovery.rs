//! Tests of the well-known socket path.

use spnav_rs::connection::{choose_socket_path, DEFAULT_SOCKET};

const DEFAULT_PATH: &str = "/var/run/spnav.sock";

#[test]
fn default_path_is_well_known() {
    assert_eq!(DEFAULT_PATH, "/var/run/spnav.sock");
    assert!(DEFAULT_PATH.starts_with('/'));
    assert!(DEFAULT_PATH.ends_with(".sock"));
}

#[test]
fn fallback_is_the_well_known_path() {
    assert_eq!(DEFAULT_SOCKET, DEFAULT_PATH);
    let chosen = choose_socket_path(None, None);
    assert!(chosen.starts_with('/'));
    assert_eq!(chosen, DEFAULT_PATH);
}
