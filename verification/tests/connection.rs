//! Tests of socket path discovery and of the handshake's computations.

use spnav_rs::connection::{
    change_proto_request, choose_socket_path, negotiated_version, socket_from_config,
    CONFIG_FILE, DEFAULT_SOCKET,
};
use spnav_rs::protocol::REQ_TAG;
use std::path::PathBuf;

fn lines(text: &str) -> Vec<Vec<char>> {
    text.lines().map(|l| l.chars().collect()).collect()
}

fn config_socket_of(text: &str) -> Option<String> {
    socket_from_config(&lines(text)).map(|v| v.into_iter().collect())
}

#[test]
fn default_socket_path_is_var_run() {
    let default_path = "/var/run/spnav.sock";
    assert!(default_path.starts_with("/var/run/"));
    assert!(default_path.ends_with(".sock"));
}

#[test]
fn spnav_socket_env_var_format() {
    let valid_paths = vec![
        "/var/run/spnav.sock",
        "/tmp/spnav.sock",
        "/run/user/1000/spnav.sock",
        "/home/user/.spnav.sock",
    ];
    for path in valid_paths {
        let pb = PathBuf::from(path);
        assert!(pb.is_absolute(), "path should be absolute: {}", path);
        assert!(
            path.ends_with(".sock") || path.ends_with(".socket"),
            "path should end with .sock: {}",
            path
        );
    }
}

#[test]
fn library_default_and_config_paths() {
    assert_eq!(DEFAULT_SOCKET, "/var/run/spnav.sock");
    assert_eq!(CONFIG_FILE, "/etc/spnavrc");
}

#[test]
fn environment_value_wins() {
    let r = choose_socket_path(
        Some("/tmp/custom_spnav_test.sock".to_string()),
        Some("/from/config.sock".to_string()),
    );
    assert_eq!(r, "/tmp/custom_spnav_test.sock");
}

#[test]
fn empty_environment_value_is_kept() {
    let r = choose_socket_path(Some(String::new()), Some("/from/config.sock".to_string()));
    assert_eq!(r, "");
}

#[test]
fn config_value_used_without_environment() {
    let r = choose_socket_path(None, Some("/from/config.sock".to_string()));
    assert_eq!(r, "/from/config.sock");
}

#[test]
fn default_used_when_nothing_names_a_path() {
    assert_eq!(choose_socket_path(None, None), "/var/run/spnav.sock");
}

#[test]
fn config_socket_line_is_found() {
    assert_eq!(config_socket_of("socket = /tmp/s.sock\n"), Some("/tmp/s.sock".to_string()));
}

#[test]
fn config_skips_comments_blank_lines_and_other_keys() {
    let text = "# socket = /commented.sock\n\n   \nsensitivity = 2.0\n  socket=/run/x.sock  \n";
    assert_eq!(config_socket_of(text), Some("/run/x.sock".to_string()));
}

#[test]
fn config_empty_value_is_skipped() {
    let text = "socket =   \nsocket = /second.sock\n";
    assert_eq!(config_socket_of(text), Some("/second.sock".to_string()));
}

#[test]
fn config_key_must_match_exactly() {
    assert_eq!(config_socket_of("sockets = /a.sock\nsock = /b.sock\n"), None);
    assert_eq!(config_socket_of("socket /no/equals.sock\n"), None);
}

#[test]
fn config_value_keeps_later_equals_signs() {
    assert_eq!(config_socket_of("socket = /a=b.sock"), Some("/a=b.sock".to_string()));
}

#[test]
fn config_first_socket_line_wins() {
    let text = "socket = /first.sock\nsocket = /second.sock\n";
    assert_eq!(config_socket_of(text), Some("/first.sock".to_string()));
}

#[test]
fn config_without_lines_names_nothing() {
    assert_eq!(socket_from_config(&Vec::new()), None);
}

#[test]
fn handshake_request_is_tagged_change_proto() {
    let bytes = change_proto_request();
    assert_eq!(i32::from_ne_bytes(bytes), 0x7faa_5501);
}

fn handshake_answer(word: i32) -> [u8; 4] {
    (word as u32).to_ne_bytes()
}

#[test]
fn negotiated_version_from_response() {
    assert_eq!(negotiated_version(Some(handshake_answer(REQ_TAG | 1))), Some(1));
}

#[test]
fn negotiated_version_is_clamped_to_what_the_client_speaks() {
    assert_eq!(negotiated_version(Some(handshake_answer(REQ_TAG | 2))), Some(1));
    assert_eq!(negotiated_version(Some(handshake_answer(REQ_TAG | 0xff))), Some(1));
    assert_eq!(negotiated_version(Some(handshake_answer(REQ_TAG | 0x5500 | 7))), Some(1));
}

#[test]
fn negotiated_version_zero_is_kept() {
    assert_eq!(negotiated_version(Some(handshake_answer(REQ_TAG))), Some(0));
}

#[test]
fn negotiated_version_without_answer_is_none() {
    assert_eq!(negotiated_version(None), None);
}

#[test]
fn negotiated_version_ignores_untagged_words() {
    assert_eq!(negotiated_version(Some(handshake_answer(1))), None);
    assert_eq!(negotiated_version(Some([0; 4])), None);
}

#[test]
fn handshake_with_a_v1_daemon() {
    assert_eq!(change_proto_request(), (0x7faa_5501u32).to_ne_bytes());
    let answer = ((REQ_TAG | 1) as u32).to_ne_bytes();
    assert_eq!(negotiated_version(Some(answer)), Some(1));
}
