//! Tests of the Magellan X11 message codec.

use spnav_rs::error::Error;
use spnav_rs::event::{ButtonEvent, MotionEvent};
use spnav_rs::x11::{
    app_window_message, check_daemon_window_name, daemon_window_from_property,
    decode_client_message, sensitivity_message, ClientMessage, MagellanAtoms, CMD_APP_SENS,
    CMD_APP_WINDOW,
};
use spnav_rs::SpnavEvent;

const ATOMS: MagellanAtoms =
    MagellanAtoms { motion: 301, button_press: 302, button_release: 303, command: 304 };

#[test]
fn test_cmd_constants() {
    assert_eq!(CMD_APP_WINDOW, 27695);
    assert_eq!(CMD_APP_SENS, 27696);
}

#[test]
fn app_window_message_splits_the_window() {
    let d = app_window_message(0x0123_4567);
    assert_eq!(d, [0x0123, 0x4567, 27695, 0, 0, 0, 0, 0, 0, 0]);
}

#[test]
fn sensitivity_message_sends_low_half_first() {
    let bits = 1.5f32.to_bits();
    let d = sensitivity_message(bits);
    assert_eq!(d[0], (bits & 0xffff) as u16);
    assert_eq!(d[1], (bits >> 16) as u16);
    assert_eq!(d[2], 27696);
    assert_eq!(&d[3..], &[0u16; 7]);
    let back = f32::from_bits(((d[1] as u32) << 16) | d[0] as u32);
    assert_eq!(back, 1.5);
}

#[test]
fn motion_message_is_decoded_with_signed_items() {
    let msg = ClientMessage {
        format: 16,
        type_: 301,
        data: [0, 0, 10, 0xfff6, 300, 0x8000, 1, 2, 16, 0],
    };
    let ev = decode_client_message(&ATOMS, &msg);
    assert_eq!(
        ev,
        Some(SpnavEvent::Motion(MotionEvent {
            x: 10,
            y: -10,
            z: 300,
            rx: -32768,
            ry: 1,
            rz: 2,
            period: 16
        }))
    );
}

#[test]
fn button_messages_are_decoded() {
    let mut msg = ClientMessage { format: 16, type_: 302, data: [0, 0, 4, 0, 0, 0, 0, 0, 0, 0] };
    assert_eq!(
        decode_client_message(&ATOMS, &msg),
        Some(SpnavEvent::Button(ButtonEvent { press: true, bnum: 4 }))
    );
    msg.type_ = 303;
    assert_eq!(
        decode_client_message(&ATOMS, &msg),
        Some(SpnavEvent::Button(ButtonEvent { press: false, bnum: 4 }))
    );
}

#[test]
fn other_messages_are_not_events() {
    let msg = ClientMessage { format: 16, type_: 304, data: [0; 10] };
    assert_eq!(decode_client_message(&ATOMS, &msg), None);
    let msg = ClientMessage { format: 32, type_: 301, data: [0; 10] };
    assert_eq!(decode_client_message(&ATOMS, &msg), None);
}

#[test]
fn daemon_window_is_read_from_format_32_property() {
    let bytes = 0x0040_0012u32.to_ne_bytes().to_vec();
    assert_eq!(daemon_window_from_property(32, 1, &bytes).unwrap(), 0x0040_0012);
}

#[test]
fn empty_property_means_no_daemon() {
    assert!(matches!(daemon_window_from_property(32, 0, &vec![1, 2, 3, 4]), Err(Error::SocketNotFound)));
    assert!(matches!(daemon_window_from_property(32, 1, &Vec::new()), Err(Error::SocketNotFound)));
}

#[test]
fn wrong_property_format_is_reported() {
    match daemon_window_from_property(8, 4, &vec![1, 2, 3, 4]) {
        Err(Error::Protocol(m)) => assert_eq!(m, "unexpected CommandEvent property format: 8"),
        other => panic!("expected a protocol error, got {:?}", other),
    }
    match daemon_window_from_property(32, 1, &vec![1, 2]) {
        Err(Error::Protocol(m)) => assert_eq!(m, "unexpected CommandEvent property format: 32"),
        other => panic!("expected a protocol error, got {:?}", other),
    }
}

#[test]
fn daemon_window_name_is_checked() {
    assert!(check_daemon_window_name(&b"Magellan Window".to_vec()).is_ok());
    match check_daemon_window_name(&b"xterm".to_vec()) {
        Err(Error::Protocol(m)) => assert_eq!(m, "daemon window has unexpected WM_NAME: \"xterm\""),
        other => panic!("expected a protocol error, got {:?}", other),
    }
}

#[test]
fn daemon_window_name_with_invalid_bytes_is_shown_replaced() {
    match check_daemon_window_name(&vec![b'a', 0xff]) {
        Err(Error::Protocol(m)) => {
            assert_eq!(m, "daemon window has unexpected WM_NAME: \"a\u{fffd}\"")
        }
        other => panic!("expected a protocol error, got {:?}", other),
    }
}
