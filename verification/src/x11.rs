//! The Magellan X11 protocol, spoken by spacenavd and by 3Dconnexion's 3dxsrv:
//! the client messages a client sends and how it reads the ones it receives.
//! Talking to the X server is left to the caller.

use vstd::prelude::*;
use vstd::endian::endianness;
use crate::error::Error;
use crate::event::{ButtonEvent, MotionEvent, SpnavEvent};
use crate::protocol::{i32_from_ne_bytes, string_from_utf8_lossy, utf8_lossy, word_value};
use crate::text::{decimal, decimal_string, debug_string, debug_text};

verus! {

/// Command code that registers the application window (format-16 client message).
pub const CMD_APP_WINDOW: i16 = 27695;
/// Command code that sets the application sensitivity.
pub const CMD_APP_SENS: i16 = 27696;

/// The data of the client message that registers window `win` with the daemon:
/// the window's high and low 16 bits, then [`CMD_APP_WINDOW`].
pub fn app_window_message(win: u32) -> (r: [u16; 10])
    ensures
        r@ == seq![
            ((win >> 16u32) & 0xFFFF) as u16,
            (win & 0xFFFF) as u16,
            CMD_APP_WINDOW as u16,
            0u16,
            0u16,
            0u16,
            0u16,
            0u16,
            0u16,
            0u16,
        ],
{
    let mut data = [0u16; 10];
    data[0] = ((win >> 16) & 0xFFFF) as u16;
    data[1] = (win & 0xFFFF) as u16;
    data[2] = CMD_APP_WINDOW as u16;
    assert(data@ =~= seq![
        ((win >> 16u32) & 0xFFFF) as u16,
        (win & 0xFFFF) as u16,
        CMD_APP_WINDOW as u16,
        0u16,
        0u16,
        0u16,
        0u16,
        0u16,
        0u16,
        0u16,
    ]);
    data
}

/// The data of the client message that sets the sensitivity whose `f32` bit
/// pattern is `bits`: the pattern's low and high 16 bits, then [`CMD_APP_SENS`].
pub fn sensitivity_message(bits: u32) -> (r: [u16; 10])
    ensures
        r@ == seq![
            (bits & 0xFFFF) as u16,
            ((bits >> 16u32) & 0xFFFF) as u16,
            CMD_APP_SENS as u16,
            0u16,
            0u16,
            0u16,
            0u16,
            0u16,
            0u16,
            0u16,
        ],
{
    let lo = (bits & 0xFFFF) as u16;
    let hi = ((bits >> 16) & 0xFFFF) as u16;
    let mut data = [0u16; 10];
    data[0] = lo;
    data[1] = hi;
    data[2] = CMD_APP_SENS as u16;
    assert(data@ =~= seq![
        (bits & 0xFFFF) as u16,
        ((bits >> 16u32) & 0xFFFF) as u16,
        CMD_APP_SENS as u16,
        0u16,
        0u16,
        0u16,
        0u16,
        0u16,
        0u16,
        0u16,
    ]);
    data
}

/// The message halves put back together give the bits: the daemon reads the
/// sensitivity that was sent, and the window that was registered.
pub proof fn lemma_message_halves(v: u32)
    ensures
        ((((v >> 16u32) & 0xFFFF) as u16) as u32) << 16u32 | (((v & 0xFFFF) as u16) as u32) == v,
{
    assert(((((v >> 16u32) & 0xFFFF) as u16) as u32) << 16u32 | (((v & 0xFFFF) as u16) as u32) == v)
        by (bit_vector);
}

/// The atoms that name the Magellan messages on the X server.
#[derive(Debug, Clone, Copy, PartialEq, Eq, Structural)]
pub struct MagellanAtoms {
    /// `MotionEvent`.
    pub motion: u32,
    /// `ButtonPressEvent`.
    pub button_press: u32,
    /// `ButtonReleaseEvent`.
    pub button_release: u32,
    /// `CommandEvent`.
    pub command: u32,
}

/// What the library reads of an X11 `ClientMessage` event.
#[derive(Debug, Clone, Copy)]
pub struct ClientMessage {
    /// Data format: 8, 16 or 32 bits per item.
    pub format: u8,
    /// The message type atom.
    pub type_: u32,
    /// The data, read as ten 16-bit items.
    pub data: [u16; 10],
}

/// The 16-bit item `x` read as a signed value.
pub open spec fn signed16(x: u16) -> i32 {
    (x as i16) as i32
}

/// The spnav event that a Magellan client message carries: motion in items 2..8
/// with the period in item 8, or the button number in item 2. Only format-16
/// messages of the three Magellan event types count.
pub open spec fn magellan_event(atoms: MagellanAtoms, msg: ClientMessage) -> Option<SpnavEvent> {
    let d = msg.data;
    if msg.format != 16 {
        None
    } else if msg.type_ == atoms.motion {
        Some(
            SpnavEvent::Motion(
                MotionEvent {
                    x: signed16(d[2]),
                    y: signed16(d[3]),
                    z: signed16(d[4]),
                    rx: signed16(d[5]),
                    ry: signed16(d[6]),
                    rz: signed16(d[7]),
                    period: d[8] as u32,
                },
            ),
        )
    } else if msg.type_ == atoms.button_press {
        Some(SpnavEvent::Button(ButtonEvent { press: true, bnum: signed16(d[2]) }))
    } else if msg.type_ == atoms.button_release {
        Some(SpnavEvent::Button(ButtonEvent { press: false, bnum: signed16(d[2]) }))
    } else {
        None
    }
}

/// The 16-bit item `x` read as a two's-complement signed value.
pub open spec fn signed_value(x: u16) -> int {
    if x < 0x8000 {
        x as int
    } else {
        x as int - 0x10000
    }
}

/// A format-16 Magellan motion message carries x, y, z, rx, ry, rz as signed items
/// 2 to 7 and the period, unsigned, in item 8; a button message carries the button
/// number as signed item 2, and its type tells a press from a release. Messages of
/// any other format, or of no Magellan event type, are no event.
pub proof fn lemma_magellan_message(atoms: MagellanAtoms, msg: ClientMessage)
    ensures
        msg.format != 16 ==> magellan_event(atoms, msg) is None,
        msg.format == 16 && msg.type_ == atoms.motion ==> (magellan_event(atoms, msg) matches Some(
            SpnavEvent::Motion(m),
        ) && m.x as int == signed_value(msg.data[2]) && m.y as int == signed_value(msg.data[3])
            && m.z as int == signed_value(msg.data[4]) && m.rx as int == signed_value(msg.data[5])
            && m.ry as int == signed_value(msg.data[6]) && m.rz as int == signed_value(msg.data[7])
            && m.period as int == msg.data[8] as int),
        msg.format == 16 && msg.type_ != atoms.motion && (msg.type_ == atoms.button_press
            || msg.type_ == atoms.button_release) ==> (magellan_event(atoms, msg) matches Some(
            SpnavEvent::Button(b),
        ) && b.bnum as int == signed_value(msg.data[2]) && (b.press <==> msg.type_
            == atoms.button_press)),
        msg.type_ != atoms.motion && msg.type_ != atoms.button_press && msg.type_
            != atoms.button_release ==> magellan_event(atoms, msg) is None,
{
    let d = msg.data;
    assert forall|x: u16| #[trigger] signed16(x) as int == signed_value(x) by {
        assert(((x as i16) as i32) as int == (if x < 0x8000u16 { x as int } else { x as int - 0x10000 }))
            by (bit_vector);
    }
    assert(signed16(d[2]) as int == signed_value(d[2]));
    assert(signed16(d[3]) as int == signed_value(d[3]));
    assert(signed16(d[4]) as int == signed_value(d[4]));
    assert(signed16(d[5]) as int == signed_value(d[5]));
    assert(signed16(d[6]) as int == signed_value(d[6]));
    assert(signed16(d[7]) as int == signed_value(d[7]));
}

/// Decode a client message as a spnav event, if it is a Magellan motion or
/// button message.
pub fn decode_client_message(atoms: &MagellanAtoms, msg: &ClientMessage) -> (r: Option<SpnavEvent>)
    ensures
        r == magellan_event(*atoms, *msg),
{
    if msg.format != 16 {
        return None;
    }
    let data = msg.data;
    if msg.type_ == atoms.motion {
        Some(
            SpnavEvent::Motion(
                MotionEvent {
                    x: data[2] as i16 as i32,
                    y: data[3] as i16 as i32,
                    z: data[4] as i16 as i32,
                    rx: data[5] as i16 as i32,
                    ry: data[6] as i16 as i32,
                    rz: data[7] as i16 as i32,
                    period: data[8] as u32,
                },
            ),
        )
    } else if msg.type_ == atoms.button_press {
        Some(SpnavEvent::Button(ButtonEvent { press: true, bnum: data[2] as i16 as i32 }))
    } else if msg.type_ == atoms.button_release {
        Some(SpnavEvent::Button(ButtonEvent { press: false, bnum: data[2] as i16 as i32 }))
    } else {
        None
    }
}

/// The daemon's window as the root window's `CommandEvent` property gives it: an
/// empty property means no daemon; otherwise a format-32 value of at least four
/// bytes holds the window id in native byte order, and any other format is a
/// protocol error naming it.
pub fn daemon_window_from_property(format: u8, value_len: u32, value: &Vec<u8>) -> (r: Result<
    u32,
    Error,
>)
    ensures
        value_len == 0 || value.len() == 0 ==> r matches Err(Error::SocketNotFound),
        value_len != 0 && value.len() != 0 && format == 32 && value.len() >= 4 ==> r == Ok::<
            u32,
            Error,
        >(word_value(value@.subrange(0, 4), endianness()) as u32),
        value_len != 0 && value.len() != 0 && !(format == 32 && value.len() >= 4) ==> (r matches Err(
            Error::Protocol(m),
        ) && m@ == "unexpected CommandEvent property format: "@ + decimal(format as int)),
{
    if value_len == 0 || value.len() == 0 {
        return Err(Error::SocketNotFound);
    }
    if format == 32 && value.len() >= 4 {
        let w = i32_from_ne_bytes([value[0], value[1], value[2], value[3]]);
        assert(seq![value@[0], value@[1], value@[2], value@[3]] =~= value@.subrange(0, 4));
        Ok(w as u32)
    } else {
        let mut msg = String::from_str("unexpected CommandEvent property format: ");
        let digits = decimal_string(format as i64);
        msg.append(digits.as_str());
        Err(Error::Protocol(msg))
    }
}

/// The name that the daemon's window carries.
pub open spec fn magellan_window_name() -> Seq<char> {
    "Magellan Window"@
}

/// Check the `WM_NAME` property of the daemon's window: its bytes, read as UTF-8
/// with invalid sequences replaced, must be `Magellan Window`; any other name is a
/// protocol error that shows it.
pub fn check_daemon_window_name(value: &Vec<u8>) -> (r: Result<(), Error>)
    ensures
        r is Ok <==> utf8_lossy(value@) == magellan_window_name(),
        r is Err ==> (r matches Err(Error::Protocol(m)) && m@ == "daemon window has unexpected WM_NAME: "@
            + debug_text(utf8_lossy(value@))),
{
    let name = string_from_utf8_lossy(value.as_slice());
    let expected = String::from_str("Magellan Window");
    if name == expected {
        Ok(())
    } else {
        let mut msg = String::from_str("daemon window has unexpected WM_NAME: ");
        let shown = debug_string(name.as_str());
        msg.append(shown.as_str());
        Err(Error::Protocol(msg))
    }
}

} // verus!
