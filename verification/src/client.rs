//! What the client sends and how it reads what comes back: the request frame of
//! each operation, the decoding of each reply, and the decisions of the event loop
//! that shares the daemon's socket between events and replies.

use vstd::prelude::*;
use vstd::endian::endianness;
use vstd::utf8::{decode_utf8, valid_utf8};
use crate::error::{connection_closed, Error};
use crate::event::{device_type_of, DeviceType, EventType, SpnavEvent};
use crate::evmask::EventMask;
use crate::protocol::{
    event_from_frame, event_of, feed_step, frame_value, make_request, overruns, req, utf8_lossy,
    DecoderState, Fed, ReqResp, StringDecoder,
};
use crate::text::{decimal, decimal_string};

verus! {

/// LED state for the device.
#[derive(Debug, Clone, Copy, PartialEq, Eq, Structural)]
pub enum LedState {
    /// LED is off.
    Off,
    /// LED is on.
    On,
    /// LED is controlled automatically by spacenavd.
    Auto,
}

/// The value that stands for an LED state on the wire.
pub open spec fn led_code(state: LedState) -> i32 {
    match state {
        LedState::Off => 0,
        LedState::On => 1,
        LedState::Auto => 2,
    }
}

impl LedState {
    /// The value that stands for this state on the wire (0, 1 or 2).
    pub fn raw(self) -> (r: i32)
        ensures
            r == led_code(self),
    {
        match self {
            LedState::Off => 0,
            LedState::On => 1,
            LedState::Auto => 2,
        }
    }
}

/// The fixed-size requests of the client, one variant per operation; sensitivities
/// travel as the bit patterns of their `f32` values.
#[derive(Debug, Clone, Copy)]
pub enum Request {
    /// Per-client sensitivity.
    SetSensitivity(i32),
    /// Per-client event mask.
    SetEventMask(EventMask),
    /// Query the per-client event mask.
    GetEventMask,
    /// Query the number of buttons.
    DeviceButtons,
    /// Query the number of axes.
    DeviceAxes,
    /// Query the USB vendor and product ids.
    DeviceUsbId,
    /// Query the device type.
    DeviceType,
    /// Reset the configuration to defaults.
    ConfigReset,
    /// Restore the configuration from persistent storage.
    ConfigRestore,
    /// Save the configuration to persistent storage.
    ConfigSave,
    /// Global sensitivity.
    SetGlobalSensitivity(i32),
    /// Query the global sensitivity.
    GetGlobalSensitivity,
    /// Per-axis sensitivity of the six axes.
    SetAxisSensitivity([i32; 6]),
    /// Query the per-axis sensitivity.
    GetAxisSensitivity,
    /// Deadzone of a device axis: axis, width.
    SetDeadzone(i32, i32),
    /// Query the deadzone of a device axis.
    GetDeadzone(i32),
    /// Axis inversion bits: bit `i` inverts axis `i`.
    SetInvert(i32),
    /// Query the axis inversion bits.
    GetInvert,
    /// Axis mapping: device axis, target axis.
    SetAxisMap(i32, i32),
    /// Query the mapping of a device axis.
    GetAxisMap(i32),
    /// Button mapping: device button, target button.
    SetButtonMap(i32, i32),
    /// Query the mapping of a device button.
    GetButtonMap(i32),
    /// Button action: button, action code.
    SetButtonAction(i32, i32),
    /// Query the action of a button.
    GetButtonAction(i32),
    /// Keyboard mapping: button, X11 keysym.
    SetKeyMap(i32, i32),
    /// Query the keyboard mapping of a button.
    GetKeyMap(i32),
    /// Y/Z axis swap.
    SetSwapYz(bool),
    /// Query the Y/Z axis swap.
    GetSwapYz,
    /// LED state.
    SetLed(LedState),
    /// Query the LED state.
    GetLed,
    /// Device grabbing.
    SetGrab(bool),
    /// Query device grabbing.
    GetGrab,
    /// Button repeat interval in milliseconds; negative disables repeat.
    SetRepeat(i32),
    /// Query the button repeat interval.
    GetRepeat,
}

/// Data words that hold `a` in word 0 and zeros elsewhere.
pub open spec fn words1(a: i32) -> [i32; 7] {
    [a, 0, 0, 0, 0, 0, 0]
}

/// Data words that hold `a` and `b` in words 0 and 1 and zeros elsewhere.
pub open spec fn words2(a: i32, b: i32) -> [i32; 7] {
    [a, b, 0, 0, 0, 0, 0]
}

/// Data words that hold bit `i` of `bits` in word `i`, for the six axes.
pub open spec fn invert_words(bits: i32) -> [i32; 7] {
    [
        (bits >> 0usize) & 1,
        (bits >> 1usize) & 1,
        (bits >> 2usize) & 1,
        (bits >> 3usize) & 1,
        (bits >> 4usize) & 1,
        (bits >> 5usize) & 1,
        0,
    ]
}

/// The request code and the data words that a request travels with.
pub open spec fn request_parts(r: Request) -> (i32, [i32; 7]) {
    match r {
        Request::SetSensitivity(s) => (req::SET_SENS, words1(s)),
        Request::SetEventMask(m) => (req::SET_EVMASK, words1(m.value() as i32)),
        Request::GetEventMask => (req::GET_EVMASK, words1(0)),
        Request::DeviceButtons => (req::DEV_NBUTTONS, words1(0)),
        Request::DeviceAxes => (req::DEV_NAXES, words1(0)),
        Request::DeviceUsbId => (req::DEV_USBID, words1(0)),
        Request::DeviceType => (req::DEV_TYPE, words1(0)),
        Request::ConfigReset => (req::CFG_RESET, words1(0)),
        Request::ConfigRestore => (req::CFG_RESTORE, words1(0)),
        Request::ConfigSave => (req::CFG_SAVE, words1(0)),
        Request::SetGlobalSensitivity(s) => (req::SCFG_SENS, words1(s)),
        Request::GetGlobalSensitivity => (req::GCFG_SENS, words1(0)),
        Request::SetAxisSensitivity(v) => (req::SCFG_SENS_AXIS, [v[0], v[1], v[2], v[3], v[4], v[5], 0]),
        Request::GetAxisSensitivity => (req::GCFG_SENS_AXIS, words1(0)),
        Request::SetDeadzone(a, d) => (req::SCFG_DEADZONE, words2(a, d)),
        Request::GetDeadzone(a) => (req::GCFG_DEADZONE, words1(a)),
        Request::SetInvert(bits) => (req::SCFG_INVERT, invert_words(bits)),
        Request::GetInvert => (req::GCFG_INVERT, words1(0)),
        Request::SetAxisMap(a, m) => (req::SCFG_AXISMAP, words2(a, m)),
        Request::GetAxisMap(a) => (req::GCFG_AXISMAP, words1(a)),
        Request::SetButtonMap(b, m) => (req::SCFG_BNMAP, words2(b, m)),
        Request::GetButtonMap(b) => (req::GCFG_BNMAP, words1(b)),
        Request::SetButtonAction(b, a) => (req::SCFG_BNACTION, words2(b, a)),
        Request::GetButtonAction(b) => (req::GCFG_BNACTION, words1(b)),
        Request::SetKeyMap(b, k) => (req::SCFG_KBMAP, words2(b, k)),
        Request::GetKeyMap(b) => (req::GCFG_KBMAP, words1(b)),
        Request::SetSwapYz(on) => (req::SCFG_SWAPYZ, words1(if on { 1 } else { 0 })),
        Request::GetSwapYz => (req::GCFG_SWAPYZ, words1(0)),
        Request::SetLed(s) => (req::SCFG_LED, words1(led_code(s))),
        Request::GetLed => (req::GCFG_LED, words1(0)),
        Request::SetGrab(on) => (req::SCFG_GRAB, words1(if on { 1 } else { 0 })),
        Request::GetGrab => (req::GCFG_GRAB, words1(0)),
        Request::SetRepeat(ms) => (req::SCFG_REPEAT, words1(if ms < 0 { -1i32 } else { ms })),
        Request::GetRepeat => (req::GCFG_REPEAT, words1(0)),
    }
}

impl Request {
    /// The tagged frame that carries this request.
    pub fn frame(&self) -> (r: ReqResp)
        ensures
            r.type_ == crate::protocol::REQ_TAG | request_parts(*self).0,
            r.data == request_parts(*self).1,
    {
        let mut data = [0i32; 7];
        let code = match *self {
            Request::SetSensitivity(s) => {
                data[0] = s;
                req::SET_SENS
            },
            Request::SetEventMask(m) => {
                data[0] = m.bits() as i32;
                req::SET_EVMASK
            },
            Request::GetEventMask => req::GET_EVMASK,
            Request::DeviceButtons => req::DEV_NBUTTONS,
            Request::DeviceAxes => req::DEV_NAXES,
            Request::DeviceUsbId => req::DEV_USBID,
            Request::DeviceType => req::DEV_TYPE,
            Request::ConfigReset => req::CFG_RESET,
            Request::ConfigRestore => req::CFG_RESTORE,
            Request::ConfigSave => req::CFG_SAVE,
            Request::SetGlobalSensitivity(s) => {
                data[0] = s;
                req::SCFG_SENS
            },
            Request::GetGlobalSensitivity => req::GCFG_SENS,
            Request::SetAxisSensitivity(v) => {
                let mut i: usize = 0;
                while i < 6
                    invariant
                        0 <= i <= 6,
                        forall|j: int| 0 <= j < i ==> data[j] == v[j],
                        forall|j: int| i <= j < 7 ==> data[j] == 0,
                    decreases 6 - i,
                {
                    data[i] = v[i];
                    i += 1;
                }
                req::SCFG_SENS_AXIS
            },
            Request::GetAxisSensitivity => req::GCFG_SENS_AXIS,
            Request::SetDeadzone(a, d) => {
                data[0] = a;
                data[1] = d;
                req::SCFG_DEADZONE
            },
            Request::GetDeadzone(a) => {
                data[0] = a;
                req::GCFG_DEADZONE
            },
            Request::SetInvert(bits) => {
                let mut i: usize = 0;
                while i < 6
                    invariant
                        0 <= i <= 6,
                        forall|j: int| 0 <= j < i ==> data[j] == invert_words(bits)[j],
                        forall|j: int| i <= j < 7 ==> data[j] == 0,
                    decreases 6 - i,
                {
                    data[i] = (bits >> i) & 1;
                    i += 1;
                }
                req::SCFG_INVERT
            },
            Request::GetInvert => req::GCFG_INVERT,
            Request::SetAxisMap(a, m) => {
                data[0] = a;
                data[1] = m;
                req::SCFG_AXISMAP
            },
            Request::GetAxisMap(a) => {
                data[0] = a;
                req::GCFG_AXISMAP
            },
            Request::SetButtonMap(b, m) => {
                data[0] = b;
                data[1] = m;
                req::SCFG_BNMAP
            },
            Request::GetButtonMap(b) => {
                data[0] = b;
                req::GCFG_BNMAP
            },
            Request::SetButtonAction(b, a) => {
                data[0] = b;
                data[1] = a;
                req::SCFG_BNACTION
            },
            Request::GetButtonAction(b) => {
                data[0] = b;
                req::GCFG_BNACTION
            },
            Request::SetKeyMap(b, k) => {
                data[0] = b;
                data[1] = k;
                req::SCFG_KBMAP
            },
            Request::GetKeyMap(b) => {
                data[0] = b;
                req::GCFG_KBMAP
            },
            Request::SetSwapYz(on) => {
                data[0] = if on {
                    1
                } else {
                    0
                };
                req::SCFG_SWAPYZ
            },
            Request::GetSwapYz => req::GCFG_SWAPYZ,
            Request::SetLed(s) => {
                data[0] = s.raw();
                req::SCFG_LED
            },
            Request::GetLed => req::GCFG_LED,
            Request::SetGrab(on) => {
                data[0] = if on {
                    1
                } else {
                    0
                };
                req::SCFG_GRAB
            },
            Request::GetGrab => req::GCFG_GRAB,
            Request::SetRepeat(ms) => {
                data[0] = if ms < 0 {
                    -1
                } else {
                    ms
                };
                req::SCFG_REPEAT
            },
            Request::GetRepeat => req::GCFG_REPEAT,
        };
        assert(data =~= request_parts(*self).1);
        make_request(code, data)
    }
}

} // verus!

verus! {

/// The event mask that a `GetEventMask` reply carries: the low 16 bits of word 0.
pub fn event_mask_from_reply(rr: &ReqResp) -> (r: EventMask)
    ensures
        r.value() == rr.data[0] as u16,
{
    EventMask::from_bits_truncate(rr.data[0] as u16)
}

/// The flag of axis `i` in an inversion reply: `0x20` when word `i` is not zero.
pub open spec fn invert_flag(data: [i32; 7], i: int) -> i32 {
    if data[i] != 0 {
        0x20
    } else {
        0
    }
}

/// The inversion bits a reply stands for: bit `i` is set when word `i` is not zero.
pub open spec fn invert_bits_of(data: [i32; 7]) -> i32 {
    (invert_flag(data, 0) >> 5usize) | (invert_flag(data, 1) >> 4usize) | (invert_flag(data, 2)
        >> 3usize) | (invert_flag(data, 3) >> 2usize) | (invert_flag(data, 4) >> 1usize)
        | invert_flag(data, 5)
}

/// The value of the accumulator after `i` steps of collecting inversion flags.
spec fn invert_acc(data: [i32; 7], i: int) -> i32
    decreases i,
{
    if i <= 0 {
        0
    } else {
        (invert_acc(data, i - 1) >> 1usize) | invert_flag(data, i - 1)
    }
}

proof fn lemma_invert_acc(data: [i32; 7])
    ensures
        invert_acc(data, 6) == invert_bits_of(data),
{
    reveal_with_fuel(invert_acc, 7);
    let c0 = invert_flag(data, 0);
    let c1 = invert_flag(data, 1);
    let c2 = invert_flag(data, 2);
    let c3 = invert_flag(data, 3);
    let c4 = invert_flag(data, 4);
    let c5 = invert_flag(data, 5);
    let a1 = (invert_acc(data, 0) >> 1usize) | c0;
    let a2 = (a1 >> 1usize) | c1;
    let a3 = (a2 >> 1usize) | c2;
    let a4 = (a3 >> 1usize) | c3;
    let a5 = (a4 >> 1usize) | c4;
    let a6 = (a5 >> 1usize) | c5;
    assert(a6 == (c0 >> 5usize) | (c1 >> 4usize) | (c2 >> 3usize) | (c3 >> 2usize) | (c4 >> 1usize)
        | c5) by (bit_vector)
        requires
            a1 == (0i32 >> 1usize) | c0,
            a2 == (a1 >> 1usize) | c1,
            a3 == (a2 >> 1usize) | c2,
            a4 == (a3 >> 1usize) | c3,
            a5 == (a4 >> 1usize) | c4,
            a6 == (a5 >> 1usize) | c5,
            c0 == 0 || c0 == 0x20,
            c1 == 0 || c1 == 0x20,
            c2 == 0 || c2 == 0x20,
            c3 == 0 || c3 == 0x20,
            c4 == 0 || c4 == 0x20,
            c5 == 0 || c5 == 0x20,
    ;
}

/// The axis inversion bits that a `GetInvert` reply carries: bit `i` is set when
/// word `i` is not zero, for the six axes.
pub fn invert_bits_from_reply(rr: &ReqResp) -> (r: i32)
    ensures
        r == invert_bits_of(rr.data),
{
    let mut res = 0i32;
    let mut i: usize = 0;
    while i < 6
        invariant
            0 <= i <= 6,
            res == invert_acc(rr.data, i as int),
        decreases 6 - i,
    {
        res = (res >> 1) | (if rr.data[i] != 0 {
            0x20
        } else {
            0
        });
        i += 1;
    }
    proof {
        lemma_invert_acc(rr.data);
    }
    res
}

/// The inversion words of `SetInvert(bits)`: word `i` is 1 when bit `i` of `bits`
/// is set and 0 otherwise, for the six axes; word 6 is 0.
pub proof fn lemma_invert_words(bits: i32)
    ensures
        forall|i: int| 0 <= i < 6 ==> (#[trigger] invert_words(bits)[i] == 1 <==> bits & (1i32 << (i as usize)) != 0),
        forall|i: int| 0 <= i < 6 ==> (#[trigger] invert_words(bits)[i] == 0 || invert_words(bits)[i] == 1),
        invert_words(bits)[6] == 0,
{
    assert(((bits >> 0usize) & 1 == 1 <==> bits & (1i32 << 0usize) != 0) && ((bits >> 0usize) & 1 == 0
        || (bits >> 0usize) & 1 == 1)) by (bit_vector);
    assert(((bits >> 1usize) & 1 == 1 <==> bits & (1i32 << 1usize) != 0) && ((bits >> 1usize) & 1 == 0
        || (bits >> 1usize) & 1 == 1)) by (bit_vector);
    assert(((bits >> 2usize) & 1 == 1 <==> bits & (1i32 << 2usize) != 0) && ((bits >> 2usize) & 1 == 0
        || (bits >> 2usize) & 1 == 1)) by (bit_vector);
    assert(((bits >> 3usize) & 1 == 1 <==> bits & (1i32 << 3usize) != 0) && ((bits >> 3usize) & 1 == 0
        || (bits >> 3usize) & 1 == 1)) by (bit_vector);
    assert(((bits >> 4usize) & 1 == 1 <==> bits & (1i32 << 4usize) != 0) && ((bits >> 4usize) & 1 == 0
        || (bits >> 4usize) & 1 == 1)) by (bit_vector);
    assert(((bits >> 5usize) & 1 == 1 <==> bits & (1i32 << 5usize) != 0) && ((bits >> 5usize) & 1 == 0
        || (bits >> 5usize) & 1 == 1)) by (bit_vector);
}

/// The inversion bits a reply stands for: bit `i` is set exactly when word `i` is
/// not zero, for the six axes, and no other bit is set.
pub proof fn lemma_invert_bits(data: [i32; 7])
    ensures
        forall|i: int| 0 <= i < 6 ==> (invert_bits_of(data) & (1i32 << (i as usize)) != 0 <==> #[trigger] data[i] != 0),
        invert_bits_of(data) & !0x3fi32 == 0,
{
    let c0 = invert_flag(data, 0);
    let c1 = invert_flag(data, 1);
    let c2 = invert_flag(data, 2);
    let c3 = invert_flag(data, 3);
    let c4 = invert_flag(data, 4);
    let c5 = invert_flag(data, 5);
    let r = invert_bits_of(data);
    assert(r == (c0 >> 5usize) | (c1 >> 4usize) | (c2 >> 3usize) | (c3 >> 2usize) | (c4 >> 1usize) | c5);
    assert((r & (1i32 << 0usize) != 0 <==> c0 != 0) && (r & (1i32 << 1usize) != 0 <==> c1 != 0) && (r
        & (1i32 << 2usize) != 0 <==> c2 != 0) && (r & (1i32 << 3usize) != 0 <==> c3 != 0) && (r & (1i32
        << 4usize) != 0 <==> c4 != 0) && (r & (1i32 << 5usize) != 0 <==> c5 != 0) && r & !0x3fi32 == 0)
        by (bit_vector)
        requires
            r == (c0 >> 5usize) | (c1 >> 4usize) | (c2 >> 3usize) | (c3 >> 2usize) | (c4 >> 1usize) | c5,
            c0 == 0 || c0 == 0x20,
            c1 == 0 || c1 == 0x20,
            c2 == 0 || c2 == 0x20,
            c3 == 0 || c3 == 0x20,
            c4 == 0 || c4 == 0x20,
            c5 == 0 || c5 == 0x20,
    ;
}

/// Reading back what was set: the inversion bits that a reply echoing the words of
/// `SetInvert(bits)` stands for are the six low bits of `bits`.
pub proof fn lemma_invert_roundtrip(bits: i32)
    ensures
        invert_bits_of(invert_words(bits)) == bits & 0x3f,
{
    let d = invert_words(bits);
    assert(d[0] == (bits >> 0usize) & 1);
    assert(d[5] == (bits >> 5usize) & 1);
    let c0 = invert_flag(d, 0);
    let c1 = invert_flag(d, 1);
    let c2 = invert_flag(d, 2);
    let c3 = invert_flag(d, 3);
    let c4 = invert_flag(d, 4);
    let c5 = invert_flag(d, 5);
    assert((c0 >> 5usize) | (c1 >> 4usize) | (c2 >> 3usize) | (c3 >> 2usize) | (c4 >> 1usize) | c5
        == bits & 0x3f) by (bit_vector)
        requires
            c0 == (if (bits >> 0usize) & 1 != 0 { 0x20i32 } else { 0i32 }),
            c1 == (if (bits >> 1usize) & 1 != 0 { 0x20i32 } else { 0i32 }),
            c2 == (if (bits >> 2usize) & 1 != 0 { 0x20i32 } else { 0i32 }),
            c3 == (if (bits >> 3usize) & 1 != 0 { 0x20i32 } else { 0i32 }),
            c4 == (if (bits >> 4usize) & 1 != 0 { 0x20i32 } else { 0i32 }),
            c5 == (if (bits >> 5usize) & 1 != 0 { 0x20i32 } else { 0i32 }),
    ;
}

/// The LED state that a `GetLed` reply carries in word 0, or a protocol error
/// naming the value when it is none of 0, 1, 2.
pub fn led_state_from_reply(rr: &ReqResp) -> (r: Result<LedState, Error>)
    ensures
        rr.data[0] == 0 ==> r == Ok::<LedState, Error>(LedState::Off),
        rr.data[0] == 1 ==> r == Ok::<LedState, Error>(LedState::On),
        rr.data[0] == 2 ==> r == Ok::<LedState, Error>(LedState::Auto),
        !(0 <= rr.data[0] <= 2) ==> (r matches Err(Error::Protocol(m)) && m@ == "invalid LED state: "@
            + decimal(rr.data[0] as int)),
{
    match rr.data[0] {
        0 => Ok(LedState::Off),
        1 => Ok(LedState::On),
        2 => Ok(LedState::Auto),
        v => {
            let mut msg = String::from_str("invalid LED state: ");
            let digits = decimal_string(v as i64);
            msg.append(digits.as_str());
            Err(Error::Protocol(msg))
        },
    }
}

/// Reading back what was set: a reply echoing the word of `SetLed(state)` yields `state`.
pub proof fn lemma_led_roundtrip(state: LedState)
    ensures
        0 <= led_code(state) <= 2,
        led_code(state) == 0 ==> state == LedState::Off,
        led_code(state) == 1 ==> state == LedState::On,
        led_code(state) == 2 ==> state == LedState::Auto,
{
}

/// What the reply to a request carries, decoded.
#[derive(Debug, Clone, Copy)]
pub enum Answer {
    /// A setting or an action was acknowledged.
    Done,
    /// The per-client event mask.
    Mask(EventMask),
    /// A number of buttons or axes.
    Count(u32),
    /// USB vendor and product ids; zeros for a serial device.
    UsbId(u32, u32),
    /// The device type.
    Device(DeviceType),
    /// The bit pattern of the `f32` global sensitivity.
    Sensitivity(i32),
    /// The bit patterns of the six `f32` axis sensitivities.
    AxisSensitivity([i32; 6]),
    /// An integer setting.
    Value(i32),
    /// An on/off setting.
    Flag(bool),
    /// The LED state.
    Led(LedState),
}

/// Whether `a` is what the reply `rr` to request `q` carries: queries read word 0,
/// those about one axis or button read word 1, and requests that set or act are
/// merely acknowledged.
pub open spec fn answer_ok(q: Request, rr: ReqResp, a: Answer) -> bool {
    let d = rr.data;
    match q {
        Request::GetEventMask => a matches Answer::Mask(m) && m.value() == d[0] as u16,
        Request::DeviceButtons => a == Answer::Count(d[0] as u32),
        Request::DeviceAxes => a == Answer::Count(d[0] as u32),
        Request::DeviceUsbId => a == Answer::UsbId(d[0] as u32, d[1] as u32),
        Request::DeviceType => a == Answer::Device(device_type_of(d[0])),
        Request::GetGlobalSensitivity => a == Answer::Sensitivity(d[0]),
        Request::GetAxisSensitivity => a == Answer::AxisSensitivity([d[0], d[1], d[2], d[3], d[4], d[5]]),
        Request::GetDeadzone(_) => a == Answer::Value(d[1]),
        Request::GetInvert => a == Answer::Value(invert_bits_of(d)),
        Request::GetAxisMap(_) => a == Answer::Value(d[1]),
        Request::GetButtonMap(_) => a == Answer::Value(d[1]),
        Request::GetButtonAction(_) => a == Answer::Value(d[1]),
        Request::GetKeyMap(_) => a == Answer::Value(d[1]),
        Request::GetSwapYz => a == Answer::Flag(d[0] != 0),
        Request::GetLed => a matches Answer::Led(s) && led_code(s) == d[0],
        Request::GetGrab => a == Answer::Flag(d[0] != 0),
        Request::GetRepeat => a == Answer::Value(d[0]),
        _ => a is Done,
    }
}

impl Request {
    /// Decode the successful reply `rr` to this request. Only an LED state outside
    /// 0..=2 is refused, with a protocol error naming the value.
    pub fn answer(&self, rr: &ReqResp) -> (r: Result<Answer, Error>)
        ensures
            (*self is GetLed && !(0 <= rr.data[0] <= 2)) ==> (r matches Err(Error::Protocol(m))
                && m@ == "invalid LED state: "@ + decimal(rr.data[0] as int)),
            !(*self is GetLed && !(0 <= rr.data[0] <= 2)) ==> (r matches Ok(a) && answer_ok(
                *self,
                *rr,
                a,
            )),
    {
        let d = rr.data;
        match *self {
            Request::GetEventMask => Ok(Answer::Mask(event_mask_from_reply(rr))),
            Request::DeviceButtons => Ok(Answer::Count(d[0] as u32)),
            Request::DeviceAxes => Ok(Answer::Count(d[0] as u32)),
            Request::DeviceUsbId => Ok(Answer::UsbId(d[0] as u32, d[1] as u32)),
            Request::DeviceType => Ok(Answer::Device(DeviceType::from_raw(d[0]))),
            Request::GetGlobalSensitivity => Ok(Answer::Sensitivity(d[0])),
            Request::GetAxisSensitivity => Ok(
                Answer::AxisSensitivity([d[0], d[1], d[2], d[3], d[4], d[5]]),
            ),
            Request::GetDeadzone(_) => Ok(Answer::Value(d[1])),
            Request::GetInvert => Ok(Answer::Value(invert_bits_from_reply(rr))),
            Request::GetAxisMap(_) => Ok(Answer::Value(d[1])),
            Request::GetButtonMap(_) => Ok(Answer::Value(d[1])),
            Request::GetButtonAction(_) => Ok(Answer::Value(d[1])),
            Request::GetKeyMap(_) => Ok(Answer::Value(d[1])),
            Request::GetSwapYz => Ok(Answer::Flag(d[0] != 0)),
            Request::GetLed => match led_state_from_reply(rr) {
                Ok(s) => Ok(Answer::Led(s)),
                Err(e) => Err(e),
            },
            Request::GetGrab => Ok(Answer::Flag(d[0] != 0)),
            Request::GetRepeat => Ok(Answer::Value(d[0])),
            _ => Ok(Answer::Done),
        }
    }
}

/// A reply that echoes the words of request `q`'s frame, as the daemon answers a
/// query about a setting with the words that set it.
pub open spec fn echo(q: Request) -> ReqResp {
    ReqResp { type_: crate::protocol::REQ_TAG | request_parts(q).0, data: request_parts(q).1 }
}

/// Requests about one axis or button carry the axis or button in word 0 and, when
/// they set something, the new value in word 1; all other words are zero.
pub proof fn lemma_pair_request_words(x: i32, v: i32)
    ensures
        request_parts(Request::SetDeadzone(x, v)) == (req::SCFG_DEADZONE, [x, v, 0, 0, 0, 0, 0]),
        request_parts(Request::SetAxisMap(x, v)) == (req::SCFG_AXISMAP, [x, v, 0, 0, 0, 0, 0]),
        request_parts(Request::SetButtonMap(x, v)) == (req::SCFG_BNMAP, [x, v, 0, 0, 0, 0, 0]),
        request_parts(Request::SetButtonAction(x, v)) == (req::SCFG_BNACTION, [x, v, 0, 0, 0, 0, 0]),
        request_parts(Request::SetKeyMap(x, v)) == (req::SCFG_KBMAP, [x, v, 0, 0, 0, 0, 0]),
        request_parts(Request::GetDeadzone(x)) == (req::GCFG_DEADZONE, [x, 0, 0, 0, 0, 0, 0]),
        request_parts(Request::GetAxisMap(x)) == (req::GCFG_AXISMAP, [x, 0, 0, 0, 0, 0, 0]),
        request_parts(Request::GetButtonMap(x)) == (req::GCFG_BNMAP, [x, 0, 0, 0, 0, 0, 0]),
        request_parts(Request::GetButtonAction(x)) == (req::GCFG_BNACTION, [x, 0, 0, 0, 0, 0, 0]),
        request_parts(Request::GetKeyMap(x)) == (req::GCFG_KBMAP, [x, 0, 0, 0, 0, 0, 0]),
{
}

/// Queries that take no argument travel with all data words zero, each under its
/// own request code.
pub proof fn lemma_plain_query_words()
    ensures
        request_parts(Request::GetEventMask) == (req::GET_EVMASK, [0i32, 0, 0, 0, 0, 0, 0]),
        request_parts(Request::DeviceButtons) == (req::DEV_NBUTTONS, [0i32, 0, 0, 0, 0, 0, 0]),
        request_parts(Request::DeviceAxes) == (req::DEV_NAXES, [0i32, 0, 0, 0, 0, 0, 0]),
        request_parts(Request::DeviceUsbId) == (req::DEV_USBID, [0i32, 0, 0, 0, 0, 0, 0]),
        request_parts(Request::DeviceType) == (req::DEV_TYPE, [0i32, 0, 0, 0, 0, 0, 0]),
        request_parts(Request::ConfigReset) == (req::CFG_RESET, [0i32, 0, 0, 0, 0, 0, 0]),
        request_parts(Request::ConfigRestore) == (req::CFG_RESTORE, [0i32, 0, 0, 0, 0, 0, 0]),
        request_parts(Request::ConfigSave) == (req::CFG_SAVE, [0i32, 0, 0, 0, 0, 0, 0]),
        request_parts(Request::GetGlobalSensitivity) == (req::GCFG_SENS, [0i32, 0, 0, 0, 0, 0, 0]),
        request_parts(Request::GetAxisSensitivity) == (req::GCFG_SENS_AXIS, [0i32, 0, 0, 0, 0, 0, 0]),
        request_parts(Request::GetInvert) == (req::GCFG_INVERT, [0i32, 0, 0, 0, 0, 0, 0]),
        request_parts(Request::GetSwapYz) == (req::GCFG_SWAPYZ, [0i32, 0, 0, 0, 0, 0, 0]),
        request_parts(Request::GetLed) == (req::GCFG_LED, [0i32, 0, 0, 0, 0, 0, 0]),
        request_parts(Request::GetGrab) == (req::GCFG_GRAB, [0i32, 0, 0, 0, 0, 0, 0]),
        request_parts(Request::GetRepeat) == (req::GCFG_REPEAT, [0i32, 0, 0, 0, 0, 0, 0]),
{
}

/// Requests that set one value carry it in word 0: sensitivities as their bit
/// patterns, flags as 1 or 0, the LED state as 0, 1 or 2, the repeat interval with
/// every negative value sent as -1, the event mask as its bits; the six axis
/// sensitivities fill words 0..6.
pub proof fn lemma_value_request_words(x: i32, on: bool, s: LedState, m: EventMask, v: [i32; 6])
    ensures
        request_parts(Request::SetSensitivity(x)) == (req::SET_SENS, [x, 0, 0, 0, 0, 0, 0]),
        request_parts(Request::SetGlobalSensitivity(x)) == (req::SCFG_SENS, [x, 0, 0, 0, 0, 0, 0]),
        request_parts(Request::SetSwapYz(on)).0 == req::SCFG_SWAPYZ,
        request_parts(Request::SetSwapYz(on)).1[0] == (if on { 1i32 } else { 0i32 }),
        request_parts(Request::SetGrab(on)).0 == req::SCFG_GRAB,
        request_parts(Request::SetGrab(on)).1[0] == (if on { 1i32 } else { 0i32 }),
        request_parts(Request::SetLed(s)).0 == req::SCFG_LED,
        s == LedState::Off ==> request_parts(Request::SetLed(s)).1[0] == 0,
        s == LedState::On ==> request_parts(Request::SetLed(s)).1[0] == 1,
        s == LedState::Auto ==> request_parts(Request::SetLed(s)).1[0] == 2,
        request_parts(Request::SetRepeat(x)).0 == req::SCFG_REPEAT,
        x >= 0 ==> request_parts(Request::SetRepeat(x)).1[0] == x,
        x < 0 ==> request_parts(Request::SetRepeat(x)).1[0] == -1,
        request_parts(Request::SetEventMask(m)).0 == req::SET_EVMASK,
        request_parts(Request::SetEventMask(m)).1[0] as int == m.value() as int,
        request_parts(Request::SetAxisSensitivity(v)) == (req::SCFG_SENS_AXIS, [v[0], v[1], v[2], v[3], v[4], v[5], 0]),
        forall|i: int| 1 <= i < 7 ==> request_parts(Request::SetSwapYz(on)).1[i] == 0
            && request_parts(Request::SetGrab(on)).1[i] == 0 && request_parts(Request::SetLed(s)).1[i] == 0
            && request_parts(Request::SetRepeat(x)).1[i] == 0 && request_parts(Request::SetEventMask(m)).1[i] == 0,
{
    let b = m.value();
    assert((b as i32) as int == b as int) by (bit_vector);
}

/// Reading back what was set: a reply that echoes the frame of a setting answers
/// the matching query with the value that was set.
pub proof fn lemma_settings_read_back(x: i32, v: i32, on: bool, s: LedState, m: EventMask, w: [i32; 6], a: Answer)
    ensures
        answer_ok(Request::GetDeadzone(x), echo(Request::SetDeadzone(x, v)), a) ==> a == Answer::Value(v),
        answer_ok(Request::GetAxisMap(x), echo(Request::SetAxisMap(x, v)), a) ==> a == Answer::Value(v),
        answer_ok(Request::GetButtonMap(x), echo(Request::SetButtonMap(x, v)), a) ==> a == Answer::Value(v),
        answer_ok(Request::GetButtonAction(x), echo(Request::SetButtonAction(x, v)), a) ==> a
            == Answer::Value(v),
        answer_ok(Request::GetKeyMap(x), echo(Request::SetKeyMap(x, v)), a) ==> a == Answer::Value(v),
        answer_ok(Request::GetSwapYz, echo(Request::SetSwapYz(on)), a) ==> a == Answer::Flag(on),
        answer_ok(Request::GetGrab, echo(Request::SetGrab(on)), a) ==> a == Answer::Flag(on),
        answer_ok(Request::GetLed, echo(Request::SetLed(s)), a) ==> a == Answer::Led(s),
        answer_ok(Request::GetRepeat, echo(Request::SetRepeat(x)), a) ==> a == Answer::Value(
            if x < 0 { -1i32 } else { x },
        ),
        answer_ok(Request::GetGlobalSensitivity, echo(Request::SetGlobalSensitivity(x)), a) ==> a
            == Answer::Sensitivity(x),
        answer_ok(Request::GetAxisSensitivity, echo(Request::SetAxisSensitivity(w)), a) ==> a
            == Answer::AxisSensitivity(w),
        answer_ok(Request::GetEventMask, echo(Request::SetEventMask(m)), a) ==> (a matches Answer::Mask(
            r,
        ) && r.value() == m.value()),
        answer_ok(Request::GetInvert, echo(Request::SetInvert(x)), a) ==> a == Answer::Value(x & 0x3f),
{
    let b = m.value();
    assert(((b as i32) as u16) == b) by (bit_vector);
    lemma_invert_roundtrip(x);
    assert(echo(Request::SetAxisSensitivity(w)).data[5] == w[5]);
    if answer_ok(Request::GetAxisSensitivity, echo(Request::SetAxisSensitivity(w)), a) {
        let d = echo(Request::SetAxisSensitivity(w)).data;
        assert([d[0], d[1], d[2], d[3], d[4], d[5]] =~= w);
    }
}

/// Queries about the device and single-valued settings read word 0 of the reply,
/// and nothing else: counts and ids as unsigned, flags as non-zero, the
/// sensitivity as its bit pattern; the USB id query reads the product from word 1.
pub proof fn lemma_word0_answers(rr: ReqResp, a: Answer)
    ensures
        answer_ok(Request::DeviceButtons, rr, a) ==> a == Answer::Count(rr.data[0] as u32),
        answer_ok(Request::DeviceAxes, rr, a) ==> a == Answer::Count(rr.data[0] as u32),
        answer_ok(Request::DeviceUsbId, rr, a) ==> a == Answer::UsbId(rr.data[0] as u32, rr.data[1] as u32),
        answer_ok(Request::DeviceType, rr, a) && (0x100 <= rr.data[0] <= 0x105 || 0x200 <= rr.data[0]
            <= 0x210) ==> (a matches Answer::Device(t) && crate::event::device_type_id(t) == rr.data[0]),
        answer_ok(Request::GetGrab, rr, a) ==> a == Answer::Flag(rr.data[0] != 0),
        answer_ok(Request::GetSwapYz, rr, a) ==> a == Answer::Flag(rr.data[0] != 0),
        answer_ok(Request::GetRepeat, rr, a) ==> a == Answer::Value(rr.data[0]),
        answer_ok(Request::GetGlobalSensitivity, rr, a) ==> a == Answer::Sensitivity(rr.data[0]),
        answer_ok(Request::GetEventMask, rr, a) ==> (a matches Answer::Mask(m) && m.value()
            == rr.data[0] as u16),
{
}

/// Acknowledged requests: every request that sets or acts is answered `Done`,
/// whatever the reply's words.
pub proof fn lemma_settings_are_acknowledged(q: Request, rr: ReqResp, a: Answer)
    requires
        answer_ok(q, rr, a),
        match q {
            Request::SetSensitivity(_) | Request::SetEventMask(_) | Request::ConfigReset
            | Request::ConfigRestore | Request::ConfigSave | Request::SetGlobalSensitivity(_)
            | Request::SetAxisSensitivity(_) | Request::SetDeadzone(_, _) | Request::SetInvert(_)
            | Request::SetAxisMap(_, _) | Request::SetButtonMap(_, _) | Request::SetButtonAction(_, _)
            | Request::SetKeyMap(_, _) | Request::SetSwapYz(_) | Request::SetLed(_) | Request::SetGrab(_)
            | Request::SetRepeat(_) => true,
            _ => false,
        },
    ensures
        a is Done,
{
}

/// Operations that the protocol version 0 does not offer.
#[derive(Debug, Clone, Copy, PartialEq, Eq, Structural)]
pub enum Operation {
    /// Setting the per-client sensitivity.
    Sensitivity,
    /// A fixed-size request.
    Request,
    /// A request that carries a string.
    StringRequest,
    /// A request answered with a string.
    StringResponse,
}

/// The error message for an operation attempted on protocol version 0.
pub open spec fn v0_message(op: Operation) -> Seq<char> {
    match op {
        Operation::Sensitivity => "sensitivity not supported on protocol v0"@,
        Operation::Request => "request not supported on protocol v0"@,
        Operation::StringRequest => "string request not supported on protocol v0"@,
        Operation::StringResponse => "string response not supported on protocol v0"@,
    }
}

/// Whether the negotiated protocol version `proto` offers `op`: every operation
/// needs version 1 or later; on version 0 the error names the operation.
pub fn require_protocol_v1(proto: u8, op: Operation) -> (r: Result<(), Error>)
    ensures
        r is Ok <==> proto >= 1,
        proto < 1 ==> (r matches Err(Error::Protocol(m)) && m@ == v0_message(op)),
{
    if proto >= 1 {
        return Ok(());
    }
    let msg = match op {
        Operation::Sensitivity => String::from_str("sensitivity not supported on protocol v0"),
        Operation::Request => String::from_str("request not supported on protocol v0"),
        Operation::StringRequest => String::from_str("string request not supported on protocol v0"),
        Operation::StringResponse => String::from_str("string response not supported on protocol v0"),
    };
    Err(Error::Protocol(msg))
}

/// How many of `events` have type `t`.
pub open spec fn count_of_type(events: Seq<SpnavEvent>, t: EventType) -> nat
    decreases events.len(),
{
    if events.len() == 0 {
        0
    } else {
        count_of_type(events.drop_last(), t) + if events.last().kind() == t {
            1nat
        } else {
            0nat
        }
    }
}

/// Counting splits over concatenation: the events of `a + b` of type `t` are
/// those of `a` and those of `b`.
pub proof fn lemma_count_append(a: Seq<SpnavEvent>, b: Seq<SpnavEvent>, t: EventType)
    ensures
        count_of_type(a + b, t) == count_of_type(a, t) + count_of_type(b, t),
    decreases b.len(),
{
    if b.len() > 0 {
        lemma_count_append(a, b.drop_last(), t);
        assert((a + b).drop_last() =~= a + b.drop_last());
    }
}

/// The count of type `t` is the number of events of type `t`: the length of the
/// events kept by a filter on the type. Each event counts once, wherever it
/// stands; a sequence of events all of type `t` counts its full length, and one
/// with none of type `t` counts zero.
pub proof fn lemma_count_is_filter_len(events: Seq<SpnavEvent>, t: EventType)
    ensures
        count_of_type(events, t) == events.filter(|e: SpnavEvent| e.kind() == t).len(),
        (forall|i: int| 0 <= i < events.len() ==> #[trigger] events[i].kind() == t) ==> count_of_type(
            events,
            t,
        ) == events.len(),
        (forall|i: int| 0 <= i < events.len() ==> #[trigger] events[i].kind() != t) ==> count_of_type(
            events,
            t,
        ) == 0,
        count_of_type(events, t) <= events.len(),
    decreases events.len(),
{
    reveal(Seq::filter);
    if events.len() > 0 {
        lemma_count_is_filter_len(events.drop_last(), t);
        let rest = events.drop_last();
        assert forall|i: int| 0 <= i < rest.len() implies rest[i] == events[i] by {}
        if forall|i: int| 0 <= i < events.len() ==> #[trigger] events[i].kind() == t {
            assert forall|i: int| 0 <= i < rest.len() implies #[trigger] rest[i].kind() == t by {
                assert(events[i].kind() == t);
            }
            assert(events[events.len() - 1].kind() == t);
        }
        if forall|i: int| 0 <= i < events.len() ==> #[trigger] events[i].kind() != t {
            assert forall|i: int| 0 <= i < rest.len() implies #[trigger] rest[i].kind() != t by {
                assert(events[i].kind() != t);
            }
            assert(events[events.len() - 1].kind() != t);
        }
    }
}

/// How many of the drained `events` have type `t`: what `remove_events` reports.
pub fn count_events_of_type(events: &Vec<SpnavEvent>, t: EventType) -> (r: usize)
    ensures
        r == count_of_type(events@, t),
{
    let mut n: usize = 0;
    let mut i: usize = 0;
    while i < events.len()
        invariant
            0 <= i <= events.len(),
            n == count_of_type(events@.subrange(0, i as int), t),
            n <= i,
        decreases events.len() - i,
    {
        assert(events@.subrange(0, i + 1).drop_last() =~= events@.subrange(0, i as int));
        if events[i].event_type() == t {
            n += 1;
        }
        i += 1;
    }
    assert(events@.subrange(0, events.len() as int) =~= events@);
    n
}

} // verus!

verus! {

/// What the event loop is waiting for besides events.
pub enum Pending {
    /// No request is in flight.
    Idle,
    /// A fixed-size request awaits its status reply.
    Status,
    /// A string request awaits the frames of a string reply.
    Text(StringDecoder),
}

/// The abstract state of a [`Session`].
pub enum SessionState {
    /// No request is in flight.
    Idle,
    /// A fixed-size request awaits its reply.
    Status,
    /// A string reply is being decoded.
    Text(DecoderState),
}

/// The reply that a request receives.
#[derive(Debug)]
pub enum Reply {
    /// Reply to a fixed-size request.
    Status(Result<ReqResp, Error>),
    /// Reply to a string request.
    Text(Result<String, Error>),
}

/// What the event loop does with one frame read from the daemon.
#[derive(Debug)]
pub enum Step {
    /// Broadcast this event to the subscribers.
    Deliver(SpnavEvent),
    /// Nothing to do for this frame.
    Skip,
    /// Send this reply to the request in flight, which is then done.
    Answer(Reply),
    /// Stop the loop without a reply: the frame announces more string bytes than
    /// remain expected, where the expected count would drop below zero.
    Abort,
}

/// The decisions of the loop that owns the daemon's socket: it forwards events to
/// the subscribers at all times and hands each request the reply that the daemon
/// sends for it. Reading and writing the socket is left to the caller.
pub struct Session {
    pending: Pending,
}

impl View for Session {
    type V = SessionState;

    closed spec fn view(&self) -> SessionState {
        match self.pending {
            Pending::Idle => SessionState::Idle,
            Pending::Status => SessionState::Status,
            Pending::Text(d) => SessionState::Text(d@),
        }
    }
}

/// What a frame that is not a response does: an event frame delivers its event,
/// any other frame is skipped.
pub open spec fn event_step_ok(rr: ReqResp, r: Step) -> bool {
    match event_of(rr) {
        Some(e) => r == Step::Deliver(e),
        None => r is Skip,
    }
}

/// One frame `buf` read from the daemon takes a session from `before` to `after`
/// with step `r`. Event frames are delivered whatever is pending and leave it
/// untouched. A response answers the request in flight: a fixed-size request gets
/// the frame, or a daemon failure when its status is negative; a string request
/// feeds its decoder and is answered when the string is complete or the decoder
/// fails, and aborts when the frame overruns it. Responses that no request awaits
/// are skipped.
pub open spec fn frame_step(before: SessionState, after: SessionState, buf: Seq<u8>, r: Step) -> bool {
    let rr = frame_value(buf, endianness());
    if !rr.spec_is_response() {
        after == before && event_step_ok(rr, r)
    } else {
        match before {
            SessionState::Idle => after is Idle && r is Skip,
            SessionState::Status => after is Idle && if rr.data[6] >= 0 {
                r matches Step::Answer(Reply::Status(Ok(x))) && x == rr
            } else {
                r matches Step::Answer(Reply::Status(Err(Error::DaemonFailure)))
            },
            SessionState::Text(m) => if rr.data[6] < 0 {
                after is Idle && r matches Step::Answer(
                    Reply::Text(Err(Error::DaemonFailure)),
                )
            } else if overruns(m, rr) {
                after is Idle && r is Abort
            } else {
                match feed_step(m, rr).1 {
                    Fed::Partial => after == SessionState::Text(feed_step(m, rr).0)
                        && r is Skip,
                    Fed::Done(b) => after is Idle && (r matches Step::Answer(
                        Reply::Text(Ok(s)),
                    ) && s@ == utf8_lossy(b) && (valid_utf8(b) ==> s@ == decode_utf8(b))),
                    Fed::NotStarted => after is Idle && (r matches Step::Answer(
                        Reply::Text(Err(Error::Protocol(msg))),
                    ) && msg@ == "string decoder not initialized"@),
                    Fed::Failed => false,
                }
            },
        }
    }
}

impl Session {
    /// A session with no request in flight.
    pub fn new() -> (r: Self)
        ensures
            r@ is Idle,
    {
        Session { pending: Pending::Idle }
    }

    /// Whether no request is in flight.
    pub fn is_idle(&self) -> (r: bool)
        ensures
            r == self@ is Idle,
    {
        match self.pending {
            Pending::Idle => true,
            _ => false,
        }
    }

    /// A fixed-size request has been written: await its status reply.
    pub fn await_status(&mut self)
        requires
            old(self)@ is Idle,
        ensures
            final(self)@ is Status,
    {
        self.pending = Pending::Status;
    }

    /// A string request has been written: await the frames of a string reply,
    /// decoded by a fresh decoder.
    pub fn await_text(&mut self)
        requires
            old(self)@ is Idle,
        ensures
            final(self)@ == SessionState::Text(DecoderState { buf: seq![], expect: 0, started: false }),
    {
        self.pending = Pending::Text(StringDecoder::new());
    }

    /// Writing the request in flight failed: its reply is the I/O error of a closed
    /// connection, of the kind the request awaits, and the session is idle again.
    pub fn write_failed(&mut self) -> (r: Reply)
        requires
            !(old(self)@ is Idle),
        ensures
            final(self)@ is Idle,
            old(self)@ is Status ==> r matches Reply::Status(Err(Error::Io(_))),
            old(self)@ is Text ==> r matches Reply::Text(Err(Error::Io(_))),
    {
        let was_status = match self.pending {
            Pending::Status => true,
            _ => false,
        };
        self.pending = Pending::Idle;
        if was_status {
            Reply::Status(Err(Error::Io(connection_closed())))
        } else {
            Reply::Text(Err(Error::Io(connection_closed())))
        }
    }

    /// Reading from the daemon failed. With a request in flight, its reply is the
    /// I/O error of a closed connection and the session is idle again; without one,
    /// there is no reply and the loop ends.
    pub fn read_failed(&mut self) -> (r: Option<Reply>)
        ensures
            final(self)@ is Idle,
            old(self)@ is Idle ==> r is None,
            old(self)@ is Status ==> r matches Some(Reply::Status(Err(Error::Io(_)))),
            old(self)@ is Text ==> r matches Some(Reply::Text(Err(Error::Io(_)))),
    {
        match self.pending {
            Pending::Idle => None,
            _ => Some(self.write_failed()),
        }
    }

    /// Handle one frame read from the daemon.
    ///
    /// Event frames are delivered whatever is pending. A response frame answers the
    /// request in flight: a fixed-size request gets the frame, or
    /// [`Error::DaemonFailure`] when its status is negative; a string request feeds
    /// its decoder and is answered when the string is complete or the decoder fails.
    /// Responses that no request awaits are skipped.
    pub fn on_frame(&mut self, buf: &[u8; 32]) -> (r: Step)
        ensures
            frame_step(old(self)@, final(self)@, buf@, r),
    {
        let rr = ReqResp::from_bytes(buf);
        if !rr.is_response() {
            return match event_from_frame(&rr) {
                Some(e) => Step::Deliver(e),
                None => Step::Skip,
            };
        }
        let mut pending = Pending::Idle;
        core::mem::swap(&mut pending, &mut self.pending);
        match pending {
            Pending::Idle => Step::Skip,
            Pending::Status => {
                if rr.status_ok() {
                    Step::Answer(Reply::Status(Ok(rr)))
                } else {
                    Step::Answer(Reply::Status(Err(Error::DaemonFailure)))
                }
            },
            Pending::Text(mut decoder) => {
                if rr.data[6] < 0 {
                    return Step::Answer(Reply::Text(Err(Error::DaemonFailure)));
                }
                if decoder.overruns(&rr) {
                    return Step::Abort;
                }
                match decoder.feed(&rr) {
                    Ok(Some(s)) => Step::Answer(Reply::Text(Ok(s))),
                    Ok(None) => {
                        self.pending = Pending::Text(decoder);
                        Step::Skip
                    },
                    Err(e) => Step::Answer(Reply::Text(Err(e))),
                }
            },
        }
    }
}


/// The events among `steps`, in order.
pub open spec fn delivered(steps: Seq<Step>) -> Seq<SpnavEvent>
    decreases steps.len(),
{
    if steps.len() == 0 {
        seq![]
    } else {
        let rest = delivered(steps.drop_last());
        match steps.last() {
            Step::Deliver(e) => rest.push(e),
            _ => rest,
        }
    }
}

/// The events that `frames` announce, in order: those of the frames that are no
/// responses and decode to an event.
pub open spec fn announced_events(frames: Seq<Seq<u8>>) -> Seq<SpnavEvent>
    decreases frames.len(),
{
    if frames.len() == 0 {
        seq![]
    } else {
        let rest = announced_events(frames.drop_last());
        let rr = frame_value(frames.last(), endianness());
        if rr.spec_is_response() {
            rest
        } else {
            match event_of(rr) {
                Some(e) => rest.push(e),
                None => rest,
            }
        }
    }
}

/// Events are never lost, reordered or made up: over any run of frames handled one
/// after another from any state, the events delivered are exactly those the frames
/// announce, in arrival order, whatever requests are in flight meanwhile; responses
/// and undecodable frames are never delivered. A session that starts idle and
/// receives no request stays idle.
pub proof fn lemma_events_delivered_in_order(
    frames: Seq<Seq<u8>>,
    states: Seq<SessionState>,
    steps: Seq<Step>,
)
    requires
        steps.len() == frames.len(),
        states.len() == frames.len() + 1,
        forall|i: int|
            0 <= i < frames.len() ==> #[trigger] frame_step(states[i], states[i + 1], frames[i], steps[i]),
    ensures
        delivered(steps) == announced_events(frames),
        states[0] is Idle ==> forall|i: int| 0 <= i < states.len() ==> #[trigger] states[i] is Idle,
    decreases frames.len(),
{
    if frames.len() > 0 {
        let n = frames.len() - 1;
        let fs = frames.drop_last();
        let ss = states.drop_last();
        let ts = steps.drop_last();
        assert forall|i: int| 0 <= i < fs.len() implies #[trigger] frame_step(ss[i], ss[i + 1], fs[i], ts[i]) by {
            assert(frame_step(states[i], states[i + 1], frames[i], steps[i]));
        }
        lemma_events_delivered_in_order(fs, ss, ts);
        assert(frame_step(states[n], states[n + 1], frames[n], steps[n]));
        assert(fs == frames.drop_last() && frames.last() == frames[n] && steps.last() == steps[n]);
        if states[0] is Idle {
            assert forall|i: int| 0 <= i < states.len() implies #[trigger] states[i] is Idle by {
                if i <= n {
                    assert(ss[i] == states[i]);
                } else {
                    assert(ss[n] == states[n]);
                }
            }
        }
    }
}

} // verus!
