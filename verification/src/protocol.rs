//! Wire protocol of the spacenav daemon: 32-byte frames of eight native-endian words.

use vstd::prelude::*;
use vstd::endian::{Endian, endianness};
use vstd::string::StringSliceAdditionalSpecFns;
use vstd::utf8::{decode_utf8, encode_utf8, valid_utf8};
use crate::error::Error;
use crate::event::{
    device_type_of, ButtonEvent, ConfigEvent, DeviceEvent, DeviceOp, DeviceType, MotionEvent,
    RawAxisEvent, RawButtonEvent, SpnavEvent,
};

pub mod req;

verus! {

/// The four bytes of `w` in byte order `e`.
pub open spec fn word_bytes(w: i32, e: Endian) -> Seq<u8> {
    let u = w as u32;
    let le = seq![u as u8, (u >> 8u32) as u8, (u >> 16u32) as u8, (u >> 24u32) as u8];
    match e {
        Endian::Little => le,
        Endian::Big => seq![le[3], le[2], le[1], le[0]],
    }
}

/// The word whose bytes in byte order `e` are the first four of `b`.
pub open spec fn word_value(b: Seq<u8>, e: Endian) -> i32 {
    let (b0, b1, b2, b3) = match e {
        Endian::Little => (b[0], b[1], b[2], b[3]),
        Endian::Big => (b[3], b[2], b[1], b[0]),
    };
    (b0 as u32 | (b1 as u32) << 8u32 | (b2 as u32) << 16u32 | (b3 as u32) << 24u32) as i32
}

/// `i32::to_ne_bytes`: the memory representation of `v` in the byte order of the machine.
#[verifier::external_body]
pub(crate) fn i32_to_ne_bytes(v: i32) -> (r: [u8; 4])
    ensures
        r@ == word_bytes(v, endianness()),
{
    v.to_ne_bytes()
}

/// `i32::from_ne_bytes`: the word whose memory representation on this machine is `b`.
#[verifier::external_body]
pub(crate) fn i32_from_ne_bytes(b: [u8; 4]) -> (r: i32)
    ensures
        r == word_value(b@, endianness()),
{
    i32::from_ne_bytes(b)
}

/// Every word written as bytes and read back is the same word.
pub proof fn lemma_word_roundtrip(w: i32, e: Endian)
    ensures
        word_value(word_bytes(w, e), e) == w,
{
    let u = w as u32;
    assert((u as u8 as u32 | ((u >> 8u32) as u8 as u32) << 8u32 | ((u >> 16u32) as u8 as u32) << 16u32
        | ((u >> 24u32) as u8 as u32) << 24u32) == u) by (bit_vector);
    assert(u as i32 == w) by (bit_vector) requires u == w as u32;
}

/// Every four bytes read as a word and written back are the same four bytes.
pub proof fn lemma_word_bytes_roundtrip(b: Seq<u8>, e: Endian)
    requires
        b.len() == 4,
    ensures
        word_bytes(word_value(b, e), e) == b,
{
    let (b0, b1, b2, b3) = match e {
        Endian::Little => (b[0], b[1], b[2], b[3]),
        Endian::Big => (b[3], b[2], b[1], b[0]),
    };
    let u: u32 = b0 as u32 | (b1 as u32) << 8u32 | (b2 as u32) << 16u32 | (b3 as u32) << 24u32;
    assert((u as i32) as u32 == u) by (bit_vector);
    assert(u as u8 == b0 && (u >> 8u32) as u8 == b1 && (u >> 16u32) as u8 == b2 && (u >> 24u32) as u8
        == b3) by (bit_vector)
        requires
            u == b0 as u32 | (b1 as u32) << 8u32 | (b2 as u32) << 16u32 | (b3 as u32) << 24u32,
    ;
    assert(word_bytes(word_value(b, e), e) =~= b);
}

/// Tag carried by every request frame and every response frame.
pub const REQ_TAG: i32 = 0x7faa_0000;
/// First per-client request code.
pub const REQ_BASE: i32 = 0x1000;
/// Highest protocol version this client speaks.
pub const MAX_PROTO_VER: i32 = 1;

/// Event frame type: 6DOF motion.
pub const UEV_MOTION: i32 = 0;
/// Event frame type: button press.
pub const UEV_PRESS: i32 = 1;
/// Event frame type: button release.
pub const UEV_RELEASE: i32 = 2;
/// Event frame type: device added or removed.
pub const UEV_DEV: i32 = 3;
/// Event frame type: configuration changed.
pub const UEV_CFG: i32 = 4;
/// Event frame type: raw axis value.
pub const UEV_RAWAXIS: i32 = 5;
/// Event frame type: raw button value.
pub const UEV_RAWBUTTON: i32 = 6;
/// One past the last event frame type.
pub const MAX_UEV: i32 = 7;

/// Number of string bytes carried by one frame of a string request or response.
pub const REQSTR_CHUNK_SIZE: usize = 24;
/// Flag in data word 6 that marks the continuation frames of a string.
pub const REQSTR_CONT_BIT: i32 = 0x10000;

/// A 32-byte request/response frame: a type word followed by seven data words.
#[derive(Debug, Clone, Copy)]
pub struct ReqResp {
    /// Frame type: an event code, or a request code tagged with [`REQ_TAG`].
    pub type_: i32,
    /// Payload words.
    pub data: [i32; 7],
}

/// The `k`-th of the eight words of frame `b` in byte order `e`.
pub open spec fn frame_word(b: Seq<u8>, k: int, e: Endian) -> i32 {
    word_value(b.subrange(4 * k, 4 * k + 4), e)
}

/// The frame that the 32 bytes `b` represent in byte order `e`.
pub open spec fn frame_value(b: Seq<u8>, e: Endian) -> ReqResp {
    ReqResp {
        type_: frame_word(b, 0, e),
        data: [
            frame_word(b, 1, e),
            frame_word(b, 2, e),
            frame_word(b, 3, e),
            frame_word(b, 4, e),
            frame_word(b, 5, e),
            frame_word(b, 6, e),
            frame_word(b, 7, e),
        ],
    }
}

impl ReqResp {
    /// Word `k` of the frame: the type for `k == 0`, data word `k - 1` after it.
    pub open spec fn word(self, k: int) -> i32 {
        if k == 0 {
            self.type_
        } else {
            self.data[k - 1]
        }
    }

    /// The 32 bytes of this frame in byte order `e`.
    pub open spec fn frame_bytes(self, e: Endian) -> Seq<u8> {
        Seq::new(32, |i: int| word_bytes(self.word(i / 4), e)[i % 4])
    }

    /// Frame types `0..MAX_UEV` are events.
    pub open spec fn spec_is_event(self) -> bool {
        0 <= self.type_ < MAX_UEV
    }

    /// Frames that carry the request tag are responses.
    pub open spec fn spec_is_response(self) -> bool {
        self.type_ & REQ_TAG != 0
    }

    /// A zeroed frame.
    pub fn zeroed() -> (r: Self)
        ensures
            r.type_ == 0,
            r.data@ == seq![0i32; 7],
    {
        let r = Self { type_: 0, data: [0; 7] };
        assert(r.data@ =~= seq![0i32; 7]);
        r
    }

    /// The frame's bytes, each word in the byte order of the machine.
    pub fn to_bytes(&self) -> (r: [u8; 32])
        ensures
            r@ == self.frame_bytes(endianness()),
    {
        let mut buf = [0u8; 32];
        let mut k: usize = 0;
        while k < 8
            invariant
                k <= 8,
                forall|i: int| 0 <= i < 4 * k ==> buf@[i] == #[trigger] self.frame_bytes(endianness())[i],
            decreases 8 - k,
        {
            let w = if k == 0 {
                self.type_
            } else {
                self.data[k - 1]
            };
            let wb = i32_to_ne_bytes(w);
            let off = 4 * k;
            buf[off] = wb[0];
            buf[off + 1] = wb[1];
            buf[off + 2] = wb[2];
            buf[off + 3] = wb[3];
            assert((4 * k) / 4 == k && (4 * k) % 4 == 0);
            assert((4 * k + 1) / 4 == k && (4 * k + 1) % 4 == 1);
            assert((4 * k + 2) / 4 == k && (4 * k + 2) % 4 == 2);
            assert((4 * k + 3) / 4 == k && (4 * k + 3) % 4 == 3);
            k += 1;
        }
        assert(buf@ =~= self.frame_bytes(endianness()));
        buf
    }

    /// The frame that `buf` holds, each word in the byte order of the machine.
    pub fn from_bytes(buf: &[u8; 32]) -> (r: Self)
        ensures
            r == frame_value(buf@, endianness()),
    {
        let type_ = i32_from_ne_bytes([buf[0], buf[1], buf[2], buf[3]]);
        assert(seq![buf[0], buf[1], buf[2], buf[3]] =~= buf@.subrange(0, 4));
        let mut data = [0i32; 7];
        let mut i: usize = 0;
        while i < 7
            invariant
                i <= 7,
                forall|j: int| 0 <= j < i ==> data@[j] == frame_word(buf@, j + 1, endianness()),
            decreases 7 - i,
        {
            let off = 4 + i * 4;
            let w = i32_from_ne_bytes([buf[off], buf[off + 1], buf[off + 2], buf[off + 3]]);
            assert(seq![buf[off as int], buf[off + 1], buf[off + 2], buf[off + 3]] =~= buf@.subrange(
                4 * (i + 1),
                4 * (i + 1) + 4,
            ));
            data[i] = w;
            i += 1;
        }
        let r = Self { type_, data };
        assert(r.data =~= frame_value(buf@, endianness()).data);
        r
    }

    /// Whether this frame is an event (type in `0..MAX_UEV`).
    pub fn is_event(&self) -> (r: bool)
        ensures
            r == self.spec_is_event(),
    {
        self.type_ >= 0 && self.type_ < MAX_UEV
    }

    /// Whether this frame is a response (carries the request tag).
    pub fn is_response(&self) -> (r: bool)
        ensures
            r == self.spec_is_response(),
    {
        (self.type_ & REQ_TAG) != 0
    }

    /// Whether the response reports success (status word `data[6]` is not negative).
    pub fn status_ok(&self) -> (r: bool)
        ensures
            r == (self.data[6] >= 0),
    {
        self.data[6] >= 0
    }
}

proof fn lemma_frame_word(rr: ReqResp, e: Endian, k: int)
    requires
        0 <= k < 8,
    ensures
        frame_word(rr.frame_bytes(e), k, e) == rr.word(k),
{
    let b = rr.frame_bytes(e);
    assert((4 * k) / 4 == k && (4 * k) % 4 == 0);
    assert((4 * k + 1) / 4 == k && (4 * k + 1) % 4 == 1);
    assert((4 * k + 2) / 4 == k && (4 * k + 2) % 4 == 2);
    assert((4 * k + 3) / 4 == k && (4 * k + 3) % 4 == 3);
    assert(b.subrange(4 * k, 4 * k + 4) =~= word_bytes(rr.word(k), e));
    lemma_word_roundtrip(rr.word(k), e);
}

/// Every frame read back from its bytes is the frame that was written.
pub proof fn lemma_frame_roundtrip(rr: ReqResp, e: Endian)
    ensures
        frame_value(rr.frame_bytes(e), e) == rr,
{
    lemma_frame_word(rr, e, 0);
    lemma_frame_word(rr, e, 1);
    lemma_frame_word(rr, e, 2);
    lemma_frame_word(rr, e, 3);
    lemma_frame_word(rr, e, 4);
    lemma_frame_word(rr, e, 5);
    lemma_frame_word(rr, e, 6);
    lemma_frame_word(rr, e, 7);
    let r = frame_value(rr.frame_bytes(e), e);
    assert(r.data =~= rr.data);
}

/// Build a tagged request frame.
pub fn make_request(req_type: i32, data: [i32; 7]) -> (r: ReqResp)
    ensures
        r.type_ == REQ_TAG | req_type,
        r.data == data,
{
    ReqResp { type_: REQ_TAG | req_type, data }
}

} // verus!

verus! {

/// Every 32 bytes read as a frame and written back are the same 32 bytes.
pub proof fn lemma_bytes_roundtrip(b: Seq<u8>, e: Endian)
    requires
        b.len() == 32,
    ensures
        frame_value(b, e).frame_bytes(e) == b,
{
    let r = frame_value(b, e);
    assert forall|i: int| 0 <= i < 32 implies #[trigger] r.frame_bytes(e)[i] == b[i] by {
        let k = i / 4;
        let j = i % 4;
        assert(0 <= k < 8 && 0 <= j < 4 && i == 4 * k + j);
        assert(r.word(k) == frame_word(b, k, e));
        lemma_word_bytes_roundtrip(b.subrange(4 * k, 4 * k + 4), e);
    }
    assert(r.frame_bytes(e) =~= b);
}

/// No frame is both an event and a response.
pub proof fn lemma_event_xor_response(rr: ReqResp)
    ensures
        !(rr.spec_is_event() && rr.spec_is_response()),
{
    let t = rr.type_;
    assert(0 <= t < 7 ==> t & 0x7faa_0000 == 0) by (bit_vector);
}

/// Every request frame is a response-tagged frame and no event.
pub proof fn lemma_request_is_not_event(rr: ReqResp, req_type: i32)
    requires
        rr.type_ == REQ_TAG | req_type,
    ensures
        rr.spec_is_response(),
        !rr.spec_is_event(),
{
    assert((0x7faa_0000i32 | req_type) & 0x7faa_0000 != 0) by (bit_vector);
    assert(!(0 <= (0x7faa_0000i32 | req_type) < 7)) by (bit_vector);
}

/// The event that frame `rr` announces, if it is an event frame.
pub open spec fn event_of(rr: ReqResp) -> Option<SpnavEvent> {
    let t = rr.type_;
    let d = rr.data;
    if t == UEV_MOTION {
        Some(
            SpnavEvent::Motion(
                MotionEvent {
                    x: d[0],
                    y: d[1],
                    z: d[2],
                    rx: d[3],
                    ry: d[4],
                    rz: d[5],
                    period: d[6] as u32,
                },
            ),
        )
    } else if t == UEV_PRESS || t == UEV_RELEASE {
        Some(SpnavEvent::Button(ButtonEvent { press: t == UEV_PRESS, bnum: d[0] }))
    } else if t == UEV_DEV {
        Some(
            SpnavEvent::Device(
                DeviceEvent {
                    op: if d[0] == 0 {
                        DeviceOp::Add
                    } else {
                        DeviceOp::Remove
                    },
                    id: d[1],
                    devtype: device_type_of(d[2]),
                    usb_vendor: d[3] as u32,
                    usb_product: d[4] as u32,
                },
            ),
        )
    } else if t == UEV_CFG {
        Some(SpnavEvent::Config(ConfigEvent { cfg: d[0], data: [d[1], d[2], d[3], d[4], d[5], d[6]] }))
    } else if t == UEV_RAWAXIS {
        Some(SpnavEvent::RawAxis(RawAxisEvent { idx: d[0], value: d[1] }))
    } else if t == UEV_RAWBUTTON {
        Some(SpnavEvent::RawButton(RawButtonEvent { bnum: d[0], press: d[1] != 0 }))
    } else {
        None
    }
}

/// The event that frame `rr` announces, if it is an event frame.
pub fn event_from_frame(rr: &ReqResp) -> (r: Option<SpnavEvent>)
    ensures
        r == event_of(*rr),
        r is Some <==> rr.spec_is_event(),
{
    if !rr.is_event() {
        return None;
    }
    let evt_type = rr.type_;
    match evt_type {
        UEV_MOTION => Some(
            SpnavEvent::Motion(
                MotionEvent {
                    x: rr.data[0],
                    y: rr.data[1],
                    z: rr.data[2],
                    rx: rr.data[3],
                    ry: rr.data[4],
                    rz: rr.data[5],
                    period: rr.data[6] as u32,
                },
            ),
        ),
        UEV_PRESS | UEV_RELEASE => Some(
            SpnavEvent::Button(ButtonEvent { press: evt_type == UEV_PRESS, bnum: rr.data[0] }),
        ),
        UEV_DEV => Some(
            SpnavEvent::Device(
                DeviceEvent {
                    op: if rr.data[0] == 0 {
                        DeviceOp::Add
                    } else {
                        DeviceOp::Remove
                    },
                    id: rr.data[1],
                    devtype: DeviceType::from_raw(rr.data[2]),
                    usb_vendor: rr.data[3] as u32,
                    usb_product: rr.data[4] as u32,
                },
            ),
        ),
        UEV_CFG => Some(
            SpnavEvent::Config(
                ConfigEvent {
                    cfg: rr.data[0],
                    data: [rr.data[1], rr.data[2], rr.data[3], rr.data[4], rr.data[5], rr.data[6]],
                },
            ),
        ),
        UEV_RAWAXIS => Some(SpnavEvent::RawAxis(RawAxisEvent { idx: rr.data[0], value: rr.data[1] })),
        UEV_RAWBUTTON => Some(
            SpnavEvent::RawButton(RawButtonEvent { bnum: rr.data[0], press: rr.data[1] != 0 }),
        ),
        _ => None,
    }
}

/// A motion frame carries the translation in data words 0..3, the rotation in
/// words 3..6 and the period, read as unsigned, in word 6.
pub proof fn lemma_motion_frame(rr: ReqResp)
    requires
        rr.type_ == UEV_MOTION,
    ensures
        event_of(rr) matches Some(SpnavEvent::Motion(m)) && m.x == rr.data[0] && m.y == rr.data[1]
            && m.z == rr.data[2] && m.rx == rr.data[3] && m.ry == rr.data[4] && m.rz == rr.data[5]
            && m.period == rr.data[6] as u32,
{
}

/// Press and release frames both carry the button number in data word 0; the
/// frame type alone tells a press from a release.
pub proof fn lemma_button_frame(rr: ReqResp)
    requires
        rr.type_ == UEV_PRESS || rr.type_ == UEV_RELEASE,
    ensures
        event_of(rr) matches Some(SpnavEvent::Button(b)) && b.bnum == rr.data[0] && (b.press
            <==> rr.type_ == 1),
{
}

/// A device frame: word 0 is zero for an added device and anything else for a
/// removed one, then the id, the device type id, and the USB vendor and product.
/// A listed device type id names the type that has it; any other names `Unknown`.
pub proof fn lemma_device_frame(rr: ReqResp)
    requires
        rr.type_ == UEV_DEV,
    ensures
        event_of(rr) matches Some(SpnavEvent::Device(d)) && (d.op == DeviceOp::Add <==> rr.data[0]
            == 0) && d.id == rr.data[1] && d.usb_vendor == rr.data[3] as u32 && d.usb_product
            == rr.data[4] as u32 && ((0x100 <= rr.data[2] <= 0x105 || 0x200 <= rr.data[2] <= 0x210)
            ==> crate::event::device_type_id(d.devtype) == rr.data[2]) && (!(0x100 <= rr.data[2]
            <= 0x105 || 0x200 <= rr.data[2] <= 0x210) ==> d.devtype == DeviceType::Unknown),
{
}

/// A configuration frame carries the setting's code in word 0 and its six values
/// in words 1..7, in order.
pub proof fn lemma_config_frame(rr: ReqResp)
    requires
        rr.type_ == UEV_CFG,
    ensures
        event_of(rr) matches Some(SpnavEvent::Config(c)) && c.cfg == rr.data[0] && forall|i: int|
            0 <= i < 6 ==> c.data[i] == rr.data[i + 1],
{
}

/// Raw axis frames carry the axis in word 0 and its value in word 1; raw button
/// frames the button in word 0 and, in word 1, non-zero when it is pressed.
pub proof fn lemma_raw_frames(rr: ReqResp)
    ensures
        rr.type_ == UEV_RAWAXIS ==> (event_of(rr) matches Some(SpnavEvent::RawAxis(a)) && a.idx
            == rr.data[0] && a.value == rr.data[1]),
        rr.type_ == UEV_RAWBUTTON ==> (event_of(rr) matches Some(SpnavEvent::RawButton(b)) && b.bnum
            == rr.data[0] && (b.press <==> rr.data[1] != 0)),
{
}

/// A frame announces an event exactly when its type is an event type, and the
/// event's type follows the frame type.
pub proof fn lemma_event_kind(rr: ReqResp)
    ensures
        event_of(rr) is Some <==> 0 <= rr.type_ < MAX_UEV,
        event_of(rr) matches Some(e) ==> e.kind() == (if rr.type_ == UEV_MOTION {
            crate::event::EventType::Motion
        } else if rr.type_ == UEV_PRESS || rr.type_ == UEV_RELEASE {
            crate::event::EventType::Button
        } else if rr.type_ == UEV_DEV {
            crate::event::EventType::Device
        } else if rr.type_ == UEV_CFG {
            crate::event::EventType::Config
        } else if rr.type_ == UEV_RAWAXIS {
            crate::event::EventType::RawAxis
        } else {
            crate::event::EventType::RawButton
        }),
{
}

/// Decode an incoming 32-byte event frame into an event.
pub fn decode_event(buf: &[u8; 32]) -> (r: Option<SpnavEvent>)
    ensures
        r == event_of(frame_value(buf@, endianness())),
{
    let rr = ReqResp::from_bytes(buf);
    event_from_frame(&rr)
}

} // verus!

verus! {

/// The word whose bytes, least significant first, are `b0`, `b1`, `b2`, `b3`.
pub open spec fn packed(b0: u8, b1: u8, b2: u8, b3: u8) -> i32 {
    (b0 as u32 | (b1 as u32) << 8u32 | (b2 as u32) << 16u32 | (b3 as u32) << 24u32) as i32
}

/// Byte `p` of the `count` string bytes that start at `start`; zero past them.
pub open spec fn chunk_byte(bytes: Seq<u8>, start: int, count: int, p: int) -> u8 {
    if p < count {
        bytes[start + p]
    } else {
        0
    }
}

/// Data word `j` of a string frame: chunk bytes `4j..4j + 4`, least significant first.
pub open spec fn chunk_word(bytes: Seq<u8>, start: int, count: int, j: int) -> i32 {
    packed(
        chunk_byte(bytes, start, count, 4 * j),
        chunk_byte(bytes, start, count, 4 * j + 1),
        chunk_byte(bytes, start, count, 4 * j + 2),
        chunk_byte(bytes, start, count, 4 * j + 3),
    )
}

/// Frame `k` of a string of `t` bytes sent under request `req_type`: up to 24 bytes
/// from offset `24 k`; status word 6 holds the length in the first frame and the
/// remaining length with [`REQSTR_CONT_BIT`] in the others.
pub open spec fn string_frame(req_type: i32, bytes: Seq<u8>, t: int, k: int) -> ReqResp {
    let start = 24 * k;
    let count = if t - start < 24 {
        t - start
    } else {
        24
    };
    ReqResp {
        type_: REQ_TAG | req_type,
        data: [
            chunk_word(bytes, start, count, 0),
            chunk_word(bytes, start, count, 1),
            chunk_word(bytes, start, count, 2),
            chunk_word(bytes, start, count, 3),
            chunk_word(bytes, start, count, 4),
            chunk_word(bytes, start, count, 5),
            if k == 0 {
                t as i32
            } else {
                (t - start) as i32 | REQSTR_CONT_BIT
            },
        ],
    }
}

/// The frames that carry the string `bytes` under request `req_type`. The length
/// travels as a signed 32-bit word: a string whose length does not read as a
/// positive word travels as one empty frame, and only the first `len as i32`
/// bytes of a longer one are sent.
pub open spec fn string_frames(req_type: i32, bytes: Seq<u8>) -> Seq<ReqResp> {
    let t = (bytes.len() as i32) as int;
    if t <= 0 {
        seq![string_frame(req_type, bytes, 0, 0)]
    } else {
        Seq::new(((t + 23) / 24) as nat, |k: int| string_frame(req_type, bytes, t, k))
    }
}

/// Data word `j` after the first `i` bytes of a chunk have been or-ed into it.
spec fn partial_word(bytes: Seq<u8>, start: int, i: int, j: int) -> i32 {
    chunk_word(bytes, start, i, j)
}

proof fn lemma_packed_zero()
    ensures
        packed(0, 0, 0, 0) == 0,
{
    assert(((0u8 as u32 | (0u8 as u32) << 8u32 | (0u8 as u32) << 16u32 | (0u8 as u32) << 24u32) as i32)
        == 0) by (bit_vector);
}

proof fn lemma_or_byte_into_word(b0: u8, b1: u8, b2: u8, b: u8)
    ensures
        packed(0, 0, 0, 0) | ((b as i32) << 0usize) == packed(b, 0, 0, 0),
        packed(b0, 0, 0, 0) | ((b as i32) << 8usize) == packed(b0, b, 0, 0),
        packed(b0, b1, 0, 0) | ((b as i32) << 16usize) == packed(b0, b1, b, 0),
        packed(b0, b1, b2, 0) | ((b as i32) << 24usize) == packed(b0, b1, b2, b),
{
    assert(((0u8 as u32 | (0u8 as u32) << 8u32 | (0u8 as u32) << 16u32 | (0u8 as u32) << 24u32) as i32)
        | ((b as i32) << 0usize) == ((b as u32 | (0u8 as u32) << 8u32 | (0u8 as u32) << 16u32 | (0u8
        as u32) << 24u32) as i32)) by (bit_vector);
    assert(((b0 as u32 | (0u8 as u32) << 8u32 | (0u8 as u32) << 16u32 | (0u8 as u32) << 24u32) as i32)
        | ((b as i32) << 8usize) == ((b0 as u32 | (b as u32) << 8u32 | (0u8 as u32) << 16u32 | (0u8
        as u32) << 24u32) as i32)) by (bit_vector);
    assert(((b0 as u32 | (b1 as u32) << 8u32 | (0u8 as u32) << 16u32 | (0u8 as u32) << 24u32) as i32)
        | ((b as i32) << 16usize) == ((b0 as u32 | (b1 as u32) << 8u32 | (b as u32) << 16u32 | (0u8
        as u32) << 24u32) as i32)) by (bit_vector);
    assert(((b0 as u32 | (b1 as u32) << 8u32 | (b2 as u32) << 16u32 | (0u8 as u32) << 24u32) as i32)
        | ((b as i32) << 24usize) == ((b0 as u32 | (b1 as u32) << 8u32 | (b2 as u32) << 16u32 | (b
        as u32) << 24u32) as i32)) by (bit_vector);
}

proof fn lemma_partial_word_step(bytes: Seq<u8>, start: int, i: int, j: int)
    requires
        0 <= i,
        0 <= j,
    ensures
        j != i / 4 ==> partial_word(bytes, start, i + 1, j) == partial_word(bytes, start, i, j),
        j == i / 4 ==> partial_word(bytes, start, i + 1, j) == partial_word(bytes, start, i, j) | ((
        bytes[start + i] as i32) << (((i % 4) * 8) as usize)),
{
    let b = bytes[start + i];
    if j != i / 4 {
        assert(i < 4 * j || i >= 4 * j + 4);
    } else {
        let q = i % 4;
        assert(i == 4 * j + q);
        lemma_or_byte_into_word(
            chunk_byte(bytes, start, i, 4 * j),
            chunk_byte(bytes, start, i, 4 * j + 1),
            chunk_byte(bytes, start, i, 4 * j + 2),
            b,
        );
    }
}

/// Chunked string encoder: the sequence of frames that carries `s` under request `req_type`.
pub fn encode_string_chunks(req_type: i32, s: &str) -> (r: Vec<ReqResp>)
    ensures
        r@ == string_frames(req_type, s.spec_bytes()),
{
    let bytes = s.as_bytes();
    let len = bytes.len();
    let mut chunks: Vec<ReqResp> = Vec::new();
    let mut offset: usize = 0;
    let mut remaining = len as i32;
    let ghost t = remaining as int;
    assert((len as i32) > 0 ==> (len as i32) as usize <= len) by (bit_vector);
    while remaining > 0
        invariant
            bytes@ == s.spec_bytes(),
            len == bytes@.len(),
            t == (len as i32) as int,
            t > 0 ==> t <= len,
            t > 0 ==> 0 <= remaining && remaining == t - offset,
            t <= 0 ==> remaining == t && offset == 0,
            remaining > 0 ==> offset == 24 * chunks.len(),
            chunks.len() == (offset + 23) / 24,
            forall|k: int| 0 <= k < chunks.len() ==> chunks@[k] == string_frame(req_type, bytes@, t, k),
        decreases remaining,
    {
        let chunk_len = (remaining as usize).min(REQSTR_CHUNK_SIZE);
        let mut rr = ReqResp::zeroed();
        rr.type_ = REQ_TAG | req_type;
        let ghost k = chunks.len() as int;
        proof {
            lemma_packed_zero();
        }
        let mut i: usize = 0;
        while i < chunk_len
            invariant
                0 <= i <= chunk_len,
                bytes@ == s.spec_bytes(),
                len == bytes@.len(),
                offset + chunk_len <= len,
                chunk_len <= 24,
                rr.type_ == REQ_TAG | req_type,
                rr.data[6] == 0,
                forall|j: int| 0 <= j < 6 ==> rr.data[j] == #[trigger] partial_word(bytes@, offset as int, i as int, j),
            decreases chunk_len - i,
        {
            proof {
                assert forall|j: int| 0 <= j < 6 && j != i / 4 implies #[trigger] partial_word(
                    bytes@,
                    offset as int,
                    i + 1,
                    j,
                ) == rr.data[j] by {
                    assert(rr.data[j] == partial_word(bytes@, offset as int, i as int, j));
                    lemma_partial_word_step(bytes@, offset as int, i as int, j);
                    assert(partial_word(bytes@, offset as int, i + 1, j) == partial_word(bytes@, offset as int, i as int, j));
                }
                lemma_partial_word_step(bytes@, offset as int, i as int, (i / 4) as int);
                assert(partial_word(bytes@, offset as int, i + 1, (i / 4) as int) == rr.data[(i / 4) as int]
                    | ((bytes@[offset + i] as i32) << (((i % 4) * 8) as usize)));
            }
            rr.data[i / 4] = rr.data[i / 4] | ((bytes[offset + i] as i32) << ((i % 4) * 8));
            i += 1;
        }
        if offset == 0 {
            rr.data[6] = len as i32;
        } else {
            rr.data[6] = remaining | REQSTR_CONT_BIT;
        }
        assert(chunk_len as int == if t - offset < 24 { t - offset } else { 24 });
        assert forall|j: int| 0 <= j < 6 implies rr.data[j] == #[trigger] string_frame(
            req_type,
            bytes@,
            t,
            k,
        ).data[j] by {
            assert(rr.data[j] == partial_word(bytes@, offset as int, chunk_len as int, j));
        }
        assert(rr.data =~= string_frame(req_type, bytes@, t, k).data);
        chunks.push(rr);
        offset += chunk_len;
        remaining -= chunk_len as i32;
    }
    if chunks.len() == 0 {
        let mut rr = ReqResp::zeroed();
        rr.type_ = REQ_TAG | req_type;
        rr.data[6] = 0;
        proof {
            lemma_packed_zero();
        }
        assert(rr.data =~= string_frame(req_type, bytes@, 0, 0).data);
        chunks.push(rr);
    }
    assert(chunks@ =~= string_frames(req_type, s.spec_bytes()));
    chunks
}

} // verus!

verus! {

/// `String::from_utf8_lossy(bytes)`: the text that `bytes` decode to, each invalid
/// sequence replaced by U+FFFD.
pub uninterp spec fn utf8_lossy(bytes: Seq<u8>) -> Seq<char>;

/// `String::from_utf8_lossy`, taken as an owned `String`: the result is named by
/// [`utf8_lossy`]; for valid UTF-8 it is exactly the decoded text, which is what
/// the standard library documents. What it is for invalid input is left unsaid.
#[verifier::external_body]
pub(crate) fn string_from_utf8_lossy(bytes: &[u8]) -> (r: String)
    ensures
        r@ == utf8_lossy(bytes@),
        valid_utf8(bytes@) ==> r@ == decode_utf8(bytes@),
{
    String::from_utf8_lossy(bytes).into_owned()
}

/// Byte `i` of the string payload of a frame: byte `i % 4`, least significant
/// first, of data word `i / 4`.
pub open spec fn frame_char(data: [i32; 7], i: int) -> u8 {
    ((data[i / 4] >> (((i % 4) * 8) as usize)) & 0xff) as u8
}

/// The abstract state of a [`StringDecoder`].
pub struct DecoderState {
    /// String bytes received so far.
    pub buf: Seq<u8>,
    /// String bytes still expected.
    pub expect: int,
    /// Whether a first frame has ever been received.
    pub started: bool,
}

/// What feeding one frame to a [`StringDecoder`] yields.
pub enum Fed {
    /// The frame reported a daemon failure.
    Failed,
    /// A continuation frame reached a decoder that never saw a first frame.
    NotStarted,
    /// More frames are expected.
    Partial,
    /// The string is complete; these are its bytes.
    Done(Seq<u8>),
}

/// Whether frame `rr` starts a string (its continuation bit is clear).
pub open spec fn starts_string(rr: ReqResp) -> bool {
    rr.data[6] & REQSTR_CONT_BIT == 0
}

/// The remaining length that frame `rr` announces (low 16 bits of its status word).
pub open spec fn announced_len(rr: ReqResp) -> int {
    (rr.data[6] & 0xffff) as int
}

/// The decoder state in which frame `rr` is handled: reset by a first frame.
pub open spec fn state_for(m: DecoderState, rr: ReqResp) -> DecoderState {
    if starts_string(rr) {
        DecoderState { buf: seq![], expect: announced_len(rr), started: true }
    } else {
        m
    }
}

/// Number of string bytes that frame `rr` carries.
pub open spec fn carried_len(rr: ReqResp) -> int {
    if announced_len(rr) < 24 {
        announced_len(rr)
    } else {
        24
    }
}

/// Whether frame `rr` carries more bytes than decoder state `m` still expects;
/// the expected count would then drop below zero.
pub open spec fn overruns(m: DecoderState, rr: ReqResp) -> bool {
    &&& rr.data[6] >= 0
    &&& state_for(m, rr).started
    &&& carried_len(rr) > state_for(m, rr).expect
}

/// Feeding frame `rr` to a decoder in state `m`: the next state and the outcome.
pub open spec fn feed_step(m: DecoderState, rr: ReqResp) -> (DecoderState, Fed) {
    if rr.data[6] < 0 {
        (m, Fed::Failed)
    } else {
        let m1 = state_for(m, rr);
        if !m1.started {
            (m1, Fed::NotStarted)
        } else {
            let n = carried_len(rr);
            let buf = m1.buf + Seq::new(n as nat, |i: int| frame_char(rr.data, i));
            let expect = m1.expect - n;
            if expect == 0 {
                (DecoderState { buf: seq![], expect: 0, started: true }, Fed::Done(buf))
            } else {
                (DecoderState { buf, expect, started: true }, Fed::Partial)
            }
        }
    }
}

/// State machine for decoding chunked string responses.
#[derive(Debug)]
pub struct StringDecoder {
    buf: Vec<u8>,
    expect: usize,
    started: bool,
}

impl View for StringDecoder {
    type V = DecoderState;

    closed spec fn view(&self) -> DecoderState {
        DecoderState { buf: self.buf@, expect: self.expect as int, started: self.started }
    }
}

impl StringDecoder {
    /// A decoder that has not seen any frame.
    pub fn new() -> (r: Self)
        ensures
            r@ == (DecoderState { buf: seq![], expect: 0, started: false }),
    {
        Self { buf: Vec::new(), expect: 0, started: false }
    }

    /// Whether frame `rr` carries more bytes than this decoder still expects.
    pub fn overruns(&self, rr: &ReqResp) -> (r: bool)
        ensures
            r == overruns(self@, *rr),
    {
        if rr.data[6] < 0 {
            return false;
        }
        let status = rr.data[6];
        assert(status & 0xffff >= 0 && status & 0xffff <= 0xffff) by (bit_vector);
        let remaining = (rr.data[6] & 0xffff) as usize;
        let is_first = (rr.data[6] & REQSTR_CONT_BIT) == 0;
        let (expect, started) = if is_first {
            (remaining, true)
        } else {
            (self.expect, self.started)
        };
        let to_copy = remaining.min(REQSTR_CHUNK_SIZE);
        started && to_copy > expect
    }

    /// Feed a response frame. Returns `Some(text)` when the string is complete.
    pub fn feed(&mut self, rr: &ReqResp) -> (r: Result<Option<String>, Error>)
        requires
            !overruns(old(self)@, *rr),
        ensures
            ({
                let (m, fed) = feed_step(old(self)@, *rr);
                &&& final(self)@ == m
                &&& match fed {
                    Fed::Failed => r matches Err(Error::DaemonFailure),
                    Fed::NotStarted => r matches Err(Error::Protocol(msg)) && msg@
                        == "string decoder not initialized"@,
                    Fed::Partial => r matches Ok(None),
                    Fed::Done(b) => r matches Ok(Some(text)) && text@ == utf8_lossy(b) && (
                    valid_utf8(b) ==> text@ == decode_utf8(b)),
                }
            }),
    {
        if rr.data[6] < 0 {
            return Err(Error::DaemonFailure);
        }
        let status = rr.data[6];
        assert(status & 0xffff >= 0 && status & 0xffff <= 0xffff) by (bit_vector);
        let remaining = (rr.data[6] & 0xffff) as usize;
        let is_first = (rr.data[6] & REQSTR_CONT_BIT) == 0;
        if is_first {
            self.expect = remaining;
            self.buf = Vec::new();
            self.started = true;
        }
        if !self.started {
            return Err(Error::Protocol(String::from_str("string decoder not initialized")));
        }
        let to_copy = remaining.min(REQSTR_CHUNK_SIZE);
        assert(to_copy as int == carried_len(*rr));
        let ghost m1 = self@;
        let ghost buf0 = self.buf@;
        let mut i: usize = 0;
        while i < to_copy
            invariant
                0 <= i <= to_copy <= 24,
                self.buf@ == buf0 + Seq::new(i as nat, |p: int| frame_char(rr.data, p)),
                self.expect == m1.expect,
                self.started == m1.started,
                to_copy <= self.expect,
            decreases to_copy - i,
        {
            let byte = ((rr.data[i / 4] >> ((i % 4) * 8)) & 0xff) as u8;
            self.buf.push(byte);
            assert(self.buf@ =~= buf0 + Seq::new((i + 1) as nat, |p: int| frame_char(rr.data, p)));
            i += 1;
        }
        self.expect -= to_copy;
        if self.expect == 0 {
            let s = string_from_utf8_lossy(self.buf.as_slice());
            self.buf.clear();
            return Ok(Some(s));
        }
        Ok(None)
    }
}

impl Default for StringDecoder {
    /// The same as [`StringDecoder::new`]: a decoder that has not seen any frame.
    fn default() -> (r: Self)
        ensures
            r@ == (DecoderState { buf: seq![], expect: 0, started: false }),
    {
        StringDecoder::new()
    }
}

} // verus!

verus! {

/// Feeding `frames` in order to a decoder in state `m`: the final state and the outcomes.
pub open spec fn feed_all(m: DecoderState, frames: Seq<ReqResp>) -> (DecoderState, Seq<Fed>)
    decreases frames.len(),
{
    if frames.len() == 0 {
        (m, seq![])
    } else {
        let (m1, fed) = feed_step(m, frames[0]);
        let (m2, rest) = feed_all(m1, frames.drop_first());
        (m2, seq![fed] + rest)
    }
}

/// Whether no frame of `frames`, fed in order from state `m`, overruns the decoder.
pub open spec fn never_overruns(m: DecoderState, frames: Seq<ReqResp>) -> bool
    decreases frames.len(),
{
    frames.len() == 0 || (!overruns(m, frames[0]) && never_overruns(
        feed_step(m, frames[0]).0,
        frames.drop_first(),
    ))
}

proof fn lemma_byte_of_packed(b0: u8, b1: u8, b2: u8, b3: u8)
    ensures
        ((packed(b0, b1, b2, b3) >> 0usize) & 0xff) as u8 == b0,
        ((packed(b0, b1, b2, b3) >> 8usize) & 0xff) as u8 == b1,
        ((packed(b0, b1, b2, b3) >> 16usize) & 0xff) as u8 == b2,
        ((packed(b0, b1, b2, b3) >> 24usize) & 0xff) as u8 == b3,
{
    let w = packed(b0, b1, b2, b3);
    assert(((w >> 0usize) & 0xff) as u8 == b0 && ((w >> 8usize) & 0xff) as u8 == b1 && ((w >> 16usize)
        & 0xff) as u8 == b2 && ((w >> 24usize) & 0xff) as u8 == b3) by (bit_vector)
        requires
            w == (b0 as u32 | (b1 as u32) << 8u32 | (b2 as u32) << 16u32 | (b3 as u32) << 24u32) as i32,
    ;
}

/// The payload bytes of string frame `k` are the string's bytes from offset `24 k`.
proof fn lemma_string_frame_chars(req_type: i32, bytes: Seq<u8>, t: int, k: int, i: int)
    requires
        0 <= k,
        0 <= i < 24,
        i < t - 24 * k,
        t <= bytes.len(),
    ensures
        frame_char(string_frame(req_type, bytes, t, k).data, i) == bytes[24 * k + i],
{
    let start = 24 * k;
    let count = if t - start < 24 {
        t - start
    } else {
        24
    };
    let j = i / 4;
    let q = i % 4;
    assert(0 <= j < 6 && i == 4 * j + q);
    lemma_byte_of_packed(
        chunk_byte(bytes, start, count, 4 * j),
        chunk_byte(bytes, start, count, 4 * j + 1),
        chunk_byte(bytes, start, count, 4 * j + 2),
        chunk_byte(bytes, start, count, 4 * j + 3),
    );
}

proof fn lemma_status_first(t: i32)
    requires
        0 <= t <= 0xffff,
    ensures
        t & REQSTR_CONT_BIT == 0,
        (t & 0xffff) as int == t as int,
{
    assert(t & 0x10000 == 0 && t & 0xffff == t) by (bit_vector)
        requires
            0 <= t <= 0xffff,
    ;
}

proof fn lemma_status_continued(r: i32)
    requires
        0 < r <= 0xffff,
    ensures
        (r | REQSTR_CONT_BIT) >= 0,
        (r | REQSTR_CONT_BIT) & REQSTR_CONT_BIT != 0,
        ((r | REQSTR_CONT_BIT) & 0xffff) as int == r as int,
{
    assert((r | 0x10000) >= 0 && (r | 0x10000) & 0x10000 != 0 && (r | 0x10000) & 0xffff == r)
        by (bit_vector)
        requires
            0 < r <= 0xffff,
    ;
}

/// The decoder state after the first `k` frames of a string of `bytes`, `k >= 1`.
spec fn state_after(bytes: Seq<u8>, k: int) -> DecoderState {
    DecoderState { buf: bytes.subrange(0, 24 * k), expect: bytes.len() - 24 * k, started: true }
}

spec fn done_state() -> DecoderState {
    DecoderState { buf: seq![], expect: 0, started: true }
}

/// Feeding string frame `k` to the state reached after frames `0..k`.
proof fn lemma_string_step(m: DecoderState, req_type: i32, bytes: Seq<u8>, k: int)
    requires
        1 <= bytes.len() <= 0xffff,
        0 <= k < string_frames(req_type, bytes).len(),
        k > 0 ==> m == state_after(bytes, k),
    ensures
        !overruns(m, string_frames(req_type, bytes)[k]),
        feed_step(m, string_frames(req_type, bytes)[k]) == if k == string_frames(req_type, bytes).len()
            - 1 {
            (done_state(), Fed::Done(bytes))
        } else {
            (state_after(bytes, k + 1), Fed::Partial)
        },
{
    let n = bytes.len() as int;
    let t = (bytes.len() as i32) as int;
    assert(t == n);
    let frames = string_frames(req_type, bytes);
    let nf = (t + 23) / 24;
    assert(frames.len() == nf);
    assert(24 * (nf - 1) < t <= 24 * nf);
    let rr = frames[k];
    assert(rr == string_frame(req_type, bytes, t, k));
    let start = 24 * k;
    let r = t - start;
    assert(0 < r);
    if k == 0 {
        lemma_status_first(t as i32);
    } else {
        lemma_status_continued(r as i32);
    }
    assert(announced_len(rr) == r);
    let count = carried_len(rr);
    assert(count == if r < 24 {
        r
    } else {
        24
    });
    let m1 = state_for(m, rr);
    assert(m1.buf == bytes.subrange(0, start) && m1.expect == r && m1.started);
    let chars = Seq::new(count as nat, |i: int| frame_char(rr.data, i));
    assert forall|i: int| 0 <= i < count implies chars[i] == bytes[start + i] by {
        lemma_string_frame_chars(req_type, bytes, t, k, i);
    }
    assert(m1.buf + chars =~= bytes.subrange(0, start + count));
    if k == nf - 1 {
        assert(r <= 24);
        assert(bytes.subrange(0, start + count) =~= bytes);
    } else {
        assert(r > 24);
    }
}

proof fn lemma_string_suffix(req_type: i32, bytes: Seq<u8>, k: int)
    requires
        1 <= bytes.len() <= 0xffff,
        1 <= k < string_frames(req_type, bytes).len(),
    ensures
        ({
            let frames = string_frames(req_type, bytes);
            let rest = frames.subrange(k, frames.len() as int);
            &&& never_overruns(state_after(bytes, k), rest)
            &&& feed_all(state_after(bytes, k), rest) == (done_state(), Seq::new(
                rest.len(),
                |i: int|
                    if i == rest.len() - 1 {
                        Fed::Done(bytes)
                    } else {
                        Fed::Partial
                    },
            ))
        }),
    decreases string_frames(req_type, bytes).len() - k,
{
    let frames = string_frames(req_type, bytes);
    let rest = frames.subrange(k, frames.len() as int);
    lemma_string_step(state_after(bytes, k), req_type, bytes, k);
    assert(rest[0] == frames[k]);
    if k == frames.len() - 1 {
        assert(rest.drop_first() =~= Seq::<ReqResp>::empty());
        assert(feed_all(done_state(), rest.drop_first()) == (done_state(), Seq::<Fed>::empty()));
        assert(never_overruns(done_state(), rest.drop_first()));
        assert(feed_all(state_after(bytes, k), rest).1 =~= Seq::new(
            rest.len(),
            |i: int|
                if i == rest.len() - 1 {
                    Fed::Done(bytes)
                } else {
                    Fed::Partial
                },
        ));
    } else {
        lemma_string_suffix(req_type, bytes, k + 1);
        assert(rest.drop_first() =~= frames.subrange(k + 1, frames.len() as int));
        assert(never_overruns(state_after(bytes, k + 1), rest.drop_first()));
        assert(feed_all(state_after(bytes, k), rest).1 =~= Seq::new(
            rest.len(),
            |i: int|
                if i == rest.len() - 1 {
                    Fed::Done(bytes)
                } else {
                    Fed::Partial
                },
        ));
    }
}

/// The string codec round-trips: the frames that carry a string of at most 0xffff
/// bytes, fed in order to a decoder in any state, never overrun it, and yield
/// `Partial` for every frame but the last, which yields exactly the string's bytes.
/// The bytes of any text are valid UTF-8 that decodes back to the text.
pub proof fn lemma_string_roundtrip(m: DecoderState, req_type: i32, text: Seq<char>)
    requires
        encode_utf8(text).len() <= 0xffff,
    ensures
        ({
            let bytes = encode_utf8(text);
            let frames = string_frames(req_type, bytes);
            let outs = feed_all(m, frames).1;
            &&& never_overruns(m, frames)
            &&& outs.len() == frames.len()
            &&& outs.last() == Fed::Done(bytes)
            &&& forall|k: int| 0 <= k < outs.len() - 1 ==> outs[k] == Fed::Partial
        }),
        valid_utf8(encode_utf8(text)),
        decode_utf8(encode_utf8(text)) == text,
{
    broadcast use vstd::utf8::encode_utf8_valid_utf8, vstd::utf8::encode_utf8_decode_utf8;

    let bytes = encode_utf8(text);
    let frames = string_frames(req_type, bytes);
    if bytes.len() == 0 {
        let rr = frames[0];
        assert(rr.data[6] == 0);
        lemma_status_first(0);
        assert(frames.drop_first() =~= Seq::<ReqResp>::empty());
        assert(Seq::new(0, |i: int| frame_char(rr.data, i)) =~= bytes);
        assert(feed_step(m, rr) == (done_state(), Fed::Done(bytes)));
        assert(feed_all(done_state(), frames.drop_first()) == (done_state(), Seq::<Fed>::empty()));
        assert(never_overruns(done_state(), frames.drop_first()));
        assert(feed_all(m, frames).1 =~= seq![Fed::Done(bytes)]);
    } else {
        lemma_string_step(m, req_type, bytes, 0);
        if frames.len() == 1 {
            assert(frames.drop_first() =~= Seq::<ReqResp>::empty());
            assert(feed_all(done_state(), frames.drop_first()) == (done_state(), Seq::<Fed>::empty()));
            assert(never_overruns(done_state(), frames.drop_first()));
            assert(feed_all(m, frames).1 =~= seq![Fed::Done(bytes)]);
        } else {
            lemma_string_suffix(req_type, bytes, 1);
            assert(frames.drop_first() =~= frames.subrange(1, frames.len() as int));
            let outs = feed_all(m, frames).1;
            assert(outs =~= seq![Fed::Partial] + feed_all(state_after(bytes, 1), frames.drop_first()).1);
        }
    }
}

} // verus!
