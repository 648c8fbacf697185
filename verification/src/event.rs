//! Events reported by the spacenav daemon.

use vstd::prelude::*;

verus! {

/// Types of spnav events.
#[derive(Debug, Clone, Copy, PartialEq, Eq, Structural)]
pub enum EventType {
    /// 6DOF motion event (translation + rotation).
    Motion,
    /// Button press or release event.
    Button,
    /// Device add/remove event.
    Device,
    /// Configuration change event.
    Config,
    /// Raw axis value event (before mapping).
    RawAxis,
    /// Raw button value event (before mapping).
    RawButton,
}

/// 6DOF motion event: translation (x, y, z) and rotation (rx, ry, rz) in device units.
#[derive(Debug, Clone, PartialEq, Eq, Structural)]
pub struct MotionEvent {
    /// Translation along the X axis.
    pub x: i32,
    /// Translation along the Y axis.
    pub y: i32,
    /// Translation along the Z axis.
    pub z: i32,
    /// Rotation around the X axis.
    pub rx: i32,
    /// Rotation around the Y axis.
    pub ry: i32,
    /// Rotation around the Z axis.
    pub rz: i32,
    /// Time period since last motion event (in milliseconds).
    pub period: u32,
}

/// Button press or release event.
#[derive(Debug, Clone, PartialEq, Eq, Structural)]
pub struct ButtonEvent {
    /// `true` for press, `false` for release.
    pub press: bool,
    /// Button number (0-indexed).
    pub bnum: i32,
}

/// Device operation type.
#[derive(Debug, Clone, Copy, PartialEq, Eq, Structural)]
pub enum DeviceOp {
    /// Device was added.
    Add,
    /// Device was removed.
    Remove,
}

/// Known device types. Serial devices have ids in `0x100..0x106`,
/// USB devices in `0x200..0x211`; see [`DeviceType::raw`].
#[derive(Debug, Clone, Copy, PartialEq, Eq, Structural)]
pub enum DeviceType {
    /// Unknown or unrecognized device type.
    Unknown,
    /// Spaceball 1003/2003/2003C.
    Sb2003,
    /// Spaceball 3003/3003C.
    Sb3003,
    /// Spaceball 4000FLX/5000FLX.
    Sb4000,
    /// Magellan SpaceMouse (serial).
    Sm,
    /// Spaceball 5000 (SpaceMouse protocol).
    Sm5000,
    /// 3Dconnexion CadMan (SpaceMouse protocol).
    SmCadman,
    /// SpaceMouse Plus XT.
    PlusXt,
    /// 3Dconnexion CadMan (USB).
    Cadman,
    /// SpaceMouse Classic.
    SmClassic,
    /// Spaceball 5000 (USB).
    Sb5000,
    /// Space Traveller.
    STraveller,
    /// Space Pilot.
    SPilot,
    /// Space Navigator.
    SNav,
    /// Space Explorer.
    SExp,
    /// Space Navigator for Notebooks.
    SNavNb,
    /// Space Pilot Pro.
    SPilotPro,
    /// SpaceMouse Pro.
    SMPro,
    /// NuLOOQ.
    NuLooq,
    /// SpaceMouse Wireless.
    Smw,
    /// SpaceMouse Pro Wireless.
    SMProW,
    /// SpaceMouse Enterprise.
    SMEnt,
    /// SpaceMouse Compact.
    SMComp,
    /// SpaceMouse Module.
    SMMod,
}

/// The device type that the daemon reports under the id `val`.
pub open spec fn device_type_of(val: i32) -> DeviceType {
    match val {
        0x100 => DeviceType::Sb2003,
        0x101 => DeviceType::Sb3003,
        0x102 => DeviceType::Sb4000,
        0x103 => DeviceType::Sm,
        0x104 => DeviceType::Sm5000,
        0x105 => DeviceType::SmCadman,
        0x200 => DeviceType::PlusXt,
        0x201 => DeviceType::Cadman,
        0x202 => DeviceType::SmClassic,
        0x203 => DeviceType::Sb5000,
        0x204 => DeviceType::STraveller,
        0x205 => DeviceType::SPilot,
        0x206 => DeviceType::SNav,
        0x207 => DeviceType::SExp,
        0x208 => DeviceType::SNavNb,
        0x209 => DeviceType::SPilotPro,
        0x20a => DeviceType::SMPro,
        0x20b => DeviceType::NuLooq,
        0x20c => DeviceType::Smw,
        0x20d => DeviceType::SMProW,
        0x20e => DeviceType::SMEnt,
        0x20f => DeviceType::SMComp,
        0x210 => DeviceType::SMMod,
        _ => DeviceType::Unknown,
    }
}

/// The id under which the daemon reports a device type.
pub open spec fn device_type_id(t: DeviceType) -> i32 {
    match t {
        DeviceType::Unknown => 0,
        DeviceType::Sb2003 => 0x100,
        DeviceType::Sb3003 => 0x101,
        DeviceType::Sb4000 => 0x102,
        DeviceType::Sm => 0x103,
        DeviceType::Sm5000 => 0x104,
        DeviceType::SmCadman => 0x105,
        DeviceType::PlusXt => 0x200,
        DeviceType::Cadman => 0x201,
        DeviceType::SmClassic => 0x202,
        DeviceType::Sb5000 => 0x203,
        DeviceType::STraveller => 0x204,
        DeviceType::SPilot => 0x205,
        DeviceType::SNav => 0x206,
        DeviceType::SExp => 0x207,
        DeviceType::SNavNb => 0x208,
        DeviceType::SPilotPro => 0x209,
        DeviceType::SMPro => 0x20a,
        DeviceType::NuLooq => 0x20b,
        DeviceType::Smw => 0x20c,
        DeviceType::SMProW => 0x20d,
        DeviceType::SMEnt => 0x20e,
        DeviceType::SMComp => 0x20f,
        DeviceType::SMMod => 0x210,
    }
}

impl DeviceType {
    /// Convert a raw device type ID to a [`DeviceType`] variant.
    ///
    /// Returns [`DeviceType::Unknown`] for unrecognized IDs.
    pub fn from_raw(val: i32) -> (r: DeviceType)
        ensures
            r == device_type_of(val),
    {
        match val {
            0 => DeviceType::Unknown,
            0x100 => DeviceType::Sb2003,
            0x101 => DeviceType::Sb3003,
            0x102 => DeviceType::Sb4000,
            0x103 => DeviceType::Sm,
            0x104 => DeviceType::Sm5000,
            0x105 => DeviceType::SmCadman,
            0x200 => DeviceType::PlusXt,
            0x201 => DeviceType::Cadman,
            0x202 => DeviceType::SmClassic,
            0x203 => DeviceType::Sb5000,
            0x204 => DeviceType::STraveller,
            0x205 => DeviceType::SPilot,
            0x206 => DeviceType::SNav,
            0x207 => DeviceType::SExp,
            0x208 => DeviceType::SNavNb,
            0x209 => DeviceType::SPilotPro,
            0x20a => DeviceType::SMPro,
            0x20b => DeviceType::NuLooq,
            0x20c => DeviceType::Smw,
            0x20d => DeviceType::SMProW,
            0x20e => DeviceType::SMEnt,
            0x20f => DeviceType::SMComp,
            0x210 => DeviceType::SMMod,
            _ => DeviceType::Unknown,
        }
    }

    /// The raw device type ID of this variant (`0` for [`DeviceType::Unknown`]).
    pub fn raw(self) -> (r: i32)
        ensures
            r == device_type_id(self),
    {
        match self {
            DeviceType::Unknown => 0,
            DeviceType::Sb2003 => 0x100,
            DeviceType::Sb3003 => 0x101,
            DeviceType::Sb4000 => 0x102,
            DeviceType::Sm => 0x103,
            DeviceType::Sm5000 => 0x104,
            DeviceType::SmCadman => 0x105,
            DeviceType::PlusXt => 0x200,
            DeviceType::Cadman => 0x201,
            DeviceType::SmClassic => 0x202,
            DeviceType::Sb5000 => 0x203,
            DeviceType::STraveller => 0x204,
            DeviceType::SPilot => 0x205,
            DeviceType::SNav => 0x206,
            DeviceType::SExp => 0x207,
            DeviceType::SNavNb => 0x208,
            DeviceType::SPilotPro => 0x209,
            DeviceType::SMPro => 0x20a,
            DeviceType::NuLooq => 0x20b,
            DeviceType::Smw => 0x20c,
            DeviceType::SMProW => 0x20d,
            DeviceType::SMEnt => 0x20e,
            DeviceType::SMComp => 0x20f,
            DeviceType::SMMod => 0x210,
        }
    }
}

/// Every device type is recovered from its id: `from_raw` undoes `raw`.
pub proof fn lemma_device_type_id_roundtrip(t: DeviceType)
    ensures
        device_type_of(device_type_id(t)) == t,
{
}

/// Ids outside `0x100..=0x105` and `0x200..=0x210` denote an unknown device.
pub proof fn lemma_unlisted_ids_are_unknown(val: i32)
    requires
        !(0x100 <= val <= 0x105),
        !(0x200 <= val <= 0x210),
    ensures
        device_type_of(val) == DeviceType::Unknown,
{
}

/// Device add/remove event.
#[derive(Debug, Clone, PartialEq, Eq, Structural)]
pub struct DeviceEvent {
    /// Whether the device was added or removed.
    pub op: DeviceOp,
    /// Device ID.
    pub id: i32,
    /// Device type.
    pub devtype: DeviceType,
    /// USB vendor ID (0 if serial device).
    pub usb_vendor: u32,
    /// USB product ID (0 if serial device).
    pub usb_product: u32,
}

/// Configuration change event.
#[derive(Debug, Clone, PartialEq, Eq)]
pub struct ConfigEvent {
    /// Configuration parameter that changed (one of the `GCFG_*` request codes).
    pub cfg: i32,
    /// Configuration data (the six values of the protocol frame's data words 1 to 6).
    pub data: [i32; 6],
}

/// Raw axis value event, before axis mapping.
#[derive(Debug, Clone, PartialEq, Eq, Structural)]
pub struct RawAxisEvent {
    /// Axis number (0-indexed).
    pub idx: i32,
    /// Raw axis value.
    pub value: i32,
}

/// Raw button value event, before button mapping.
#[derive(Debug, Clone, PartialEq, Eq, Structural)]
pub struct RawButtonEvent {
    /// Button number (0-indexed).
    pub bnum: i32,
    /// `true` for pressed, `false` for released.
    pub press: bool,
}

/// Union of all possible spnav events.
#[derive(Debug, Clone, PartialEq, Eq)]
pub enum SpnavEvent {
    /// 6DOF motion with translation and rotation values.
    Motion(MotionEvent),
    /// Button press or release.
    Button(ButtonEvent),
    /// Device added or removed.
    Device(DeviceEvent),
    /// Configuration changed.
    Config(ConfigEvent),
    /// Raw axis value (before axis mapping).
    RawAxis(RawAxisEvent),
    /// Raw button value (before button mapping).
    RawButton(RawButtonEvent),
}

impl SpnavEvent {
    /// The event type that names this event's variant.
    pub open spec fn kind(self) -> EventType {
        match self {
            SpnavEvent::Motion(_) => EventType::Motion,
            SpnavEvent::Button(_) => EventType::Button,
            SpnavEvent::Device(_) => EventType::Device,
            SpnavEvent::Config(_) => EventType::Config,
            SpnavEvent::RawAxis(_) => EventType::RawAxis,
            SpnavEvent::RawButton(_) => EventType::RawButton,
        }
    }

    /// Get the event type.
    pub fn event_type(&self) -> (r: EventType)
        ensures
            r == self.kind(),
    {
        match self {
            SpnavEvent::Motion(_) => EventType::Motion,
            SpnavEvent::Button(_) => EventType::Button,
            SpnavEvent::Device(_) => EventType::Device,
            SpnavEvent::Config(_) => EventType::Config,
            SpnavEvent::RawAxis(_) => EventType::RawAxis,
            SpnavEvent::RawButton(_) => EventType::RawButton,
        }
    }
}

} // verus!
