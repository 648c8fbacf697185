//! Event masks: which event types the daemon delivers to a client.

use vstd::prelude::*;
use vstd::std_specs::ops::BitOrSpecImpl;

verus! {

/// Bitmask for selecting which event types to receive. Each event type has one
/// bit; the daemon delivers only events whose bit is set.
#[derive(Debug, Clone, Copy, PartialEq, Eq, Structural)]
pub struct EventMask {
    bits: u16,
}

impl EventMask {
    /// 6DOF motion events.
    #[allow(non_snake_case)]
    pub fn MOTION() -> (r: EventMask)
        ensures
            r.value() == 0x01,
    {
        EventMask { bits: 0x01 }
    }
    /// Button press/release events.
    #[allow(non_snake_case)]
    pub fn BUTTON() -> (r: EventMask)
        ensures
            r.value() == 0x02,
    {
        EventMask { bits: 0x02 }
    }
    /// Device add/remove events.
    #[allow(non_snake_case)]
    pub fn DEV() -> (r: EventMask)
        ensures
            r.value() == 0x04,
    {
        EventMask { bits: 0x04 }
    }
    /// Configuration change events.
    #[allow(non_snake_case)]
    pub fn CFG() -> (r: EventMask)
        ensures
            r.value() == 0x08,
    {
        EventMask { bits: 0x08 }
    }
    /// Raw axis value events (before axis mapping).
    #[allow(non_snake_case)]
    pub fn RAW_AXIS() -> (r: EventMask)
        ensures
            r.value() == 0x10,
    {
        EventMask { bits: 0x10 }
    }
    /// Raw button value events (before button mapping).
    #[allow(non_snake_case)]
    pub fn RAW_BUTTON() -> (r: EventMask)
        ensures
            r.value() == 0x20,
    {
        EventMask { bits: 0x20 }
    }
    /// Input events only (motion + button).
    #[allow(non_snake_case)]
    pub fn INPUT() -> (r: EventMask)
        ensures
            r.value() == 0x03,
    {
        EventMask { bits: 0x03 }
    }
    /// Default mask (input + device events).
    #[allow(non_snake_case)]
    pub fn DEFAULT() -> (r: EventMask)
        ensures
            r.value() == 0x07,
    {
        EventMask { bits: 0x07 }
    }
    /// All event types.
    #[allow(non_snake_case)]
    pub fn ALL() -> (r: EventMask)
        ensures
            r.value() == 0xFFFF,
    {
        EventMask { bits: 0xFFFF }
    }

    /// The mask's bits.
    pub closed spec fn value(self) -> u16 {
        self.bits
    }

    /// The mask's bits.
    pub fn bits(&self) -> (r: u16)
        ensures
            r == self.value(),
    {
        self.bits
    }

    /// The mask with no bit set.
    pub fn empty() -> (r: Self)
        ensures
            r.value() == 0,
    {
        EventMask { bits: 0 }
    }

    /// The mask with every bit set.
    pub fn all() -> (r: Self)
        ensures
            r.value() == 0xffff,
    {
        EventMask { bits: 0xffff }
    }

    /// The mask with exactly the bits `bits`; every bit of a `u16` is a known flag,
    /// since [`EventMask::ALL`] covers all of them, so nothing is dropped.
    pub fn from_bits_truncate(bits: u16) -> (r: Self)
        ensures
            r.value() == bits,
    {
        assert(bits & 0xffff == bits) by (bit_vector);
        EventMask { bits: bits & 0xffff }
    }

    /// Whether every bit of `other` is set in `self`.
    pub fn contains(&self, other: Self) -> (r: bool)
        ensures
            r == (self.value() & other.value() == other.value()),
    {
        (self.bits & other.bits) == other.bits
    }

    /// Whether no bit is set.
    pub fn is_empty(&self) -> (r: bool)
        ensures
            r == (self.value() == 0),
    {
        self.bits == 0
    }

    /// The bits set in `self` or in `other`.
    pub fn union(self, other: Self) -> (r: Self)
        ensures
            r.value() == self.value() | other.value(),
    {
        EventMask { bits: self.bits | other.bits }
    }

    /// The bits set in both `self` and `other`.
    pub fn intersection(self, other: Self) -> (r: Self)
        ensures
            r.value() == self.value() & other.value(),
    {
        EventMask { bits: self.bits & other.bits }
    }
}

impl core::ops::BitOr for EventMask {
    type Output = EventMask;

    fn bitor(self, rhs: EventMask) -> (r: EventMask)
        ensures
            r.value() == self.value() | rhs.value(),
    {
        EventMask { bits: self.bits | rhs.bits }
    }
}

impl BitOrSpecImpl for EventMask {
    open spec fn obeys_bitor_spec() -> bool {
        true
    }

    open spec fn bitor_req(self, rhs: EventMask) -> bool {
        true
    }

    closed spec fn bitor_spec(self, rhs: EventMask) -> EventMask {
        EventMask { bits: (self.bits | rhs.bits) }
    }
}

/// A union contains both of its operands.
pub proof fn lemma_union_contains(a: EventMask, b: EventMask)
    ensures
        (a.value() | b.value()) & a.value() == a.value(),
        (a.value() | b.value()) & b.value() == b.value(),
{
    let x = a.value();
    let y = b.value();
    assert((x | y) & x == x && (x | y) & y == y) by (bit_vector);
}

} // verus!
