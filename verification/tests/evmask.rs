//! Tests of the event mask.

use spnav_rs::EventMask;

#[test]
fn motion_bit_is_0x01() {
    assert_eq!(EventMask::MOTION().bits(), 0x01);
}

#[test]
fn button_bit_is_0x02() {
    assert_eq!(EventMask::BUTTON().bits(), 0x02);
}

#[test]
fn dev_bit_is_0x04() {
    assert_eq!(EventMask::DEV().bits(), 0x04);
}

#[test]
fn cfg_bit_is_0x08() {
    assert_eq!(EventMask::CFG().bits(), 0x08);
}

#[test]
fn raw_axis_bit_is_0x10() {
    assert_eq!(EventMask::RAW_AXIS().bits(), 0x10);
}

#[test]
fn raw_button_bit_is_0x20() {
    assert_eq!(EventMask::RAW_BUTTON().bits(), 0x20);
}

#[test]
fn input_mask_is_motion_and_button() {
    assert_eq!(EventMask::INPUT().bits(), 0x03);
    assert!(EventMask::INPUT().contains(EventMask::MOTION()));
    assert!(EventMask::INPUT().contains(EventMask::BUTTON()));
    assert!(!EventMask::INPUT().contains(EventMask::DEV()));
}

#[test]
fn default_mask_is_input_and_dev() {
    assert_eq!(EventMask::DEFAULT().bits(), 0x07);
    assert!(EventMask::DEFAULT().contains(EventMask::MOTION()));
    assert!(EventMask::DEFAULT().contains(EventMask::BUTTON()));
    assert!(EventMask::DEFAULT().contains(EventMask::DEV()));
    assert!(!EventMask::DEFAULT().contains(EventMask::CFG()));
    assert!(!EventMask::DEFAULT().contains(EventMask::RAW_AXIS()));
    assert!(!EventMask::DEFAULT().contains(EventMask::RAW_BUTTON()));
}

#[test]
fn all_mask_is_0xffff() {
    assert_eq!(EventMask::ALL().bits(), 0xFFFF);
}

#[test]
fn all_mask_contains_everything() {
    assert!(EventMask::ALL().contains(EventMask::MOTION()));
    assert!(EventMask::ALL().contains(EventMask::BUTTON()));
    assert!(EventMask::ALL().contains(EventMask::DEV()));
    assert!(EventMask::ALL().contains(EventMask::CFG()));
    assert!(EventMask::ALL().contains(EventMask::RAW_AXIS()));
    assert!(EventMask::ALL().contains(EventMask::RAW_BUTTON()));
}

#[test]
fn union_by_operator_and_method_agree() {
    let a = EventMask::MOTION() | EventMask::CFG();
    let b = EventMask::MOTION().union(EventMask::CFG());
    assert_eq!(a.bits(), 0x09);
    assert_eq!(a, b);
    assert!(a.contains(EventMask::MOTION()));
    assert!(a.contains(EventMask::CFG()));
    assert!(!a.contains(EventMask::BUTTON()));
}

#[test]
fn intersection_keeps_common_bits() {
    let m = EventMask::DEFAULT().intersection(EventMask::BUTTON() | EventMask::RAW_AXIS());
    assert_eq!(m.bits(), 0x02);
}

#[test]
fn empty_mask_properties() {
    let e = EventMask::empty();
    assert_eq!(e.bits(), 0);
    assert!(e.is_empty());
    assert!(!EventMask::MOTION().is_empty());
    assert!(EventMask::MOTION().contains(e));
    assert!(!e.contains(EventMask::MOTION()));
}

#[test]
fn all_and_from_bits_truncate() {
    assert_eq!(EventMask::all().bits(), 0xFFFF);
    assert_eq!(EventMask::from_bits_truncate(0x1234).bits(), 0x1234);
    assert_eq!(EventMask::from_bits_truncate(0), EventMask::empty());
}
