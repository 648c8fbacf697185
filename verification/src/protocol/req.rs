//! Request codes of the spacenav protocol (version 1).

use vstd::prelude::*;
use crate::protocol::REQ_BASE;

verus! {

/// Set the client's name (string request).
pub const SET_NAME: i32 = REQ_BASE;
/// Set the per-client sensitivity.
pub const SET_SENS: i32 = REQ_BASE + 1;
/// Get the per-client sensitivity.
pub const GET_SENS: i32 = REQ_BASE + 2;
/// Set the per-client event mask.
pub const SET_EVMASK: i32 = REQ_BASE + 3;
/// Get the per-client event mask.
pub const GET_EVMASK: i32 = REQ_BASE + 4;

/// Query the device name (string response).
pub const DEV_NAME: i32 = 0x2000;
/// Query the device path (string response).
pub const DEV_PATH: i32 = 0x2001;
/// Query the number of axes.
pub const DEV_NAXES: i32 = 0x2002;
/// Query the number of buttons.
pub const DEV_NBUTTONS: i32 = 0x2003;
/// Query the USB vendor and product ids.
pub const DEV_USBID: i32 = 0x2004;
/// Query the device type.
pub const DEV_TYPE: i32 = 0x2005;

/// Set the global sensitivity.
pub const SCFG_SENS: i32 = 0x3000;
/// Get the global sensitivity.
pub const GCFG_SENS: i32 = 0x3001;
/// Set the per-axis sensitivity.
pub const SCFG_SENS_AXIS: i32 = 0x3002;
/// Get the per-axis sensitivity.
pub const GCFG_SENS_AXIS: i32 = 0x3003;
/// Set the deadzone of a device axis.
pub const SCFG_DEADZONE: i32 = 0x3004;
/// Get the deadzone of a device axis.
pub const GCFG_DEADZONE: i32 = 0x3005;
/// Set the axis inversion flags.
pub const SCFG_INVERT: i32 = 0x3006;
/// Get the axis inversion flags.
pub const GCFG_INVERT: i32 = 0x3007;
/// Set the mapping of a device axis.
pub const SCFG_AXISMAP: i32 = 0x3008;
/// Get the mapping of a device axis.
pub const GCFG_AXISMAP: i32 = 0x3009;
/// Set the mapping of a device button.
pub const SCFG_BNMAP: i32 = 0x300a;
/// Get the mapping of a device button.
pub const GCFG_BNMAP: i32 = 0x300b;
/// Set the action of a button.
pub const SCFG_BNACTION: i32 = 0x300c;
/// Get the action of a button.
pub const GCFG_BNACTION: i32 = 0x300d;
/// Set the keyboard mapping of a button.
pub const SCFG_KBMAP: i32 = 0x300e;
/// Get the keyboard mapping of a button.
pub const GCFG_KBMAP: i32 = 0x300f;
/// Set the Y/Z swap flag.
pub const SCFG_SWAPYZ: i32 = 0x3010;
/// Get the Y/Z swap flag.
pub const GCFG_SWAPYZ: i32 = 0x3011;
/// Set the LED state.
pub const SCFG_LED: i32 = 0x3012;
/// Get the LED state.
pub const GCFG_LED: i32 = 0x3013;
/// Set the device grab flag.
pub const SCFG_GRAB: i32 = 0x3014;
/// Get the device grab flag.
pub const GCFG_GRAB: i32 = 0x3015;
/// Set the serial device path (string request).
pub const SCFG_SERDEV: i32 = 0x3016;
/// Get the serial device path (string response).
pub const GCFG_SERDEV: i32 = 0x3017;
/// Set the button repeat interval.
pub const SCFG_REPEAT: i32 = 0x3018;
/// Get the button repeat interval.
pub const GCFG_REPEAT: i32 = 0x3019;

/// Save the configuration to persistent storage.
pub const CFG_SAVE: i32 = 0x3ffe;
/// Restore the configuration from persistent storage.
pub const CFG_RESTORE: i32 = 0x3fff;
/// Reset the configuration to defaults.
pub const CFG_RESET: i32 = 0x4000;

/// Change the protocol version.
pub const CHANGE_PROTO: i32 = 0x5500;

} // verus!
