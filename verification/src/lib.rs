//! Client library for 6DOF input devices (SpaceMouse, SpaceNavigator, ...) served
//! by the spacenav daemon, over its UNIX socket protocol or the X11 Magellan
//! protocol.
//!
//! - [`protocol`]: the 32-byte frames of the socket protocol, event decoding and
//!   the chunked string codec.
//! - [`event`]: the event types.
//! - [`evmask`]: event masks.
//! - [`client`]: request frames, reply decoding and the event loop's decisions.
//! - [`connection`]: socket path discovery and the protocol handshake.
//! - [`x11`]: the Magellan client messages.
//! - [`error`]: the error type.

pub mod client;
pub mod connection;
pub mod error;
pub mod event;
pub mod evmask;
pub mod protocol;
pub mod text;
pub mod x11;

pub use client::LedState;
pub use error::Error;
pub use event::{EventType, SpnavEvent};
pub use evmask::EventMask;
