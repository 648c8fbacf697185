# spnav-rs

Client library for 6DOF input devices (SpaceMouse, SpaceNavigator, ...) served by
spacenavd, over its UNIX socket protocol or the X11 Magellan protocol.

- `src/` is the library, verified with Verus: the 32-byte frame codec, event
  decoding, the chunked string codec and its decoder, event masks, the request
  frames and reply decoding of every client operation, the decisions of the event
  loop that shares the socket between events and replies, socket path discovery
  from the environment and `/etc/spnavrc`, the protocol handshake, and the Magellan
  client messages.
- `app/` holds what the verifier does not see: the tokio client that owns the
  socket and runs the event loop, file and environment reads, the x11rb calls,
  the `thiserror` error type and the floating-point `PositionRot` helper.
- `tests/` exercises the library on concrete values.
