//! A bidirectional, binary, tagged-block message bridge between a native
//! application core and a host runtime that owns the display, input devices,
//! timers and network sockets.
//!
//! The host delivers one inbound envelope per invocation; the core decodes it
//! block by block, routes each recognised block to the application's single
//! event handler, drains its outgoing command queue, decides whether another
//! animation frame is needed, and hands one outbound envelope back.

pub mod codec;
pub mod cx;
pub mod envelope;
pub mod host;
pub mod msg;
pub mod protocol;
pub mod shader_ty;
