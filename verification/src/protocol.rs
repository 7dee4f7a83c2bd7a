//! Wire-level constants and the protocol error taxonomy.

use vstd::prelude::*;

verus! {

/// A framing violation. `Truncated` means the buffer ran out mid-read and is
/// fatal for the current dispatch cycle; `LengthMismatch` means a decoder
/// consumed a different number of bytes than the block header declared, which
/// is surfaced but does not desynchronise the stream, because the declared
/// skip length is authoritative.
#[derive(Clone, Copy, Debug, PartialEq, Eq, Structural)]
pub enum ProtocolError {
    Truncated,
    LengthMismatch,
}

/// Reserved block identifier meaning "last block, no payload".
pub const SENTINEL_ID: u64 = 0;

/// Timer identifier reserved for the internal signal-poll timer that is armed
/// at session start and fired periodically by the host.
pub const SIGNAL_TIMER_ID: u64 = 0;

/// Interval of the signal-poll timer, in microseconds.
pub const SIGNAL_TIMER_INTERVAL_US: u64 = 16000;

// Block identifiers for host-to-core (inbound) blocks. The two sides agree on
// these id values; they are derived from the block names and never reused.
pub const TO_WASM_GET_DEPS: u64 = 0x11;
pub const TO_WASM_INIT: u64 = 0x12;
pub const TO_WASM_RESIZE_WINDOW: u64 = 0x13;
pub const TO_WASM_ANIMATION_FRAME: u64 = 0x14;
pub const TO_WASM_TOUCH_UPDATE: u64 = 0x15;
pub const TO_WASM_MOUSE_DOWN: u64 = 0x16;
pub const TO_WASM_MOUSE_MOVE: u64 = 0x17;
pub const TO_WASM_MOUSE_UP: u64 = 0x18;
pub const TO_WASM_SCROLL: u64 = 0x19;
pub const TO_WASM_KEY_DOWN: u64 = 0x1a;
pub const TO_WASM_KEY_UP: u64 = 0x1b;
pub const TO_WASM_TEXT_INPUT: u64 = 0x1c;
pub const TO_WASM_TEXT_COPY: u64 = 0x1d;
pub const TO_WASM_TIMER_FIRED: u64 = 0x1e;
pub const TO_WASM_APP_GOT_FOCUS: u64 = 0x1f;
pub const TO_WASM_APP_LOST_FOCUS: u64 = 0x20;
pub const TO_WASM_XR_UPDATE: u64 = 0x21;
pub const TO_WASM_REDRAW_ALL: u64 = 0x22;
pub const TO_WASM_PAINT_DIRTY: u64 = 0x23;
pub const TO_WASM_WEB_SOCKET_CLOSE: u64 = 0x24;
pub const TO_WASM_WEB_SOCKET_OPEN: u64 = 0x25;
pub const TO_WASM_WEB_SOCKET_ERROR: u64 = 0x26;
pub const TO_WASM_WEB_SOCKET_MESSAGE: u64 = 0x27;

// Block identifiers for core-to-host (outbound) blocks.
pub const FROM_WASM_LOAD_DEPS: u64 = 0x41;
pub const FROM_WASM_START_TIMER: u64 = 0x42;
pub const FROM_WASM_STOP_TIMER: u64 = 0x43;
pub const FROM_WASM_FULL_SCREEN: u64 = 0x44;
pub const FROM_WASM_NORMAL_SCREEN: u64 = 0x45;
pub const FROM_WASM_REQUEST_ANIMATION_FRAME: u64 = 0x46;
pub const FROM_WASM_SET_DOCUMENT_TITLE: u64 = 0x47;
pub const FROM_WASM_SET_MOUSE_CURSOR: u64 = 0x48;
pub const FROM_WASM_TEXT_COPY_RESPONSE: u64 = 0x49;
pub const FROM_WASM_SHOW_TEXT_IME: u64 = 0x4a;
pub const FROM_WASM_HIDE_TEXT_IME: u64 = 0x4b;
pub const FROM_WASM_CREATE_THREAD: u64 = 0x4c;
pub const FROM_WASM_WEB_SOCKET_OPEN: u64 = 0x4d;
pub const FROM_WASM_WEB_SOCKET_SEND: u64 = 0x4e;
pub const FROM_WASM_XR_START_PRESENTING: u64 = 0x4f;
pub const FROM_WASM_XR_STOP_PRESENTING: u64 = 0x50;

} // verus!
