//! Typed message registry: the closed set of inbound event blocks and
//! outbound command blocks, with their block ids, payload encodings and
//! payload parsers.
//!
//! Every registered kind is described three times: a model enum over
//! mathematical values (sequences instead of vectors and strings), a spec
//! encoder/parser pair over those models, and executable encode/decode
//! functions proved to match them. `lemma_parse_to_wasm_round_trip` and
//! `lemma_parse_from_wasm_round_trip` state that parsing an encoding yields
//! the encoded message back.

use vstd::bytes::*;
use vstd::prelude::*;
use vstd::utf8::encode_utf8;

use crate::codec::lemma_take_blob;
use crate::codec::lemma_take_bool;
use crate::codec::lemma_take_i32;
use crate::codec::lemma_take_string;
use crate::codec::lemma_take_u32;
use crate::codec::lemma_take_u64;
use crate::codec::spec_blob_to_bytes;
use crate::codec::spec_bool_to_bytes;
use crate::codec::spec_i32_to_bytes;
use crate::codec::spec_string_to_bytes;
use crate::codec::spec_take_blob;
use crate::codec::spec_take_bool;
use crate::codec::spec_take_i32;
use crate::codec::spec_take_string;
use crate::codec::spec_take_u32;
use crate::codec::spec_take_u64;
use crate::codec::take_blob;
use crate::codec::take_bool;
use crate::codec::take_i32;
use crate::codec::take_string;
use crate::codec::take_u32;
use crate::codec::take_u64;
use crate::envelope::EnvelopeWriter;
use crate::protocol::ProtocolError;
use crate::protocol::FROM_WASM_CREATE_THREAD;
use crate::protocol::FROM_WASM_FULL_SCREEN;
use crate::protocol::FROM_WASM_HIDE_TEXT_IME;
use crate::protocol::FROM_WASM_LOAD_DEPS;
use crate::protocol::FROM_WASM_NORMAL_SCREEN;
use crate::protocol::FROM_WASM_REQUEST_ANIMATION_FRAME;
use crate::protocol::FROM_WASM_SET_DOCUMENT_TITLE;
use crate::protocol::FROM_WASM_SET_MOUSE_CURSOR;
use crate::protocol::FROM_WASM_SHOW_TEXT_IME;
use crate::protocol::FROM_WASM_START_TIMER;
use crate::protocol::FROM_WASM_STOP_TIMER;
use crate::protocol::FROM_WASM_TEXT_COPY_RESPONSE;
use crate::protocol::FROM_WASM_WEB_SOCKET_OPEN;
use crate::protocol::FROM_WASM_WEB_SOCKET_SEND;
use crate::protocol::FROM_WASM_XR_START_PRESENTING;
use crate::protocol::FROM_WASM_XR_STOP_PRESENTING;
use crate::protocol::TO_WASM_ANIMATION_FRAME;
use crate::protocol::TO_WASM_APP_GOT_FOCUS;
use crate::protocol::TO_WASM_APP_LOST_FOCUS;
use crate::protocol::TO_WASM_GET_DEPS;
use crate::protocol::TO_WASM_INIT;
use crate::protocol::TO_WASM_KEY_DOWN;
use crate::protocol::TO_WASM_KEY_UP;
use crate::protocol::TO_WASM_MOUSE_DOWN;
use crate::protocol::TO_WASM_MOUSE_MOVE;
use crate::protocol::TO_WASM_MOUSE_UP;
use crate::protocol::TO_WASM_PAINT_DIRTY;
use crate::protocol::TO_WASM_REDRAW_ALL;
use crate::protocol::TO_WASM_RESIZE_WINDOW;
use crate::protocol::TO_WASM_SCROLL;
use crate::protocol::TO_WASM_TEXT_COPY;
use crate::protocol::TO_WASM_TEXT_INPUT;
use crate::protocol::TO_WASM_TIMER_FIRED;
use crate::protocol::TO_WASM_TOUCH_UPDATE;
use crate::protocol::TO_WASM_WEB_SOCKET_CLOSE;
use crate::protocol::TO_WASM_WEB_SOCKET_ERROR;
use crate::protocol::TO_WASM_WEB_SOCKET_MESSAGE;
use crate::protocol::TO_WASM_WEB_SOCKET_OPEN;
use crate::protocol::TO_WASM_XR_UPDATE;

verus! {

/// Upper bound accepted for one variable-length field (a string or a byte
/// blob), chosen so that any one block's payload length always fits in the
/// `u32` skip-length field.
pub const MAX_VAR_BYTES: u64 = 0xFF00_0000;

// ---------------------------------------------------------------------------
// Inbound events (host to core)
// ---------------------------------------------------------------------------

/// One inbound block, decoded. Coordinates are integer device pixels; times
/// and timer intervals travel in microseconds.
#[derive(Clone, Debug, PartialEq)]
pub enum ToWasm {
    GetDeps { cpu_cores: u32 },
    Init { width: u32, height: u32, deps: Vec<WireDep> },
    TouchUpdate { time_us: u64, state: u32, x: i32, y: i32, uid: u64 },
    ResizeWindow { width: u32, height: u32 },
    AnimationFrame { time_us: u64 },
    MouseDown { x: i32, y: i32, button: u32, time_us: u64 },
    MouseMove { x: i32, y: i32, time_us: u64 },
    MouseUp { x: i32, y: i32, button: u32, time_us: u64 },
    Scroll { x: i32, y: i32, dx: i32, dy: i32, time_us: u64 },
    KeyDown { key_code: u32 },
    KeyUp { key_code: u32 },
    TextInput { input: String },
    TextCopy,
    TimerFired { timer_id: u64 },
    AppGotFocus,
    AppLostFocus,
    XrUpdate { time_us: u64 },
    RedrawAll,
    PaintDirty,
    WebSocketClose { web_socket_id: u64 },
    WebSocketOpen { web_socket_id: u64 },
    WebSocketError { web_socket_id: u64, error: String },
    WebSocketMessage { web_socket_id: u64, data: Vec<u8> },
}

/// The mathematical value of a `ToWasm` message.
pub enum ToWasmModel {
    GetDeps { cpu_cores: u32 },
    Init { width: u32, height: u32, deps: Seq<WireDepModel> },
    TouchUpdate { time_us: u64, state: u32, x: i32, y: i32, uid: u64 },
    ResizeWindow { width: u32, height: u32 },
    AnimationFrame { time_us: u64 },
    MouseDown { x: i32, y: i32, button: u32, time_us: u64 },
    MouseMove { x: i32, y: i32, time_us: u64 },
    MouseUp { x: i32, y: i32, button: u32, time_us: u64 },
    Scroll { x: i32, y: i32, dx: i32, dy: i32, time_us: u64 },
    KeyDown { key_code: u32 },
    KeyUp { key_code: u32 },
    TextInput { input: Seq<char> },
    TextCopy,
    TimerFired { timer_id: u64 },
    AppGotFocus,
    AppLostFocus,
    XrUpdate { time_us: u64 },
    RedrawAll,
    PaintDirty,
    WebSocketClose { web_socket_id: u64 },
    WebSocketOpen { web_socket_id: u64 },
    WebSocketError { web_socket_id: u64, error: Seq<char> },
    WebSocketMessage { web_socket_id: u64, data: Seq<u8> },
}

impl DeepView for ToWasm {
    type V = ToWasmModel;

    open spec fn deep_view(&self) -> ToWasmModel {
        match self {
            ToWasm::GetDeps { cpu_cores } => ToWasmModel::GetDeps { cpu_cores: *cpu_cores },
            ToWasm::Init { width, height, deps } => ToWasmModel::Init {
                width: *width,
                height: *height,
                deps: deps.deep_view(),
            },
            ToWasm::TouchUpdate { time_us, state, x, y, uid } => ToWasmModel::TouchUpdate {
                time_us: *time_us,
                state: *state,
                x: *x,
                y: *y,
                uid: *uid,
            },
            ToWasm::ResizeWindow { width, height } => ToWasmModel::ResizeWindow {
                width: *width,
                height: *height,
            },
            ToWasm::AnimationFrame { time_us } => ToWasmModel::AnimationFrame {
                time_us: *time_us,
            },
            ToWasm::MouseDown { x, y, button, time_us } => ToWasmModel::MouseDown {
                x: *x,
                y: *y,
                button: *button,
                time_us: *time_us,
            },
            ToWasm::MouseMove { x, y, time_us } => ToWasmModel::MouseMove {
                x: *x,
                y: *y,
                time_us: *time_us,
            },
            ToWasm::MouseUp { x, y, button, time_us } => ToWasmModel::MouseUp {
                x: *x,
                y: *y,
                button: *button,
                time_us: *time_us,
            },
            ToWasm::Scroll { x, y, dx, dy, time_us } => ToWasmModel::Scroll {
                x: *x,
                y: *y,
                dx: *dx,
                dy: *dy,
                time_us: *time_us,
            },
            ToWasm::KeyDown { key_code } => ToWasmModel::KeyDown { key_code: *key_code },
            ToWasm::KeyUp { key_code } => ToWasmModel::KeyUp { key_code: *key_code },
            ToWasm::TextInput { input } => ToWasmModel::TextInput { input: input@ },
            ToWasm::TextCopy => ToWasmModel::TextCopy,
            ToWasm::TimerFired { timer_id } => ToWasmModel::TimerFired { timer_id: *timer_id },
            ToWasm::AppGotFocus => ToWasmModel::AppGotFocus,
            ToWasm::AppLostFocus => ToWasmModel::AppLostFocus,
            ToWasm::XrUpdate { time_us } => ToWasmModel::XrUpdate { time_us: *time_us },
            ToWasm::RedrawAll => ToWasmModel::RedrawAll,
            ToWasm::PaintDirty => ToWasmModel::PaintDirty,
            ToWasm::WebSocketClose { web_socket_id } => ToWasmModel::WebSocketClose {
                web_socket_id: *web_socket_id,
            },
            ToWasm::WebSocketOpen { web_socket_id } => ToWasmModel::WebSocketOpen {
                web_socket_id: *web_socket_id,
            },
            ToWasm::WebSocketError { web_socket_id, error } => ToWasmModel::WebSocketError {
                web_socket_id: *web_socket_id,
                error: error@,
            },
            ToWasm::WebSocketMessage { web_socket_id, data } => ToWasmModel::WebSocketMessage {
                web_socket_id: *web_socket_id,
                data: data@,
            },
        }
    }
}

/// The block id each inbound kind travels under.
pub open spec fn to_wasm_id(m: ToWasmModel) -> u64 {
    match m {
        ToWasmModel::GetDeps { .. } => TO_WASM_GET_DEPS,
        ToWasmModel::Init { .. } => TO_WASM_INIT,
        ToWasmModel::TouchUpdate { .. } => TO_WASM_TOUCH_UPDATE,
        ToWasmModel::ResizeWindow { .. } => TO_WASM_RESIZE_WINDOW,
        ToWasmModel::AnimationFrame { .. } => TO_WASM_ANIMATION_FRAME,
        ToWasmModel::MouseDown { .. } => TO_WASM_MOUSE_DOWN,
        ToWasmModel::MouseMove { .. } => TO_WASM_MOUSE_MOVE,
        ToWasmModel::MouseUp { .. } => TO_WASM_MOUSE_UP,
        ToWasmModel::Scroll { .. } => TO_WASM_SCROLL,
        ToWasmModel::KeyDown { .. } => TO_WASM_KEY_DOWN,
        ToWasmModel::KeyUp { .. } => TO_WASM_KEY_UP,
        ToWasmModel::TextInput { .. } => TO_WASM_TEXT_INPUT,
        ToWasmModel::TextCopy => TO_WASM_TEXT_COPY,
        ToWasmModel::TimerFired { .. } => TO_WASM_TIMER_FIRED,
        ToWasmModel::AppGotFocus => TO_WASM_APP_GOT_FOCUS,
        ToWasmModel::AppLostFocus => TO_WASM_APP_LOST_FOCUS,
        ToWasmModel::XrUpdate { .. } => TO_WASM_XR_UPDATE,
        ToWasmModel::RedrawAll => TO_WASM_REDRAW_ALL,
        ToWasmModel::PaintDirty => TO_WASM_PAINT_DIRTY,
        ToWasmModel::WebSocketClose { .. } => TO_WASM_WEB_SOCKET_CLOSE,
        ToWasmModel::WebSocketOpen { .. } => TO_WASM_WEB_SOCKET_OPEN,
        ToWasmModel::WebSocketError { .. } => TO_WASM_WEB_SOCKET_ERROR,
        ToWasmModel::WebSocketMessage { .. } => TO_WASM_WEB_SOCKET_MESSAGE,
    }
}

/// Whether the registry knows this inbound block id.
pub open spec fn spec_is_to_wasm_id(id: u64) -> bool {
    ||| id == TO_WASM_GET_DEPS
    ||| id == TO_WASM_INIT
    ||| id == TO_WASM_TOUCH_UPDATE
    ||| id == TO_WASM_RESIZE_WINDOW
    ||| id == TO_WASM_ANIMATION_FRAME
    ||| id == TO_WASM_MOUSE_DOWN
    ||| id == TO_WASM_MOUSE_MOVE
    ||| id == TO_WASM_MOUSE_UP
    ||| id == TO_WASM_SCROLL
    ||| id == TO_WASM_KEY_DOWN
    ||| id == TO_WASM_KEY_UP
    ||| id == TO_WASM_TEXT_INPUT
    ||| id == TO_WASM_TEXT_COPY
    ||| id == TO_WASM_TIMER_FIRED
    ||| id == TO_WASM_APP_GOT_FOCUS
    ||| id == TO_WASM_APP_LOST_FOCUS
    ||| id == TO_WASM_XR_UPDATE
    ||| id == TO_WASM_REDRAW_ALL
    ||| id == TO_WASM_PAINT_DIRTY
    ||| id == TO_WASM_WEB_SOCKET_CLOSE
    ||| id == TO_WASM_WEB_SOCKET_OPEN
    ||| id == TO_WASM_WEB_SOCKET_ERROR
    ||| id == TO_WASM_WEB_SOCKET_MESSAGE
}

pub fn is_to_wasm_id(id: u64) -> (r: bool)
    ensures
        r == spec_is_to_wasm_id(id),
{
    id == TO_WASM_GET_DEPS || id == TO_WASM_INIT || id == TO_WASM_TOUCH_UPDATE || id
        == TO_WASM_RESIZE_WINDOW || id == TO_WASM_ANIMATION_FRAME || id
        == TO_WASM_MOUSE_DOWN || id == TO_WASM_MOUSE_MOVE || id == TO_WASM_MOUSE_UP || id
        == TO_WASM_SCROLL || id == TO_WASM_KEY_DOWN || id == TO_WASM_KEY_UP || id
        == TO_WASM_TEXT_INPUT || id == TO_WASM_TEXT_COPY || id == TO_WASM_TIMER_FIRED || id
        == TO_WASM_APP_GOT_FOCUS || id == TO_WASM_APP_LOST_FOCUS || id == TO_WASM_XR_UPDATE || id
        == TO_WASM_REDRAW_ALL || id == TO_WASM_PAINT_DIRTY || id == TO_WASM_WEB_SOCKET_CLOSE || id
        == TO_WASM_WEB_SOCKET_OPEN || id == TO_WASM_WEB_SOCKET_ERROR || id
        == TO_WASM_WEB_SOCKET_MESSAGE
}

/// Bound on the byte length of one dependency's delivered data.
pub const MAX_DEP_DATA_BYTES: u64 = 0x000F_0000;

/// One dependency the host delivers at start-up: the registered path and the
/// fetched bytes.
#[derive(Clone, Debug, PartialEq)]
pub struct WireDep {
    pub path: String,
    pub data: Vec<u8>,
}

/// The mathematical value of a `WireDep`.
pub struct WireDepModel {
    pub path: Seq<char>,
    pub data: Seq<u8>,
}

impl DeepView for WireDep {
    type V = WireDepModel;

    open spec fn deep_view(&self) -> WireDepModel {
        WireDepModel { path: self.path@, data: self.data@ }
    }
}

pub open spec fn spec_wire_dep_bytes(d: WireDepModel) -> Seq<u8> {
    spec_string_to_bytes(d.path) + spec_blob_to_bytes(d.data)
}

pub open spec fn spec_wire_deps_bytes(ds: Seq<WireDepModel>) -> Seq<u8>
    decreases ds.len(),
{
    if ds.len() == 0 {
        Seq::empty()
    } else {
        spec_wire_dep_bytes(ds[0]) + spec_wire_deps_bytes(ds.drop_first())
    }
}

pub open spec fn spec_take_wire_dep(b: Seq<u8>, i: int) -> Option<(WireDepModel, int)> {
    match spec_take_string(b, i) {
        Some((path, j)) => match spec_take_blob(b, j) {
            Some((data, j)) => Some((WireDepModel { path, data }, j)),
            None => None,
        },
        None => None,
    }
}

pub open spec fn spec_take_wire_deps(b: Seq<u8>, i: int, n: nat) -> Option<
    (Seq<WireDepModel>, int),
>
    decreases n,
{
    if n == 0 {
        Some((Seq::empty(), i))
    } else {
        match spec_take_wire_dep(b, i) {
            Some((d, j)) => match spec_take_wire_deps(b, j, (n - 1) as nat) {
                Some((ds, k)) => Some((seq![d] + ds, k)),
                None => None,
            },
            None => None,
        }
    }
}

pub proof fn lemma_wire_deps_bytes_push(ds: Seq<WireDepModel>, d: WireDepModel)
    ensures
        spec_wire_deps_bytes(ds.push(d)) == spec_wire_deps_bytes(ds) + spec_wire_dep_bytes(d),
    decreases ds.len(),
{
    if ds.len() == 0 {
        assert(ds.push(d)[0] == d);
        assert(ds.push(d).drop_first() =~~= Seq::<WireDepModel>::empty());
        assert(spec_wire_deps_bytes(ds.push(d).drop_first()) == Seq::<u8>::empty());
        assert(spec_wire_dep_bytes(d) + Seq::<u8>::empty() =~= spec_wire_dep_bytes(d));
        assert(spec_wire_deps_bytes(ds) + spec_wire_dep_bytes(d) =~= spec_wire_dep_bytes(d));
    } else {
        assert(ds.push(d)[0] == ds[0]);
        assert(ds.push(d).drop_first() =~~= ds.drop_first().push(d));
        lemma_wire_deps_bytes_push(ds.drop_first(), d);
        let head = spec_wire_dep_bytes(ds[0]);
        let mid = spec_wire_deps_bytes(ds.drop_first());
        let tail = spec_wire_dep_bytes(d);
        assert(spec_wire_deps_bytes(ds.push(d)) == head + (mid + tail));
        assert(head + (mid + tail) =~= (head + mid) + tail);
    }
}

/// Total byte length of an encoded dependency list, under the per-entry caps.
pub proof fn lemma_wire_deps_bytes_len(ds: Seq<WireDepModel>)
    requires
        forall|i: int|
            0 <= i < ds.len() ==> #[trigger] encode_utf8(ds[i].path).len() <= MAX_PATH_BYTES
                && ds[i].data.len() <= MAX_DEP_DATA_BYTES,
    ensures
        spec_wire_deps_bytes(ds).len() <= ds.len() * (MAX_PATH_BYTES + MAX_DEP_DATA_BYTES + 8),
    decreases ds.len(),
{
    lemma_auto_spec_u32_to_from_le_bytes();
    if ds.len() == 0 {
    } else {
        assert(encode_utf8(ds[0].path).len() <= MAX_PATH_BYTES && ds[0].data.len()
            <= MAX_DEP_DATA_BYTES);
        assert(forall|i: int|
            0 <= i < ds.drop_first().len() ==> #[trigger] encode_utf8(
                ds.drop_first()[i].path,
            ).len() <= MAX_PATH_BYTES && ds.drop_first()[i].data.len() <= MAX_DEP_DATA_BYTES);
        lemma_wire_deps_bytes_len(ds.drop_first());
        assert(ds.len() * (MAX_PATH_BYTES + MAX_DEP_DATA_BYTES + 8) == (ds.len() - 1) * (
        MAX_PATH_BYTES + MAX_DEP_DATA_BYTES + 8) + (MAX_PATH_BYTES + MAX_DEP_DATA_BYTES + 8))
            by (nonlinear_arith);
    }
}

/// Round trip for a dependency list standing at the end of `prefix`.
pub proof fn lemma_take_wire_deps(prefix: Seq<u8>, ds: Seq<WireDepModel>, rest: Seq<u8>)
    requires
        forall|i: int|
            0 <= i < ds.len() ==> #[trigger] encode_utf8(ds[i].path).len() <= u32::MAX
                && ds[i].data.len() <= u32::MAX,
    ensures
        spec_take_wire_deps(
            prefix + spec_wire_deps_bytes(ds) + rest,
            prefix.len() as int,
            ds.len(),
        ) == Some((ds, prefix.len() as int + spec_wire_deps_bytes(ds).len())),
    decreases ds.len(),
{
    lemma_auto_spec_u32_to_from_le_bytes();
    let b = prefix + spec_wire_deps_bytes(ds) + rest;
    if ds.len() == 0 {
        assert(spec_take_wire_deps(b, prefix.len() as int, 0) == Some(
            (Seq::<WireDepModel>::empty(), prefix.len() as int),
        ));
        assert(ds =~~= Seq::<WireDepModel>::empty());
    } else {
        let d0 = ds[0];
        let drest = ds.drop_first();
        assert(encode_utf8(ds[0].path).len() <= u32::MAX && ds[0].data.len() <= u32::MAX);
        let tail1 = spec_blob_to_bytes(d0.data) + (spec_wire_deps_bytes(drest) + rest);
        assert(b =~= prefix + spec_string_to_bytes(d0.path) + tail1);
        lemma_take_string(prefix, d0.path, tail1);
        let p2 = prefix + spec_string_to_bytes(d0.path);
        assert(b =~= p2 + spec_blob_to_bytes(d0.data) + (spec_wire_deps_bytes(drest) + rest));
        lemma_take_blob(p2, d0.data, spec_wire_deps_bytes(drest) + rest);
        let p3 = p2 + spec_blob_to_bytes(d0.data);
        assert(forall|i: int|
            0 <= i < drest.len() ==> #[trigger] encode_utf8(drest[i].path).len() <= u32::MAX
                && drest[i].data.len() <= u32::MAX);
        lemma_take_wire_deps(p3, drest, rest);
        assert(b =~= p3 + spec_wire_deps_bytes(drest) + rest);
        assert(spec_take_wire_deps(b, p3.len() as int, drest.len()) == Some(
            (drest, p3.len() as int + spec_wire_deps_bytes(drest).len()),
        ));
        assert(spec_string_to_bytes(d0.path).len() == 4 + encode_utf8(d0.path).len());
        assert(spec_blob_to_bytes(d0.data).len() == 4 + d0.data.len());
        assert(seq![d0] + drest =~~= ds);
        assert(spec_wire_dep_bytes(d0).len() == spec_string_to_bytes(d0.path).len()
            + spec_blob_to_bytes(d0.data).len());
    }
}

/// Size bounds under which a message is encodable: every variable-length
/// field fits under `MAX_VAR_BYTES`, so the whole payload fits the `u32`
/// skip-length field.
pub open spec fn wf_to_wasm(m: ToWasmModel) -> bool {
    match m {
        ToWasmModel::Init { deps, .. } => deps.len() <= MAX_DEPS && forall|i: int|
            0 <= i < deps.len() ==> #[trigger] encode_utf8(deps[i].path).len() <= MAX_PATH_BYTES
                && deps[i].data.len() <= MAX_DEP_DATA_BYTES,
        ToWasmModel::TextInput { input } => encode_utf8(input).len() <= MAX_VAR_BYTES,
        ToWasmModel::WebSocketError { error, .. } => encode_utf8(error).len() <= MAX_VAR_BYTES,
        ToWasmModel::WebSocketMessage { data, .. } => data.len() <= MAX_VAR_BYTES,
        _ => true,
    }
}

/// The payload bytes of one inbound message.
pub open spec fn to_wasm_payload(m: ToWasmModel) -> Seq<u8> {
    match m {
        ToWasmModel::GetDeps { cpu_cores } => spec_u32_to_le_bytes(cpu_cores),
        ToWasmModel::Init { width, height, deps } => spec_u32_to_le_bytes(width)
            + spec_u32_to_le_bytes(height) + spec_u32_to_le_bytes(deps.len() as u32)
            + spec_wire_deps_bytes(deps),
        ToWasmModel::TouchUpdate { time_us, state, x, y, uid } => spec_u64_to_le_bytes(time_us)
            + spec_u32_to_le_bytes(state) + spec_i32_to_bytes(x) + spec_i32_to_bytes(y)
            + spec_u64_to_le_bytes(uid),
        ToWasmModel::ResizeWindow { width, height } => spec_u32_to_le_bytes(width)
            + spec_u32_to_le_bytes(height),
        ToWasmModel::AnimationFrame { time_us } => spec_u64_to_le_bytes(time_us),
        ToWasmModel::MouseDown { x, y, button, time_us } => spec_i32_to_bytes(x)
            + spec_i32_to_bytes(y) + spec_u32_to_le_bytes(button) + spec_u64_to_le_bytes(time_us),
        ToWasmModel::MouseMove { x, y, time_us } => spec_i32_to_bytes(x) + spec_i32_to_bytes(y)
            + spec_u64_to_le_bytes(time_us),
        ToWasmModel::MouseUp { x, y, button, time_us } => spec_i32_to_bytes(x) + spec_i32_to_bytes(
            y,
        ) + spec_u32_to_le_bytes(button) + spec_u64_to_le_bytes(time_us),
        ToWasmModel::Scroll { x, y, dx, dy, time_us } => spec_i32_to_bytes(x) + spec_i32_to_bytes(
            y,
        ) + spec_i32_to_bytes(dx) + spec_i32_to_bytes(dy) + spec_u64_to_le_bytes(time_us),
        ToWasmModel::KeyDown { key_code } => spec_u32_to_le_bytes(key_code),
        ToWasmModel::KeyUp { key_code } => spec_u32_to_le_bytes(key_code),
        ToWasmModel::TextInput { input } => spec_string_to_bytes(input),
        ToWasmModel::TextCopy => Seq::empty(),
        ToWasmModel::TimerFired { timer_id } => spec_u64_to_le_bytes(timer_id),
        ToWasmModel::AppGotFocus => Seq::empty(),
        ToWasmModel::AppLostFocus => Seq::empty(),
        ToWasmModel::XrUpdate { time_us } => spec_u64_to_le_bytes(time_us),
        ToWasmModel::RedrawAll => Seq::empty(),
        ToWasmModel::PaintDirty => Seq::empty(),
        ToWasmModel::WebSocketClose { web_socket_id } => spec_u64_to_le_bytes(web_socket_id),
        ToWasmModel::WebSocketOpen { web_socket_id } => spec_u64_to_le_bytes(web_socket_id),
        ToWasmModel::WebSocketError { web_socket_id, error } => spec_u64_to_le_bytes(web_socket_id)
            + spec_string_to_bytes(error),
        ToWasmModel::WebSocketMessage { web_socket_id, data } => spec_u64_to_le_bytes(
            web_socket_id,
        ) + spec_blob_to_bytes(data),
    }
}

/// Parses the payload of an inbound block with the given id, returning the
/// message and the number of payload bytes consumed.
pub open spec fn spec_parse_to_wasm(id: u64, b: Seq<u8>) -> Option<(ToWasmModel, int)> {
    if id == TO_WASM_GET_DEPS {
        match spec_take_u32(b, 0) {
            Some((cpu_cores, j)) => Some((ToWasmModel::GetDeps { cpu_cores }, j)),
            None => None,
        }
    } else if id == TO_WASM_INIT {
        match spec_take_u32(b, 0) {
            Some((width, j)) => match spec_take_u32(b, j) {
                Some((height, j)) => match spec_take_u32(b, j) {
                    Some((n, j)) => match spec_take_wire_deps(b, j, n as nat) {
                        Some((deps, j)) => Some((ToWasmModel::Init { width, height, deps }, j)),
                        None => None,
                    },
                    None => None,
                },
                None => None,
            },
            None => None,
        }
    } else if id == TO_WASM_TOUCH_UPDATE {
        match spec_take_u64(b, 0) {
            Some((time_us, j)) => match spec_take_u32(b, j) {
                Some((state, j)) => match spec_take_i32(b, j) {
                    Some((x, j)) => match spec_take_i32(b, j) {
                        Some((y, j)) => match spec_take_u64(b, j) {
                            Some((uid, j)) => Some(
                                (ToWasmModel::TouchUpdate { time_us, state, x, y, uid }, j),
                            ),
                            None => None,
                        },
                        None => None,
                    },
                    None => None,
                },
                None => None,
            },
            None => None,
        }
    } else if id == TO_WASM_RESIZE_WINDOW {
        match spec_take_u32(b, 0) {
            Some((width, j)) => match spec_take_u32(b, j) {
                Some((height, j)) => Some((ToWasmModel::ResizeWindow { width, height }, j)),
                None => None,
            },
            None => None,
        }
    } else if id == TO_WASM_ANIMATION_FRAME {
        match spec_take_u64(b, 0) {
            Some((time_us, j)) => Some((ToWasmModel::AnimationFrame { time_us }, j)),
            None => None,
        }
    } else if id == TO_WASM_MOUSE_DOWN {
        match spec_take_i32(b, 0) {
            Some((x, j)) => match spec_take_i32(b, j) {
                Some((y, j)) => match spec_take_u32(b, j) {
                    Some((button, j)) => match spec_take_u64(b, j) {
                        Some((time_us, j)) => Some(
                            (ToWasmModel::MouseDown { x, y, button, time_us }, j),
                        ),
                        None => None,
                    },
                    None => None,
                },
                None => None,
            },
            None => None,
        }
    } else if id == TO_WASM_MOUSE_MOVE {
        match spec_take_i32(b, 0) {
            Some((x, j)) => match spec_take_i32(b, j) {
                Some((y, j)) => match spec_take_u64(b, j) {
                    Some((time_us, j)) => Some((ToWasmModel::MouseMove { x, y, time_us }, j)),
                    None => None,
                },
                None => None,
            },
            None => None,
        }
    } else if id == TO_WASM_MOUSE_UP {
        match spec_take_i32(b, 0) {
            Some((x, j)) => match spec_take_i32(b, j) {
                Some((y, j)) => match spec_take_u32(b, j) {
                    Some((button, j)) => match spec_take_u64(b, j) {
                        Some((time_us, j)) => Some(
                            (ToWasmModel::MouseUp { x, y, button, time_us }, j),
                        ),
                        None => None,
                    },
                    None => None,
                },
                None => None,
            },
            None => None,
        }
    } else if id == TO_WASM_SCROLL {
        match spec_take_i32(b, 0) {
            Some((x, j)) => match spec_take_i32(b, j) {
                Some((y, j)) => match spec_take_i32(b, j) {
                    Some((dx, j)) => match spec_take_i32(b, j) {
                        Some((dy, j)) => match spec_take_u64(b, j) {
                            Some((time_us, j)) => Some(
                                (ToWasmModel::Scroll { x, y, dx, dy, time_us }, j),
                            ),
                            None => None,
                        },
                        None => None,
                    },
                    None => None,
                },
                None => None,
            },
            None => None,
        }
    } else if id == TO_WASM_KEY_DOWN {
        match spec_take_u32(b, 0) {
            Some((key_code, j)) => Some((ToWasmModel::KeyDown { key_code }, j)),
            None => None,
        }
    } else if id == TO_WASM_KEY_UP {
        match spec_take_u32(b, 0) {
            Some((key_code, j)) => Some((ToWasmModel::KeyUp { key_code }, j)),
            None => None,
        }
    } else if id == TO_WASM_TEXT_INPUT {
        match spec_take_string(b, 0) {
            Some((input, j)) => Some((ToWasmModel::TextInput { input }, j)),
            None => None,
        }
    } else if id == TO_WASM_TEXT_COPY {
        Some((ToWasmModel::TextCopy, 0))
    } else if id == TO_WASM_TIMER_FIRED {
        match spec_take_u64(b, 0) {
            Some((timer_id, j)) => Some((ToWasmModel::TimerFired { timer_id }, j)),
            None => None,
        }
    } else if id == TO_WASM_APP_GOT_FOCUS {
        Some((ToWasmModel::AppGotFocus, 0))
    } else if id == TO_WASM_APP_LOST_FOCUS {
        Some((ToWasmModel::AppLostFocus, 0))
    } else if id == TO_WASM_XR_UPDATE {
        match spec_take_u64(b, 0) {
            Some((time_us, j)) => Some((ToWasmModel::XrUpdate { time_us }, j)),
            None => None,
        }
    } else if id == TO_WASM_REDRAW_ALL {
        Some((ToWasmModel::RedrawAll, 0))
    } else if id == TO_WASM_PAINT_DIRTY {
        Some((ToWasmModel::PaintDirty, 0))
    } else if id == TO_WASM_WEB_SOCKET_CLOSE {
        match spec_take_u64(b, 0) {
            Some((web_socket_id, j)) => Some((ToWasmModel::WebSocketClose { web_socket_id }, j)),
            None => None,
        }
    } else if id == TO_WASM_WEB_SOCKET_OPEN {
        match spec_take_u64(b, 0) {
            Some((web_socket_id, j)) => Some((ToWasmModel::WebSocketOpen { web_socket_id }, j)),
            None => None,
        }
    } else if id == TO_WASM_WEB_SOCKET_ERROR {
        match spec_take_u64(b, 0) {
            Some((web_socket_id, j)) => match spec_take_string(b, j) {
                Some((error, j)) => Some(
                    (ToWasmModel::WebSocketError { web_socket_id, error }, j),
                ),
                None => None,
            },
            None => None,
        }
    } else if id == TO_WASM_WEB_SOCKET_MESSAGE {
        match spec_take_u64(b, 0) {
            Some((web_socket_id, j)) => match spec_take_blob(b, j) {
                Some((data, j)) => Some((ToWasmModel::WebSocketMessage { web_socket_id, data }, j)),
                None => None,
            },
            None => None,
        }
    } else {
        None
    }
}

impl ToWasm {
    /// Writes this message as one block of the envelope under construction.
    pub fn encode(&self, w: &mut EnvelopeWriter)
        requires
            old(w).wf(),
            old(w).is_closed(),
            wf_to_wasm(self.deep_view()),
        ensures
            final(w).wf(),
            final(w).is_closed(),
            final(w).blocks() == old(w).blocks().push(
                (to_wasm_id(self.deep_view()), to_wasm_payload(self.deep_view())),
            ),
    {
        proof {
            lemma_auto_spec_u32_to_from_le_bytes();
            lemma_auto_spec_u64_to_from_le_bytes();
        }
        match self {
            ToWasm::GetDeps { cpu_cores } => {
                w.begin_block(TO_WASM_GET_DEPS);
                w.write_u32(*cpu_cores);
            },
            ToWasm::Init { width, height, deps } => {
                w.begin_block(TO_WASM_INIT);
                w.write_u32(*width);
                w.write_u32(*height);
                let n = deps.len();
                w.write_u32(n as u32);
                let ghost dv = deps.deep_view();
                let ghost header = spec_u32_to_le_bytes(*width) + spec_u32_to_le_bytes(*height)
                    + spec_u32_to_le_bytes(n as u32);
                proof {
                    assert(w.open_payload() =~= header + spec_wire_deps_bytes(dv.take(0)));
                }
                let mut i: usize = 0;
                while i < n
                    invariant
                        n == deps@.len(),
                        dv == deps.deep_view(),
                        dv.len() == n,
                        0 <= i <= n,
                        w.wf(),
                        !w.is_closed(),
                        w.open_block_id() == TO_WASM_INIT,
                        w.blocks() == old(w).blocks(),
                        forall|k: int|
                            0 <= k < dv.len() ==> #[trigger] encode_utf8(dv[k].path).len()
                                <= MAX_PATH_BYTES && dv[k].data.len() <= MAX_DEP_DATA_BYTES,
                        dv.len() <= MAX_DEPS,
                        w.open_payload() == header + spec_wire_deps_bytes(dv.take(i as int)),
                    decreases n - i,
                {
                    proof {
                        assert(dv[i as int] == deps@[i as int].deep_view());
                        assert(encode_utf8(dv[i as int].path).len() <= MAX_PATH_BYTES);
                        assert(dv[i as int].data.len() <= MAX_DEP_DATA_BYTES);
                    }
                    w.write_string(deps[i].path.as_str());
                    w.write_blob(&deps[i].data);
                    proof {
                        assert(dv.take(i as int).push(dv[i as int]) =~~= dv.take(i as int + 1));
                        lemma_wire_deps_bytes_push(dv.take(i as int), dv[i as int]);
                        assert(w.open_payload() =~= header + spec_wire_deps_bytes(
                            dv.take(i as int + 1),
                        ));
                    }
                    i = i + 1;
                }
                proof {
                    assert(dv.take(n as int) =~~= dv);
                    lemma_wire_deps_bytes_len(dv);
                    assert(dv.len() <= MAX_DEPS ==> dv.len() * (MAX_PATH_BYTES
                        + MAX_DEP_DATA_BYTES + 8) <= MAX_DEPS * (MAX_PATH_BYTES
                        + MAX_DEP_DATA_BYTES + 8)) by (nonlinear_arith);
                }
            },
            ToWasm::TouchUpdate { time_us, state, x, y, uid } => {
                w.begin_block(TO_WASM_TOUCH_UPDATE);
                w.write_u64(*time_us);
                w.write_u32(*state);
                w.write_i32(*x);
                w.write_i32(*y);
                w.write_u64(*uid);
            },
            ToWasm::ResizeWindow { width, height } => {
                w.begin_block(TO_WASM_RESIZE_WINDOW);
                w.write_u32(*width);
                w.write_u32(*height);
            },
            ToWasm::AnimationFrame { time_us } => {
                w.begin_block(TO_WASM_ANIMATION_FRAME);
                w.write_u64(*time_us);
            },
            ToWasm::MouseDown { x, y, button, time_us } => {
                w.begin_block(TO_WASM_MOUSE_DOWN);
                w.write_i32(*x);
                w.write_i32(*y);
                w.write_u32(*button);
                w.write_u64(*time_us);
            },
            ToWasm::MouseMove { x, y, time_us } => {
                w.begin_block(TO_WASM_MOUSE_MOVE);
                w.write_i32(*x);
                w.write_i32(*y);
                w.write_u64(*time_us);
            },
            ToWasm::MouseUp { x, y, button, time_us } => {
                w.begin_block(TO_WASM_MOUSE_UP);
                w.write_i32(*x);
                w.write_i32(*y);
                w.write_u32(*button);
                w.write_u64(*time_us);
            },
            ToWasm::Scroll { x, y, dx, dy, time_us } => {
                w.begin_block(TO_WASM_SCROLL);
                w.write_i32(*x);
                w.write_i32(*y);
                w.write_i32(*dx);
                w.write_i32(*dy);
                w.write_u64(*time_us);
            },
            ToWasm::KeyDown { key_code } => {
                w.begin_block(TO_WASM_KEY_DOWN);
                w.write_u32(*key_code);
            },
            ToWasm::KeyUp { key_code } => {
                w.begin_block(TO_WASM_KEY_UP);
                w.write_u32(*key_code);
            },
            ToWasm::TextInput { input } => {
                w.begin_block(TO_WASM_TEXT_INPUT);
                w.write_string(input.as_str());
            },
            ToWasm::TextCopy => {
                w.begin_block(TO_WASM_TEXT_COPY);
            },
            ToWasm::TimerFired { timer_id } => {
                w.begin_block(TO_WASM_TIMER_FIRED);
                w.write_u64(*timer_id);
            },
            ToWasm::AppGotFocus => {
                w.begin_block(TO_WASM_APP_GOT_FOCUS);
            },
            ToWasm::AppLostFocus => {
                w.begin_block(TO_WASM_APP_LOST_FOCUS);
            },
            ToWasm::XrUpdate { time_us } => {
                w.begin_block(TO_WASM_XR_UPDATE);
                w.write_u64(*time_us);
            },
            ToWasm::RedrawAll => {
                w.begin_block(TO_WASM_REDRAW_ALL);
            },
            ToWasm::PaintDirty => {
                w.begin_block(TO_WASM_PAINT_DIRTY);
            },
            ToWasm::WebSocketClose { web_socket_id } => {
                w.begin_block(TO_WASM_WEB_SOCKET_CLOSE);
                w.write_u64(*web_socket_id);
            },
            ToWasm::WebSocketOpen { web_socket_id } => {
                w.begin_block(TO_WASM_WEB_SOCKET_OPEN);
                w.write_u64(*web_socket_id);
            },
            ToWasm::WebSocketError { web_socket_id, error } => {
                w.begin_block(TO_WASM_WEB_SOCKET_ERROR);
                w.write_u64(*web_socket_id);
                w.write_string(error.as_str());
            },
            ToWasm::WebSocketMessage { web_socket_id, data } => {
                w.begin_block(TO_WASM_WEB_SOCKET_MESSAGE);
                w.write_u64(*web_socket_id);
                w.write_blob(data);
            },
        }
        proof {
            assert(w.open_payload() =~= to_wasm_payload(self.deep_view()));
        }
        w.end_block();
    }
}

/// Decodes the payload of a recognised inbound block. Returns the message
/// and the number of payload bytes consumed, or `Truncated` exactly when the
/// spec-level parse fails.
pub fn decode_to_wasm(id: u64, payload: &Vec<u8>) -> (r: Result<
    (ToWasm, usize),
    ProtocolError,
>)
    ensures
        match spec_parse_to_wasm(id, payload@) {
            Some((m, n)) => r is Ok && r.unwrap().0.deep_view() == m && r.unwrap().1 == n,
            None => r == Err::<(ToWasm, usize), ProtocolError>(ProtocolError::Truncated),
        },
{
    let mut pos: usize = 0;
    if id == TO_WASM_GET_DEPS {
        let cpu_cores = take_u32(payload, &mut pos)?;
        Ok((ToWasm::GetDeps { cpu_cores }, pos))
    } else if id == TO_WASM_INIT {
        let width = take_u32(payload, &mut pos)?;
        let height = take_u32(payload, &mut pos)?;
        let n = take_u32(payload, &mut pos)?;
        let ghost pos0 = pos as int;
        let mut deps: Vec<WireDep> = Vec::new();
        let mut i: u32 = 0;
        while i < n
            invariant
                0 <= i <= n,
                pos <= payload@.len(),
                deps.deep_view().len() == i,
                id == TO_WASM_INIT,
                spec_take_u32(payload@, 0) == Some((width, 4int)),
                spec_take_u32(payload@, 4) == Some((height, 8int)),
                spec_take_u32(payload@, 8) == Some((n, pos0)),
                spec_take_wire_deps(payload@, pos0, n as nat) == (match spec_take_wire_deps(
                    payload@,
                    pos as int,
                    (n - i) as nat,
                ) {
                    Some((ds, k)) => Some::<(Seq<WireDepModel>, int)>((deps.deep_view() + ds, k)),
                    None => None::<(Seq<WireDepModel>, int)>,
                }),
            decreases n - i,
        {
            let ghost deps_before = deps.deep_view();
            let path = match take_string(payload, &mut pos) {
                Ok(v) => v,
                Err(_) => {
                    proof {
                        assert((n - i) as nat != 0);
                        assert(spec_take_wire_dep(payload@, pos as int) is None);
                        assert(spec_take_wire_deps(payload@, pos as int, (n - i) as nat) is None);
                        assert(spec_take_wire_deps(payload@, pos0, n as nat) is None);
                    }
                    return Err(ProtocolError::Truncated);
                },
            };
            let ghost pos_mid = pos as int;
            let data = match take_blob(payload, &mut pos) {
                Ok(v) => v,
                Err(_) => {
                    proof {
                        assert((n - i) as nat != 0);
                        assert(spec_take_wire_dep(payload@, pos as int) is None);
                        assert(spec_take_wire_deps(payload@, pos as int, (n - i) as nat) is None);
                        assert(spec_take_wire_deps(payload@, pos0, n as nat) is None);
                    }
                    return Err(ProtocolError::Truncated);
                },
            };
            deps.push(WireDep { path, data });
            proof {
                assert(deps.deep_view() =~~= deps_before.push(
                    WireDepModel { path: path@, data: data@ },
                ));
                if spec_take_wire_deps(payload@, pos as int, (n - i - 1) as nat) is Some {
                    let ds = spec_take_wire_deps(
                        payload@,
                        pos as int,
                        (n - i - 1) as nat,
                    )->Some_0.0;
                    assert(deps_before.push(WireDepModel { path: path@, data: data@ }) + ds
                        =~~= deps_before + (seq![WireDepModel { path: path@, data: data@ }] + ds));
                }
            }
            i = i + 1;
        }
        proof {
            assert(spec_take_wire_deps(payload@, pos as int, 0) == Some(
                (Seq::<WireDepModel>::empty(), pos as int),
            ));
            assert(deps.deep_view() + Seq::<WireDepModel>::empty() =~~= deps.deep_view());
        }
        Ok((ToWasm::Init { width, height, deps }, pos))
    } else if id == TO_WASM_TOUCH_UPDATE {
        let time_us = take_u64(payload, &mut pos)?;
        let state = take_u32(payload, &mut pos)?;
        let x = take_i32(payload, &mut pos)?;
        let y = take_i32(payload, &mut pos)?;
        let uid = take_u64(payload, &mut pos)?;
        Ok((ToWasm::TouchUpdate { time_us, state, x, y, uid }, pos))
    } else if id == TO_WASM_RESIZE_WINDOW {
        let width = take_u32(payload, &mut pos)?;
        let height = take_u32(payload, &mut pos)?;
        Ok((ToWasm::ResizeWindow { width, height }, pos))
    } else if id == TO_WASM_ANIMATION_FRAME {
        let time_us = take_u64(payload, &mut pos)?;
        Ok((ToWasm::AnimationFrame { time_us }, pos))
    } else if id == TO_WASM_MOUSE_DOWN {
        let x = take_i32(payload, &mut pos)?;
        let y = take_i32(payload, &mut pos)?;
        let button = take_u32(payload, &mut pos)?;
        let time_us = take_u64(payload, &mut pos)?;
        Ok((ToWasm::MouseDown { x, y, button, time_us }, pos))
    } else if id == TO_WASM_MOUSE_MOVE {
        let x = take_i32(payload, &mut pos)?;
        let y = take_i32(payload, &mut pos)?;
        let time_us = take_u64(payload, &mut pos)?;
        Ok((ToWasm::MouseMove { x, y, time_us }, pos))
    } else if id == TO_WASM_MOUSE_UP {
        let x = take_i32(payload, &mut pos)?;
        let y = take_i32(payload, &mut pos)?;
        let button = take_u32(payload, &mut pos)?;
        let time_us = take_u64(payload, &mut pos)?;
        Ok((ToWasm::MouseUp { x, y, button, time_us }, pos))
    } else if id == TO_WASM_SCROLL {
        let x = take_i32(payload, &mut pos)?;
        let y = take_i32(payload, &mut pos)?;
        let dx = take_i32(payload, &mut pos)?;
        let dy = take_i32(payload, &mut pos)?;
        let time_us = take_u64(payload, &mut pos)?;
        Ok((ToWasm::Scroll { x, y, dx, dy, time_us }, pos))
    } else if id == TO_WASM_KEY_DOWN {
        let key_code = take_u32(payload, &mut pos)?;
        Ok((ToWasm::KeyDown { key_code }, pos))
    } else if id == TO_WASM_KEY_UP {
        let key_code = take_u32(payload, &mut pos)?;
        Ok((ToWasm::KeyUp { key_code }, pos))
    } else if id == TO_WASM_TEXT_INPUT {
        let input = take_string(payload, &mut pos)?;
        Ok((ToWasm::TextInput { input }, pos))
    } else if id == TO_WASM_TEXT_COPY {
        Ok((ToWasm::TextCopy, pos))
    } else if id == TO_WASM_TIMER_FIRED {
        let timer_id = take_u64(payload, &mut pos)?;
        Ok((ToWasm::TimerFired { timer_id }, pos))
    } else if id == TO_WASM_APP_GOT_FOCUS {
        Ok((ToWasm::AppGotFocus, pos))
    } else if id == TO_WASM_APP_LOST_FOCUS {
        Ok((ToWasm::AppLostFocus, pos))
    } else if id == TO_WASM_XR_UPDATE {
        let time_us = take_u64(payload, &mut pos)?;
        Ok((ToWasm::XrUpdate { time_us }, pos))
    } else if id == TO_WASM_REDRAW_ALL {
        Ok((ToWasm::RedrawAll, pos))
    } else if id == TO_WASM_PAINT_DIRTY {
        Ok((ToWasm::PaintDirty, pos))
    } else if id == TO_WASM_WEB_SOCKET_CLOSE {
        let web_socket_id = take_u64(payload, &mut pos)?;
        Ok((ToWasm::WebSocketClose { web_socket_id }, pos))
    } else if id == TO_WASM_WEB_SOCKET_OPEN {
        let web_socket_id = take_u64(payload, &mut pos)?;
        Ok((ToWasm::WebSocketOpen { web_socket_id }, pos))
    } else if id == TO_WASM_WEB_SOCKET_ERROR {
        let web_socket_id = take_u64(payload, &mut pos)?;
        let error = take_string(payload, &mut pos)?;
        Ok((ToWasm::WebSocketError { web_socket_id, error }, pos))
    } else if id == TO_WASM_WEB_SOCKET_MESSAGE {
        let web_socket_id = take_u64(payload, &mut pos)?;
        let data = take_blob(payload, &mut pos)?;
        Ok((ToWasm::WebSocketMessage { web_socket_id, data }, pos))
    } else {
        Err(ProtocolError::Truncated)
    }
}

/// Round trip for inbound blocks: parsing the encoding of any well-formed
/// message yields that message and consumes the whole payload.
pub proof fn lemma_parse_to_wasm_round_trip(m: ToWasmModel)
    requires
        wf_to_wasm(m),
    ensures
        spec_parse_to_wasm(to_wasm_id(m), to_wasm_payload(m)) == Some(
            (m, to_wasm_payload(m).len() as int),
        ),
{
    lemma_auto_spec_u32_to_from_le_bytes();
    lemma_auto_spec_u64_to_from_le_bytes();
    let p = to_wasm_payload(m);
    let e = Seq::<u8>::empty();
    match m {
        ToWasmModel::GetDeps { cpu_cores } => {
            assert(e + p + e =~= p);
            lemma_take_u32(e, cpu_cores, e);
        },
        ToWasmModel::Init { width, height, deps } => {
            let a = spec_u32_to_le_bytes(width);
            let b = spec_u32_to_le_bytes(height);
            let cnt = spec_u32_to_le_bytes(deps.len() as u32);
            let body = spec_wire_deps_bytes(deps);
            assert(e + a + (b + cnt + body) =~= p);
            lemma_take_u32(e, width, b + cnt + body);
            assert(a + b + (cnt + body) =~= p);
            lemma_take_u32(a, height, cnt + body);
            assert((a + b) + cnt + body =~= p);
            lemma_take_u32(a + b, deps.len() as u32, body);
            assert(forall|i: int|
                0 <= i < deps.len() ==> #[trigger] encode_utf8(deps[i].path).len() <= u32::MAX
                    && deps[i].data.len() <= u32::MAX);
            lemma_take_wire_deps(a + b + cnt, deps, e);
            assert((a + b + cnt) + body + e =~= p);
        },
        ToWasmModel::TouchUpdate { time_us, state, x, y, uid } => {
            let a = spec_u64_to_le_bytes(time_us);
            let b = spec_u32_to_le_bytes(state);
            let c = spec_i32_to_bytes(x);
            let d = spec_i32_to_bytes(y);
            let t = spec_u64_to_le_bytes(uid);
            assert(e + a + (b + c + d + t) =~= p);
            lemma_take_u64(e, time_us, b + c + d + t);
            assert(a + b + (c + d + t) =~= p);
            lemma_take_u32(a, state, c + d + t);
            assert((a + b) + c + (d + t) =~= p);
            lemma_take_i32(a + b, x, d + t);
            assert((a + b + c) + d + t =~= p);
            lemma_take_i32(a + b + c, y, t);
            assert((a + b + c + d) + t + e =~= p);
            lemma_take_u64(a + b + c + d, uid, e);
        },
        ToWasmModel::ResizeWindow { width, height } => {
            let a = spec_u32_to_le_bytes(width);
            let b = spec_u32_to_le_bytes(height);
            assert(e + a + b =~= p);
            lemma_take_u32(e, width, b);
            assert(a + b + e =~= p);
            lemma_take_u32(a, height, e);
        },
        ToWasmModel::AnimationFrame { time_us } => {
            assert(e + p + e =~= p);
            lemma_take_u64(e, time_us, e);
        },
        ToWasmModel::MouseDown { x, y, button, time_us } => {
            lemma_scalar_xybt(x, y, button, time_us);
        },
        ToWasmModel::MouseMove { x, y, time_us } => {
            let a = spec_i32_to_bytes(x);
            let b = spec_i32_to_bytes(y);
            let c = spec_u64_to_le_bytes(time_us);
            assert(e + a + (b + c) =~= p);
            lemma_take_i32(e, x, b + c);
            assert(a + b + c =~= p);
            lemma_take_i32(a, y, c);
            assert((a + b) + c + e =~= p);
            lemma_take_u64(a + b, time_us, e);
        },
        ToWasmModel::MouseUp { x, y, button, time_us } => {
            lemma_scalar_xybt(x, y, button, time_us);
        },
        ToWasmModel::Scroll { x, y, dx, dy, time_us } => {
            let a = spec_i32_to_bytes(x);
            let b = spec_i32_to_bytes(y);
            let c = spec_i32_to_bytes(dx);
            let d = spec_i32_to_bytes(dy);
            let t = spec_u64_to_le_bytes(time_us);
            assert(e + a + (b + c + d + t) =~= p);
            lemma_take_i32(e, x, b + c + d + t);
            assert(a + b + (c + d + t) =~= p);
            lemma_take_i32(a, y, c + d + t);
            assert((a + b) + c + (d + t) =~= p);
            lemma_take_i32(a + b, dx, d + t);
            assert((a + b + c) + d + t =~= p);
            lemma_take_i32(a + b + c, dy, t);
            assert((a + b + c + d) + t + e =~= p);
            lemma_take_u64(a + b + c + d, time_us, e);
        },
        ToWasmModel::KeyDown { key_code } => {
            assert(e + p + e =~= p);
            lemma_take_u32(e, key_code, e);
        },
        ToWasmModel::KeyUp { key_code } => {
            assert(e + p + e =~= p);
            lemma_take_u32(e, key_code, e);
        },
        ToWasmModel::TextInput { input } => {
            assert(e + p + e =~= p);
            lemma_take_string(e, input, e);
        },
        ToWasmModel::TextCopy => {},
        ToWasmModel::TimerFired { timer_id } => {
            assert(e + p + e =~= p);
            lemma_take_u64(e, timer_id, e);
        },
        ToWasmModel::AppGotFocus => {},
        ToWasmModel::AppLostFocus => {},
        ToWasmModel::XrUpdate { time_us } => {
            assert(e + p + e =~= p);
            lemma_take_u64(e, time_us, e);
        },
        ToWasmModel::RedrawAll => {},
        ToWasmModel::PaintDirty => {},
        ToWasmModel::WebSocketClose { web_socket_id } => {
            assert(e + p + e =~= p);
            lemma_take_u64(e, web_socket_id, e);
        },
        ToWasmModel::WebSocketOpen { web_socket_id } => {
            assert(e + p + e =~= p);
            lemma_take_u64(e, web_socket_id, e);
        },
        ToWasmModel::WebSocketError { web_socket_id, error } => {
            let a = spec_u64_to_le_bytes(web_socket_id);
            let s = spec_string_to_bytes(error);
            assert(e + a + s =~= p);
            lemma_take_u64(e, web_socket_id, s);
            assert(a + s + e =~= p);
            lemma_take_string(a, error, e);
        },
        ToWasmModel::WebSocketMessage { web_socket_id, data } => {
            let a = spec_u64_to_le_bytes(web_socket_id);
            let s = spec_blob_to_bytes(data);
            assert(e + a + s =~= p);
            lemma_take_u64(e, web_socket_id, s);
            assert(a + s + e =~= p);
            lemma_take_blob(a, data, e);
        },
    }
}

/// Shared step for the mouse block shape `[i32][i32][u32][u64]`.
proof fn lemma_scalar_xybt(x: i32, y: i32, button: u32, time_us: u64)
    ensures
        ({
            let p = spec_i32_to_bytes(x) + spec_i32_to_bytes(y) + spec_u32_to_le_bytes(button)
                + spec_u64_to_le_bytes(time_us);
            &&& spec_take_i32(p, 0) == Some((x, 4int))
            &&& spec_take_i32(p, 4) == Some((y, 8int))
            &&& spec_take_u32(p, 8) == Some((button, 12int))
            &&& spec_take_u64(p, 12) == Some((time_us, 20int))
            &&& p.len() == 20
        }),
{
    lemma_auto_spec_u32_to_from_le_bytes();
    lemma_auto_spec_u64_to_from_le_bytes();
    let e = Seq::<u8>::empty();
    let a = spec_i32_to_bytes(x);
    let b = spec_i32_to_bytes(y);
    let c = spec_u32_to_le_bytes(button);
    let t = spec_u64_to_le_bytes(time_us);
    let p = a + b + c + t;
    assert(e + a + (b + c + t) =~= p);
    lemma_take_i32(e, x, b + c + t);
    assert(a + b + (c + t) =~= p);
    lemma_take_i32(a, y, c + t);
    assert((a + b) + c + t =~= p);
    lemma_take_u32(a + b, button, t);
    assert((a + b + c) + t + e =~= p);
    lemma_take_u64(a + b + c, time_us, e);
}


// ---------------------------------------------------------------------------
// Outbound commands (core to host)
// ---------------------------------------------------------------------------

/// Bound on the number of dependency paths one `LoadDeps` block carries.
pub const MAX_DEPS: u64 = 4096;

/// Bound on the UTF-8 byte length of one dependency path.
pub const MAX_PATH_BYTES: u64 = 4096;

/// One outbound block: a host-directed operation. `CreateThread` carries a
/// one-shot ownership-transfer token: an opaque handle to a task that the
/// host is obliged to run exactly once.
#[derive(Clone, Debug, PartialEq)]
pub enum FromWasm {
    LoadDeps { deps: Vec<String> },
    StartTimer { timer_id: u64, interval_us: u64, repeats: bool },
    StopTimer { timer_id: u64 },
    FullScreen,
    NormalScreen,
    RequestAnimationFrame,
    SetDocumentTitle { title: String },
    SetMouseCursor { cursor: u32 },
    TextCopyResponse { response: String },
    ShowTextIme { x: i32, y: i32 },
    HideTextIme,
    CreateThread { closure_ptr: u32 },
    WebSocketOpen { url: String, web_socket_id: u64, auto_reconnect: bool },
    WebSocketSend { web_socket_id: u64, data: Vec<u8> },
    XrStartPresenting,
    XrStopPresenting,
}

/// The mathematical value of a `FromWasm` command.
pub enum FromWasmModel {
    LoadDeps { deps: Seq<Seq<char>> },
    StartTimer { timer_id: u64, interval_us: u64, repeats: bool },
    StopTimer { timer_id: u64 },
    FullScreen,
    NormalScreen,
    RequestAnimationFrame,
    SetDocumentTitle { title: Seq<char> },
    SetMouseCursor { cursor: u32 },
    TextCopyResponse { response: Seq<char> },
    ShowTextIme { x: i32, y: i32 },
    HideTextIme,
    CreateThread { closure_ptr: u32 },
    WebSocketOpen { url: Seq<char>, web_socket_id: u64, auto_reconnect: bool },
    WebSocketSend { web_socket_id: u64, data: Seq<u8> },
    XrStartPresenting,
    XrStopPresenting,
}

impl DeepView for FromWasm {
    type V = FromWasmModel;

    open spec fn deep_view(&self) -> FromWasmModel {
        match self {
            FromWasm::LoadDeps { deps } => FromWasmModel::LoadDeps { deps: deps.deep_view() },
            FromWasm::StartTimer { timer_id, interval_us, repeats } => FromWasmModel::StartTimer {
                timer_id: *timer_id,
                interval_us: *interval_us,
                repeats: *repeats,
            },
            FromWasm::StopTimer { timer_id } => FromWasmModel::StopTimer { timer_id: *timer_id },
            FromWasm::FullScreen => FromWasmModel::FullScreen,
            FromWasm::NormalScreen => FromWasmModel::NormalScreen,
            FromWasm::RequestAnimationFrame => FromWasmModel::RequestAnimationFrame,
            FromWasm::SetDocumentTitle { title } => FromWasmModel::SetDocumentTitle {
                title: title@,
            },
            FromWasm::SetMouseCursor { cursor } => FromWasmModel::SetMouseCursor {
                cursor: *cursor,
            },
            FromWasm::TextCopyResponse { response } => FromWasmModel::TextCopyResponse {
                response: response@,
            },
            FromWasm::ShowTextIme { x, y } => FromWasmModel::ShowTextIme { x: *x, y: *y },
            FromWasm::HideTextIme => FromWasmModel::HideTextIme,
            FromWasm::CreateThread { closure_ptr } => FromWasmModel::CreateThread {
                closure_ptr: *closure_ptr,
            },
            FromWasm::WebSocketOpen { url, web_socket_id, auto_reconnect } => {
                FromWasmModel::WebSocketOpen {
                    url: url@,
                    web_socket_id: *web_socket_id,
                    auto_reconnect: *auto_reconnect,
                }
            },
            FromWasm::WebSocketSend { web_socket_id, data } => FromWasmModel::WebSocketSend {
                web_socket_id: *web_socket_id,
                data: data@,
            },
            FromWasm::XrStartPresenting => FromWasmModel::XrStartPresenting,
            FromWasm::XrStopPresenting => FromWasmModel::XrStopPresenting,
        }
    }
}

/// The block id each outbound kind travels under.
pub open spec fn from_wasm_id(m: FromWasmModel) -> u64 {
    match m {
        FromWasmModel::LoadDeps { .. } => FROM_WASM_LOAD_DEPS,
        FromWasmModel::StartTimer { .. } => FROM_WASM_START_TIMER,
        FromWasmModel::StopTimer { .. } => FROM_WASM_STOP_TIMER,
        FromWasmModel::FullScreen => FROM_WASM_FULL_SCREEN,
        FromWasmModel::NormalScreen => FROM_WASM_NORMAL_SCREEN,
        FromWasmModel::RequestAnimationFrame => FROM_WASM_REQUEST_ANIMATION_FRAME,
        FromWasmModel::SetDocumentTitle { .. } => FROM_WASM_SET_DOCUMENT_TITLE,
        FromWasmModel::SetMouseCursor { .. } => FROM_WASM_SET_MOUSE_CURSOR,
        FromWasmModel::TextCopyResponse { .. } => FROM_WASM_TEXT_COPY_RESPONSE,
        FromWasmModel::ShowTextIme { .. } => FROM_WASM_SHOW_TEXT_IME,
        FromWasmModel::HideTextIme => FROM_WASM_HIDE_TEXT_IME,
        FromWasmModel::CreateThread { .. } => FROM_WASM_CREATE_THREAD,
        FromWasmModel::WebSocketOpen { .. } => FROM_WASM_WEB_SOCKET_OPEN,
        FromWasmModel::WebSocketSend { .. } => FROM_WASM_WEB_SOCKET_SEND,
        FromWasmModel::XrStartPresenting => FROM_WASM_XR_START_PRESENTING,
        FromWasmModel::XrStopPresenting => FROM_WASM_XR_STOP_PRESENTING,
    }
}

pub open spec fn spec_is_from_wasm_id(id: u64) -> bool {
    ||| id == FROM_WASM_LOAD_DEPS
    ||| id == FROM_WASM_START_TIMER
    ||| id == FROM_WASM_STOP_TIMER
    ||| id == FROM_WASM_FULL_SCREEN
    ||| id == FROM_WASM_NORMAL_SCREEN
    ||| id == FROM_WASM_REQUEST_ANIMATION_FRAME
    ||| id == FROM_WASM_SET_DOCUMENT_TITLE
    ||| id == FROM_WASM_SET_MOUSE_CURSOR
    ||| id == FROM_WASM_TEXT_COPY_RESPONSE
    ||| id == FROM_WASM_SHOW_TEXT_IME
    ||| id == FROM_WASM_HIDE_TEXT_IME
    ||| id == FROM_WASM_CREATE_THREAD
    ||| id == FROM_WASM_WEB_SOCKET_OPEN
    ||| id == FROM_WASM_WEB_SOCKET_SEND
    ||| id == FROM_WASM_XR_START_PRESENTING
    ||| id == FROM_WASM_XR_STOP_PRESENTING
}

pub fn is_from_wasm_id(id: u64) -> (r: bool)
    ensures
        r == spec_is_from_wasm_id(id),
{
    id == FROM_WASM_LOAD_DEPS || id == FROM_WASM_START_TIMER || id == FROM_WASM_STOP_TIMER || id
        == FROM_WASM_FULL_SCREEN || id == FROM_WASM_NORMAL_SCREEN || id
        == FROM_WASM_REQUEST_ANIMATION_FRAME || id == FROM_WASM_SET_DOCUMENT_TITLE || id
        == FROM_WASM_SET_MOUSE_CURSOR || id == FROM_WASM_TEXT_COPY_RESPONSE || id
        == FROM_WASM_SHOW_TEXT_IME || id == FROM_WASM_HIDE_TEXT_IME || id
        == FROM_WASM_CREATE_THREAD || id == FROM_WASM_WEB_SOCKET_OPEN || id
        == FROM_WASM_WEB_SOCKET_SEND || id == FROM_WASM_XR_START_PRESENTING || id
        == FROM_WASM_XR_STOP_PRESENTING
}

// A length-prefixed list of strings travels as a `u32` count followed by each
// string in order.

pub open spec fn spec_strings_to_bytes(ss: Seq<Seq<char>>) -> Seq<u8>
    decreases ss.len(),
{
    if ss.len() == 0 {
        Seq::empty()
    } else {
        spec_string_to_bytes(ss[0]) + spec_strings_to_bytes(ss.drop_first())
    }
}

pub open spec fn spec_take_strings(b: Seq<u8>, i: int, n: nat) -> Option<(Seq<Seq<char>>, int)>
    decreases n,
{
    if n == 0 {
        Some((Seq::empty(), i))
    } else {
        match spec_take_string(b, i) {
            Some((s, j)) => match spec_take_strings(b, j, (n - 1) as nat) {
                Some((ss, k)) => Some((seq![s] + ss, k)),
                None => None,
            },
            None => None,
        }
    }
}

pub proof fn lemma_strings_to_bytes_push(ss: Seq<Seq<char>>, s: Seq<char>)
    ensures
        spec_strings_to_bytes(ss.push(s)) == spec_strings_to_bytes(ss) + spec_string_to_bytes(s),
    decreases ss.len(),
{
    if ss.len() == 0 {
        assert(ss.push(s)[0] == s);
        assert(ss.push(s).drop_first() =~~= Seq::<Seq<char>>::empty());
        assert(spec_strings_to_bytes(ss.push(s).drop_first()) == Seq::<u8>::empty());
        assert(spec_string_to_bytes(s) + Seq::<u8>::empty() =~= spec_string_to_bytes(s));
        assert(spec_strings_to_bytes(ss) + spec_string_to_bytes(s) =~= spec_string_to_bytes(s));
    } else {
        assert(ss.push(s)[0] == ss[0]);
        assert(ss.push(s).drop_first() =~~= ss.drop_first().push(s));
        lemma_strings_to_bytes_push(ss.drop_first(), s);
        let head = spec_string_to_bytes(ss[0]);
        let mid = spec_strings_to_bytes(ss.drop_first());
        let tail = spec_string_to_bytes(s);
        assert(spec_strings_to_bytes(ss.push(s)) == head + (mid + tail));
        assert(head + (mid + tail) =~= (head + mid) + tail);
    }
}

/// Total byte length of an encoded string list, bounded by the per-path cap.
pub proof fn lemma_strings_to_bytes_len(ss: Seq<Seq<char>>)
    requires
        forall|i: int| 0 <= i < ss.len() ==> #[trigger] encode_utf8(ss[i]).len() <= MAX_PATH_BYTES,
    ensures
        spec_strings_to_bytes(ss).len() <= ss.len() * (MAX_PATH_BYTES + 4),
    decreases ss.len(),
{
    lemma_auto_spec_u32_to_from_le_bytes();
    if ss.len() == 0 {
    } else {
        assert(encode_utf8(ss[0]).len() <= MAX_PATH_BYTES);
        assert(forall|i: int|
            0 <= i < ss.drop_first().len() ==> #[trigger] encode_utf8(
                ss.drop_first()[i],
            ).len() <= MAX_PATH_BYTES);
        lemma_strings_to_bytes_len(ss.drop_first());
        assert(ss.len() * (MAX_PATH_BYTES + 4) == (ss.len() - 1) * (MAX_PATH_BYTES + 4) + (
        MAX_PATH_BYTES + 4)) by (nonlinear_arith);
    }
}

/// Round trip for a string list standing at the end of `prefix`.
pub proof fn lemma_take_strings(prefix: Seq<u8>, ss: Seq<Seq<char>>, rest: Seq<u8>)
    requires
        forall|i: int| 0 <= i < ss.len() ==> #[trigger] encode_utf8(ss[i]).len() <= u32::MAX,
    ensures
        spec_take_strings(prefix + spec_strings_to_bytes(ss) + rest, prefix.len() as int, ss.len())
            == Some((ss, prefix.len() as int + spec_strings_to_bytes(ss).len())),
    decreases ss.len(),
{
    let b = prefix + spec_strings_to_bytes(ss) + rest;
    if ss.len() == 0 {
        assert(spec_take_strings(b, prefix.len() as int, 0) == Some(
            (Seq::<Seq<char>>::empty(), prefix.len() as int),
        ));
        assert(ss =~~= Seq::<Seq<char>>::empty());
    } else {
        let s0 = ss[0];
        let srest = ss.drop_first();
        assert(encode_utf8(ss[0]).len() <= u32::MAX);
        assert(b =~= prefix + spec_string_to_bytes(s0) + (spec_strings_to_bytes(srest) + rest));
        lemma_take_string(prefix, s0, spec_strings_to_bytes(srest) + rest);
        assert(spec_string_to_bytes(s0).len() == 4 + encode_utf8(s0).len()) by {
            lemma_auto_spec_u32_to_from_le_bytes();
        };
        let p2 = prefix + spec_string_to_bytes(s0);
        assert(forall|i: int|
            0 <= i < srest.len() ==> #[trigger] encode_utf8(srest[i]).len() <= u32::MAX);
        lemma_take_strings(p2, srest, rest);
        assert(b =~= p2 + spec_strings_to_bytes(srest) + rest);
        assert(spec_take_strings(b, p2.len() as int, srest.len()) == Some(
            (srest, p2.len() as int + spec_strings_to_bytes(srest).len()),
        ));
        assert(seq![s0] + srest =~~= ss);
    }
}

/// Size bounds under which a command is encodable.
pub open spec fn wf_from_wasm(m: FromWasmModel) -> bool {
    match m {
        FromWasmModel::LoadDeps { deps } => deps.len() <= MAX_DEPS && forall|i: int|
            0 <= i < deps.len() ==> #[trigger] encode_utf8(deps[i]).len() <= MAX_PATH_BYTES,
        FromWasmModel::SetDocumentTitle { title } => encode_utf8(title).len() <= MAX_VAR_BYTES,
        FromWasmModel::TextCopyResponse { response } => encode_utf8(response).len()
            <= MAX_VAR_BYTES,
        FromWasmModel::WebSocketOpen { url, .. } => encode_utf8(url).len() <= MAX_VAR_BYTES,
        FromWasmModel::WebSocketSend { data, .. } => data.len() <= MAX_VAR_BYTES,
        _ => true,
    }
}

/// The payload bytes of one outbound command.
pub open spec fn from_wasm_payload(m: FromWasmModel) -> Seq<u8> {
    match m {
        FromWasmModel::LoadDeps { deps } => spec_u32_to_le_bytes(deps.len() as u32)
            + spec_strings_to_bytes(deps),
        FromWasmModel::StartTimer { timer_id, interval_us, repeats } => spec_u64_to_le_bytes(
            timer_id,
        ) + spec_u64_to_le_bytes(interval_us) + spec_bool_to_bytes(repeats),
        FromWasmModel::StopTimer { timer_id } => spec_u64_to_le_bytes(timer_id),
        FromWasmModel::FullScreen => Seq::empty(),
        FromWasmModel::NormalScreen => Seq::empty(),
        FromWasmModel::RequestAnimationFrame => Seq::empty(),
        FromWasmModel::SetDocumentTitle { title } => spec_string_to_bytes(title),
        FromWasmModel::SetMouseCursor { cursor } => spec_u32_to_le_bytes(cursor),
        FromWasmModel::TextCopyResponse { response } => spec_string_to_bytes(response),
        FromWasmModel::ShowTextIme { x, y } => spec_i32_to_bytes(x) + spec_i32_to_bytes(y),
        FromWasmModel::HideTextIme => Seq::empty(),
        FromWasmModel::CreateThread { closure_ptr } => spec_u32_to_le_bytes(closure_ptr),
        FromWasmModel::WebSocketOpen { url, web_socket_id, auto_reconnect } => spec_string_to_bytes(
            url,
        ) + spec_u64_to_le_bytes(web_socket_id) + spec_bool_to_bytes(auto_reconnect),
        FromWasmModel::WebSocketSend { web_socket_id, data } => spec_u64_to_le_bytes(web_socket_id)
            + spec_blob_to_bytes(data),
        FromWasmModel::XrStartPresenting => Seq::empty(),
        FromWasmModel::XrStopPresenting => Seq::empty(),
    }
}

/// Parses the payload of a recognised outbound block.
pub open spec fn spec_parse_from_wasm(id: u64, b: Seq<u8>) -> Option<(FromWasmModel, int)> {
    if id == FROM_WASM_LOAD_DEPS {
        match spec_take_u32(b, 0) {
            Some((n, j)) => match spec_take_strings(b, j, n as nat) {
                Some((deps, j)) => Some((FromWasmModel::LoadDeps { deps }, j)),
                None => None,
            },
            None => None,
        }
    } else if id == FROM_WASM_START_TIMER {
        match spec_take_u64(b, 0) {
            Some((timer_id, j)) => match spec_take_u64(b, j) {
                Some((interval_us, j)) => match spec_take_bool(b, j) {
                    Some((repeats, j)) => Some(
                        (FromWasmModel::StartTimer { timer_id, interval_us, repeats }, j),
                    ),
                    None => None,
                },
                None => None,
            },
            None => None,
        }
    } else if id == FROM_WASM_STOP_TIMER {
        match spec_take_u64(b, 0) {
            Some((timer_id, j)) => Some((FromWasmModel::StopTimer { timer_id }, j)),
            None => None,
        }
    } else if id == FROM_WASM_FULL_SCREEN {
        Some((FromWasmModel::FullScreen, 0))
    } else if id == FROM_WASM_NORMAL_SCREEN {
        Some((FromWasmModel::NormalScreen, 0))
    } else if id == FROM_WASM_REQUEST_ANIMATION_FRAME {
        Some((FromWasmModel::RequestAnimationFrame, 0))
    } else if id == FROM_WASM_SET_DOCUMENT_TITLE {
        match spec_take_string(b, 0) {
            Some((title, j)) => Some((FromWasmModel::SetDocumentTitle { title }, j)),
            None => None,
        }
    } else if id == FROM_WASM_SET_MOUSE_CURSOR {
        match spec_take_u32(b, 0) {
            Some((cursor, j)) => Some((FromWasmModel::SetMouseCursor { cursor }, j)),
            None => None,
        }
    } else if id == FROM_WASM_TEXT_COPY_RESPONSE {
        match spec_take_string(b, 0) {
            Some((response, j)) => Some((FromWasmModel::TextCopyResponse { response }, j)),
            None => None,
        }
    } else if id == FROM_WASM_SHOW_TEXT_IME {
        match spec_take_i32(b, 0) {
            Some((x, j)) => match spec_take_i32(b, j) {
                Some((y, j)) => Some((FromWasmModel::ShowTextIme { x, y }, j)),
                None => None,
            },
            None => None,
        }
    } else if id == FROM_WASM_HIDE_TEXT_IME {
        Some((FromWasmModel::HideTextIme, 0))
    } else if id == FROM_WASM_CREATE_THREAD {
        match spec_take_u32(b, 0) {
            Some((closure_ptr, j)) => Some((FromWasmModel::CreateThread { closure_ptr }, j)),
            None => None,
        }
    } else if id == FROM_WASM_WEB_SOCKET_OPEN {
        match spec_take_string(b, 0) {
            Some((url, j)) => match spec_take_u64(b, j) {
                Some((web_socket_id, j)) => match spec_take_bool(b, j) {
                    Some((auto_reconnect, j)) => Some(
                        (FromWasmModel::WebSocketOpen { url, web_socket_id, auto_reconnect }, j),
                    ),
                    None => None,
                },
                None => None,
            },
            None => None,
        }
    } else if id == FROM_WASM_WEB_SOCKET_SEND {
        match spec_take_u64(b, 0) {
            Some((web_socket_id, j)) => match spec_take_blob(b, j) {
                Some((data, j)) => Some((FromWasmModel::WebSocketSend { web_socket_id, data }, j)),
                None => None,
            },
            None => None,
        }
    } else if id == FROM_WASM_XR_START_PRESENTING {
        Some((FromWasmModel::XrStartPresenting, 0))
    } else if id == FROM_WASM_XR_STOP_PRESENTING {
        Some((FromWasmModel::XrStopPresenting, 0))
    } else {
        None
    }
}

impl FromWasm {
    /// Writes this command as one block of the envelope under construction.
    pub fn encode(&self, w: &mut EnvelopeWriter)
        requires
            old(w).wf(),
            old(w).is_closed(),
            wf_from_wasm(self.deep_view()),
        ensures
            final(w).wf(),
            final(w).is_closed(),
            final(w).blocks() == old(w).blocks().push(
                (from_wasm_id(self.deep_view()), from_wasm_payload(self.deep_view())),
            ),
    {
        proof {
            lemma_auto_spec_u32_to_from_le_bytes();
            lemma_auto_spec_u64_to_from_le_bytes();
        }
        match self {
            FromWasm::LoadDeps { deps } => {
                w.begin_block(FROM_WASM_LOAD_DEPS);
                let n = deps.len();
                w.write_u32(n as u32);
                let ghost dv = deps.deep_view();
                let mut i: usize = 0;
                while i < n
                    invariant
                        n == deps@.len(),
                        dv == deps.deep_view(),
                        dv.len() == n,
                        0 <= i <= n,
                        w.wf(),
                        !w.is_closed(),
                        w.open_block_id() == FROM_WASM_LOAD_DEPS,
                        w.blocks() == old(w).blocks(),
                        dv.len() <= MAX_DEPS,
                        forall|k: int|
                            0 <= k < dv.len() ==> #[trigger] vstd::utf8::encode_utf8(
                                dv[k],
                            ).len() <= MAX_PATH_BYTES,
                        w.open_payload() == spec_u32_to_le_bytes(n as u32) + spec_strings_to_bytes(
                            dv.take(i as int),
                        ),
                    decreases n - i,
                {
                    proof {
                        assert(dv[i as int] == deps@[i as int]@);
                        assert(encode_utf8(dv[i as int]).len() <= MAX_PATH_BYTES);
                    }
                    w.write_string(deps[i].as_str());
                    proof {
                        assert(dv.take(i as int).push(dv[i as int]) =~~= dv.take(i as int + 1));
                        lemma_strings_to_bytes_push(dv.take(i as int), dv[i as int]);
                        assert(w.open_payload() =~= spec_u32_to_le_bytes(n as u32)
                            + spec_strings_to_bytes(dv.take(i as int + 1)));
                    }
                    i = i + 1;
                }
                proof {
                    assert(dv.take(n as int) =~~= dv);
                    lemma_strings_to_bytes_len(dv);
                }
            },
            FromWasm::StartTimer { timer_id, interval_us, repeats } => {
                w.begin_block(FROM_WASM_START_TIMER);
                w.write_u64(*timer_id);
                w.write_u64(*interval_us);
                w.write_bool(*repeats);
            },
            FromWasm::StopTimer { timer_id } => {
                w.begin_block(FROM_WASM_STOP_TIMER);
                w.write_u64(*timer_id);
            },
            FromWasm::FullScreen => {
                w.begin_block(FROM_WASM_FULL_SCREEN);
            },
            FromWasm::NormalScreen => {
                w.begin_block(FROM_WASM_NORMAL_SCREEN);
            },
            FromWasm::RequestAnimationFrame => {
                w.begin_block(FROM_WASM_REQUEST_ANIMATION_FRAME);
            },
            FromWasm::SetDocumentTitle { title } => {
                w.begin_block(FROM_WASM_SET_DOCUMENT_TITLE);
                w.write_string(title.as_str());
            },
            FromWasm::SetMouseCursor { cursor } => {
                w.begin_block(FROM_WASM_SET_MOUSE_CURSOR);
                w.write_u32(*cursor);
            },
            FromWasm::TextCopyResponse { response } => {
                w.begin_block(FROM_WASM_TEXT_COPY_RESPONSE);
                w.write_string(response.as_str());
            },
            FromWasm::ShowTextIme { x, y } => {
                w.begin_block(FROM_WASM_SHOW_TEXT_IME);
                w.write_i32(*x);
                w.write_i32(*y);
            },
            FromWasm::HideTextIme => {
                w.begin_block(FROM_WASM_HIDE_TEXT_IME);
            },
            FromWasm::CreateThread { closure_ptr } => {
                w.begin_block(FROM_WASM_CREATE_THREAD);
                w.write_u32(*closure_ptr);
            },
            FromWasm::WebSocketOpen { url, web_socket_id, auto_reconnect } => {
                w.begin_block(FROM_WASM_WEB_SOCKET_OPEN);
                w.write_string(url.as_str());
                w.write_u64(*web_socket_id);
                w.write_bool(*auto_reconnect);
            },
            FromWasm::WebSocketSend { web_socket_id, data } => {
                w.begin_block(FROM_WASM_WEB_SOCKET_SEND);
                w.write_u64(*web_socket_id);
                w.write_blob(data);
            },
            FromWasm::XrStartPresenting => {
                w.begin_block(FROM_WASM_XR_START_PRESENTING);
            },
            FromWasm::XrStopPresenting => {
                w.begin_block(FROM_WASM_XR_STOP_PRESENTING);
            },
        }
        proof {
            assert(w.open_payload() =~= from_wasm_payload(self.deep_view()));
        }
        w.end_block();
    }
}

/// Decodes the payload of a recognised outbound block; the host-side half of
/// the registry, used to read a finished outbound envelope back.
pub fn decode_from_wasm(id: u64, payload: &Vec<u8>) -> (r: Result<
    (FromWasm, usize),
    ProtocolError,
>)
    ensures
        match spec_parse_from_wasm(id, payload@) {
            Some((m, n)) => r is Ok && r.unwrap().0.deep_view() == m && r.unwrap().1 == n,
            None => r == Err::<(FromWasm, usize), ProtocolError>(ProtocolError::Truncated),
        },
{
    let mut pos: usize = 0;
    if id == FROM_WASM_LOAD_DEPS {
        let n = take_u32(payload, &mut pos)?;
        let ghost pos0 = pos as int;
        let mut deps: Vec<String> = Vec::new();
        let mut i: u32 = 0;
        while i < n
            invariant
                0 <= i <= n,
                pos <= payload@.len(),
                deps.deep_view().len() == i,
                id == FROM_WASM_LOAD_DEPS,
                spec_take_u32(payload@, 0) == Some((n, pos0)),
                spec_take_strings(payload@, pos0, n as nat) == (match spec_take_strings(
                    payload@,
                    pos as int,
                    (n - i) as nat,
                ) {
                    Some((ss, k)) => Some::<(Seq<Seq<char>>, int)>((deps.deep_view() + ss, k)),
                    None => None::<(Seq<Seq<char>>, int)>,
                }),
            decreases n - i,
        {
            let ghost deps_before = deps.deep_view();
            let s = match take_string(payload, &mut pos) {
                Ok(s) => s,
                Err(_) => {
                    proof {
                        assert((n - i) as nat != 0);
                        assert(spec_take_string(payload@, pos as int) is None);
                        assert(spec_take_strings(payload@, pos as int, (n - i) as nat) is None);
                        assert(spec_take_strings(payload@, pos0, n as nat) is None);
                    }
                    return Err(ProtocolError::Truncated);
                },
            };
            deps.push(s);
            proof {
                assert(deps.deep_view() =~~= deps_before.push(s@));
                if spec_take_strings(payload@, pos as int, (n - i - 1) as nat) is Some {
                    let ss = spec_take_strings(payload@, pos as int, (n - i - 1) as nat)->Some_0.0;
                    assert(deps_before.push(s@) + ss =~~= deps_before + (seq![s@] + ss));
                }
            }
            i = i + 1;
        }
        proof {
            assert(spec_take_strings(payload@, pos as int, 0) == Some(
                (Seq::<Seq<char>>::empty(), pos as int),
            ));
            assert(deps.deep_view() + Seq::<Seq<char>>::empty() =~~= deps.deep_view());
        }
        Ok((FromWasm::LoadDeps { deps }, pos))
    } else if id == FROM_WASM_START_TIMER {
        let timer_id = take_u64(payload, &mut pos)?;
        let interval_us = take_u64(payload, &mut pos)?;
        let repeats = take_bool(payload, &mut pos)?;
        Ok((FromWasm::StartTimer { timer_id, interval_us, repeats }, pos))
    } else if id == FROM_WASM_STOP_TIMER {
        let timer_id = take_u64(payload, &mut pos)?;
        Ok((FromWasm::StopTimer { timer_id }, pos))
    } else if id == FROM_WASM_FULL_SCREEN {
        Ok((FromWasm::FullScreen, pos))
    } else if id == FROM_WASM_NORMAL_SCREEN {
        Ok((FromWasm::NormalScreen, pos))
    } else if id == FROM_WASM_REQUEST_ANIMATION_FRAME {
        Ok((FromWasm::RequestAnimationFrame, pos))
    } else if id == FROM_WASM_SET_DOCUMENT_TITLE {
        let title = take_string(payload, &mut pos)?;
        Ok((FromWasm::SetDocumentTitle { title }, pos))
    } else if id == FROM_WASM_SET_MOUSE_CURSOR {
        let cursor = take_u32(payload, &mut pos)?;
        Ok((FromWasm::SetMouseCursor { cursor }, pos))
    } else if id == FROM_WASM_TEXT_COPY_RESPONSE {
        let response = take_string(payload, &mut pos)?;
        Ok((FromWasm::TextCopyResponse { response }, pos))
    } else if id == FROM_WASM_SHOW_TEXT_IME {
        let x = take_i32(payload, &mut pos)?;
        let y = take_i32(payload, &mut pos)?;
        Ok((FromWasm::ShowTextIme { x, y }, pos))
    } else if id == FROM_WASM_HIDE_TEXT_IME {
        Ok((FromWasm::HideTextIme, pos))
    } else if id == FROM_WASM_CREATE_THREAD {
        let closure_ptr = take_u32(payload, &mut pos)?;
        Ok((FromWasm::CreateThread { closure_ptr }, pos))
    } else if id == FROM_WASM_WEB_SOCKET_OPEN {
        let url = take_string(payload, &mut pos)?;
        let web_socket_id = take_u64(payload, &mut pos)?;
        let auto_reconnect = take_bool(payload, &mut pos)?;
        Ok((FromWasm::WebSocketOpen { url, web_socket_id, auto_reconnect }, pos))
    } else if id == FROM_WASM_WEB_SOCKET_SEND {
        let web_socket_id = take_u64(payload, &mut pos)?;
        let data = take_blob(payload, &mut pos)?;
        Ok((FromWasm::WebSocketSend { web_socket_id, data }, pos))
    } else if id == FROM_WASM_XR_START_PRESENTING {
        Ok((FromWasm::XrStartPresenting, pos))
    } else if id == FROM_WASM_XR_STOP_PRESENTING {
        Ok((FromWasm::XrStopPresenting, pos))
    } else {
        Err(ProtocolError::Truncated)
    }
}

/// Round trip for outbound blocks: parsing the encoding of any well-formed
/// command yields that command and consumes the whole payload.
pub proof fn lemma_parse_from_wasm_round_trip(m: FromWasmModel)
    requires
        wf_from_wasm(m),
    ensures
        spec_parse_from_wasm(from_wasm_id(m), from_wasm_payload(m)) == Some(
            (m, from_wasm_payload(m).len() as int),
        ),
{
    lemma_auto_spec_u32_to_from_le_bytes();
    lemma_auto_spec_u64_to_from_le_bytes();
    let p = from_wasm_payload(m);
    let e = Seq::<u8>::empty();
    match m {
        FromWasmModel::LoadDeps { deps } => {
            let cnt = spec_u32_to_le_bytes(deps.len() as u32);
            let body = spec_strings_to_bytes(deps);
            assert(e + cnt + (body + e) =~= p);
            lemma_take_u32(e, deps.len() as u32, body + e);
            assert(forall|i: int|
                0 <= i < deps.len() ==> #[trigger] encode_utf8(deps[i]).len() <= u32::MAX);
            lemma_take_strings(cnt, deps, e);
            assert(cnt + body + e =~= p);
            assert(p.len() == 4 + body.len());
        },
        FromWasmModel::StartTimer { timer_id, interval_us, repeats } => {
            let a = spec_u64_to_le_bytes(timer_id);
            let b = spec_u64_to_le_bytes(interval_us);
            let c = spec_bool_to_bytes(repeats);
            assert(e + a + (b + c) =~= p);
            lemma_take_u64(e, timer_id, b + c);
            assert(a + b + c =~= p);
            lemma_take_u64(a, interval_us, c);
            assert((a + b) + c + e =~= p);
            lemma_take_bool(a + b, repeats, e);
        },
        FromWasmModel::StopTimer { timer_id } => {
            assert(e + p + e =~= p);
            lemma_take_u64(e, timer_id, e);
        },
        FromWasmModel::FullScreen => {},
        FromWasmModel::NormalScreen => {},
        FromWasmModel::RequestAnimationFrame => {},
        FromWasmModel::SetDocumentTitle { title } => {
            assert(e + p + e =~= p);
            lemma_take_string(e, title, e);
        },
        FromWasmModel::SetMouseCursor { cursor } => {
            assert(e + p + e =~= p);
            lemma_take_u32(e, cursor, e);
        },
        FromWasmModel::TextCopyResponse { response } => {
            assert(e + p + e =~= p);
            lemma_take_string(e, response, e);
        },
        FromWasmModel::ShowTextIme { x, y } => {
            let a = spec_i32_to_bytes(x);
            let b = spec_i32_to_bytes(y);
            assert(e + a + b =~= p);
            lemma_take_i32(e, x, b);
            assert(a + b + e =~= p);
            lemma_take_i32(a, y, e);
        },
        FromWasmModel::HideTextIme => {},
        FromWasmModel::CreateThread { closure_ptr } => {
            assert(e + p + e =~= p);
            lemma_take_u32(e, closure_ptr, e);
        },
        FromWasmModel::WebSocketOpen { url, web_socket_id, auto_reconnect } => {
            let a = spec_string_to_bytes(url);
            let b = spec_u64_to_le_bytes(web_socket_id);
            let c = spec_bool_to_bytes(auto_reconnect);
            assert(e + a + (b + c) =~= p);
            lemma_take_string(e, url, b + c);
            assert(a + b + c =~= p);
            lemma_take_u64(a, web_socket_id, c);
            assert((a + b) + c + e =~= p);
            lemma_take_bool(a + b, auto_reconnect, e);
        },
        FromWasmModel::WebSocketSend { web_socket_id, data } => {
            let a = spec_u64_to_le_bytes(web_socket_id);
            let s = spec_blob_to_bytes(data);
            assert(e + a + s =~= p);
            lemma_take_u64(e, web_socket_id, s);
            assert(a + s + e =~= p);
            lemma_take_blob(a, data, e);
        },
        FromWasmModel::XrStartPresenting => {},
        FromWasmModel::XrStopPresenting => {},
    }
}

} // verus!
