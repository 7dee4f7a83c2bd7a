//! The application core: dispatch loop, outgoing command queue and frame
//! scheduler.
//!
//! One call of `Cx::process_to_wasm` is one dispatch cycle: the host hands
//! over an inbound envelope, the core decodes it block by block, routes each
//! recognised block to the application's event handler, drains the platform
//! operation queue in FIFO order, decides whether to request another
//! animation frame, and hands one outbound envelope back.

use vstd::prelude::*;
use vstd::string::StringExecFns;
use vstd::string::StrSliceExecFns;
use vstd::utf8::encode_utf8;

use crate::envelope::EnvelopeReader;
use crate::envelope::EnvelopeWriter;
use crate::envelope::spec_envelope_bytes;
use crate::envelope::spec_parse_frames;
use crate::host::spec_cmd_blocks;
use crate::msg::decode_to_wasm;
use crate::msg::is_to_wasm_id;
use crate::msg::spec_is_to_wasm_id;
use crate::msg::spec_parse_to_wasm;
use crate::msg::wf_from_wasm;
use crate::msg::FromWasm;
use crate::msg::FromWasmModel;
use crate::msg::ToWasm;
use crate::msg::WireDepModel;
use crate::msg::MAX_DEPS;
use crate::msg::MAX_PATH_BYTES;
use crate::msg::MAX_VAR_BYTES;
use crate::protocol::ProtocolError;
use crate::protocol::SENTINEL_ID;
use crate::protocol::SIGNAL_TIMER_ID;
use crate::protocol::SIGNAL_TIMER_INTERVAL_US;

verus! {

/// Two pointer-down events at the same spot within this interval extend a tap
/// chain (double click, triple click, ...).
pub const TAP_CHAIN_INTERVAL_US: u64 = 500_000;

/// Window geometry as the host reports it. The scale factor travels in
/// thousandths so that no fractional number is needed.
#[derive(Clone, Copy, Debug, PartialEq, Eq, Structural)]
pub struct WindowGeom {
    pub inner_width: u32,
    pub inner_height: u32,
    pub dpi_factor_milli: u32,
}

/// One window the core tracks; the host owns the real one.
#[derive(Clone, Debug)]
pub struct CxWindow {
    pub window_geom: WindowGeom,
    pub create_title: String,
    pub is_created: bool,
    pub main_pass_id: Option<usize>,
}

/// One registered dependency: a path the host can fetch, and its data once
/// the host has delivered it.
#[derive(Clone, Debug)]
pub struct CxDependency {
    pub path: String,
    pub data: Option<Vec<u8>>,
}

/// Pointer state the core keeps for tap counting and capture bookkeeping.
#[derive(Clone, Copy, Debug, PartialEq, Eq, Structural)]
pub struct CxFingers {
    pub tap_count: u64,
    pub last_tap_x: i32,
    pub last_tap_y: i32,
    pub last_tap_time_us: u64,
    pub buttons_down: u64,
}

/// Whether `x, y, time_us` continues the tap chain recorded in `f`.
pub open spec fn spec_tap_chain(f: CxFingers, x: i32, y: i32, time_us: u64) -> bool {
    &&& f.last_tap_time_us <= time_us
    &&& time_us - f.last_tap_time_us <= TAP_CHAIN_INTERVAL_US
    &&& x == f.last_tap_x
    &&& y == f.last_tap_y
}

impl CxFingers {
    /// Extends or restarts the tap chain at a pointer-down.
    pub fn process_tap_count(&mut self, x: i32, y: i32, time_us: u64)
        ensures
            spec_tap_chain(*old(self), x, y, time_us) && old(self).tap_count < u64::MAX
                ==> final(self).tap_count == old(self).tap_count + 1,
            !spec_tap_chain(*old(self), x, y, time_us) ==> final(self).tap_count == 1,
            final(self).last_tap_x == x,
            final(self).last_tap_y == y,
            final(self).last_tap_time_us == time_us,
            final(self).buttons_down == old(self).buttons_down,
    {
        if time_us >= self.last_tap_time_us && time_us - self.last_tap_time_us
            <= TAP_CHAIN_INTERVAL_US && x == self.last_tap_x && y == self.last_tap_y {
            if self.tap_count < u64::MAX {
                self.tap_count = self.tap_count + 1;
            }
        } else {
            self.tap_count = 1;
        }
        self.last_tap_x = x;
        self.last_tap_y = y;
        self.last_tap_time_us = time_us;
    }

    /// Records one more pressed mouse button.
    pub fn mouse_down(&mut self)
        ensures
            old(self).buttons_down < u64::MAX ==> final(self).buttons_down == old(
                self,
            ).buttons_down + 1,
            *final(self) == (CxFingers { buttons_down: final(self).buttons_down, ..*old(self) }),
    {
        if self.buttons_down < u64::MAX {
            self.buttons_down = self.buttons_down + 1;
        }
    }

    /// Records one mouse button released.
    pub fn mouse_up(&mut self)
        ensures
            old(self).buttons_down > 0 ==> final(self).buttons_down == old(self).buttons_down - 1,
            old(self).buttons_down == 0 ==> final(self).buttons_down == 0,
            *final(self) == (CxFingers { buttons_down: final(self).buttons_down, ..*old(self) }),
    {
        if self.buttons_down > 0 {
            self.buttons_down = self.buttons_down - 1;
        }
    }
}

/// The cross-thread UI signal flag, polled by the reserved timer. Worker
/// threads set it through the host; the dispatch loop checks and clears it.
#[derive(Clone, Copy, Debug, PartialEq, Eq, Structural)]
pub struct SignalFlag {
    pub set: bool,
}

impl SignalFlag {
    pub fn new() -> (r: Self)
        ensures
            !r.set,
    {
        SignalFlag { set: false }
    }

    /// Raises the flag; the next signal-poll tick will observe it.
    pub fn post_signal(&mut self)
        ensures
            final(self).set,
    {
        self.set = true;
    }

    /// Atomically (within the single-threaded core) observes and clears the
    /// flag.
    pub fn check_and_clear_ui_signal(&mut self) -> (r: bool)
        ensures
            !final(self).set,
            r == old(self).set,
    {
        let r = self.set;
        self.set = false;
        r
    }
}

/// A handle to a host-side socket, allocated monotonically by the core.
#[derive(Clone, Copy, Debug, PartialEq, Eq, Structural)]
pub struct WebSocket(pub u64);

#[derive(Clone, Copy, Debug, PartialEq, Eq, Structural)]
pub enum WebSocketAutoReconnect {
    Yes,
    No,
}

/// One event delivered to the application's single entry point. Wire events
/// arrive through the registry; `Construct`, `WindowGeomChange`, `NextFrame`,
/// `Timer`, `Signal` and `Draw` are produced by the core itself, and
/// `ToWasmMsg` preserves an unrecognised block for downstream handlers.
#[derive(Clone, Debug, PartialEq)]
pub enum Event {
    Construct,
    WindowGeomChange { old_geom: WindowGeom, new_geom: WindowGeom },
    NextFrame { time_us: u64 },
    TouchUpdate { time_us: u64, state: u32, x: i32, y: i32, uid: u64 },
    MouseDown { x: i32, y: i32, button: u32, time_us: u64 },
    MouseMove { x: i32, y: i32, time_us: u64 },
    MouseUp { x: i32, y: i32, button: u32, time_us: u64 },
    Scroll { x: i32, y: i32, dx: i32, dy: i32, time_us: u64 },
    KeyDown { key_code: u32 },
    KeyUp { key_code: u32 },
    TextInput { input: String },
    TextCopy,
    Timer { timer_id: u64 },
    Signal,
    AppGotFocus,
    AppLostFocus,
    XrUpdate { time_us: u64 },
    RedrawRequested,
    WebSocketClose(WebSocket),
    WebSocketOpen(WebSocket),
    WebSocketError { web_socket: WebSocket, error: String },
    WebSocketMessage { web_socket: WebSocket, data: Vec<u8> },
    Draw,
    ToWasmMsg { id: u64, payload: Vec<u8> },
}

/// One pending host-directed operation, enqueued by application logic during
/// dispatch and drained once per cycle.
#[derive(Clone, Copy, Debug, PartialEq, Eq, Structural)]
pub enum CxOsOp {
    CreateWindow(usize),
    CloseWindow(usize),
    MinimizeWindow(usize),
    MaximizeWindow(usize),
    RestoreWindow(usize),
    FullscreenWindow(usize),
    NormalizeWindow(usize),
    XrStartPresenting,
    XrStopPresenting,
    ShowTextIme { x: i32, y: i32 },
    HideTextIme,
    SetCursor(u32),
    StartTimer { timer_id: u64, interval_us: u64, repeats: bool },
    StopTimer(u64),
}

/// The command one drained operation turns into, if any. `CreateWindow` also
/// mutates the window entry; the others only emit.
pub open spec fn spec_op_cmd(windows: Seq<CxWindow>, op: CxOsOp) -> Option<FromWasmModel> {
    match op {
        CxOsOp::CreateWindow(window_id) => if window_id < windows.len() {
            Some(
                FromWasmModel::SetDocumentTitle {
                    title: windows[window_id as int].create_title@,
                },
            )
        } else {
            None
        },
        CxOsOp::CloseWindow(_) => None,
        CxOsOp::MinimizeWindow(_) => None,
        CxOsOp::MaximizeWindow(_) => None,
        CxOsOp::RestoreWindow(_) => None,
        CxOsOp::FullscreenWindow(_) => Some(FromWasmModel::FullScreen),
        CxOsOp::NormalizeWindow(_) => Some(FromWasmModel::NormalScreen),
        CxOsOp::XrStartPresenting => Some(FromWasmModel::XrStartPresenting),
        CxOsOp::XrStopPresenting => Some(FromWasmModel::XrStopPresenting),
        CxOsOp::ShowTextIme { x, y } => Some(FromWasmModel::ShowTextIme { x, y }),
        CxOsOp::HideTextIme => Some(FromWasmModel::HideTextIme),
        CxOsOp::SetCursor(cursor) => Some(FromWasmModel::SetMouseCursor { cursor }),
        CxOsOp::StartTimer { timer_id, interval_us, repeats } => Some(
            FromWasmModel::StartTimer { timer_id, interval_us, repeats },
        ),
        CxOsOp::StopTimer(timer_id) => Some(FromWasmModel::StopTimer { timer_id }),
    }
}

/// The commands a queue of operations turns into, drained front to back.
pub open spec fn spec_ops_cmds(windows: Seq<CxWindow>, ops: Seq<CxOsOp>) -> Seq<FromWasmModel>
    decreases ops.len(),
{
    if ops.len() == 0 {
        Seq::empty()
    } else {
        match spec_op_cmd(windows, ops[0]) {
            Some(c) => seq![c] + spec_ops_cmds(windows, ops.drop_first()),
            None => spec_ops_cmds(windows, ops.drop_first()),
        }
    }
}

/// The dependency paths, in registration order.
pub open spec fn spec_dep_paths(deps: Seq<CxDependency>) -> Seq<Seq<char>> {
    deps.map(|i: int, d: CxDependency| d.path@)
}


// ---------------------------------------------------------------------------
// Platform half of the core
// ---------------------------------------------------------------------------

/// Host-facing storage: the current window geometry, the outbound envelope of
/// the cycle in flight, and the advisory registry schema strings each side
/// publishes.
pub struct CxOs {
    pub window_geom: WindowGeom,
    pub from_wasm_msg: Option<EnvelopeWriter>,
    pub to_wasm_js: Vec<String>,
    pub from_wasm_js: Vec<String>,
    pub emitted: Ghost<Seq<FromWasmModel>>,
}

impl CxOs {
    /// A dispatch cycle is in flight: an outbound envelope is being built.
    pub closed spec fn dispatching(&self) -> bool {
        self.from_wasm_msg is Some
    }

    /// The outbound envelope under construction holds exactly the blocks of
    /// the commands emitted so far this cycle.
    pub closed spec fn wf(&self) -> bool {
        match self.from_wasm_msg {
            None => true,
            Some(w) => {
                &&& w.wf()
                &&& w.is_closed()
                &&& w.blocks() == spec_cmd_blocks(self.emitted@)
                &&& forall|i: int|
                    0 <= i < self.emitted@.len() ==> #[trigger] wf_from_wasm(self.emitted@[i])
            },
        }
    }

    pub fn new() -> (r: CxOs)
        ensures
            r.wf(),
            !r.dispatching(),
            r.window_geom == (WindowGeom { inner_width: 0, inner_height: 0, dpi_factor_milli: 1000 }),
            r.to_wasm_js@.len() == 0,
            r.from_wasm_js@.len() == 0,
    {
        CxOs {
            window_geom: WindowGeom { inner_width: 0, inner_height: 0, dpi_factor_milli: 1000 },
            from_wasm_msg: None,
            to_wasm_js: Vec::new(),
            from_wasm_js: Vec::new(),
            emitted: Ghost(Seq::empty()),
        }
    }

    /// Opens the outbound envelope for a new cycle.
    pub fn begin_cycle(&mut self)
        requires
            old(self).wf(),
            !old(self).dispatching(),
        ensures
            final(self).wf(),
            final(self).dispatching(),
            final(self).emitted@ == Seq::<FromWasmModel>::empty(),
            final(self).window_geom == old(self).window_geom,
            final(self).to_wasm_js == old(self).to_wasm_js,
            final(self).from_wasm_js == old(self).from_wasm_js,
    {
        self.from_wasm_msg = Some(EnvelopeWriter::new());
        self.emitted = Ghost(Seq::empty());
        proof {
            assert(spec_cmd_blocks(Seq::<FromWasmModel>::empty())
                =~= Seq::<(u64, Seq<u8>)>::empty());
        }
    }

    /// Appends one command to the outbound envelope of the cycle in flight.
    pub fn from_wasm(&mut self, cmd: FromWasm)
        requires
            old(self).wf(),
            old(self).dispatching(),
            wf_from_wasm(cmd.deep_view()),
        ensures
            final(self).wf(),
            final(self).dispatching(),
            final(self).emitted@ == old(self).emitted@.push(cmd.deep_view()),
            final(self).window_geom == old(self).window_geom,
            final(self).to_wasm_js == old(self).to_wasm_js,
            final(self).from_wasm_js == old(self).from_wasm_js,
    {
        let taken = self.from_wasm_msg.take();
        match taken {
            Some(mut w) => {
                cmd.encode(&mut w);
                self.from_wasm_msg = Some(w);
                self.emitted = Ghost(self.emitted@.push(cmd.deep_view()));
                proof {
                    assert(spec_cmd_blocks(self.emitted@) =~~= spec_cmd_blocks(
                        old(self).emitted@,
                    ).push((
                        crate::msg::from_wasm_id(cmd.deep_view()),
                        crate::msg::from_wasm_payload(cmd.deep_view()),
                    )));
                }
            },
            None => {
                proof {
                    assert(false);
                }
            },
        }
    }

    /// Closes the cycle and hands the finished outbound envelope over.
    pub fn end_cycle(&mut self) -> (r: Vec<u8>)
        requires
            old(self).wf(),
            old(self).dispatching(),
        ensures
            final(self).wf(),
            !final(self).dispatching(),
            final(self).emitted@ == old(self).emitted@,
            r@ == spec_envelope_bytes(spec_cmd_blocks(old(self).emitted@)),
            final(self).window_geom == old(self).window_geom,
            final(self).to_wasm_js == old(self).to_wasm_js,
            final(self).from_wasm_js == old(self).from_wasm_js,
    {
        let taken = self.from_wasm_msg.take();
        match taken {
            Some(w) => w.finish(),
            None => {
                proof {
                    assert(false);
                }
                Vec::new()
            },
        }
    }

    /// Publishes schema strings for inbound block kinds.
    pub fn append_to_wasm_js(&mut self, strs: &[String])
        ensures
            final(self).to_wasm_js@.len() == old(self).to_wasm_js@.len() + strs@.len(),
            forall|i: int|
                0 <= i < old(self).to_wasm_js@.len() ==> final(self).to_wasm_js@[i] == old(
                    self,
                ).to_wasm_js@[i],
            forall|i: int|
                0 <= i < strs@.len() ==> #[trigger] final(self).to_wasm_js@[old(
                    self,
                ).to_wasm_js@.len() + i]@ == strs@[i]@,
            final(self).window_geom == old(self).window_geom,
            final(self).from_wasm_msg == old(self).from_wasm_msg,
            final(self).emitted == old(self).emitted,
            final(self).from_wasm_js == old(self).from_wasm_js,
    {
        let mut i: usize = 0;
        while i < strs.len()
            invariant
                0 <= i <= strs@.len(),
                self.to_wasm_js@.len() == old(self).to_wasm_js@.len() + i,
                forall|k: int|
                    0 <= k < old(self).to_wasm_js@.len() ==> self.to_wasm_js@[k] == old(
                        self,
                    ).to_wasm_js@[k],
                forall|k: int|
                    0 <= k < i ==> #[trigger] self.to_wasm_js@[old(self).to_wasm_js@.len() + k]@
                        == strs@[k]@,
                self.window_geom == old(self).window_geom,
                self.from_wasm_msg == old(self).from_wasm_msg,
                self.emitted == old(self).emitted,
                self.from_wasm_js == old(self).from_wasm_js,
            decreases strs@.len() - i,
        {
            let s = strs[i].clone();
            self.to_wasm_js.push(s);
            i = i + 1;
        }
    }

    /// Publishes schema strings for outbound block kinds.
    pub fn append_from_wasm_js(&mut self, strs: &[String])
        ensures
            final(self).from_wasm_js@.len() == old(self).from_wasm_js@.len() + strs@.len(),
            forall|i: int|
                0 <= i < old(self).from_wasm_js@.len() ==> final(self).from_wasm_js@[i] == old(
                    self,
                ).from_wasm_js@[i],
            forall|i: int|
                0 <= i < strs@.len() ==> #[trigger] final(self).from_wasm_js@[old(
                    self,
                ).from_wasm_js@.len() + i]@ == strs@[i]@,
            final(self).window_geom == old(self).window_geom,
            final(self).from_wasm_msg == old(self).from_wasm_msg,
            final(self).emitted == old(self).emitted,
            final(self).to_wasm_js == old(self).to_wasm_js,
    {
        let mut i: usize = 0;
        while i < strs.len()
            invariant
                0 <= i <= strs@.len(),
                self.from_wasm_js@.len() == old(self).from_wasm_js@.len() + i,
                forall|k: int|
                    0 <= k < old(self).from_wasm_js@.len() ==> self.from_wasm_js@[k] == old(
                        self,
                    ).from_wasm_js@[k],
                forall|k: int|
                    0 <= k < i ==> #[trigger] self.from_wasm_js@[old(self).from_wasm_js@.len() + k]@
                        == strs@[k]@,
                self.window_geom == old(self).window_geom,
                self.from_wasm_msg == old(self).from_wasm_msg,
                self.emitted == old(self).emitted,
                self.to_wasm_js == old(self).to_wasm_js,
            decreases strs@.len() - i,
        {
            let s = strs[i].clone();
            self.from_wasm_js.push(s);
            i = i + 1;
        }
    }
}

// ---------------------------------------------------------------------------
// The core
// ---------------------------------------------------------------------------

/// The application core's state across dispatch cycles.
pub struct Cx {
    pub cpu_cores: u32,
    pub dependencies: Vec<CxDependency>,
    pub windows: Vec<CxWindow>,
    pub passes: Vec<bool>,
    pub next_frames: u64,
    pub needs_redraw: bool,
    pub fingers: CxFingers,
    pub keys_down: u64,
    pub platform_ops: Vec<CxOsOp>,
    pub web_socket_id: u64,
    pub signal: SignalFlag,
    pub length_mismatches: u64,
    pub text_copy_response: Option<String>,
    pub os: CxOs,
}

impl Cx {
    /// Size bounds that keep every command the core itself emits encodable,
    /// plus the outbound-envelope invariant.
    pub open spec fn wf(&self) -> bool {
        &&& self.os.wf()
        &&& self.windows@.len() >= 1
        &&& self.dependencies@.len() <= MAX_DEPS
        &&& forall|i: int|
            0 <= i < self.dependencies@.len() ==> #[trigger] encode_utf8(
                self.dependencies@[i].path@,
            ).len() <= MAX_PATH_BYTES
        &&& forall|i: int|
            0 <= i < self.windows@.len() ==> #[trigger] encode_utf8(
                self.windows@[i].create_title@,
            ).len() <= MAX_VAR_BYTES
        &&& match self.text_copy_response {
            Some(s) => encode_utf8(s@).len() <= MAX_VAR_BYTES,
            None => true,
        }
    }

    pub open spec fn dispatching(&self) -> bool {
        self.os.dispatching()
    }

    /// Whether the frame scheduler must ask the host for another invocation:
    /// a pass is paint-dirty, a redraw is outstanding, or a next-frame
    /// callback is registered.
    pub open spec fn scheduler_pending(&self) -> bool {
        ||| exists|i: int| 0 <= i < self.passes@.len() && self.passes@[i]
        ||| self.needs_redraw
        ||| self.next_frames > 0
    }

    pub fn new() -> (r: Self)
        ensures
            r.wf(),
            !r.dispatching(),
            r.windows@.len() == 1,
            !r.windows@[0].is_created,
            r.dependencies@.len() == 0,
            r.passes@.len() == 0,
            r.next_frames == 0,
            !r.needs_redraw,
            r.fingers.tap_count == 0,
            r.platform_ops@.len() == 0,
            r.web_socket_id == 0,
            !r.signal.set,
            r.length_mismatches == 0,
            r.text_copy_response is None,
            !r.scheduler_pending(),
    {
        let mut windows: Vec<CxWindow> = Vec::new();
        windows.push(
            CxWindow {
                window_geom: WindowGeom { inner_width: 0, inner_height: 0, dpi_factor_milli: 1000 },
                create_title: String::new(),
                is_created: false,
                main_pass_id: None,
            },
        );
        proof {
            assert(encode_utf8(Seq::<char>::empty()).len() == 0);
        }
        Cx {
            cpu_cores: 1,
            dependencies: Vec::new(),
            windows,
            passes: Vec::new(),
            next_frames: 0,
            needs_redraw: false,
            fingers: CxFingers {
                tap_count: 0,
                last_tap_x: 0,
                last_tap_y: 0,
                last_tap_time_us: 0,
                buttons_down: 0,
            },
            keys_down: 0,
            platform_ops: Vec::new(),
            web_socket_id: 0,
            signal: SignalFlag::new(),
            length_mismatches: 0,
            text_copy_response: None,
            os: CxOs::new(),
        }
    }

    /// Registers a dependency path the host should load; refused when a bound
    /// would be exceeded.
    pub fn add_dependency(&mut self, path: String) -> (r: bool)
        requires
            old(self).wf(),
        ensures
            final(self).wf(),
            r <==> (old(self).dependencies@.len() < MAX_DEPS && encode_utf8(path@).len()
                <= MAX_PATH_BYTES),
            r ==> final(self).dependencies@ == old(self).dependencies@.push(
                CxDependency { path: path, data: None::<Vec<u8>> },
            ),
            !r ==> final(self).dependencies@ == old(self).dependencies@,
            final(self).os == old(self).os,
            final(self).dispatching() == old(self).dispatching(),
    {
        if self.dependencies.len() < (MAX_DEPS as usize) && path.as_str().as_bytes().len() <= (
        MAX_PATH_BYTES as usize) {
            self.dependencies.push(CxDependency { path, data: None });
            true
        } else {
            false
        }
    }

    /// Stores the data the host delivered for a dependency: every entry
    /// registered under `path` receives it. Returns whether any entry
    /// matched.
    pub fn set_dependency_data(&mut self, path: &String, data: Vec<u8>) -> (r: bool)
        requires
            old(self).wf(),
        ensures
            final(self).wf(),
            final(self).dependencies@.len() == old(self).dependencies@.len(),
            forall|k: int|
                0 <= k < final(self).dependencies@.len()
                    ==> #[trigger] final(self).dependencies@[k].path == old(
                    self,
                ).dependencies@[k].path,
            forall|k: int|
                0 <= k < final(self).dependencies@.len() && old(self).dependencies@[k].path@
                    == path@ ==> ((#[trigger] final(self).dependencies@[k].data) matches Some(d)
                    && d@ == data@),
            forall|k: int|
                0 <= k < final(self).dependencies@.len() && old(self).dependencies@[k].path@
                    != path@ ==> #[trigger] final(self).dependencies@[k].data == old(
                    self,
                ).dependencies@[k].data,
            r <==> exists|k: int|
                0 <= k < old(self).dependencies@.len() && (#[trigger] old(
                    self,
                ).dependencies@[k].path@) == path@,
            *final(self) == (Cx { dependencies: final(self).dependencies, ..*old(self) }),
    {
        let mut found = false;
        let mut k: usize = 0;
        while k < self.dependencies.len()
            invariant
                0 <= k <= self.dependencies@.len(),
                self.dependencies@.len() == old(self).dependencies@.len(),
                old(self).wf(),
                self.wf(),
                forall|j: int|
                    0 <= j < self.dependencies@.len() ==> #[trigger] self.dependencies@[j].path
                        == old(self).dependencies@[j].path,
                forall|j: int|
                    0 <= j < k && old(self).dependencies@[j].path@ == path@ ==> ((
                    #[trigger] self.dependencies@[j].data) matches Some(d) && d@ == data@),
                forall|j: int|
                    (k <= j < self.dependencies@.len() || old(self).dependencies@[j].path@
                        != path@) && 0 <= j < self.dependencies@.len()
                        ==> #[trigger] self.dependencies@[j].data == old(
                        self,
                    ).dependencies@[j].data,
                found <==> exists|j: int|
                    0 <= j < k && (#[trigger] old(self).dependencies@[j].path@) == path@,
                *self == (Cx { dependencies: self.dependencies, ..*old(self) }),
            decreases self.dependencies@.len() - k,
        {
            if self.dependencies[k].path.eq(path) {
                let owned_path = self.dependencies[k].path.clone();
                let stored = vstd::slice::slice_to_vec(data.as_slice());
                self.dependencies[k] = CxDependency { path: owned_path, data: Some(stored) };
                proof {
                    assert(self.dependencies@[k as int].path@ == old(
                        self,
                    ).dependencies@[k as int].path@);
                }
                found = true;
            }
            k = k + 1;
        }
        found
    }

    /// Marks everything as needing redraw.
    pub fn redraw_all(&mut self)
        ensures
            *final(self) == (Cx { needs_redraw: true, ..*old(self) }),
    {
        self.needs_redraw = true;
    }

    pub fn need_redrawing(&self) -> (r: bool)
        ensures
            r == self.needs_redraw,
    {
        self.needs_redraw
    }

    /// Registers one callback for the next animation frame.
    pub fn new_next_frame(&mut self)
        ensures
            final(self).next_frames > 0,
            old(self).next_frames < u64::MAX ==> final(self).next_frames == old(self).next_frames
                + 1,
            *final(self) == (Cx { next_frames: final(self).next_frames, ..*old(self) }),
    {
        if self.next_frames < u64::MAX {
            self.next_frames = self.next_frames + 1;
        }
    }

    pub fn any_passes_dirty(&self) -> (r: bool)
        ensures
            r == exists|i: int| 0 <= i < self.passes@.len() && self.passes@[i],
    {
        let mut i: usize = 0;
        while i < self.passes.len()
            invariant
                0 <= i <= self.passes@.len(),
                forall|k: int| 0 <= k < i ==> !self.passes@[k],
            decreases self.passes@.len() - i,
        {
            if self.passes[i] {
                return true;
            }
            i = i + 1;
        }
        false
    }

    /// Paints every dirty pass: afterwards nothing is paint-dirty.
    pub fn handle_repaint(&mut self)
        ensures
            final(self).passes@.len() == old(self).passes@.len(),
            forall|i: int| 0 <= i < final(self).passes@.len() ==> !final(self).passes@[i],
            *final(self) == (Cx { passes: final(self).passes, ..*old(self) }),
    {
        let mut i: usize = 0;
        while i < self.passes.len()
            invariant
                0 <= i <= self.passes@.len(),
                self.passes@.len() == old(self).passes@.len(),
                forall|k: int| 0 <= k < i ==> !self.passes@[k],
                *self == (Cx { passes: self.passes, ..*old(self) }),
            decreases self.passes@.len() - i,
        {
            self.passes[i] = false;
            i = i + 1;
        }
    }

    /// Stores the application's answer to a clipboard-copy request; refused
    /// when it is too large to encode.
    pub fn set_text_copy_response(&mut self, response: String) -> (r: bool)
        ensures
            r <==> encode_utf8(response@).len() <= MAX_VAR_BYTES,
            r ==> *final(self) == (Cx {
                text_copy_response: Some(response),
                ..*old(self)
            }),
            !r ==> *final(self) == *old(self),
    {
        if response.as_str().as_bytes().len() <= (MAX_VAR_BYTES as usize) {
            self.text_copy_response = Some(response);
            true
        } else {
            false
        }
    }

    /// Enqueues one host-directed operation for the draining phase.
    pub fn push_platform_op(&mut self, op: CxOsOp)
        ensures
            *final(self) == (Cx { platform_ops: final(self).platform_ops, ..*old(self) }),
            final(self).platform_ops@ == old(self).platform_ops@.push(op),
    {
        self.platform_ops.push(op);
    }

    /// Hands a task to the host as a one-shot ownership-transfer token; the
    /// host must invoke it exactly once.
    pub fn spawn_thread(&mut self, closure_handle: u32)
        requires
            old(self).wf(),
            old(self).dispatching(),
        ensures
            final(self).wf(),
            final(self).dispatching(),
            final(self).os.emitted@ == old(self).os.emitted@.push(
                FromWasmModel::CreateThread { closure_ptr: closure_handle },
            ),
            *final(self) == (Cx { os: final(self).os, ..*old(self) }),
            final(self).os.window_geom == old(self).os.window_geom,
    {
        self.os.from_wasm(FromWasm::CreateThread { closure_ptr: closure_handle });
    }

    /// Asks the host to open a socket; returns the handle that will identify
    /// it in later events.
    pub fn web_socket_open(&mut self, url: String, rec: WebSocketAutoReconnect) -> (r: WebSocket)
        requires
            old(self).wf(),
            old(self).dispatching(),
            encode_utf8(url@).len() <= MAX_VAR_BYTES,
            old(self).web_socket_id < u64::MAX,
        ensures
            final(self).wf(),
            final(self).dispatching(),
            r == WebSocket(old(self).web_socket_id),
            final(self).web_socket_id == old(self).web_socket_id + 1,
            final(self).os.emitted@ == old(self).os.emitted@.push(
                FromWasmModel::WebSocketOpen {
                    url: url@,
                    web_socket_id: old(self).web_socket_id,
                    auto_reconnect: rec is Yes,
                },
            ),
            *final(self) == (Cx {
                web_socket_id: final(self).web_socket_id,
                os: final(self).os,
                ..*old(self)
            }),
    {
        let web_socket_id = self.web_socket_id;
        self.web_socket_id = self.web_socket_id + 1;
        let auto_reconnect = match rec {
            WebSocketAutoReconnect::Yes => true,
            WebSocketAutoReconnect::No => false,
        };
        self.os.from_wasm(FromWasm::WebSocketOpen { url, web_socket_id, auto_reconnect });
        WebSocket(web_socket_id)
    }

    /// Sends data over a socket the host holds.
    pub fn web_socket_send(&mut self, websocket: WebSocket, data: Vec<u8>)
        requires
            old(self).wf(),
            old(self).dispatching(),
            data@.len() <= MAX_VAR_BYTES,
        ensures
            final(self).wf(),
            final(self).dispatching(),
            final(self).os.emitted@ == old(self).os.emitted@.push(
                FromWasmModel::WebSocketSend { web_socket_id: websocket.0, data: data@ },
            ),
            *final(self) == (Cx { os: final(self).os, ..*old(self) }),
    {
        self.os.from_wasm(FromWasm::WebSocketSend { web_socket_id: websocket.0, data });
    }
}

/// The application's single event-handling entry point. The dispatch loop
/// delivers exactly one event per call, synchronously; the handler may
/// enqueue operations, mutate core state and emit commands through the public
/// interface, but must leave the cycle's invariants standing and never emits
/// the scheduler's own request-animation-frame command.
pub trait EventHandler {
    fn handle_event(&mut self, cx: &mut Cx, event: &Event)
        requires
            old(cx).wf(),
            old(cx).dispatching(),
        ensures
            final(cx).wf(),
            final(cx).dispatching(),
            old(cx).os.emitted@.is_prefix_of(final(cx).os.emitted@),
            forall|i: int|
                old(cx).os.emitted@.len() <= i < final(cx).os.emitted@.len() ==> !(
                #[trigger] final(cx).os.emitted@[i] is RequestAnimationFrame),
    ;
}

/// A handler that ignores every event; the smallest application.
pub struct NoopEventHandler;

impl EventHandler for NoopEventHandler {
    fn handle_event(&mut self, cx: &mut Cx, event: &Event) {
    }
}


// ---------------------------------------------------------------------------
// Decoding and routing: per-block core effects
// ---------------------------------------------------------------------------

/// Fields of the platform half that no block may change: everything except
/// the envelope under construction and its emitted-command record.
pub open spec fn spec_os_same_but_emitted(pre: CxOs, post: CxOs) -> bool {
    &&& post.window_geom == pre.window_geom
    &&& post.to_wasm_js == pre.to_wasm_js
    &&& post.from_wasm_js == pre.from_wasm_js
}

/// Tap-chain bookkeeping after one pointer-down, mirror of
/// `CxFingers::process_tap_count`.
pub open spec fn spec_tap_updated(f0: CxFingers, f1: CxFingers, x: i32, y: i32, t: u64) -> bool {
    &&& spec_tap_chain(f0, x, y, t) && f0.tap_count < u64::MAX ==> f1.tap_count == f0.tap_count
        + 1
    &&& !spec_tap_chain(f0, x, y, t) ==> f1.tap_count == 1
    &&& f1.last_tap_x == x
    &&& f1.last_tap_y == y
    &&& f1.last_tap_time_us == t
}

/// Window list after the first window's geometry was set to `g`; the title
/// is preserved by view, everything else by value.
pub open spec fn spec_window0_geom_set(
    pre: Seq<CxWindow>,
    post: Seq<CxWindow>,
    g: WindowGeom,
) -> bool {
    &&& post.len() == pre.len()
    &&& forall|i: int| 1 <= i < pre.len() ==> post[i] == pre[i]
    &&& post[0].window_geom == g
    &&& post[0].create_title@ == pre[0].create_title@
    &&& post[0].is_created == pre[0].is_created
    &&& post[0].main_pass_id == pre[0].main_pass_id
}

/// The data field of a dependency entry, as a mathematical value.
pub open spec fn spec_opt_bytes(o: Option<Vec<u8>>) -> Option<Seq<u8>> {
    match o {
        Some(v) => Some(v@),
        None => None,
    }
}

/// The data a dependency registered under `path` holds after the deliveries
/// in `wire` were applied front to back; a later delivery for the same path
/// overwrites an earlier one.
pub open spec fn spec_dep_data_after(
    d0: Option<Seq<u8>>,
    path: Seq<char>,
    wire: Seq<WireDepModel>,
) -> Option<Seq<u8>>
    decreases wire.len(),
{
    if wire.len() == 0 {
        d0
    } else {
        spec_dep_data_after(
            if wire[0].path == path {
                Some(wire[0].data)
            } else {
                d0
            },
            path,
            wire.drop_first(),
        )
    }
}

pub proof fn lemma_dep_data_after_push(
    d0: Option<Seq<u8>>,
    path: Seq<char>,
    ws: Seq<WireDepModel>,
    x: WireDepModel,
)
    ensures
        spec_dep_data_after(d0, path, ws.push(x)) == (if x.path == path {
            Some(x.data)
        } else {
            spec_dep_data_after(d0, path, ws)
        }),
    decreases ws.len(),
{
    if ws.len() == 0 {
        assert(ws.push(x)[0] == x);
        assert(ws.push(x).drop_first() =~~= Seq::<WireDepModel>::empty());
        let d1 = if x.path == path {
            Some(x.data)
        } else {
            d0
        };
        assert(spec_dep_data_after(d1, path, Seq::<WireDepModel>::empty()) == d1);
        assert(spec_dep_data_after(d0, path, ws.push(x)) == d1);
    } else {
        assert(ws.push(x)[0] == ws[0]);
        assert(ws.push(x).drop_first() =~~= ws.drop_first().push(x));
        let d1 = if ws[0].path == path {
            Some(ws[0].data)
        } else {
            d0
        };
        lemma_dep_data_after_push(d1, path, ws.drop_first(), x);
    }
}

/// Dependency entries after one start-up delivery list: paths are kept, and
/// each entry's data is the fold of the deliveries over its path.
pub open spec fn spec_deps_delivered(
    pre: Seq<CxDependency>,
    post: Seq<CxDependency>,
    wire: Seq<WireDepModel>,
) -> bool {
    &&& post.len() == pre.len()
    &&& forall|k: int| 0 <= k < pre.len() ==> #[trigger] post[k].path == pre[k].path
    &&& forall|k: int|
        0 <= k < pre.len() ==> #[trigger] spec_opt_bytes(post[k].data) == spec_dep_data_after(
            spec_opt_bytes(pre[k].data),
            pre[k].path@,
            wire,
        )
}

/// What one decoded block does to the core and which event it routes to the
/// application, arm by arm.
pub open spec fn spec_block_effect(pre: Cx, ev: ToWasm, post: Cx, r: Option<Event>) -> bool {
    match ev {
        ToWasm::GetDeps { cpu_cores } => {
            &&& r is None
            &&& post.os.emitted@ == pre.os.emitted@.push(
                FromWasmModel::LoadDeps { deps: spec_dep_paths(pre.dependencies@) },
            )
            &&& spec_os_same_but_emitted(pre.os, post.os)
            &&& post == (Cx { cpu_cores, os: post.os, ..pre })
        },
        ToWasm::Init { width, height, deps } => {
            let g = WindowGeom {
                inner_width: width,
                inner_height: height,
                dpi_factor_milli: pre.os.window_geom.dpi_factor_milli,
            };
            &&& r == Some(Event::Construct)
            &&& post.os.emitted@ == pre.os.emitted@.push(
                FromWasmModel::StartTimer {
                    timer_id: SIGNAL_TIMER_ID,
                    interval_us: SIGNAL_TIMER_INTERVAL_US,
                    repeats: true,
                },
            )
            &&& post.os.window_geom == g
            &&& post.os.to_wasm_js == pre.os.to_wasm_js
            &&& post.os.from_wasm_js == pre.os.from_wasm_js
            &&& spec_window0_geom_set(pre.windows@, post.windows@, g)
            &&& spec_deps_delivered(pre.dependencies@, post.dependencies@, deps.deep_view())
            &&& post == (Cx {
                windows: post.windows,
                dependencies: post.dependencies,
                os: post.os,
                ..pre
            })
        },
        ToWasm::ResizeWindow { width, height } => {
            let g = WindowGeom {
                inner_width: width,
                inner_height: height,
                dpi_factor_milli: pre.os.window_geom.dpi_factor_milli,
            };
            if g != pre.os.window_geom {
                &&& r == Some(Event::WindowGeomChange { old_geom: pre.os.window_geom, new_geom: g })
                &&& post.os.emitted@ == pre.os.emitted@
                &&& post.os.window_geom == g
                &&& post.os.to_wasm_js == pre.os.to_wasm_js
                &&& post.os.from_wasm_js == pre.os.from_wasm_js
                &&& spec_window0_geom_set(pre.windows@, post.windows@, g)
                &&& post.needs_redraw
                &&& post == (Cx {
                    windows: post.windows,
                    needs_redraw: true,
                    os: post.os,
                    ..pre
                })
            } else {
                &&& r is None
                &&& post == pre
            }
        },
        ToWasm::AnimationFrame { time_us } => {
            if pre.next_frames != 0 {
                &&& r == Some(Event::NextFrame { time_us })
                &&& post == (Cx { next_frames: 0, ..pre })
            } else {
                &&& r is None
                &&& post == pre
            }
        },
        ToWasm::TouchUpdate { time_us, state, x, y, uid } => {
            &&& r == Some(Event::TouchUpdate { time_us, state, x, y, uid })
            &&& (state == 0 ==> spec_tap_updated(pre.fingers, post.fingers, x, y, time_us)
                && post.fingers.buttons_down == pre.fingers.buttons_down)
            &&& (state != 0 ==> post.fingers == pre.fingers)
            &&& post == (Cx { fingers: post.fingers, ..pre })
        },
        ToWasm::MouseDown { x, y, button, time_us } => {
            &&& r == Some(Event::MouseDown { x, y, button, time_us })
            &&& spec_tap_updated(pre.fingers, post.fingers, x, y, time_us)
            &&& (pre.fingers.buttons_down < u64::MAX ==> post.fingers.buttons_down
                == pre.fingers.buttons_down + 1)
            &&& post == (Cx { fingers: post.fingers, ..pre })
        },
        ToWasm::MouseMove { x, y, time_us } => {
            &&& r == Some(Event::MouseMove { x, y, time_us })
            &&& post == pre
        },
        ToWasm::MouseUp { x, y, button, time_us } => {
            &&& r == Some(Event::MouseUp { x, y, button, time_us })
            &&& (pre.fingers.buttons_down > 0 ==> post.fingers.buttons_down
                == pre.fingers.buttons_down - 1)
            &&& (pre.fingers.buttons_down == 0 ==> post.fingers.buttons_down == 0)
            &&& post.fingers.tap_count == pre.fingers.tap_count
            &&& post == (Cx { fingers: post.fingers, ..pre })
        },
        ToWasm::Scroll { x, y, dx, dy, time_us } => {
            &&& r == Some(Event::Scroll { x, y, dx, dy, time_us })
            &&& post == pre
        },
        ToWasm::KeyDown { key_code } => {
            &&& r == Some(Event::KeyDown { key_code })
            &&& (pre.keys_down < u64::MAX ==> post.keys_down == pre.keys_down + 1)
            &&& post == (Cx { keys_down: post.keys_down, ..pre })
        },
        ToWasm::KeyUp { key_code } => {
            &&& r == Some(Event::KeyUp { key_code })
            &&& (pre.keys_down > 0 ==> post.keys_down == pre.keys_down - 1)
            &&& (pre.keys_down == 0 ==> post.keys_down == 0)
            &&& post == (Cx { keys_down: post.keys_down, ..pre })
        },
        ToWasm::TextInput { input } => {
            &&& r == Some(Event::TextInput { input })
            &&& post == pre
        },
        ToWasm::TextCopy => {
            &&& r == Some(Event::TextCopy)
            &&& post == pre
        },
        ToWasm::TimerFired { timer_id } => {
            if timer_id == SIGNAL_TIMER_ID {
                if pre.signal.set {
                    &&& r == Some(Event::Signal)
                    &&& post == (Cx { signal: (SignalFlag { set: false }), ..pre })
                } else {
                    &&& r is None
                    &&& post == pre
                }
            } else {
                &&& r == Some(Event::Timer { timer_id })
                &&& post == pre
            }
        },
        ToWasm::AppGotFocus => {
            &&& r == Some(Event::AppGotFocus)
            &&& post == pre
        },
        ToWasm::AppLostFocus => {
            &&& r == Some(Event::AppLostFocus)
            &&& post == pre
        },
        ToWasm::XrUpdate { time_us } => {
            &&& r == Some(Event::XrUpdate { time_us })
            &&& post == pre
        },
        ToWasm::RedrawAll => {
            &&& r is None
            &&& post == (Cx { needs_redraw: true, ..pre })
        },
        ToWasm::PaintDirty => {
            &&& r is None
            &&& match pre.windows@[0].main_pass_id {
                Some(p) => if p < pre.passes@.len() {
                    post == (Cx { passes: post.passes, ..pre }) && post.passes@
                        == pre.passes@.update(p as int, true)
                } else {
                    post == pre
                },
                None => post == pre,
            }
        },
        ToWasm::WebSocketClose { web_socket_id } => {
            &&& r == Some(Event::WebSocketClose(WebSocket(web_socket_id)))
            &&& post == pre
        },
        ToWasm::WebSocketOpen { web_socket_id } => {
            &&& r == Some(Event::WebSocketOpen(WebSocket(web_socket_id)))
            &&& post == pre
        },
        ToWasm::WebSocketError { web_socket_id, error } => {
            &&& r == Some(
                Event::WebSocketError { web_socket: WebSocket(web_socket_id), error },
            )
            &&& post == pre
        },
        ToWasm::WebSocketMessage { web_socket_id, data } => {
            &&& r == Some(
                Event::WebSocketMessage { web_socket: WebSocket(web_socket_id), data },
            )
            &&& post == pre
        },
    }
}

impl Cx {
    /// Applies one decoded block to the core and returns the event to route
    /// to the application, or `None` when the block is consumed internally.
    /// The reserved timer firing with the signal flag clear is consumed
    /// silently: no event reaches the application.
    pub fn process_block(&mut self, ev: ToWasm) -> (r: Option<Event>)
        requires
            old(self).wf(),
            old(self).dispatching(),
        ensures
            final(self).wf(),
            final(self).dispatching(),
            old(self).os.emitted@.is_prefix_of(final(self).os.emitted@),
            forall|i: int|
                old(self).os.emitted@.len() <= i < final(self).os.emitted@.len() ==> !(
                #[trigger] final(self).os.emitted@[i] is RequestAnimationFrame),
            spec_block_effect(*old(self), ev, *final(self), r),
    {
        match ev {
            ToWasm::GetDeps { cpu_cores } => {
                self.cpu_cores = cpu_cores;
                let mut deps: Vec<String> = Vec::new();
                let mut i: usize = 0;
                while i < self.dependencies.len()
                    invariant
                        0 <= i <= self.dependencies@.len(),
                        *self == (Cx { cpu_cores: self.cpu_cores, ..*old(self) }),
                        self.cpu_cores == cpu_cores,
                        deps.deep_view() =~~= spec_dep_paths(self.dependencies@).take(i as int),
                        old(self).wf(),
                        self.wf(),
                    decreases self.dependencies@.len() - i,
                {
                    let ghost dvb = deps.deep_view();
                    let path = self.dependencies[i].path.clone();
                    deps.push(path);
                    proof {
                        let dp = spec_dep_paths(self.dependencies@);
                        assert(dp[i as int] == self.dependencies@[i as int].path@);
                        assert(deps.deep_view() =~~= dvb.push(path@));
                        assert(dvb.push(dp[i as int]) =~~= dp.take(i as int + 1));
                    }
                    i = i + 1;
                }
                proof {
                    assert(deps.deep_view() =~~= spec_dep_paths(self.dependencies@));
                    assert(forall|k: int|
                        0 <= k < deps.deep_view().len() ==> #[trigger] encode_utf8(
                            deps.deep_view()[k],
                        ).len() <= MAX_PATH_BYTES) by {
                        assert(forall|k: int|
                            0 <= k < self.dependencies@.len() ==> #[trigger] encode_utf8(
                                self.dependencies@[k].path@,
                            ).len() <= MAX_PATH_BYTES);
                    };
                }
                self.os.from_wasm(FromWasm::LoadDeps { deps });
                None
            },
            ToWasm::Init { width, height, deps } => {
                let ghost wire = deps.deep_view();
                let mut j: usize = 0;
                while j < deps.len()
                    invariant
                        0 <= j <= deps@.len(),
                        wire == deps.deep_view(),
                        wire.len() == deps@.len(),
                        old(self).wf(),
                        self.wf(),
                        self.dispatching(),
                        *self == (Cx { dependencies: self.dependencies, ..*old(self) }),
                        self.dependencies@.len() == old(self).dependencies@.len(),
                        forall|k: int|
                            0 <= k < self.dependencies@.len()
                                ==> #[trigger] self.dependencies@[k].path == old(
                                self,
                            ).dependencies@[k].path,
                        forall|k: int|
                            0 <= k < self.dependencies@.len() ==> #[trigger] spec_opt_bytes(
                                self.dependencies@[k].data,
                            ) == spec_dep_data_after(
                                spec_opt_bytes(old(self).dependencies@[k].data),
                                old(self).dependencies@[k].path@,
                                wire.take(j as int),
                            ),
                    decreases deps@.len() - j,
                {
                    let ghost before = self.dependencies@;
                    let data_copy = vstd::slice::slice_to_vec(deps[j].data.as_slice());
                    let _ = self.set_dependency_data(&deps[j].path, data_copy);
                    proof {
                        assert(wire[j as int] == deps@[j as int].deep_view());
                        assert(wire.take(j as int).push(wire[j as int]) =~~= wire.take(
                            j as int + 1,
                        ));
                        assert forall|k: int| 0 <= k < self.dependencies@.len() implies
                            #[trigger] spec_opt_bytes(self.dependencies@[k].data)
                            == spec_dep_data_after(
                            spec_opt_bytes(old(self).dependencies@[k].data),
                            old(self).dependencies@[k].path@,
                            wire.take(j as int + 1),
                        ) by {
                            lemma_dep_data_after_push(
                                spec_opt_bytes(old(self).dependencies@[k].data),
                                old(self).dependencies@[k].path@,
                                wire.take(j as int),
                                wire[j as int],
                            );
                            assert(before[k].path@ == old(self).dependencies@[k].path@);
                        };
                    }
                    j = j + 1;
                }
                proof {
                    assert(wire.take(wire.len() as int) =~~= wire);
                }
                let g = WindowGeom {
                    inner_width: width,
                    inner_height: height,
                    dpi_factor_milli: self.os.window_geom.dpi_factor_milli,
                };
                self.os.window_geom = g;
                self.set_window0_geom(g);
                self.os.from_wasm(
                    FromWasm::StartTimer {
                        timer_id: SIGNAL_TIMER_ID,
                        interval_us: SIGNAL_TIMER_INTERVAL_US,
                        repeats: true,
                    },
                );
                Some(Event::Construct)
            },
            ToWasm::ResizeWindow { width, height } => {
                let old_geom = self.os.window_geom;
                let g = WindowGeom {
                    inner_width: width,
                    inner_height: height,
                    dpi_factor_milli: old_geom.dpi_factor_milli,
                };
                if g != old_geom {
                    self.os.window_geom = g;
                    self.set_window0_geom(g);
                    self.needs_redraw = true;
                    Some(Event::WindowGeomChange { old_geom, new_geom: g })
                } else {
                    None
                }
            },
            ToWasm::AnimationFrame { time_us } => {
                if self.next_frames != 0 {
                    self.next_frames = 0;
                    Some(Event::NextFrame { time_us })
                } else {
                    None
                }
            },
            ToWasm::TouchUpdate { time_us, state, x, y, uid } => {
                if state == 0 {
                    self.fingers.process_tap_count(x, y, time_us);
                }
                Some(Event::TouchUpdate { time_us, state, x, y, uid })
            },
            ToWasm::MouseDown { x, y, button, time_us } => {
                self.fingers.process_tap_count(x, y, time_us);
                self.fingers.mouse_down();
                Some(Event::MouseDown { x, y, button, time_us })
            },
            ToWasm::MouseMove { x, y, time_us } => Some(Event::MouseMove { x, y, time_us }),
            ToWasm::MouseUp { x, y, button, time_us } => {
                self.fingers.mouse_up();
                Some(Event::MouseUp { x, y, button, time_us })
            },
            ToWasm::Scroll { x, y, dx, dy, time_us } => Some(
                Event::Scroll { x, y, dx, dy, time_us },
            ),
            ToWasm::KeyDown { key_code } => {
                if self.keys_down < u64::MAX {
                    self.keys_down = self.keys_down + 1;
                }
                Some(Event::KeyDown { key_code })
            },
            ToWasm::KeyUp { key_code } => {
                if self.keys_down > 0 {
                    self.keys_down = self.keys_down - 1;
                }
                Some(Event::KeyUp { key_code })
            },
            ToWasm::TextInput { input } => Some(Event::TextInput { input }),
            ToWasm::TextCopy => Some(Event::TextCopy),
            ToWasm::TimerFired { timer_id } => {
                if timer_id == SIGNAL_TIMER_ID {
                    if self.signal.check_and_clear_ui_signal() {
                        Some(Event::Signal)
                    } else {
                        None
                    }
                } else {
                    Some(Event::Timer { timer_id })
                }
            },
            ToWasm::AppGotFocus => Some(Event::AppGotFocus),
            ToWasm::AppLostFocus => Some(Event::AppLostFocus),
            ToWasm::XrUpdate { time_us } => Some(Event::XrUpdate { time_us }),
            ToWasm::RedrawAll => {
                self.needs_redraw = true;
                None
            },
            ToWasm::PaintDirty => {
                let mp = self.windows[0].main_pass_id;
                match mp {
                    Some(p) => {
                        if p < self.passes.len() {
                            self.passes[p] = true;
                        }
                    },
                    None => {},
                }
                None
            },
            ToWasm::WebSocketClose { web_socket_id } => Some(
                Event::WebSocketClose(WebSocket(web_socket_id)),
            ),
            ToWasm::WebSocketOpen { web_socket_id } => Some(
                Event::WebSocketOpen(WebSocket(web_socket_id)),
            ),
            ToWasm::WebSocketError { web_socket_id, error } => Some(
                Event::WebSocketError { web_socket: WebSocket(web_socket_id), error },
            ),
            ToWasm::WebSocketMessage { web_socket_id, data } => Some(
                Event::WebSocketMessage { web_socket: WebSocket(web_socket_id), data },
            ),
        }
    }

    /// Sets the first window's geometry, keeping its other fields.
    fn set_window0_geom(&mut self, g: WindowGeom)
        requires
            old(self).wf(),
        ensures
            final(self).wf(),
            spec_window0_geom_set(old(self).windows@, final(self).windows@, g),
            *final(self) == (Cx { windows: final(self).windows, ..*old(self) }),
    {
        let create_title = self.windows[0].create_title.clone();
        let is_created = self.windows[0].is_created;
        let main_pass_id = self.windows[0].main_pass_id;
        self.windows[0] = CxWindow { window_geom: g, create_title, is_created, main_pass_id };
    }
}


// ---------------------------------------------------------------------------
// Draining: the outgoing command queue
// ---------------------------------------------------------------------------

/// Draining one more operation appends its command, if it has one.
pub proof fn lemma_ops_cmds_push(windows: Seq<CxWindow>, ops: Seq<CxOsOp>, op: CxOsOp)
    ensures
        spec_ops_cmds(windows, ops.push(op)) == spec_ops_cmds(windows, ops) + (
        match spec_op_cmd(windows, op) {
            Some(c) => seq![c],
            None => Seq::<FromWasmModel>::empty(),
        }),
    decreases ops.len(),
{
    let tail = (match spec_op_cmd(windows, op) {
        Some(c) => seq![c],
        None => Seq::<FromWasmModel>::empty(),
    });
    if ops.len() == 0 {
        assert(ops.push(op)[0] == op);
        assert(ops.push(op).drop_first() =~= Seq::<CxOsOp>::empty());
        assert(spec_ops_cmds(windows, ops.push(op).drop_first())
            == Seq::<FromWasmModel>::empty());
        assert(spec_ops_cmds(windows, ops.push(op)) =~~= spec_ops_cmds(windows, ops) + tail);
    } else {
        assert(ops.push(op)[0] == ops[0]);
        assert(ops.push(op).drop_first() =~= ops.drop_first().push(op));
        lemma_ops_cmds_push(windows, ops.drop_first(), op);
        assert(spec_ops_cmds(windows, ops.push(op)) =~~= spec_ops_cmds(windows, ops) + tail);
    }
}

/// No drained operation ever emits the scheduler's request-animation-frame
/// command.
pub proof fn lemma_ops_cmds_no_raf(windows: Seq<CxWindow>, ops: Seq<CxOsOp>)
    ensures
        forall|i: int|
            0 <= i < spec_ops_cmds(windows, ops).len() ==> !(#[trigger] spec_ops_cmds(
                windows,
                ops,
            )[i] is RequestAnimationFrame),
    decreases ops.len(),
{
    if ops.len() > 0 {
        lemma_ops_cmds_no_raf(windows, ops.drop_first());
    }
}

impl Cx {
    /// Drains the operation queue, front to back, into the outbound envelope:
    /// the emitted commands extend by exactly the queue's commands, in
    /// enqueue order.
    fn handle_platform_ops(&mut self)
        requires
            old(self).wf(),
            old(self).dispatching(),
        ensures
            final(self).wf(),
            final(self).dispatching(),
            final(self).platform_ops@.len() == 0,
            final(self).os.emitted@ == old(self).os.emitted@ + spec_ops_cmds(
                old(self).windows@,
                old(self).platform_ops@,
            ),
            spec_os_same_but_emitted(old(self).os, final(self).os),
            final(self).windows@.len() == old(self).windows@.len(),
            forall|i: int|
                0 <= i < final(self).windows@.len()
                    ==> #[trigger] final(self).windows@[i].create_title@ == old(
                    self,
                ).windows@[i].create_title@,
            *final(self) == (Cx {
                windows: final(self).windows,
                platform_ops: final(self).platform_ops,
                os: final(self).os,
                ..*old(self)
            }),
    {
        let ghost windows0 = old(self).windows@;
        let ghost ops0 = old(self).platform_ops@;
        let mut i: usize = 0;
        while i < self.platform_ops.len()
            invariant
                0 <= i <= ops0.len(),
                self.platform_ops@ == ops0,
                windows0 == old(self).windows@,
                self.wf(),
                self.dispatching(),
                self.os.emitted@ == old(self).os.emitted@ + spec_ops_cmds(
                    windows0,
                    ops0.take(i as int),
                ),
                spec_os_same_but_emitted(old(self).os, self.os),
                self.windows@.len() == windows0.len(),
                forall|k: int|
                    0 <= k < self.windows@.len() ==> #[trigger] self.windows@[k].create_title@
                        == windows0[k].create_title@,
                *self == (Cx {
                    windows: self.windows,
                    platform_ops: self.platform_ops,
                    os: self.os,
                    ..*old(self)
                }),
            decreases ops0.len() - i,
        {
            let op = self.platform_ops[i];
            proof {
                assert(ops0.take(i as int).push(op) =~= ops0.take(i as int + 1));
                lemma_ops_cmds_push(windows0, ops0.take(i as int), op);
            }
            match op {
                CxOsOp::CreateWindow(window_id) => {
                    if window_id < self.windows.len() {
                        let title = self.windows[window_id].create_title.clone();
                        self.os.from_wasm(FromWasm::SetDocumentTitle { title });
                        let create_title = self.windows[window_id].create_title.clone();
                        let main_pass_id = self.windows[window_id].main_pass_id;
                        let geom = self.os.window_geom;
                        self.windows[window_id] = CxWindow {
                            window_geom: geom,
                            create_title,
                            is_created: true,
                            main_pass_id,
                        };
                    }
                },
                CxOsOp::CloseWindow(_) => {},
                CxOsOp::MinimizeWindow(_) => {},
                CxOsOp::MaximizeWindow(_) => {},
                CxOsOp::RestoreWindow(_) => {},
                CxOsOp::FullscreenWindow(_) => {
                    self.os.from_wasm(FromWasm::FullScreen);
                },
                CxOsOp::NormalizeWindow(_) => {
                    self.os.from_wasm(FromWasm::NormalScreen);
                },
                CxOsOp::XrStartPresenting => {
                    self.os.from_wasm(FromWasm::XrStartPresenting);
                },
                CxOsOp::XrStopPresenting => {
                    self.os.from_wasm(FromWasm::XrStopPresenting);
                },
                CxOsOp::ShowTextIme { x, y } => {
                    self.os.from_wasm(FromWasm::ShowTextIme { x, y });
                },
                CxOsOp::HideTextIme => {
                    self.os.from_wasm(FromWasm::HideTextIme);
                },
                CxOsOp::SetCursor(cursor) => {
                    self.os.from_wasm(FromWasm::SetMouseCursor { cursor });
                },
                CxOsOp::StartTimer { timer_id, interval_us, repeats } => {
                    self.os.from_wasm(FromWasm::StartTimer { timer_id, interval_us, repeats });
                },
                CxOsOp::StopTimer(timer_id) => {
                    self.os.from_wasm(FromWasm::StopTimer { timer_id });
                },
            }
            proof {
                assert(self.os.emitted@ =~~= old(self).os.emitted@ + spec_ops_cmds(
                    windows0,
                    ops0.take(i as int + 1),
                ));
            }
            i = i + 1;
        }
        proof {
            assert(ops0.take(ops0.len() as int) =~= ops0);
        }
        self.platform_ops.clear();
    }
}


// ---------------------------------------------------------------------------
// The dispatch cycle
// ---------------------------------------------------------------------------

/// One frame passes decode: either its id is unknown (skipped without
/// parsing), or its payload parses as the event the id names.
pub open spec fn spec_frame_ok(f: (u64, Seq<u8>)) -> bool {
    spec_is_to_wasm_id(f.0) ==> spec_parse_to_wasm(f.0, f.1) is Some
}

pub open spec fn spec_frames_ok(fs: Seq<(u64, Seq<u8>)>) -> bool {
    forall|i: int| 0 <= i < fs.len() ==> #[trigger] spec_frame_ok(fs[i])
}

/// The inputs on which a dispatch cycle completes: the envelope frames and
/// every recognised frame decodes. On all others the cycle aborts with
/// `Truncated`.
pub open spec fn spec_cycle_accepts(b: Seq<u8>) -> bool {
    match spec_parse_frames(b) {
        Some(fs) => spec_frames_ok(fs),
        None => false,
    }
}

impl CxOs {
    /// Abandons the cycle's outbound envelope after a fatal framing error.
    fn abort_cycle(&mut self)
        ensures
            final(self).wf(),
            !final(self).dispatching(),
            final(self).window_geom == old(self).window_geom,
            final(self).to_wasm_js == old(self).to_wasm_js,
            final(self).from_wasm_js == old(self).from_wasm_js,
    {
        self.from_wasm_msg = None;
    }
}

impl Cx {
    /// One dispatch cycle; the single entry point from the host. Takes
    /// ownership of the inbound envelope and hands back the outbound one.
    ///
    /// Returns `Err(Truncated)` exactly when the inbound envelope is not
    /// acceptable: its framing is cut short, or a recognised block's payload
    /// does not decode. Otherwise the outbound envelope serialises every
    /// command emitted this cycle, in order, and ends with a single
    /// request-animation-frame command exactly when dirty, redraw or
    /// next-frame state is left pending.
    #[verifier::rlimit(100)]
    pub fn process_to_wasm<H: EventHandler>(
        &mut self,
        handler: &mut H,
        inbound: Vec<u8>,
    ) -> (r: Result<Vec<u8>, ProtocolError>)
        requires
            old(self).wf(),
            !old(self).dispatching(),
        ensures
            final(self).wf(),
            !final(self).dispatching(),
            r is Err ==> r == Err::<Vec<u8>, ProtocolError>(ProtocolError::Truncated),
            r is Ok <==> spec_cycle_accepts(inbound@),
            r matches Ok(out) ==> {
                let es = final(self).os.emitted@;
                &&& out@ == spec_envelope_bytes(spec_cmd_blocks(es))
                &&& (final(self).scheduler_pending() ==> es.len() > 0 && es.last() is RequestAnimationFrame)
                &&& forall|i: int|
                    0 <= i < es.len() && (#[trigger] es[i]) is RequestAnimationFrame ==> i
                        == es.len() - 1 && final(self).scheduler_pending()
            },
    {
        self.os.begin_cycle();
        let mut rd = EnvelopeReader::new(inbound);
        let mut is_animation_frame = false;
        let ghost inbound_view = rd.data();
        proof {
            assert(rd.remaining() =~= inbound_view);
        }
        loop
            invariant
                self.wf(),
                self.dispatching(),
                rd.wf(),
                rd.data() == inbound_view,
                inbound_view == inbound@,
                spec_cycle_accepts(inbound@) <==> spec_cycle_accepts(rd.remaining()),
                forall|i: int|
                    0 <= i < self.os.emitted@.len() ==> !(#[trigger] self.os.emitted@[i]
                        is RequestAnimationFrame),
            ensures
                self.wf(),
                self.dispatching(),
                spec_cycle_accepts(inbound@),
                forall|i: int|
                    0 <= i < self.os.emitted@.len() ==> !(#[trigger] self.os.emitted@[i]
                        is RequestAnimationFrame),
            decreases rd.data().len() - rd.pos(),
        {
            let ghost e_start = self.os.emitted@;
            let ghost pos_before = rd.pos();
            let ghost b = rd.data().skip(pos_before);
            proof {
                rd.lemma_wf_bounds();
                crate::envelope::lemma_parse_step(rd.data(), pos_before);
            }
            let id = match rd.peek_id() {
                Ok(v) => v,
                Err(_) => {
                    proof {
                        assert(spec_parse_frames(b) is None);
                    }
                    self.os.abort_cycle();
                    return Err(ProtocolError::Truncated);
                },
            };
            if id == SENTINEL_ID {
                proof {
                    assert(spec_parse_frames(b) == Some(Seq::<(u64, Seq<u8>)>::empty()));
                    assert(spec_cycle_accepts(b));
                }
                break;
            }
            let _ = match rd.read_u64() {
                Ok(v) => v,
                Err(_) => {
                    proof {
                        assert(false);
                    }
                    self.os.abort_cycle();
                    return Err(ProtocolError::Truncated);
                },
            };
            let resume = match rd.read_block_skip() {
                Ok(v) => v,
                Err(_) => {
                    proof {
                        assert(spec_parse_frames(b) is None);
                    }
                    self.os.abort_cycle();
                    return Err(ProtocolError::Truncated);
                },
            };
            proof {
                rd.lemma_len_bound();
                assert(rd.pos() == pos_before + 12);
                assert(crate::codec::spec_take_u32(b, 8) is Some);
                assert(resume == pos_before + 12 + crate::codec::spec_take_u32(b, 8)->Some_0.0);
                assert(pos_before + 12 <= resume <= rd.data().len());
            }
            let payload = rd.read_payload(resume);
            let ghost skip = resume - pos_before - 12;
            proof {
                assert(rd.remaining() =~= b.skip(12 + skip));
                assert(payload@ =~= b.subrange(12, 12 + skip));
            }
            let recognised = is_to_wasm_id(id);
            let ghost frame_passed = !spec_is_to_wasm_id(id) || spec_parse_to_wasm(
                id,
                payload@,
            ) is Some;
            if recognised {
                let (ev, used) = match decode_to_wasm(id, &payload) {
                    Ok(v) => v,
                    Err(_) => {
                        proof {
                            lemma_cycle_accepts_step(b, id, payload@, skip);
                            assert(!spec_cycle_accepts(b));
                        }
                        self.os.abort_cycle();
                        return Err(ProtocolError::Truncated);
                    },
                };
                if used != payload.len() {
                    if self.length_mismatches < u64::MAX {
                        self.length_mismatches = self.length_mismatches + 1;
                    }
                }
                if matches!(ev, ToWasm::AnimationFrame { .. }) {
                    is_animation_frame = true;
                }
                let routed = self.process_block(ev);
                proof {
                    lemma_no_raf_extend(e_start, self.os.emitted@);
                }
                match routed {
                    Some(event) => {
                        let is_text_copy = matches!(event, Event::TextCopy);
                        let ghost e1 = self.os.emitted@;
                        handler.handle_event(self, &event);
                        proof {
                            lemma_no_raf_extend(e1, self.os.emitted@);
                        }
                        if is_text_copy {
                            let resp = self.text_copy_response.take();
                            match resp {
                                Some(response) => {
                                    let ghost e2 = self.os.emitted@;
                                    self.os.from_wasm(FromWasm::TextCopyResponse { response });
                                    proof {
                                        assert(e2.is_prefix_of(self.os.emitted@)) by {
                                            assert(self.os.emitted@.subrange(
                                                0,
                                                e2.len() as int,
                                            ) =~~= e2);
                                        };
                                        lemma_no_raf_extend(e2, self.os.emitted@);
                                    }
                                },
                                None => {},
                            }
                        }
                    },
                    None => {},
                }
            } else {
                let event = Event::ToWasmMsg { id, payload };
                handler.handle_event(self, &event);
                proof {
                    lemma_no_raf_extend(e_start, self.os.emitted@);
                }
            }
            proof {
                lemma_cycle_accepts_step(b, id, payload@, skip);
            }
        }
        if is_animation_frame {
            if self.need_redrawing() {
                self.needs_redraw = false;
                let ghost e1 = self.os.emitted@;
                handler.handle_event(self, &Event::Draw);
                proof {
                    lemma_no_raf_extend(e1, self.os.emitted@);
                }
            }
            self.handle_repaint();
        }
        let ghost e_scan = self.os.emitted@;
        let ghost w_pre = self.windows@;
        let ghost ops_pre = self.platform_ops@;
        proof {
            lemma_ops_cmds_no_raf(w_pre, ops_pre);
        }
        self.handle_platform_ops();
        proof {
            lemma_no_raf_concat(e_scan, spec_ops_cmds(w_pre, ops_pre));
        }
        let ghost e_drained = self.os.emitted@;
        let mut pending = self.any_passes_dirty();
        if !pending {
            pending = self.need_redrawing();
        }
        if !pending {
            pending = self.next_frames != 0;
        }
        let ghost passes_at_schedule = self.passes@;
        let ghost redraw_at_schedule = self.needs_redraw;
        let ghost frames_at_schedule = self.next_frames;
        proof {
            assert(pending == self.scheduler_pending());
        }
        if pending {
            self.os.from_wasm(FromWasm::RequestAnimationFrame);
            proof {
                let es = self.os.emitted@;
                assert(es == e_drained.push(FromWasmModel::RequestAnimationFrame));
                assert(es.last() is RequestAnimationFrame);
                assert forall|i: int|
                    0 <= i < es.len() && (#[trigger] es[i]) is RequestAnimationFrame implies i
                    == es.len() - 1 by {
                    if i < es.len() - 1 {
                        assert(es[i] == e_drained[i]);
                    }
                };
            }
        }
        let out = self.os.end_cycle();
        proof {
            assert(self.passes@ == passes_at_schedule);
            assert(self.needs_redraw == redraw_at_schedule);
            assert(self.next_frames == frames_at_schedule);
            assert(self.scheduler_pending() == pending);
        }
        Ok(out)
    }
}

/// No request-animation-frame command stands in a record that an extension
/// without one extends.
pub proof fn lemma_no_raf_extend(e0: Seq<FromWasmModel>, e1: Seq<FromWasmModel>)
    requires
        e0.is_prefix_of(e1),
        forall|i: int| 0 <= i < e0.len() ==> !(#[trigger] e0[i] is RequestAnimationFrame),
        forall|i: int|
            e0.len() <= i < e1.len() ==> !(#[trigger] e1[i] is RequestAnimationFrame),
    ensures
        forall|i: int| 0 <= i < e1.len() ==> !(#[trigger] e1[i] is RequestAnimationFrame),
{
    assert(e1.subrange(0, e0.len() as int) == e0);
    assert forall|i: int| 0 <= i < e1.len() implies !(#[trigger] e1[i]
        is RequestAnimationFrame) by {
        if i < e0.len() {
            assert(e1[i] == e1.subrange(0, e0.len() as int)[i]);
        }
    };
}

/// Concatenating two records without the command keeps it absent.
pub proof fn lemma_no_raf_concat(e0: Seq<FromWasmModel>, cs: Seq<FromWasmModel>)
    requires
        forall|i: int| 0 <= i < e0.len() ==> !(#[trigger] e0[i] is RequestAnimationFrame),
        forall|i: int| 0 <= i < cs.len() ==> !(#[trigger] cs[i] is RequestAnimationFrame),
    ensures
        forall|i: int|
            0 <= i < (e0 + cs).len() ==> !(#[trigger] (e0 + cs)[i] is RequestAnimationFrame),
{
    assert forall|i: int| 0 <= i < (e0 + cs).len() implies !(#[trigger] (e0 + cs)[i]
        is RequestAnimationFrame) by {
        if i < e0.len() {
            assert((e0 + cs)[i] == e0[i]);
        } else {
            assert((e0 + cs)[i] == cs[i - e0.len()]);
        }
    };
}

/// Relates acceptance of an envelope suffix to acceptance of the suffix one
/// block later, once that block's header has been read successfully.
pub proof fn lemma_cycle_accepts_step(b: Seq<u8>, id: u64, payload: Seq<u8>, skip: int)
    requires
        crate::codec::spec_take_u64(b, 0) matches Some((id2, _)) && id2 == id,
        id != SENTINEL_ID,
        crate::codec::spec_take_u32(b, 8) matches Some((skip2, _)) && skip2 == skip,
        12 + skip <= b.len(),
        payload == b.subrange(12, 12 + skip),
    ensures
        spec_cycle_accepts(b) <==> (spec_frame_ok((id, payload)) && spec_cycle_accepts(
            b.skip(12 + skip),
        )),
{
    let bp = b.skip(12 + skip);
    match spec_parse_frames(bp) {
        None => {
            assert(spec_parse_frames(b) is None);
        },
        Some(rest) => {
            let fs = seq![(id, payload)] + rest;
            assert(spec_parse_frames(b) == Some(fs));
            assert(fs[0] == (id, payload));
            if spec_frames_ok(fs) {
                assert(spec_frame_ok(fs[0]));
                assert forall|i: int| 0 <= i < rest.len() implies #[trigger] spec_frame_ok(
                    rest[i],
                ) by {
                    assert(fs[i + 1] == rest[i]);
                    assert(spec_frame_ok(fs[i + 1]));
                };
            }
            if spec_frame_ok((id, payload)) && spec_frames_ok(rest) {
                assert forall|i: int| 0 <= i < fs.len() implies #[trigger] spec_frame_ok(
                    fs[i],
                ) by {
                    if i == 0 {
                        assert(fs[0] == (id, payload));
                    } else {
                        assert(fs[i] == rest[i - 1]);
                        assert(spec_frame_ok(rest[i - 1]));
                    }
                };
            }
        },
    }
}


// ---------------------------------------------------------------------------
// Registry handshake: advisory schema strings
// ---------------------------------------------------------------------------

/// Concatenation of a list of strings, front to back.
pub open spec fn spec_concat_strs(ss: Seq<Seq<char>>) -> Seq<char>
    decreases ss.len(),
{
    if ss.len() == 0 {
        Seq::empty()
    } else {
        ss[0] + spec_concat_strs(ss.drop_first())
    }
}

pub proof fn lemma_concat_strs_push(ss: Seq<Seq<char>>, s: Seq<char>)
    ensures
        spec_concat_strs(ss.push(s)) == spec_concat_strs(ss) + s,
    decreases ss.len(),
{
    if ss.len() == 0 {
        assert(ss.push(s)[0] == s);
        assert(ss.push(s).drop_first() =~~= Seq::<Seq<char>>::empty());
        assert(spec_concat_strs(ss.push(s).drop_first()) == Seq::<char>::empty());
        assert(s + Seq::<char>::empty() =~= s);
        assert(spec_concat_strs(ss) + s =~= s);
    } else {
        assert(ss.push(s)[0] == ss[0]);
        assert(ss.push(s).drop_first() =~~= ss.drop_first().push(s));
        lemma_concat_strs_push(ss.drop_first(), s);
        assert(ss[0] + (spec_concat_strs(ss.drop_first()) + s) =~= (ss[0] + spec_concat_strs(
            ss.drop_first(),
        )) + s);
    }
}

/// The schema names published for the inbound direction.
pub open spec fn spec_to_wasm_schema() -> Seq<Seq<char>> {
    seq![
        "ToWasmGetDeps"@,
        "ToWasmInit"@,
        "ToWasmResizeWindow"@,
        "ToWasmAnimationFrame"@,
        "ToWasmTouchUpdate"@,
        "ToWasmMouseDown"@,
        "ToWasmMouseMove"@,
        "ToWasmMouseUp"@,
        "ToWasmScroll"@,
        "ToWasmKeyDown"@,
        "ToWasmKeyUp"@,
        "ToWasmTextInput"@,
        "ToWasmTextCopy"@,
        "ToWasmTimerFired"@,
        "ToWasmPaintDirty"@,
        "ToWasmRedrawAll"@,
        "ToWasmXRUpdate"@,
        "ToWasmAppGotFocus"@,
        "ToWasmAppLostFocus"@,
        "ToWasmWebSocketOpen"@,
        "ToWasmWebSocketClose"@,
        "ToWasmWebSocketError"@,
        "ToWasmWebSocketMessage"@,
    ]
}

/// The schema names published for the outbound direction.
pub open spec fn spec_from_wasm_schema() -> Seq<Seq<char>> {
    seq![
        "FromWasmLoadDeps"@,
        "FromWasmStartTimer"@,
        "FromWasmStopTimer"@,
        "FromWasmFullScreen"@,
        "FromWasmNormalScreen"@,
        "FromWasmRequestAnimationFrame"@,
        "FromWasmSetDocumentTitle"@,
        "FromWasmSetMouseCursor"@,
        "FromWasmTextCopyResponse"@,
        "FromWasmShowTextIME"@,
        "FromWasmHideTextIME"@,
        "FromWasmCreateThread"@,
        "FromWasmWebSocketOpen"@,
        "FromWasmWebSocketSend"@,
        "FromWasmXrStartPresenting"@,
        "FromWasmXrStopPresenting"@,
    ]
}

impl Cx {
    /// Startup: publishes one human-readable schema string per registered
    /// block kind, for each direction, so the two independently built sides
    /// can be validated or introspected. Advisory, never enforced at
    /// runtime.
    pub fn init(&mut self)
        requires
            old(self).wf(),
        ensures
            final(self).wf(),
            final(self).dispatching() == old(self).dispatching(),
            final(self).os.to_wasm_js.deep_view() == old(self).os.to_wasm_js.deep_view()
                + spec_to_wasm_schema(),
            final(self).os.from_wasm_js.deep_view() == old(self).os.from_wasm_js.deep_view()
                + spec_from_wasm_schema(),
            final(self).os.window_geom == old(self).os.window_geom,
            final(self).os.emitted == old(self).os.emitted,
            final(self).os.from_wasm_msg == old(self).os.from_wasm_msg,
            *final(self) == (Cx { os: final(self).os, ..*old(self) }),
    {
        let mut to_js: Vec<String> = Vec::new();
        to_js.push(String::from_str("ToWasmGetDeps"));
        to_js.push(String::from_str("ToWasmInit"));
        to_js.push(String::from_str("ToWasmResizeWindow"));
        to_js.push(String::from_str("ToWasmAnimationFrame"));
        to_js.push(String::from_str("ToWasmTouchUpdate"));
        to_js.push(String::from_str("ToWasmMouseDown"));
        to_js.push(String::from_str("ToWasmMouseMove"));
        to_js.push(String::from_str("ToWasmMouseUp"));
        to_js.push(String::from_str("ToWasmScroll"));
        to_js.push(String::from_str("ToWasmKeyDown"));
        to_js.push(String::from_str("ToWasmKeyUp"));
        to_js.push(String::from_str("ToWasmTextInput"));
        to_js.push(String::from_str("ToWasmTextCopy"));
        to_js.push(String::from_str("ToWasmTimerFired"));
        to_js.push(String::from_str("ToWasmPaintDirty"));
        to_js.push(String::from_str("ToWasmRedrawAll"));
        to_js.push(String::from_str("ToWasmXRUpdate"));
        to_js.push(String::from_str("ToWasmAppGotFocus"));
        to_js.push(String::from_str("ToWasmAppLostFocus"));
        to_js.push(String::from_str("ToWasmWebSocketOpen"));
        to_js.push(String::from_str("ToWasmWebSocketClose"));
        to_js.push(String::from_str("ToWasmWebSocketError"));
        to_js.push(String::from_str("ToWasmWebSocketMessage"));
        proof {
            assert(to_js.deep_view() =~~= spec_to_wasm_schema());
        }
        let ghost old_to = self.os.to_wasm_js.deep_view();
        let ghost old_vec = self.os.to_wasm_js@;
        self.os.append_to_wasm_js(to_js.as_slice());
        proof {
            let dv = self.os.to_wasm_js.deep_view();
            assert forall|k: int| 0 <= k < dv.len() implies dv[k] == (old_to
                + spec_to_wasm_schema())[k] by {
                if k < old_to.len() {
                    assert(self.os.to_wasm_js@[k] == old_vec[k]);
                } else {
                    let i = k - old_to.len();
                    assert(self.os.to_wasm_js@[old_vec.len() + i]@ == to_js@[i]@);
                }
            };
            assert(dv =~~= old_to + spec_to_wasm_schema());
        }
        let mut from_js: Vec<String> = Vec::new();
        from_js.push(String::from_str("FromWasmLoadDeps"));
        from_js.push(String::from_str("FromWasmStartTimer"));
        from_js.push(String::from_str("FromWasmStopTimer"));
        from_js.push(String::from_str("FromWasmFullScreen"));
        from_js.push(String::from_str("FromWasmNormalScreen"));
        from_js.push(String::from_str("FromWasmRequestAnimationFrame"));
        from_js.push(String::from_str("FromWasmSetDocumentTitle"));
        from_js.push(String::from_str("FromWasmSetMouseCursor"));
        from_js.push(String::from_str("FromWasmTextCopyResponse"));
        from_js.push(String::from_str("FromWasmShowTextIME"));
        from_js.push(String::from_str("FromWasmHideTextIME"));
        from_js.push(String::from_str("FromWasmCreateThread"));
        from_js.push(String::from_str("FromWasmWebSocketOpen"));
        from_js.push(String::from_str("FromWasmWebSocketSend"));
        from_js.push(String::from_str("FromWasmXrStartPresenting"));
        from_js.push(String::from_str("FromWasmXrStopPresenting"));
        proof {
            assert(from_js.deep_view() =~~= spec_from_wasm_schema());
        }
        let ghost old_from = self.os.from_wasm_js.deep_view();
        let ghost old_fvec = self.os.from_wasm_js@;
        self.os.append_from_wasm_js(from_js.as_slice());
        proof {
            let dv = self.os.from_wasm_js.deep_view();
            assert forall|k: int| 0 <= k < dv.len() implies dv[k] == (old_from
                + spec_from_wasm_schema())[k] by {
                if k < old_from.len() {
                    assert(self.os.from_wasm_js@[k] == old_fvec[k]);
                } else {
                    let i = k - old_from.len();
                    assert(self.os.from_wasm_js@[old_fvec.len() + i]@ == from_js@[i]@);
                }
            };
            assert(dv =~~= old_from + spec_from_wasm_schema());
        }
    }

    /// The event loop is driven by the host: each invocation arrives through
    /// `process_to_wasm`, so there is nothing to run here.
    pub fn event_loop<H: EventHandler>(&mut self, _event_handler: &mut H) {
    }
}

impl CxOs {
    /// Renders the published schema strings as one introspection document for
    /// the host's side of the bridge.
    pub fn js_message_bridge(&self) -> (r: String)
        ensures
            r@ == "return {\nToWasmMsg:class extends ToWasmMsg{\n"@ + spec_concat_strs(
                self.to_wasm_js.deep_view(),
            ) + "},\nFromWasmMsg:class extends FromWasmMsg{\n"@ + spec_concat_strs(
                self.from_wasm_js.deep_view(),
            ) + "}\n}"@,
    {
        let mut out = String::from_str("return {\nToWasmMsg:class extends ToWasmMsg{\n");
        let ghost head = "return {\nToWasmMsg:class extends ToWasmMsg{\n"@;
        let mut i: usize = 0;
        while i < self.to_wasm_js.len()
            invariant
                0 <= i <= self.to_wasm_js@.len(),
                out@ == head + spec_concat_strs(self.to_wasm_js.deep_view().take(i as int)),
            decreases self.to_wasm_js@.len() - i,
        {
            out.append(self.to_wasm_js[i].as_str());
            proof {
                let dv = self.to_wasm_js.deep_view();
                assert(dv.take(i as int).push(dv[i as int]) =~~= dv.take(i as int + 1));
                lemma_concat_strs_push(dv.take(i as int), dv[i as int]);
                assert(out@ =~= head + spec_concat_strs(dv.take(i as int + 1)));
            }
            i = i + 1;
        }
        proof {
            let dv = self.to_wasm_js.deep_view();
            assert(dv.take(dv.len() as int) =~~= dv);
        }
        out.append("},\nFromWasmMsg:class extends FromWasmMsg{\n");
        let ghost mid = out@;
        let mut j: usize = 0;
        while j < self.from_wasm_js.len()
            invariant
                0 <= j <= self.from_wasm_js@.len(),
                mid == head + spec_concat_strs(self.to_wasm_js.deep_view())
                    + "},\nFromWasmMsg:class extends FromWasmMsg{\n"@,
                out@ == mid + spec_concat_strs(self.from_wasm_js.deep_view().take(j as int)),
            decreases self.from_wasm_js@.len() - j,
        {
            out.append(self.from_wasm_js[j].as_str());
            proof {
                let dv = self.from_wasm_js.deep_view();
                assert(dv.take(j as int).push(dv[j as int]) =~~= dv.take(j as int + 1));
                lemma_concat_strs_push(dv.take(j as int), dv[j as int]);
                assert(out@ =~= mid + spec_concat_strs(dv.take(j as int + 1)));
            }
            j = j + 1;
        }
        proof {
            let dv = self.from_wasm_js.deep_view();
            assert(dv.take(dv.len() as int) =~~= dv);
        }
        out.append("}\n}");
        proof {
            assert(out@ =~= "return {\nToWasmMsg:class extends ToWasmMsg{\n"@ + spec_concat_strs(
                self.to_wasm_js.deep_view(),
            ) + "},\nFromWasmMsg:class extends FromWasmMsg{\n"@ + spec_concat_strs(
                self.from_wasm_js.deep_view(),
            ) + "}\n}"@);
        }
        out
    }
}

} // verus!
