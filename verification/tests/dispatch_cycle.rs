// Whole-cycle tests: ordering of drained commands, idempotent scheduling,
// truncation handling, the end-to-end scenario, and the reserved signal-poll
// timer.

use wasm_bridge::cx::{Cx, CxOsOp, Event, EventHandler, NoopEventHandler};
use wasm_bridge::host::{decode_from_wasm_envelope, encode_to_wasm_envelope};
use wasm_bridge::msg::{FromWasm, ToWasm, WireDep};
use wasm_bridge::protocol::ProtocolError;

/// Records every delivered event and performs a scripted reaction to each.
struct Recorder {
    seen: Vec<Event>,
    enqueue_on_construct: Vec<CxOsOp>,
    redraw_on_any: bool,
}

impl Recorder {
    fn new() -> Recorder {
        Recorder { seen: Vec::new(), enqueue_on_construct: Vec::new(), redraw_on_any: false }
    }
}

impl EventHandler for Recorder {
    fn handle_event(&mut self, cx: &mut Cx, event: &Event) {
        self.seen.push(event.clone());
        if matches!(event, Event::Construct) {
            for op in &self.enqueue_on_construct {
                cx.push_platform_op(*op);
            }
        }
        if self.redraw_on_any {
            cx.redraw_all();
        }
    }
}

fn run(cx: &mut Cx, handler: &mut Recorder, events: Vec<ToWasm>) -> Vec<FromWasm> {
    let inbound = encode_to_wasm_envelope(&events);
    let outbound = cx.process_to_wasm(handler, inbound).unwrap();
    decode_from_wasm_envelope(outbound).unwrap()
}

#[test]
fn enqueued_commands_flush_in_fifo_order() {
    let mut cx = Cx::new();
    let mut handler = Recorder::new();
    handler.enqueue_on_construct = vec![
        CxOsOp::SetCursor(1),
        CxOsOp::StartTimer { timer_id: 5, interval_us: 1_000, repeats: false },
        CxOsOp::StopTimer(5),
    ];
    let out = run(&mut cx, &mut handler, vec![ToWasm::Init { width: 100, height: 100, deps: vec![] }]);
    // The Init block itself arms the signal-poll timer first; then the three
    // enqueued commands follow in enqueue order.
    assert_eq!(out.len(), 4);
    assert_eq!(out[1], FromWasm::SetMouseCursor { cursor: 1 });
    assert_eq!(
        out[2],
        FromWasm::StartTimer { timer_id: 5, interval_us: 1_000, repeats: false }
    );
    assert_eq!(out[3], FromWasm::StopTimer { timer_id: 5 });
}

#[test]
fn idle_cycle_requests_no_frame() {
    let mut cx = Cx::new();
    let mut handler = Recorder::new();
    let out = run(&mut cx, &mut handler, vec![ToWasm::MouseMove { x: 1, y: 2, time_us: 3 }]);
    assert!(out.iter().all(|c| !matches!(c, FromWasm::RequestAnimationFrame)));
    assert_eq!(out.len(), 0);
}

#[test]
fn dirty_cycle_requests_exactly_one_frame() {
    let mut cx = Cx::new();
    let mut handler = Recorder::new();
    handler.redraw_on_any = true;
    let out = run(&mut cx, &mut handler, vec![ToWasm::MouseMove { x: 1, y: 2, time_us: 3 }]);
    let rafs = out.iter().filter(|c| matches!(c, FromWasm::RequestAnimationFrame)).count();
    assert_eq!(rafs, 1);
    assert!(matches!(out.last().unwrap(), FromWasm::RequestAnimationFrame));
}

#[test]
fn redraw_flag_set_during_scan_rearms_once_per_cycle() {
    let mut cx = Cx::new();
    let mut handler = Recorder::new();
    handler.redraw_on_any = true;
    let out1 = run(&mut cx, &mut handler, vec![ToWasm::KeyDown { key_code: 1 }]);
    assert_eq!(out1.len(), 1);
    // The next cycle delivers the animation frame; drawing clears the flag,
    // and with no handler re-request the scheduler stays idle.
    handler.redraw_on_any = false;
    let out2 = run(&mut cx, &mut handler, vec![ToWasm::AnimationFrame { time_us: 16 }]);
    assert!(out2.iter().all(|c| !matches!(c, FromWasm::RequestAnimationFrame)));
}

#[test]
fn truncated_envelope_aborts_with_error() {
    let mut cx = Cx::new();
    let mut handler = Recorder::new();
    // A block whose declared payload length exceeds the available bytes.
    let mut inbound: Vec<u8> = Vec::new();
    wasm_bridge::codec::write_u64(&mut inbound, 0x16);
    wasm_bridge::codec::write_u32(&mut inbound, 100);
    wasm_bridge::codec::write_u32(&mut inbound, 1);
    let r = cx.process_to_wasm(&mut handler, inbound);
    assert_eq!(r, Err(ProtocolError::Truncated));
    assert!(handler.seen.is_empty());
}

#[test]
fn empty_buffer_aborts_with_error() {
    let mut cx = Cx::new();
    let mut handler = NoopEventHandler;
    let r = cx.process_to_wasm(&mut handler, Vec::new());
    assert_eq!(r, Err(ProtocolError::Truncated));
}

#[test]
fn end_to_end_scenario() {
    let mut cx = Cx::new();
    assert!(cx.add_dependency(String::from("assets/main.bin")));
    let mut handler = Recorder::new();
    let out = run(
        &mut cx,
        &mut handler,
        vec![
            ToWasm::GetDeps { cpu_cores: 4 },
            ToWasm::Init {
                width: 800,
                height: 600,
                deps: vec![WireDep {
                    path: String::from("assets/main.bin"),
                    data: vec![0xca, 0xfe],
                }],
            },
            ToWasm::MouseDown { x: 10, y: 10, button: 0, time_us: 1_000 },
        ],
    );
    // Outbound: the dependency echo, then the reserved signal-poll timer.
    assert_eq!(
        out,
        vec![
            FromWasm::LoadDeps { deps: vec![String::from("assets/main.bin")] },
            FromWasm::StartTimer { timer_id: 0, interval_us: 16_000, repeats: true },
        ]
    );
    // The application saw construction and the pointer press, and the core
    // registered a tap.
    assert_eq!(
        handler.seen,
        vec![Event::Construct, Event::MouseDown { x: 10, y: 10, button: 0, time_us: 1_000 }]
    );
    assert_eq!(cx.fingers.tap_count, 1);
    assert_eq!(cx.os.window_geom.inner_width, 800);
    assert_eq!(cx.os.window_geom.inner_height, 600);
    // The delivered dependency data was stored under its path.
    assert_eq!(cx.dependencies[0].data, Some(vec![0xca, 0xfe]));
}

#[test]
fn reserved_timer_with_clear_flag_is_silent() {
    let mut cx = Cx::new();
    let mut handler = Recorder::new();
    let out = run(&mut cx, &mut handler, vec![ToWasm::TimerFired { timer_id: 0 }]);
    assert!(handler.seen.is_empty());
    assert_eq!(out.len(), 0);
}

#[test]
fn reserved_timer_with_flag_set_delivers_signal() {
    let mut cx = Cx::new();
    cx.signal.post_signal();
    let mut handler = Recorder::new();
    run(&mut cx, &mut handler, vec![ToWasm::TimerFired { timer_id: 0 }]);
    assert_eq!(handler.seen, vec![Event::Signal]);
    assert!(!cx.signal.set);
}

#[test]
fn ordinary_timer_fires_through() {
    let mut cx = Cx::new();
    let mut handler = Recorder::new();
    run(&mut cx, &mut handler, vec![ToWasm::TimerFired { timer_id: 12 }]);
    assert_eq!(handler.seen, vec![Event::Timer { timer_id: 12 }]);
}

#[test]
fn unknown_block_is_skipped_and_preserved() {
    let mut cx = Cx::new();
    let mut handler = Recorder::new();
    // An unregistered block between two recognised ones must not
    // desynchronise the scan, and reaches the handler as a raw message.
    let mut w = wasm_bridge::envelope::EnvelopeWriter::new();
    ToWasm::KeyDown { key_code: 7 }.encode(&mut w);
    w.begin_block(0xdead_0001);
    w.write_u64(42);
    w.end_block();
    ToWasm::KeyUp { key_code: 7 }.encode(&mut w);
    let outbound = cx.process_to_wasm(&mut handler, w.finish()).unwrap();
    assert_eq!(decode_from_wasm_envelope(outbound).unwrap().len(), 0);
    assert_eq!(handler.seen.len(), 3);
    assert_eq!(handler.seen[0], Event::KeyDown { key_code: 7 });
    match &handler.seen[1] {
        Event::ToWasmMsg { id, payload } => {
            assert_eq!(*id, 0xdead_0001);
            assert_eq!(payload.len(), 8);
        },
        other => panic!("expected a raw message, got {:?}", other),
    }
    assert_eq!(handler.seen[2], Event::KeyUp { key_code: 7 });
}

#[test]
fn length_mismatch_is_counted_not_fatal() {
    let mut cx = Cx::new();
    let mut handler = Recorder::new();
    // A recognised block that declares more payload than its decoder reads.
    let mut w = wasm_bridge::envelope::EnvelopeWriter::new();
    w.begin_block(0x1a); // the key-down block id
    w.write_u32(7);
    w.write_u32(99); // trailing bytes the decoder never consumes
    w.end_block();
    let outbound = cx.process_to_wasm(&mut handler, w.finish()).unwrap();
    assert_eq!(decode_from_wasm_envelope(outbound).unwrap().len(), 0);
    assert_eq!(cx.length_mismatches, 1);
    assert_eq!(handler.seen, vec![Event::KeyDown { key_code: 7 }]);
}

#[test]
fn text_copy_response_is_flushed() {
    struct Copier;
    impl EventHandler for Copier {
        fn handle_event(&mut self, cx: &mut Cx, event: &Event) {
            if matches!(event, Event::TextCopy) {
                assert!(cx.set_text_copy_response(String::from("clip")));
            }
        }
    }
    let mut cx = Cx::new();
    let mut handler = Copier;
    let inbound = encode_to_wasm_envelope(&vec![ToWasm::TextCopy]);
    let outbound = cx.process_to_wasm(&mut handler, inbound).unwrap();
    assert_eq!(
        decode_from_wasm_envelope(outbound).unwrap(),
        vec![FromWasm::TextCopyResponse { response: String::from("clip") }]
    );
}

#[test]
fn sockets_allocate_monotonic_handles() {
    struct Opener;
    impl EventHandler for Opener {
        fn handle_event(&mut self, cx: &mut Cx, event: &Event) {
            if matches!(event, Event::Construct) {
                let a = cx.web_socket_open(
                    String::from("wss://one"),
                    wasm_bridge::cx::WebSocketAutoReconnect::No,
                );
                let b = cx.web_socket_open(
                    String::from("wss://two"),
                    wasm_bridge::cx::WebSocketAutoReconnect::Yes,
                );
                assert_eq!(a.0 + 1, b.0);
                cx.web_socket_send(a, vec![1, 2]);
            }
        }
    }
    let mut cx = Cx::new();
    let mut handler = Opener;
    let inbound = encode_to_wasm_envelope(&vec![ToWasm::Init { width: 1, height: 1, deps: vec![] }]);
    let outbound = cx.process_to_wasm(&mut handler, inbound).unwrap();
    let cmds = decode_from_wasm_envelope(outbound).unwrap();
    assert_eq!(cmds.len(), 4); // timer, two opens, one send
    assert_eq!(
        cmds[1],
        FromWasm::WebSocketOpen {
            url: String::from("wss://one"),
            web_socket_id: 0,
            auto_reconnect: false,
        }
    );
    assert_eq!(cmds[3], FromWasm::WebSocketSend { web_socket_id: 0, data: vec![1, 2] });
    assert_eq!(cx.web_socket_id, 2);
}
