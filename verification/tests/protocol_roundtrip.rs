// Wire-level tests: primitive codec, envelope framing, and round trips of
// every registered block kind in both directions.

use wasm_bridge::codec::{take_i32, take_string, take_u32, write_i32, write_string, write_u32, write_u64};
use wasm_bridge::envelope::{EnvelopeReader, EnvelopeWriter};
use wasm_bridge::host::{decode_from_wasm_envelope, encode_to_wasm_envelope};
use wasm_bridge::msg::{decode_to_wasm, FromWasm, ToWasm, WireDep};
use wasm_bridge::protocol::{ProtocolError, SENTINEL_ID};

fn roundtrip_event(ev: ToWasm) -> ToWasm {
    let env = encode_to_wasm_envelope(&vec![ev]);
    let mut rd = EnvelopeReader::new(env);
    let id = rd.read_u64().unwrap();
    assert_ne!(id, SENTINEL_ID);
    let resume = rd.read_block_skip().unwrap();
    let payload = rd.read_payload(resume);
    let (ev2, used) = decode_to_wasm(id, &payload).unwrap();
    assert_eq!(used, payload.len());
    assert!(rd.was_last_block().unwrap());
    ev2
}

fn roundtrip_cmd(cmd: FromWasm) -> FromWasm {
    let mut w = EnvelopeWriter::new();
    cmd.encode(&mut w);
    let bytes = w.finish();
    let mut cmds = decode_from_wasm_envelope(bytes).unwrap();
    assert_eq!(cmds.len(), 1);
    cmds.pop().unwrap()
}

#[test]
fn primitive_scalars_round_trip() {
    let mut buf: Vec<u8> = Vec::new();
    write_u32(&mut buf, 0xdead_beef);
    write_u64(&mut buf, 0x0123_4567_89ab_cdef);
    write_i32(&mut buf, -5);
    write_i32(&mut buf, 7);
    let mut pos = 0usize;
    assert_eq!(take_u32(&buf, &mut pos).unwrap(), 0xdead_beef);
    let mut pos8 = pos;
    pos8 += 8;
    assert_eq!(take_i32(&buf, &mut pos8).unwrap(), -5);
    assert_eq!(take_i32(&buf, &mut pos8).unwrap(), 7);
    assert_eq!(take_u32(&buf, &mut pos8), Err(ProtocolError::Truncated));
}

#[test]
fn biased_i32_encoding_is_exact() {
    let mut buf: Vec<u8> = Vec::new();
    write_i32(&mut buf, -5);
    // -5 travels as 0x8000_0000 - 5 = 0x7fff_fffb, little endian.
    assert_eq!(buf, vec![0xfb, 0xff, 0xff, 0x7f]);
}

#[test]
fn strings_round_trip_utf8() {
    let mut buf: Vec<u8> = Vec::new();
    write_string(&mut buf, "grüße, Δ!");
    let mut pos = 0usize;
    assert_eq!(take_string(&buf, &mut pos).unwrap(), "grüße, Δ!");
    assert_eq!(pos, buf.len());
}

#[test]
fn invalid_utf8_is_rejected() {
    let mut buf: Vec<u8> = Vec::new();
    write_u32(&mut buf, 2);
    buf.push(0xff);
    buf.push(0xfe);
    let mut pos = 0usize;
    assert!(take_string(&buf, &mut pos).is_err());
}

#[test]
fn every_event_kind_round_trips() {
    let events = vec![
        ToWasm::GetDeps { cpu_cores: 8 },
        ToWasm::Init {
            width: 800,
            height: 600,
            deps: vec![WireDep { path: String::from("a.bin"), data: vec![1, 2] }],
        },
        ToWasm::ResizeWindow { width: 1024, height: 768 },
        ToWasm::AnimationFrame { time_us: 16_667 },
        ToWasm::TouchUpdate { time_us: 5, state: 0, x: -3, y: 9, uid: 77 },
        ToWasm::MouseDown { x: 10, y: 10, button: 0, time_us: 1_000 },
        ToWasm::MouseMove { x: 11, y: 12, time_us: 1_100 },
        ToWasm::MouseUp { x: 11, y: 12, button: 0, time_us: 1_200 },
        ToWasm::Scroll { x: 5, y: 6, dx: 0, dy: -120, time_us: 2_000 },
        ToWasm::KeyDown { key_code: 65 },
        ToWasm::KeyUp { key_code: 65 },
        ToWasm::TextInput { input: String::from("héllo") },
        ToWasm::TextCopy,
        ToWasm::TimerFired { timer_id: 3 },
        ToWasm::AppGotFocus,
        ToWasm::AppLostFocus,
        ToWasm::XrUpdate { time_us: 9_999 },
        ToWasm::RedrawAll,
        ToWasm::PaintDirty,
        ToWasm::WebSocketClose { web_socket_id: 4 },
        ToWasm::WebSocketOpen { web_socket_id: 4 },
        ToWasm::WebSocketError { web_socket_id: 4, error: String::from("gone") },
        ToWasm::WebSocketMessage { web_socket_id: 4, data: vec![1, 2, 3] },
    ];
    for ev in events {
        let back = roundtrip_event(ev.clone());
        assert_eq!(back, ev);
    }
}

#[test]
fn every_command_kind_round_trips() {
    let cmds = vec![
        FromWasm::LoadDeps { deps: vec![String::from("a.bin"), String::from("b.bin")] },
        FromWasm::StartTimer { timer_id: 1, interval_us: 500, repeats: true },
        FromWasm::StopTimer { timer_id: 1 },
        FromWasm::FullScreen,
        FromWasm::NormalScreen,
        FromWasm::RequestAnimationFrame,
        FromWasm::SetDocumentTitle { title: String::from("bridge") },
        FromWasm::SetMouseCursor { cursor: 7 },
        FromWasm::TextCopyResponse { response: String::from("copied") },
        FromWasm::ShowTextIme { x: -1, y: 44 },
        FromWasm::HideTextIme,
        FromWasm::CreateThread { closure_ptr: 1234 },
        FromWasm::WebSocketOpen {
            url: String::from("wss://example/ws"),
            web_socket_id: 9,
            auto_reconnect: true,
        },
        FromWasm::WebSocketSend { web_socket_id: 9, data: vec![9, 8, 7] },
        FromWasm::XrStartPresenting,
        FromWasm::XrStopPresenting,
    ];
    for cmd in cmds {
        let back = roundtrip_cmd(cmd.clone());
        assert_eq!(back, cmd);
    }
}

#[test]
fn start_timer_bytes_are_exact() {
    let mut w = EnvelopeWriter::new();
    FromWasm::StartTimer { timer_id: 1, interval_us: 500, repeats: true }.encode(&mut w);
    let bytes = w.finish();
    let mut expected: Vec<u8> = Vec::new();
    expected.extend_from_slice(&[0x42, 0, 0, 0, 0, 0, 0, 0]); // block id
    expected.extend_from_slice(&[20, 0, 0, 0]); // skip length
    expected.extend_from_slice(&[1, 0, 0, 0, 0, 0, 0, 0]); // timer id
    expected.extend_from_slice(&[0xf4, 1, 0, 0, 0, 0, 0, 0]); // interval
    expected.extend_from_slice(&[1, 0, 0, 0]); // repeats
    expected.extend_from_slice(&[0, 0, 0, 0, 0, 0, 0, 0]); // sentinel
    assert_eq!(bytes, expected);
}

#[test]
fn scan_counts_blocks_without_decoding() {
    // Three blocks, one of them an unregistered kind: the scan still lands on
    // the sentinel after exactly three skips.
    let mut w = EnvelopeWriter::new();
    ToWasm::KeyDown { key_code: 1 }.encode(&mut w);
    w.begin_block(0xdead_0001);
    w.write_u64(42);
    w.end_block();
    ToWasm::RedrawAll.encode(&mut w);
    let bytes = w.finish();
    let mut rd = EnvelopeReader::new(bytes);
    assert_eq!(rd.skip_all_blocks().unwrap(), 3);
    assert!(rd.was_last_block().unwrap());
}

#[test]
fn scan_reports_truncation() {
    let mut bytes: Vec<u8> = Vec::new();
    write_u64(&mut bytes, 0x16); // a mouse-down block id
    write_u32(&mut bytes, 100); // declares 100 payload bytes
    write_u32(&mut bytes, 1); // but only 4 are present
    let mut rd = EnvelopeReader::new(bytes);
    assert_eq!(rd.skip_all_blocks(), Err(ProtocolError::Truncated));
}

#[test]
fn command_envelope_preserves_order() {
    let mut w = EnvelopeWriter::new();
    FromWasm::FullScreen.encode(&mut w);
    FromWasm::HideTextIme.encode(&mut w);
    FromWasm::StopTimer { timer_id: 9 }.encode(&mut w);
    let cmds = decode_from_wasm_envelope(w.finish()).unwrap();
    assert_eq!(
        cmds,
        vec![FromWasm::FullScreen, FromWasm::HideTextIme, FromWasm::StopTimer { timer_id: 9 }]
    );
}
