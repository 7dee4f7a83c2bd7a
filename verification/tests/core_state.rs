// Tests of the core's own state: shader types, tap chains, the signal flag,
// dependency registration and the registry handshake.

use wasm_bridge::cx::{Cx, CxFingers, Event, EventHandler, SignalFlag};
use wasm_bridge::host::{decode_from_wasm_envelope, encode_to_wasm_envelope};
use wasm_bridge::msg::{FromWasm, ToWasm};
use wasm_bridge::shader_ty::{Ident, Ty, TyLit};

use std::rc::Rc;

#[test]
fn ty_classification() {
    assert!(Ty::Bool.is_scalar());
    assert!(Ty::Float.is_scalar());
    assert!(!Ty::Vec2.is_scalar());
    assert!(Ty::Bvec3.is_vector());
    assert!(Ty::Ivec4.is_vector());
    assert!(!Ty::Mat2.is_vector());
    assert!(Ty::Mat3.is_matrix());
    assert!(!Ty::Void.is_matrix());
}

#[test]
fn ty_sizes() {
    assert_eq!(Ty::Void.size(), 0);
    assert_eq!(Ty::Int.size(), 1);
    assert_eq!(Ty::Vec3.size(), 3);
    assert_eq!(Ty::Mat2.size(), 4);
    assert_eq!(Ty::Mat3.size(), 9);
    assert_eq!(Ty::Mat4.size(), 16);
    let arr = Ty::Array { elem_ty: Rc::new(Ty::Vec4), len: 5 };
    assert_eq!(arr.size(), 20);
    let nested = Ty::Array { elem_ty: Rc::new(arr), len: 2 };
    assert_eq!(nested.size(), 40);
}

#[test]
fn ty_lit_round_trip() {
    let lits = vec![
        TyLit::Bool,
        TyLit::Int,
        TyLit::Float,
        TyLit::Bvec2,
        TyLit::Bvec3,
        TyLit::Bvec4,
        TyLit::Ivec2,
        TyLit::Ivec3,
        TyLit::Ivec4,
        TyLit::Vec2,
        TyLit::Vec3,
        TyLit::Vec4,
        TyLit::Mat2,
        TyLit::Mat3,
        TyLit::Mat4,
    ];
    for lit in lits {
        assert_eq!(lit.to_ty().maybe_ty_lit(), Some(lit));
    }
    // The texture literal reports back as the Bool literal.
    assert_eq!(TyLit::Texture2D.to_ty().maybe_ty_lit(), Some(TyLit::Bool));
    assert_eq!(Ty::Void.maybe_ty_lit(), None);
    assert_eq!(TyLit::Vec4.display_string(), "vec4");
    assert_eq!(TyLit::Texture2D.display_string(), "texture2D");
}

#[test]
fn ty_display_renders_arrays_and_structs() {
    assert_eq!(Ty::Float.display_string(), "float");
    let arr = Ty::Array { elem_ty: Rc::new(Ty::Vec4), len: 5 };
    assert_eq!(arr.display_string(), "vec4[5]");
    let nested = Ty::Array { elem_ty: Rc::new(arr), len: 12 };
    assert_eq!(nested.display_string(), "vec4[5][12]");
    assert_eq!(Ty::Struct { ident: Ident(307) }.display_string(), "#307");
}

#[test]
fn tap_chain_counts_double_clicks() {
    let mut f = CxFingers {
        tap_count: 0,
        last_tap_x: 0,
        last_tap_y: 0,
        last_tap_time_us: 0,
        buttons_down: 0,
    };
    f.process_tap_count(10, 10, 1_000);
    assert_eq!(f.tap_count, 1);
    f.process_tap_count(10, 10, 400_000);
    assert_eq!(f.tap_count, 2);
    // Too late: the chain restarts.
    f.process_tap_count(10, 10, 2_000_000);
    assert_eq!(f.tap_count, 1);
    // Elsewhere: the chain restarts.
    f.process_tap_count(50, 50, 2_100_000);
    assert_eq!(f.tap_count, 1);
}

#[test]
fn signal_flag_checks_and_clears() {
    let mut s = SignalFlag::new();
    assert!(!s.check_and_clear_ui_signal());
    s.post_signal();
    assert!(s.check_and_clear_ui_signal());
    assert!(!s.check_and_clear_ui_signal());
}

#[test]
fn dependency_registration_enforces_bounds() {
    let mut cx = Cx::new();
    assert!(cx.add_dependency(String::from("ok/path.bin")));
    let mut long = String::new();
    for _ in 0..5000 {
        long.push('x');
    }
    assert!(!cx.add_dependency(long));
    assert_eq!(cx.dependencies.len(), 1);
}

#[test]
fn init_publishes_schema_strings() {
    let mut cx = Cx::new();
    cx.init();
    assert_eq!(cx.os.to_wasm_js.len(), 23);
    assert_eq!(cx.os.from_wasm_js.len(), 16);
    assert_eq!(cx.os.to_wasm_js[0], "ToWasmGetDeps");
    assert_eq!(cx.os.from_wasm_js[0], "FromWasmLoadDeps");
    let bridge = cx.os.js_message_bridge();
    assert!(bridge.starts_with("return {\nToWasmMsg:class extends ToWasmMsg{\n"));
    assert!(bridge.contains("FromWasmRequestAnimationFrame"));
    assert!(bridge.ends_with("}\n}"));
}

#[test]
fn spawn_thread_emits_one_shot_token() {
    struct Spawner;
    impl EventHandler for Spawner {
        fn handle_event(&mut self, cx: &mut Cx, event: &Event) {
            if matches!(event, Event::AppGotFocus) {
                cx.spawn_thread(0xbeef);
            }
        }
    }
    let mut cx = Cx::new();
    let mut handler = Spawner;
    let inbound = encode_to_wasm_envelope(&vec![ToWasm::AppGotFocus]);
    let outbound = cx.process_to_wasm(&mut handler, inbound).unwrap();
    assert_eq!(
        decode_from_wasm_envelope(outbound).unwrap(),
        vec![FromWasm::CreateThread { closure_ptr: 0xbeef }]
    );
}

#[test]
fn dependency_data_is_stored_by_path() {
    let mut cx = Cx::new();
    assert!(cx.add_dependency(String::from("a.bin")));
    assert!(cx.add_dependency(String::from("b.bin")));
    assert!(cx.set_dependency_data(&String::from("b.bin"), vec![4, 5, 6]));
    assert!(!cx.set_dependency_data(&String::from("missing.bin"), vec![7]));
    assert_eq!(cx.dependencies[0].data, None);
    assert_eq!(cx.dependencies[1].data, Some(vec![4, 5, 6]));
}
