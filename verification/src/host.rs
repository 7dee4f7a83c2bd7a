//! The host's half of the invocation contract: building one inbound envelope
//! from typed events, and reading one outbound envelope back into typed
//! commands. The core never calls these; tests and embedding code do, since
//! they are the other side of the bridge.

use vstd::prelude::*;

use crate::envelope::lemma_parse_frames_of_envelope;
use crate::envelope::spec_envelope_bytes;
use crate::envelope::spec_parse_frames;
use crate::envelope::wf_frame;
use crate::envelope::wf_frames;
use crate::envelope::EnvelopeReader;
use crate::envelope::EnvelopeWriter;
use crate::msg::decode_from_wasm;
use crate::msg::from_wasm_id;
use crate::msg::from_wasm_payload;
use crate::msg::lemma_parse_from_wasm_round_trip;
use crate::msg::lemma_strings_to_bytes_len;
use crate::msg::spec_parse_from_wasm;
use crate::msg::to_wasm_id;
use crate::msg::to_wasm_payload;
use crate::msg::wf_from_wasm;
use crate::msg::wf_to_wasm;
use crate::msg::FromWasm;
use crate::msg::FromWasmModel;
use crate::msg::ToWasm;
use crate::msg::ToWasmModel;
use crate::protocol::ProtocolError;
use crate::protocol::SENTINEL_ID;

verus! {

/// The wire frames of a sequence of inbound events.
pub open spec fn spec_event_blocks(es: Seq<ToWasmModel>) -> Seq<(u64, Seq<u8>)> {
    es.map(|i: int, m: ToWasmModel| (to_wasm_id(m), to_wasm_payload(m)))
}

/// The wire frames of a sequence of outbound commands.
pub open spec fn spec_cmd_blocks(cs: Seq<FromWasmModel>) -> Seq<(u64, Seq<u8>)> {
    cs.map(|i: int, m: FromWasmModel| (from_wasm_id(m), from_wasm_payload(m)))
}

/// Reads a parsed frame sequence back into commands: every frame must carry a
/// known command id, parse, and declare exactly the bytes its payload holds.
pub open spec fn spec_cmds_of_frames(frames: Seq<(u64, Seq<u8>)>) -> Option<Seq<FromWasmModel>>
    decreases frames.len(),
{
    if frames.len() == 0 {
        Some(Seq::empty())
    } else {
        match spec_parse_from_wasm(frames[0].0, frames[0].1) {
            Some((m, n)) => if n == frames[0].1.len() {
                match spec_cmds_of_frames(frames.drop_first()) {
                    Some(ms) => Some(seq![m] + ms),
                    None => None,
                }
            } else {
                None
            },
            None => None,
        }
    }
}

/// What a whole outbound envelope means: its frames, each read as a command.
pub open spec fn spec_decode_cmd_envelope(b: Seq<u8>) -> Option<Seq<FromWasmModel>> {
    match spec_parse_frames(b) {
        Some(frames) => spec_cmds_of_frames(frames),
        None => None,
    }
}

/// Every well-formed command makes a well-formed frame: a non-sentinel id and
/// a payload whose length fits the `u32` skip-length field.
pub proof fn lemma_from_wasm_frame_wf(m: FromWasmModel)
    requires
        wf_from_wasm(m),
    ensures
        wf_frame(from_wasm_id(m), from_wasm_payload(m)),
{
    vstd::bytes::lemma_auto_spec_u32_to_from_le_bytes();
    vstd::bytes::lemma_auto_spec_u64_to_from_le_bytes();
    match m {
        FromWasmModel::LoadDeps { deps } => {
            lemma_strings_to_bytes_len(deps);
        },
        _ => {},
    }
}

/// Ordering round trip: an envelope serialised from commands `cs` reads back
/// as exactly `cs`, in order.
pub proof fn lemma_command_envelope_round_trip(cs: Seq<FromWasmModel>)
    requires
        forall|i: int| 0 <= i < cs.len() ==> #[trigger] wf_from_wasm(cs[i]),
    ensures
        spec_decode_cmd_envelope(spec_envelope_bytes(spec_cmd_blocks(cs))) == Some(cs),
{
    assert forall|i: int| 0 <= i < spec_cmd_blocks(cs).len() implies #[trigger] wf_frame(
        spec_cmd_blocks(cs)[i].0,
        spec_cmd_blocks(cs)[i].1,
    ) by {
        lemma_from_wasm_frame_wf(cs[i]);
    };
    lemma_parse_frames_of_envelope(spec_cmd_blocks(cs));
    lemma_cmds_of_frames_of(cs);
}

proof fn lemma_cmds_of_frames_of(cs: Seq<FromWasmModel>)
    requires
        forall|i: int| 0 <= i < cs.len() ==> #[trigger] wf_from_wasm(cs[i]),
    ensures
        spec_cmds_of_frames(spec_cmd_blocks(cs)) == Some(cs),
    decreases cs.len(),
{
    let frames = spec_cmd_blocks(cs);
    if cs.len() == 0 {
        assert(cs =~~= Seq::<FromWasmModel>::empty());
    } else {
        assert(frames[0] == (from_wasm_id(cs[0]), from_wasm_payload(cs[0])));
        lemma_parse_from_wasm_round_trip(cs[0]);
        assert(frames.drop_first() =~~= spec_cmd_blocks(cs.drop_first()));
        lemma_cmds_of_frames_of(cs.drop_first());
        assert(seq![cs[0]] + cs.drop_first() =~~= cs);
    }
}

/// Serialises typed events into one inbound envelope, in order; the host's
/// write side of the bridge.
pub fn encode_to_wasm_envelope(events: &Vec<ToWasm>) -> (r: Vec<u8>)
    requires
        forall|i: int| 0 <= i < events@.len() ==> #[trigger] wf_to_wasm(events@[i].deep_view()),
    ensures
        r@ == spec_envelope_bytes(spec_event_blocks(events.deep_view())),
{
    let ghost dv = events.deep_view();
    let mut w = EnvelopeWriter::new();
    let mut i: usize = 0;
    while i < events.len()
        invariant
            dv == events.deep_view(),
            dv.len() == events@.len(),
            0 <= i <= events@.len(),
            forall|k: int| 0 <= k < events@.len() ==> #[trigger] wf_to_wasm(events@[k].deep_view()),
            w.wf(),
            w.is_closed(),
            w.blocks() == spec_event_blocks(dv.take(i as int)),
        decreases events@.len() - i,
    {
        proof {
            assert(dv[i as int] == events@[i as int].deep_view());
        }
        events[i].encode(&mut w);
        proof {
            assert(spec_event_blocks(dv.take(i as int + 1)) =~~= spec_event_blocks(
                dv.take(i as int),
            ).push((to_wasm_id(dv[i as int]), to_wasm_payload(dv[i as int]))));
        }
        i = i + 1;
    }
    proof {
        assert(dv.take(dv.len() as int) =~~= dv);
    }
    w.finish()
}

/// Reads one outbound envelope back into typed commands, in order; the host's
/// read side of the bridge. Fails with `Truncated` when the framing is cut
/// short and with `LengthMismatch` when a block declares a different length
/// than its command occupies.
pub fn decode_from_wasm_envelope(bytes: Vec<u8>) -> (r: Result<Vec<FromWasm>, ProtocolError>)
    ensures
        match spec_decode_cmd_envelope(bytes@) {
            Some(ms) => r is Ok && r.unwrap().deep_view() == ms,
            None => r is Err,
        },
{
    let ghost frames0 = spec_parse_frames(bytes@);
    let mut rd = EnvelopeReader::new(bytes);
    let mut cmds: Vec<FromWasm> = Vec::new();
    proof {
        assert(rd.remaining() =~= bytes@);
        assert(cmds.deep_view() =~~= Seq::<FromWasmModel>::empty());
        if frames0 is Some {
            let frames = frames0->Some_0;
            if spec_cmds_of_frames(frames) is Some {
                let ms = spec_cmds_of_frames(frames)->Some_0;
                assert(Seq::<FromWasmModel>::empty() + ms =~~= ms);
            }
        }
    }
    loop
        invariant
            rd.wf(),
            rd.data() == bytes@,
            frames0 == spec_parse_frames(bytes@),
            match frames0 {
                Some(frames) => spec_parse_frames(rd.remaining()) is Some && spec_cmds_of_frames(
                    frames,
                ) == (match spec_cmds_of_frames(spec_parse_frames(rd.remaining())->Some_0) {
                    Some(ms) => Some::<Seq<FromWasmModel>>(cmds.deep_view() + ms),
                    None => None::<Seq<FromWasmModel>>,
                }),
                None => spec_parse_frames(rd.remaining()) is None,
            },
        decreases rd.data().len() - rd.pos(),
    {
        let ghost pos_before = rd.pos();
        let ghost b = rd.data().skip(pos_before);
        proof {
            rd.lemma_wf_bounds();
            crate::envelope::lemma_parse_step(rd.data(), pos_before);
            if frames0 is Some {
                if crate::codec::spec_take_u64(b, 0) is None {
                    assert(spec_parse_frames(b) is None);
                    assert(false);
                }
            }
        }
        let id = match rd.read_u64() {
            Ok(v) => v,
            Err(e) => {
                return Err(e);
            },
        };
        if id == SENTINEL_ID {
            proof {
                if frames0 is Some {
                    assert(spec_parse_frames(b) == Some(Seq::<(u64, Seq<u8>)>::empty()));
                    assert(cmds.deep_view() + Seq::<FromWasmModel>::empty() =~~= cmds.deep_view());
                }
            }
            return Ok(cmds);
        }
        proof {
            if frames0 is Some {
                if crate::codec::spec_take_u32(b, 8) is None {
                    assert(spec_parse_frames(b) is None);
                    assert(false);
                }
                let skip = crate::codec::spec_take_u32(b, 8)->Some_0.0 as int;
                if 12 + skip > b.len() {
                    assert(spec_parse_frames(b) is None);
                    assert(false);
                }
            }
        }
        let resume = match rd.read_block_skip() {
            Ok(v) => v,
            Err(e) => {
                return Err(e);
            },
        };
        proof {
            rd.lemma_len_bound();
            assert(rd.pos() == pos_before + 12);
            assert(crate::codec::spec_take_u32(b, 8) is Some);
            assert(resume == pos_before + 12 + crate::codec::spec_take_u32(b, 8)->Some_0.0);
            assert(pos_before + 12 <= resume <= rd.data().len());
        }
        let payload = rd.read_payload(resume);
        let ghost skip = resume - pos_before - 12;
        let ghost g = spec_parse_frames(b)->Some_0;
        proof {
            assert(rd.remaining() =~= b.skip(12 + skip));
            if frames0 is Some {
                if spec_parse_frames(b.skip(12 + skip)) is None {
                    assert(spec_parse_frames(b) is None);
                    assert(false);
                }
                let grest = spec_parse_frames(b.skip(12 + skip))->Some_0;
                assert(payload@ =~= b.subrange(12, 12 + skip));
                assert(spec_parse_frames(b) == Some(seq![(id, b.subrange(12, 12 + skip))] + grest));
                assert(g == seq![(id, payload@)] + grest);
                assert(g[0] == (id, payload@));
                assert(g.drop_first() =~~= grest);
            } else {
                if spec_parse_frames(b.skip(12 + skip)) is Some {
                    assert(spec_parse_frames(b) is Some);
                    assert(false);
                }
            }
        }
        let (cmd, used) = match decode_from_wasm(id, &payload) {
            Ok(v) => v,
            Err(e) => {
                proof {
                    if frames0 is Some {
                        assert(spec_cmds_of_frames(g) is None);
                    }
                }
                return Err(e);
            },
        };
        if used != payload.len() {
            proof {
                if frames0 is Some {
                    assert(spec_parse_from_wasm(id, payload@) is Some);
                    assert(spec_parse_from_wasm(id, payload@)->Some_0.1 == used as int);
                    assert(spec_cmds_of_frames(g) is None);
                }
            }
            return Err(ProtocolError::LengthMismatch);
        }
        let ghost cmds_before = cmds.deep_view();
        cmds.push(cmd);
        proof {
            if frames0 is Some {
                assert(cmds.deep_view() =~~= cmds_before.push(cmd.deep_view()));
                assert(spec_parse_from_wasm(g[0].0, g[0].1) is Some);
                assert(spec_parse_from_wasm(g[0].0, g[0].1)->Some_0.0 == cmd.deep_view());
                if spec_cmds_of_frames(g.drop_first()) is Some {
                    let ms = spec_cmds_of_frames(g.drop_first())->Some_0;
                    assert(spec_cmds_of_frames(g) == Some(seq![cmd.deep_view()] + ms));
                    assert(cmds_before.push(cmd.deep_view()) + ms =~~= cmds_before + (seq![
                        cmd.deep_view(),
                    ] + ms));
                } else {
                    assert(spec_cmds_of_frames(g) is None);
                }
            }
        }
    }
}

} // verus!
