//! Message envelope: a framed sequence of blocks terminated by a sentinel id.
//!
//! Each block travels as `[u64 id][u32 skip_len][payload bytes]`, where
//! `skip_len` counts the bytes from immediately after itself to the start of
//! the next block's id field. That invariant lets a reader bypass any block —
//! understood or not — and is what keeps the stream synchronised.

use vstd::bytes::*;
use vstd::prelude::*;
use vstd::slice::*;

use crate::codec::lemma_take_u32;
use crate::codec::lemma_take_u64;
use crate::codec::spec_blob_to_bytes;
use crate::codec::spec_bool_to_bytes;
use crate::codec::spec_i32_to_bytes;
use crate::codec::spec_string_to_bytes;
use crate::codec::spec_take_u32;
use crate::codec::spec_take_u64;
use crate::codec::take_u32;
use crate::codec::take_u64;
use crate::codec::write_u32;
use crate::codec::write_u64;
use crate::protocol::ProtocolError;
use crate::protocol::SENTINEL_ID;

verus! {

/// Byte length of a block header: 8 bytes of id plus 4 bytes of skip length.
pub const BLOCK_HEADER_BYTES: u64 = 12;

// ---------------------------------------------------------------------------
// Spec-level serialisation of envelopes
// ---------------------------------------------------------------------------

/// One block on the wire: id, skip length, payload.
pub open spec fn spec_block_bytes(id: u64, payload: Seq<u8>) -> Seq<u8>
    recommends
        payload.len() <= u32::MAX,
{
    spec_u64_to_le_bytes(id) + spec_u32_to_le_bytes(payload.len() as u32) + payload
}

pub open spec fn spec_blocks_bytes(blocks: Seq<(u64, Seq<u8>)>) -> Seq<u8>
    decreases blocks.len(),
{
    if blocks.len() == 0 {
        Seq::empty()
    } else {
        spec_block_bytes(blocks[0].0, blocks[0].1) + spec_blocks_bytes(blocks.drop_first())
    }
}

/// A whole envelope: the blocks followed by the sentinel id.
pub open spec fn spec_envelope_bytes(blocks: Seq<(u64, Seq<u8>)>) -> Seq<u8> {
    spec_blocks_bytes(blocks) + spec_u64_to_le_bytes(SENTINEL_ID)
}

pub open spec fn wf_frame(id: u64, payload: Seq<u8>) -> bool {
    id != SENTINEL_ID && payload.len() <= u32::MAX
}

pub open spec fn wf_frames(blocks: Seq<(u64, Seq<u8>)>) -> bool {
    forall|i: int| 0 <= i < blocks.len() ==> #[trigger] wf_frame(blocks[i].0, blocks[i].1)
}

/// Frame-level parse of an envelope. Returns the blocks up to the sentinel,
/// or `None` when the buffer ends before a complete header, or before the
/// payload a header declared — the `Truncated` situations.
pub open spec fn spec_parse_frames(b: Seq<u8>) -> Option<Seq<(u64, Seq<u8>)>>
    decreases b.len(),
{
    match spec_take_u64(b, 0) {
        None => None,
        Some((id, i)) => if id == SENTINEL_ID {
            Some(Seq::empty())
        } else {
            match spec_take_u32(b, i) {
                None => None,
                Some((skip, j)) => if j + skip <= b.len() {
                    match spec_parse_frames(b.skip(j + skip)) {
                        None => None,
                        Some(rest) => Some(seq![(id, b.subrange(j, j + skip))] + rest),
                    }
                } else {
                    None
                },
            }
        },
    }
}

pub proof fn lemma_blocks_bytes_push(blocks: Seq<(u64, Seq<u8>)>, id: u64, payload: Seq<u8>)
    ensures
        spec_blocks_bytes(blocks.push((id, payload))) == spec_blocks_bytes(blocks)
            + spec_block_bytes(id, payload),
    decreases blocks.len(),
{
    let x = (id, payload);
    if blocks.len() == 0 {
        assert(blocks.push(x)[0] == x);
        assert(blocks.push(x).drop_first() =~~= Seq::<(u64, Seq<u8>)>::empty());
        assert(spec_blocks_bytes(blocks.push(x).drop_first()) == Seq::<u8>::empty());
        assert(spec_blocks_bytes(blocks.push(x)) == spec_block_bytes(id, payload)
            + Seq::<u8>::empty());
        assert(spec_block_bytes(id, payload) + Seq::<u8>::empty() =~= spec_block_bytes(
            id,
            payload,
        ));
        assert(spec_blocks_bytes(blocks) + spec_block_bytes(id, payload) =~= spec_block_bytes(
            id,
            payload,
        ));
    } else {
        assert(blocks.push(x)[0] == blocks[0]);
        assert(blocks.push(x).drop_first() =~~= blocks.drop_first().push(x));
        lemma_blocks_bytes_push(blocks.drop_first(), id, payload);
        let head = spec_block_bytes(blocks[0].0, blocks[0].1);
        let mid = spec_blocks_bytes(blocks.drop_first());
        let tail = spec_block_bytes(id, payload);
        assert(spec_blocks_bytes(blocks.push(x)) == head + (mid + tail));
        assert(head + (mid + tail) =~= (head + mid) + tail);
    }
}

/// Parsing the serialisation of well-formed frames gives the frames back.
pub proof fn lemma_parse_frames_of_envelope(blocks: Seq<(u64, Seq<u8>)>)
    requires
        wf_frames(blocks),
    ensures
        spec_parse_frames(spec_envelope_bytes(blocks)) == Some(blocks),
    decreases blocks.len(),
{
    let b = spec_envelope_bytes(blocks);
    if blocks.len() == 0 {
        lemma_take_u64(Seq::empty(), SENTINEL_ID, Seq::empty());
        assert(Seq::<u8>::empty() + spec_u64_to_le_bytes(SENTINEL_ID) + Seq::<u8>::empty() =~= b);
    } else {
        let id = blocks[0].0;
        let payload = blocks[0].1;
        let rest = blocks.drop_first();
        assert(wf_frame(id, payload));
        let tail = spec_u32_to_le_bytes(payload.len() as u32) + payload + spec_envelope_bytes(rest);
        assert(b =~= Seq::<u8>::empty() + spec_u64_to_le_bytes(id) + tail);
        lemma_take_u64(Seq::empty(), id, tail);
        let p8 = spec_u64_to_le_bytes(id);
        assert(b =~= p8 + spec_u32_to_le_bytes(payload.len() as u32) + (payload
            + spec_envelope_bytes(rest))) by {
            lemma_auto_spec_u64_to_from_le_bytes();
        };
        lemma_take_u32(p8, payload.len() as u32, payload + spec_envelope_bytes(rest));
        lemma_auto_spec_u64_to_from_le_bytes();
        lemma_auto_spec_u32_to_from_le_bytes();
        let j = 12int;
        let skip = payload.len() as int;
        assert(b.len() == 12 + payload.len() + spec_envelope_bytes(rest).len());
        assert forall|k: int| 0 <= k < payload.len() implies b[j + k] == payload[k] by {
            assert(b[j + k] == spec_block_bytes(id, payload)[j + k]);
        };
        assert(b.subrange(j, j + skip) =~= payload);
        assert forall|k: int|
            0 <= k < spec_envelope_bytes(rest).len() implies b[j + skip + k] == spec_envelope_bytes(
            rest,
        )[k] by {};
        assert(b.skip(j + skip) =~= spec_envelope_bytes(rest));
        lemma_parse_frames_of_envelope(rest);
        assert(seq![(id, payload)] + rest =~= blocks);
    }
}

// ---------------------------------------------------------------------------
// Write side
// ---------------------------------------------------------------------------

/// Builds an outbound envelope. `begin_block` records the start offset and
/// writes a placeholder skip length; `end_block` backpatches the true skip
/// length computed from the cursor.
pub struct EnvelopeWriter {
    buf: Vec<u8>,
    open_at: Option<usize>,
    open_id: Ghost<u64>,
    blocks: Ghost<Seq<(u64, Seq<u8>)>>,
}

impl EnvelopeWriter {
    /// The blocks closed so far.
    pub closed spec fn blocks(&self) -> Seq<(u64, Seq<u8>)> {
        self.blocks@
    }

    pub closed spec fn is_closed(&self) -> bool {
        self.open_at is None
    }

    pub closed spec fn open_block_id(&self) -> u64 {
        self.open_id@
    }

    /// Payload written since the last `begin_block`.
    pub closed spec fn open_payload(&self) -> Seq<u8> {
        self.buf@.skip(self.open_at->0 as int + BLOCK_HEADER_BYTES as int)
    }

    pub closed spec fn wf(&self) -> bool {
        &&& wf_frames(self.blocks@)
        &&& match self.open_at {
            None => self.buf@ == spec_blocks_bytes(self.blocks@),
            Some(at) => {
                &&& at as int == spec_blocks_bytes(self.blocks@).len()
                &&& self.buf@.len() >= at + BLOCK_HEADER_BYTES
                &&& self.buf@.subrange(0, at as int) == spec_blocks_bytes(self.blocks@)
                &&& self.buf@.subrange(at as int, at as int + 8) == spec_u64_to_le_bytes(
                    self.open_id@,
                )
                &&& self.open_id@ != SENTINEL_ID
            },
        }
    }

    pub fn new() -> (r: Self)
        ensures
            r.wf(),
            r.is_closed(),
            r.blocks() == Seq::<(u64, Seq<u8>)>::empty(),
    {
        EnvelopeWriter {
            buf: Vec::new(),
            open_at: None,
            open_id: Ghost(0),
            blocks: Ghost(Seq::empty()),
        }
    }

    pub fn begin_block(&mut self, id: u64)
        requires
            old(self).wf(),
            old(self).is_closed(),
            id != SENTINEL_ID,
        ensures
            final(self).wf(),
            !final(self).is_closed(),
            final(self).open_block_id() == id,
            final(self).open_payload() == Seq::<u8>::empty(),
            final(self).blocks() == old(self).blocks(),
    {
        let at = self.buf.len();
        write_u64(&mut self.buf, id);
        write_u32(&mut self.buf, 0);
        self.open_at = Some(at);
        self.open_id = Ghost(id);
        proof {
            lemma_auto_spec_u64_to_from_le_bytes();
            lemma_auto_spec_u32_to_from_le_bytes();
            assert(self.buf@.subrange(0, at as int) =~= spec_blocks_bytes(self.blocks@));
            assert(self.buf@.subrange(at as int, at as int + 8) =~= spec_u64_to_le_bytes(id));
            assert(self.buf@.skip(at as int + 12) =~= Seq::<u8>::empty());
        }
    }

    pub fn write_u32(&mut self, v: u32)
        requires
            old(self).wf(),
            !old(self).is_closed(),
        ensures
            final(self).wf(),
            !final(self).is_closed(),
            final(self).open_block_id() == old(self).open_block_id(),
            final(self).blocks() == old(self).blocks(),
            final(self).open_payload() == old(self).open_payload() + spec_u32_to_le_bytes(v),
    {
        crate::codec::write_u32(&mut self.buf, v);
        proof {
            self.lemma_append_keeps_wf(old(self).buf@, spec_u32_to_le_bytes(v));
        }
    }

    pub fn write_u64(&mut self, v: u64)
        requires
            old(self).wf(),
            !old(self).is_closed(),
        ensures
            final(self).wf(),
            !final(self).is_closed(),
            final(self).open_block_id() == old(self).open_block_id(),
            final(self).blocks() == old(self).blocks(),
            final(self).open_payload() == old(self).open_payload() + spec_u64_to_le_bytes(v),
    {
        crate::codec::write_u64(&mut self.buf, v);
        proof {
            self.lemma_append_keeps_wf(old(self).buf@, spec_u64_to_le_bytes(v));
        }
    }

    pub fn write_bool(&mut self, v: bool)
        requires
            old(self).wf(),
            !old(self).is_closed(),
        ensures
            final(self).wf(),
            !final(self).is_closed(),
            final(self).open_block_id() == old(self).open_block_id(),
            final(self).blocks() == old(self).blocks(),
            final(self).open_payload() == old(self).open_payload() + spec_bool_to_bytes(v),
    {
        crate::codec::write_bool(&mut self.buf, v);
        proof {
            self.lemma_append_keeps_wf(old(self).buf@, spec_bool_to_bytes(v));
        }
    }

    pub fn write_i32(&mut self, v: i32)
        requires
            old(self).wf(),
            !old(self).is_closed(),
        ensures
            final(self).wf(),
            !final(self).is_closed(),
            final(self).open_block_id() == old(self).open_block_id(),
            final(self).blocks() == old(self).blocks(),
            final(self).open_payload() == old(self).open_payload() + spec_i32_to_bytes(v),
    {
        crate::codec::write_i32(&mut self.buf, v);
        proof {
            self.lemma_append_keeps_wf(old(self).buf@, spec_i32_to_bytes(v));
        }
    }

    pub fn write_blob(&mut self, data: &Vec<u8>)
        requires
            old(self).wf(),
            !old(self).is_closed(),
            data@.len() <= u32::MAX,
        ensures
            final(self).wf(),
            !final(self).is_closed(),
            final(self).open_block_id() == old(self).open_block_id(),
            final(self).blocks() == old(self).blocks(),
            final(self).open_payload() == old(self).open_payload() + spec_blob_to_bytes(data@),
    {
        crate::codec::write_blob(&mut self.buf, data);
        proof {
            self.lemma_append_keeps_wf(old(self).buf@, spec_blob_to_bytes(data@));
        }
    }

    pub fn write_string(&mut self, s: &str)
        requires
            old(self).wf(),
            !old(self).is_closed(),
            vstd::utf8::encode_utf8(s@).len() <= u32::MAX,
        ensures
            final(self).wf(),
            !final(self).is_closed(),
            final(self).open_block_id() == old(self).open_block_id(),
            final(self).blocks() == old(self).blocks(),
            final(self).open_payload() == old(self).open_payload() + spec_string_to_bytes(s@),
    {
        crate::codec::write_string(&mut self.buf, s);
        proof {
            self.lemma_append_keeps_wf(old(self).buf@, spec_string_to_bytes(s@));
        }
    }

    /// Appending payload bytes leaves the closed prefix and the open header
    /// untouched.
    proof fn lemma_append_keeps_wf(&self, prev: Seq<u8>, ext: Seq<u8>)
        requires
            !self.is_closed(),
            self.buf@ == prev + ext,
            prev.len() >= self.open_at->0 + BLOCK_HEADER_BYTES,
        ensures
            self.buf@.subrange(0, self.open_at->0 as int) == prev.subrange(
                0,
                self.open_at->0 as int,
            ),
            self.buf@.subrange(self.open_at->0 as int, self.open_at->0 as int + 8)
                == prev.subrange(self.open_at->0 as int, self.open_at->0 as int + 8),
            self.buf@.skip(self.open_at->0 as int + 12) == prev.skip(self.open_at->0 as int + 12)
                + ext,
    {
        let at = self.open_at->0 as int;
        assert(self.buf@.subrange(0, at) =~= prev.subrange(0, at));
        assert(self.buf@.subrange(at, at + 8) =~= prev.subrange(at, at + 8));
        assert(self.buf@.skip(at + 12) =~= prev.skip(at + 12) + ext);
    }

    /// Backpatches the skip length and closes the current block.
    pub fn end_block(&mut self)
        requires
            old(self).wf(),
            !old(self).is_closed(),
            old(self).open_payload().len() <= u32::MAX,
        ensures
            final(self).wf(),
            final(self).is_closed(),
            final(self).blocks() == old(self).blocks().push(
                (old(self).open_block_id(), old(self).open_payload()),
            ),
    {
        let at = match self.open_at {
            Some(a) => a,
            None => {
                proof {
                    assert(false);
                }
                0
            },
        };
        let skip_len = (self.buf.len() - at - 12) as u32;
        let len_bytes = u32_to_le_bytes(skip_len);
        let ghost prev = self.buf@;
        self.buf[at + 8] = len_bytes[0];
        self.buf[at + 9] = len_bytes[1];
        self.buf[at + 10] = len_bytes[2];
        self.buf[at + 11] = len_bytes[3];
        proof {
            let a = at as int;
            let id = self.open_id@;
            let payload = prev.skip(a + 12);
            assert(self.buf@ =~= prev.subrange(0, a + 8) + spec_u32_to_le_bytes(skip_len)
                + payload) by {
                lemma_auto_spec_u32_to_from_le_bytes();
            };
            lemma_blocks_bytes_push(self.blocks@, id, payload);
            assert(self.buf@ =~= spec_blocks_bytes(self.blocks@) + spec_block_bytes(id, payload))
                by {
                lemma_auto_spec_u64_to_from_le_bytes();
                lemma_auto_spec_u32_to_from_le_bytes();
                assert(prev.subrange(0, a + 8) =~= prev.subrange(0, a) + prev.subrange(a, a + 8));
            };
        }
        let ghost payload = prev.skip(at as int + 12);
        proof {
            self.blocks@ = self.blocks@.push((self.open_id@, payload));
        }
        self.open_at = None;
        proof {
            lemma_blocks_bytes_push(old(self).blocks@, old(self).open_id@, payload);
        }
    }

    /// Appends the sentinel and hands the finished envelope over.
    pub fn finish(self) -> (r: Vec<u8>)
        requires
            self.wf(),
            self.is_closed(),
        ensures
            r@ == spec_envelope_bytes(self.blocks()),
    {
        let EnvelopeWriter { mut buf, open_at: _, open_id: _, blocks } = self;
        write_u64(&mut buf, SENTINEL_ID);
        buf
    }
}

// ---------------------------------------------------------------------------
// Read side
// ---------------------------------------------------------------------------

/// Scans an inbound envelope. The cursor only ever moves forward; after any
/// block is fully processed — decoded or skipped — it sits exactly at the
/// next block's id field.
pub struct EnvelopeReader {
    data: Vec<u8>,
    pos: usize,
}

impl EnvelopeReader {
    pub closed spec fn data(&self) -> Seq<u8> {
        self.data@
    }

    pub closed spec fn pos(&self) -> int {
        self.pos as int
    }

    pub closed spec fn wf(&self) -> bool {
        self.pos <= self.data@.len()
    }

    /// The bytes not yet consumed.
    pub open spec fn remaining(&self) -> Seq<u8> {
        self.data().skip(self.pos())
    }

    pub fn new(data: Vec<u8>) -> (r: Self)
        ensures
            r.wf(),
            r.data() == data@,
            r.pos() == 0,
    {
        EnvelopeReader { data, pos: 0 }
    }

    pub fn read_u64(&mut self) -> (r: Result<u64, ProtocolError>)
        requires
            old(self).wf(),
        ensures
            final(self).wf(),
            final(self).data() == old(self).data(),
            match spec_take_u64(old(self).data(), old(self).pos()) {
                Some((v, j)) => r == Ok::<u64, ProtocolError>(v) && final(self).pos() == j,
                None => r == Err::<u64, ProtocolError>(ProtocolError::Truncated)
                    && final(self).pos() == old(self).pos(),
            },
    {
        take_u64(&self.data, &mut self.pos)
    }

    /// Returns the next block's id without consuming it.
    pub fn peek_id(&self) -> (r: Result<u64, ProtocolError>)
        requires
            self.wf(),
        ensures
            match spec_take_u64(self.data(), self.pos()) {
                Some((v, _)) => r == Ok::<u64, ProtocolError>(v),
                None => r == Err::<u64, ProtocolError>(ProtocolError::Truncated),
            },
    {
        let mut p = self.pos;
        take_u64(&self.data, &mut p)
    }

    /// True when the next id is the sentinel.
    pub fn was_last_block(&self) -> (r: Result<bool, ProtocolError>)
        requires
            self.wf(),
        ensures
            match spec_take_u64(self.data(), self.pos()) {
                Some((v, _)) => r == Ok::<bool, ProtocolError>(v == SENTINEL_ID),
                None => r == Err::<bool, ProtocolError>(ProtocolError::Truncated),
            },
    {
        match self.peek_id() {
            Ok(id) => Ok(id == SENTINEL_ID),
            Err(e) => Err(e),
        }
    }

    /// Reads the skip length and returns the absolute offset of the next
    /// block's id field. Fails with `Truncated` when the declared payload
    /// length exceeds the bytes available.
    pub fn read_block_skip(&mut self) -> (r: Result<usize, ProtocolError>)
        requires
            old(self).wf(),
        ensures
            final(self).wf(),
            final(self).data() == old(self).data(),
            match spec_take_u32(old(self).data(), old(self).pos()) {
                Some((skip, j)) => if j + skip <= old(self).data().len() {
                    r == Ok::<usize, ProtocolError>((j + skip) as usize) && final(self).pos() == j
                } else {
                    r == Err::<usize, ProtocolError>(ProtocolError::Truncated) && final(self).pos()
                        == old(self).pos()
                },
                None => r == Err::<usize, ProtocolError>(ProtocolError::Truncated)
                    && final(self).pos() == old(self).pos(),
            },
    {
        let saved = self.pos;
        match take_u32(&self.data, &mut self.pos) {
            Ok(skip) => {
                let skip = skip as usize;
                if skip <= self.data.len() && self.pos <= self.data.len() - skip {
                    Ok(self.pos + skip)
                } else {
                    self.pos = saved;
                    Err(ProtocolError::Truncated)
                }
            },
            Err(e) => Err(e),
        }
    }

    /// Copies out the bytes between the cursor and `resume`, leaving the
    /// cursor at `resume`.
    pub fn read_payload(&mut self, resume: usize) -> (r: Vec<u8>)
        requires
            old(self).wf(),
            old(self).pos() <= resume <= old(self).data().len(),
        ensures
            final(self).wf(),
            final(self).data() == old(self).data(),
            final(self).pos() == resume,
            r@ == old(self).data().subrange(old(self).pos(), resume as int),
    {
        let s = slice_subrange(self.data.as_slice(), self.pos, resume);
        let payload = slice_to_vec(s);
        self.pos = resume;
        payload
    }

    /// Advances the cursor past the current block, to `resume` as returned by
    /// `read_block_skip`, whether or not the payload was parsed.
    pub fn block_skip(&mut self, resume: usize)
        requires
            old(self).wf(),
            old(self).pos() <= resume <= old(self).data().len(),
        ensures
            final(self).wf(),
            final(self).data() == old(self).data(),
            final(self).pos() == resume,
    {
        self.pos = resume;
    }

    /// A well-formed reader's cursor never passes the end of its buffer.
    pub proof fn lemma_wf_bounds(&self)
        requires
            self.wf(),
        ensures
            0 <= self.pos() <= self.data().len(),
    {
    }

    /// The buffer behind the reader is a real vector, so its length is
    /// machine-bounded.
    pub proof fn lemma_len_bound(&self)
        ensures
            self.data().len() <= usize::MAX,
    {
        broadcast use vstd::std_specs::vec::axiom_spec_len;

        assert(vstd::std_specs::vec::spec_vec_len(&self.data) == self.data@.len());
    }

    /// Scans the whole envelope without decoding any payload: for an envelope
    /// of N blocks, exactly N skip operations advance the cursor to the
    /// sentinel.
    pub fn skip_all_blocks(&mut self) -> (r: Result<usize, ProtocolError>)
        requires
            old(self).wf(),
        ensures
            final(self).wf(),
            final(self).data() == old(self).data(),
            match spec_parse_frames(old(self).remaining()) {
                Some(frames) => r == Ok::<usize, ProtocolError>(frames.len() as usize) && (
                spec_take_u64(final(self).data(), final(self).pos()) matches Some((id, _))
                    && id == SENTINEL_ID),
                None => r == Err::<usize, ProtocolError>(ProtocolError::Truncated),
            },
    {
        let ghost frames0 = spec_parse_frames(old(self).remaining());
        let mut count: usize = 0;
        loop
            invariant
                self.wf(),
                self.data() == old(self).data(),
                old(self).pos() <= self.pos(),
                12 * count <= self.pos() - old(self).pos(),
                frames0 == spec_parse_frames(old(self).remaining()),
                match frames0 {
                    Some(frames) => count <= frames.len() && spec_parse_frames(self.remaining())
                        == Some(frames.skip(count as int)),
                    None => spec_parse_frames(self.remaining()) is None,
                },
            decreases self.data().len() - self.pos(),
        {
            let ghost pos_before = self.pos();
            let ghost b = self.data().skip(pos_before);
            proof {
                lemma_parse_step(self.data(), pos_before);
                if frames0 is Some {
                    assert(spec_parse_frames(b) == Some(frames0->0.skip(count as int)));
                    if spec_take_u64(b, 0) is None {
                        assert(spec_parse_frames(b) is None);
                        assert(false);
                    }
                }
            }
            let id = match self.peek_id() {
                Ok(v) => v,
                Err(e) => {
                    return Err(e);
                },
            };
            if id == SENTINEL_ID {
                proof {
                    if frames0 is Some {
                        assert(spec_parse_frames(b) == Some(Seq::<(u64, Seq<u8>)>::empty()));
                        assert(frames0->0.skip(count as int) =~~= Seq::<(u64, Seq<u8>)>::empty());
                        assert(count == frames0->0.len());
                    }
                }
                return Ok(count);
            }
            proof {
                if frames0 is Some {
                    if spec_take_u32(b, 8) is None {
                        assert(spec_parse_frames(b) is None);
                        assert(false);
                    }
                    let skip = spec_take_u32(b, 8)->Some_0.0 as int;
                    if 12 + skip > b.len() {
                        assert(spec_parse_frames(b) is None);
                        assert(false);
                    }
                }
            }
            let _ = match self.read_u64() {
                Ok(v) => v,
                Err(e) => {
                    return Err(e);
                },
            };
            let resume = match self.read_block_skip() {
                Ok(v) => v,
                Err(e) => {
                    return Err(e);
                },
            };
            proof {
                broadcast use vstd::std_specs::vec::axiom_spec_len;

                assert(vstd::std_specs::vec::spec_vec_len(&self.data) == self.data@.len());
                assert(self.data@.len() <= usize::MAX);
                assert(self.pos() == pos_before + 12);
                assert(spec_take_u32(self.data(), pos_before + 8) is Some);
                assert(resume == pos_before + 12 + spec_take_u32(
                    self.data(),
                    pos_before + 8,
                )->Some_0.0);
                assert(pos_before + 12 <= resume <= self.data().len());
            }
            self.block_skip(resume);
            proof {
                if frames0 is Some {
                    let fs = frames0->0;
                    let g = fs.skip(count as int);
                    let skip = resume - pos_before - 12;
                    if spec_parse_frames(b.skip(12 + skip)) is None {
                        assert(spec_parse_frames(b) is None);
                        assert(false);
                    }
                    let rest = spec_parse_frames(b.skip(12 + skip))->Some_0;
                    assert(spec_parse_frames(b) == Some(
                        seq![(id, b.subrange(12, 12 + skip))] + rest,
                    ));
                    assert(g == seq![(id, b.subrange(12, 12 + skip))] + rest);
                    assert(g.len() >= 1);
                    assert(count < fs.len());
                    assert(g.drop_first() =~~= rest);
                    assert(self.remaining() =~= b.skip(12 + skip));
                    assert(fs.skip(count as int + 1) =~~= g.drop_first());
                    assert(spec_parse_frames(self.remaining()) == Some(fs.skip(count as int + 1)));
                }
            }
            count = count + 1;
        }
    }
}

/// Relates one parse step to the reads the scanner makes at position `p`.
pub proof fn lemma_parse_step(data: Seq<u8>, p: int)
    requires
        0 <= p <= data.len(),
    ensures
        ({
            let b = data.skip(p);
            &&& (match spec_take_u64(b, 0) {
                Some((v, _)) => spec_take_u64(data, p) == Some((v, p + 8)),
                None => spec_take_u64(data, p) is None,
            })
            &&& (match spec_take_u32(b, 8) {
                Some((v, _)) => spec_take_u32(data, p + 8) == Some((v, p + 12)),
                None => spec_take_u32(data, p + 8) is None,
            })
            &&& forall|m: int|
                12 <= m <= b.len() ==> #[trigger] b.skip(m) =~= data.skip(p + m)
            &&& forall|m: int|
                12 <= m <= b.len() ==> #[trigger] b.subrange(12, m) =~= data.subrange(
                    p + 12,
                    p + m,
                )
        }),
{
    let b = data.skip(p);
    if spec_take_u64(b, 0) is Some {
        assert(b.subrange(0, 8) =~= data.subrange(p, p + 8));
    }
    if spec_take_u32(b, 8) is Some {
        assert(b.subrange(8, 12) =~= data.subrange(p + 8, p + 12));
    }
}

} // verus!
