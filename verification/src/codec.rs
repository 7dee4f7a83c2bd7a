//! Wire buffer codec: sequential little-endian readers and writers for the
//! primitive scalar kinds, length-prefixed byte blobs and length-prefixed
//! UTF-8 strings.
//!
//! The read side is expressed twice: once as spec-level `spec_take_*`
//! combinators over a byte sequence and a cursor, and once as executable
//! functions proved equivalent to them. Every write appends
//! `spec_*_bytes(value)` to the buffer, and each `lemma_take_*` states that
//! reading back what was written yields the value again.

use vstd::bytes::*;
use vstd::prelude::*;
use vstd::slice::*;
use vstd::utf8::*;

use crate::protocol::ProtocolError;

verus! {

/// Offset added to an `i32` before it travels as a `u32`, so that signed
/// scalars need no bit-level reasoning on either side.
pub const I32_WIRE_BIAS: u64 = 0x8000_0000;

// ---------------------------------------------------------------------------
// Spec-level encoders
// ---------------------------------------------------------------------------

pub open spec fn spec_bool_to_bytes(v: bool) -> Seq<u8> {
    spec_u32_to_le_bytes(if v { 1u32 } else { 0u32 })
}

pub open spec fn spec_i32_to_bytes(v: i32) -> Seq<u8> {
    spec_u32_to_le_bytes((v as int + I32_WIRE_BIAS) as u32)
}

pub open spec fn spec_blob_to_bytes(b: Seq<u8>) -> Seq<u8>
    recommends
        b.len() <= u32::MAX,
{
    spec_u32_to_le_bytes(b.len() as u32) + b
}

pub open spec fn spec_string_to_bytes(s: Seq<char>) -> Seq<u8>
    recommends
        encode_utf8(s).len() <= u32::MAX,
{
    spec_blob_to_bytes(encode_utf8(s))
}

// ---------------------------------------------------------------------------
// Spec-level readers: each takes the buffer and a cursor and returns the
// decoded value together with the cursor after the read, or `None` when fewer
// bytes remain than the read requires.
// ---------------------------------------------------------------------------

pub open spec fn spec_take_u32(b: Seq<u8>, i: int) -> Option<(u32, int)> {
    if 0 <= i && i + 4 <= b.len() {
        Some((spec_u32_from_le_bytes(b.subrange(i, i + 4)), i + 4))
    } else {
        None
    }
}

pub open spec fn spec_take_u64(b: Seq<u8>, i: int) -> Option<(u64, int)> {
    if 0 <= i && i + 8 <= b.len() {
        Some((spec_u64_from_le_bytes(b.subrange(i, i + 8)), i + 8))
    } else {
        None
    }
}

pub open spec fn spec_take_bool(b: Seq<u8>, i: int) -> Option<(bool, int)> {
    match spec_take_u32(b, i) {
        Some((v, j)) => Some((v != 0, j)),
        None => None,
    }
}

pub open spec fn spec_take_i32(b: Seq<u8>, i: int) -> Option<(i32, int)> {
    match spec_take_u32(b, i) {
        Some((v, j)) => Some(((v as int - I32_WIRE_BIAS) as i32, j)),
        None => None,
    }
}

pub open spec fn spec_take_blob(b: Seq<u8>, i: int) -> Option<(Seq<u8>, int)> {
    match spec_take_u32(b, i) {
        Some((n, j)) => if j + n <= b.len() {
            Some((b.subrange(j, j + n), j + n))
        } else {
            None
        },
        None => None,
    }
}

pub open spec fn spec_take_string(b: Seq<u8>, i: int) -> Option<(Seq<char>, int)> {
    match spec_take_blob(b, i) {
        Some((bytes, j)) => if valid_utf8(bytes) {
            Some((decode_utf8(bytes), j))
        } else {
            None
        },
        None => None,
    }
}

// ---------------------------------------------------------------------------
// Round-trip lemmas: reading at the boundary of `prefix` in
// `prefix + encoding + rest` yields the encoded value and leaves the cursor
// at the start of `rest`.
// ---------------------------------------------------------------------------

pub proof fn lemma_take_u32(prefix: Seq<u8>, v: u32, rest: Seq<u8>)
    ensures
        spec_take_u32(prefix + spec_u32_to_le_bytes(v) + rest, prefix.len() as int) == Some(
            (v, prefix.len() as int + 4),
        ),
{
    lemma_auto_spec_u32_to_from_le_bytes();
    let b = prefix + spec_u32_to_le_bytes(v) + rest;
    assert(b.subrange(prefix.len() as int, prefix.len() as int + 4) =~= spec_u32_to_le_bytes(v));
}

pub proof fn lemma_take_u64(prefix: Seq<u8>, v: u64, rest: Seq<u8>)
    ensures
        spec_take_u64(prefix + spec_u64_to_le_bytes(v) + rest, prefix.len() as int) == Some(
            (v, prefix.len() as int + 8),
        ),
{
    lemma_auto_spec_u64_to_from_le_bytes();
    let b = prefix + spec_u64_to_le_bytes(v) + rest;
    assert(b.subrange(prefix.len() as int, prefix.len() as int + 8) =~= spec_u64_to_le_bytes(v));
}

pub proof fn lemma_take_bool(prefix: Seq<u8>, v: bool, rest: Seq<u8>)
    ensures
        spec_take_bool(prefix + spec_bool_to_bytes(v) + rest, prefix.len() as int) == Some(
            (v, prefix.len() as int + 4),
        ),
{
    lemma_take_u32(prefix, if v { 1u32 } else { 0u32 }, rest);
}

pub proof fn lemma_take_i32(prefix: Seq<u8>, v: i32, rest: Seq<u8>)
    ensures
        spec_take_i32(prefix + spec_i32_to_bytes(v) + rest, prefix.len() as int) == Some(
            (v, prefix.len() as int + 4),
        ),
{
    let w = (v as int + I32_WIRE_BIAS) as u32;
    lemma_take_u32(prefix, w, rest);
}

pub proof fn lemma_take_blob(prefix: Seq<u8>, data: Seq<u8>, rest: Seq<u8>)
    requires
        data.len() <= u32::MAX,
    ensures
        spec_take_blob(prefix + spec_blob_to_bytes(data) + rest, prefix.len() as int) == Some(
            (data, prefix.len() as int + 4 + data.len()),
        ),
{
    let b = prefix + spec_blob_to_bytes(data) + rest;
    let p = prefix.len() as int;
    assert(b =~= prefix + spec_u32_to_le_bytes(data.len() as u32) + (data + rest));
    lemma_take_u32(prefix, data.len() as u32, data + rest);
    assert(spec_u32_to_le_bytes(data.len() as u32).len() == 4) by {
        lemma_auto_spec_u32_to_from_le_bytes();
    };
    assert forall|k: int| 0 <= k < data.len() implies b[p + 4 + k] == data[k] by {
        assert(b[p + 4 + k] == spec_blob_to_bytes(data)[4 + k]);
    };
    assert(b.subrange(p + 4, p + 4 + data.len()) =~= data);
}

pub proof fn lemma_take_string(prefix: Seq<u8>, s: Seq<char>, rest: Seq<u8>)
    requires
        encode_utf8(s).len() <= u32::MAX,
    ensures
        spec_take_string(prefix + spec_string_to_bytes(s) + rest, prefix.len() as int) == Some(
            (s, prefix.len() as int + 4 + encode_utf8(s).len()),
        ),
{
    broadcast use encode_utf8_valid_utf8, encode_utf8_decode_utf8;

    lemma_take_blob(prefix, encode_utf8(s), rest);
}

// ---------------------------------------------------------------------------
// Executable writers: each appends the spec encoding of the value.
// ---------------------------------------------------------------------------

pub fn write_u32(out: &mut Vec<u8>, v: u32)
    ensures
        final(out)@ == old(out)@ + spec_u32_to_le_bytes(v),
{
    let mut bs = u32_to_le_bytes(v);
    out.append(&mut bs);
}

pub fn write_u64(out: &mut Vec<u8>, v: u64)
    ensures
        final(out)@ == old(out)@ + spec_u64_to_le_bytes(v),
{
    let mut bs = u64_to_le_bytes(v);
    out.append(&mut bs);
}

pub fn write_bool(out: &mut Vec<u8>, v: bool)
    ensures
        final(out)@ == old(out)@ + spec_bool_to_bytes(v),
{
    write_u32(out, if v { 1 } else { 0 });
}

pub fn write_i32(out: &mut Vec<u8>, v: i32)
    ensures
        final(out)@ == old(out)@ + spec_i32_to_bytes(v),
{
    let w = ((v as i64) + (I32_WIRE_BIAS as i64)) as u32;
    write_u32(out, w);
}

pub fn write_blob(out: &mut Vec<u8>, data: &Vec<u8>)
    requires
        data@.len() <= u32::MAX,
    ensures
        final(out)@ == old(out)@ + spec_blob_to_bytes(data@),
{
    write_u32(out, data.len() as u32);
    let mut copy = slice_to_vec(data.as_slice());
    out.append(&mut copy);
    assert(out@ =~= old(out)@ + spec_blob_to_bytes(data@));
}

pub fn write_string(out: &mut Vec<u8>, s: &str)
    requires
        encode_utf8(s@).len() <= u32::MAX,
    ensures
        final(out)@ == old(out)@ + spec_string_to_bytes(s@),
{
    let bytes = s.as_bytes_vec();
    write_blob(out, &bytes);
}

// ---------------------------------------------------------------------------
// Executable readers: each advances the cursor exactly as its spec-level
// counterpart does, and fails with `Truncated` exactly when it does.
// ---------------------------------------------------------------------------

pub fn take_u32(b: &Vec<u8>, pos: &mut usize) -> (r: Result<u32, ProtocolError>)
    ensures
        match spec_take_u32(b@, *old(pos) as int) {
            Some((v, j)) => r == Ok::<u32, ProtocolError>(v) && *final(pos) == j,
            None => r == Err::<u32, ProtocolError>(ProtocolError::Truncated) && *final(pos) == *old(
                pos,
            ),
        },
{
    if b.len() >= 4 && *pos <= b.len() - 4 {
        let s = slice_subrange(b.as_slice(), *pos, *pos + 4);
        let v = u32_from_le_bytes(s);
        *pos = *pos + 4;
        Ok(v)
    } else {
        Err(ProtocolError::Truncated)
    }
}

pub fn take_u64(b: &Vec<u8>, pos: &mut usize) -> (r: Result<u64, ProtocolError>)
    ensures
        match spec_take_u64(b@, *old(pos) as int) {
            Some((v, j)) => r == Ok::<u64, ProtocolError>(v) && *final(pos) == j,
            None => r == Err::<u64, ProtocolError>(ProtocolError::Truncated) && *final(pos) == *old(
                pos,
            ),
        },
{
    if b.len() >= 8 && *pos <= b.len() - 8 {
        let s = slice_subrange(b.as_slice(), *pos, *pos + 8);
        let v = u64_from_le_bytes(s);
        *pos = *pos + 8;
        Ok(v)
    } else {
        Err(ProtocolError::Truncated)
    }
}

pub fn take_bool(b: &Vec<u8>, pos: &mut usize) -> (r: Result<bool, ProtocolError>)
    ensures
        match spec_take_bool(b@, *old(pos) as int) {
            Some((v, j)) => r == Ok::<bool, ProtocolError>(v) && *final(pos) == j,
            None => r == Err::<bool, ProtocolError>(ProtocolError::Truncated) && *final(pos)
                == *old(pos),
        },
{
    match take_u32(b, pos) {
        Ok(v) => Ok(v != 0),
        Err(e) => Err(e),
    }
}

pub fn take_i32(b: &Vec<u8>, pos: &mut usize) -> (r: Result<i32, ProtocolError>)
    ensures
        match spec_take_i32(b@, *old(pos) as int) {
            Some((v, j)) => r == Ok::<i32, ProtocolError>(v) && *final(pos) == j,
            None => r == Err::<i32, ProtocolError>(ProtocolError::Truncated) && *final(pos) == *old(
                pos,
            ),
        },
{
    match take_u32(b, pos) {
        Ok(w) => {
            let v = ((w as i64) - (I32_WIRE_BIAS as i64)) as i32;
            Ok(v)
        },
        Err(e) => Err(e),
    }
}

pub fn take_blob(b: &Vec<u8>, pos: &mut usize) -> (r: Result<Vec<u8>, ProtocolError>)
    ensures
        match spec_take_blob(b@, *old(pos) as int) {
            Some((data, j)) => r is Ok && r.unwrap()@ == data && *final(pos) == j,
            None => r == Err::<Vec<u8>, ProtocolError>(ProtocolError::Truncated) && *final(pos)
                == *old(pos),
        },
{
    let saved = *pos;
    match take_u32(b, pos) {
        Ok(n) => {
            let n = n as usize;
            if n <= b.len() && *pos <= b.len() - n {
                let s = slice_subrange(b.as_slice(), *pos, *pos + n);
                let data = slice_to_vec(s);
                *pos = *pos + n;
                Ok(data)
            } else {
                *pos = saved;
                Err(ProtocolError::Truncated)
            }
        },
        Err(e) => Err(e),
    }
}

/// Relies on `String::from_utf8` from std: it succeeds exactly on the byte
/// sequences that are valid UTF-8, and then returns the string those bytes
/// encode.
#[verifier::external_body]
fn string_from_utf8(bytes: Vec<u8>) -> (r: Option<String>)
    ensures
        match r {
            Some(s) => valid_utf8(bytes@) && s@ == decode_utf8(bytes@),
            None => !valid_utf8(bytes@),
        },
{
    match String::from_utf8(bytes) {
        Ok(s) => Some(s),
        Err(_) => None,
    }
}

pub fn take_string(b: &Vec<u8>, pos: &mut usize) -> (r: Result<String, ProtocolError>)
    ensures
        match spec_take_string(b@, *old(pos) as int) {
            Some((s, j)) => r is Ok && r.unwrap()@ == s && *final(pos) == j,
            None => r is Err && *final(pos) == *old(pos),
        },
        r is Err ==> r == Err::<String, ProtocolError>(ProtocolError::Truncated),
{
    let saved = *pos;
    match take_blob(b, pos) {
        Ok(data) => {
            match string_from_utf8(data) {
                Some(s) => Ok(s),
                None => {
                    *pos = saved;
                    Err(ProtocolError::Truncated)
                },
            }
        },
        Err(e) => Err(e),
    }
}

} // verus!
