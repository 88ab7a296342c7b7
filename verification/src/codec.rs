//! Binary message codec: length-prefixed fields in a flat byte buffer.
//!
//! A frame is a concatenation of fields.  Each field is a four-byte
//! little-endian length prefix followed by that many payload bytes.
//! String fields carry the UTF-8 encoding of their text.

use vstd::prelude::*;
use vstd::slice::{slice_subrange, slice_to_vec};
use vstd::utf8::{decode_utf8, valid_utf8};

verus! {

/// The value of a four-byte little-endian length prefix.
pub open spec fn le32_value(b: Seq<u8>) -> int
    recommends
        b.len() == 4,
{
    b[0] + 256 * b[1] + 65536 * b[2] + 16777216 * b[3]
}

/// The four-byte little-endian encoding of a length.
pub open spec fn le32_bytes(n: int) -> Seq<u8>
    recommends
        0 <= n <= u32::MAX,
{
    seq![
        (n % 256) as u8,
        ((n / 256) % 256) as u8,
        ((n / 65536) % 256) as u8,
        ((n / 16777216) % 256) as u8,
    ]
}

/// A length prefix encodes exactly the length it was built from.
pub proof fn lemma_le32_round_trip(n: int)
    requires
        0 <= n <= u32::MAX,
    ensures
        le32_value(le32_bytes(n)) == n,
{
    assert(le32_value(le32_bytes(n)) == n) by (nonlinear_arith)
        requires 0 <= n <= u32::MAX;
}

/// One encoded field: the length prefix, then the payload.
pub open spec fn lp_bytes(payload: Seq<u8>) -> Seq<u8> {
    le32_bytes(payload.len() as int) + payload
}

/// Whether a complete field lies at `pos` in `buf`.
pub open spec fn field_ok(buf: Seq<u8>, pos: int) -> bool {
    &&& 0 <= pos
    &&& pos + 4 <= buf.len()
    &&& pos + 4 + le32_value(buf.subrange(pos, pos + 4)) <= buf.len()
}

/// The payload of the field at `pos`.
pub open spec fn field_payload(buf: Seq<u8>, pos: int) -> Seq<u8> {
    buf.subrange(pos + 4, pos + 4 + le32_value(buf.subrange(pos, pos + 4)))
}

/// The position just past the field at `pos`.
pub open spec fn field_end(buf: Seq<u8>, pos: int) -> int {
    pos + 4 + le32_value(buf.subrange(pos, pos + 4))
}

/// Appends one length-prefixed field to a frame under construction.
pub fn write_field(out: &mut Vec<u8>, payload: &[u8])
    requires
        payload@.len() <= u32::MAX,
    ensures
        final(out)@ == old(out)@ + lp_bytes(payload@),
{
    let n: u32 = payload.len() as u32;
    out.push((n % 256) as u8);
    out.push(((n / 256) % 256) as u8);
    out.push(((n / 65536) % 256) as u8);
    out.push(((n / 16777216) % 256) as u8);
    let ghost with_prefix = out@;
    assert(with_prefix =~= old(out)@ + le32_bytes(payload@.len() as int));
    let mut i: usize = 0;
    while i < payload.len()
        invariant
            i <= payload@.len(),
            out@ == with_prefix + payload@.subrange(0, i as int),
        decreases payload@.len() - i,
    {
        out.push(payload[i]);
        assert(out@ =~= with_prefix + payload@.subrange(0, i + 1));
        i = i + 1;
    }
    assert(payload@.subrange(0, payload@.len() as int) =~= payload@);
    assert(out@ =~= old(out)@ + lp_bytes(payload@));
}

/// Reads one length-prefixed field at the cursor, advancing it past the
/// field on success and leaving it unchanged when the buffer is too short.
pub fn read_field(buf: &Vec<u8>, pos: &mut usize) -> (r: Option<Vec<u8>>)
    ensures
        match r {
            Some(f) => {
                &&& field_ok(buf@, *old(pos) as int)
                &&& f@ == field_payload(buf@, *old(pos) as int)
                &&& *final(pos) == field_end(buf@, *old(pos) as int)
            },
            None => !field_ok(buf@, *old(pos) as int) && *final(pos) == *old(pos),
        },
{
    let p = *pos;
    if buf.len() < 4 || p > buf.len() - 4 {
        return None;
    }
    let b0 = buf[p] as u32;
    let b1 = buf[p + 1] as u32;
    let b2 = buf[p + 2] as u32;
    let b3 = buf[p + 3] as u32;
    let len: u32 = b0 + 256 * b1 + 65536 * b2 + 16777216 * b3;
    assert(buf@.subrange(p as int, p + 4)[0] == buf@[p as int]);
    assert(buf@.subrange(p as int, p + 4)[1] == buf@[p + 1]);
    assert(buf@.subrange(p as int, p + 4)[2] == buf@[p + 2]);
    assert(buf@.subrange(p as int, p + 4)[3] == buf@[p + 3]);
    assert(len == le32_value(buf@.subrange(p as int, p + 4)));
    let len_us = len as usize;
    if len_us > buf.len() - (p + 4) {
        return None;
    }
    let f = slice_to_vec(slice_subrange(buf.as_slice(), p + 4, p + 4 + len_us));
    *pos = p + 4 + len_us;
    Some(f)
}

/// Whether the field at `pos` holds valid UTF-8 text.
pub open spec fn str_field_ok(buf: Seq<u8>, pos: int) -> bool {
    field_ok(buf, pos) && valid_utf8(field_payload(buf, pos))
}

/// The text of the string field at `pos`.
pub open spec fn str_field(buf: Seq<u8>, pos: int) -> Seq<char> {
    decode_utf8(field_payload(buf, pos))
}

/// Relies on core::str::from_utf8: it returns `Ok` exactly on valid UTF-8
/// input, and the characters of the parsed text are the UTF-8 decoding of
/// the bytes.
#[verifier::external_body]
fn utf8_to_string(bytes: &[u8]) -> (r: Option<String>)
    ensures
        r is Some <==> valid_utf8(bytes@),
        r matches Some(s) ==> s@ == decode_utf8(bytes@),
{
    match core::str::from_utf8(bytes) {
        Ok(s) => Some(s.to_string()),
        Err(_) => None,
    }
}

/// Reads one string field at the cursor.  On any failure (buffer too
/// short, or payload not UTF-8) the cursor is left unchanged.
pub fn read_str_field(buf: &Vec<u8>, pos: &mut usize) -> (r: Option<String>)
    ensures
        match r {
            Some(s) => {
                &&& str_field_ok(buf@, *old(pos) as int)
                &&& s@ == str_field(buf@, *old(pos) as int)
                &&& *final(pos) == field_end(buf@, *old(pos) as int)
            },
            None => !str_field_ok(buf@, *old(pos) as int) && *final(pos) == *old(pos),
        },
{
    let p = *pos;
    match read_field(buf, pos) {
        None => None,
        Some(f) => match utf8_to_string(f.as_slice()) {
            None => {
                *pos = p;
                None
            },
            Some(s) => Some(s),
        },
    }
}

/// Appends one string field: the UTF-8 bytes of `s`, length-prefixed.
pub fn write_str_field(out: &mut Vec<u8>, s: &str)
    requires
        vstd::utf8::encode_utf8(s@).len() <= u32::MAX,
    ensures
        final(out)@ == old(out)@ + str_lp(s@),
{
    write_field(out, s.as_bytes());
}

/// One encoded string field.
pub open spec fn str_lp(s: Seq<char>) -> Seq<u8> {
    lp_bytes(vstd::utf8::encode_utf8(s))
}

/// A field written after `front` parses back to its own payload, whatever
/// bytes follow it.
pub proof fn lemma_lp_parses(front: Seq<u8>, p: Seq<u8>, rest: Seq<u8>)
    requires
        p.len() <= u32::MAX,
    ensures
        field_ok(front + lp_bytes(p) + rest, front.len() as int),
        field_payload(front + lp_bytes(p) + rest, front.len() as int) == p,
        field_end(front + lp_bytes(p) + rest, front.len() as int) == front.len() + 4 + p.len(),
{
    let buf = front + lp_bytes(p) + rest;
    let pos = front.len() as int;
    assert(buf.subrange(pos, pos + 4) =~= le32_bytes(p.len() as int));
    lemma_le32_round_trip(p.len() as int);
    assert(buf.subrange(pos + 4, pos + 4 + p.len()) =~= p);
}

/// A string field written after `front` parses back to its own text,
/// whatever bytes follow it.
pub proof fn lemma_str_lp_parses(front: Seq<u8>, s: Seq<char>, rest: Seq<u8>)
    requires
        vstd::utf8::encode_utf8(s).len() <= u32::MAX,
    ensures
        str_field_ok(front + str_lp(s) + rest, front.len() as int),
        str_field(front + str_lp(s) + rest, front.len() as int) == s,
        field_end(front + str_lp(s) + rest, front.len() as int) == front.len() + 4
            + vstd::utf8::encode_utf8(s).len(),
{
    broadcast use vstd::utf8::encode_utf8_valid_utf8, vstd::utf8::encode_utf8_decode_utf8;

    lemma_lp_parses(front, vstd::utf8::encode_utf8(s), rest);
}

/// One encoded number field: a field whose four payload bytes are a
/// little-endian number (used for the length of a list of strings).
pub open spec fn u32_lp(n: int) -> Seq<u8> {
    lp_bytes(le32_bytes(n))
}

/// Whether the field at `pos` is a four-byte number field.
pub open spec fn u32_field_ok(buf: Seq<u8>, pos: int) -> bool {
    field_ok(buf, pos) && field_payload(buf, pos).len() == 4
}

/// The value of the number field at `pos`.
pub open spec fn u32_field(buf: Seq<u8>, pos: int) -> int {
    le32_value(field_payload(buf, pos))
}

/// Appends one number field.
pub fn write_u32_field(out: &mut Vec<u8>, n: u32)
    ensures
        final(out)@ == old(out)@ + u32_lp(n as int),
{
    let mut payload: Vec<u8> = Vec::new();
    payload.push((n % 256) as u8);
    payload.push(((n / 256) % 256) as u8);
    payload.push(((n / 65536) % 256) as u8);
    payload.push(((n / 16777216) % 256) as u8);
    assert(payload@ =~= le32_bytes(n as int));
    write_field(out, payload.as_slice());
}

/// Reads one number field at the cursor.  On any failure (buffer too
/// short, or a payload that is not four bytes) the cursor is unchanged.
pub fn read_u32_field(buf: &Vec<u8>, pos: &mut usize) -> (r: Option<u32>)
    ensures
        match r {
            Some(v) => {
                &&& u32_field_ok(buf@, *old(pos) as int)
                &&& v as int == u32_field(buf@, *old(pos) as int)
                &&& *final(pos) == field_end(buf@, *old(pos) as int)
            },
            None => !u32_field_ok(buf@, *old(pos) as int) && *final(pos) == *old(pos),
        },
{
    let p = *pos;
    match read_field(buf, pos) {
        None => None,
        Some(f) => {
            if f.len() != 4 {
                *pos = p;
                None
            } else {
                let b0 = f[0] as u32;
                let b1 = f[1] as u32;
                let b2 = f[2] as u32;
                let b3 = f[3] as u32;
                Some(b0 + 256 * b1 + 65536 * b2 + 16777216 * b3)
            }
        },
    }
}

/// Any field payload is short enough to sit behind a length prefix
/// again: its length came out of one.
pub proof fn lemma_field_payload_bounded(buf: Seq<u8>, pos: int)
    requires
        field_ok(buf, pos),
    ensures
        field_payload(buf, pos).len() <= u32::MAX,
{
    let b = buf.subrange(pos, pos + 4);
    assert(b[0] <= 255 && b[1] <= 255 && b[2] <= 255 && b[3] <= 255);
}

/// The text of any string field re-encodes to at most a length
/// prefix's worth of bytes.
pub proof fn lemma_str_field_bounded(buf: Seq<u8>, pos: int)
    requires
        str_field_ok(buf, pos),
    ensures
        vstd::utf8::encode_utf8(str_field(buf, pos)).len() <= u32::MAX,
{
    vstd::utf8::decode_utf8_encode_utf8(field_payload(buf, pos));
    lemma_field_payload_bounded(buf, pos);
}

/// A number field written after `front` parses back to its own value,
/// whatever bytes follow it.
#[verifier::rlimit(100)]
pub proof fn lemma_u32_lp_parses(front: Seq<u8>, n: int, rest: Seq<u8>)
    requires
        0 <= n <= u32::MAX,
    ensures
        u32_field_ok(front + u32_lp(n) + rest, front.len() as int),
        u32_field(front + u32_lp(n) + rest, front.len() as int) == n,
        field_end(front + u32_lp(n) + rest, front.len() as int) == front.len() + 8,
{
    lemma_lp_parses(front, le32_bytes(n), rest);
    assert(le32_bytes(n).len() == 4);
    assert(field_payload(front + u32_lp(n) + rest, front.len() as int) == le32_bytes(n));
    lemma_le32_round_trip(n);
}

} // verus!
