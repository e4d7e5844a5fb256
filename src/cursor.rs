//! Pagination cursors: the last-seen sort key and primary key, as an opaque
//! sixteen-byte token (both numbers big-endian).

use vstd::prelude::*;

verus! {

#[derive(Clone, Copy, Debug, PartialEq, Eq, Structural)]
pub struct Cursor {
    /// Sort key of the last row of the page.
    pub key: i64,
    /// Primary key of that row; breaks ties between equal sort keys.
    pub id: u64,
}

pub open spec fn byte_at(v: u64, shift: u64) -> u8 {
    ((v >> shift) & 0xff) as u8
}

/// The eight bytes of `v`, most significant first.
pub open spec fn be_bytes(v: u64) -> Seq<u8> {
    seq![
        byte_at(v, 56),
        byte_at(v, 48),
        byte_at(v, 40),
        byte_at(v, 32),
        byte_at(v, 24),
        byte_at(v, 16),
        byte_at(v, 8),
        byte_at(v, 0),
    ]
}

/// The number whose big-endian bytes are `b[at..at + 8]`.
pub open spec fn be_value(b: Seq<u8>, at: int) -> u64 {
    (b[at] as u64) << 56u64 | (b[at + 1] as u64) << 48u64 | (b[at + 2] as u64) << 40u64 | (b[at + 3] as u64)
        << 32u64 | (b[at + 4] as u64) << 24u64 | (b[at + 5] as u64) << 16u64 | (b[at + 6] as u64) << 8u64 | (
    b[at + 7] as u64)
}

pub open spec fn encode_spec(c: Cursor) -> Seq<u8> {
    be_bytes(c.key as u64) + be_bytes(c.id)
}

pub open spec fn decode_spec(b: Seq<u8>) -> Option<Cursor> {
    if b.len() == 16 {
        Some(Cursor { key: be_value(b, 0) as i64, id: be_value(b, 8) })
    } else {
        None
    }
}

fn push_be(out: &mut Vec<u8>, v: u64)
    ensures
        final(out)@ == old(out)@ + be_bytes(v),
{
    out.push(((v >> 56u64) & 0xff) as u8);
    out.push(((v >> 48u64) & 0xff) as u8);
    out.push(((v >> 40u64) & 0xff) as u8);
    out.push(((v >> 32u64) & 0xff) as u8);
    out.push(((v >> 24u64) & 0xff) as u8);
    out.push(((v >> 16u64) & 0xff) as u8);
    out.push(((v >> 8u64) & 0xff) as u8);
    out.push(((v >> 0u64) & 0xff) as u8);
    assert(final(out)@ =~= old(out)@ + be_bytes(v));
}

fn read_be(b: &[u8], at: usize) -> (r: u64)
    requires
        at + 8 <= b@.len(),
    ensures
        r == be_value(b@, at as int),
{
    (b[at] as u64) << 56u64 | (b[at + 1] as u64) << 48u64 | (b[at + 2] as u64) << 40u64 | (b[at + 3] as u64)
        << 32u64 | (b[at + 4] as u64) << 24u64 | (b[at + 5] as u64) << 16u64 | (b[at + 6] as u64) << 8u64 | (
    b[at + 7] as u64)
}

/// The token for cursor `c`.
pub fn encode(c: &Cursor) -> (r: Vec<u8>)
    ensures
        r@ == encode_spec(*c),
{
    let mut out: Vec<u8> = Vec::new();
    push_be(&mut out, c.key as u64);
    push_be(&mut out, c.id);
    assert(out@ =~= encode_spec(*c));
    out
}

/// The cursor that token `b` stands for; `None` unless it has sixteen bytes.
pub fn decode(b: &[u8]) -> (r: Option<Cursor>)
    ensures
        r == decode_spec(b@),
{
    if b.len() != 16 {
        return None;
    }
    Some(Cursor { key: read_be(b, 0) as i64, id: read_be(b, 8) })
}

proof fn lemma_be_round_trip(v: u64)
    ensures
        be_value(be_bytes(v), 0) == v,
{
    let b = be_bytes(v);
    assert(((v >> 56u64) & 0xff) as u8 as u64 == (v >> 56u64) & 0xff) by (bit_vector);
    assert(((v >> 48u64) & 0xff) as u8 as u64 == (v >> 48u64) & 0xff) by (bit_vector);
    assert(((v >> 40u64) & 0xff) as u8 as u64 == (v >> 40u64) & 0xff) by (bit_vector);
    assert(((v >> 32u64) & 0xff) as u8 as u64 == (v >> 32u64) & 0xff) by (bit_vector);
    assert(((v >> 24u64) & 0xff) as u8 as u64 == (v >> 24u64) & 0xff) by (bit_vector);
    assert(((v >> 16u64) & 0xff) as u8 as u64 == (v >> 16u64) & 0xff) by (bit_vector);
    assert(((v >> 8u64) & 0xff) as u8 as u64 == (v >> 8u64) & 0xff) by (bit_vector);
    assert(((v >> 0u64) & 0xff) as u8 as u64 == (v >> 0u64) & 0xff) by (bit_vector);
    assert(((v >> 56u64) & 0xff) << 56u64 | ((v >> 48u64) & 0xff) << 48u64 | ((v >> 40u64) & 0xff) << 40u64 | ((v
        >> 32u64) & 0xff) << 32u64 | ((v >> 24u64) & 0xff) << 24u64 | ((v >> 16u64) & 0xff) << 16u64 | ((v >> 8u64)
        & 0xff) << 8u64 | ((v >> 0u64) & 0xff) == v) by (bit_vector);
}

/// Decoding an encoded cursor gives it back.
pub proof fn lemma_cursor_round_trip(c: Cursor)
    ensures
        decode_spec(encode_spec(c)) == Some(c),
{
    let e = encode_spec(c);
    let k = c.key as u64;
    lemma_be_round_trip(k);
    lemma_be_round_trip(c.id);
    assert(be_value(e, 0) == be_value(be_bytes(k), 0));
    assert(be_value(e, 8) == be_value(be_bytes(c.id), 0));
    let key = c.key;
    assert((k as i64) == key) by (bit_vector)
        requires
            k == key as u64,
    ;
}

/// Whether a row with sort key `key` and primary key `id` comes after the
/// cursor in the page order (sort key, then primary key).
pub fn follows(key: i64, id: u64, c: &Cursor) -> (r: bool)
    ensures
        r == (key > c.key || (key == c.key && id > c.id)),
{
    key > c.key || (key == c.key && id > c.id)
}

} // verus!
