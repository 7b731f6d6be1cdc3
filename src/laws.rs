//! What holds of encoding and decoding chunks, over all inputs.

use vstd::prelude::*;
use crate::chunk::{
    be_bytes, be_u32, chunk_crc, chunk_of, decode, encode, valid_chunk, ChunkError, ChunkView,
};
use crate::chunk_type::valid_tag;

verus! {

/// Reading back the four bytes of a number gives the number.
pub proof fn lemma_be_u32_of_be_bytes(n: u32)
    ensures
        be_u32(be_bytes(n)) == n,
{
    let b = be_bytes(n);
    assert(b[0] == (n >> 24u32) as u8 && b[1] == (n >> 16u32) as u8 && b[2] == (n >> 8u32) as u8
        && b[3] == n as u8);
    assert(((((n >> 24u32) as u8) as u32) << 24u32) | ((((n >> 16u32) as u8) as u32) << 16u32)
        | ((((n >> 8u32) as u8) as u32) << 8u32) | ((n as u8) as u32) == n) by (bit_vector);
}

/// Two four-byte sequences that spell the same number are equal.
pub proof fn lemma_be_u32_injective(a: Seq<u8>, b: Seq<u8>)
    requires
        a.len() == 4,
        b.len() == 4,
        be_u32(a) == be_u32(b),
    ensures
        a == b,
{
    let (a0, a1, a2, a3) = (a[0], a[1], a[2], a[3]);
    let (b0, b1, b2, b3) = (b[0], b[1], b[2], b[3]);
    assert(((a0 as u32) << 24u32) | ((a1 as u32) << 16u32) | ((a2 as u32) << 8u32) | (a3 as u32)
        == ((b0 as u32) << 24u32) | ((b1 as u32) << 16u32) | ((b2 as u32) << 8u32) | (b3 as u32)
        ==> a0 == b0 && a1 == b1 && a2 == b2 && a3 == b3) by (bit_vector);
    assert(a =~= b);
}

/// Decoding the bytes of a valid chunk gives the chunk back.
pub proof fn lemma_decode_encode(c: ChunkView)
    requires
        valid_chunk(c),
    ensures
        decode(encode(c)) == Ok::<ChunkView, ChunkError>(c),
{
    let b = encode(c);
    let n = c.length as int;
    lemma_be_u32_of_be_bytes(c.length);
    lemma_be_u32_of_be_bytes(c.crc);
    assert(b.subrange(0, 4) =~= be_bytes(c.length));
    assert(b.subrange(4, 8) =~= c.tag);
    assert(b.subrange(8, 8 + n) =~= c.data);
    assert(b.subrange(8 + n, 12 + n) =~= be_bytes(c.crc));
}

/// Round trip: decoding the bytes of the chunk built from a valid tag and data
/// gives that same chunk, field for field, crc included.
pub proof fn lemma_round_trip(tag: Seq<u8>, data: Seq<u8>)
    requires
        valid_tag(tag),
        data.len() <= u32::MAX,
    ensures
        decode(encode(chunk_of(tag, data))) == Ok::<ChunkView, ChunkError>(chunk_of(tag, data)),
{
    lemma_decode_encode(chunk_of(tag, data));
}

/// Every chunk that decoding yields is valid: its length counts its data, its
/// tag is valid and its crc is that of tag and data.
pub proof fn lemma_decoded_is_valid(b: Seq<u8>)
    ensures
        decode(b) matches Ok(c) ==> valid_chunk(c),
{
}

/// The checksum of a tag and data depends on them alone: computing it twice
/// gives the same value.
pub proof fn lemma_checksum_deterministic(tag1: Seq<u8>, data1: Seq<u8>, tag2: Seq<u8>, data2: Seq<u8>)
    requires
        tag1 == tag2,
        data1 == data2,
    ensures
        chunk_crc(tag1, data1) == chunk_crc(tag2, data2),
{
}

/// A buffer shorter than twelve bytes, or shorter than its length field
/// announces, decodes to the length error.
pub proof fn lemma_truncated(b: Seq<u8>)
    requires
        b.len() < 12 || b.len() < be_u32(b.subrange(0, 4)) + 12,
    ensures
        decode(b) == Err::<ChunkView, ChunkError>(ChunkError::InvalidChunkLength),
{
}

/// Flipping one bit of the crc field of an encoded chunk makes decoding fail
/// with the crc error, which carries the altered stored value and the crc
/// computed afresh.
pub proof fn lemma_crc_bit_flip(c: ChunkView, i: int, k: u8)
    requires
        valid_chunk(c),
        8 + c.length <= i < 12 + c.length,
        k < 8,
    ensures
        ({
            let e = encode(c);
            let f = e.update(i, e[i] ^ (1u8 << k));
            let stored = be_u32(f.subrange(8 + c.length, 12 + c.length));
            &&& stored != c.crc
            &&& decode(f) == Err::<ChunkView, ChunkError>(ChunkError::InvalidCrc(stored, c.crc))
        }),
{
    let e = encode(c);
    let n = c.length as int;
    let x = e[i];
    let f = e.update(i, x ^ (1u8 << k));
    lemma_be_u32_of_be_bytes(c.length);
    lemma_be_u32_of_be_bytes(c.crc);
    assert(f.subrange(0, 4) =~= be_bytes(c.length));
    assert(f.subrange(4, 8) =~= c.tag);
    assert(f.subrange(8, 8 + n) =~= c.data);
    let field = f.subrange(8 + n, 12 + n);
    assert(x ^ (1u8 << k) != x) by (bit_vector)
        requires
            k < 8,
    ;
    assert(field[i - 8 - n] != be_bytes(c.crc)[i - 8 - n]);
    if be_u32(field) == c.crc {
        lemma_be_u32_injective(field, be_bytes(c.crc));
    }
}

/// Replacing the tag or data of an encoded chunk (same length, valid tag) while
/// keeping its crc field: decoding succeeds only where the new tag and data have
/// that same crc, and otherwise fails with the crc error carrying the stored
/// value and the one computed from the new tag and data.
pub proof fn lemma_payload_change(c: ChunkView, tag: Seq<u8>, data: Seq<u8>)
    requires
        valid_chunk(c),
        valid_tag(tag),
        data.len() == c.data.len(),
    ensures
        ({
            let b = be_bytes(c.length) + tag + data + be_bytes(c.crc);
            if chunk_crc(tag, data) == c.crc {
                decode(b) == Ok::<ChunkView, ChunkError>(
                    ChunkView { length: c.length, tag, data, crc: c.crc },
                )
            } else {
                decode(b) == Err::<ChunkView, ChunkError>(
                    ChunkError::InvalidCrc(c.crc, chunk_crc(tag, data)),
                )
            }
        }),
{
    lemma_be_u32_of_be_bytes(c.length);
    lemma_be_u32_of_be_bytes(c.crc);
    let b = be_bytes(c.length) + tag + data + be_bytes(c.crc);
    let n = c.length as int;
    assert(b.subrange(0, 4) =~= be_bytes(c.length));
    assert(b.subrange(4, 8) =~= tag);
    assert(b.subrange(8, 8 + n) =~= data);
    assert(b.subrange(8 + n, 12 + n) =~= be_bytes(c.crc));
}

/// Bytes after the end of the chunk that a buffer starts with are ignored:
/// decoding the whole buffer and decoding it cut at twelve plus its length
/// field give the same result.
pub proof fn lemma_trailing_bytes_ignored(b: Seq<u8>)
    requires
        b.len() >= 12,
        be_u32(b.subrange(0, 4)) + 12 <= b.len(),
    ensures
        decode(b) == decode(b.subrange(0, be_u32(b.subrange(0, 4)) + 12)),
{
    let n = be_u32(b.subrange(0, 4)) as int;
    let t = b.subrange(0, n + 12);
    assert(t.subrange(0, 4) =~= b.subrange(0, 4));
    assert(t.subrange(4, 8) =~= b.subrange(4, 8));
    assert(t.subrange(8, 8 + n) =~= b.subrange(8, 8 + n));
    assert(t.subrange(8 + n, 12 + n) =~= b.subrange(8 + n, 12 + n));
}

/// A valid chunk's bytes followed by anything decode to that chunk.
pub proof fn lemma_decode_with_trailer(c: ChunkView, extra: Seq<u8>)
    requires
        valid_chunk(c),
    ensures
        decode(encode(c) + extra) == Ok::<ChunkView, ChunkError>(c),
{
    let b = encode(c) + extra;
    lemma_be_u32_of_be_bytes(c.length);
    assert(b.subrange(0, 4) =~= be_bytes(c.length));
    assert(b.subrange(0, c.length + 12) =~= encode(c));
    lemma_trailing_bytes_ignored(b);
    lemma_decode_encode(c);
}

} // verus!
