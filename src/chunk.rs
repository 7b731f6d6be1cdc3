//! A chunk: `[length:4][tag:4][data:length][crc:4]`, integers big-endian, the crc
//! taken over the tag and the data.

use vstd::prelude::*;
use crate::checksum::{crc32, crc32_of};
use crate::chunk_type::{valid_tag, ChunkType};
use crate::text::{ascii_chars, decimal_string, decimal_text, InvalidUtf8};
use vstd::string::StringExecFns;
use vstd::utf8::{decode_utf8, valid_utf8};

verus! {

/// Bytes that every encoded chunk holds besides its data: length, tag and crc.
pub const METADATA_BYTES_LEN: usize = 12;

/// The four bytes of `n`, most significant first.
pub open spec fn be_bytes(n: u32) -> Seq<u8> {
    seq![(n >> 24u32) as u8, (n >> 16u32) as u8, (n >> 8u32) as u8, n as u8]
}

/// The number that four bytes spell, most significant first.
pub open spec fn be_u32(b: Seq<u8>) -> u32 {
    ((b[0] as u32) << 24u32) | ((b[1] as u32) << 16u32) | ((b[2] as u32) << 8u32) | (b[3] as u32)
}

/// The checksum that a chunk with this tag and data carries.
pub open spec fn chunk_crc(tag: Seq<u8>, data: Seq<u8>) -> u32 {
    crc32_of(tag + data)
}

/// What a chunk holds.
pub struct ChunkView {
    pub length: u32,
    pub tag: Seq<u8>,
    pub data: Seq<u8>,
    pub crc: u32,
}

/// A chunk as construction leaves it: the length counts the data, the tag is
/// valid, the crc is that of tag and data.
pub open spec fn valid_chunk(c: ChunkView) -> bool {
    &&& c.length as int == c.data.len()
    &&& valid_tag(c.tag)
    &&& c.crc == chunk_crc(c.tag, c.data)
}

/// The chunk that `new` builds from a tag and data.
pub open spec fn chunk_of(tag: Seq<u8>, data: Seq<u8>) -> ChunkView {
    ChunkView { length: data.len() as u32, tag, data, crc: chunk_crc(tag, data) }
}

/// The bytes of a chunk.
pub open spec fn encode(c: ChunkView) -> Seq<u8> {
    be_bytes(c.length) + c.tag + c.data + be_bytes(c.crc)
}

/// What decoding `b` gives: the chunk at its start, or why there is none.
pub open spec fn decode(b: Seq<u8>) -> Result<ChunkView, ChunkError> {
    if b.len() < 12 {
        Err(ChunkError::InvalidChunkLength)
    } else {
        let length = be_u32(b.subrange(0, 4));
        if b.len() < length + 12 {
            Err(ChunkError::InvalidChunkLength)
        } else {
            let tag = b.subrange(4, 8);
            let data = b.subrange(8, 8 + length);
            let stored = be_u32(b.subrange(8 + length, 12 + length));
            if !valid_tag(tag) {
                Err(ChunkError::InvalidChunkType)
            } else if stored != chunk_crc(tag, data) {
                Err(ChunkError::InvalidCrc(stored, chunk_crc(tag, data)))
            } else {
                Ok(ChunkView { length, tag, data, crc: stored })
            }
        }
    }
}

/// Why a byte buffer holds no chunk.
#[derive(Clone, Copy, Debug, PartialEq, Eq, Structural)]
pub enum ChunkError {
    /// The buffer is shorter than the length, tag and crc, or than the data that
    /// the length announces.
    InvalidChunkLength,
    /// The stored crc (first) differs from the one computed from tag and data
    /// (second).
    InvalidCrc(u32, u32),
    /// The tag bytes are not four ASCII letters.
    InvalidChunkType,
}

impl ChunkError {
    /// A sentence that names the error, with the two crcs of a mismatch.
    pub fn to_string(&self) -> (r: String)
        ensures
            r@ == error_text(*self),
    {
        match self {
            ChunkError::InvalidChunkLength => String::from_str("Invalid chunk length"),
            ChunkError::InvalidCrc(stored, expected) => {
                let mut s = String::from_str("Invalid crc ");
                let a = decimal_string(*stored);
                s.append(a.as_str());
                s.append(", ");
                let b = decimal_string(*expected);
                s.append(b.as_str());
                s
            },
            ChunkError::InvalidChunkType => String::from_str("Invalid chunk type"),
        }
    }
}

/// The text of an error.
pub open spec fn error_text(e: ChunkError) -> Seq<char> {
    match e {
        ChunkError::InvalidChunkLength => "Invalid chunk length"@,
        ChunkError::InvalidCrc(stored, expected) => "Invalid crc "@ + decimal_text(stored as nat)
            + ", "@ + decimal_text(expected as nat),
        ChunkError::InvalidChunkType => "Invalid chunk type"@,
    }
}

/// The one-line description of a chunk whose data is text.
pub open spec fn chunk_text(c: ChunkView) -> Seq<char> {
    "Chunk { length: "@ + decimal_text(c.length as nat) + ", chunk_type: "@ + ascii_chars(c.tag)
        + ", data: "@ + decode_utf8(c.data) + ", crc: "@ + decimal_text(c.crc as nat) + " }"@
}

/// A length-prefixed, tagged and checksummed record.
pub struct Chunk {
    length: u32,
    chunk_type: ChunkType,
    data: Vec<u8>,
    crc: u32,
}

impl View for Chunk {
    type V = ChunkView;

    closed spec fn view(&self) -> ChunkView {
        ChunkView {
            length: self.length,
            tag: self.chunk_type@,
            data: self.data@,
            crc: self.crc,
        }
    }
}

/// `n` as four bytes, most significant first.
fn push_be_u32(v: &mut Vec<u8>, n: u32)
    ensures
        final(v)@ == old(v)@ + be_bytes(n),
{
    v.push((n >> 24u32) as u8);
    v.push((n >> 16u32) as u8);
    v.push((n >> 8u32) as u8);
    v.push(n as u8);
    assert(final(v)@ =~= old(v)@ + be_bytes(n));
}

/// The number in `b[at..at + 4]`, most significant byte first.
fn read_be_u32(b: &[u8], at: usize) -> (r: u32)
    requires
        at + 4 <= b@.len(),
    ensures
        r == be_u32(b@.subrange(at as int, at + 4)),
{
    let s = Ghost(b@.subrange(at as int, at + 4));
    assert(s@[0] == b@[at as int] && s@[1] == b@[at + 1] && s@[2] == b@[at + 2] && s@[3] == b@[at + 3]);
    ((b[at] as u32) << 24u32) | ((b[at + 1] as u32) << 16u32) | ((b[at + 2] as u32) << 8u32) | (b[at + 3] as u32)
}

/// Appends `src[from..to]` to `v`.
fn push_range(v: &mut Vec<u8>, src: &[u8], from: usize, to: usize)
    requires
        from <= to <= src@.len(),
    ensures
        final(v)@ == old(v)@ + src@.subrange(from as int, to as int),
{
    let mut i: usize = from;
    while i < to
        invariant
            from <= i <= to <= src@.len(),
            v@ == old(v)@ + src@.subrange(from as int, i as int),
        decreases to - i,
    {
        v.push(src[i]);
        i = i + 1;
        assert(v@ =~= old(v)@ + src@.subrange(from as int, i as int));
    }
}

impl Chunk {
    #[verifier::type_invariant]
    spec fn inv(&self) -> bool {
        valid_chunk(self@)
    }

    /// The chunk with this tag and data; its length and crc are computed.
    pub fn new(chunk_type: ChunkType, data: Vec<u8>) -> (r: Chunk)
        requires
            data@.len() <= u32::MAX,
        ensures
            r@ == chunk_of(chunk_type@, data@),
            valid_chunk(r@),
    {
        proof {
            use_type_invariant(&chunk_type);
        }
        let crc = Self::crc_checksum(&chunk_type, &data);
        let length = data.len() as u32;
        Chunk { length, chunk_type, data, crc }
    }

    /// The crc that a chunk with this tag and data carries.
    pub fn crc_checksum(chunk_type: &ChunkType, data: &Vec<u8>) -> (r: u32)
        ensures
            r == chunk_crc(chunk_type@, data@),
    {
        let tag = chunk_type.bytes();
        let mut bytes: Vec<u8> = Vec::new();
        bytes.push(tag[0]);
        bytes.push(tag[1]);
        bytes.push(tag[2]);
        bytes.push(tag[3]);
        assert(bytes@ =~= chunk_type@);
        push_range(&mut bytes, data.as_slice(), 0, data.len());
        assert(data@.subrange(0, data@.len() as int) =~= data@);
        crc32(bytes.as_slice())
    }

    /// The number of data bytes.
    pub fn length(&self) -> (r: usize)
        ensures
            r == self@.length,
            r == self@.data.len(),
    {
        proof {
            use_type_invariant(self);
        }
        self.length as usize
    }

    /// The tag.
    pub fn chunk_type(&self) -> (r: &ChunkType)
        ensures
            r@ == self@.tag,
    {
        &self.chunk_type
    }

    /// The data bytes.
    pub fn data(&self) -> (r: &[u8])
        ensures
            r@ == self@.data,
    {
        self.data.as_slice()
    }

    /// The stored crc.
    pub fn crc(&self) -> (r: u32)
        ensures
            r == self@.crc,
            r == chunk_crc(self@.tag, self@.data),
    {
        proof {
            use_type_invariant(self);
        }
        self.crc
    }

    /// The data read as UTF-8 text.
    pub fn data_as_string(&self) -> (r: Result<String, InvalidUtf8>)
        ensures
            r is Ok <==> valid_utf8(self@.data),
            r matches Ok(s) ==> s@ == decode_utf8(self@.data),
    {
        let mut copy: Vec<u8> = Vec::new();
        push_range(&mut copy, self.data.as_slice(), 0, self.data.len());
        assert(copy@ =~= self.data@);
        match String::from_utf8(copy) {
            Ok(s) => Ok(s),
            Err(_) => Err(InvalidUtf8),
        }
    }

    /// A one-line description of the chunk: its length, tag, data as text and
    /// crc; refused where the data is not UTF-8.
    pub fn to_string(&self) -> (r: Result<String, InvalidUtf8>)
        ensures
            r is Ok <==> valid_utf8(self@.data),
            r matches Ok(s) ==> s@ == chunk_text(self@),
    {
        let data = match self.data_as_string() {
            Ok(d) => d,
            Err(e) => return Err(e),
        };
        let mut s = String::from_str("Chunk { length: ");
        let length = decimal_string(self.length);
        s.append(length.as_str());
        s.append(", chunk_type: ");
        let tag = self.chunk_type.to_string();
        s.append(tag.as_str());
        s.append(", data: ");
        s.append(data.as_str());
        s.append(", crc: ");
        let crc = decimal_string(self.crc);
        s.append(crc.as_str());
        s.append(" }");
        Ok(s)
    }

    /// The bytes of the chunk: length, tag, data and crc.
    pub fn as_bytes(&self) -> (r: Vec<u8>)
        ensures
            r@ == encode(self@),
            r@.len() == self@.data.len() + 12,
    {
        proof {
            use_type_invariant(self);
        }
        let mut out: Vec<u8> = Vec::new();
        push_be_u32(&mut out, self.length);
        let tag = self.chunk_type.bytes();
        out.push(tag[0]);
        out.push(tag[1]);
        out.push(tag[2]);
        out.push(tag[3]);
        assert(out@ =~= be_bytes(self.length) + self.chunk_type@);
        push_range(&mut out, self.data.as_slice(), 0, self.data.len());
        assert(self.data@.subrange(0, self.data@.len() as int) =~= self.data@);
        push_be_u32(&mut out, self.crc);
        out
    }

    /// The chunk at the start of `value`; bytes after it are ignored.
    pub fn try_from(value: &[u8]) -> (r: Result<Chunk, ChunkError>)
        ensures
            match r {
                Ok(c) => decode(value@) == Ok::<ChunkView, ChunkError>(c@) && valid_chunk(c@),
                Err(e) => decode(value@) == Err::<ChunkView, ChunkError>(e),
            },
    {
        if value.len() < METADATA_BYTES_LEN {
            return Err(ChunkError::InvalidChunkLength);
        }
        let length = read_be_u32(value, 0);
        if value.len() - METADATA_BYTES_LEN < length as usize {
            return Err(ChunkError::InvalidChunkLength);
        }
        let len = length as usize;
        let chunk_type = match ChunkType::from_bytes([value[4], value[5], value[6], value[7]]) {
            Ok(t) => t,
            Err(_) => {
                proof {
                    assert(seq![value@[4], value@[5], value@[6], value@[7]] =~= value@.subrange(4, 8));
                }
                return Err(ChunkError::InvalidChunkType);
            },
        };
        proof {
            assert(seq![value@[4], value@[5], value@[6], value@[7]] =~= value@.subrange(4, 8));
        }
        let mut data: Vec<u8> = Vec::new();
        push_range(&mut data, value, 8, 8 + len);
        assert(data@ =~= value@.subrange(8, 8 + len));
        let stored = read_be_u32(value, 8 + len);
        let expected = Self::crc_checksum(&chunk_type, &data);
        Self::check_crc(chunk_type, data, stored, expected)
    }

    /// The chunk with this tag and data, given the crc `stored` that was read
    /// with them and the crc `expected` computed from them: refused, with both
    /// values, where they differ.
    pub fn check_crc(chunk_type: ChunkType, data: Vec<u8>, stored: u32, expected: u32) -> (r: Result<
        Chunk,
        ChunkError,
    >)
        requires
            data@.len() <= u32::MAX,
            expected == chunk_crc(chunk_type@, data@),
        ensures
            stored == expected ==> (r matches Ok(c) && c@ == chunk_of(chunk_type@, data@)),
            stored != expected ==> (r matches Err(e) && e == ChunkError::InvalidCrc(stored, expected)),
    {
        if stored != expected {
            return Err(ChunkError::InvalidCrc(stored, expected));
        }
        proof {
            use_type_invariant(&chunk_type);
        }
        let length = data.len() as u32;
        Ok(Chunk { length, chunk_type, data, crc: stored })
    }
}

impl<'a> TryFrom<&'a [u8]> for Chunk {
    type Error = ChunkError;

    /// The chunk at the start of `value`, as `Chunk::try_from` decodes it.
    fn try_from(value: &'a [u8]) -> (r: Result<Chunk, ChunkError>)
        ensures
            match r {
                Ok(c) => decode(value@) == Ok::<ChunkView, ChunkError>(c@) && valid_chunk(c@),
                Err(e) => decode(value@) == Err::<ChunkView, ChunkError>(e),
            },
    {
        Chunk::try_from(value)
    }
}

impl<'a> vstd::std_specs::convert::TryFromSpecImpl<&'a [u8]> for Chunk {
    open spec fn obeys_try_from_spec() -> bool {
        false
    }

    open spec fn try_from_spec(v: &'a [u8]) -> Result<Chunk, ChunkError> {
        arbitrary()
    }
}

} // verus!
