//! The four-byte tag that names the kind of a chunk.

use vstd::prelude::*;
use vstd::string::{StringExecFns, StringSliceAdditionalSpecFns};
use crate::text::{ascii_chars, lemma_ascii_is_utf8};

verus! {

/// A byte that may stand in a tag: an ASCII letter.
pub open spec fn is_tag_byte(b: u8) -> bool {
    (65 <= b && b <= 90) || (97 <= b && b <= 122)
}

/// Four bytes that form a valid tag.
pub open spec fn valid_tag(bytes: Seq<u8>) -> bool {
    &&& bytes.len() == 4
    &&& forall|i: int| 0 <= i < 4 ==> is_tag_byte(#[trigger] bytes[i])
}

fn is_tag_byte_exec(b: u8) -> (r: bool)
    ensures
        r == is_tag_byte(b),
{
    (65 <= b && b <= 90) || (97 <= b && b <= 122)
}

/// Why a tag was refused.
#[derive(Clone, Copy, Debug, PartialEq, Eq, Structural)]
pub enum ChunkTypeError {
    /// The text is not four bytes long.
    WrongLength,
    /// A byte is not an ASCII letter.
    NotALetter,
}

/// A chunk's tag: four ASCII letters.
#[derive(Clone, Copy, Debug, PartialEq, Eq)]
pub struct ChunkType {
    bytes: [u8; 4],
}

impl View for ChunkType {
    type V = Seq<u8>;

    closed spec fn view(&self) -> Seq<u8> {
        self.bytes@
    }
}

impl ChunkType {
    #[verifier::type_invariant]
    pub(crate) open spec fn inv(&self) -> bool {
        valid_tag(self@)
    }

    /// The tag made of four bytes, if each is an ASCII letter.
    pub fn from_bytes(bytes: [u8; 4]) -> (r: Result<ChunkType, ChunkTypeError>)
        ensures
            r is Ok <==> valid_tag(bytes@),
            r matches Ok(t) ==> t@ == bytes@,
            r is Err ==> r == Err::<ChunkType, _>(ChunkTypeError::NotALetter),
    {
        let ok = is_tag_byte_exec(bytes[0]) && is_tag_byte_exec(bytes[1])
            && is_tag_byte_exec(bytes[2]) && is_tag_byte_exec(bytes[3]);
        if ok {
            assert forall|i: int| 0 <= i < 4 implies is_tag_byte(#[trigger] bytes@[i]) by {
                if i == 0 {} else if i == 1 {} else if i == 2 {} else {}
            }
            Ok(ChunkType { bytes })
        } else {
            Err(ChunkTypeError::NotALetter)
        }
    }

    /// The tag spelled by a string of four ASCII letters.
    pub fn from_str(s: &str) -> (r: Result<ChunkType, ChunkTypeError>)
        ensures
            r is Ok <==> valid_tag(s.spec_bytes()),
            r matches Ok(t) ==> t@ == s.spec_bytes(),
            s.spec_bytes().len() != 4 ==> r == Err::<ChunkType, _>(ChunkTypeError::WrongLength),
            s.spec_bytes().len() == 4 && !valid_tag(s.spec_bytes())
                ==> r == Err::<ChunkType, _>(ChunkTypeError::NotALetter),
    {
        let b = s.as_bytes();
        if b.len() != 4 {
            return Err(ChunkTypeError::WrongLength);
        }
        let r = Self::from_bytes([b[0], b[1], b[2], b[3]]);
        proof {
            let a = seq![b@[0], b@[1], b@[2], b@[3]];
            assert(a =~= b@);
        }
        r
    }

    /// The four bytes of the tag.
    pub fn bytes(&self) -> (r: [u8; 4])
        ensures
            r@ == self@,
            valid_tag(r@),
    {
        proof {
            use_type_invariant(self);
        }
        self.bytes
    }

    /// The tag as text: its four letters.
    pub fn to_string(&self) -> (r: String)
        ensures
            r@ == ascii_chars(self@),
    {
        proof {
            use_type_invariant(self);
            assert forall|i: int| 0 <= i < self.bytes@.len() implies self.bytes@[i] < 128 by {
                assert(is_tag_byte(self.bytes@[i]));
            }
            lemma_ascii_is_utf8(self.bytes@);
        }
        let v: Vec<u8> = vec![self.bytes[0], self.bytes[1], self.bytes[2], self.bytes[3]];
        proof {
            assert(v@ =~= self.bytes@);
        }
        match String::from_utf8(v) {
            Ok(s) => s,
            Err(_) => String::new(),
        }
    }
}

} // verus!
