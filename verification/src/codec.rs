//! Encoding and decoding of the primitive values that packet payloads are
//! built from: 32-bit big-endian integers and length-prefixed UTF-8 strings.

use vstd::prelude::*;
use vstd::utf8::{decode_utf8, encode_utf8, valid_utf8};

verus! {

/// Why a payload fragment could not be decoded.
#[derive(Clone, Copy, Debug, PartialEq, Eq, Structural)]
pub enum CodecError {
    /// Fewer bytes remain than the value needs.
    TruncatedInput,
    /// The declared string bytes are not valid UTF-8.
    InvalidEncoding,
}

/// The four big-endian bytes of a 32-bit value, most significant first.
pub open spec fn be_bytes_of_u32(v: u32) -> Seq<u8> {
    seq![
        ((v >> 24) & 0xFF) as u8,
        ((v >> 16) & 0xFF) as u8,
        ((v >> 8) & 0xFF) as u8,
        (v & 0xFF) as u8,
    ]
}

/// The 32-bit value held by four big-endian bytes.
pub open spec fn u32_of_be_bytes(b0: u8, b1: u8, b2: u8, b3: u8) -> u32 {
    ((b0 as u32) << 24 | (b1 as u32) << 16 | (b2 as u32) << 8 | (b3 as u32))
}

/// What decoding a 32-bit value at `offset` yields: the value held by the four
/// bytes there, or `TruncatedInput` if fewer than four bytes remain.
pub open spec fn spec_unpack_u32(data: Seq<u8>, offset: int) -> Result<u32, CodecError> {
    if 0 <= offset && offset + 4 <= data.len() {
        Ok(
            u32_of_be_bytes(
                data[offset],
                data[offset + 1],
                data[offset + 2],
                data[offset + 3],
            ),
        )
    } else {
        Err(CodecError::TruncatedInput)
    }
}

/// The wire form of a string: a 4-byte big-endian byte count, then the
/// string's UTF-8 bytes.
pub open spec fn spec_pack_str(s: Seq<char>) -> Seq<u8> {
    be_bytes_of_u32(encode_utf8(s).len() as u32) + encode_utf8(s)
}

/// What decoding a length-prefixed string at `offset` yields: the decoded
/// characters and the offset just past them, `TruncatedInput` if the prefix or
/// the declared bytes run past the end, `InvalidEncoding` if those bytes are
/// not valid UTF-8.
pub open spec fn spec_unpack_str(data: Seq<u8>, offset: int) -> Result<
    (Seq<char>, int),
    CodecError,
> {
    match spec_unpack_u32(data, offset) {
        Err(e) => Err(e),
        Ok(len) => {
            let start = offset + 4;
            if start + len > data.len() {
                Err(CodecError::TruncatedInput)
            } else {
                let body = data.subrange(start, start + len);
                if valid_utf8(body) {
                    Ok((decode_utf8(body), start + len))
                } else {
                    Err(CodecError::InvalidEncoding)
                }
            }
        },
    }
}

/// Relies on `String::from_utf8`: it returns the string decoded from the given
/// bytes exactly when they are valid UTF-8, and rejects them otherwise.
#[verifier::external_body]
fn string_from_utf8(bytes: Vec<u8>) -> (r: Option<String>)
    ensures
        r is Some <==> valid_utf8(bytes@),
        r is Some ==> r->0@ == decode_utf8(bytes@),
{
    String::from_utf8(bytes).ok()
}

pub struct ByteUtils;

impl ByteUtils {
    /// Encode a 32-bit value as four big-endian bytes.
    pub fn pack_u32(value: u32) -> (r: Vec<u8>)
        ensures
            r@ == be_bytes_of_u32(value),
    {
        let mut r: Vec<u8> = Vec::new();
        r.push(((value >> 24) & 0xFF) as u8);
        r.push(((value >> 16) & 0xFF) as u8);
        r.push(((value >> 8) & 0xFF) as u8);
        r.push((value & 0xFF) as u8);
        proof {
            assert(r@ =~= be_bytes_of_u32(value));
        }
        r
    }

    /// Decode the four big-endian bytes at `offset` as a 32-bit value.
    pub fn unpack_u32(data: &[u8], offset: usize) -> (r: Result<u32, CodecError>)
        ensures
            r == spec_unpack_u32(data@, offset as int),
    {
        if data.len() < 4 || offset > data.len() - 4 {
            return Err(CodecError::TruncatedInput);
        }
        Ok(
            (data[offset] as u32) << 24 | (data[offset + 1] as u32) << 16 | (data[offset + 2]
                as u32) << 8 | (data[offset + 3] as u32),
        )
    }

    /// Encode a string as a 4-byte big-endian byte count followed by its
    /// UTF-8 bytes.
    pub fn pack_str(s: &str) -> (r: Vec<u8>)
        requires
            encode_utf8(s@).len() <= u32::MAX,
        ensures
            r@ == spec_pack_str(s@),
    {
        let bytes: &[u8] = s.as_bytes();
        let mut r = Self::pack_u32(bytes.len() as u32);
        r.extend_from_slice(bytes);
        r
    }

    /// Decode the length-prefixed string at `offset`, returning it together
    /// with the offset just past its bytes.
    pub fn unpack_str(data: &[u8], offset: usize) -> (r: Result<(String, usize), CodecError>)
        ensures
            r is Ok <==> spec_unpack_str(data@, offset as int) is Ok,
            r matches Ok(p) ==> spec_unpack_str(data@, offset as int) matches Ok(q) && p.0@ == q.0
                && p.1 == q.1,
            r matches Err(e) ==> spec_unpack_str(data@, offset as int) == Err::<
                (Seq<char>, int),
                CodecError,
            >(e),
    {
        let len32 = match Self::unpack_u32(data, offset) {
            Ok(v) => v,
            Err(e) => {
                return Err(e);
            },
        };
        let len = len32 as usize;
        let dlen = data.len();
        let start = offset + 4;
        if len > dlen - start {
            return Err(CodecError::TruncatedInput);
        }
        let body = vstd::slice::slice_subrange(data, start, start + len);
        let body_vec = vstd::slice::slice_to_vec(body);
        match string_from_utf8(body_vec) {
            Some(s) => Ok((s, start + len)),
            None => Err(CodecError::InvalidEncoding),
        }
    }
}

/// Decoding inverts encoding for 32-bit values: reading back the four bytes
/// written for `v` yields `v` again.
pub proof fn lemma_u32_round_trip(v: u32)
    ensures
        spec_unpack_u32(be_bytes_of_u32(v), 0) == Ok::<u32, CodecError>(v),
{
    assert(u32_of_be_bytes(
        ((v >> 24) & 0xFF) as u8,
        ((v >> 16) & 0xFF) as u8,
        ((v >> 8) & 0xFF) as u8,
        (v & 0xFF) as u8,
    ) == v) by (bit_vector);
}

/// Decoding inverts encoding for strings: reading back the length-prefixed
/// bytes written for `s` yields `s` again, ending at their end.
pub proof fn lemma_str_round_trip(s: Seq<char>)
    requires
        encode_utf8(s).len() <= u32::MAX,
    ensures
        spec_unpack_str(spec_pack_str(s), 0) == Ok::<(Seq<char>, int), CodecError>(
            (s, spec_pack_str(s).len() as int),
        ),
{
    broadcast use vstd::utf8::encode_utf8_valid_utf8, vstd::utf8::encode_utf8_decode_utf8;

    let packed = spec_pack_str(s);
    let len = encode_utf8(s).len() as u32;
    lemma_u32_round_trip(len);
    assert(packed.subrange(0, 4) =~= be_bytes_of_u32(len));
    assert(spec_unpack_u32(packed, 0) == spec_unpack_u32(be_bytes_of_u32(len), 0)) by {
        assert(packed[0] == be_bytes_of_u32(len)[0]);
        assert(packed[1] == be_bytes_of_u32(len)[1]);
        assert(packed[2] == be_bytes_of_u32(len)[2]);
        assert(packed[3] == be_bytes_of_u32(len)[3]);
    }
    assert(packed.subrange(4, 4 + len as int) =~= encode_utf8(s));
}

} // verus!
