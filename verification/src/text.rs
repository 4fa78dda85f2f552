//! The encoding of text: the length of its UTF-8 form as a `u32`, then the
//! UTF-8 bytes.

use crate::bytesrepr::{
    append_bytes, lemma_int_canonical, lemma_int_round_trip, read_u32, take_bytes, u32_decoding,
    FromBytes, ToBytes,
};
use crate::error::ApiError;
use vstd::bytes::*;
use vstd::prelude::*;
use vstd::string::StringSliceAdditionalSpecFns;
use vstd::utf8::*;

verus! {

/// The encoding of a text.
pub open spec fn text_encoding(s: Seq<char>) -> Seq<u8> {
    spec_u32_to_le_bytes(encode_utf8(s).len() as u32) + encode_utf8(s)
}

/// A text is representable when the length of its UTF-8 form fits a `u32`.
pub open spec fn text_representable(s: Seq<char>) -> bool {
    encode_utf8(s).len() <= u32::MAX
}

/// The text at the front of `bytes` and what follows it.
pub open spec fn text_decoding(bytes: Seq<u8>) -> Result<(Seq<char>, Seq<u8>), ApiError> {
    match u32_decoding(bytes) {
        Err(e) => Err(e),
        Ok((n, rest)) => {
            if rest.len() < n {
                Err(ApiError::EarlyEndOfStream)
            } else if !valid_utf8(rest.subrange(0, n as int)) {
                Err(ApiError::Formatting)
            } else {
                Ok((decode_utf8(rest.subrange(0, n as int)), rest.subrange(n as int, rest.len() as int)))
            }
        },
    }
}

/// Decoding the encoding of a representable text yields the text and what
/// followed it.
pub proof fn lemma_text_round_trip(s: Seq<char>, rest: Seq<u8>)
    requires
        text_representable(s),
    ensures
        text_decoding(text_encoding(s) + rest) == Ok::<(Seq<char>, Seq<u8>), ApiError>((s, rest)),
{
    let body = encode_utf8(s);
    let n = body.len() as u32;
    lemma_int_round_trip(0, n, 0, body + rest);
    assert(text_encoding(s) + rest =~= spec_u32_to_le_bytes(n) + (body + rest));
    let after = body + rest;
    assert(after.subrange(0, n as int) =~= body);
    assert(after.subrange(n as int, after.len() as int) =~= rest);
    encode_utf8_valid_utf8(s);
    encode_utf8_decode_utf8(s);
}

/// What decodes as a text is representable and was encoded as the bytes
/// consumed.
pub proof fn lemma_text_canonical(bytes: Seq<u8>)
    ensures
        text_decoding(bytes) matches Ok((s, rest)) ==> {
            &&& text_representable(s)
            &&& bytes == text_encoding(s) + rest
        },
{
    if let Ok((s, tail)) = text_decoding(bytes) {
        lemma_int_canonical(bytes);
        let (n, rest) = u32_decoding(bytes)->Ok_0;
        let body = rest.subrange(0, n as int);
        decode_utf8_encode_utf8(body);
        assert(rest =~= body + tail);
        assert(bytes =~= text_encoding(s) + tail);
    }
}

/// Calls `core::str::from_utf8`, which accepts exactly the byte strings that
/// are well-formed UTF-8 and returns them as text without changing a byte.
#[verifier::external_body]
fn utf8_text(bytes: &[u8]) -> (r: Option<&str>)
    ensures
        r is Some <==> valid_utf8(bytes@),
        r matches Some(s) ==> s.spec_bytes() == bytes@,
{
    match core::str::from_utf8(bytes) {
        Ok(s) => Some(s),
        Err(_) => None,
    }
}

/// Encodes a text.
pub fn text_to_bytes(s: &str) -> (r: Result<Vec<u8>, ApiError>)
    ensures
        text_representable(s@) ==> r is Ok && r->Ok_0@ == text_encoding(s@),
        !text_representable(s@) ==> r == Err::<Vec<u8>, ApiError>(ApiError::OutOfMemory),
{
    let body = s.as_bytes();
    if body.len() > 0xffff_ffff {
        return Err(ApiError::OutOfMemory);
    }
    let mut out = u32_to_le_bytes(body.len() as u32);
    append_bytes(&mut out, body);
    Ok(out)
}

/// Reads a text from the front of `bytes`.
pub fn text_from_bytes(bytes: &[u8]) -> (r: Result<(String, &[u8]), ApiError>)
    ensures
        match text_decoding(bytes@) {
            Ok((v, rest)) => r matches Ok((x, tail)) && x@ == v && tail@ == rest,
            Err(e) => r matches Err(f) && f == e,
        },
{
    let (n, rest) = match read_u32(bytes) {
        Ok(p) => p,
        Err(e) => { return Err(e); },
    };
    let (body, tail) = match take_bytes(rest, n as usize) {
        Ok(p) => p,
        Err(e) => { return Err(e); },
    };
    match utf8_text(body) {
        Some(s) => {
            proof {
                encode_utf8_decode_utf8(s@);
            }
            Ok((s.to_owned(), tail))
        },
        None => Err(ApiError::Formatting),
    }
}

/// Whether two texts are the same, decided on their UTF-8 forms.
pub fn text_eq(a: &str, b: &str) -> (same: bool)
    ensures
        same == (a@ == b@),
{
    let x = a.as_bytes();
    let y = b.as_bytes();
    proof {
        encode_utf8_decode_utf8(a@);
        encode_utf8_decode_utf8(b@);
    }
    if x.len() != y.len() {
        return false;
    }
    let mut i: usize = 0;
    while i < x.len()
        invariant
            i <= x@.len(),
            x@.len() == y@.len(),
            x@ == encode_utf8(a@),
            y@ == encode_utf8(b@),
            forall|j: int| 0 <= j < i ==> x@[j] == y@[j],
        decreases x@.len() - i,
    {
        if x[i] != y[i] {
            return false;
        }
        i += 1;
    }
    assert(x@ =~= y@);
    true
}

impl ToBytes for String {
    open spec fn encoding(v: Seq<char>) -> Seq<u8> {
        text_encoding(v)
    }

    open spec fn representable(v: Seq<char>) -> bool {
        text_representable(v)
    }

    fn to_bytes(&self) -> (r: Result<Vec<u8>, ApiError>) {
        text_to_bytes(self.as_str())
    }
}

impl FromBytes for String {
    open spec fn decoding(bytes: Seq<u8>) -> Result<(Seq<char>, Seq<u8>), ApiError> {
        text_decoding(bytes)
    }

    proof fn lemma_round_trip(v: Seq<char>, rest: Seq<u8>) {
        lemma_text_round_trip(v, rest);
    }

    proof fn lemma_decoding_canonical(bytes: Seq<u8>) {
        lemma_text_canonical(bytes);
    }

    fn from_bytes(bytes: &[u8]) -> (r: Result<(String, &[u8]), ApiError>) {
        text_from_bytes(bytes)
    }
}

impl<'a> ToBytes for &'a str {
    open spec fn encoding(v: Seq<char>) -> Seq<u8> {
        text_encoding(v)
    }

    open spec fn representable(v: Seq<char>) -> bool {
        text_representable(v)
    }

    fn to_bytes(&self) -> (r: Result<Vec<u8>, ApiError>) {
        text_to_bytes(*self)
    }
}

} // verus!
