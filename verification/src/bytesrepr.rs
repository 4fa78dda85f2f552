//! The byte encoding of the values that cross the boundary to the host.
//!
//! Integers are little-endian and of fixed width. A value of variable size
//! starts with its length as a `u32`. Each type states its encoding as a spec
//! function of its mathematical value, and decoding as the partial inverse that
//! also yields the bytes left over.

use crate::error::ApiError;
use vstd::bytes::*;
use vstd::prelude::*;
use vstd::slice::slice_subrange;

verus! {

/// A type with a byte encoding.
pub trait ToBytes: DeepView {
    /// The bytes that stand for a value.
    spec fn encoding(v: Self::V) -> Seq<u8>;

    /// Whether every length inside the value fits its prefix.
    spec fn representable(v: Self::V) -> bool;

    /// Encodes a value. Fails, with [`ApiError::OutOfMemory`], exactly on the
    /// values that are not representable.
    fn to_bytes(&self) -> (r: Result<Vec<u8>, ApiError>)
        ensures
            Self::representable(self.deep_view()) ==> r is Ok && r->Ok_0@ == Self::encoding(
                self.deep_view(),
            ),
            !Self::representable(self.deep_view()) ==> r == Err::<Vec<u8>, ApiError>(
                ApiError::OutOfMemory,
            ),
    ;
}

/// A type that can be read back from its byte encoding.
pub trait FromBytes: ToBytes + Sized {
    /// The value at the front of `bytes` and the bytes after it, or the reason
    /// why there is none.
    spec fn decoding(bytes: Seq<u8>) -> Result<(Self::V, Seq<u8>), ApiError>;

    /// Decoding an encoding yields the value again and leaves what followed it.
    proof fn lemma_round_trip(v: Self::V, rest: Seq<u8>)
        requires
            Self::representable(v),
        ensures
            Self::decoding(Self::encoding(v) + rest) == Ok::<(Self::V, Seq<u8>), ApiError>(
                (v, rest),
            ),
    ;

    /// What decodes is representable, was encoded as the bytes consumed, and
    /// leaves a suffix of the input.
    proof fn lemma_decoding_canonical(bytes: Seq<u8>)
        ensures
            Self::decoding(bytes) matches Ok((v, rest)) ==> {
                &&& Self::representable(v)
                &&& bytes == Self::encoding(v) + rest
            },
    ;

    /// Reads one value from the front of `bytes`.
    fn from_bytes(bytes: &[u8]) -> (r: Result<(Self, &[u8]), ApiError>)
        ensures
            match Self::decoding(bytes@) {
                Ok((v, rest)) => r matches Ok((x, tail)) && x.deep_view() == v && tail@ == rest,
                Err(e) => r matches Err(f) && f == e,
            },
    ;
}

/// The value that `bytes` encodes as a whole: the value at the front, provided
/// that no byte is left after it.
pub open spec fn decoded<T: FromBytes>(bytes: Seq<u8>) -> Result<T::V, ApiError> {
    match T::decoding(bytes) {
        Ok((v, rest)) => if rest.len() == 0 {
            Ok(v)
        } else {
            Err(ApiError::LeftOverBytes)
        },
        Err(e) => Err(e),
    }
}

/// Decodes a byte string that holds exactly one value.
pub fn decode_all<T: FromBytes>(bytes: &[u8]) -> (r: Result<T, ApiError>)
    ensures
        match decoded::<T>(bytes@) {
            Ok(v) => r matches Ok(x) && x.deep_view() == v,
            Err(e) => r matches Err(f) && f == e,
        },
{
    match T::from_bytes(bytes) {
        Ok((x, tail)) => {
            if tail.len() == 0 {
                Ok(x)
            } else {
                Err(ApiError::LeftOverBytes)
            }
        },
        Err(e) => Err(e),
    }
}

/// Decodes a buffer that holds exactly one value.
pub fn deserialize<T: FromBytes>(bytes: Vec<u8>) -> (r: Result<T, ApiError>)
    ensures
        match decoded::<T>(bytes@) {
            Ok(v) => r matches Ok(x) && x.deep_view() == v,
            Err(e) => r matches Err(f) && f == e,
        },
{
    decode_all::<T>(bytes.as_slice())
}

/// Encodes a value into an owned buffer, the form in which it is lent to the
/// host for the length of one call.
pub fn serialize<T: ToBytes>(value: &T) -> (r: Result<Vec<u8>, ApiError>)
    ensures
        T::representable(value.deep_view()) ==> r is Ok && r->Ok_0@ == T::encoding(
            value.deep_view(),
        ),
        !T::representable(value.deep_view()) ==> r == Err::<Vec<u8>, ApiError>(
            ApiError::OutOfMemory,
        ),
{
    value.to_bytes()
}

/// Round trip: a representable value, encoded and then decoded as a whole
/// buffer, is the value again.
pub proof fn lemma_decode_encode<T: FromBytes>(v: T::V)
    requires
        T::representable(v),
    ensures
        decoded::<T>(T::encoding(v)) == Ok::<T::V, ApiError>(v),
{
    T::lemma_round_trip(v, Seq::empty());
    assert(T::encoding(v) + Seq::<u8>::empty() =~= T::encoding(v));
}

/// A buffer that decodes as a whole is the encoding of what it decodes to: no
/// two buffers decode to the same value.
pub proof fn lemma_encode_decode<T: FromBytes>(bytes: Seq<u8>)
    ensures
        decoded::<T>(bytes) matches Ok(v) ==> T::representable(v) && T::encoding(v) == bytes,
{
    T::lemma_decoding_canonical(bytes);
    if let Ok((v, rest)) = T::decoding(bytes) {
        if rest.len() == 0 {
            assert(T::encoding(v) + rest =~= T::encoding(v));
        }
    }
}

/// Allocates a receive buffer of exactly `size` bytes, all zero, for the host
/// to fill.
pub fn alloc_bytes(size: usize) -> (buf: Vec<u8>)
    ensures
        buf@.len() == size,
        forall|i: int| 0 <= i < size ==> buf@[i] == 0u8,
{
    let mut buf: Vec<u8> = Vec::new();
    let mut i: usize = 0;
    while i < size
        invariant
            i <= size,
            buf@.len() == i,
            forall|j: int| 0 <= j < i ==> buf@[j] == 0u8,
        decreases size - i,
    {
        buf.push(0u8);
        i += 1;
    }
    buf
}

/// Appends the bytes of `src` to `out`.
pub fn append_bytes(out: &mut Vec<u8>, src: &[u8])
    ensures
        final(out)@ == old(out)@ + src@,
{
    let mut i: usize = 0;
    while i < src.len()
        invariant
            i <= src@.len(),
            out@ == old(out)@ + src@.subrange(0, i as int),
        decreases src@.len() - i,
    {
        out.push(src[i]);
        i += 1;
        assert(out@ =~= old(out)@ + src@.subrange(0, i as int));
    }
    assert(src@.subrange(0, src@.len() as int) =~= src@);
}

/// Writes `src` over the start of `dest`, which is at least as long.
pub fn write_prefix(dest: &mut Vec<u8>, src: &[u8])
    requires
        src@.len() <= old(dest)@.len(),
    ensures
        final(dest)@.len() == old(dest)@.len(),
        final(dest)@.subrange(0, src@.len() as int) == src@,
        final(dest)@.subrange(src@.len() as int, old(dest)@.len() as int) == old(dest)@.subrange(
            src@.len() as int,
            old(dest)@.len() as int,
        ),
{
    let mut i: usize = 0;
    while i < src.len()
        invariant
            i <= src@.len(),
            src@.len() <= dest@.len(),
            dest@.len() == old(dest)@.len(),
            forall|j: int| 0 <= j < i ==> dest@[j] == src@[j],
            forall|j: int| i <= j < dest@.len() ==> dest@[j] == old(dest)@[j],
        decreases src@.len() - i,
    {
        dest[i] = src[i];
        i += 1;
    }
    assert(dest@.subrange(0, src@.len() as int) =~= src@);
    assert(dest@.subrange(src@.len() as int, old(dest)@.len() as int) =~= old(dest)@.subrange(
        src@.len() as int,
        old(dest)@.len() as int,
    ));
}

/// Splits `bytes` after its first `n` bytes, or reports that it is too short.
pub fn take_bytes(bytes: &[u8], n: usize) -> (r: Result<(&[u8], &[u8]), ApiError>)
    ensures
        n <= bytes@.len() ==> (r matches Ok((head, tail)) && head@ == bytes@.subrange(0, n as int)
            && tail@ == bytes@.subrange(n as int, bytes@.len() as int)),
        n > bytes@.len() ==> (r matches Err(e) && e == ApiError::EarlyEndOfStream),
{
    if n > bytes.len() {
        Err(ApiError::EarlyEndOfStream)
    } else {
        let head = slice_subrange(bytes, 0, n);
        let tail = slice_subrange(bytes, n, bytes.len());
        Ok((head, tail))
    }
}

/// The first `n` bytes of `bytes` and the rest, where there are that many.
pub open spec fn split_front(bytes: Seq<u8>, n: int) -> Result<(Seq<u8>, Seq<u8>), ApiError> {
    if 0 <= n <= bytes.len() {
        Ok((bytes.subrange(0, n), bytes.subrange(n, bytes.len() as int)))
    } else {
        Err(ApiError::EarlyEndOfStream)
    }
}

/// One byte at the front of `bytes`.
pub open spec fn byte_decoding(bytes: Seq<u8>) -> Result<(u8, Seq<u8>), ApiError> {
    if bytes.len() >= 1 {
        Ok((bytes[0], bytes.subrange(1, bytes.len() as int)))
    } else {
        Err(ApiError::EarlyEndOfStream)
    }
}

/// A `u32` at the front of `bytes`, least significant byte first.
pub open spec fn u32_decoding(bytes: Seq<u8>) -> Result<(u32, Seq<u8>), ApiError> {
    if bytes.len() >= 4 {
        Ok((spec_u32_from_le_bytes(bytes.subrange(0, 4)), bytes.subrange(4, bytes.len() as int)))
    } else {
        Err(ApiError::EarlyEndOfStream)
    }
}

/// A `u64` at the front of `bytes`, least significant byte first.
pub open spec fn u64_decoding(bytes: Seq<u8>) -> Result<(u64, Seq<u8>), ApiError> {
    if bytes.len() >= 8 {
        Ok((spec_u64_from_le_bytes(bytes.subrange(0, 8)), bytes.subrange(8, bytes.len() as int)))
    } else {
        Err(ApiError::EarlyEndOfStream)
    }
}

/// Reads one byte from the front of `bytes`.
pub fn read_u8(bytes: &[u8]) -> (r: Result<(u8, &[u8]), ApiError>)
    ensures
        match byte_decoding(bytes@) {
            Ok((v, rest)) => r matches Ok((x, tail)) && x == v && tail@ == rest,
            Err(e) => r matches Err(f) && f == e,
        },
{
    match take_bytes(bytes, 1) {
        Ok((head, tail)) => Ok((head[0], tail)),
        Err(e) => Err(e),
    }
}

/// Reads a `u32` from the front of `bytes`.
pub fn read_u32(bytes: &[u8]) -> (r: Result<(u32, &[u8]), ApiError>)
    ensures
        match u32_decoding(bytes@) {
            Ok((v, rest)) => r matches Ok((x, tail)) && x == v && tail@ == rest,
            Err(e) => r matches Err(f) && f == e,
        },
{
    match take_bytes(bytes, 4) {
        Ok((head, tail)) => Ok((u32_from_le_bytes(head), tail)),
        Err(e) => Err(e),
    }
}

/// Reads a `u64` from the front of `bytes`.
pub fn read_u64(bytes: &[u8]) -> (r: Result<(u64, &[u8]), ApiError>)
    ensures
        match u64_decoding(bytes@) {
            Ok((v, rest)) => r matches Ok((x, tail)) && x == v && tail@ == rest,
            Err(e) => r matches Err(f) && f == e,
        },
{
    match take_bytes(bytes, 8) {
        Ok((head, tail)) => Ok((u64_from_le_bytes(head), tail)),
        Err(e) => Err(e),
    }
}

/// A byte, a `u32` and a `u64` are read back from their encodings.
pub proof fn lemma_int_round_trip(b: u8, w: u32, d: u64, rest: Seq<u8>)
    ensures
        byte_decoding(seq![b] + rest) == Ok::<(u8, Seq<u8>), ApiError>((b, rest)),
        u32_decoding(spec_u32_to_le_bytes(w) + rest) == Ok::<(u32, Seq<u8>), ApiError>((w, rest)),
        u64_decoding(spec_u64_to_le_bytes(d) + rest) == Ok::<(u64, Seq<u8>), ApiError>((d, rest)),
{
    lemma_auto_spec_u32_to_from_le_bytes();
    lemma_auto_spec_u64_to_from_le_bytes();
    let x = seq![b] + rest;
    assert(x.subrange(1, x.len() as int) =~= rest);
    let y = spec_u32_to_le_bytes(w) + rest;
    assert(y.subrange(0, 4) =~= spec_u32_to_le_bytes(w));
    assert(y.subrange(4, y.len() as int) =~= rest);
    let z = spec_u64_to_le_bytes(d) + rest;
    assert(z.subrange(0, 8) =~= spec_u64_to_le_bytes(d));
    assert(z.subrange(8, z.len() as int) =~= rest);
}

/// What is read as a byte, a `u32` or a `u64` was encoded as the bytes
/// consumed.
pub proof fn lemma_int_canonical(bytes: Seq<u8>)
    ensures
        byte_decoding(bytes) matches Ok((v, rest)) ==> bytes == seq![v] + rest,
        u32_decoding(bytes) matches Ok((v, rest)) ==> bytes == spec_u32_to_le_bytes(v) + rest,
        u64_decoding(bytes) matches Ok((v, rest)) ==> bytes == spec_u64_to_le_bytes(v) + rest,
{
    lemma_auto_spec_u32_to_from_le_bytes();
    lemma_auto_spec_u64_to_from_le_bytes();
    if bytes.len() >= 1 {
        assert(bytes =~= seq![bytes[0]] + bytes.subrange(1, bytes.len() as int));
    }
    if bytes.len() >= 4 {
        assert(bytes =~= bytes.subrange(0, 4) + bytes.subrange(4, bytes.len() as int));
    }
    if bytes.len() >= 8 {
        assert(bytes =~= bytes.subrange(0, 8) + bytes.subrange(8, bytes.len() as int));
    }
}

impl ToBytes for u8 {
    open spec fn encoding(v: u8) -> Seq<u8> {
        seq![v]
    }

    open spec fn representable(v: u8) -> bool {
        true
    }

    fn to_bytes(&self) -> (r: Result<Vec<u8>, ApiError>) {
        let mut out: Vec<u8> = Vec::new();
        out.push(*self);
        assert(out@ =~= seq![*self]);
        Ok(out)
    }
}

impl FromBytes for u8 {
    open spec fn decoding(bytes: Seq<u8>) -> Result<(u8, Seq<u8>), ApiError> {
        byte_decoding(bytes)
    }

    proof fn lemma_round_trip(v: u8, rest: Seq<u8>) {
        lemma_int_round_trip(v, 0, 0, rest);
    }

    proof fn lemma_decoding_canonical(bytes: Seq<u8>) {
        lemma_int_canonical(bytes);
    }

    fn from_bytes(bytes: &[u8]) -> (r: Result<(u8, &[u8]), ApiError>) {
        read_u8(bytes)
    }
}

impl ToBytes for u32 {
    open spec fn encoding(v: u32) -> Seq<u8> {
        spec_u32_to_le_bytes(v)
    }

    open spec fn representable(v: u32) -> bool {
        true
    }

    fn to_bytes(&self) -> (r: Result<Vec<u8>, ApiError>) {
        Ok(u32_to_le_bytes(*self))
    }
}

impl FromBytes for u32 {
    open spec fn decoding(bytes: Seq<u8>) -> Result<(u32, Seq<u8>), ApiError> {
        u32_decoding(bytes)
    }

    proof fn lemma_round_trip(v: u32, rest: Seq<u8>) {
        lemma_int_round_trip(0, v, 0, rest);
    }

    proof fn lemma_decoding_canonical(bytes: Seq<u8>) {
        lemma_int_canonical(bytes);
    }

    fn from_bytes(bytes: &[u8]) -> (r: Result<(u32, &[u8]), ApiError>) {
        read_u32(bytes)
    }
}

impl ToBytes for u64 {
    open spec fn encoding(v: u64) -> Seq<u8> {
        spec_u64_to_le_bytes(v)
    }

    open spec fn representable(v: u64) -> bool {
        true
    }

    fn to_bytes(&self) -> (r: Result<Vec<u8>, ApiError>) {
        Ok(u64_to_le_bytes(*self))
    }
}

impl FromBytes for u64 {
    open spec fn decoding(bytes: Seq<u8>) -> Result<(u64, Seq<u8>), ApiError> {
        u64_decoding(bytes)
    }

    proof fn lemma_round_trip(v: u64, rest: Seq<u8>) {
        lemma_int_round_trip(0, 0, v, rest);
    }

    proof fn lemma_decoding_canonical(bytes: Seq<u8>) {
        lemma_int_canonical(bytes);
    }

    fn from_bytes(bytes: &[u8]) -> (r: Result<(u64, &[u8]), ApiError>) {
        read_u64(bytes)
    }
}

} // verus!
