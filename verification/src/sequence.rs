//! Encodings of the composite shapes: nothing, an optional value, a pair, a
//! 32-byte block and a list.

use crate::bytesrepr::{
    append_bytes, byte_decoding, lemma_int_canonical, lemma_int_round_trip, read_u8, take_bytes,
    FromBytes, ToBytes,
};
use crate::error::ApiError;
use vstd::array::*;
use vstd::prelude::*;

verus! {

impl ToBytes for () {
    open spec fn encoding(v: ()) -> Seq<u8> {
        Seq::empty()
    }

    open spec fn representable(v: ()) -> bool {
        true
    }

    fn to_bytes(&self) -> (r: Result<Vec<u8>, ApiError>) {
        Ok(Vec::new())
    }
}

impl FromBytes for () {
    open spec fn decoding(bytes: Seq<u8>) -> Result<((), Seq<u8>), ApiError> {
        Ok(((), bytes))
    }

    proof fn lemma_round_trip(v: (), rest: Seq<u8>) {
        assert(Seq::<u8>::empty() + rest =~= rest);
    }

    proof fn lemma_decoding_canonical(bytes: Seq<u8>) {
        assert(Seq::<u8>::empty() + bytes =~= bytes);
    }

    fn from_bytes(bytes: &[u8]) -> (r: Result<((), &[u8]), ApiError>) {
        Ok(((), bytes))
    }
}

/// The block that agrees with `bytes` on its first `n` places and holds zero
/// on the others.
pub open spec fn block_prefix<const N: usize>(bytes: Seq<u8>, n: nat) -> [u8; N]
    decreases n,
{
    if n == 0 {
        spec_array_fill_for_copy_type::<u8, N>(0u8)
    } else {
        spec_array_update(block_prefix::<N>(bytes, (n - 1) as nat), n - 1, bytes[n - 1])
    }
}

/// The block whose bytes are `bytes`.
pub open spec fn block_of<const N: usize>(bytes: Seq<u8>) -> [u8; N] {
    block_prefix::<N>(bytes, N as nat)
}

proof fn lemma_block_prefix<const N: usize>(bytes: Seq<u8>, n: nat)
    requires
        n <= N,
        bytes.len() == N,
    ensures
        forall|i: int| 0 <= i < n ==> block_prefix::<N>(bytes, n)@[i] == bytes[i],
    decreases n,
{
    if n > 0 {
        lemma_block_prefix::<N>(bytes, (n - 1) as nat);
        axiom_spec_array_update(block_prefix::<N>(bytes, (n - 1) as nat), n - 1, bytes[n - 1]);
    }
}

/// As many bytes as a block holds are the bytes of their block.
pub proof fn lemma_block_view<const N: usize>(bytes: Seq<u8>)
    requires
        bytes.len() == N,
    ensures
        block_of::<N>(bytes)@ == bytes,
{
    lemma_block_prefix::<N>(bytes, N as nat);
    assert(block_of::<N>(bytes)@ =~= bytes);
}

/// A block is the block of its own bytes.
pub proof fn lemma_block_of<const N: usize>(block: [u8; N])
    ensures
        block_of::<N>(block@) == block,
{
    lemma_block_view::<N>(block@);
    assert(block_of::<N>(block@)@ == block@);
    assert(block_of::<N>(block@) =~= block);
}

/// The bytes of a block of fixed size, in order.
pub fn block_to_vec<const N: usize>(block: &[u8; N]) -> (out: Vec<u8>)
    ensures
        out@ == block@,
{
    let mut out: Vec<u8> = Vec::new();
    let mut i: usize = 0;
    while i < N
        invariant
            i <= N,
            block@.len() == N,
            out@ == block@.subrange(0, i as int),
        decreases N - i,
    {
        out.push(block[i]);
        i += 1;
        assert(out@ =~= block@.subrange(0, i as int));
    }
    assert(block@.subrange(0, N as int) =~= block@);
    out
}

/// The block of fixed size that holds the bytes of `bytes`.
pub fn block_from_slice<const N: usize>(bytes: &[u8]) -> (block: [u8; N])
    requires
        bytes@.len() == N,
    ensures
        block@ == bytes@,
{
    let mut block: [u8; N] = array_fill_for_copy_types(0u8);
    let mut i: usize = 0;
    while i < N
        invariant
            i <= N,
            bytes@.len() == N,
            block@.len() == N,
            forall|j: int| 0 <= j < i ==> block@[j] == bytes@[j],
        decreases N - i,
    {
        block[i] = bytes[i];
        i += 1;
    }
    assert(block@ =~= bytes@);
    block
}

/// Whether two blocks hold the same bytes.
pub fn block_eq<const N: usize>(a: &[u8; N], b: &[u8; N]) -> (same: bool)
    ensures
        same == (*a == *b),
{
    let mut i: usize = 0;
    while i < N
        invariant
            i <= N,
            a@.len() == N,
            b@.len() == N,
            forall|j: int| 0 <= j < i ==> a@[j] == b@[j],
        decreases N - i,
    {
        if a[i] != b[i] {
            return false;
        }
        i += 1;
    }
    assert(a@ =~= b@);
    assert(*a =~= *b);
    true
}

/// The block of `N` bytes at the front of `bytes`, as its bytes, and what
/// follows it.
pub open spec fn block_decoding<const N: usize>(bytes: Seq<u8>) -> Result<
    (Seq<u8>, Seq<u8>),
    ApiError,
> {
    if bytes.len() >= N {
        Ok((bytes.subrange(0, N as int), bytes.subrange(N as int, bytes.len() as int)))
    } else {
        Err(ApiError::EarlyEndOfStream)
    }
}

/// Reads a block of `N` bytes from the front of `bytes`.
pub fn read_block<const N: usize>(bytes: &[u8]) -> (r: Result<([u8; N], &[u8]), ApiError>)
    ensures
        match block_decoding::<N>(bytes@) {
            Ok((v, rest)) => r matches Ok((x, tail)) && x@ == v && x == block_of::<N>(v) && tail@
                == rest,
            Err(e) => r matches Err(f) && f == e,
        },
{
    match take_bytes(bytes, N) {
        Ok((head, tail)) => {
            let block: [u8; N] = block_from_slice(head);
            proof {
                lemma_block_of::<N>(block);
            }
            Ok((block, tail))
        },
        Err(e) => Err(e),
    }
}

/// A block is read back from its bytes, and what is read as a block was
/// encoded as the bytes consumed.
pub proof fn lemma_block_round_trip<const N: usize>(v: Seq<u8>, rest: Seq<u8>, bytes: Seq<u8>)
    ensures
        v.len() == N ==> block_decoding::<N>(v + rest) == Ok::<(Seq<u8>, Seq<u8>), ApiError>(
            (v, rest),
        ),
        block_decoding::<N>(bytes) matches Ok((w, tail)) ==> w.len() == N && bytes == w + tail,
{
    if v.len() == N {
        let b = v + rest;
        assert(b.subrange(0, N as int) =~= v);
        assert(b.subrange(N as int, b.len() as int) =~= rest);
    }
    if bytes.len() >= N {
        assert(bytes =~= bytes.subrange(0, N as int) + bytes.subrange(N as int, bytes.len() as int));
    }
}

impl<const N: usize> ToBytes for [u8; N] {
    open spec fn encoding(v: Seq<u8>) -> Seq<u8> {
        v
    }

    open spec fn representable(v: Seq<u8>) -> bool {
        v.len() == N
    }

    fn to_bytes(&self) -> (r: Result<Vec<u8>, ApiError>) {
        assert(self.deep_view() =~= self@);
        Ok(block_to_vec(self))
    }
}

impl<const N: usize> FromBytes for [u8; N] {
    open spec fn decoding(bytes: Seq<u8>) -> Result<(Seq<u8>, Seq<u8>), ApiError> {
        block_decoding::<N>(bytes)
    }

    proof fn lemma_round_trip(v: Seq<u8>, rest: Seq<u8>) {
        lemma_block_round_trip::<N>(v, rest, rest);
    }

    proof fn lemma_decoding_canonical(bytes: Seq<u8>) {
        lemma_block_round_trip::<N>(bytes, bytes, bytes);
    }

    fn from_bytes(bytes: &[u8]) -> (r: Result<([u8; N], &[u8]), ApiError>) {
        match read_block::<N>(bytes) {
            Ok((block, tail)) => {
                assert(block.deep_view() =~= block@);
                Ok((block, tail))
            },
            Err(e) => Err(e),
        }
    }
}

/// The tag in front of an absent optional value.
pub const TAG_NONE: u8 = 0;

/// The tag in front of a present optional value.
pub const TAG_SOME: u8 = 1;

impl<T: ToBytes> ToBytes for Option<T> {
    open spec fn encoding(v: Option<T::V>) -> Seq<u8> {
        match v {
            None => seq![TAG_NONE],
            Some(x) => seq![TAG_SOME] + T::encoding(x),
        }
    }

    open spec fn representable(v: Option<T::V>) -> bool {
        match v {
            None => true,
            Some(x) => T::representable(x),
        }
    }

    fn to_bytes(&self) -> (r: Result<Vec<u8>, ApiError>) {
        let mut out: Vec<u8> = Vec::new();
        match self {
            None => {
                out.push(TAG_NONE);
                assert(out@ =~= seq![TAG_NONE]);
                Ok(out)
            },
            Some(x) => {
                out.push(TAG_SOME);
                let body = x.to_bytes()?;
                append_bytes(&mut out, body.as_slice());
                assert(out@ =~= seq![TAG_SOME] + body@);
                Ok(out)
            },
        }
    }
}

impl<T: FromBytes> FromBytes for Option<T> {
    open spec fn decoding(bytes: Seq<u8>) -> Result<(Option<T::V>, Seq<u8>), ApiError> {
        match byte_decoding(bytes) {
            Err(e) => Err(e),
            Ok((tag, rest)) => {
                if tag == TAG_NONE {
                    Ok((None, rest))
                } else if tag == TAG_SOME {
                    match T::decoding(rest) {
                        Err(e) => Err(e),
                        Ok((x, tail)) => Ok((Some(x), tail)),
                    }
                } else {
                    Err(ApiError::Formatting)
                }
            },
        }
    }

    proof fn lemma_round_trip(v: Option<T::V>, rest: Seq<u8>) {
        match v {
            None => {
                lemma_int_round_trip(TAG_NONE, 0, 0, rest);
            },
            Some(x) => {
                lemma_int_round_trip(TAG_SOME, 0, 0, T::encoding(x) + rest);
                assert((seq![TAG_SOME] + T::encoding(x)) + rest =~= seq![TAG_SOME] + (T::encoding(x)
                    + rest));
                T::lemma_round_trip(x, rest);
            },
        }
    }

    proof fn lemma_decoding_canonical(bytes: Seq<u8>) {
        lemma_int_canonical(bytes);
        if let Ok((tag, rest)) = byte_decoding(bytes) {
            if tag == TAG_SOME {
                T::lemma_decoding_canonical(rest);
                if let Ok((x, tail)) = T::decoding(rest) {
                    assert(bytes =~= (seq![TAG_SOME] + T::encoding(x)) + tail);
                }
            }
        }
    }

    fn from_bytes(bytes: &[u8]) -> (r: Result<(Option<T>, &[u8]), ApiError>) {
        let (tag, rest) = match read_u8(bytes) {
            Ok(p) => p,
            Err(e) => { return Err(e); },
        };
        if tag == TAG_NONE {
            Ok((None, rest))
        } else if tag == TAG_SOME {
            match T::from_bytes(rest) {
                Ok((x, tail)) => Ok((Some(x), tail)),
                Err(e) => Err(e),
            }
        } else {
            Err(ApiError::Formatting)
        }
    }
}

impl<A: ToBytes, B: ToBytes> ToBytes for (A, B) {
    open spec fn encoding(v: (A::V, B::V)) -> Seq<u8> {
        A::encoding(v.0) + B::encoding(v.1)
    }

    open spec fn representable(v: (A::V, B::V)) -> bool {
        A::representable(v.0) && B::representable(v.1)
    }

    fn to_bytes(&self) -> (r: Result<Vec<u8>, ApiError>) {
        let mut out = self.0.to_bytes()?;
        let second = self.1.to_bytes()?;
        append_bytes(&mut out, second.as_slice());
        Ok(out)
    }
}

impl<A: FromBytes, B: FromBytes> FromBytes for (A, B) {
    open spec fn decoding(bytes: Seq<u8>) -> Result<((A::V, B::V), Seq<u8>), ApiError> {
        match A::decoding(bytes) {
            Err(e) => Err(e),
            Ok((a, rest)) => match B::decoding(rest) {
                Err(e) => Err(e),
                Ok((b, tail)) => Ok(((a, b), tail)),
            },
        }
    }

    proof fn lemma_round_trip(v: (A::V, B::V), rest: Seq<u8>) {
        assert((A::encoding(v.0) + B::encoding(v.1)) + rest =~= A::encoding(v.0) + (B::encoding(v.1)
            + rest));
        A::lemma_round_trip(v.0, B::encoding(v.1) + rest);
        B::lemma_round_trip(v.1, rest);
    }

    proof fn lemma_decoding_canonical(bytes: Seq<u8>) {
        A::lemma_decoding_canonical(bytes);
        if let Ok((a, rest)) = A::decoding(bytes) {
            B::lemma_decoding_canonical(rest);
            if let Ok((b, tail)) = B::decoding(rest) {
                assert(bytes =~= (A::encoding(a) + B::encoding(b)) + tail);
            }
        }
    }

    fn from_bytes(bytes: &[u8]) -> (r: Result<((A, B), &[u8]), ApiError>) {
        let (a, rest) = match A::from_bytes(bytes) {
            Ok(p) => p,
            Err(e) => { return Err(e); },
        };
        match B::from_bytes(rest) {
            Ok((b, tail)) => Ok(((a, b), tail)),
            Err(e) => Err(e),
        }
    }
}

} // verus!
