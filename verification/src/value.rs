//! The plain values that the host hands out about the running execution:
//! the caller's identity, the block time and the phase; purses and amounts.

use crate::bytesrepr::{
    byte_decoding, lemma_int_canonical, lemma_int_round_trip, read_u64, read_u8, u64_decoding,
    FromBytes, ToBytes,
};
use crate::error::ApiError;
use crate::sequence::{
    block_decoding, block_of, block_to_vec, lemma_block_of, lemma_block_round_trip,
    lemma_block_view, read_block,
};
use crate::uref::{
    lemma_uref_canonical, lemma_uref_round_trip, read_uref, uref_decoding, uref_encoding,
    uref_to_bytes, URef,
};
use vstd::bytes::*;
use vstd::prelude::*;

verus! {

/// The identity of an account.
#[derive(Clone, Copy, Debug, PartialEq, Eq)]
pub struct PublicKey {
    pub bytes: [u8; 32],
}

/// The number of bytes in the encoding of an identity.
pub const PUBLIC_KEY_SERIALIZED_LENGTH: usize = 32;

impl DeepView for PublicKey {
    type V = PublicKey;

    open spec fn deep_view(&self) -> PublicKey {
        *self
    }
}

impl ToBytes for PublicKey {
    open spec fn encoding(v: PublicKey) -> Seq<u8> {
        v.bytes@
    }

    open spec fn representable(v: PublicKey) -> bool {
        true
    }

    fn to_bytes(&self) -> (r: Result<Vec<u8>, ApiError>) {
        Ok(block_to_vec(&self.bytes))
    }
}

impl FromBytes for PublicKey {
    open spec fn decoding(bytes: Seq<u8>) -> Result<(PublicKey, Seq<u8>), ApiError> {
        match block_decoding::<32>(bytes) {
            Err(e) => Err(e),
            Ok((block, rest)) => Ok((PublicKey { bytes: block_of::<32>(block) }, rest)),
        }
    }

    proof fn lemma_round_trip(v: PublicKey, rest: Seq<u8>) {
        lemma_block_round_trip::<32>(v.bytes@, rest, rest);
        lemma_block_of::<32>(v.bytes);
    }

    proof fn lemma_decoding_canonical(bytes: Seq<u8>) {
        lemma_block_round_trip::<32>(bytes, bytes, bytes);
        if let Ok((block, rest)) = block_decoding::<32>(bytes) {
            lemma_block_view::<32>(block);
        }
    }

    fn from_bytes(bytes: &[u8]) -> (r: Result<(PublicKey, &[u8]), ApiError>) {
        match read_block::<32>(bytes) {
            Ok((block, rest)) => Ok((PublicKey { bytes: block }, rest)),
            Err(e) => Err(e),
        }
    }
}

/// The time of the block in which the execution runs, in milliseconds.
#[derive(Clone, Copy, Debug, PartialEq, Eq, Structural)]
pub struct BlockTime {
    pub millis: u64,
}

/// The number of bytes in the encoding of a block time.
pub const BLOCKTIME_SERIALIZED_LENGTH: usize = 8;

impl DeepView for BlockTime {
    type V = BlockTime;

    open spec fn deep_view(&self) -> BlockTime {
        *self
    }
}

impl ToBytes for BlockTime {
    open spec fn encoding(v: BlockTime) -> Seq<u8> {
        spec_u64_to_le_bytes(v.millis)
    }

    open spec fn representable(v: BlockTime) -> bool {
        true
    }

    fn to_bytes(&self) -> (r: Result<Vec<u8>, ApiError>) {
        Ok(u64_to_le_bytes(self.millis))
    }
}

impl FromBytes for BlockTime {
    open spec fn decoding(bytes: Seq<u8>) -> Result<(BlockTime, Seq<u8>), ApiError> {
        match u64_decoding(bytes) {
            Err(e) => Err(e),
            Ok((millis, rest)) => Ok((BlockTime { millis }, rest)),
        }
    }

    proof fn lemma_round_trip(v: BlockTime, rest: Seq<u8>) {
        lemma_int_round_trip(0, 0, v.millis, rest);
    }

    proof fn lemma_decoding_canonical(bytes: Seq<u8>) {
        lemma_int_canonical(bytes);
    }

    fn from_bytes(bytes: &[u8]) -> (r: Result<(BlockTime, &[u8]), ApiError>) {
        match read_u64(bytes) {
            Ok((millis, rest)) => Ok((BlockTime { millis }, rest)),
            Err(e) => Err(e),
        }
    }
}

/// The stage of processing in which the execution runs.
#[derive(Clone, Copy, Debug, PartialEq, Eq, Structural)]
pub enum Phase {
    System,
    Payment,
    Session,
    FinalizePayment,
}

/// The number of bytes in the encoding of a phase.
pub const PHASE_SERIALIZED_LENGTH: usize = 1;

/// The byte that marks a phase.
pub open spec fn phase_tag(p: Phase) -> u8 {
    match p {
        Phase::System => 0,
        Phase::Payment => 1,
        Phase::Session => 2,
        Phase::FinalizePayment => 3,
    }
}

impl DeepView for Phase {
    type V = Phase;

    open spec fn deep_view(&self) -> Phase {
        *self
    }
}

impl ToBytes for Phase {
    open spec fn encoding(v: Phase) -> Seq<u8> {
        seq![phase_tag(v)]
    }

    open spec fn representable(v: Phase) -> bool {
        true
    }

    fn to_bytes(&self) -> (r: Result<Vec<u8>, ApiError>) {
        let tag: u8 = match self {
            Phase::System => 0,
            Phase::Payment => 1,
            Phase::Session => 2,
            Phase::FinalizePayment => 3,
        };
        let mut out: Vec<u8> = Vec::new();
        out.push(tag);
        assert(out@ =~= seq![phase_tag(*self)]);
        Ok(out)
    }
}

impl FromBytes for Phase {
    open spec fn decoding(bytes: Seq<u8>) -> Result<(Phase, Seq<u8>), ApiError> {
        match byte_decoding(bytes) {
            Err(e) => Err(e),
            Ok((tag, rest)) => {
                if tag == 0 {
                    Ok((Phase::System, rest))
                } else if tag == 1 {
                    Ok((Phase::Payment, rest))
                } else if tag == 2 {
                    Ok((Phase::Session, rest))
                } else if tag == 3 {
                    Ok((Phase::FinalizePayment, rest))
                } else {
                    Err(ApiError::Formatting)
                }
            },
        }
    }

    proof fn lemma_round_trip(v: Phase, rest: Seq<u8>) {
        lemma_int_round_trip(phase_tag(v), 0, 0, rest);
    }

    proof fn lemma_decoding_canonical(bytes: Seq<u8>) {
        lemma_int_canonical(bytes);
    }

    fn from_bytes(bytes: &[u8]) -> (r: Result<(Phase, &[u8]), ApiError>) {
        let (tag, rest) = match read_u8(bytes) {
            Ok(p) => p,
            Err(e) => { return Err(e); },
        };
        if tag == 0 {
            Ok((Phase::System, rest))
        } else if tag == 1 {
            Ok((Phase::Payment, rest))
        } else if tag == 2 {
            Ok((Phase::Session, rest))
        } else if tag == 3 {
            Ok((Phase::FinalizePayment, rest))
        } else {
            Err(ApiError::Formatting)
        }
    }
}

/// A purse: the unforgeable reference under which a balance is kept.
#[derive(Clone, Copy, Debug, PartialEq, Eq)]
pub struct PurseId {
    pub uref: URef,
}

impl PurseId {
    pub fn new(uref: URef) -> (p: PurseId)
        ensures
            p.uref == uref,
    {
        PurseId { uref }
    }

    /// The reference behind the purse.
    pub fn value(&self) -> (u: URef)
        ensures
            u == self.uref,
    {
        self.uref
    }
}

impl DeepView for PurseId {
    type V = PurseId;

    open spec fn deep_view(&self) -> PurseId {
        *self
    }
}

impl ToBytes for PurseId {
    open spec fn encoding(v: PurseId) -> Seq<u8> {
        uref_encoding(v.uref)
    }

    open spec fn representable(v: PurseId) -> bool {
        true
    }

    fn to_bytes(&self) -> (r: Result<Vec<u8>, ApiError>) {
        Ok(uref_to_bytes(&self.uref))
    }
}

impl FromBytes for PurseId {
    open spec fn decoding(bytes: Seq<u8>) -> Result<(PurseId, Seq<u8>), ApiError> {
        match uref_decoding(bytes) {
            Err(e) => Err(e),
            Ok((uref, rest)) => Ok((PurseId { uref }, rest)),
        }
    }

    proof fn lemma_round_trip(v: PurseId, rest: Seq<u8>) {
        lemma_uref_round_trip(v.uref, rest);
    }

    proof fn lemma_decoding_canonical(bytes: Seq<u8>) {
        lemma_uref_canonical(bytes);
    }

    fn from_bytes(bytes: &[u8]) -> (r: Result<(PurseId, &[u8]), ApiError>) {
        match read_uref(bytes) {
            Ok((uref, rest)) => Ok((PurseId { uref }, rest)),
            Err(e) => Err(e),
        }
    }
}

/// An amount: an unsigned number of 512 bits, held as 64 bytes with the least
/// significant byte first.
#[derive(Clone, Copy, Debug, PartialEq, Eq)]
pub struct U512 {
    pub bytes: [u8; 64],
}

/// The number of bytes in the encoding of an amount.
pub const U512_SERIALIZED_LENGTH: usize = 64;

impl U512 {
    /// The amount with the value of `n`.
    pub fn from_u64(n: u64) -> (a: U512)
        ensures
            a.bytes@.subrange(0, 8) == spec_u64_to_le_bytes(n),
            forall|i: int| 8 <= i < 64 ==> a.bytes@[i] == 0u8,
    {
        let low = u64_to_le_bytes(n);
        proof {
            lemma_auto_spec_u64_to_from_le_bytes();
        }
        let mut bytes: [u8; 64] = [0u8; 64];
        let mut i: usize = 0;
        while i < 8
            invariant
                i <= 8,
                low@.len() == 8,
                forall|j: int| 0 <= j < i ==> bytes@[j] == low@[j],
                forall|j: int| i <= j < 64 ==> bytes@[j] == 0u8,
            decreases 8 - i,
        {
            bytes[i] = low[i];
            i += 1;
        }
        assert(bytes@.subrange(0, 8) =~= low@);
        U512 { bytes }
    }
}

impl DeepView for U512 {
    type V = U512;

    open spec fn deep_view(&self) -> U512 {
        *self
    }
}

impl ToBytes for U512 {
    open spec fn encoding(v: U512) -> Seq<u8> {
        v.bytes@
    }

    open spec fn representable(v: U512) -> bool {
        true
    }

    fn to_bytes(&self) -> (r: Result<Vec<u8>, ApiError>) {
        Ok(block_to_vec(&self.bytes))
    }
}

impl FromBytes for U512 {
    open spec fn decoding(bytes: Seq<u8>) -> Result<(U512, Seq<u8>), ApiError> {
        match block_decoding::<64>(bytes) {
            Err(e) => Err(e),
            Ok((block, rest)) => Ok((U512 { bytes: block_of::<64>(block) }, rest)),
        }
    }

    proof fn lemma_round_trip(v: U512, rest: Seq<u8>) {
        lemma_block_round_trip::<64>(v.bytes@, rest, rest);
        lemma_block_of::<64>(v.bytes);
    }

    proof fn lemma_decoding_canonical(bytes: Seq<u8>) {
        lemma_block_round_trip::<64>(bytes, bytes, bytes);
        if let Ok((block, rest)) = block_decoding::<64>(bytes) {
            lemma_block_view::<64>(block);
        }
    }

    fn from_bytes(bytes: &[u8]) -> (r: Result<(U512, &[u8]), ApiError>) {
        match read_block::<64>(bytes) {
            Ok((block, rest)) => Ok((U512 { bytes: block }, rest)),
            Err(e) => Err(e),
        }
    }
}

/// The encodings of the values of fixed size have the lengths that both sides
/// of the boundary agree on.
pub proof fn lemma_fixed_lengths(who: PublicKey, when: BlockTime, phase: Phase, uref: URef)
    ensures
        PublicKey::encoding(who).len() == PUBLIC_KEY_SERIALIZED_LENGTH,
        BlockTime::encoding(when).len() == BLOCKTIME_SERIALIZED_LENGTH,
        Phase::encoding(phase).len() == PHASE_SERIALIZED_LENGTH,
        uref_encoding(uref).len() == crate::uref::UREF_SERIALIZED_LENGTH,
{
    lemma_auto_spec_u64_to_from_le_bytes();
}

} // verus!
