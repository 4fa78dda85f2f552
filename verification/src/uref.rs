//! Unforgeable references and the rights they carry.

use crate::bytesrepr::{
    byte_decoding, lemma_int_canonical, lemma_int_round_trip, read_u8, FromBytes, ToBytes,
};
use crate::error::ApiError;
use crate::sequence::{
    block_decoding, block_eq, block_of, block_to_vec, lemma_block_of, lemma_block_round_trip,
    lemma_block_view, read_block,
};
use vstd::prelude::*;

verus! {

/// What the holder of a reference may do with the value behind it. The host,
/// not the guest, enforces these.
#[derive(Clone, Copy, Debug, PartialEq, Eq, Structural)]
pub struct AccessRights {
    pub read: bool,
    pub write: bool,
    pub add: bool,
}

/// The number of bytes in the encoding of an unforgeable reference.
pub const UREF_SERIALIZED_LENGTH: usize = 33;

/// The bit mask that stands for a set of rights: 1 for read, 2 for write, 4
/// for add.
pub open spec fn rights_mask(r: AccessRights) -> u8 {
    ((if r.read { 1int } else { 0 }) + (if r.write { 2int } else { 0 }) + (if r.add { 4int } else { 0 })) as u8
}

/// The rights that a mask of at most 7 stands for.
pub open spec fn mask_rights(mask: u8) -> AccessRights {
    AccessRights { read: mask % 2 == 1, write: (mask / 2) % 2 == 1, add: (mask / 4) % 2 == 1 }
}

/// The rights at the front of `bytes`: one byte, a mask of at most 7.
pub open spec fn rights_decoding(bytes: Seq<u8>) -> Result<(AccessRights, Seq<u8>), ApiError> {
    match byte_decoding(bytes) {
        Err(e) => Err(e),
        Ok((mask, rest)) => if mask <= 7 {
            Ok((mask_rights(mask), rest))
        } else {
            Err(ApiError::Formatting)
        },
    }
}

impl AccessRights {
    /// No right at all.
    pub fn none() -> (r: AccessRights)
        ensures
            r == (AccessRights { read: false, write: false, add: false }),
    {
        AccessRights { read: false, write: false, add: false }
    }

    /// Every right.
    pub fn all() -> (r: AccessRights)
        ensures
            r == (AccessRights { read: true, write: true, add: true }),
    {
        AccessRights { read: true, write: true, add: true }
    }

    /// The mask of these rights.
    pub fn bits(&self) -> (mask: u8)
        ensures
            mask == rights_mask(*self),
            mask <= 7,
    {
        let mut mask: u8 = 0;
        if self.read {
            mask = mask + 1;
        }
        if self.write {
            mask = mask + 2;
        }
        if self.add {
            mask = mask + 4;
        }
        mask
    }

    /// The rights of a mask, if it names no bit beyond the three.
    pub fn from_bits(mask: u8) -> (r: Option<AccessRights>)
        ensures
            mask <= 7 ==> r == Some(mask_rights(mask)),
            mask > 7 ==> r is None,
    {
        if mask > 7 {
            None
        } else {
            Some(AccessRights { read: mask % 2 == 1, write: (mask / 2) % 2 == 1, add: (mask / 4) % 2 == 1 })
        }
    }
}

/// A mask and the rights it stands for determine each other.
pub proof fn lemma_rights_mask_round_trip(r: AccessRights, mask: u8)
    ensures
        rights_mask(r) <= 7,
        mask_rights(rights_mask(r)) == r,
        mask <= 7 ==> rights_mask(mask_rights(mask)) == mask,
{
}

/// Reads rights from the front of `bytes`.
pub fn read_rights(bytes: &[u8]) -> (r: Result<(AccessRights, &[u8]), ApiError>)
    ensures
        match rights_decoding(bytes@) {
            Ok((v, rest)) => r matches Ok((x, tail)) && x == v && tail@ == rest,
            Err(e) => r matches Err(f) && f == e,
        },
{
    let (mask, rest) = match read_u8(bytes) {
        Ok(p) => p,
        Err(e) => { return Err(e); },
    };
    match AccessRights::from_bits(mask) {
        Some(rights) => Ok((rights, rest)),
        None => Err(ApiError::Formatting),
    }
}

impl DeepView for AccessRights {
    type V = AccessRights;

    open spec fn deep_view(&self) -> AccessRights {
        *self
    }
}

impl ToBytes for AccessRights {
    open spec fn encoding(v: AccessRights) -> Seq<u8> {
        seq![rights_mask(v)]
    }

    open spec fn representable(v: AccessRights) -> bool {
        true
    }

    fn to_bytes(&self) -> (r: Result<Vec<u8>, ApiError>) {
        let mut out: Vec<u8> = Vec::new();
        out.push(self.bits());
        assert(out@ =~= seq![rights_mask(*self)]);
        Ok(out)
    }
}

impl FromBytes for AccessRights {
    open spec fn decoding(bytes: Seq<u8>) -> Result<(AccessRights, Seq<u8>), ApiError> {
        rights_decoding(bytes)
    }

    proof fn lemma_round_trip(v: AccessRights, rest: Seq<u8>) {
        lemma_int_round_trip(rights_mask(v), 0, 0, rest);
        lemma_rights_mask_round_trip(v, 0);
    }

    proof fn lemma_decoding_canonical(bytes: Seq<u8>) {
        lemma_int_canonical(bytes);
        if let Ok((mask, rest)) = byte_decoding(bytes) {
            lemma_rights_mask_round_trip(AccessRights { read: false, write: false, add: false }, mask);
        }
    }

    fn from_bytes(bytes: &[u8]) -> (r: Result<(AccessRights, &[u8]), ApiError>) {
        read_rights(bytes)
    }
}

/// An unforgeable reference: the address of a storage location together with
/// the rights that this instance of the reference carries. Two references to
/// one address with different rights are different values.
#[derive(Clone, Copy, Debug, PartialEq, Eq)]
pub struct URef {
    pub addr: [u8; 32],
    pub rights: AccessRights,
}

/// The encoding of a reference: its address, then the mask of its rights.
pub open spec fn uref_encoding(u: URef) -> Seq<u8> {
    u.addr@ + seq![rights_mask(u.rights)]
}

/// The reference at the front of `bytes` and what follows it.
pub open spec fn uref_decoding(bytes: Seq<u8>) -> Result<(URef, Seq<u8>), ApiError> {
    match block_decoding::<32>(bytes) {
        Err(e) => Err(e),
        Ok((addr, rest)) => match rights_decoding(rest) {
            Err(e) => Err(e),
            Ok((rights, tail)) => Ok((URef { addr: block_of::<32>(addr), rights }, tail)),
        },
    }
}

/// A reference is read back from its encoding.
pub proof fn lemma_uref_round_trip(u: URef, rest: Seq<u8>)
    ensures
        uref_decoding(uref_encoding(u) + rest) == Ok::<(URef, Seq<u8>), ApiError>((u, rest)),
        uref_encoding(u).len() == UREF_SERIALIZED_LENGTH,
{
    let after = seq![rights_mask(u.rights)] + rest;
    assert(uref_encoding(u) + rest =~= u.addr@ + after);
    lemma_block_round_trip::<32>(u.addr@, after, after);
    lemma_int_round_trip(rights_mask(u.rights), 0, 0, rest);
    lemma_rights_mask_round_trip(u.rights, 0);
    lemma_block_of::<32>(u.addr);
}

/// What is read as a reference was encoded as the bytes consumed.
pub proof fn lemma_uref_canonical(bytes: Seq<u8>)
    ensures
        uref_decoding(bytes) matches Ok((u, tail)) ==> bytes == uref_encoding(u) + tail,
{
    lemma_block_round_trip::<32>(bytes, bytes, bytes);
    if let Ok((addr, rest)) = block_decoding::<32>(bytes) {
        lemma_int_canonical(rest);
        if let Ok((mask, tail)) = byte_decoding(rest) {
            lemma_rights_mask_round_trip(AccessRights { read: false, write: false, add: false }, mask);
            lemma_block_view::<32>(addr);
            if mask <= 7 {
                assert(bytes =~= (addr + seq![mask]) + tail);
            }
        }
    }
}

/// Encodes a reference.
pub fn uref_to_bytes(u: &URef) -> (out: Vec<u8>)
    ensures
        out@ == uref_encoding(*u),
{
    let mut out = block_to_vec(&u.addr);
    out.push(u.rights.bits());
    assert(out@ =~= uref_encoding(*u));
    out
}

/// Reads a reference from the front of `bytes`.
pub fn read_uref(bytes: &[u8]) -> (r: Result<(URef, &[u8]), ApiError>)
    ensures
        match uref_decoding(bytes@) {
            Ok((v, rest)) => r matches Ok((x, tail)) && x == v && tail@ == rest,
            Err(e) => r matches Err(f) && f == e,
        },
{
    let (addr, rest) = match read_block::<32>(bytes) {
        Ok(p) => p,
        Err(e) => { return Err(e); },
    };
    match read_rights(rest) {
        Ok((rights, tail)) => Ok((URef { addr, rights }, tail)),
        Err(e) => Err(e),
    }
}

impl URef {
    pub fn new(addr: [u8; 32], rights: AccessRights) -> (u: URef)
        ensures
            u == (URef { addr, rights }),
    {
        URef { addr, rights }
    }

    /// The address behind the reference.
    pub fn addr(&self) -> (a: [u8; 32])
        ensures
            a == self.addr,
    {
        self.addr
    }

    /// The rights this instance carries.
    pub fn access_rights(&self) -> (r: AccessRights)
        ensures
            r == self.rights,
    {
        self.rights
    }

    /// Structural equality: the same address and the same rights.
    pub fn same(&self, other: &URef) -> (b: bool)
        ensures
            b == (*self == *other),
    {
        block_eq(&self.addr, &other.addr) && self.rights == other.rights
    }
}

impl DeepView for URef {
    type V = URef;

    open spec fn deep_view(&self) -> URef {
        *self
    }
}

impl ToBytes for URef {
    open spec fn encoding(v: URef) -> Seq<u8> {
        uref_encoding(v)
    }

    open spec fn representable(v: URef) -> bool {
        true
    }

    fn to_bytes(&self) -> (r: Result<Vec<u8>, ApiError>) {
        Ok(uref_to_bytes(self))
    }
}

impl FromBytes for URef {
    open spec fn decoding(bytes: Seq<u8>) -> Result<(URef, Seq<u8>), ApiError> {
        uref_decoding(bytes)
    }

    proof fn lemma_round_trip(v: URef, rest: Seq<u8>) {
        lemma_uref_round_trip(v, rest);
    }

    proof fn lemma_decoding_canonical(bytes: Seq<u8>) {
        lemma_uref_canonical(bytes);
    }

    fn from_bytes(bytes: &[u8]) -> (r: Result<(URef, &[u8]), ApiError>) {
        read_uref(bytes)
    }
}

} // verus!
