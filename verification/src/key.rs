//! Opaque references to addressable entities, and references to programs.

use crate::bytesrepr::{
    append_bytes, byte_decoding, lemma_int_canonical, lemma_int_round_trip, read_u8, FromBytes,
    ToBytes,
};
use crate::error::ApiError;
use crate::sequence::{
    block_decoding, block_eq, block_of, block_to_vec, lemma_block_of, lemma_block_round_trip,
    lemma_block_view, read_block,
};
use crate::uref::{
    lemma_uref_canonical, lemma_uref_round_trip, read_uref, uref_decoding, uref_encoding,
    uref_to_bytes, URef,
};
use vstd::prelude::*;

verus! {

/// A reference to an addressable entity: an account, a stored program, a
/// storage location behind an unforgeable reference, or a location local to
/// one program.
#[derive(Clone, Copy, Debug, PartialEq, Eq)]
pub enum Key {
    Account([u8; 32]),
    Hash([u8; 32]),
    URef(URef),
    Local([u8; 32]),
}

pub const KEY_TAG_ACCOUNT: u8 = 0;

pub const KEY_TAG_HASH: u8 = 1;

pub const KEY_TAG_UREF: u8 = 2;

pub const KEY_TAG_LOCAL: u8 = 3;

/// The largest number of bytes that the encoding of a key takes. A receive
/// buffer of this size holds any key.
pub const KEY_MAX_SERIALIZED_LENGTH: usize = 34;

impl Key {
    /// The size to give a receive buffer that is to hold one key.
    pub fn serialized_size_hint() -> (n: usize)
        ensures
            n == KEY_MAX_SERIALIZED_LENGTH,
    {
        KEY_MAX_SERIALIZED_LENGTH
    }

    /// Structural equality.
    pub fn same(&self, other: &Key) -> (b: bool)
        ensures
            b == (*self == *other),
    {
        match (self, other) {
            (Key::Account(a), Key::Account(b)) => block_eq(a, b),
            (Key::Hash(a), Key::Hash(b)) => block_eq(a, b),
            (Key::URef(a), Key::URef(b)) => a.same(b),
            (Key::Local(a), Key::Local(b)) => block_eq(a, b),
            _ => false,
        }
    }
}

impl DeepView for Key {
    type V = Key;

    open spec fn deep_view(&self) -> Key {
        *self
    }
}

/// The encoding of a key: the tag of its variant, then the address or the
/// reference.
pub open spec fn key_encoding(k: Key) -> Seq<u8> {
    match k {
        Key::Account(addr) => seq![KEY_TAG_ACCOUNT] + addr@,
        Key::Hash(addr) => seq![KEY_TAG_HASH] + addr@,
        Key::URef(uref) => seq![KEY_TAG_UREF] + uref_encoding(uref),
        Key::Local(addr) => seq![KEY_TAG_LOCAL] + addr@,
    }
}

/// The key with the given tag over the address at the front of `rest`.
pub open spec fn key_of_block(tag: u8, rest: Seq<u8>) -> Result<(Key, Seq<u8>), ApiError> {
    match block_decoding::<32>(rest) {
        Err(e) => Err(e),
        Ok((addr, tail)) => if tag == KEY_TAG_ACCOUNT {
            Ok((Key::Account(block_of::<32>(addr)), tail))
        } else if tag == KEY_TAG_HASH {
            Ok((Key::Hash(block_of::<32>(addr)), tail))
        } else {
            Ok((Key::Local(block_of::<32>(addr)), tail))
        },
    }
}

/// The key at the front of `bytes` and what follows it.
pub open spec fn key_decoding(bytes: Seq<u8>) -> Result<(Key, Seq<u8>), ApiError> {
    match byte_decoding(bytes) {
        Err(e) => Err(e),
        Ok((tag, rest)) => {
            if tag == KEY_TAG_UREF {
                match uref_decoding(rest) {
                    Err(e) => Err(e),
                    Ok((uref, tail)) => Ok((Key::URef(uref), tail)),
                }
            } else if tag == KEY_TAG_ACCOUNT || tag == KEY_TAG_HASH || tag == KEY_TAG_LOCAL {
                key_of_block(tag, rest)
            } else {
                Err(ApiError::Formatting)
            }
        },
    }
}

/// A key is read back from its encoding.
pub proof fn lemma_key_round_trip(v: Key, rest: Seq<u8>)
    ensures
        key_decoding(key_encoding(v) + rest) == Ok::<(Key, Seq<u8>), ApiError>((v, rest)),
{
    match v {
        Key::Account(addr) => {
            lemma_int_round_trip(KEY_TAG_ACCOUNT, 0, 0, addr@ + rest);
            assert((seq![KEY_TAG_ACCOUNT] + addr@) + rest =~= seq![KEY_TAG_ACCOUNT] + (addr@
                + rest));
            lemma_block_round_trip::<32>(addr@, rest, rest);
            lemma_block_of::<32>(addr);
        },
        Key::Hash(addr) => {
            lemma_int_round_trip(KEY_TAG_HASH, 0, 0, addr@ + rest);
            assert((seq![KEY_TAG_HASH] + addr@) + rest =~= seq![KEY_TAG_HASH] + (addr@ + rest));
            lemma_block_round_trip::<32>(addr@, rest, rest);
            lemma_block_of::<32>(addr);
        },
        Key::URef(uref) => {
            lemma_int_round_trip(KEY_TAG_UREF, 0, 0, uref_encoding(uref) + rest);
            assert((seq![KEY_TAG_UREF] + uref_encoding(uref)) + rest =~= seq![KEY_TAG_UREF] + (
            uref_encoding(uref) + rest));
            lemma_uref_round_trip(uref, rest);
        },
        Key::Local(addr) => {
            lemma_int_round_trip(KEY_TAG_LOCAL, 0, 0, addr@ + rest);
            assert((seq![KEY_TAG_LOCAL] + addr@) + rest =~= seq![KEY_TAG_LOCAL] + (addr@ + rest));
            lemma_block_round_trip::<32>(addr@, rest, rest);
            lemma_block_of::<32>(addr);
        },
    }
}

/// What is read as a key was encoded as the bytes consumed.
pub proof fn lemma_key_canonical(bytes: Seq<u8>)
    ensures
        key_decoding(bytes) matches Ok((k, tail)) ==> bytes == key_encoding(k) + tail,
{
    lemma_int_canonical(bytes);
    if let Ok((tag, rest)) = byte_decoding(bytes) {
        if tag == KEY_TAG_UREF {
            lemma_uref_canonical(rest);
            if let Ok((uref, tail)) = uref_decoding(rest) {
                assert(bytes =~= (seq![KEY_TAG_UREF] + uref_encoding(uref)) + tail);
            }
        } else if tag == KEY_TAG_ACCOUNT || tag == KEY_TAG_HASH || tag == KEY_TAG_LOCAL {
            lemma_block_round_trip::<32>(rest, rest, rest);
            if let Ok((addr, tail)) = block_decoding::<32>(rest) {
                lemma_block_view::<32>(addr);
                assert(bytes =~= (seq![tag] + addr) + tail);
            }
        }
    }
}

/// Encodes a key.
pub fn key_to_bytes(k: &Key) -> (out: Vec<u8>)
    ensures
        out@ == key_encoding(*k),
{
    let mut out: Vec<u8> = Vec::new();
    match k {
        Key::Account(addr) => {
            out.push(KEY_TAG_ACCOUNT);
            let body = block_to_vec(addr);
            append_bytes(&mut out, body.as_slice());
            assert(out@ =~= seq![KEY_TAG_ACCOUNT] + addr@);
        },
        Key::Hash(addr) => {
            out.push(KEY_TAG_HASH);
            let body = block_to_vec(addr);
            append_bytes(&mut out, body.as_slice());
            assert(out@ =~= seq![KEY_TAG_HASH] + addr@);
        },
        Key::URef(uref) => {
            out.push(KEY_TAG_UREF);
            let body = uref_to_bytes(uref);
            append_bytes(&mut out, body.as_slice());
            assert(out@ =~= seq![KEY_TAG_UREF] + uref_encoding(*uref));
        },
        Key::Local(addr) => {
            out.push(KEY_TAG_LOCAL);
            let body = block_to_vec(addr);
            append_bytes(&mut out, body.as_slice());
            assert(out@ =~= seq![KEY_TAG_LOCAL] + addr@);
        },
    }
    out
}

/// Reads a key from the front of `bytes`.
pub fn read_key(bytes: &[u8]) -> (r: Result<(Key, &[u8]), ApiError>)
    ensures
        match key_decoding(bytes@) {
            Ok((v, rest)) => r matches Ok((x, tail)) && x == v && tail@ == rest,
            Err(e) => r matches Err(f) && f == e,
        },
{
    let (tag, rest) = match read_u8(bytes) {
        Ok(p) => p,
        Err(e) => { return Err(e); },
    };
    if tag == KEY_TAG_UREF {
        match read_uref(rest) {
            Ok((uref, tail)) => Ok((Key::URef(uref), tail)),
            Err(e) => Err(e),
        }
    } else if tag == KEY_TAG_ACCOUNT || tag == KEY_TAG_HASH || tag == KEY_TAG_LOCAL {
        match read_block::<32>(rest) {
            Ok((addr, tail)) => {
                if tag == KEY_TAG_ACCOUNT {
                    Ok((Key::Account(addr), tail))
                } else if tag == KEY_TAG_HASH {
                    Ok((Key::Hash(addr), tail))
                } else {
                    Ok((Key::Local(addr), tail))
                }
            },
            Err(e) => Err(e),
        }
    } else {
        Err(ApiError::Formatting)
    }
}

impl ToBytes for Key {
    open spec fn encoding(v: Key) -> Seq<u8> {
        key_encoding(v)
    }

    open spec fn representable(v: Key) -> bool {
        true
    }

    fn to_bytes(&self) -> (r: Result<Vec<u8>, ApiError>) {
        Ok(key_to_bytes(self))
    }
}

impl FromBytes for Key {
    open spec fn decoding(bytes: Seq<u8>) -> Result<(Key, Seq<u8>), ApiError> {
        key_decoding(bytes)
    }

    proof fn lemma_round_trip(v: Key, rest: Seq<u8>) {
        lemma_key_round_trip(v, rest);
    }

    proof fn lemma_decoding_canonical(bytes: Seq<u8>) {
        lemma_key_canonical(bytes);
    }

    fn from_bytes(bytes: &[u8]) -> (r: Result<(Key, &[u8]), ApiError>) {
        read_key(bytes)
    }
}

/// The encoding of a key never takes more bytes than the size hint, and
/// never fewer than one tag and one address.
pub proof fn lemma_key_encoding_length(k: Key)
    ensures
        33 <= key_encoding(k).len() <= KEY_MAX_SERIALIZED_LENGTH,
        k is URef <==> key_encoding(k).len() == 34,
{
}

/// A reference to a callable program: by the hash under which it is stored,
/// or by an unforgeable reference to it.
#[derive(Clone, Copy, Debug, PartialEq, Eq)]
pub enum ContractRef {
    Hash([u8; 32]),
    URef(URef),
}

/// The key that addresses the program a reference names.
pub open spec fn contract_key(c: ContractRef) -> Key {
    match c {
        ContractRef::Hash(hash) => Key::Hash(hash),
        ContractRef::URef(uref) => Key::URef(uref),
    }
}

impl ContractRef {
    /// The key that addresses the program.
    pub fn into_key(self) -> (k: Key)
        ensures
            k == contract_key(self),
    {
        match self {
            ContractRef::Hash(hash) => Key::Hash(hash),
            ContractRef::URef(uref) => Key::URef(uref),
        }
    }
}

} // verus!
