//! Values in transit: the bytes of a value together with a mark of its type.

use crate::bytesrepr::{
    byte_decoding, decode_all, decoded, lemma_int_canonical, lemma_int_round_trip, read_u8,
    FromBytes, ToBytes,
};
use crate::error::ApiError;
use crate::key::Key;
use crate::list::{list_decoding, list_encoding};
use crate::uref::URef;
use crate::value::{PublicKey, PurseId, U512};
use vstd::prelude::*;

verus! {

/// The types that a value in transit can be marked with.
#[derive(Clone, Copy, Debug, PartialEq, Eq, Structural)]
pub enum CLType {
    Unit,
    U8,
    U32,
    U64,
    U512,
    String,
    Key,
    URef,
    PublicKey,
    Option,
}

/// The byte that marks a type.
pub open spec fn cl_type_tag(t: CLType) -> u8 {
    match t {
        CLType::Unit => 0,
        CLType::U8 => 1,
        CLType::U32 => 2,
        CLType::U64 => 3,
        CLType::U512 => 4,
        CLType::String => 5,
        CLType::Key => 6,
        CLType::URef => 7,
        CLType::PublicKey => 8,
        CLType::Option => 9,
    }
}

/// The type that a mark stands for, if any.
pub open spec fn tag_cl_type(tag: u8) -> Option<CLType> {
    if tag == 0 {
        Some(CLType::Unit)
    } else if tag == 1 {
        Some(CLType::U8)
    } else if tag == 2 {
        Some(CLType::U32)
    } else if tag == 3 {
        Some(CLType::U64)
    } else if tag == 4 {
        Some(CLType::U512)
    } else if tag == 5 {
        Some(CLType::String)
    } else if tag == 6 {
        Some(CLType::Key)
    } else if tag == 7 {
        Some(CLType::URef)
    } else if tag == 8 {
        Some(CLType::PublicKey)
    } else if tag == 9 {
        Some(CLType::Option)
    } else {
        None
    }
}

impl CLType {
    /// The byte that marks this type.
    pub fn tag(&self) -> (tag: u8)
        ensures
            tag == cl_type_tag(*self),
    {
        match self {
            CLType::Unit => 0,
            CLType::U8 => 1,
            CLType::U32 => 2,
            CLType::U64 => 3,
            CLType::U512 => 4,
            CLType::String => 5,
            CLType::Key => 6,
            CLType::URef => 7,
            CLType::PublicKey => 8,
            CLType::Option => 9,
        }
    }

    /// The type that a mark stands for, if any.
    pub fn from_tag(tag: u8) -> (t: Option<CLType>)
        ensures
            t == tag_cl_type(tag),
    {
        if tag == 0 {
            Some(CLType::Unit)
        } else if tag == 1 {
            Some(CLType::U8)
        } else if tag == 2 {
            Some(CLType::U32)
        } else if tag == 3 {
            Some(CLType::U64)
        } else if tag == 4 {
            Some(CLType::U512)
        } else if tag == 5 {
            Some(CLType::String)
        } else if tag == 6 {
            Some(CLType::Key)
        } else if tag == 7 {
            Some(CLType::URef)
        } else if tag == 8 {
            Some(CLType::PublicKey)
        } else if tag == 9 {
            Some(CLType::Option)
        } else {
            None
        }
    }
}

/// A type whose values can travel marked.
pub trait CLTyped {
    /// The mark of the type.
    spec fn spec_cl_type() -> CLType;

    fn cl_type() -> (t: CLType)
        ensures
            t == Self::spec_cl_type(),
    ;
}

impl CLTyped for () {
    open spec fn spec_cl_type() -> CLType {
        CLType::Unit
    }

    fn cl_type() -> (t: CLType) {
        CLType::Unit
    }
}

impl CLTyped for u8 {
    open spec fn spec_cl_type() -> CLType {
        CLType::U8
    }

    fn cl_type() -> (t: CLType) {
        CLType::U8
    }
}

impl CLTyped for u32 {
    open spec fn spec_cl_type() -> CLType {
        CLType::U32
    }

    fn cl_type() -> (t: CLType) {
        CLType::U32
    }
}

impl CLTyped for u64 {
    open spec fn spec_cl_type() -> CLType {
        CLType::U64
    }

    fn cl_type() -> (t: CLType) {
        CLType::U64
    }
}

impl CLTyped for U512 {
    open spec fn spec_cl_type() -> CLType {
        CLType::U512
    }

    fn cl_type() -> (t: CLType) {
        CLType::U512
    }
}

impl CLTyped for String {
    open spec fn spec_cl_type() -> CLType {
        CLType::String
    }

    fn cl_type() -> (t: CLType) {
        CLType::String
    }
}

impl<'a> CLTyped for &'a str {
    open spec fn spec_cl_type() -> CLType {
        CLType::String
    }

    fn cl_type() -> (t: CLType) {
        CLType::String
    }
}

impl CLTyped for Key {
    open spec fn spec_cl_type() -> CLType {
        CLType::Key
    }

    fn cl_type() -> (t: CLType) {
        CLType::Key
    }
}

impl CLTyped for URef {
    open spec fn spec_cl_type() -> CLType {
        CLType::URef
    }

    fn cl_type() -> (t: CLType) {
        CLType::URef
    }
}

impl CLTyped for PublicKey {
    open spec fn spec_cl_type() -> CLType {
        CLType::PublicKey
    }

    fn cl_type() -> (t: CLType) {
        CLType::PublicKey
    }
}

impl CLTyped for PurseId {
    open spec fn spec_cl_type() -> CLType {
        CLType::URef
    }

    fn cl_type() -> (t: CLType) {
        CLType::URef
    }
}

impl<T: CLTyped> CLTyped for Option<T> {
    open spec fn spec_cl_type() -> CLType {
        CLType::Option
    }

    fn cl_type() -> (t: CLType) {
        CLType::Option
    }
}

/// A value in transit: the encoding of a value and the mark of its type.
#[derive(Debug, PartialEq, Eq)]
pub struct CLValue {
    pub cl_type: CLType,
    pub bytes: Vec<u8>,
}

/// A value in transit as a mathematical value.
pub struct CLValueView {
    pub cl_type: CLType,
    pub bytes: Seq<u8>,
}

impl DeepView for CLValue {
    type V = CLValueView;

    open spec fn deep_view(&self) -> CLValueView {
        CLValueView { cl_type: self.cl_type, bytes: self.bytes@ }
    }
}

/// The encoding of a value in transit: its bytes as a list, then its mark.
pub open spec fn cl_value_encoding(v: CLValueView) -> Seq<u8> {
    list_encoding::<u8>(v.bytes) + seq![cl_type_tag(v.cl_type)]
}

/// A value in transit is representable when the number of its bytes fits a
/// `u32`.
pub open spec fn cl_value_representable(v: CLValueView) -> bool {
    v.bytes.len() <= u32::MAX
}

/// The value in transit at the front of `bytes` and what follows it.
pub open spec fn cl_value_decoding(bytes: Seq<u8>) -> Result<(CLValueView, Seq<u8>), ApiError> {
    match list_decoding::<u8>(bytes) {
        Err(e) => Err(e),
        Ok((body, rest)) => match byte_decoding(rest) {
            Err(e) => Err(e),
            Ok((tag, tail)) => match tag_cl_type(tag) {
                Some(t) => Ok((CLValueView { cl_type: t, bytes: body }, tail)),
                None => Err(ApiError::Formatting),
            },
        },
    }
}

impl CLValue {
    /// Marks the encoding of `value` with the type of `value`.
    pub fn from_t<T: CLTyped + ToBytes>(value: &T) -> (r: Result<CLValue, ApiError>)
        ensures
            T::representable(value.deep_view()) ==> (r matches Ok(v) && v.deep_view() == (
            CLValueView {
                cl_type: T::spec_cl_type(),
                bytes: T::encoding(value.deep_view()),
            })),
            !T::representable(value.deep_view()) ==> (r matches Err(e) && e
                == ApiError::OutOfMemory),
    {
        match value.to_bytes() {
            Ok(bytes) => Ok(CLValue { cl_type: T::cl_type(), bytes }),
            Err(e) => Err(e),
        }
    }

    /// Reads the value back as a `T`: the mark must be that of `T`, and the
    /// bytes must decode as a whole.
    pub fn into_t<T: CLTyped + FromBytes>(self) -> (r: Result<T, ApiError>)
        ensures
            self.cl_type != T::spec_cl_type() ==> (r matches Err(e) && e
                == ApiError::CLTypeMismatch),
            self.cl_type == T::spec_cl_type() ==> match decoded::<T>(self.bytes@) {
                Ok(v) => r matches Ok(x) && x.deep_view() == v,
                Err(e) => r matches Err(f) && f == e,
            },
    {
        if self.cl_type != T::cl_type() {
            Err(ApiError::CLTypeMismatch)
        } else {
            decode_all::<T>(self.bytes.as_slice())
        }
    }

    /// The mark of the value.
    pub fn cl_type(&self) -> (t: CLType)
        ensures
            t == self.cl_type,
    {
        self.cl_type
    }
}

impl ToBytes for CLValue {
    open spec fn encoding(v: CLValueView) -> Seq<u8> {
        cl_value_encoding(v)
    }

    open spec fn representable(v: CLValueView) -> bool {
        cl_value_representable(v)
    }

    fn to_bytes(&self) -> (r: Result<Vec<u8>, ApiError>) {
        assert(self.bytes.deep_view() =~= self.bytes@);
        let mut out = match self.bytes.to_bytes() {
            Ok(out) => out,
            Err(e) => { return Err(e); },
        };
        out.push(self.cl_type.tag());
        assert(out@ =~= cl_value_encoding(self.deep_view()));
        Ok(out)
    }
}

impl FromBytes for CLValue {
    open spec fn decoding(bytes: Seq<u8>) -> Result<(CLValueView, Seq<u8>), ApiError> {
        cl_value_decoding(bytes)
    }

    proof fn lemma_round_trip(v: CLValueView, rest: Seq<u8>) {
        let after = seq![cl_type_tag(v.cl_type)] + rest;
        assert(cl_value_encoding(v) + rest =~= list_encoding::<u8>(v.bytes) + after);
        <Vec<u8>>::lemma_round_trip(v.bytes, after);
        lemma_int_round_trip(cl_type_tag(v.cl_type), 0, 0, rest);
    }

    proof fn lemma_decoding_canonical(bytes: Seq<u8>) {
        <Vec<u8>>::lemma_decoding_canonical(bytes);
        if let Ok((body, rest)) = list_decoding::<u8>(bytes) {
            lemma_int_canonical(rest);
            if let Ok((tag, tail)) = byte_decoding(rest) {
                if let Some(t) = tag_cl_type(tag) {
                    assert(bytes =~= (list_encoding::<u8>(body) + seq![tag]) + tail);
                }
            }
        }
    }

    fn from_bytes(bytes: &[u8]) -> (r: Result<(CLValue, &[u8]), ApiError>) {
        let (body, rest) = match <Vec<u8>>::from_bytes(bytes) {
            Ok(p) => p,
            Err(e) => { return Err(e); },
        };
        assert(body.deep_view() =~= body@);
        let (tag, tail) = match read_u8(rest) {
            Ok(p) => p,
            Err(e) => { return Err(e); },
        };
        match CLType::from_tag(tag) {
            Some(t) => Ok((CLValue { cl_type: t, bytes: body }, tail)),
            None => Err(ApiError::Formatting),
        }
    }
}

} // verus!
