//! The encoding of a list: the number of its items as a `u32`, then the items
//! one after another.

use crate::bytesrepr::{
    append_bytes, lemma_int_canonical, lemma_int_round_trip, read_u32, u32_decoding, FromBytes,
    ToBytes,
};
use crate::error::ApiError;
use vstd::bytes::*;
use vstd::prelude::*;

verus! {

/// The encodings of the items, in order, without a count.
pub open spec fn items_encoding<T: ToBytes>(vs: Seq<T::V>) -> Seq<u8>
    decreases vs.len(),
{
    if vs.len() == 0 {
        Seq::empty()
    } else {
        items_encoding::<T>(vs.drop_last()) + T::encoding(vs.last())
    }
}

/// Whether each item is representable.
pub open spec fn items_representable<T: ToBytes>(vs: Seq<T::V>) -> bool {
    forall|i: int| 0 <= i < vs.len() ==> T::representable(#[trigger] vs[i])
}

/// The first `n` items at the front of `bytes` and what follows them, or the
/// error of the first item that does not decode.
pub open spec fn items_decoding<T: FromBytes>(bytes: Seq<u8>, n: nat) -> Result<
    (Seq<T::V>, Seq<u8>),
    ApiError,
>
    decreases n,
{
    if n == 0 {
        Ok((Seq::empty(), bytes))
    } else {
        match items_decoding::<T>(bytes, (n - 1) as nat) {
            Err(e) => Err(e),
            Ok((vs, rest)) => match T::decoding(rest) {
                Err(e) => Err(e),
                Ok((v, tail)) => Ok((vs.push(v), tail)),
            },
        }
    }
}

/// The encoding of a list.
pub open spec fn list_encoding<T: ToBytes>(vs: Seq<T::V>) -> Seq<u8> {
    spec_u32_to_le_bytes(vs.len() as u32) + items_encoding::<T>(vs)
}

/// A list is representable when its length fits a `u32` and each item is
/// representable.
pub open spec fn list_representable<T: ToBytes>(vs: Seq<T::V>) -> bool {
    vs.len() <= u32::MAX && items_representable::<T>(vs)
}

/// The list at the front of `bytes` and what follows it.
pub open spec fn list_decoding<T: FromBytes>(bytes: Seq<u8>) -> Result<
    (Seq<T::V>, Seq<u8>),
    ApiError,
> {
    match u32_decoding(bytes) {
        Err(e) => Err(e),
        Ok((n, rest)) => items_decoding::<T>(rest, n as nat),
    }
}

/// Once an item fails to decode, asking for more items fails in the same way.
pub proof fn lemma_items_error_persists<T: FromBytes>(bytes: Seq<u8>, k: nat, n: nat)
    requires
        k <= n,
        items_decoding::<T>(bytes, k) is Err,
    ensures
        items_decoding::<T>(bytes, n) == items_decoding::<T>(bytes, k),
    decreases n,
{
    if k < n {
        lemma_items_error_persists::<T>(bytes, k, (n - 1) as nat);
    }
}

/// Decoding as many items as were encoded yields them again.
pub proof fn lemma_items_round_trip<T: FromBytes>(vs: Seq<T::V>, rest: Seq<u8>)
    requires
        items_representable::<T>(vs),
    ensures
        items_decoding::<T>(items_encoding::<T>(vs) + rest, vs.len()) == Ok::<
            (Seq<T::V>, Seq<u8>),
            ApiError,
        >((vs, rest)),
    decreases vs.len(),
{
    if vs.len() == 0 {
        assert(items_encoding::<T>(vs) + rest =~= rest);
        assert(vs =~= Seq::empty());
    } else {
        let front = vs.drop_last();
        let after = T::encoding(vs.last()) + rest;
        assert(items_encoding::<T>(vs) + rest =~= items_encoding::<T>(front) + after);
        lemma_items_round_trip::<T>(front, after);
        T::lemma_round_trip(vs.last(), rest);
        assert(front.push(vs.last()) =~= vs);
    }
}

/// Items that decode are as many as were asked for, are representable, and
/// were encoded as the bytes consumed.
pub proof fn lemma_items_canonical<T: FromBytes>(bytes: Seq<u8>, n: nat)
    ensures
        items_decoding::<T>(bytes, n) matches Ok((vs, tail)) ==> {
            &&& vs.len() == n
            &&& items_representable::<T>(vs)
            &&& bytes == items_encoding::<T>(vs) + tail
        },
    decreases n,
{
    if n == 0 {
        assert(bytes =~= items_encoding::<T>(Seq::empty()) + bytes);
    } else {
        lemma_items_canonical::<T>(bytes, (n - 1) as nat);
        if let Ok((front, rest)) = items_decoding::<T>(bytes, (n - 1) as nat) {
            T::lemma_decoding_canonical(rest);
            if let Ok((v, tail)) = T::decoding(rest) {
                let vs = front.push(v);
                assert(vs.drop_last() =~= front);
                assert(bytes =~= items_encoding::<T>(vs) + tail);
                assert forall|i: int| 0 <= i < vs.len() implies T::representable(
                    #[trigger] vs[i],
                ) by {
                    if i < front.len() {
                        assert(vs[i] == front[i]);
                    }
                }
            }
        }
    }
}

impl<T: ToBytes> ToBytes for Vec<T> {
    open spec fn encoding(v: Seq<T::V>) -> Seq<u8> {
        list_encoding::<T>(v)
    }

    open spec fn representable(v: Seq<T::V>) -> bool {
        list_representable::<T>(v)
    }

    fn to_bytes(&self) -> (r: Result<Vec<u8>, ApiError>) {
        let ghost vs = self.deep_view();
        if self.len() > 0xffff_ffff {
            return Err(ApiError::OutOfMemory);
        }
        let mut out = u32_to_le_bytes(self.len() as u32);
        let mut i: usize = 0;
        while i < self.len()
            invariant
                i <= self.len(),
                vs == self.deep_view(),
                vs.len() == self.len(),
                items_representable::<T>(vs.subrange(0, i as int)),
                out@ == spec_u32_to_le_bytes(vs.len() as u32) + items_encoding::<T>(
                    vs.subrange(0, i as int),
                ),
            decreases self.len() - i,
        {
            let ghost before = vs.subrange(0, i as int);
            let ghost upto = vs.subrange(0, i + 1);
            assert(upto.drop_last() =~= before);
            assert(upto.last() == vs[i as int]);
            assert(vs[i as int] == self[i as int].deep_view());
            match self[i].to_bytes() {
                Ok(item) => {
                    append_bytes(&mut out, item.as_slice());
                    assert(out@ =~= spec_u32_to_le_bytes(vs.len() as u32) + items_encoding::<T>(
                        upto,
                    ));
                    assert forall|j: int| 0 <= j < upto.len() implies T::representable(
                        #[trigger] upto[j],
                    ) by {
                        if j < i {
                            assert(upto[j] == before[j]);
                        }
                    }
                },
                Err(e) => {
                    assert(!T::representable(vs[i as int]));
                    return Err(e);
                },
            }
            i += 1;
        }
        assert(vs.subrange(0, i as int) =~= vs);
        Ok(out)
    }
}

impl<T: FromBytes> FromBytes for Vec<T> {
    open spec fn decoding(bytes: Seq<u8>) -> Result<(Seq<T::V>, Seq<u8>), ApiError> {
        list_decoding::<T>(bytes)
    }

    proof fn lemma_round_trip(v: Seq<T::V>, rest: Seq<u8>) {
        let n = v.len() as u32;
        assert(list_encoding::<T>(v) + rest =~= spec_u32_to_le_bytes(n) + (items_encoding::<T>(v)
            + rest));
        lemma_int_round_trip(0, n, 0, items_encoding::<T>(v) + rest);
        lemma_items_round_trip::<T>(v, rest);
    }

    proof fn lemma_decoding_canonical(bytes: Seq<u8>) {
        lemma_int_canonical(bytes);
        if let Ok((n, rest)) = u32_decoding(bytes) {
            lemma_items_canonical::<T>(rest, n as nat);
            if let Ok((vs, tail)) = items_decoding::<T>(rest, n as nat) {
                assert(bytes =~= list_encoding::<T>(vs) + tail);
            }
        }
    }

    fn from_bytes(bytes: &[u8]) -> (r: Result<(Vec<T>, &[u8]), ApiError>) {
        let (n, rest) = match read_u32(bytes) {
            Ok(p) => p,
            Err(e) => { return Err(e); },
        };
        let mut items: Vec<T> = Vec::new();
        let mut cur: &[u8] = rest;
        let mut i: u32 = 0;
        assert(items.deep_view() =~= Seq::<T::V>::empty());
        while i < n
            invariant
                i <= n,
                u32_decoding(bytes@) == Ok::<(u32, Seq<u8>), ApiError>((n, rest@)),
                items_decoding::<T>(rest@, i as nat) == Ok::<(Seq<T::V>, Seq<u8>), ApiError>(
                    (items.deep_view(), cur@),
                ),
            decreases n - i,
        {
            let ghost before = items.deep_view();
            match T::from_bytes(cur) {
                Ok((x, tail)) => {
                    items.push(x);
                    cur = tail;
                    assert(items.deep_view() =~= before.push(x.deep_view()));
                },
                Err(e) => {
                    proof {
                        assert(((i + 1) as nat - 1) as nat == i as nat);
                        lemma_items_error_persists::<T>(rest@, (i + 1) as nat, n as nat);
                    }
                    return Err(e);
                },
            }
            i += 1;
        }
        Ok((items, cur))
    }
}

} // verus!
