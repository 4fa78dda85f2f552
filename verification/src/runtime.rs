//! The typed operations that a program uses to talk to the host.
//!
//! Each operation encodes its inputs, lends the bytes to the host for one
//! call, reads the status that comes back and decodes what the host wrote.
//! A failure that is not a plain absence ends the execution: the operation
//! asks the host to revert and hands the resulting [`Exit`] to its caller,
//! who can only hand it on.

use crate::args::ArgsParser;
use crate::bytesrepr::{alloc_bytes, decoded, deserialize, lemma_decode_encode, FromBytes, ToBytes};
use crate::cl_value::{CLTyped, CLValue, CLValueView};
use crate::error::{code_of, lemma_code_round_trip, outcome_of, result_from, ApiError, Reason};
use crate::host::{
    read_host_buffer_step, ret_step, revert_step, upgrade_allowed, Callee, Exit, Host, HostState,
};
use crate::key::{contract_key, key_to_bytes, lemma_key_encoding_length, ContractRef, Key};
use crate::list::{list_encoding, list_representable};
use crate::namespace::{
    absent_before, lemma_lookup_after_upsert, lemma_lookup_after_without, lemma_no_match, lookup,
    upsert, without, Entries,
};
use crate::text::{text_representable, text_to_bytes};
use crate::uref::{uref_to_bytes, URef};
use crate::value::{
    BlockTime, Phase, PublicKey, BLOCKTIME_SERIALIZED_LENGTH, PHASE_SERIALIZED_LENGTH,
    PUBLIC_KEY_SERIALIZED_LENGTH,
};
use vstd::prelude::*;

verus! {

/// The state and the reply of an operation that ends the execution by
/// reverting with `reason`.
pub open spec fn aborted<T>(s: HostState, reason: u32) -> (HostState, Result<T, Exit>) {
    (revert_step(s, reason).0, Err(revert_step(s, reason).1))
}

/// Stops the execution and reverts its effects, with the given reason. The
/// exit that comes back is final: on a host that has reached an exit every
/// later operation changes nothing and yields that exit again.
pub fn revert<H: Host, R: Reason>(host: &mut H, error: R) -> (x: Exit)
    ensures
        final(host).state() == revert_step(old(host).state(), error.reason()).0,
        x == revert_step(old(host).state(), error.reason()).1,
        final(host).state().exit == Some(x),
        old(host).state().exit is None ==> x == Exit::Reverted(error.reason()),
{
    host.revert(error.code())
}

/// What a two-phase reply means for the caller of a read: the bytes that
/// count, or the error of the status.
pub open spec fn read_reply(status: i32, written: int, buffer: Seq<u8>) -> Result<
    Seq<u8>,
    ApiError,
> {
    match outcome_of(status) {
        Err(e) => Err(e),
        Ok(()) => if 0 <= written <= buffer.len() {
            Ok(buffer.subrange(0, written))
        } else {
            Ok(buffer)
        },
    }
}

/// Reads the reply of a fill call: on success the buffer is cut to the count
/// that the host reported, which alone says how many bytes count; a count
/// beyond the buffer leaves the buffer whole. On any other status the buffer
/// is dropped undecoded.
pub fn filled_buffer(status: i32, written: usize, buffer: Vec<u8>) -> (r: Result<Vec<u8>, ApiError>)
    ensures
        match read_reply(status, written as int, buffer@) {
            Ok(bytes) => r matches Ok(b) && b@ == bytes,
            Err(e) => r matches Err(f) && f == e,
        },
{
    match result_from(status) {
        Err(e) => Err(e),
        Ok(()) => {
            let mut buffer = buffer;
            buffer.truncate(written);
            Ok(buffer)
        },
    }
}

/// What reading the host buffer into a buffer of `capacity` bytes comes to:
/// the state after, and the count written or the error reported.
pub open spec fn read_into_spec(s: HostState, capacity: int) -> (
    HostState,
    Result<Result<int, ApiError>, Exit>,
) {
    match read_host_buffer_step(s, capacity) {
        (after, Err(x)) => (after, Err(x)),
        (after, Ok((status, written))) => match outcome_of(status) {
            Ok(()) => (after, Ok(Ok(written))),
            Err(e) => (after, Ok(Err(e))),
        },
    }
}

/// The fill phase of the buffer protocol: asks the host to write the waiting
/// result into `dest` and reports the count written, which never exceeds the
/// length of `dest`.
pub fn read_host_buffer_into<H: Host>(host: &mut H, dest: &mut Vec<u8>) -> (r: Result<
    Result<usize, ApiError>,
    Exit,
>)
    ensures
        final(host).state() == read_into_spec(old(host).state(), old(dest)@.len() as int).0,
        match read_into_spec(old(host).state(), old(dest)@.len() as int).1 {
            Err(x) => r == Err::<Result<usize, ApiError>, Exit>(x),
            Ok(Err(e)) => r == Ok::<Result<usize, ApiError>, Exit>(Err(e)),
            Ok(Ok(n)) => r == Ok::<Result<usize, ApiError>, Exit>(Ok(n as usize)) && n
                <= old(dest)@.len() && final(dest)@.subrange(0, n) == old(
                host,
            ).state().host_buffer->Some_0,
        },
        final(dest)@.len() == old(dest)@.len(),
{
    match host.read_host_buffer(dest) {
        Err(x) => Err(x),
        Ok((status, written)) => match result_from(status) {
            Ok(()) => Ok(Ok(written)),
            Err(e) => Ok(Err(e)),
        },
    }
}

/// What the two phases together come to, for a result whose size was reported
/// as `size`: the state after, and the bytes that count or the error.
pub open spec fn read_host_buffer_spec(s: HostState, size: int) -> (
    HostState,
    Result<Result<Seq<u8>, ApiError>, Exit>,
) {
    match read_host_buffer_step(s, size) {
        (after, Err(x)) => (after, Err(x)),
        (after, Ok((status, written))) => match outcome_of(status) {
            Ok(()) => (after, Ok(Ok(s.host_buffer->Some_0))),
            Err(e) => (after, Ok(Err(e))),
        },
    }
}

/// The buffer protocol after a size query: allocates a receive buffer of
/// exactly the size reported, has the host fill it, and keeps as many bytes
/// as the host says it wrote.
pub fn read_host_buffer<H: Host>(host: &mut H, size: usize) -> (r: Result<
    Result<Vec<u8>, ApiError>,
    Exit,
>)
    ensures
        final(host).state() == read_host_buffer_spec(old(host).state(), size as int).0,
        match read_host_buffer_spec(old(host).state(), size as int).1 {
            Err(x) => r matches Err(y) && y == x,
            Ok(Err(e)) => r matches Ok(Err(f)) && f == e,
            Ok(Ok(bytes)) => r matches Ok(Ok(b)) && b@ == bytes && b@.len() <= size,
        },
{
    let mut dest = alloc_bytes(size);
    match read_host_buffer_into(host, &mut dest) {
        Err(x) => Err(x),
        Ok(Err(e)) => Ok(Err(e)),
        Ok(Ok(written)) => {
            dest.truncate(written);
            Ok(Ok(dest))
        },
    }
}

/// What asking for the size of an argument means: its size, its absence, or
/// an error that nothing here recovers from.
pub open spec fn arg_size_spec(s: HostState, i: int) -> Result<Option<int>, Exit> {
    match s.exit {
        Some(x) => Err(x),
        None => if 0 <= i < s.args.len() {
            Ok(Some(s.args[i].len() as int))
        } else {
            Ok(None)
        },
    }
}

/// How a status is read where one kind of error means absence: success,
/// absence, or the error that ends the execution.
pub enum Presence {
    Present,
    Absent,
    Fatal(ApiError),
}

/// The reading of `status` where `absent` means absence.
pub open spec fn presence_of(status: i32, absent: ApiError) -> Presence {
    match outcome_of(status) {
        Ok(()) => Presence::Present,
        Err(e) => if e == absent {
            Presence::Absent
        } else {
            Presence::Fatal(e)
        },
    }
}

/// Reads a status under the policy of recoverable absence: zero is presence,
/// the status of `absent` is absence, every other status is fatal.
pub fn presence(status: i32, absent: ApiError) -> (p: Presence)
    ensures
        p == presence_of(status, absent),
{
    match result_from(status) {
        Ok(()) => Presence::Present,
        Err(e) => if e == absent {
            Presence::Absent
        } else {
            Presence::Fatal(e)
        },
    }
}

/// The size in bytes of the argument at index `i`, or `None` where the
/// execution was started with fewer arguments.
pub fn get_arg_size<H: Host>(host: &mut H, i: u32) -> (r: Result<Option<usize>, Exit>)
    ensures
        final(host).state() == old(host).state(),
        match arg_size_spec(old(host).state(), i as int) {
            Err(x) => r == Err::<Option<usize>, Exit>(x),
            Ok(None) => r == Ok::<Option<usize>, Exit>(None),
            Ok(Some(n)) => r == Ok::<Option<usize>, Exit>(Some(n as usize)) && n <= usize::MAX,
        },
{
    match host.get_arg_size(i as usize) {
        Err(x) => Err(x),
        Ok((status, size)) => match presence(status, ApiError::MissingArgument) {
            Presence::Present => Ok(Some(size)),
            Presence::Absent => Ok(None),
            Presence::Fatal(e) => Err(revert(host, e)),
        },
    }
}

/// What fetching the argument at index `i` as a `T` means: absence where
/// there are fewer arguments; otherwise what its bytes decode to, a failure
/// to decode being a value of its own and not an absence.
pub open spec fn get_arg_spec<T: FromBytes>(s: HostState, i: int) -> Result<
    Option<Result<T::V, ApiError>>,
    Exit,
> {
    match s.exit {
        Some(x) => Err(x),
        None => if 0 <= i < s.args.len() {
            Ok(Some(decoded::<T>(s.args[i])))
        } else {
            Ok(None)
        },
    }
}

/// The argument at index `i`, decoded as a `T`. `None` where the execution
/// was started with fewer arguments; `Some(Err(..))` where the argument is
/// there but is no `T`.
pub fn get_arg<H: Host, T: FromBytes>(host: &mut H, i: u32) -> (r: Result<
    Option<Result<T, ApiError>>,
    Exit,
>)
    ensures
        final(host).state() == old(host).state(),
        match get_arg_spec::<T>(old(host).state(), i as int) {
            Err(x) => r matches Err(y) && y == x,
            Ok(None) => r matches Ok(None),
            Ok(Some(Err(e))) => r matches Ok(Some(Err(f))) && f == e,
            Ok(Some(Ok(v))) => r matches Ok(Some(Ok(t))) && t.deep_view() == v,
        },
{
    let arg_size = match get_arg_size(host, i) {
        Err(x) => { return Err(x); },
        Ok(None) => { return Ok(None); },
        Ok(Some(n)) => n,
    };
    let mut data = alloc_bytes(arg_size);
    match host.get_arg(i as usize, &mut data) {
        Err(x) => Err(x),
        Ok(status) => match result_from(status) {
            Err(e) => Err(revert(host, e)),
            Ok(()) => {
                assert(data@ =~= old(host).state().args[i as int]);
                Ok(Some(deserialize(data)))
            },
        },
    }
}

/// The account that started the execution.
pub fn get_caller<H: Host>(host: &mut H) -> (r: Result<PublicKey, Exit>)
    ensures
        final(host).state() == old(host).state(),
        match old(host).state().exit {
            Some(x) => r == Err::<PublicKey, Exit>(x),
            None => r == Ok::<PublicKey, Exit>(old(host).state().caller),
        },
{
    let mut dest = alloc_bytes(PUBLIC_KEY_SERIALIZED_LENGTH);
    match host.get_caller(&mut dest) {
        Err(x) => Err(x),
        Ok(()) => {
            proof {
                lemma_decode_encode::<PublicKey>(host.state().caller);
                assert(dest@ =~= PublicKey::encoding(host.state().caller));
            }
            match deserialize::<PublicKey>(dest) {
                Ok(who) => Ok(who),
                Err(e) => Err(revert(host, e)),
            }
        },
    }
}

/// The time of the block in which the execution runs.
pub fn get_blocktime<H: Host>(host: &mut H) -> (r: Result<BlockTime, Exit>)
    ensures
        final(host).state() == old(host).state(),
        match old(host).state().exit {
            Some(x) => r == Err::<BlockTime, Exit>(x),
            None => r == Ok::<BlockTime, Exit>(old(host).state().blocktime),
        },
{
    let mut dest = alloc_bytes(BLOCKTIME_SERIALIZED_LENGTH);
    match host.get_blocktime(&mut dest) {
        Err(x) => Err(x),
        Ok(()) => {
            proof {
                lemma_decode_encode::<BlockTime>(host.state().blocktime);
                assert(dest@ =~= BlockTime::encoding(host.state().blocktime));
            }
            match deserialize::<BlockTime>(dest) {
                Ok(when) => Ok(when),
                Err(e) => Err(revert(host, e)),
            }
        },
    }
}

/// The phase in which the execution runs.
pub fn get_phase<H: Host>(host: &mut H) -> (r: Result<Phase, Exit>)
    ensures
        final(host).state() == old(host).state(),
        match old(host).state().exit {
            Some(x) => r == Err::<Phase, Exit>(x),
            None => r == Ok::<Phase, Exit>(old(host).state().phase),
        },
{
    let mut dest = alloc_bytes(PHASE_SERIALIZED_LENGTH);
    match host.get_phase(&mut dest) {
        Err(x) => Err(x),
        Ok(()) => {
            proof {
                lemma_decode_encode::<Phase>(host.state().phase);
                assert(dest@ =~= Phase::encoding(host.state().phase));
            }
            match deserialize::<Phase>(dest) {
                Ok(phase) => Ok(phase),
                Err(e) => Err(revert(host, e)),
            }
        },
    }
}

/// What the reply to a lookup of a named key means: the key, its absence, or
/// the error that ends the execution.
pub open spec fn key_reply_spec(status: i32, written: int, buffer: Seq<u8>) -> Result<
    Option<Key>,
    ApiError,
> {
    match presence_of(status, ApiError::MissingKey) {
        Presence::Absent => Ok(None),
        Presence::Fatal(e) => Err(e),
        Presence::Present => match read_reply(status, written, buffer) {
            Err(e) => Err(e),
            Ok(bytes) => match decoded::<Key>(bytes) {
                Ok(k) => Ok(Some(k)),
                Err(e) => Err(e),
            },
        },
    }
}

/// Reads the reply to a lookup of a named key: the status of a missing key
/// is absence; on success the bytes that the host reports as written are
/// decoded as a key; everything else is an error.
pub fn key_reply(status: i32, written: usize, buffer: Vec<u8>) -> (r: Result<Option<Key>, ApiError>)
    ensures
        r == key_reply_spec(status, written as int, buffer@),
{
    match presence(status, ApiError::MissingKey) {
        Presence::Absent => Ok(None),
        Presence::Fatal(e) => Err(e),
        Presence::Present => match filled_buffer(status, written, buffer) {
            Err(e) => Err(e),
            Ok(bytes) => match deserialize::<Key>(bytes) {
                Ok(k) => Ok(Some(k)),
                Err(e) => Err(e),
            },
        },
    }
}

/// What looking up a name means: the key under it or its absence; a name too
/// long to encode ends the execution.
pub open spec fn get_key_spec(s: HostState, name: Seq<char>) -> (
    HostState,
    Result<Option<Key>, Exit>,
) {
    match s.exit {
        Some(x) => (s, Err(x)),
        None => if !text_representable(name) {
            aborted(s, code_of(ApiError::OutOfMemory))
        } else {
            (s, Ok(lookup(s.named_keys, name)))
        },
    }
}

/// The key stored under `name` in the current context, or `None` where
/// nothing is stored under it.
pub fn get_key<H: Host>(host: &mut H, name: &str) -> (r: Result<Option<Key>, Exit>)
    ensures
        final(host).state() == get_key_spec(old(host).state(), name@).0,
        r == get_key_spec(old(host).state(), name@).1,
{
    let name_bytes = match text_to_bytes(name) {
        Ok(bytes) => bytes,
        Err(e) => { return Err(revert(host, e)); },
    };
    proof {
        lemma_decode_encode::<String>(name@);
        if let Some(k) = lookup(host.state().named_keys, name@) {
            lemma_key_encoding_length(k);
            lemma_decode_encode::<Key>(k);
        }
    }
    let mut key_bytes = alloc_bytes(Key::serialized_size_hint());
    match host.get_key(name_bytes.as_slice(), &mut key_bytes) {
        Err(x) => Err(x),
        Ok((status, total_bytes)) => match key_reply(status, total_bytes, key_bytes) {
            Ok(found) => Ok(found),
            Err(e) => Err(revert(host, e)),
        },
    }
}

/// What probing for a name means.
pub open spec fn has_key_spec(s: HostState, name: Seq<char>) -> (HostState, Result<bool, Exit>) {
    match s.exit {
        Some(x) => (s, Err(x)),
        None => if !text_representable(name) {
            aborted(s, code_of(ApiError::OutOfMemory))
        } else {
            (s, Ok(lookup(s.named_keys, name) is Some))
        },
    }
}

/// Whether a key is stored under `name` in the current context. Nothing is
/// decoded: the host answers with a number, and zero means yes.
pub fn has_key<H: Host>(host: &mut H, name: &str) -> (r: Result<bool, Exit>)
    ensures
        final(host).state() == has_key_spec(old(host).state(), name@).0,
        r == has_key_spec(old(host).state(), name@).1,
{
    let name_bytes = match text_to_bytes(name) {
        Ok(bytes) => bytes,
        Err(e) => { return Err(revert(host, e)); },
    };
    proof {
        lemma_decode_encode::<String>(name@);
    }
    match host.has_key(name_bytes.as_slice()) {
        Err(x) => Err(x),
        Ok(result) => Ok(result == 0),
    }
}

/// What putting a key under a name means.
pub open spec fn put_key_spec(s: HostState, name: Seq<char>, key: Key) -> (
    HostState,
    Result<(), Exit>,
) {
    match s.exit {
        Some(x) => (s, Err(x)),
        None => if !text_representable(name) {
            aborted(s, code_of(ApiError::OutOfMemory))
        } else {
            (HostState { named_keys: upsert(s.named_keys, name, key), ..s }, Ok(()))
        },
    }
}

/// Stores `key` under `name` in the current context, in place of what was
/// stored under that name before.
pub fn put_key<H: Host>(host: &mut H, name: &str, key: Key) -> (r: Result<(), Exit>)
    ensures
        final(host).state() == put_key_spec(old(host).state(), name@, key).0,
        r == put_key_spec(old(host).state(), name@, key).1,
{
    let name_bytes = match text_to_bytes(name) {
        Ok(bytes) => bytes,
        Err(e) => { return Err(revert(host, e)); },
    };
    let key_bytes = key_to_bytes(&key);
    proof {
        lemma_decode_encode::<String>(name@);
        lemma_decode_encode::<Key>(key);
    }
    host.put_key(name_bytes.as_slice(), key_bytes.as_slice())
}

/// What removing a name means.
pub open spec fn remove_key_spec(s: HostState, name: Seq<char>) -> (HostState, Result<(), Exit>) {
    match s.exit {
        Some(x) => (s, Err(x)),
        None => if !text_representable(name) {
            aborted(s, code_of(ApiError::OutOfMemory))
        } else {
            (HostState { named_keys: without(s.named_keys, name), ..s }, Ok(()))
        },
    }
}

/// Removes what is stored under `name` in the current context. Removing a
/// name under which nothing is stored changes nothing and is no error.
pub fn remove_key<H: Host>(host: &mut H, name: &str) -> (r: Result<(), Exit>)
    ensures
        final(host).state() == remove_key_spec(old(host).state(), name@).0,
        r == remove_key_spec(old(host).state(), name@).1,
{
    let name_bytes = match text_to_bytes(name) {
        Ok(bytes) => bytes,
        Err(e) => { return Err(revert(host, e)); },
    };
    proof {
        lemma_decode_encode::<String>(name@);
    }
    host.remove_key(name_bytes.as_slice())
}

/// What to do after the host has reported on the namespace.
pub enum Listing {
    /// The namespace is empty: there is nothing to read.
    Empty,
    /// The encoded namespace waits in the host buffer and has this size.
    Read(usize),
    /// The host reported an error.
    Fatal(ApiError),
}

/// The reading of a report on the namespace. Zero entries mean an empty
/// namespace whatever byte length comes with them.
pub open spec fn listing_of(status: i32, total_keys: int, size: usize) -> Listing {
    match outcome_of(status) {
        Err(e) => Listing::Fatal(e),
        Ok(()) => if total_keys == 0 {
            Listing::Empty
        } else {
            Listing::Read(size)
        },
    }
}

/// Reads the host's report on the namespace.
pub fn listing(status: i32, total_keys: usize, size: usize) -> (l: Listing)
    ensures
        l == listing_of(status, total_keys as int, size),
{
    match result_from(status) {
        Err(e) => Listing::Fatal(e),
        Ok(()) => if total_keys == 0 {
            Listing::Empty
        } else {
            Listing::Read(size)
        },
    }
}

/// What listing the namespace means. An empty namespace is listed without
/// touching the host buffer; otherwise the encoded list goes through the
/// host buffer once, which leaves one read on record.
pub open spec fn list_named_keys_spec(s: HostState) -> (HostState, Result<Entries, Exit>) {
    match s.exit {
        Some(x) => (s, Err(x)),
        None => if s.named_keys.len() == 0 {
            (s, Ok(Seq::empty()))
        } else if s.host_buffer is Some {
            aborted(s, code_of(ApiError::HostBufferFull))
        } else if !list_representable::<(String, Key)>(s.named_keys) {
            aborted(s, code_of(ApiError::OutOfMemory))
        } else {
            (
                HostState {
                    reads: s.reads.push(list_encoding::<(String, Key)>(s.named_keys).len() as int),
                    ..s
                },
                Ok(s.named_keys),
            )
        },
    }
}

/// All named keys of the current context, each name with its key, in the
/// order in which the names were first put.
pub fn list_named_keys<H: Host>(host: &mut H) -> (r: Result<Vec<(String, Key)>, Exit>)
    ensures
        final(host).state() == list_named_keys_spec(old(host).state()).0,
        match list_named_keys_spec(old(host).state()).1 {
            Err(x) => r matches Err(y) && y == x,
            Ok(entries) => r matches Ok(v) && v.deep_view() == entries,
        },
{
    let (status, total_keys, result_size) = match host.load_named_keys() {
        Err(x) => { return Err(x); },
        Ok(reply) => reply,
    };
    let size = match listing(status, total_keys, result_size) {
        Listing::Fatal(e) => { return Err(revert(host, e)); },
        Listing::Empty => {
            let empty: Vec<(String, Key)> = Vec::new();
            assert(empty.deep_view() =~= Seq::<(Seq<char>, Key)>::empty());
            return Ok(empty);
        },
        Listing::Read(size) => size,
    };
    proof {
        lemma_decode_encode::<Vec<(String, Key)>>(old(host).state().named_keys);
    }
    let bytes = match read_host_buffer(host, size) {
        Err(x) => { return Err(x); },
        Ok(Err(e)) => { return Err(revert(host, e)); },
        Ok(Ok(bytes)) => bytes,
    };
    match deserialize::<Vec<(String, Key)>>(bytes) {
        Ok(entries) => Ok(entries),
        Err(e) => Err(revert(host, e)),
    }
}

/// What validating a reference means.
pub open spec fn is_valid_uref_spec(s: HostState, uref: URef) -> Result<bool, Exit> {
    match s.exit {
        Some(x) => Err(x),
        None => Ok(s.valid_urefs.contains(uref)),
    }
}

/// Whether the host accepts `uref` as genuine.
pub fn is_valid_uref<H: Host>(host: &mut H, uref: URef) -> (r: Result<bool, Exit>)
    ensures
        final(host).state() == old(host).state(),
        r == is_valid_uref_spec(old(host).state(), uref),
{
    let uref_bytes = uref_to_bytes(&uref);
    proof {
        lemma_decode_encode::<URef>(uref);
    }
    match host.is_valid_uref(uref_bytes.as_slice()) {
        Err(x) => Err(x),
        Ok(result) => Ok(result != 0),
    }
}

/// What replacing the program under a reference means: the host records the
/// replacement, or refuses and the execution ends.
pub open spec fn upgrade_spec(s: HostState, name: Seq<char>, uref: URef) -> (
    HostState,
    Result<(), Exit>,
) {
    match s.exit {
        Some(x) => (s, Err(x)),
        None => if !text_representable(name) {
            aborted(s, code_of(ApiError::OutOfMemory))
        } else if upgrade_allowed(s, Key::URef(uref)) {
            (HostState { upgrades: s.upgrades.push((name, Key::URef(uref))), ..s }, Ok(()))
        } else {
            aborted(s, code_of(ApiError::UpgradeContractAtURef))
        },
    }
}

/// Replaces the program stored under `uref` by the function called `name`.
pub fn upgrade_contract_at_uref<H: Host>(host: &mut H, name: &str, uref: URef) -> (r: Result<
    (),
    Exit,
>)
    ensures
        final(host).state() == upgrade_spec(old(host).state(), name@, uref).0,
        r == upgrade_spec(old(host).state(), name@, uref).1,
{
    let name_bytes = match text_to_bytes(name) {
        Ok(bytes) => bytes,
        Err(e) => { return Err(revert(host, e)); },
    };
    let key = Key::URef(uref);
    let key_bytes = key_to_bytes(&key);
    proof {
        lemma_decode_encode::<String>(name@);
        lemma_decode_encode::<Key>(key);
    }
    match host.upgrade_contract_at_uref(name_bytes.as_slice(), key_bytes.as_slice()) {
        Err(x) => Err(x),
        Ok(status) => match result_from(status) {
            Ok(()) => Ok(()),
            Err(e) => Err(revert(host, e)),
        },
    }
}

/// A key that was put under a name is what the next lookup of that name
/// yields, unchanged; and after a name is removed, the next lookup of it
/// yields nothing.
pub proof fn lemma_put_then_get(s: HostState, name: Seq<char>, key: Key)
    requires
        s.exit is None,
        text_representable(name),
    ensures
        get_key_spec(put_key_spec(s, name, key).0, name).1 == Ok::<Option<Key>, Exit>(Some(key)),
        has_key_spec(put_key_spec(s, name, key).0, name).1 == Ok::<bool, Exit>(true),
        get_key_spec(remove_key_spec(s, name).0, name).1 == Ok::<Option<Key>, Exit>(None),
        has_key_spec(remove_key_spec(s, name).0, name).1 == Ok::<bool, Exit>(false),
{
    lemma_lookup_after_upsert(s.named_keys, name, key);
    lemma_lookup_after_without(s.named_keys, name);
}

/// Looking up a name under which no entry stands yields `None` and leaves
/// the execution running: absence is an answer, not an abort.
pub proof fn lemma_get_absent(s: HostState, name: Seq<char>)
    requires
        s.exit is None,
        text_representable(name),
        absent_before(s.named_keys, name, s.named_keys.len() as int),
    ensures
        get_key_spec(s, name) == (s, Ok::<Option<Key>, Exit>(None)),
        has_key_spec(s, name) == (s, Ok::<bool, Exit>(false)),
{
    lemma_no_match(s.named_keys, name, arbitrary::<Key>());
}

/// An index at or beyond the number of arguments yields `None`; an index
/// within it yields what the argument decodes to, so that an argument of
/// another type is a decoding error and never an absence.
pub proof fn lemma_arg_bounds<T: FromBytes>(s: HostState, i: int)
    requires
        s.exit is None,
        0 <= i,
    ensures
        i >= s.args.len() ==> get_arg_spec::<T>(s, i) == Ok::<
            Option<Result<T::V, ApiError>>,
            Exit,
        >(None),
        i < s.args.len() ==> get_arg_spec::<T>(s, i) == Ok::<
            Option<Result<T::V, ApiError>>,
            Exit,
        >(Some(decoded::<T>(s.args[i]))),
{
}

/// Listing an empty namespace yields an empty list and leaves the state as
/// it was: no read of the host buffer is recorded.
pub proof fn lemma_list_empty(s: HostState)
    requires
        s.exit is None,
        s.named_keys.len() == 0,
    ensures
        list_named_keys_spec(s) == (s, Ok::<Entries, Exit>(Seq::empty())),
        list_named_keys_spec(s).0.reads == s.reads,
{
}

/// What delivering a final value means: the host keeps the encoded value and
/// the encoded references and the execution ends as returned; a value or a
/// list too long to encode ends it as reverted.
pub open spec fn ret_spec(s: HostState, value: CLValueView, urefs: Seq<URef>) -> (HostState, Exit) {
    if !CLValue::representable(value) || !list_representable::<URef>(urefs) {
        revert_step(s, code_of(ApiError::OutOfMemory))
    } else {
        ret_step(s, CLValue::encoding(value), list_encoding::<URef>(urefs))
    }
}

/// Delivers `value` to the host as the result of the running program and
/// ends the execution. Control never comes back to the program: the exit is
/// final.
pub fn ret<H: Host>(host: &mut H, value: CLValue, extra_urefs: Vec<URef>) -> (x: Exit)
    ensures
        final(host).state() == ret_spec(old(host).state(), value.deep_view(), extra_urefs.deep_view()).0,
        x == ret_spec(old(host).state(), value.deep_view(), extra_urefs.deep_view()).1,
        final(host).state().exit == Some(x),
{
    let value_bytes = match value.to_bytes() {
        Ok(bytes) => bytes,
        Err(e) => { return revert(host, e); },
    };
    let urefs_bytes = match extra_urefs.to_bytes() {
        Ok(bytes) => bytes,
        Err(e) => { return revert(host, e); },
    };
    host.ret(value_bytes.as_slice(), urefs_bytes.as_slice())
}

/// Whether the arguments and the references of a call can be encoded.
pub open spec fn call_encodable(args: Seq<CLValueView>, parsable: bool, urefs: Seq<Key>) -> bool {
    parsable && list_representable::<CLValue>(args) && list_representable::<Key>(urefs)
}

/// What the state is after the callee has returned `bytes` and they have
/// been read: the call and the read are on record, nothing waits.
pub open spec fn after_call(s: HostState, target: Key, args: Seq<u8>, urefs: Seq<u8>, size: int) -> HostState {
    HostState { calls: s.calls.push((target, args, urefs)), reads: s.reads.push(size), ..s }
}

/// What calling a program and decoding its result as a `T` means.
///
/// Nothing is called where the execution has ended, where the inputs cannot
/// be encoded, or where a result still waits in the host buffer. Otherwise
/// the program under the key of `target` is run once with the encoded
/// arguments and references. Its abort ends this execution with its reason;
/// a refusal by the host ends it with the code of the error. Its return
/// value goes through the host buffer and is decoded; one that is no `T`
/// ends the execution with the code of the decoding error.
pub open spec fn call_contract_spec<T: FromBytes>(
    s: HostState,
    target: ContractRef,
    args: Seq<CLValueView>,
    parsable: bool,
    urefs: Seq<Key>,
) -> (HostState, Result<T::V, Exit>) {
    let k = contract_key(target);
    let a = list_encoding::<CLValue>(args);
    let u = list_encoding::<Key>(urefs);
    match s.exit {
        Some(x) => (s, Err(x)),
        None => if !call_encodable(args, parsable, urefs) {
            aborted(s, code_of(ApiError::OutOfMemory))
        } else if s.host_buffer is Some {
            aborted(s, code_of(ApiError::HostBufferFull))
        } else {
            match (s.callee)(k, a, u) {
                Callee::Fails(e) => aborted(s, code_of(e)),
                Callee::Reverts(reason) => (
                    HostState {
                        exit: Some(Exit::Reverted(reason)),
                        calls: s.calls.push((k, a, u)),
                        ..s
                    },
                    Err(Exit::Reverted(reason)),
                ),
                Callee::Returns(bytes) => match decoded::<T>(bytes) {
                    Ok(v) => (after_call(s, k, a, u, bytes.len() as int), Ok(v)),
                    Err(e) => aborted(after_call(s, k, a, u, bytes.len() as int), code_of(e)),
                },
            }
        },
    }
}

/// What the reply to a call means: the size of the result to read, or the
/// error that ends the execution.
pub fn call_reply(status: i32, size: usize) -> (r: Result<usize, ApiError>)
    ensures
        r == match outcome_of(status) {
            Ok(()) => Ok::<usize, ApiError>(size),
            Err(e) => Err::<usize, ApiError>(e),
        },
{
    match result_from(status) {
        Ok(()) => Ok(size),
        Err(e) => Err(e),
    }
}

/// Calls the program that `c_ptr` names, passing it the arguments `args` and
/// granting it sight of `extra_urefs`, and returns what the program returned,
/// decoded as a `T`. The program runs at most once. Where it aborts, so does
/// the caller: the exit comes back in place of a value.
pub fn call_contract<H: Host, A: ArgsParser, T: CLTyped + FromBytes>(
    host: &mut H,
    c_ptr: ContractRef,
    args: A,
    extra_urefs: Vec<Key>,
) -> (r: Result<T, Exit>)
    ensures
        final(host).state() == call_contract_spec::<T>(
            old(host).state(),
            c_ptr,
            args.parsed(),
            args.parsable(),
            extra_urefs.deep_view(),
        ).0,
        match call_contract_spec::<T>(
            old(host).state(),
            c_ptr,
            args.parsed(),
            args.parsable(),
            extra_urefs.deep_view(),
        ).1 {
            Ok(v) => r matches Ok(t) && t.deep_view() == v,
            Err(x) => r matches Err(y) && y == x,
        },
{
    let contract_key: Key = c_ptr.into_key();
    let key_bytes = key_to_bytes(&contract_key);
    let parsed = match args.parse() {
        Ok(parsed) => parsed,
        Err(e) => { return Err(revert(host, e)); },
    };
    let args_bytes = match parsed.to_bytes() {
        Ok(bytes) => bytes,
        Err(e) => { return Err(revert(host, e)); },
    };
    let urefs_bytes = match extra_urefs.to_bytes() {
        Ok(bytes) => bytes,
        Err(e) => { return Err(revert(host, e)); },
    };
    proof {
        lemma_decode_encode::<Key>(contract_key);
        if old(host).state().exit is None && old(host).state().host_buffer is None {
            if let Callee::Fails(e) = (old(host).state().callee)(
                contract_key,
                args_bytes@,
                urefs_bytes@,
            ) {
                lemma_code_round_trip(e);
            }
        }
    }
    let size = match host.call_contract(
        key_bytes.as_slice(),
        args_bytes.as_slice(),
        urefs_bytes.as_slice(),
    ) {
        Err(x) => { return Err(x); },
        Ok((status, size)) => match call_reply(status, size) {
            Ok(size) => size,
            Err(e) => { return Err(revert(host, e)); },
        },
    };
    let result = match read_host_buffer(host, size) {
        Err(x) => { return Err(x); },
        Ok(Err(e)) => { return Err(revert(host, e)); },
        Ok(Ok(bytes)) => bytes,
    };
    match deserialize::<T>(result) {
        Ok(value) => Ok(value),
        Err(e) => Err(revert(host, e)),
    }
}

/// A call runs the callee at most once, and where the callee aborts the
/// caller gets no value: its own execution has ended with the callee's
/// reason.
pub proof fn lemma_call_runs_once<T: FromBytes>(
    s: HostState,
    target: ContractRef,
    args: Seq<CLValueView>,
    parsable: bool,
    urefs: Seq<Key>,
)
    requires
        s.exit is None,
    ensures
        ({
            let after = call_contract_spec::<T>(s, target, args, parsable, urefs).0;
            let call = (
                contract_key(target),
                list_encoding::<CLValue>(args),
                list_encoding::<Key>(urefs),
            );
            after.calls == s.calls || after.calls == s.calls.push(call)
        }),
        ({
            let k = contract_key(target);
            let a = list_encoding::<CLValue>(args);
            let u = list_encoding::<Key>(urefs);
            let reason = (s.callee)(k, a, u)->Reverts_0;
            call_encodable(args, parsable, urefs) && s.host_buffer is None && (s.callee)(k, a, u)
                is Reverts ==> {
                &&& call_contract_spec::<T>(s, target, args, parsable, urefs).1 == Err::<
                    T::V,
                    Exit,
                >(Exit::Reverted(reason))
                &&& call_contract_spec::<T>(s, target, args, parsable, urefs).0.exit == Some(
                    Exit::Reverted(reason),
                )
            }
        }),
        call_contract_spec::<T>(s, target, args, parsable, urefs).1 is Err
            <==> call_contract_spec::<T>(s, target, args, parsable, urefs).0.exit is Some,
{
}

/// Abort is terminal: once the execution has reached an exit, no operation
/// of this layer changes anything any more, and each yields that exit in
/// place of a result.
pub proof fn lemma_nothing_runs_after_exit<T: FromBytes>(
    s: HostState,
    x: Exit,
    name: Seq<char>,
    key: Key,
    uref: URef,
    i: int,
    size: int,
    reason: u32,
    value: CLValueView,
    urefs: Seq<URef>,
    target: ContractRef,
    args: Seq<CLValueView>,
    parsable: bool,
    extra: Seq<Key>,
)
    requires
        s.exit == Some(x),
    ensures
        revert_step(s, reason) == (s, x),
        ret_spec(s, value, urefs) == (s, x),
        call_contract_spec::<T>(s, target, args, parsable, extra) == (s, Err::<T::V, Exit>(x)),
        upgrade_spec(s, name, uref) == (s, Err::<(), Exit>(x)),
        arg_size_spec(s, i) == Err::<Option<int>, Exit>(x),
        get_arg_spec::<T>(s, i) == Err::<Option<Result<T::V, ApiError>>, Exit>(x),
        get_key_spec(s, name) == (s, Err::<Option<Key>, Exit>(x)),
        has_key_spec(s, name) == (s, Err::<bool, Exit>(x)),
        put_key_spec(s, name, key) == (s, Err::<(), Exit>(x)),
        remove_key_spec(s, name) == (s, Err::<(), Exit>(x)),
        list_named_keys_spec(s) == (s, Err::<Entries, Exit>(x)),
        is_valid_uref_spec(s, uref) == Err::<bool, Exit>(x),
        read_into_spec(s, size) == (s, Err::<Result<int, ApiError>, Exit>(x)),
        read_host_buffer_spec(s, size) == (s, Err::<Result<Seq<u8>, ApiError>, Exit>(x)),
{
}

/// An operation that ends the execution leaves it ended: the state after a
/// revert or a return holds an exit, whatever the state before.
pub proof fn lemma_exit_is_reached(s: HostState, reason: u32, value: CLValueView, urefs: Seq<URef>)
    ensures
        revert_step(s, reason).0.exit == Some(revert_step(s, reason).1),
        ret_spec(s, value, urefs).0.exit == Some(ret_spec(s, value, urefs).1),
        s.exit is None ==> revert_step(s, reason).1 == Exit::Reverted(reason),
{
}

} // verus!
