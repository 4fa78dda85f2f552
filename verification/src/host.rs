//! The host as seen from the guest: the primitive operations it offers, and a
//! mathematical account of what each of them does.
//!
//! Every primitive takes and returns bytes and numbers only. What the host
//! keeps between calls is described by a [`HostState`]; each primitive is a
//! spec function from the state before and the inputs to the state after and
//! the reply. An execution that has ended stays ended: on such a state every
//! primitive changes nothing and replies with the [`Exit`] already reached.

use crate::bytesrepr::{decoded, FromBytes, ToBytes};
use crate::error::{code_of, ApiError};
use crate::key::Key;
use crate::list::{list_encoding, list_representable};
use crate::namespace::{lookup, upsert, without, Entries};
use crate::purse::{
    account_transfer_host_step, create_purse_host_step, main_purse_reply, purse_transfer_host_step,
    PurseState, PurseTransferResult, TransferResult,
};
use crate::uref::URef;
use crate::value::{BlockTime, Phase, PublicKey, PurseId, U512};
use vstd::prelude::*;

verus! {

/// How an execution ended. An exit is never an ordinary error value: once it
/// is reached no operation runs any more.
#[derive(Clone, Copy, Debug, PartialEq, Eq, Structural)]
pub enum Exit {
    /// The guest, or a program it called, aborted with this reason. The host
    /// discards the effects of the execution.
    Reverted(u32),
    /// The guest delivered its final value to the host.
    Returned,
    /// The host stopped the execution because bytes handed to it do not
    /// decode.
    Faulted(ApiError),
}

/// What the execution of a called program comes to.
pub enum Callee {
    /// It ran to completion and returned these bytes.
    Returns(Seq<u8>),
    /// It aborted with this reason.
    Reverts(u32),
    /// The host refused the call with this error.
    Fails(ApiError),
}

/// What the host keeps for one execution.
pub struct HostState {
    /// How the execution ended, once it has.
    pub exit: Option<Exit>,
    /// The named keys of the current context.
    pub named_keys: Entries,
    /// The arguments the execution was started with, each in encoded form.
    pub args: Seq<Seq<u8>>,
    /// The account that started the execution.
    pub caller: PublicKey,
    /// The time of the current block.
    pub blocktime: BlockTime,
    /// The current phase.
    pub phase: Phase,
    /// The result that waits to be read, if any.
    pub host_buffer: Option<Seq<u8>>,
    /// The value and the references delivered by a return, in encoded form.
    pub returned: Option<(Seq<u8>, Seq<u8>)>,
    /// The programs replaced so far: the name of the function and the key
    /// under which it was stored.
    pub upgrades: Entries,
    /// The references that the host accepts as genuine.
    pub valid_urefs: Set<URef>,
    /// What calling a program comes to, by its key, the encoded arguments and
    /// the encoded list of references passed along.
    pub callee: spec_fn(Key, Seq<u8>, Seq<u8>) -> Callee,
    /// The programs run so far on behalf of this execution: key, encoded
    /// arguments and encoded references of each call.
    pub calls: Seq<(Key, Seq<u8>, Seq<u8>)>,
    /// The capacity of the receive buffer of each read of the host buffer so
    /// far.
    pub reads: Seq<int>,
    /// The purses and the transfers.
    pub purses: PurseState,
}

/// The status by which the host reports an error.
pub open spec fn status_of(e: ApiError) -> i32 {
    code_of(e) as i32
}

/// The state after the host has stopped the execution over undecodable bytes.
pub open spec fn faulted(s: HostState, e: ApiError) -> HostState {
    HostState { exit: Some(Exit::Faulted(e)), ..s }
}

/// A reply with one size in it, the size read as a number.
pub open spec fn sized(r: Result<(i32, usize), Exit>) -> Result<(i32, int), Exit> {
    match r {
        Ok((status, n)) => Ok((status, n as int)),
        Err(x) => Err(x),
    }
}

/// A reply with a count and a size in it, both read as numbers.
pub open spec fn counted(r: Result<(i32, usize, usize), Exit>) -> Result<(i32, int, int), Exit> {
    match r {
        Ok((status, count, n)) => Ok((status, count as int, n as int)),
        Err(x) => Err(x),
    }
}

/// What a receive buffer holds after a call: it keeps its length, and where
/// the call delivered `payload` the buffer starts with it.
pub open spec fn filled(before: Seq<u8>, after: Seq<u8>, delivered: bool, payload: Seq<u8>) -> bool {
    &&& after.len() == before.len()
    &&& delivered ==> payload.len() <= after.len() && after.subrange(0, payload.len() as int)
        == payload
}

/// Abort: the execution ends as reverted with `reason`, unless it had ended.
pub open spec fn revert_step(s: HostState, reason: u32) -> (HostState, Exit) {
    match s.exit {
        Some(x) => (s, x),
        None => (HostState { exit: Some(Exit::Reverted(reason)), ..s }, Exit::Reverted(reason)),
    }
}

/// Return: the execution ends as returned and the host keeps what was
/// delivered, unless the execution had ended.
pub open spec fn ret_step(s: HostState, value: Seq<u8>, urefs: Seq<u8>) -> (HostState, Exit) {
    match s.exit {
        Some(x) => (s, x),
        None => (
            HostState { exit: Some(Exit::Returned), returned: Some((value, urefs)), ..s },
            Exit::Returned,
        ),
    }
}

/// Call a program: the key must decode and no result may be waiting; then the
/// program runs. Its return value waits in the host buffer and its length is
/// reported; its abort ends this execution too; a refusal is a status.
pub open spec fn call_step(s: HostState, key: Seq<u8>, args: Seq<u8>, urefs: Seq<u8>) -> (
    HostState,
    Result<(i32, int), Exit>,
) {
    match s.exit {
        Some(x) => (s, Err(x)),
        None => match decoded::<Key>(key) {
            Err(e) => (faulted(s, e), Err(Exit::Faulted(e))),
            Ok(k) => if s.host_buffer is Some {
                (s, Ok((status_of(ApiError::HostBufferFull), 0)))
            } else {
                match (s.callee)(k, args, urefs) {
                    Callee::Returns(bytes) => (
                        HostState {
                            host_buffer: Some(bytes),
                            calls: s.calls.push((k, args, urefs)),
                            ..s
                        },
                        Ok((0, bytes.len() as int)),
                    ),
                    Callee::Reverts(reason) => (
                        HostState {
                            exit: Some(Exit::Reverted(reason)),
                            calls: s.calls.push((k, args, urefs)),
                            ..s
                        },
                        Err(Exit::Reverted(reason)),
                    ),
                    Callee::Fails(e) => (s, Ok((status_of(e), 0))),
                }
            },
        },
    }
}

/// Whether the host lets the program under `key` be replaced: the key is a
/// genuine reference that carries the right to write.
pub open spec fn upgrade_allowed(s: HostState, key: Key) -> bool {
    key matches Key::URef(u) && s.valid_urefs.contains(u) && u.rights.write
}

/// Replace a program: name and key must decode; the host records the
/// replacement where it allows it and reports a refusal otherwise.
pub open spec fn upgrade_step(s: HostState, name: Seq<u8>, key: Seq<u8>) -> (
    HostState,
    Result<i32, Exit>,
) {
    match s.exit {
        Some(x) => (s, Err(x)),
        None => match decoded::<String>(name) {
            Err(e) => (faulted(s, e), Err(Exit::Faulted(e))),
            Ok(n) => match decoded::<Key>(key) {
                Err(e) => (faulted(s, e), Err(Exit::Faulted(e))),
                Ok(k) => if upgrade_allowed(s, k) {
                    (HostState { upgrades: s.upgrades.push((n, k)), ..s }, Ok(0))
                } else {
                    (s, Ok(status_of(ApiError::UpgradeContractAtURef)))
                },
            },
        },
    }
}

/// The size of an argument: its length where it exists, the status of a
/// missing argument otherwise.
pub open spec fn arg_size_reply(s: HostState, index: int) -> Result<(i32, int), Exit> {
    match s.exit {
        Some(x) => Err(x),
        None => if 0 <= index < s.args.len() {
            Ok((0, s.args[index].len() as int))
        } else {
            Ok((status_of(ApiError::MissingArgument), 0))
        },
    }
}

/// Fetching an argument into a buffer of `capacity` bytes.
pub open spec fn arg_reply(s: HostState, index: int, capacity: int) -> Result<i32, Exit> {
    match s.exit {
        Some(x) => Err(x),
        None => if !(0 <= index < s.args.len()) {
            Ok(status_of(ApiError::MissingArgument))
        } else if capacity < s.args[index].len() {
            Ok(status_of(ApiError::BufferTooSmall))
        } else {
            Ok(0)
        },
    }
}

/// Reading a value of fixed size: it is delivered unless the execution had
/// ended.
pub open spec fn fixed_reply(s: HostState) -> Result<(), Exit> {
    match s.exit {
        Some(x) => Err(x),
        None => Ok(()),
    }
}

/// Looking up a named key into a buffer of `capacity` bytes: the name must
/// decode; an absent name and a buffer too small are statuses of their own;
/// otherwise the length of the encoded key is reported.
pub open spec fn get_key_step(s: HostState, name: Seq<u8>, capacity: int) -> (
    HostState,
    Result<(i32, int), Exit>,
) {
    match s.exit {
        Some(x) => (s, Err(x)),
        None => match decoded::<String>(name) {
            Err(e) => (faulted(s, e), Err(Exit::Faulted(e))),
            Ok(n) => match lookup(s.named_keys, n) {
                None => (s, Ok((status_of(ApiError::MissingKey), 0))),
                Some(k) => if capacity < Key::encoding(k).len() {
                    (s, Ok((status_of(ApiError::BufferTooSmall), 0)))
                } else {
                    (s, Ok((0, Key::encoding(k).len() as int)))
                },
            },
        },
    }
}

/// The bytes that a successful lookup of `name` delivers.
pub open spec fn get_key_payload(s: HostState, name: Seq<u8>) -> Seq<u8> {
    match decoded::<String>(name) {
        Ok(n) => match lookup(s.named_keys, n) {
            Some(k) => Key::encoding(k),
            None => Seq::empty(),
        },
        Err(_) => Seq::empty(),
    }
}

/// Probing for a named key: zero where the name is present, one where it is
/// not.
pub open spec fn has_key_step(s: HostState, name: Seq<u8>) -> (HostState, Result<i32, Exit>) {
    match s.exit {
        Some(x) => (s, Err(x)),
        None => match decoded::<String>(name) {
            Err(e) => (faulted(s, e), Err(Exit::Faulted(e))),
            Ok(n) => if lookup(s.named_keys, n) is Some {
                (s, Ok(0))
            } else {
                (s, Ok(1))
            },
        },
    }
}

/// Putting a key under a name: both must decode; the namespace then holds the
/// key under the name.
pub open spec fn put_key_step(s: HostState, name: Seq<u8>, key: Seq<u8>) -> (
    HostState,
    Result<(), Exit>,
) {
    match s.exit {
        Some(x) => (s, Err(x)),
        None => match decoded::<String>(name) {
            Err(e) => (faulted(s, e), Err(Exit::Faulted(e))),
            Ok(n) => match decoded::<Key>(key) {
                Err(e) => (faulted(s, e), Err(Exit::Faulted(e))),
                Ok(k) => (HostState { named_keys: upsert(s.named_keys, n, k), ..s }, Ok(())),
            },
        },
    }
}

/// Removing a name: the namespace then holds nothing under it.
pub open spec fn remove_key_step(s: HostState, name: Seq<u8>) -> (HostState, Result<(), Exit>) {
    match s.exit {
        Some(x) => (s, Err(x)),
        None => match decoded::<String>(name) {
            Err(e) => (faulted(s, e), Err(Exit::Faulted(e))),
            Ok(n) => (HostState { named_keys: without(s.named_keys, n), ..s }, Ok(())),
        },
    }
}

/// Listing the namespace: an empty namespace is reported as zero entries and
/// nothing is put into the host buffer; otherwise the encoded list waits in
/// the host buffer and the number of entries and of bytes is reported.
pub open spec fn load_named_keys_step(s: HostState) -> (HostState, Result<(i32, int, int), Exit>) {
    match s.exit {
        Some(x) => (s, Err(x)),
        None => if s.named_keys.len() == 0 {
            (s, Ok((0, 0, 0)))
        } else if s.host_buffer is Some {
            (s, Ok((status_of(ApiError::HostBufferFull), 0, 0)))
        } else if !list_representable::<(String, Key)>(s.named_keys) {
            (s, Ok((status_of(ApiError::OutOfMemory), 0, 0)))
        } else {
            (
                HostState {
                    host_buffer: Some(list_encoding::<(String, Key)>(s.named_keys)),
                    ..s
                },
                Ok(
                    (
                        0,
                        s.named_keys.len() as int,
                        list_encoding::<(String, Key)>(s.named_keys).len() as int,
                    ),
                ),
            )
        },
    }
}

/// Validating a reference: one where the host accepts it, zero where not.
pub open spec fn is_valid_uref_step(s: HostState, uref: Seq<u8>) -> (HostState, Result<i32, Exit>) {
    match s.exit {
        Some(x) => (s, Err(x)),
        None => match decoded::<URef>(uref) {
            Err(e) => (faulted(s, e), Err(Exit::Faulted(e))),
            Ok(u) => if s.valid_urefs.contains(u) {
                (s, Ok(1))
            } else {
                (s, Ok(0))
            },
        },
    }
}

/// Reading the waiting result into a buffer of `capacity` bytes: the result
/// is delivered whole and is then gone; where none waits, or the buffer is
/// too small, a status says so and the result stays as it is. Each read is
/// recorded.
pub open spec fn read_host_buffer_step(s: HostState, capacity: int) -> (
    HostState,
    Result<(i32, int), Exit>,
) {
    match s.exit {
        Some(x) => (s, Err(x)),
        None => match s.host_buffer {
            None => (
                HostState { reads: s.reads.push(capacity), ..s },
                Ok((status_of(ApiError::HostBufferEmpty), 0)),
            ),
            Some(bytes) => if capacity < bytes.len() {
                (
                    HostState { reads: s.reads.push(capacity), ..s },
                    Ok((status_of(ApiError::BufferTooSmall), 0)),
                )
            } else {
                (
                    HostState { host_buffer: None, reads: s.reads.push(capacity), ..s },
                    Ok((0, bytes.len() as int)),
                )
            },
        },
    }
}

/// The bytes that a successful read of the host buffer delivers.
pub open spec fn host_buffer_payload(s: HostState) -> Seq<u8> {
    match s.host_buffer {
        Some(bytes) => bytes,
        None => Seq::empty(),
    }
}

/// The primitive operations of the host. Buffers lent to a call are borrowed
/// for its length only; a receive buffer keeps its length and is written from
/// its start.
pub trait Host {
    /// What the host keeps for this execution. A host that keeps its state
    /// out of sight of the guest need not say what it is.
    open spec fn state(&self) -> HostState {
        arbitrary()
    }

    /// Ends the execution as reverted with `reason`.
    fn revert(&mut self, reason: u32) -> (x: Exit)
        ensures
            final(self).state() == revert_step(old(self).state(), reason).0,
            x == revert_step(old(self).state(), reason).1,
    ;

    /// Ends the execution by delivering an encoded value and an encoded list
    /// of references.
    fn ret(&mut self, value: &[u8], urefs: &[u8]) -> (x: Exit)
        ensures
            final(self).state() == ret_step(old(self).state(), value@, urefs@).0,
            x == ret_step(old(self).state(), value@, urefs@).1,
    ;

    /// Runs the program under the encoded key; replies with a status and the
    /// length of the result that then waits in the host buffer.
    fn call_contract(&mut self, key: &[u8], args: &[u8], urefs: &[u8]) -> (r: Result<
        (i32, usize),
        Exit,
    >)
        ensures
            final(self).state() == call_step(old(self).state(), key@, args@, urefs@).0,
            sized(r) == call_step(old(self).state(), key@, args@, urefs@).1,
    ;

    /// Replaces the program stored under the encoded key.
    fn upgrade_contract_at_uref(&mut self, name: &[u8], key: &[u8]) -> (r: Result<i32, Exit>)
        ensures
            final(self).state() == upgrade_step(old(self).state(), name@, key@).0,
            r == upgrade_step(old(self).state(), name@, key@).1,
    ;

    /// Replies with a status and the length of the argument at `index`.
    fn get_arg_size(&self, index: usize) -> (r: Result<(i32, usize), Exit>)
        ensures
            sized(r) == arg_size_reply(self.state(), index as int),
    ;

    /// Writes the argument at `index` to the start of `dest`.
    fn get_arg(&self, index: usize, dest: &mut Vec<u8>) -> (r: Result<i32, Exit>)
        ensures
            r == arg_reply(self.state(), index as int, old(dest)@.len() as int),
            filled(
                old(dest)@,
                final(dest)@,
                r == Ok::<i32, Exit>(0),
                self.state().args[index as int],
            ),
    ;

    /// Writes the encoded identity of the caller to `dest`, which has exactly
    /// the length of an encoded identity.
    fn get_caller(&self, dest: &mut Vec<u8>) -> (r: Result<(), Exit>)
        requires
            old(dest)@.len() == crate::value::PUBLIC_KEY_SERIALIZED_LENGTH,
        ensures
            r == fixed_reply(self.state()),
            filled(old(dest)@, final(dest)@, r is Ok, PublicKey::encoding(self.state().caller)),
    ;

    /// Writes the encoded block time to `dest`, which has exactly the length
    /// of an encoded block time.
    fn get_blocktime(&self, dest: &mut Vec<u8>) -> (r: Result<(), Exit>)
        requires
            old(dest)@.len() == crate::value::BLOCKTIME_SERIALIZED_LENGTH,
        ensures
            r == fixed_reply(self.state()),
            filled(old(dest)@, final(dest)@, r is Ok, BlockTime::encoding(self.state().blocktime)),
    ;

    /// Writes the encoded phase to `dest`, which has exactly the length of an
    /// encoded phase.
    fn get_phase(&self, dest: &mut Vec<u8>) -> (r: Result<(), Exit>)
        requires
            old(dest)@.len() == crate::value::PHASE_SERIALIZED_LENGTH,
        ensures
            r == fixed_reply(self.state()),
            filled(old(dest)@, final(dest)@, r is Ok, Phase::encoding(self.state().phase)),
    ;

    /// Writes the encoded key stored under the encoded name to the start of
    /// `dest`; replies with a status and the number of bytes written.
    fn get_key(&mut self, name: &[u8], dest: &mut Vec<u8>) -> (r: Result<(i32, usize), Exit>)
        ensures
            final(self).state() == get_key_step(
                old(self).state(),
                name@,
                old(dest)@.len() as int,
            ).0,
            sized(r) == get_key_step(old(self).state(), name@, old(dest)@.len() as int).1,
            filled(
                old(dest)@,
                final(dest)@,
                r matches Ok((status, _)) && status == 0,
                get_key_payload(old(self).state(), name@),
            ),
    ;

    /// Replies with zero where a key is stored under the encoded name.
    fn has_key(&mut self, name: &[u8]) -> (r: Result<i32, Exit>)
        ensures
            final(self).state() == has_key_step(old(self).state(), name@).0,
            r == has_key_step(old(self).state(), name@).1,
    ;

    /// Stores the encoded key under the encoded name.
    fn put_key(&mut self, name: &[u8], key: &[u8]) -> (r: Result<(), Exit>)
        ensures
            final(self).state() == put_key_step(old(self).state(), name@, key@).0,
            r == put_key_step(old(self).state(), name@, key@).1,
    ;

    /// Removes what is stored under the encoded name.
    fn remove_key(&mut self, name: &[u8]) -> (r: Result<(), Exit>)
        ensures
            final(self).state() == remove_key_step(old(self).state(), name@).0,
            r == remove_key_step(old(self).state(), name@).1,
    ;

    /// Puts the encoded namespace into the host buffer; replies with a status,
    /// the number of entries and the number of bytes.
    fn load_named_keys(&mut self) -> (r: Result<(i32, usize, usize), Exit>)
        ensures
            final(self).state() == load_named_keys_step(old(self).state()).0,
            counted(r) == load_named_keys_step(old(self).state()).1,
    ;

    /// Replies with a number other than zero where the host accepts the
    /// encoded reference.
    fn is_valid_uref(&mut self, uref: &[u8]) -> (r: Result<i32, Exit>)
        ensures
            final(self).state() == is_valid_uref_step(old(self).state(), uref@).0,
            r == is_valid_uref_step(old(self).state(), uref@).1,
    ;

    /// Writes the waiting result to the start of `dest`; replies with a status
    /// and the number of bytes written.
    fn read_host_buffer(&mut self, dest: &mut Vec<u8>) -> (r: Result<(i32, usize), Exit>)
        ensures
            final(self).state() == read_host_buffer_step(
                old(self).state(),
                old(dest)@.len() as int,
            ).0,
            sized(r) == read_host_buffer_step(old(self).state(), old(dest)@.len() as int).1,
            filled(
                old(dest)@,
                final(dest)@,
                r matches Ok((status, _)) && status == 0,
                host_buffer_payload(old(self).state()),
            ),
    ;

    /// The main purse of the account that runs the execution.
    fn main_purse(&self) -> (r: Result<PurseId, Exit>)
        ensures
            r == main_purse_reply(self.state()),
    ;

    /// Creates an empty purse.
    fn create_purse(&mut self) -> (r: Result<PurseId, Exit>)
        ensures
            final(self).state() == create_purse_host_step(old(self).state()).0,
            r == create_purse_host_step(old(self).state()).1,
    ;

    /// Moves `amount` from one purse to another.
    fn transfer_from_purse_to_purse(&mut self, source: PurseId, target: PurseId, amount: U512) -> (r:
        Result<PurseTransferResult, Exit>)
        ensures
            final(self).state() == purse_transfer_host_step(
                old(self).state(),
                source,
                target,
                amount,
            ).0,
            r == purse_transfer_host_step(old(self).state(), source, target, amount).1,
    ;

    /// Moves `amount` from a purse to the main purse of an account.
    fn transfer_from_purse_to_account(
        &mut self,
        source: PurseId,
        target: PublicKey,
        amount: U512,
    ) -> (r: Result<TransferResult, Exit>)
        ensures
            final(self).state() == account_transfer_host_step(
                old(self).state(),
                source,
                target,
                amount,
            ).0,
            r == account_transfer_host_step(old(self).state(), source, target, amount).1,
    ;
}

/// Once an execution has ended, no primitive changes the state, and each
/// replies with the exit that was reached.
pub proof fn lemma_exit_is_final(
    s: HostState,
    x: Exit,
    a: Seq<u8>,
    b: Seq<u8>,
    c: Seq<u8>,
    n: int,
    reason: u32,
)
    requires
        s.exit == Some(x),
    ensures
        revert_step(s, reason) == (s, x),
        ret_step(s, a, b) == (s, x),
        call_step(s, a, b, c) == (s, Err::<(i32, int), Exit>(x)),
        upgrade_step(s, a, b) == (s, Err::<i32, Exit>(x)),
        arg_size_reply(s, n) == Err::<(i32, int), Exit>(x),
        arg_reply(s, n, n) == Err::<i32, Exit>(x),
        fixed_reply(s) == Err::<(), Exit>(x),
        get_key_step(s, a, n) == (s, Err::<(i32, int), Exit>(x)),
        has_key_step(s, a) == (s, Err::<i32, Exit>(x)),
        put_key_step(s, a, b) == (s, Err::<(), Exit>(x)),
        remove_key_step(s, a) == (s, Err::<(), Exit>(x)),
        load_named_keys_step(s) == (s, Err::<(i32, int, int), Exit>(x)),
        is_valid_uref_step(s, a) == (s, Err::<i32, Exit>(x)),
        read_host_buffer_step(s, n) == (s, Err::<(i32, int), Exit>(x)),
        main_purse_reply(s) == Err::<PurseId, Exit>(x),
        create_purse_host_step(s) == (s, Err::<PurseId, Exit>(x)),
        forall|source: PurseId, target: PurseId, amount: U512|
            #[trigger] purse_transfer_host_step(s, source, target, amount) == (
                s,
                Err::<PurseTransferResult, Exit>(x),
            ),
        forall|source: PurseId, target: PublicKey, amount: U512|
            #[trigger] account_transfer_host_step(s, source, target, amount) == (
                s,
                Err::<TransferResult, Exit>(x),
            ),
{
}

/// Size-then-fill: a read into a buffer of the size that the size query
/// reported delivers exactly the waiting result and leaves no result waiting;
/// and a read into a buffer of any capacity never writes more bytes than the
/// buffer holds, nor, where it succeeds, a count other than the size queried.
pub proof fn lemma_read_within_queried_size(s: HostState, bytes: Seq<u8>, capacity: int)
    requires
        s.exit is None,
        s.host_buffer == Some(bytes),
    ensures
        read_host_buffer_step(s, bytes.len() as int).1 == Ok::<(i32, int), Exit>(
            (0, bytes.len() as int),
        ),
        read_host_buffer_step(s, bytes.len() as int).0.host_buffer is None,
        capacity >= 0 ==> (read_host_buffer_step(s, capacity).1 matches Ok((status, written))
            && 0 <= written <= capacity && (status == 0 ==> written == bytes.len())),
{
}

/// Size-then-fill after a call: where the call reports success and a size,
/// a read into a buffer of exactly that size succeeds and writes exactly
/// that many bytes, the result of the callee.
pub proof fn lemma_call_then_read(s: HostState, key: Seq<u8>, args: Seq<u8>, urefs: Seq<u8>)
    ensures
        call_step(s, key, args, urefs).1 is Ok && call_step(s, key, args, urefs).1->Ok_0.0 == 0
            ==> {
            let after = call_step(s, key, args, urefs).0;
            let size = call_step(s, key, args, urefs).1->Ok_0.1;
            &&& after.host_buffer is Some
            &&& after.host_buffer->Some_0.len() == size
            &&& read_host_buffer_step(after, size).1 == Ok::<(i32, int), Exit>((0, size))
            &&& read_host_buffer_step(after, size).0.host_buffer is None
        },
{
}

/// Size-then-fill after a listing: where the host reports entries and a
/// size, a read into a buffer of exactly that size succeeds and writes
/// exactly that many bytes, the encoded namespace.
pub proof fn lemma_list_then_read(s: HostState)
    ensures
        load_named_keys_step(s).1 is Ok && load_named_keys_step(s).1->Ok_0.0 == 0
            && load_named_keys_step(s).1->Ok_0.1 > 0 ==> {
            let after = load_named_keys_step(s).0;
            let size = load_named_keys_step(s).1->Ok_0.2;
            &&& after.host_buffer == Some(list_encoding::<(String, Key)>(s.named_keys))
            &&& read_host_buffer_step(after, size).1 == Ok::<(i32, int), Exit>((0, size))
        },
{
}

/// Size-then-fill for an argument: where the size query reports a size, a
/// fetch into a buffer of exactly that size succeeds, and the argument has
/// exactly that many bytes.
pub proof fn lemma_arg_size_then_fetch(s: HostState, index: int)
    ensures
        arg_size_reply(s, index) is Ok && arg_size_reply(s, index)->Ok_0.0 == 0 ==> {
            let size = arg_size_reply(s, index)->Ok_0.1;
            &&& arg_reply(s, index, size) == Ok::<i32, Exit>(0)
            &&& s.args[index].len() == size
        },
{
}

} // verus!
