//! A host that lives in memory: it keeps the state of one execution in plain
//! collections and answers every primitive as the host is specified to.

use crate::bytesrepr::{decode_all, write_prefix, ToBytes};

use crate::error::ApiError;
use crate::host::{faulted, Callee, Exit, Host, HostState};
use crate::key::{key_to_bytes, Key};

use crate::namespace::{
    absent_before, lemma_first_match, lemma_no_match, lemma_without_push, without,
};
use crate::purse::{PurseState, PurseTransferResult, Target, Transfer, TransferResult};
use crate::sequence::block_eq;
use crate::uref::{AccessRights, URef};
use crate::value::{BlockTime, Phase, PublicKey, PurseId, U512};
use vstd::array::spec_array_fill_for_copy_type;
use vstd::prelude::*;
use vstd::slice::slice_to_vec;

verus! {

/// What a program installed in the host does when it is called.
#[derive(Debug)]
pub enum Outcome {
    /// It returns these bytes.
    Returns(Vec<u8>),
    /// It aborts with this reason.
    Reverts(u32),
    /// The host refuses the call with this error.
    Fails(ApiError),
}

/// A program installed in the host under a key.
#[derive(Debug)]
pub struct Program {
    pub key: Key,
    pub outcome: Outcome,
}

/// An outcome as a mathematical value.
pub open spec fn outcome_view(o: Outcome) -> Callee {
    match o {
        Outcome::Returns(bytes) => Callee::Returns(bytes@),
        Outcome::Reverts(reason) => Callee::Reverts(reason),
        Outcome::Fails(e) => Callee::Fails(e),
    }
}

/// What a call of `key` comes to: the outcome of the first program installed
/// under it; with none installed, the host refuses the reference.
pub open spec fn find_program(programs: Seq<Program>, key: Key) -> Callee
    decreases programs.len(),
{
    if programs.len() == 0 {
        Callee::Fails(ApiError::InvalidReference)
    } else if programs[0].key == key {
        outcome_view(programs[0].outcome)
    } else {
        find_program(programs.drop_first(), key)
    }
}

/// Each argument as its bytes.
pub open spec fn args_view(args: Seq<Vec<u8>>) -> Seq<Seq<u8>> {
    Seq::new(args.len(), |i: int| args[i]@)
}

/// Each recorded call as plain values.
pub open spec fn calls_view(calls: Seq<(Key, Vec<u8>, Vec<u8>)>) -> Seq<(Key, Seq<u8>, Seq<u8>)> {
    Seq::new(calls.len(), |i: int| (calls[i].0, calls[i].1@, calls[i].2@))
}

/// Each recorded capacity as a number.
pub open spec fn reads_view(reads: Seq<usize>) -> Seq<int> {
    Seq::new(reads.len(), |i: int| reads[i] as int)
}

/// The host in memory. Its fields are its state.
#[derive(Debug)]
pub struct SimHost {
    pub exit: Option<Exit>,
    pub named_keys: Vec<(String, Key)>,
    pub args: Vec<Vec<u8>>,
    pub caller: PublicKey,
    pub blocktime: BlockTime,
    pub phase: Phase,
    pub host_buffer: Option<Vec<u8>>,
    pub returned: Option<(Vec<u8>, Vec<u8>)>,
    pub upgrades: Vec<(String, Key)>,
    pub valid_urefs: Vec<URef>,
    pub programs: Vec<Program>,
    pub calls: Vec<(Key, Vec<u8>, Vec<u8>)>,
    pub reads: Vec<usize>,
    pub main_purse: PurseId,
    pub created: Vec<PurseId>,
    pub insolvent: Vec<PurseId>,
    pub accounts: Vec<PublicKey>,
    pub transfers: Vec<Transfer>,
}

/// The purse that the host in memory hands out when `n` purses were created
/// before: its address repeats the low byte of `n`, and it carries every
/// right.
pub open spec fn minted(n: int) -> PurseId {
    PurseId {
        uref: URef {
            addr: spec_array_fill_for_copy_type::<u8, 32>((n % 256) as u8),
            rights: AccessRights { read: true, write: true, add: true },
        },
    }
}

impl SimHost {
    /// The purses that the fields stand for. A purse is solvent unless it is
    /// listed as insolvent, whatever the amount.
    pub open spec fn purse_model(&self) -> PurseState {
        PurseState {
            main: self.main_purse,
            created: self.created@,
            mint: |n: int| minted(n),
            solvent: |p: PurseId, a: U512| !self.insolvent@.contains(p),
            accounts: Set::new(|k: PublicKey| self.accounts@.contains(k)),
            transfers: self.transfers@,
        }
    }

    /// The state that the fields stand for.
    pub open spec fn model(&self) -> HostState {
        HostState {
            exit: self.exit,
            named_keys: self.named_keys.deep_view(),
            args: args_view(self.args@),
            caller: self.caller,
            blocktime: self.blocktime,
            phase: self.phase,
            host_buffer: match self.host_buffer {
                Some(bytes) => Some(bytes@),
                None => None,
            },
            returned: match self.returned {
                Some((value, urefs)) => Some((value@, urefs@)),
                None => None,
            },
            upgrades: self.upgrades.deep_view(),
            valid_urefs: Set::new(|u: URef| self.valid_urefs@.contains(u)),
            callee: |k: Key, a: Seq<u8>, u: Seq<u8>| find_program(self.programs@, k),
            calls: calls_view(self.calls@),
            reads: reads_view(self.reads@),
            purses: self.purse_model(),
        }
    }

    /// A host at the start of an execution: nothing stored, no argument, no
    /// program installed, no reference accepted.
    pub fn new(caller: PublicKey, blocktime: BlockTime, phase: Phase) -> (host: SimHost)
        ensures
            host.model().exit is None,
            host.model().named_keys == Seq::<(Seq<char>, Key)>::empty(),
            host.model().args == Seq::<Seq<u8>>::empty(),
            host.model().caller == caller,
            host.model().blocktime == blocktime,
            host.model().phase == phase,
            host.model().host_buffer is None,
            host.model().returned is None,
            host.model().upgrades == Seq::<(Seq<char>, Key)>::empty(),
            host.model().valid_urefs == Set::<URef>::empty(),
            host.model().calls == Seq::<(Key, Seq<u8>, Seq<u8>)>::empty(),
            host.model().reads == Seq::<int>::empty(),
            host.main_purse == (PurseId {
                uref: URef {
                    addr: caller.bytes,
                    rights: AccessRights { read: true, write: true, add: true },
                },
            }),
            host.created@.len() == 0,
            host.insolvent@.len() == 0,
            host.accounts@.len() == 0,
            host.transfers@.len() == 0,
            forall|k: Key, a: Seq<u8>, u: Seq<u8>|
                #[trigger] (host.model().callee)(k, a, u) == Callee::Fails(
                    ApiError::InvalidReference,
                ),
    {
        let host = SimHost {
            exit: None,
            named_keys: Vec::new(),
            args: Vec::new(),
            caller,
            blocktime,
            phase,
            host_buffer: None,
            returned: None,
            upgrades: Vec::new(),
            valid_urefs: Vec::new(),
            programs: Vec::new(),
            calls: Vec::new(),
            reads: Vec::new(),
            main_purse: PurseId { uref: URef { addr: caller.bytes, rights: AccessRights::all() } },
            created: Vec::new(),
            insolvent: Vec::new(),
            accounts: Vec::new(),
            transfers: Vec::new(),
        };
        assert(host.model().named_keys =~= Seq::<(Seq<char>, Key)>::empty());
        assert(host.model().args =~= Seq::<Seq<u8>>::empty());
        assert(host.model().upgrades =~= Seq::<(Seq<char>, Key)>::empty());
        assert(host.model().valid_urefs =~= Set::<URef>::empty());
        assert(host.model().calls =~= Seq::<(Key, Seq<u8>, Seq<u8>)>::empty());
        assert(host.model().reads =~= Seq::<int>::empty());
        host
    }

    /// Adds an argument, in encoded form, after those already there.
    pub fn push_arg(&mut self, bytes: Vec<u8>)
        ensures
            final(self).model() == (HostState {
                args: old(self).model().args.push(bytes@),
                ..old(self).model()
            }),
    {
        self.args.push(bytes);
        assert(args_view(self.args@) =~= args_view(old(self).args@).push(bytes@));
    }

    /// Makes the host accept a reference as genuine.
    pub fn trust(&mut self, uref: URef)
        ensures
            final(self).model() == (HostState {
                valid_urefs: old(self).model().valid_urefs.insert(uref),
                ..old(self).model()
            }),
    {
        self.valid_urefs.push(uref);
        assert(self.model().valid_urefs =~= old(self).model().valid_urefs.insert(uref)) by {
            assert forall|u: URef|
                self.valid_urefs@.contains(u) <==> (u == uref || old(self).valid_urefs@.contains(
                    u,
                )) by {
                if self.valid_urefs@.contains(u) {
                    let i = choose|i: int| 0 <= i < self.valid_urefs@.len() && self.valid_urefs@[i] == u;
                    if i < old(self).valid_urefs@.len() {
                        assert(old(self).valid_urefs@[i] == u);
                    }
                }
                if old(self).valid_urefs@.contains(u) {
                    let i = choose|i: int|
                        0 <= i < old(self).valid_urefs@.len() && old(self).valid_urefs@[i] == u;
                    assert(self.valid_urefs@[i] == u);
                }
                if u == uref {
                    assert(self.valid_urefs@[self.valid_urefs@.len() - 1] == u);
                }
            }
        }
    }
}

impl SimHost {
    /// Whether two texts are equal.
    fn same_text(a: &String, b: &String) -> (same: bool)
        ensures
            same == (a@ == b@),
    {
        *a == *b
    }

    /// The place of the first entry under `name`, or the number of entries
    /// where there is none.
    fn position(entries: &Vec<(String, Key)>, name: &String) -> (i: usize)
        ensures
            i <= entries@.len(),
            absent_before(entries.deep_view(), name@, i as int),
            i < entries@.len() ==> entries.deep_view()[i as int].0 == name@,
    {
        let mut i: usize = 0;
        while i < entries.len()
            invariant
                i <= entries@.len(),
                absent_before(entries.deep_view(), name@, i as int),
            decreases entries@.len() - i,
        {
            if Self::same_text(&entries[i].0, name) {
                return i;
            }
            i += 1;
        }
        i
    }

    /// What a call of `key` comes to.
    fn outcome_of_call(&self, key: &Key) -> (i: usize)
        ensures
            i <= self.programs@.len(),
            i < self.programs@.len() ==> find_program(self.programs@, *key) == outcome_view(
                self.programs@[i as int].outcome,
            ),
            i == self.programs@.len() ==> find_program(self.programs@, *key) == Callee::Fails(
                ApiError::InvalidReference,
            ),
    {
        let mut i: usize = 0;
        assert(self.programs@.subrange(0, self.programs@.len() as int) =~= self.programs@);
        while i < self.programs.len()
            invariant
                i <= self.programs@.len(),
                find_program(self.programs@, *key) == find_program(
                    self.programs@.subrange(i as int, self.programs@.len() as int),
                    *key,
                ),
            decreases self.programs@.len() - i,
        {
            let ghost tail = self.programs@.subrange(i as int, self.programs@.len() as int);
            assert(tail[0] == self.programs@[i as int]);
            if self.programs[i].key.same(key) {
                return i;
            }
            assert(tail.drop_first() =~= self.programs@.subrange(
                i + 1,
                self.programs@.len() as int,
            ));
            i += 1;
        }
        i
    }

    /// Whether the host accepts `uref`.
    fn accepts(&self, uref: &URef) -> (yes: bool)
        ensures
            yes == self.model().valid_urefs.contains(*uref),
    {
        let mut i: usize = 0;
        while i < self.valid_urefs.len()
            invariant
                i <= self.valid_urefs@.len(),
                forall|j: int| 0 <= j < i ==> self.valid_urefs@[j] != *uref,
            decreases self.valid_urefs@.len() - i,
        {
            if self.valid_urefs[i].same(uref) {
                return true;
            }
            i += 1;
        }
        false
    }

    /// Installs a program under a key, after those already installed. Nothing
    /// else changes.
    pub fn install(&mut self, key: Key, outcome: Outcome)
        ensures
            final(self).programs@ == old(self).programs@.push(Program { key, outcome }),
            *final(self) == (SimHost { programs: final(self).programs, ..*old(self) }),
    {
        self.programs.push(Program { key, outcome });
    }

    /// Stops the execution over bytes that do not decode.
    fn fault(&mut self, e: ApiError) -> (x: Exit)
        ensures
            final(self).model() == faulted(old(self).model(), e),
            x == Exit::Faulted(e),
    {
        self.exit = Some(Exit::Faulted(e));
        Exit::Faulted(e)
    }
}

impl Host for SimHost {
    open spec fn state(&self) -> HostState {
        self.model()
    }

    fn revert(&mut self, reason: u32) -> (x: Exit) {
        match self.exit {
            Some(x) => x,
            None => {
                self.exit = Some(Exit::Reverted(reason));
                Exit::Reverted(reason)
            },
        }
    }

    fn ret(&mut self, value: &[u8], urefs: &[u8]) -> (x: Exit) {
        match self.exit {
            Some(x) => x,
            None => {
                self.exit = Some(Exit::Returned);
                self.returned = Some((slice_to_vec(value), slice_to_vec(urefs)));
                Exit::Returned
            },
        }
    }

    fn call_contract(&mut self, key: &[u8], args: &[u8], urefs: &[u8]) -> (r: Result<
        (i32, usize),
        Exit,
    >) {
        if let Some(x) = self.exit {
            return Err(x);
        }
        let k = match decode_all::<Key>(key) {
            Ok(k) => k,
            Err(e) => { return Err(self.fault(e)); },
        };
        if self.host_buffer.is_some() {
            return Ok((ApiError::HostBufferFull.status(), 0));
        }
        let i = self.outcome_of_call(&k);
        if i == self.programs.len() {
            return Ok((ApiError::InvalidReference.status(), 0));
        }
        match &self.programs[i].outcome {
            Outcome::Returns(bytes) => {
                let result = slice_to_vec(bytes.as_slice());
                let n = result.len();
                self.host_buffer = Some(result);
                self.calls.push((k, slice_to_vec(args), slice_to_vec(urefs)));
                assert(calls_view(self.calls@) =~= calls_view(old(self).calls@).push(
                    (k, args@, urefs@),
                ));
                Ok((0, n))
            },
            Outcome::Reverts(reason) => {
                let reason = *reason;
                self.exit = Some(Exit::Reverted(reason));
                self.calls.push((k, slice_to_vec(args), slice_to_vec(urefs)));
                assert(calls_view(self.calls@) =~= calls_view(old(self).calls@).push(
                    (k, args@, urefs@),
                ));
                Err(Exit::Reverted(reason))
            },
            Outcome::Fails(e) => Ok((e.status(), 0)),
        }
    }

    fn upgrade_contract_at_uref(&mut self, name: &[u8], key: &[u8]) -> (r: Result<i32, Exit>) {
        if let Some(x) = self.exit {
            return Err(x);
        }
        let n = match decode_all::<String>(name) {
            Ok(n) => n,
            Err(e) => { return Err(self.fault(e)); },
        };
        let k = match decode_all::<Key>(key) {
            Ok(k) => k,
            Err(e) => { return Err(self.fault(e)); },
        };
        let allowed = match k {
            Key::URef(u) => self.accepts(&u) && u.rights.write,
            _ => false,
        };
        if allowed {
            self.upgrades.push((n, k));
            assert(self.upgrades.deep_view() =~= old(self).upgrades.deep_view().push((n@, k)));
            Ok(0)
        } else {
            Ok(ApiError::UpgradeContractAtURef.status())
        }
    }

    fn get_arg_size(&self, index: usize) -> (r: Result<(i32, usize), Exit>) {
        if let Some(x) = self.exit {
            return Err(x);
        }
        if index < self.args.len() {
            Ok((0, self.args[index].len()))
        } else {
            Ok((ApiError::MissingArgument.status(), 0))
        }
    }

    fn get_arg(&self, index: usize, dest: &mut Vec<u8>) -> (r: Result<i32, Exit>) {
        if let Some(x) = self.exit {
            return Err(x);
        }
        if index >= self.args.len() {
            return Ok(ApiError::MissingArgument.status());
        }
        if dest.len() < self.args[index].len() {
            return Ok(ApiError::BufferTooSmall.status());
        }
        write_prefix(dest, self.args[index].as_slice());
        Ok(0)
    }

    fn get_caller(&self, dest: &mut Vec<u8>) -> (r: Result<(), Exit>) {
        if let Some(x) = self.exit {
            return Err(x);
        }
        let bytes = crate::sequence::block_to_vec(&self.caller.bytes);
        write_prefix(dest, bytes.as_slice());
        Ok(())
    }

    fn get_blocktime(&self, dest: &mut Vec<u8>) -> (r: Result<(), Exit>) {
        if let Some(x) = self.exit {
            return Err(x);
        }
        let bytes = vstd::bytes::u64_to_le_bytes(self.blocktime.millis);
        write_prefix(dest, bytes.as_slice());
        Ok(())
    }

    fn get_phase(&self, dest: &mut Vec<u8>) -> (r: Result<(), Exit>) {
        if let Some(x) = self.exit {
            return Err(x);
        }
        let tag: u8 = match self.phase {
            Phase::System => 0,
            Phase::Payment => 1,
            Phase::Session => 2,
            Phase::FinalizePayment => 3,
        };
        dest[0] = tag;
        assert(dest@.subrange(0, 1) =~= seq![tag]);
        Ok(())
    }

    fn get_key(&mut self, name: &[u8], dest: &mut Vec<u8>) -> (r: Result<(i32, usize), Exit>) {
        if let Some(x) = self.exit {
            return Err(x);
        }
        let n = match decode_all::<String>(name) {
            Ok(n) => n,
            Err(e) => { return Err(self.fault(e)); },
        };
        let i = Self::position(&self.named_keys, &n);
        if i == self.named_keys.len() {
            proof {
                lemma_no_match(self.named_keys.deep_view(), n@, arbitrary::<Key>());
            }
            return Ok((ApiError::MissingKey.status(), 0));
        }
        proof {
            lemma_first_match(self.named_keys.deep_view(), n@, arbitrary::<Key>(), i as int);
        }
        let bytes = key_to_bytes(&self.named_keys[i].1);
        if dest.len() < bytes.len() {
            return Ok((ApiError::BufferTooSmall.status(), 0));
        }
        write_prefix(dest, bytes.as_slice());
        Ok((0, bytes.len()))
    }

    fn has_key(&mut self, name: &[u8]) -> (r: Result<i32, Exit>) {
        if let Some(x) = self.exit {
            return Err(x);
        }
        let n = match decode_all::<String>(name) {
            Ok(n) => n,
            Err(e) => { return Err(self.fault(e)); },
        };
        let i = Self::position(&self.named_keys, &n);
        if i == self.named_keys.len() {
            proof {
                lemma_no_match(self.named_keys.deep_view(), n@, arbitrary::<Key>());
            }
            Ok(1)
        } else {
            proof {
                lemma_first_match(
                    self.named_keys.deep_view(),
                    n@,
                    arbitrary::<Key>(),
                    i as int,
                );
            }
            Ok(0)
        }
    }

    fn put_key(&mut self, name: &[u8], key: &[u8]) -> (r: Result<(), Exit>) {
        if let Some(x) = self.exit {
            return Err(x);
        }
        let n = match decode_all::<String>(name) {
            Ok(n) => n,
            Err(e) => { return Err(self.fault(e)); },
        };
        let k = match decode_all::<Key>(key) {
            Ok(k) => k,
            Err(e) => { return Err(self.fault(e)); },
        };
        let i = Self::position(&self.named_keys, &n);
        let ghost before = self.named_keys.deep_view();
        if i == self.named_keys.len() {
            proof {
                lemma_no_match(before, n@, k);
            }
            self.named_keys.push((n, k));
            assert(self.named_keys.deep_view() =~= before.push((n@, k)));
        } else {
            proof {
                lemma_first_match(before, n@, k, i as int);
            }
            self.named_keys[i] = (n, k);
            assert(self.named_keys.deep_view() =~= before.update(i as int, (n@, k)));
        }
        Ok(())
    }

    fn remove_key(&mut self, name: &[u8]) -> (r: Result<(), Exit>) {
        if let Some(x) = self.exit {
            return Err(x);
        }
        let n = match decode_all::<String>(name) {
            Ok(n) => n,
            Err(e) => { return Err(self.fault(e)); },
        };
        let ghost before = self.named_keys.deep_view();
        let mut kept: Vec<(String, Key)> = Vec::new();
        let mut i: usize = 0;
        assert(before.subrange(0, 0) =~= Seq::<(Seq<char>, Key)>::empty());
        assert(kept.deep_view() =~= Seq::<(Seq<char>, Key)>::empty());
        while i < self.named_keys.len()
            invariant
                i <= self.named_keys@.len(),
                before == self.named_keys.deep_view(),
                kept.deep_view() == without(before.subrange(0, i as int), n@),
            decreases self.named_keys@.len() - i,
        {
            let ghost seen = before.subrange(0, i as int);
            let ghost had = kept.deep_view();
            proof {
                assert(before.subrange(0, i + 1) =~= seen.push(before[i as int]));
                lemma_without_push(seen, before[i as int], n@);
            }
            if !Self::same_text(&self.named_keys[i].0, &n) {
                let entry = (self.named_keys[i].0.clone(), self.named_keys[i].1);
                kept.push(entry);
                assert(kept.deep_view() =~= had.push(before[i as int]));
            }
            i += 1;
        }
        assert(before.subrange(0, i as int) =~= before);
        self.named_keys = kept;
        Ok(())
    }

    fn load_named_keys(&mut self) -> (r: Result<(i32, usize, usize), Exit>) {
        if let Some(x) = self.exit {
            return Err(x);
        }
        if self.named_keys.len() == 0 {
            return Ok((0, 0, 0));
        }
        if self.host_buffer.is_some() {
            return Ok((ApiError::HostBufferFull.status(), 0, 0));
        }
        match self.named_keys.to_bytes() {
            Ok(bytes) => {
                let n = bytes.len();
                self.host_buffer = Some(bytes);
                Ok((0, self.named_keys.len(), n))
            },
            Err(_) => Ok((ApiError::OutOfMemory.status(), 0, 0)),
        }
    }

    fn is_valid_uref(&mut self, uref: &[u8]) -> (r: Result<i32, Exit>) {
        if let Some(x) = self.exit {
            return Err(x);
        }
        let u = match decode_all::<URef>(uref) {
            Ok(u) => u,
            Err(e) => { return Err(self.fault(e)); },
        };
        if self.accepts(&u) {
            Ok(1)
        } else {
            Ok(0)
        }
    }

    fn read_host_buffer(&mut self, dest: &mut Vec<u8>) -> (r: Result<(i32, usize), Exit>) {
        if let Some(x) = self.exit {
            return Err(x);
        }
        self.reads.push(dest.len());
        assert(reads_view(self.reads@) =~= reads_view(old(self).reads@).push(
            old(dest)@.len() as int,
        ));
        let waiting = self.host_buffer.take();
        match waiting {
            None => Ok((ApiError::HostBufferEmpty.status(), 0)),
            Some(bytes) => {
                if dest.len() < bytes.len() {
                    self.host_buffer = Some(bytes);
                    Ok((ApiError::BufferTooSmall.status(), 0))
                } else {
                    write_prefix(dest, bytes.as_slice());
                    Ok((0, bytes.len()))
                }
            },
        }
    }

    fn main_purse(&self) -> (r: Result<PurseId, Exit>) {
        match self.exit {
            Some(x) => Err(x),
            None => Ok(self.main_purse),
        }
    }

    fn create_purse(&mut self) -> (r: Result<PurseId, Exit>) {
        if let Some(x) = self.exit {
            return Err(x);
        }
        let low: u8 = (self.created.len() % 256) as u8;
        let purse = PurseId { uref: URef { addr: [low; 32], rights: AccessRights::all() } };
        self.created.push(purse);
        Ok(purse)
    }

    fn transfer_from_purse_to_purse(&mut self, source: PurseId, target: PurseId, amount: U512) -> (r:
        Result<PurseTransferResult, Exit>) {
        if let Some(x) = self.exit {
            return Err(x);
        }
        if self.is_insolvent(&source) {
            Ok(PurseTransferResult::TransferError)
        } else {
            self.transfers.push(Transfer { source, target: Target::Purse(target), amount });
            Ok(PurseTransferResult::TransferSuccessful)
        }
    }

    fn transfer_from_purse_to_account(
        &mut self,
        source: PurseId,
        target: PublicKey,
        amount: U512,
    ) -> (r: Result<TransferResult, Exit>) {
        if let Some(x) = self.exit {
            return Err(x);
        }
        if self.is_insolvent(&source) {
            return Ok(TransferResult::TransferError);
        }
        let existed = self.has_account(&target);
        self.transfers.push(Transfer { source, target: Target::Account(target), amount });
        self.accounts.push(target);
        assert(self.purse_model().accounts =~= old(self).purse_model().accounts.insert(target)) by {
            assert forall|k: PublicKey|
                self.accounts@.contains(k) <==> (k == target || old(self).accounts@.contains(
                    k,
                )) by {
                if self.accounts@.contains(k) {
                    let i = choose|i: int| 0 <= i < self.accounts@.len() && self.accounts@[i] == k;
                    if i < old(self).accounts@.len() {
                        assert(old(self).accounts@[i] == k);
                    }
                }
                if old(self).accounts@.contains(k) {
                    let i = choose|i: int|
                        0 <= i < old(self).accounts@.len() && old(self).accounts@[i] == k;
                    assert(self.accounts@[i] == k);
                }
                if k == target {
                    assert(self.accounts@[self.accounts@.len() - 1] == k);
                }
            }
        }
        if existed {
            Ok(TransferResult::TransferredToExistingAccount)
        } else {
            Ok(TransferResult::TransferredToNewAccount)
        }
    }
}

impl SimHost {
    /// Whether the purse is listed as insolvent.
    fn is_insolvent(&self, purse: &PurseId) -> (yes: bool)
        ensures
            yes == self.insolvent@.contains(*purse),
    {
        let mut i: usize = 0;
        while i < self.insolvent.len()
            invariant
                i <= self.insolvent@.len(),
                forall|j: int| 0 <= j < i ==> self.insolvent@[j] != *purse,
            decreases self.insolvent@.len() - i,
        {
            if self.insolvent[i].uref.same(&purse.uref) {
                return true;
            }
            i += 1;
        }
        false
    }

    /// Whether the account exists.
    fn has_account(&self, who: &PublicKey) -> (yes: bool)
        ensures
            yes == self.accounts@.contains(*who),
    {
        let mut i: usize = 0;
        while i < self.accounts.len()
            invariant
                i <= self.accounts@.len(),
                forall|j: int| 0 <= j < i ==> self.accounts@[j] != *who,
            decreases self.accounts@.len() - i,
        {
            if block_eq(&self.accounts[i].bytes, &who.bytes) {
                return true;
            }
            i += 1;
        }
        false
    }
}

} // verus!
