//! A program that bonds and unbonds stake with the proof-of-stake program, as
//! an example of a consumer of the runtime operations.

use crate::args::ArgsParser;
use crate::bytesrepr::FromBytes;
use crate::error::Reason;
use crate::host::{Exit, Host, HostState};
use crate::key::{ContractRef, Key};
use crate::purse::{
    account_transfer_host_step, create_purse_host_step, purse_transfer_host_step,
    PurseTransferResult, TransferResult,
};
use crate::runtime::{
    aborted, call_contract, call_contract_spec, get_arg, get_arg_spec, get_key, get_key_spec,
    revert,
};
use crate::text::{text_eq, text_representable};
use crate::value::{PublicKey, PurseId, U512};
use vstd::prelude::*;
use vstd::utf8::is_ascii_chars_encode_utf8;

verus! {

/// The reasons with which this program reverts.
#[derive(Clone, Copy, Debug, PartialEq, Eq, Structural)]
pub enum BondingError {
    MissingArgument,
    InvalidArgument,
    GetPosURef,
    PurseToPurseTransfer,
    UnableToSeedAccount,
    UnknownCommand,
}

/// The reason code of each error of this program.
pub open spec fn bonding_code(e: BondingError) -> u32 {
    match e {
        BondingError::MissingArgument => 100,
        BondingError::InvalidArgument => 101,
        BondingError::GetPosURef => 1000,
        BondingError::PurseToPurseTransfer => 1001,
        BondingError::UnableToSeedAccount => 1002,
        BondingError::UnknownCommand => 1003,
    }
}

impl Reason for BondingError {
    open spec fn reason(&self) -> u32 {
        bonding_code(*self)
    }

    fn code(&self) -> (c: u32) {
        match self {
            BondingError::MissingArgument => 100,
            BondingError::InvalidArgument => 101,
            BondingError::GetPosURef => 1000,
            BondingError::PurseToPurseTransfer => 1001,
            BondingError::UnableToSeedAccount => 1002,
            BondingError::UnknownCommand => 1003,
        }
    }
}

/// The key that addresses a purse.
pub fn purse_to_key(p: PurseId) -> (k: Key)
    ensures
        k == Key::URef(p.uref),
{
    Key::URef(p.value())
}

/// The name under which the proof-of-stake program is known.
pub open spec fn pos_name() -> Seq<char> {
    "pos"@
}

/// The program that a key found under the name refers to, if it refers to
/// one.
pub open spec fn pos_contract_of(found: Option<Key>) -> Option<ContractRef> {
    match found {
        Some(Key::URef(uref)) => Some(ContractRef::URef(uref)),
        Some(Key::Hash(hash)) => Some(ContractRef::Hash(hash)),
        _ => None,
    }
}

/// What finding the proof-of-stake program means.
pub open spec fn get_pos_spec(s: HostState) -> (HostState, Result<Option<ContractRef>, Exit>) {
    match get_key_spec(s, pos_name()) {
        (after, Err(x)) => (after, Err(x)),
        (after, Ok(found)) => (after, Ok(pos_contract_of(found))),
    }
}

/// The proof-of-stake program, where the current context knows it under its
/// name and the key there refers to a program.
pub fn get_pos<H: Host>(host: &mut H) -> (r: Result<Option<ContractRef>, Exit>)
    ensures
        final(host).state() == get_pos_spec(old(host).state()).0,
        r == get_pos_spec(old(host).state()).1,
{
    match get_key(host, "pos") {
        Err(x) => Err(x),
        Ok(Some(Key::URef(uref))) => Ok(Some(ContractRef::URef(uref))),
        Ok(Some(Key::Hash(hash))) => Ok(Some(ContractRef::Hash(hash))),
        Ok(_) => Ok(None),
    }
}

/// What fetching the proof-of-stake program means: the program, or the end
/// of the execution where it is not to be found.
pub open spec fn get_pos_contract_spec(s: HostState) -> (HostState, Result<ContractRef, Exit>) {
    match get_pos_spec(s) {
        (after, Err(x)) => (after, Err(x)),
        (after, Ok(Some(pos))) => (after, Ok(pos)),
        (after, Ok(None)) => aborted(after, bonding_code(BondingError::GetPosURef)),
    }
}

/// The proof-of-stake program. Reverts where it is not to be found.
pub fn get_pos_contract<H: Host>(host: &mut H) -> (r: Result<ContractRef, Exit>)
    ensures
        final(host).state() == get_pos_contract_spec(old(host).state()).0,
        r == get_pos_contract_spec(old(host).state()).1,
{
    match get_pos(host) {
        Err(x) => Err(x),
        Ok(Some(pos)) => Ok(pos),
        Ok(None) => Err(revert(host, BondingError::GetPosURef)),
    }
}

/// The arguments of a call that bonds `amount` from the purse `source`.
pub open spec fn bond_args(amount: U512, source: PurseId) -> (&'static str, U512, PurseId) {
    ("bond", amount, source)
}

/// The arguments of a call that unbonds `amount`, or everything.
pub open spec fn unbond_args(amount: Option<U512>) -> (&'static str, Option<U512>) {
    ("unbond", amount)
}

/// What bonding means: one call of the proof-of-stake program with the
/// method name, the amount and the purse, the purse being passed along as a
/// reference; the program returns nothing.
pub open spec fn bond_spec(s: HostState, pos: ContractRef, amount: U512, source: PurseId) -> (
    HostState,
    Result<(), Exit>,
) {
    call_contract_spec::<()>(
        s,
        pos,
        bond_args(amount, source).parsed(),
        bond_args(amount, source).parsable(),
        seq![Key::URef(source.uref)],
    )
}

/// Bonds `amount` from the purse `source` with the proof-of-stake program.
pub fn bond<H: Host>(host: &mut H, pos: &ContractRef, amount: &U512, source: PurseId) -> (r: Result<
    (),
    Exit,
>)
    ensures
        final(host).state() == bond_spec(old(host).state(), *pos, *amount, source).0,
        r == bond_spec(old(host).state(), *pos, *amount, source).1,
{
    let mut urefs: Vec<Key> = Vec::new();
    urefs.push(purse_to_key(source));
    assert(urefs.deep_view() =~= seq![Key::URef(source.uref)]);
    call_contract::<H, (&str, U512, PurseId), ()>(host, *pos, ("bond", *amount, source), urefs)
}

/// What unbonding means: one call of the proof-of-stake program with the
/// method name and the optional amount, and no reference passed along.
pub open spec fn unbond_spec(s: HostState, pos: ContractRef, amount: Option<U512>) -> (
    HostState,
    Result<(), Exit>,
) {
    call_contract_spec::<()>(
        s,
        pos,
        unbond_args(amount).parsed(),
        unbond_args(amount).parsable(),
        Seq::empty(),
    )
}

/// Unbonds `amount`, or everything where no amount is given.
pub fn unbond<H: Host>(host: &mut H, pos: &ContractRef, amount: Option<U512>) -> (r: Result<
    (),
    Exit,
>)
    ensures
        final(host).state() == unbond_spec(old(host).state(), *pos, amount).0,
        r == unbond_spec(old(host).state(), *pos, amount).1,
{
    let urefs: Vec<Key> = Vec::new();
    assert(urefs.deep_view() =~= Seq::<Key>::empty());
    assert(amount.deep_view() == amount);
    call_contract::<H, (&str, Option<U512>), ()>(host, *pos, ("unbond", amount), urefs)
}

/// The names and the method names that this program uses are short ASCII
/// texts, so each of them can be encoded: the arguments of a bond and of an
/// unbond are always parsable.
pub proof fn lemma_names_representable(amount: U512, source: PurseId, maybe: Option<U512>)
    ensures
        text_representable(pos_name()),
        bond_args(amount, source).parsable(),
        unbond_args(maybe).parsable(),
{
    reveal_strlit("pos");
    reveal_strlit("bond");
    reveal_strlit("unbond");
    is_ascii_chars_encode_utf8("pos"@);
    is_ascii_chars_encode_utf8("bond"@);
    is_ascii_chars_encode_utf8("unbond"@);
}

/// What a program started with a command is asked to do.
#[derive(Clone, Copy, Debug, PartialEq, Eq, Structural)]
pub enum Command {
    /// Bond from a purse created for the purpose.
    Bond,
    /// Bond straight from the main purse.
    BondFromMainPurse,
    /// Fund an account.
    SeedNewAccount,
    /// Unbond.
    Unbond,
    /// None of these.
    Unknown,
}

/// The command that a text names.
pub open spec fn command_of(text: Seq<char>) -> Command {
    if text == "bond"@ {
        Command::Bond
    } else if text == "bond-from-main-purse"@ {
        Command::BondFromMainPurse
    } else if text == "seed_new_account"@ {
        Command::SeedNewAccount
    } else if text == "unbond"@ {
        Command::Unbond
    } else {
        Command::Unknown
    }
}

/// Reads a command. The names are matched exactly and with case.
pub fn parse_command(command: &str) -> (c: Command)
    ensures
        c == command_of(command@),
{
    if text_eq(command, "bond") {
        Command::Bond
    } else if text_eq(command, "bond-from-main-purse") {
        Command::BondFromMainPurse
    } else if text_eq(command, "seed_new_account") {
        Command::SeedNewAccount
    } else if text_eq(command, "unbond") {
        Command::Unbond
    } else {
        Command::Unknown
    }
}

/// What fetching an argument that the program cannot do without means: the
/// argument, or the end of the execution, with one reason where it is
/// missing and another where it is no `T`.
pub open spec fn required_arg_spec<T: FromBytes>(s: HostState, i: int) -> (
    HostState,
    Result<T::V, Exit>,
) {
    match get_arg_spec::<T>(s, i) {
        Err(x) => (s, Err(x)),
        Ok(Some(Ok(v))) => (s, Ok(v)),
        Ok(Some(Err(_))) => aborted(s, bonding_code(BondingError::InvalidArgument)),
        Ok(None) => aborted(s, bonding_code(BondingError::MissingArgument)),
    }
}

/// The argument at index `i` as a `T`. Reverts where it is missing or is no
/// `T`.
pub fn required_arg<H: Host, T: FromBytes>(host: &mut H, i: u32) -> (r: Result<T, Exit>)
    ensures
        final(host).state() == required_arg_spec::<T>(old(host).state(), i as int).0,
        match required_arg_spec::<T>(old(host).state(), i as int).1 {
            Ok(v) => r matches Ok(t) && t.deep_view() == v,
            Err(x) => r matches Err(y) && y == x,
        },
{
    match get_arg::<H, T>(host, i) {
        Err(x) => Err(x),
        Ok(Some(Ok(data))) => Ok(data),
        Ok(Some(Err(_))) => Err(revert(host, BondingError::InvalidArgument)),
        Ok(None) => Err(revert(host, BondingError::MissingArgument)),
    }
}

/// Bonding from a new purse: the amount is the second argument; a purse is
/// created and the amount moved into it from the main purse; where the host
/// refuses the transfer the execution ends; otherwise the amount is bonded
/// from the new purse.
pub open spec fn bond_command_spec(s: HostState, pos: ContractRef) -> (HostState, Result<(), Exit>) {
    match required_arg_spec::<U512>(s, 1) {
        (s1, Err(x)) => (s1, Err(x)),
        (s1, Ok(amount)) => {
            let (s2, created) = create_purse_host_step(s1);
            let purse = created->Ok_0;
            let (s3, moved) = purse_transfer_host_step(s2, s2.purses.main, purse, amount);
            if moved->Ok_0 == PurseTransferResult::TransferError {
                aborted(s3, bonding_code(BondingError::PurseToPurseTransfer))
            } else {
                bond_spec(s3, pos, amount, purse)
            }
        },
    }
}

/// Bonding from the main purse: the amount is the second argument.
pub open spec fn bond_main_spec(s: HostState, pos: ContractRef) -> (HostState, Result<(), Exit>) {
    match required_arg_spec::<U512>(s, 1) {
        (s1, Err(x)) => (s1, Err(x)),
        (s1, Ok(amount)) => bond_spec(s1, pos, amount, s1.purses.main),
    }
}

/// Funding an account: the account is the second argument and the amount the
/// third; the amount is moved from the main purse; where the host refuses
/// the transfer the execution ends.
pub open spec fn seed_spec(s: HostState) -> (HostState, Result<(), Exit>) {
    match required_arg_spec::<PublicKey>(s, 1) {
        (s1, Err(x)) => (s1, Err(x)),
        (s1, Ok(account)) => match required_arg_spec::<U512>(s1, 2) {
            (s2, Err(x)) => (s2, Err(x)),
            (s2, Ok(amount)) => {
                let (s3, moved) = account_transfer_host_step(s2, s2.purses.main, account, amount);
                if moved->Ok_0 == TransferResult::TransferError {
                    aborted(s3, bonding_code(BondingError::UnableToSeedAccount))
                } else {
                    (s3, Ok(()))
                }
            },
        },
    }
}

/// Unbonding: the optional amount is the second argument.
pub open spec fn unbond_command_spec(s: HostState, pos: ContractRef) -> (
    HostState,
    Result<(), Exit>,
) {
    match required_arg_spec::<Option<U512>>(s, 1) {
        (s1, Err(x)) => (s1, Err(x)),
        (s1, Ok(maybe_amount)) => unbond_spec(s1, pos, maybe_amount),
    }
}

/// What a run of the program means: it fetches the proof-of-stake program,
/// reads the command from the first argument and does what the command says;
/// a command it does not know ends the execution.
pub open spec fn call_spec(s: HostState) -> (HostState, Result<(), Exit>) {
    match get_pos_contract_spec(s) {
        (s1, Err(x)) => (s1, Err(x)),
        (s1, Ok(pos)) => match required_arg_spec::<String>(s1, 0) {
            (s2, Err(x)) => (s2, Err(x)),
            (s2, Ok(command)) => match command_of(command) {
                Command::Bond => bond_command_spec(s2, pos),
                Command::BondFromMainPurse => bond_main_spec(s2, pos),
                Command::SeedNewAccount => seed_spec(s2),
                Command::Unbond => unbond_command_spec(s2, pos),
                Command::Unknown => aborted(s2, bonding_code(BondingError::UnknownCommand)),
            },
        },
    }
}

/// The entry point of the program.
pub fn call<H: Host>(host: &mut H) -> (r: Result<(), Exit>)
    ensures
        final(host).state() == call_spec(old(host).state()).0,
        r == call_spec(old(host).state()).1,
{
    let pos_pointer = match get_pos_contract(host) {
        Ok(pos) => pos,
        Err(x) => { return Err(x); },
    };
    let command: String = match required_arg::<H, String>(host, 0) {
        Ok(data) => data,
        Err(x) => { return Err(x); },
    };
    match parse_command(command.as_str()) {
        Command::Bond => {
            let amount: U512 = match required_arg::<H, U512>(host, 1) {
                Ok(data) => data,
                Err(x) => { return Err(x); },
            };
            let p1 = match host.create_purse() {
                Ok(purse) => purse,
                Err(x) => { return Err(x); },
            };
            let main = match host.main_purse() {
                Ok(purse) => purse,
                Err(x) => { return Err(x); },
            };
            match host.transfer_from_purse_to_purse(main, p1, amount) {
                Err(x) => { return Err(x); },
                Ok(PurseTransferResult::TransferError) => {
                    return Err(revert(host, BondingError::PurseToPurseTransfer));
                },
                Ok(PurseTransferResult::TransferSuccessful) => {},
            }
            bond(host, &pos_pointer, &amount, p1)
        },
        Command::BondFromMainPurse => {
            let amount: U512 = match required_arg::<H, U512>(host, 1) {
                Ok(data) => data,
                Err(x) => { return Err(x); },
            };
            let main = match host.main_purse() {
                Ok(purse) => purse,
                Err(x) => { return Err(x); },
            };
            bond(host, &pos_pointer, &amount, main)
        },
        Command::SeedNewAccount => {
            let account: PublicKey = match required_arg::<H, PublicKey>(host, 1) {
                Ok(data) => data,
                Err(x) => { return Err(x); },
            };
            let amount: U512 = match required_arg::<H, U512>(host, 2) {
                Ok(data) => data,
                Err(x) => { return Err(x); },
            };
            let main = match host.main_purse() {
                Ok(purse) => purse,
                Err(x) => { return Err(x); },
            };
            match host.transfer_from_purse_to_account(main, account, amount) {
                Err(x) => Err(x),
                Ok(TransferResult::TransferError) => Err(
                    revert(host, BondingError::UnableToSeedAccount),
                ),
                Ok(_) => Ok(()),
            }
        },
        Command::Unbond => {
            let maybe_amount: Option<U512> = match required_arg::<H, Option<U512>>(host, 1) {
                Ok(data) => data,
                Err(x) => { return Err(x); },
            };
            assert(maybe_amount.deep_view() == maybe_amount);
            unbond(host, &pos_pointer, maybe_amount)
        },
        Command::Unknown => Err(revert(host, BondingError::UnknownCommand)),
    }
}

} // verus!
