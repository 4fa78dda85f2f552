use contract_ffi::bonding::{call, parse_command, required_arg, Command};
use contract_ffi::bytesrepr::ToBytes;
use contract_ffi::cl_value::{CLType, CLValue};
use contract_ffi::host::{Exit, Host};
use contract_ffi::key::Key;
use contract_ffi::purse::{PurseTransferResult, Target, Transfer, TransferResult};
use contract_ffi::runtime::put_key;
use contract_ffi::sim::{Outcome, SimHost};
use contract_ffi::uref::{AccessRights, URef};
use contract_ffi::value::{BlockTime, Phase, PublicKey, PurseId, U512};

fn pos_uref() -> URef {
    URef::new([8u8; 32], AccessRights::all())
}

fn host_with_pos() -> SimHost {
    let mut host =
        SimHost::new(PublicKey { bytes: [9u8; 32] }, BlockTime { millis: 42 }, Phase::Session);
    put_key(&mut host, "pos", Key::URef(pos_uref())).unwrap();
    host.install(Key::URef(pos_uref()), Outcome::Returns(vec![]));
    host
}

fn main_purse() -> PurseId {
    PurseId::new(URef::new([9u8; 32], AccessRights::all()))
}

fn first_created() -> PurseId {
    PurseId::new(URef::new([0u8; 32], AccessRights::all()))
}

#[test]
fn commands_are_matched_exactly() {
    assert_eq!(parse_command("bond"), Command::Bond);
    assert_eq!(parse_command("bond-from-main-purse"), Command::BondFromMainPurse);
    assert_eq!(parse_command("seed_new_account"), Command::SeedNewAccount);
    assert_eq!(parse_command("unbond"), Command::Unbond);
    assert_eq!(parse_command("Bond"), Command::Unknown);
    assert_eq!(parse_command("bond "), Command::Unknown);
    assert_eq!(parse_command(""), Command::Unknown);
}

#[test]
fn main_purse_of_a_new_host_is_the_callers() {
    let host = host_with_pos();
    assert_eq!(host.main_purse(), Ok(main_purse()));
}

#[test]
fn call_without_pos_reverts() {
    let mut host =
        SimHost::new(PublicKey { bytes: [9u8; 32] }, BlockTime { millis: 42 }, Phase::Session);
    host.push_arg("bond".to_bytes().unwrap());
    assert_eq!(call(&mut host), Err(Exit::Reverted(1000)));
}

#[test]
fn call_without_command_reverts_as_missing_argument() {
    let mut host = host_with_pos();
    assert_eq!(call(&mut host), Err(Exit::Reverted(100)));
    assert_eq!(host.exit, Some(Exit::Reverted(100)));
}

#[test]
fn call_with_undecodable_command_reverts_as_invalid_argument() {
    let mut host = host_with_pos();
    host.push_arg(vec![1, 2, 3]);
    assert_eq!(call(&mut host), Err(Exit::Reverted(101)));
}

#[test]
fn call_with_unknown_command_reverts() {
    let mut host = host_with_pos();
    host.push_arg("stake".to_bytes().unwrap());
    assert_eq!(call(&mut host), Err(Exit::Reverted(1003)));
    assert!(host.calls.is_empty());
}

#[test]
fn call_bond_creates_purse_transfers_and_bonds() {
    let mut host = host_with_pos();
    let amount = U512::from_u64(700);
    host.push_arg("bond".to_bytes().unwrap());
    host.push_arg(amount.to_bytes().unwrap());
    assert_eq!(call(&mut host), Ok(()));
    assert_eq!(host.created, vec![first_created()]);
    assert_eq!(
        host.transfers,
        vec![Transfer { source: main_purse(), target: Target::Purse(first_created()), amount }]
    );
    assert_eq!(host.calls.len(), 1);
    let expected_args = vec![
        CLValue { cl_type: CLType::String, bytes: "bond".to_bytes().unwrap() },
        CLValue { cl_type: CLType::U512, bytes: amount.to_bytes().unwrap() },
        CLValue { cl_type: CLType::URef, bytes: first_created().to_bytes().unwrap() },
    ];
    assert_eq!(host.calls[0].1, expected_args.to_bytes().unwrap());
    assert_eq!(host.calls[0].2, vec![Key::URef(first_created().value())].to_bytes().unwrap());
    assert_eq!(host.exit, None);
}

#[test]
fn call_bond_without_amount_reverts() {
    let mut host = host_with_pos();
    host.push_arg("bond".to_bytes().unwrap());
    assert_eq!(call(&mut host), Err(Exit::Reverted(100)));
    assert!(host.created.is_empty());
}

#[test]
fn call_bond_with_failed_transfer_reverts() {
    let mut host = host_with_pos();
    host.insolvent.push(main_purse());
    host.push_arg("bond".to_bytes().unwrap());
    host.push_arg(U512::from_u64(700).to_bytes().unwrap());
    assert_eq!(call(&mut host), Err(Exit::Reverted(1001)));
    assert_eq!(host.created.len(), 1);
    assert!(host.transfers.is_empty());
    assert!(host.calls.is_empty());
}

#[test]
fn call_bond_from_main_purse() {
    let mut host = host_with_pos();
    let amount = U512::from_u64(5);
    host.push_arg("bond-from-main-purse".to_bytes().unwrap());
    host.push_arg(amount.to_bytes().unwrap());
    assert_eq!(call(&mut host), Ok(()));
    assert!(host.created.is_empty());
    assert!(host.transfers.is_empty());
    assert_eq!(host.calls[0].2, vec![Key::URef(main_purse().value())].to_bytes().unwrap());
}

#[test]
fn call_seed_new_account() {
    let mut host = host_with_pos();
    let account = PublicKey { bytes: [4u8; 32] };
    let amount = U512::from_u64(5);
    host.push_arg("seed_new_account".to_bytes().unwrap());
    host.push_arg(account.to_bytes().unwrap());
    host.push_arg(amount.to_bytes().unwrap());
    assert_eq!(call(&mut host), Ok(()));
    assert_eq!(
        host.transfers,
        vec![Transfer { source: main_purse(), target: Target::Account(account), amount }]
    );
    assert_eq!(host.accounts, vec![account]);
    assert!(host.calls.is_empty());
}

#[test]
fn call_seed_new_account_with_failed_transfer_reverts() {
    let mut host = host_with_pos();
    host.insolvent.push(main_purse());
    host.push_arg("seed_new_account".to_bytes().unwrap());
    host.push_arg(PublicKey { bytes: [4u8; 32] }.to_bytes().unwrap());
    host.push_arg(U512::from_u64(5).to_bytes().unwrap());
    assert_eq!(call(&mut host), Err(Exit::Reverted(1002)));
    assert!(host.accounts.is_empty());
}

#[test]
fn call_seed_with_amount_of_wrong_type_reverts_as_invalid() {
    let mut host = host_with_pos();
    host.push_arg("seed_new_account".to_bytes().unwrap());
    host.push_arg(PublicKey { bytes: [4u8; 32] }.to_bytes().unwrap());
    host.push_arg(vec![1, 2, 3]);
    assert_eq!(call(&mut host), Err(Exit::Reverted(101)));
}

#[test]
fn call_unbond_with_and_without_amount() {
    let mut host = host_with_pos();
    host.push_arg("unbond".to_bytes().unwrap());
    host.push_arg(None::<U512>.to_bytes().unwrap());
    assert_eq!(call(&mut host), Ok(()));
    let expected_args = vec![
        CLValue { cl_type: CLType::String, bytes: "unbond".to_bytes().unwrap() },
        CLValue { cl_type: CLType::Option, bytes: vec![0] },
    ];
    assert_eq!(host.calls[0].1, expected_args.to_bytes().unwrap());
    let mut host = host_with_pos();
    host.push_arg("unbond".to_bytes().unwrap());
    host.push_arg(Some(U512::from_u64(3)).to_bytes().unwrap());
    assert_eq!(call(&mut host), Ok(()));
    assert_eq!(host.calls.len(), 1);
}

#[test]
fn call_fails_when_pos_aborts() {
    let mut host =
        SimHost::new(PublicKey { bytes: [9u8; 32] }, BlockTime { millis: 42 }, Phase::Session);
    put_key(&mut host, "pos", Key::URef(pos_uref())).unwrap();
    host.install(Key::URef(pos_uref()), Outcome::Reverts(55));
    host.push_arg("unbond".to_bytes().unwrap());
    host.push_arg(None::<U512>.to_bytes().unwrap());
    assert_eq!(call(&mut host), Err(Exit::Reverted(55)));
}

#[test]
fn required_arg_tells_missing_from_invalid() {
    let mut host = host_with_pos();
    host.push_arg(vec![1]);
    assert_eq!(required_arg::<SimHost, u8>(&mut host, 0), Ok(1));
    assert_eq!(required_arg::<SimHost, u32>(&mut host, 0), Err(Exit::Reverted(101)));
    let mut host = host_with_pos();
    assert_eq!(required_arg::<SimHost, u32>(&mut host, 0), Err(Exit::Reverted(100)));
}

#[test]
fn purse_operations_of_the_host() {
    let mut host = host_with_pos();
    let a = host.create_purse().unwrap();
    let b = host.create_purse().unwrap();
    assert_eq!(a, first_created());
    assert_eq!(b, PurseId::new(URef::new([1u8; 32], AccessRights::all())));
    let amount = U512::from_u64(1);
    assert_eq!(
        host.transfer_from_purse_to_purse(a, b, amount),
        Ok(PurseTransferResult::TransferSuccessful)
    );
    host.insolvent.push(b);
    assert_eq!(
        host.transfer_from_purse_to_purse(b, a, amount),
        Ok(PurseTransferResult::TransferError)
    );
    let who = PublicKey { bytes: [4u8; 32] };
    assert_eq!(
        host.transfer_from_purse_to_account(a, who, amount),
        Ok(TransferResult::TransferredToNewAccount)
    );
    assert_eq!(
        host.transfer_from_purse_to_account(a, who, amount),
        Ok(TransferResult::TransferredToExistingAccount)
    );
    assert_eq!(
        host.transfer_from_purse_to_account(b, who, amount),
        Ok(TransferResult::TransferError)
    );
    host.revert(1);
    assert_eq!(host.create_purse(), Err(Exit::Reverted(1)));
    assert_eq!(host.main_purse(), Err(Exit::Reverted(1)));
    assert_eq!(host.created.len(), 2);
}
