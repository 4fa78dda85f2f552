use contract_ffi::bonding::{bond, get_pos, get_pos_contract, purse_to_key, unbond, BondingError};
use contract_ffi::bytesrepr::ToBytes;
use contract_ffi::cl_value::{CLType, CLValue};
use contract_ffi::error::Reason;
use contract_ffi::host::Exit;
use contract_ffi::key::{ContractRef, Key};
use contract_ffi::runtime::put_key;
use contract_ffi::sim::{Outcome, SimHost};
use contract_ffi::uref::{AccessRights, URef};
use contract_ffi::value::{BlockTime, Phase, PublicKey, PurseId, U512};

fn fresh_host() -> SimHost {
    SimHost::new(PublicKey { bytes: [9u8; 32] }, BlockTime { millis: 42 }, Phase::Session)
}

fn pos_uref() -> URef {
    URef::new([8u8; 32], AccessRights::all())
}

fn purse() -> PurseId {
    PurseId::new(URef::new([3u8; 32], AccessRights::all()))
}

#[test]
fn purse_key_is_its_uref() {
    assert_eq!(purse_to_key(purse()), Key::URef(purse().value()));
}

#[test]
fn bonding_error_codes() {
    assert_eq!(BondingError::MissingArgument.code(), 100);
    assert_eq!(BondingError::InvalidArgument.code(), 101);
    assert_eq!(BondingError::GetPosURef.code(), 1000);
    assert_eq!(BondingError::PurseToPurseTransfer.code(), 1001);
    assert_eq!(BondingError::UnableToSeedAccount.code(), 1002);
    assert_eq!(BondingError::UnknownCommand.code(), 1003);
}

#[test]
fn pos_contract_is_found_under_its_name() {
    let mut host = fresh_host();
    assert_eq!(get_pos(&mut host), Ok(None));
    put_key(&mut host, "pos", Key::URef(pos_uref())).unwrap();
    assert_eq!(get_pos(&mut host), Ok(Some(ContractRef::URef(pos_uref()))));
    assert_eq!(get_pos_contract(&mut host), Ok(ContractRef::URef(pos_uref())));
    put_key(&mut host, "pos", Key::Hash([1u8; 32])).unwrap();
    assert_eq!(get_pos_contract(&mut host), Ok(ContractRef::Hash([1u8; 32])));
}

#[test]
fn missing_pos_contract_reverts() {
    let mut host = fresh_host();
    assert_eq!(get_pos_contract(&mut host), Err(Exit::Reverted(1000)));
    assert_eq!(host.exit, Some(Exit::Reverted(1000)));
    let mut host = fresh_host();
    put_key(&mut host, "pos", Key::Account([1u8; 32])).unwrap();
    assert_eq!(get_pos_contract(&mut host), Err(Exit::Reverted(1000)));
}

#[test]
fn bond_calls_pos_with_method_amount_and_purse() {
    let mut host = fresh_host();
    host.install(Key::URef(pos_uref()), Outcome::Returns(vec![]));
    let amount = U512::from_u64(500);
    let pos = ContractRef::URef(pos_uref());
    assert_eq!(bond(&mut host, &pos, &amount, purse()), Ok(()));
    assert_eq!(host.calls.len(), 1);
    assert_eq!(host.calls[0].0, Key::URef(pos_uref()));
    let expected_args = vec![
        CLValue { cl_type: CLType::String, bytes: "bond".to_bytes().unwrap() },
        CLValue { cl_type: CLType::U512, bytes: amount.to_bytes().unwrap() },
        CLValue { cl_type: CLType::URef, bytes: purse().to_bytes().unwrap() },
    ];
    assert_eq!(host.calls[0].1, expected_args.to_bytes().unwrap());
    assert_eq!(host.calls[0].2, vec![purse_to_key(purse())].to_bytes().unwrap());
}

#[test]
fn unbond_calls_pos_with_optional_amount() {
    let mut host = fresh_host();
    host.install(Key::URef(pos_uref()), Outcome::Returns(vec![]));
    let pos = ContractRef::URef(pos_uref());
    assert_eq!(unbond(&mut host, &pos, None), Ok(()));
    assert_eq!(unbond(&mut host, &pos, Some(U512::from_u64(3))), Ok(()));
    let none_args = vec![
        CLValue { cl_type: CLType::String, bytes: "unbond".to_bytes().unwrap() },
        CLValue { cl_type: CLType::Option, bytes: vec![0] },
    ];
    assert_eq!(host.calls[0].1, none_args.to_bytes().unwrap());
    assert_eq!(host.calls[0].2, vec![0, 0, 0, 0]);
    assert_eq!(host.calls[1].1[host.calls[1].1.len() - 66], 1);
    assert_eq!(host.calls.len(), 2);
}

#[test]
fn bond_fails_with_the_callee() {
    let mut host = fresh_host();
    host.install(Key::URef(pos_uref()), Outcome::Reverts(9));
    let pos = ContractRef::URef(pos_uref());
    assert_eq!(bond(&mut host, &pos, &U512::from_u64(1), purse()), Err(Exit::Reverted(9)));
    assert_eq!(unbond(&mut host, &pos, None), Err(Exit::Reverted(9)));
    assert_eq!(host.calls.len(), 1);
}
