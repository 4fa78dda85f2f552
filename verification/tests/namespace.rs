use contract_ffi::bytesrepr::ToBytes;
use contract_ffi::error::ApiError;
use contract_ffi::host::{Exit, Host};
use contract_ffi::key::Key;
use contract_ffi::runtime::{
    get_key, has_key, is_valid_uref, list_named_keys, put_key, remove_key, revert,
    upgrade_contract_at_uref,
};
use contract_ffi::sim::SimHost;
use contract_ffi::uref::{AccessRights, URef};
use contract_ffi::value::{BlockTime, Phase, PublicKey};

fn fresh_host() -> SimHost {
    SimHost::new(PublicKey { bytes: [9u8; 32] }, BlockTime { millis: 42 }, Phase::Session)
}

fn k1() -> Key {
    Key::Hash([1u8; 32])
}

fn k2() -> Key {
    Key::URef(URef::new([2u8; 32], AccessRights::all()))
}

#[test]
fn scenario_has_put_has_get() {
    let mut host = fresh_host();
    assert_eq!(has_key(&mut host, "x"), Ok(false));
    assert_eq!(put_key(&mut host, "x", k1()), Ok(()));
    assert_eq!(has_key(&mut host, "x"), Ok(true));
    assert_eq!(get_key(&mut host, "x"), Ok(Some(k1())));
    assert_eq!(host.exit, None);
}

#[test]
fn scenario_list_empty_namespace_reads_nothing() {
    let mut host = fresh_host();
    assert_eq!(list_named_keys(&mut host), Ok(vec![]));
    assert!(host.reads.is_empty());
    assert_eq!(host.host_buffer, None);
    assert_eq!(host.exit, None);
}

#[test]
fn get_of_a_name_never_put_is_none() {
    let mut host = fresh_host();
    assert_eq!(get_key(&mut host, "never"), Ok(None));
    assert_eq!(host.exit, None);
    put_key(&mut host, "other", k1()).unwrap();
    assert_eq!(get_key(&mut host, "never"), Ok(None));
    assert_eq!(host.exit, None);
}

#[test]
fn put_overwrites_and_keeps_place() {
    let mut host = fresh_host();
    put_key(&mut host, "a", k1()).unwrap();
    put_key(&mut host, "b", k1()).unwrap();
    put_key(&mut host, "a", k2()).unwrap();
    assert_eq!(get_key(&mut host, "a"), Ok(Some(k2())));
    assert_eq!(get_key(&mut host, "b"), Ok(Some(k1())));
    assert_eq!(
        list_named_keys(&mut host),
        Ok(vec![(String::from("a"), k2()), (String::from("b"), k1())])
    );
}

#[test]
fn remove_then_get_is_none() {
    let mut host = fresh_host();
    put_key(&mut host, "a", k1()).unwrap();
    put_key(&mut host, "b", k2()).unwrap();
    assert_eq!(remove_key(&mut host, "a"), Ok(()));
    assert_eq!(get_key(&mut host, "a"), Ok(None));
    assert_eq!(has_key(&mut host, "a"), Ok(false));
    assert_eq!(get_key(&mut host, "b"), Ok(Some(k2())));
}

#[test]
fn remove_of_absent_name_is_no_error() {
    let mut host = fresh_host();
    put_key(&mut host, "a", k1()).unwrap();
    assert_eq!(remove_key(&mut host, "zzz"), Ok(()));
    assert_eq!(host.exit, None);
    assert_eq!(list_named_keys(&mut host), Ok(vec![(String::from("a"), k1())]));
}

#[test]
fn names_are_case_sensitive() {
    let mut host = fresh_host();
    put_key(&mut host, "Name", k1()).unwrap();
    assert_eq!(get_key(&mut host, "name"), Ok(None));
    assert_eq!(get_key(&mut host, "Name"), Ok(Some(k1())));
}

#[test]
fn list_goes_through_the_host_buffer_once() {
    let mut host = fresh_host();
    put_key(&mut host, "first", k1()).unwrap();
    put_key(&mut host, "second", k2()).unwrap();
    let expected = vec![(String::from("first"), k1()), (String::from("second"), k2())];
    let size = expected.to_bytes().unwrap().len();
    assert_eq!(list_named_keys(&mut host), Ok(expected));
    assert_eq!(host.reads, vec![size]);
    assert_eq!(host.host_buffer, None);
}

#[test]
fn list_with_a_waiting_result_reverts() {
    let mut host = fresh_host();
    put_key(&mut host, "a", k1()).unwrap();
    host.host_buffer = Some(vec![1, 2, 3]);
    assert_eq!(list_named_keys(&mut host), Err(Exit::Reverted(15)));
    assert_eq!(host.exit, Some(Exit::Reverted(15)));
}

#[test]
fn non_ascii_names_work() {
    let mut host = fresh_host();
    put_key(&mut host, "ключ", k1()).unwrap();
    assert_eq!(get_key(&mut host, "ключ"), Ok(Some(k1())));
    assert_eq!(list_named_keys(&mut host), Ok(vec![(String::from("ключ"), k1())]));
}

#[test]
fn valid_uref_is_what_the_host_accepts() {
    let mut host = fresh_host();
    let u = URef::new([5u8; 32], AccessRights::all());
    let other = URef::new([5u8; 32], AccessRights::none());
    assert_eq!(is_valid_uref(&mut host, u), Ok(false));
    host.trust(u);
    assert_eq!(is_valid_uref(&mut host, u), Ok(true));
    assert_eq!(is_valid_uref(&mut host, other), Ok(false));
}

#[test]
fn upgrade_needs_a_genuine_writable_reference() {
    let mut host = fresh_host();
    let writable = URef::new([5u8; 32], AccessRights::all());
    let read_only = URef::new([6u8; 32], AccessRights { read: true, write: false, add: false });
    host.trust(writable);
    host.trust(read_only);
    assert_eq!(upgrade_contract_at_uref(&mut host, "f", writable), Ok(()));
    assert_eq!(host.upgrades, vec![(String::from("f"), Key::URef(writable))]);
    assert_eq!(upgrade_contract_at_uref(&mut host, "f", read_only), Err(Exit::Reverted(6)));
    assert_eq!(host.exit, Some(Exit::Reverted(6)));
}

#[test]
fn upgrade_of_unknown_reference_reverts() {
    let mut host = fresh_host();
    let u = URef::new([5u8; 32], AccessRights::all());
    assert_eq!(
        upgrade_contract_at_uref(&mut host, "f", u),
        Err(Exit::Reverted(ApiError::UpgradeContractAtURef.status() as u32))
    );
    assert!(host.upgrades.is_empty());
}

#[test]
fn nothing_runs_after_a_revert() {
    let mut host = fresh_host();
    put_key(&mut host, "a", k1()).unwrap();
    assert_eq!(revert(&mut host, 77u32), Exit::Reverted(77));
    assert_eq!(put_key(&mut host, "b", k2()), Err(Exit::Reverted(77)));
    assert_eq!(remove_key(&mut host, "a"), Err(Exit::Reverted(77)));
    assert_eq!(get_key(&mut host, "a"), Err(Exit::Reverted(77)));
    assert_eq!(has_key(&mut host, "a"), Err(Exit::Reverted(77)));
    assert_eq!(list_named_keys(&mut host), Err(Exit::Reverted(77)));
    assert_eq!(revert(&mut host, 78u32), Exit::Reverted(77));
    assert_eq!(host.named_keys, vec![(String::from("a"), k1())]);
    assert!(host.reads.is_empty());
    assert_eq!(host.exit, Some(Exit::Reverted(77)));
}

#[test]
fn revert_with_an_error_kind_uses_its_code() {
    let mut host = fresh_host();
    assert_eq!(revert(&mut host, ApiError::MissingKey), Exit::Reverted(12));
}

#[test]
fn host_faults_on_undecodable_name() {
    let mut host = fresh_host();
    let key_bytes = k1().to_bytes().unwrap();
    assert_eq!(
        host.put_key(&[1, 0, 0, 0, 0xff], &key_bytes),
        Err(Exit::Faulted(ApiError::Formatting))
    );
    assert_eq!(host.exit, Some(Exit::Faulted(ApiError::Formatting)));
    assert!(host.named_keys.is_empty());
}

#[test]
fn host_reports_buffer_too_small_for_key() {
    let mut host = fresh_host();
    put_key(&mut host, "a", k2()).unwrap();
    let name = "a".to_bytes().unwrap();
    let mut small = vec![0u8; 10];
    assert_eq!(host.get_key(&name, &mut small), Ok((13, 0)));
    let mut exact = vec![0u8; 34];
    assert_eq!(host.get_key(&name, &mut exact), Ok((0, 34)));
    assert_eq!(exact, k2().to_bytes().unwrap());
    assert_eq!(host.has_key(&name), Ok(0));
    assert_eq!(host.has_key(&"b".to_bytes().unwrap()), Ok(1));
}
