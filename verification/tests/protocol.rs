use contract_ffi::bytesrepr::ToBytes;
use contract_ffi::cl_value::{CLType, CLValue};
use contract_ffi::error::ApiError;
use contract_ffi::host::{Exit, Host};
use contract_ffi::key::{ContractRef, Key};
use contract_ffi::runtime::{
    call_contract, call_reply, filled_buffer, get_arg, get_arg_size, get_blocktime, get_caller,
    get_key, get_phase, key_reply, listing, presence, put_key, read_host_buffer,
    read_host_buffer_into, ret, Listing, Presence,
};
use contract_ffi::sim::{Outcome, SimHost};
use contract_ffi::uref::{AccessRights, URef};
use contract_ffi::value::{BlockTime, Phase, PublicKey};

fn fresh_host() -> SimHost {
    SimHost::new(PublicKey { bytes: [9u8; 32] }, BlockTime { millis: 42 }, Phase::Payment)
}

fn target() -> ContractRef {
    ContractRef::Hash([7u8; 32])
}

fn text_of_36_bytes() -> String {
    String::from("0123456789abcdefghijklmnopqrstuvwxyz")
}

#[test]
fn scenario_size_40_then_fill_40_then_decode() {
    let mut host = fresh_host();
    let value = text_of_36_bytes();
    let encoded = value.to_bytes().unwrap();
    assert_eq!(encoded.len(), 40);
    host.install(Key::Hash([7u8; 32]), Outcome::Returns(encoded.clone()));
    let key_bytes = Key::Hash([7u8; 32]).to_bytes().unwrap();
    let args = Vec::<CLValue>::new().to_bytes().unwrap();
    let urefs = Vec::<Key>::new().to_bytes().unwrap();
    assert_eq!(host.call_contract(&key_bytes, &args, &urefs), Ok((0, 40)));
    let mut buffer = vec![0u8; 40];
    assert_eq!(read_host_buffer_into(&mut host, &mut buffer), Ok(Ok(40)));
    assert_eq!(buffer, encoded);
    assert_eq!(contract_ffi::bytesrepr::deserialize::<String>(buffer), Ok(value));
    assert_eq!(host.reads, vec![40]);
}

#[test]
fn call_contract_returns_decoded_result() {
    let mut host = fresh_host();
    let value = text_of_36_bytes();
    host.install(Key::Hash([7u8; 32]), Outcome::Returns(value.to_bytes().unwrap()));
    let got: Result<String, Exit> = call_contract(&mut host, target(), (5u32,), vec![]);
    assert_eq!(got, Ok(value));
    assert_eq!(host.reads, vec![40]);
    assert_eq!(host.host_buffer, None);
    assert_eq!(host.calls.len(), 1);
    assert_eq!(host.calls[0].0, Key::Hash([7u8; 32]));
    let expected_args = vec![CLValue { cl_type: CLType::U32, bytes: vec![5, 0, 0, 0] }];
    assert_eq!(host.calls[0].1, expected_args.to_bytes().unwrap());
    assert_eq!(host.calls[0].2, vec![0, 0, 0, 0]);
}

#[test]
fn call_contract_passes_references_along() {
    let mut host = fresh_host();
    host.install(Key::Hash([7u8; 32]), Outcome::Returns(vec![]));
    let extra = vec![Key::URef(URef::new([3u8; 32], AccessRights::all()))];
    let got: Result<(), Exit> = call_contract(&mut host, target(), (), extra.clone());
    assert_eq!(got, Ok(()));
    assert_eq!(host.calls[0].1, vec![0, 0, 0, 0]);
    assert_eq!(host.calls[0].2, extra.to_bytes().unwrap());
    assert_eq!(host.reads, vec![0]);
}

#[test]
fn scenario_callee_abort_ends_the_caller() {
    let mut host = fresh_host();
    host.install(Key::Hash([7u8; 32]), Outcome::Reverts(4242));
    put_key(&mut host, "before", Key::Hash([1u8; 32])).unwrap();
    let got: Result<u32, Exit> = call_contract(&mut host, target(), (), vec![]);
    assert_eq!(got, Err(Exit::Reverted(4242)));
    assert_eq!(host.exit, Some(Exit::Reverted(4242)));
    assert!(host.reads.is_empty());
    assert_eq!(host.calls.len(), 1);
    assert_eq!(put_key(&mut host, "after", Key::Hash([2u8; 32])), Err(Exit::Reverted(4242)));
    assert_eq!(host.named_keys.len(), 1);
    let again: Result<u32, Exit> = call_contract(&mut host, target(), (), vec![]);
    assert_eq!(again, Err(Exit::Reverted(4242)));
    assert_eq!(host.calls.len(), 1);
}

#[test]
fn call_of_unknown_program_reverts_with_host_error() {
    let mut host = fresh_host();
    let got: Result<u32, Exit> = call_contract(&mut host, target(), (), vec![]);
    assert_eq!(got, Err(Exit::Reverted(5)));
    assert!(host.calls.is_empty());
}

#[test]
fn call_refused_by_host_reverts_with_its_code() {
    let mut host = fresh_host();
    host.install(Key::Hash([7u8; 32]), Outcome::Fails(ApiError::NoAccessRights));
    let got: Result<u32, Exit> = call_contract(&mut host, target(), (), vec![]);
    assert_eq!(got, Err(Exit::Reverted(7)));
}

#[test]
fn call_result_of_wrong_type_reverts_with_decoding_error() {
    let mut host = fresh_host();
    host.install(Key::Hash([7u8; 32]), Outcome::Returns(vec![1, 2]));
    let got: Result<u32, Exit> = call_contract(&mut host, target(), (), vec![]);
    assert_eq!(got, Err(Exit::Reverted(8)));
    assert_eq!(host.reads, vec![2]);
    let mut host = fresh_host();
    host.install(Key::Hash([7u8; 32]), Outcome::Returns(vec![1, 2, 3, 4, 5]));
    let got: Result<u32, Exit> = call_contract(&mut host, target(), (), vec![]);
    assert_eq!(got, Err(Exit::Reverted(10)));
}

#[test]
fn call_with_a_waiting_result_reverts() {
    let mut host = fresh_host();
    host.install(Key::Hash([7u8; 32]), Outcome::Returns(vec![]));
    host.host_buffer = Some(vec![1]);
    let got: Result<(), Exit> = call_contract(&mut host, target(), (), vec![]);
    assert_eq!(got, Err(Exit::Reverted(15)));
    assert!(host.calls.is_empty());
}

#[test]
fn first_installed_program_wins() {
    let mut host = fresh_host();
    host.install(Key::Hash([7u8; 32]), Outcome::Returns(vec![1, 0, 0, 0]));
    host.install(Key::Hash([7u8; 32]), Outcome::Returns(vec![2, 0, 0, 0]));
    host.install(Key::Hash([8u8; 32]), Outcome::Returns(vec![3, 0, 0, 0]));
    let got: Result<u32, Exit> = call_contract(&mut host, target(), (), vec![]);
    assert_eq!(got, Ok(1));
    let got: Result<u32, Exit> =
        call_contract(&mut host, ContractRef::Hash([8u8; 32]), (), vec![]);
    assert_eq!(got, Ok(3));
}

#[test]
fn read_never_reports_more_than_the_buffer_holds() {
    let mut host = fresh_host();
    host.host_buffer = Some(vec![1, 2, 3, 4, 5]);
    let mut small = vec![0u8; 3];
    assert_eq!(
        read_host_buffer_into(&mut host, &mut small),
        Ok(Err(ApiError::BufferTooSmall))
    );
    assert_eq!(host.host_buffer, Some(vec![1, 2, 3, 4, 5]));
    let mut large = vec![9u8; 8];
    assert_eq!(read_host_buffer_into(&mut host, &mut large), Ok(Ok(5)));
    assert_eq!(large, vec![1, 2, 3, 4, 5, 9, 9, 9]);
    assert_eq!(host.host_buffer, None);
    assert_eq!(host.reads, vec![3, 8]);
}

#[test]
fn read_host_buffer_keeps_only_what_was_written() {
    let mut host = fresh_host();
    host.host_buffer = Some(vec![1, 2, 3]);
    assert_eq!(read_host_buffer(&mut host, 6), Ok(Ok(vec![1, 2, 3])));
    assert_eq!(read_host_buffer(&mut host, 6), Ok(Err(ApiError::HostBufferEmpty)));
}

#[test]
fn argument_beyond_count_is_none() {
    let mut host = fresh_host();
    host.push_arg(5u32.to_bytes().unwrap());
    assert_eq!(get_arg_size(&mut host, 0), Ok(Some(4)));
    assert_eq!(get_arg_size(&mut host, 1), Ok(None));
    assert_eq!(get_arg::<SimHost, u32>(&mut host, 0), Ok(Some(Ok(5))));
    assert_eq!(get_arg::<SimHost, u32>(&mut host, 1), Ok(None));
    assert_eq!(get_arg::<SimHost, u32>(&mut host, u32::MAX), Ok(None));
    assert_eq!(host.exit, None);
}

#[test]
fn argument_of_other_type_is_a_decoding_error_not_missing() {
    let mut host = fresh_host();
    host.push_arg(String::from("bond").to_bytes().unwrap());
    host.push_arg(vec![1, 2]);
    assert_eq!(
        get_arg::<SimHost, u32>(&mut host, 0),
        Ok(Some(Err(ApiError::LeftOverBytes)))
    );
    assert_eq!(
        get_arg::<SimHost, u32>(&mut host, 1),
        Ok(Some(Err(ApiError::EarlyEndOfStream)))
    );
    assert_eq!(get_arg::<SimHost, String>(&mut host, 0), Ok(Some(Ok(String::from("bond")))));
    assert_eq!(host.exit, None);
}

#[test]
fn host_get_arg_needs_a_buffer_of_the_queried_size() {
    let mut host = fresh_host();
    host.push_arg(vec![1, 2, 3, 4]);
    let mut small = vec![0u8; 3];
    assert_eq!(host.get_arg(0, &mut small), Ok(13));
    let mut exact = vec![0u8; 4];
    assert_eq!(host.get_arg(0, &mut exact), Ok(0));
    assert_eq!(exact, vec![1, 2, 3, 4]);
    assert_eq!(host.get_arg(1, &mut exact), Ok(2));
    assert_eq!(host.get_arg_size(1), Ok((2, 0)));
}

#[test]
fn caller_blocktime_and_phase() {
    let mut host = fresh_host();
    assert_eq!(get_caller(&mut host), Ok(PublicKey { bytes: [9u8; 32] }));
    assert_eq!(get_blocktime(&mut host), Ok(BlockTime { millis: 42 }));
    assert_eq!(get_phase(&mut host), Ok(Phase::Payment));
}

#[test]
fn ret_delivers_value_and_ends_execution() {
    let mut host = fresh_host();
    let value = CLValue::from_t(&7u64).unwrap();
    let urefs = vec![URef::new([1u8; 32], AccessRights::all())];
    let value_bytes = value.to_bytes().unwrap();
    let urefs_bytes = urefs.to_bytes().unwrap();
    assert_eq!(ret(&mut host, value, urefs), Exit::Returned);
    assert_eq!(host.exit, Some(Exit::Returned));
    assert_eq!(host.returned, Some((value_bytes, urefs_bytes)));
    assert_eq!(get_key(&mut host, "a"), Err(Exit::Returned));
    assert_eq!(get_caller(&mut host), Err(Exit::Returned));
    let second = CLValue::from_t(&8u64).unwrap();
    assert_eq!(ret(&mut host, second, vec![]), Exit::Returned);
    assert_eq!(host.returned.as_ref().unwrap().0[4], 7);
}

#[test]
fn presence_policy() {
    assert_eq!(matches!(presence(0, ApiError::MissingKey), Presence::Present), true);
    assert_eq!(matches!(presence(12, ApiError::MissingKey), Presence::Absent), true);
    assert_eq!(
        matches!(presence(2, ApiError::MissingKey), Presence::Fatal(ApiError::MissingArgument)),
        true
    );
    assert_eq!(matches!(presence(2, ApiError::MissingArgument), Presence::Absent), true);
    assert_eq!(
        matches!(presence(999, ApiError::MissingKey), Presence::Fatal(ApiError::Unhandled)),
        true
    );
}

#[test]
fn key_reply_decodes_only_what_was_written() {
    let key = Key::Hash([4u8; 32]);
    let mut buffer = key.to_bytes().unwrap();
    buffer.push(0);
    assert_eq!(key_reply(0, 33, buffer.clone()), Ok(Some(key)));
    assert_eq!(key_reply(0, 34, buffer.clone()), Err(ApiError::LeftOverBytes));
    assert_eq!(key_reply(0, 100, buffer.clone()), Err(ApiError::LeftOverBytes));
    assert_eq!(key_reply(0, 5, buffer.clone()), Err(ApiError::EarlyEndOfStream));
    assert_eq!(key_reply(12, 0, buffer.clone()), Ok(None));
    assert_eq!(key_reply(13, 0, buffer), Err(ApiError::BufferTooSmall));
}

#[test]
fn filled_buffer_is_cut_to_the_count_written() {
    assert_eq!(filled_buffer(0, 2, vec![1, 2, 3]), Ok(vec![1, 2]));
    assert_eq!(filled_buffer(0, 3, vec![1, 2, 3]), Ok(vec![1, 2, 3]));
    assert_eq!(filled_buffer(0, 9, vec![1, 2, 3]), Ok(vec![1, 2, 3]));
    assert_eq!(filled_buffer(14, 2, vec![1, 2, 3]), Err(ApiError::HostBufferEmpty));
}

#[test]
fn call_reply_and_listing() {
    assert_eq!(call_reply(0, 40), Ok(40));
    assert_eq!(call_reply(5, 40), Err(ApiError::InvalidReference));
    assert!(matches!(listing(0, 0, 0), Listing::Empty));
    assert!(matches!(listing(0, 0, 17), Listing::Empty));
    assert!(matches!(listing(0, 2, 17), Listing::Read(17)));
    assert!(matches!(listing(11, 2, 17), Listing::Fatal(ApiError::OutOfMemory)));
}
