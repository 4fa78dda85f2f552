use contract_ffi::bytesrepr::{alloc_bytes, decode_all, deserialize, serialize, FromBytes, ToBytes};
use contract_ffi::cl_value::{CLType, CLValue};
use contract_ffi::error::{result_from, ApiError, Reason};
use contract_ffi::key::{ContractRef, Key};
use contract_ffi::uref::{AccessRights, URef};
use contract_ffi::value::{BlockTime, Phase, PublicKey, PurseId, U512};

fn sample_uref() -> URef {
    let mut addr = [0u8; 32];
    for (i, b) in addr.iter_mut().enumerate() {
        *b = i as u8;
    }
    URef::new(addr, AccessRights { read: true, write: false, add: true })
}

#[test]
fn u32_encoding_is_little_endian() {
    assert_eq!(0x0102_0304u32.to_bytes().unwrap(), vec![4, 3, 2, 1]);
    assert_eq!(u32::from_bytes(&[4, 3, 2, 1, 9]).unwrap(), (0x0102_0304u32, &[9u8][..]));
}

#[test]
fn u64_round_trip() {
    let bytes = 0x0102_0304_0506_0708u64.to_bytes().unwrap();
    assert_eq!(bytes, vec![8, 7, 6, 5, 4, 3, 2, 1]);
    assert_eq!(deserialize::<u64>(bytes), Ok(0x0102_0304_0506_0708u64));
}

#[test]
fn u8_round_trip() {
    assert_eq!(7u8.to_bytes().unwrap(), vec![7]);
    assert_eq!(deserialize::<u8>(vec![7]), Ok(7));
}

#[test]
fn unit_is_encoded_as_nothing() {
    assert_eq!(().to_bytes().unwrap(), Vec::<u8>::new());
    assert_eq!(deserialize::<()>(vec![]), Ok(()));
    assert_eq!(deserialize::<()>(vec![0]), Err(ApiError::LeftOverBytes));
}

#[test]
fn string_is_length_prefixed_utf8() {
    let s = String::from("héllo");
    let bytes = s.to_bytes().unwrap();
    assert_eq!(bytes, vec![6, 0, 0, 0, b'h', 0xc3, 0xa9, b'l', b'l', b'o']);
    assert_eq!(deserialize::<String>(bytes), Ok(s));
}

#[test]
fn str_encodes_like_string() {
    assert_eq!("bond".to_bytes().unwrap(), String::from("bond").to_bytes().unwrap());
    assert_eq!("".to_bytes().unwrap(), vec![0, 0, 0, 0]);
}

#[test]
fn string_with_invalid_utf8_is_a_formatting_error() {
    assert_eq!(deserialize::<String>(vec![2, 0, 0, 0, 0xc3, 0x28]), Err(ApiError::Formatting));
    assert_eq!(deserialize::<String>(vec![1, 0, 0, 0, 0xff]), Err(ApiError::Formatting));
}

#[test]
fn truncated_string_is_early_end_of_stream() {
    assert_eq!(deserialize::<String>(vec![5, 0, 0, 0, b'a']), Err(ApiError::EarlyEndOfStream));
    assert_eq!(deserialize::<String>(vec![5, 0]), Err(ApiError::EarlyEndOfStream));
}

#[test]
fn over_long_input_is_left_over_bytes() {
    assert_eq!(deserialize::<u32>(vec![1, 0, 0, 0, 0]), Err(ApiError::LeftOverBytes));
    assert_eq!(decode_all::<u8>(&[1, 2]), Err(ApiError::LeftOverBytes));
}

#[test]
fn access_rights_mask() {
    assert_eq!(AccessRights::none().bits(), 0);
    assert_eq!(AccessRights::all().bits(), 7);
    assert_eq!(AccessRights { read: true, write: false, add: true }.bits(), 5);
    assert_eq!(
        AccessRights::from_bits(6),
        Some(AccessRights { read: false, write: true, add: true })
    );
    assert_eq!(AccessRights::from_bits(8), None);
    assert_eq!(deserialize::<AccessRights>(vec![8]), Err(ApiError::Formatting));
    for mask in 0u8..8 {
        assert_eq!(AccessRights::from_bits(mask).unwrap().bits(), mask);
    }
}

#[test]
fn uref_round_trip() {
    let u = sample_uref();
    let bytes = u.to_bytes().unwrap();
    assert_eq!(bytes.len(), 33);
    assert_eq!(&bytes[..32], &u.addr()[..]);
    assert_eq!(bytes[32], 5);
    assert_eq!(deserialize::<URef>(bytes), Ok(u));
}

#[test]
fn urefs_with_different_rights_differ() {
    let a = URef::new([1u8; 32], AccessRights::all());
    let b = URef::new([1u8; 32], AccessRights::none());
    assert_ne!(a, b);
    assert!(!a.same(&b));
    assert!(a.same(&a));
    assert_eq!(a.access_rights(), AccessRights::all());
}

#[test]
fn key_round_trip_all_variants() {
    let keys = vec![
        Key::Account([1u8; 32]),
        Key::Hash([2u8; 32]),
        Key::URef(sample_uref()),
        Key::Local([3u8; 32]),
    ];
    for k in keys {
        let bytes = k.to_bytes().unwrap();
        assert!(bytes.len() <= Key::serialized_size_hint());
        assert_eq!(deserialize::<Key>(bytes), Ok(k));
        assert!(k.same(&k));
    }
    assert!(!Key::Account([1u8; 32]).same(&Key::Hash([1u8; 32])));
}

#[test]
fn key_encoding_starts_with_tag() {
    assert_eq!(Key::Account([0u8; 32]).to_bytes().unwrap()[0], 0);
    assert_eq!(Key::Hash([0u8; 32]).to_bytes().unwrap()[0], 1);
    assert_eq!(Key::URef(sample_uref()).to_bytes().unwrap()[0], 2);
    assert_eq!(Key::Local([0u8; 32]).to_bytes().unwrap()[0], 3);
    assert_eq!(Key::Hash([0u8; 32]).to_bytes().unwrap().len(), 33);
    assert_eq!(Key::URef(sample_uref()).to_bytes().unwrap().len(), 34);
    assert_eq!(Key::serialized_size_hint(), 34);
}

#[test]
fn key_with_unknown_tag_is_a_formatting_error() {
    let mut bytes = vec![4u8];
    bytes.extend_from_slice(&[0u8; 32]);
    assert_eq!(deserialize::<Key>(bytes), Err(ApiError::Formatting));
    assert_eq!(deserialize::<Key>(vec![]), Err(ApiError::EarlyEndOfStream));
    assert_eq!(deserialize::<Key>(vec![1, 2, 3]), Err(ApiError::EarlyEndOfStream));
}

#[test]
fn contract_ref_converts_to_key() {
    assert_eq!(ContractRef::Hash([9u8; 32]).into_key(), Key::Hash([9u8; 32]));
    assert_eq!(ContractRef::URef(sample_uref()).into_key(), Key::URef(sample_uref()));
}

#[test]
fn fixed_size_values_round_trip() {
    let who = PublicKey { bytes: [7u8; 32] };
    assert_eq!(who.to_bytes().unwrap().len(), 32);
    assert_eq!(deserialize::<PublicKey>(who.to_bytes().unwrap()), Ok(who));
    let when = BlockTime { millis: 1_234_567 };
    assert_eq!(when.to_bytes().unwrap().len(), 8);
    assert_eq!(deserialize::<BlockTime>(when.to_bytes().unwrap()), Ok(when));
    for (phase, tag) in [
        (Phase::System, 0u8),
        (Phase::Payment, 1),
        (Phase::Session, 2),
        (Phase::FinalizePayment, 3),
    ] {
        assert_eq!(phase.to_bytes().unwrap(), vec![tag]);
        assert_eq!(deserialize::<Phase>(vec![tag]), Ok(phase));
    }
    assert_eq!(deserialize::<Phase>(vec![4]), Err(ApiError::Formatting));
    let purse = PurseId::new(sample_uref());
    assert_eq!(purse.value(), sample_uref());
    assert_eq!(deserialize::<PurseId>(purse.to_bytes().unwrap()), Ok(purse));
}

#[test]
fn u512_from_u64() {
    let a = U512::from_u64(0x0102);
    assert_eq!(a.bytes[0], 2);
    assert_eq!(a.bytes[1], 1);
    assert!(a.bytes[2..].iter().all(|b| *b == 0));
    let bytes = a.to_bytes().unwrap();
    assert_eq!(bytes.len(), 64);
    assert_eq!(deserialize::<U512>(bytes), Ok(a));
}

#[test]
fn option_round_trip() {
    assert_eq!(None::<u32>.to_bytes().unwrap(), vec![0]);
    assert_eq!(Some(1u32).to_bytes().unwrap(), vec![1, 1, 0, 0, 0]);
    assert_eq!(deserialize::<Option<u32>>(vec![1, 1, 0, 0, 0]), Ok(Some(1)));
    assert_eq!(deserialize::<Option<u32>>(vec![0]), Ok(None));
    assert_eq!(deserialize::<Option<u32>>(vec![2]), Err(ApiError::Formatting));
}

#[test]
fn list_round_trip() {
    let v: Vec<u32> = vec![1, 2];
    assert_eq!(v.to_bytes().unwrap(), vec![2, 0, 0, 0, 1, 0, 0, 0, 2, 0, 0, 0]);
    assert_eq!(deserialize::<Vec<u32>>(v.to_bytes().unwrap()), Ok(v));
    let empty: Vec<Key> = vec![];
    assert_eq!(empty.to_bytes().unwrap(), vec![0, 0, 0, 0]);
    assert_eq!(
        deserialize::<Vec<u32>>(vec![2, 0, 0, 0, 1, 0, 0, 0]),
        Err(ApiError::EarlyEndOfStream)
    );
}

#[test]
fn pair_and_named_entries_round_trip() {
    let entries = vec![
        (String::from("a"), Key::Hash([1u8; 32])),
        (String::from("b"), Key::URef(sample_uref())),
    ];
    let bytes = serialize(&entries).unwrap();
    assert_eq!(deserialize::<Vec<(String, Key)>>(bytes), Ok(entries));
}

#[test]
fn cl_value_carries_type() {
    let v = CLValue::from_t(&7u32).unwrap();
    assert_eq!(v.cl_type(), CLType::U32);
    assert_eq!(v.bytes, vec![7, 0, 0, 0]);
    let bytes = v.to_bytes().unwrap();
    assert_eq!(bytes, vec![4, 0, 0, 0, 7, 0, 0, 0, 2]);
    let back = deserialize::<CLValue>(bytes).unwrap();
    assert_eq!(back.into_t::<u32>(), Ok(7));
    let again = CLValue::from_t(&7u32).unwrap();
    assert_eq!(again.into_t::<u64>(), Err(ApiError::CLTypeMismatch));
    assert_eq!(deserialize::<CLValue>(vec![0, 0, 0, 0, 99]), Err(ApiError::Formatting));
}

#[test]
fn status_zero_is_success() {
    assert_eq!(result_from(0), Ok(()));
}

#[test]
fn every_kind_has_its_own_status() {
    let kinds = [
        ApiError::NoValue,
        ApiError::MissingArgument,
        ApiError::InvalidArgument,
        ApiError::Deserialize,
        ApiError::InvalidReference,
        ApiError::UpgradeContractAtURef,
        ApiError::NoAccessRights,
        ApiError::EarlyEndOfStream,
        ApiError::Formatting,
        ApiError::LeftOverBytes,
        ApiError::OutOfMemory,
        ApiError::MissingKey,
        ApiError::BufferTooSmall,
        ApiError::HostBufferEmpty,
        ApiError::HostBufferFull,
        ApiError::CLTypeMismatch,
        ApiError::Unhandled,
    ];
    for (i, kind) in kinds.iter().enumerate() {
        assert_eq!(kind.status(), i as i32 + 1);
        assert_eq!(kind.code(), i as u32 + 1);
        assert_eq!(ApiError::from_status(kind.status()), *kind);
        assert_eq!(result_from(kind.status()), Err(*kind));
    }
}

#[test]
fn unknown_status_is_unhandled() {
    assert_eq!(result_from(18), Err(ApiError::Unhandled));
    assert_eq!(result_from(-1), Err(ApiError::Unhandled));
    assert_eq!(result_from(i32::MAX), Err(ApiError::Unhandled));
    assert_eq!(result_from(2), Err(ApiError::MissingArgument));
    assert_eq!(result_from(12), Err(ApiError::MissingKey));
}

#[test]
fn u32_is_its_own_reason() {
    assert_eq!(1000u32.code(), 1000);
}

#[test]
fn receive_buffer_has_requested_size() {
    let buf = alloc_bytes(40);
    assert_eq!(buf, vec![0u8; 40]);
    assert!(alloc_bytes(0).is_empty());
}

#[test]
fn list_longer_than_its_prefix_allows_is_out_of_memory() {
    let too_long: Vec<()> = vec![(); u32::MAX as usize + 1];
    assert_eq!(too_long.to_bytes(), Err(ApiError::OutOfMemory));
    assert_eq!(serialize(&too_long), Err(ApiError::OutOfMemory));
}
