use sovereign_bridge::account_storage::{
    check_account_storage, decode_from_hex, find_key_containing, is_hex, text_contains, try_decode_from_hex,
    StorageCheckError,
};
use sovereign_bridge::chain_factory::{generated_random_4_char_string, ChainFactoryContract};
use sovereign_bridge::interactor::get_address_name;
use sovereign_bridge::state::{AddressInfo, CommonState, ShardAddresses};

fn hex(s: &str) -> Vec<u8> {
    s.as_bytes().iter().map(|b| format!("{:02x}", b)).collect::<String>().into_bytes()
}

#[test]
fn hex_text_decodes_in_either_case() {
    assert_eq!(decode_from_hex(&b"6b697769".to_vec()), "kiwi");
    assert_eq!(decode_from_hex(&b"6B697769".to_vec()), "kiwi");
    assert_eq!(decode_from_hex(&b"".to_vec()), "");
    assert!(is_hex(&b"ff00".to_vec()));
    assert!(!is_hex(&b"abc".to_vec()));
    assert!(!is_hex(&b"zz".to_vec()));
    assert_eq!(try_decode_from_hex(&b"abc".to_vec()), None);
    assert_eq!(try_decode_from_hex(&b"ff".to_vec()), None);
    assert_eq!(try_decode_from_hex(&b"41".to_vec()), Some("A".to_string()));
}

#[test]
fn empty_needle_is_contained_everywhere() {
    assert!(text_contains(&b"".to_vec(), &b"".to_vec()));
    assert!(text_contains(&b"abc".to_vec(), &b"bc".to_vec()));
    assert!(!text_contains(&b"abc".to_vec(), &b"cb".to_vec()));
}

fn storage() -> Vec<(Vec<u8>, Vec<u8>)> {
    vec![
        (hex("ELRONDesdtFEE"), hex("nothing")),
        (hex("feeToken"), hex("FEE-123456")),
        (hex("feeTokenSecond"), hex("OTHER")),
    ]
}

#[test]
fn storage_check_finds_the_first_matching_key() {
    let pairs = storage();
    assert_eq!(find_key_containing(&pairs, &hex("feeToken")), Some(1));
    assert!(check_account_storage(&pairs, &hex("feeToken"), &Some(hex("FEE"))).is_ok());
    match check_account_storage(&pairs, &hex("feeToken"), &Some(hex("OTHER"))) {
        Err(StorageCheckError::ValueMismatch { decoded_expected, decoded_value, .. }) => {
            assert_eq!(decoded_expected, "OTHER");
            assert_eq!(decoded_value, "FEE-123456");
        },
        _ => panic!("the first matching entry was not the one compared"),
    }
}

#[test]
fn storage_check_reports_missing_and_unexpected_keys() {
    let pairs = storage();
    match check_account_storage(&pairs, &hex("nonce"), &Some(hex("1"))) {
        Err(StorageCheckError::MissingKey { decoded_key, .. }) => assert_eq!(decoded_key, "nonce"),
        _ => panic!("a missing key was not reported"),
    }
    assert!(check_account_storage(&pairs, &hex("nonce"), &None).is_ok());
    match check_account_storage(&pairs, &hex("feeToken"), &None) {
        Err(StorageCheckError::UnexpectedKey { decoded_key, .. }) => assert_eq!(decoded_key, "feeToken"),
        _ => panic!("an unexpected key was not reported"),
    }
}

#[test]
fn random_chain_ids_are_four_charset_characters() {
    for _ in 0..20 {
        let id = generated_random_4_char_string();
        assert_eq!(id.len(), 4);
        assert!(id.iter().all(|c| c.is_ascii_digit() || c.is_ascii_lowercase()));
    }
}

#[test]
fn generated_chain_ids_are_new_and_recorded() {
    let mut factory = ChainFactoryContract::init(
        b"owner".to_vec(),
        b"forge".to_vec(),
        b"cc".to_vec(),
        b"hv".to_vec(),
        b"safe".to_vec(),
        b"fee".to_vec(),
        [true; 5],
    )
    .ok()
    .expect("deploy");
    let first = factory.generate_chain_id().expect("an identifier");
    let second = factory.generate_chain_id().expect("an identifier");
    assert_ne!(first, second);
    assert!(factory.chain_ids.contains_key(&first));
    assert!(factory.chain_ids.contains_key(&second));
}

fn shard(addresses: &[&[u8]]) -> Option<ShardAddresses> {
    Some(ShardAddresses {
        addresses: addresses
            .iter()
            .map(|a| AddressInfo { address: a.to_vec(), chain_id: "sov".to_string() })
            .collect(),
    })
}

#[test]
fn addresses_are_named_by_their_role() {
    let mut state = CommonState::new();
    state.testing_sc_address = Some(b"testing".to_vec());
    state.mvx_esdt_safe_addresses = shard(&[b"safe0", b"safe1", b"safe2"]);
    state.fee_market_addresses = shard(&[b"fee0", b"fee1", b"fee2"]);
    let user = b"user".to_vec();
    assert_eq!(get_address_name(&state, &user, &b"testing".to_vec()), "Testing SC");
    assert_eq!(get_address_name(&state, &user, &user), "User Address");
    assert_eq!(get_address_name(&state, &user, &b"safe1".to_vec()), "MVX ESDT Safe Shard 1");
    assert_eq!(get_address_name(&state, &user, &b"fee2".to_vec()), "Fee Market Shard 2");
    assert_eq!(get_address_name(&state, &user, &b"elsewhere".to_vec()), "Unknown Address");
}

#[test]
fn sovereign_token_ids_carry_the_chain_and_a_random_suffix() {
    let id = sovereign_bridge::interactor::create_random_sovereign_token_id(&b"sov1".to_vec());
    assert_eq!(id.len(), 15);
    assert_eq!(&id[..9], b"sov1-SOV-");
    assert!(id[9..].iter().all(|c| c.is_ascii_lowercase()));
}
