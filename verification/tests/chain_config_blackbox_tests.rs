use sovereign_bridge::chain_config::{ChainConfigContract, ValidatorData, BLS_KEY_BYTE_LENGTH};
use sovereign_bridge::config::SovereignConfig;
use sovereign_bridge::errors::BridgeError;
use sovereign_bridge::types::{Payment, StakeArgs};

const FIRST_TEST_TOKEN: &str = "GREEN-0e161c";
const EGLD: &str = "EGLD-000000";

fn address(name: &str) -> Vec<u8> {
    let mut a = name.as_bytes().to_vec();
    a.resize(32, b'_');
    a
}

fn owner() -> Vec<u8> {
    address("owner")
}

fn user() -> Vec<u8> {
    address("user")
}

fn hashes() -> Vec<u8> {
    b"hash-of-hashes".to_vec()
}

fn op_hash() -> Vec<u8> {
    b"operation-hash".to_vec()
}

fn bls_key(seed: u8) -> Vec<u8> {
    vec![seed; BLS_KEY_BYTE_LENGTH]
}

fn deploy(config: Option<SovereignConfig>) -> ChainConfigContract {
    ChainConfigContract::init(owner(), config).ok().expect("deploy")
}

fn first_token_stake(amount: u128) -> Vec<StakeArgs> {
    vec![StakeArgs { token_identifier: FIRST_TEST_TOKEN.as_bytes().to_vec(), amount }]
}

fn bls_key_id(c: &ChainConfigContract, key: &Vec<u8>) -> u128 {
    c.bls_key_to_id.get(key).copied().unwrap_or(0)
}

#[test]
fn test_deploy_chain_config_default_config() {
    let c = deploy(None);
    assert_eq!(c.sovereign_config.min_validators, 1);
    assert_eq!(c.sovereign_config.max_validators, 2);
    assert!(!c.is_setup_phase_complete());
}

#[test]
fn test_deploy_chain_config() {
    let config = SovereignConfig::new(1, 2, 100, None);
    let c = deploy(Some(config));
    assert_eq!(c.sovereign_config.min_stake, 100);
}

#[test]
fn test_deploy_chain_config_invalid_config() {
    let config = SovereignConfig { min_validators: 2, max_validators: 1, ..SovereignConfig::default_config() };
    let r = ChainConfigContract::init(owner(), Some(config));
    match r {
        Err(e) => {
            assert!(e == BridgeError::InvalidMinMaxValidatorNumbers);
            assert_eq!(e.message(), "Invalid validator range");
        },
        Ok(_) => panic!("an invalid configuration was accepted"),
    }
}

#[test]
fn test_complete_setup_phase() {
    let mut c = deploy(None);
    assert!(c.register(&owner(), bls_key(1), &vec![]).is_ok());
    assert!(matches!(c.complete_setup_phase(&owner()), Ok(true)));
    assert!(c.is_setup_phase_complete());
}

#[test]
fn test_update_config_during_setup_phase() {
    let mut c = deploy(None);
    let new_config = SovereignConfig::new(2, 4, 0, None);
    assert!(c.update_sovereign_config_during_setup_phase(&owner(), new_config).is_ok());
    assert_eq!(c.sovereign_config.min_validators, 2);
    assert_eq!(c.sovereign_config.max_validators, 4);
}

#[test]
fn test_update_config_during_setup_phase_additional_stake_zero_amount() {
    let mut c = deploy(None);
    let new_config = SovereignConfig::new(2, 4, 0, Some(first_token_stake(0)));
    let r = c.update_sovereign_config_during_setup_phase(&owner(), new_config);
    assert!(r == Err(BridgeError::AdditionalStakeZeroValue));
}

#[test]
fn test_update_config_during_setup_phase_wrong_validators_array() {
    let mut c = deploy(None);
    let new_config = SovereignConfig::new(2, 1, 0, None);
    let r = c.update_sovereign_config_during_setup_phase(&owner(), new_config);
    assert!(r == Err(BridgeError::InvalidMinMaxValidatorNumbers));
}

#[test]
fn test_update_config_setup_phase_not_completed() {
    let mut c = deploy(None);
    let new_config = SovereignConfig::new(2, 1, 0, None);
    let r = c.update_sovereign_config(&hashes(), &op_hash(), new_config, None).error_message;
    assert_eq!(r, Some(b"The setup is not completed".to_vec()));
}

#[test]
fn test_update_config_invalid_config() {
    let mut c = deploy(None);
    assert!(c.register(&owner(), bls_key(1), &vec![]).is_ok());
    assert!(matches!(c.complete_setup_phase(&owner()), Ok(true)));
    let new_config = SovereignConfig::new(2, 1, 0, None);
    let r = c.update_sovereign_config(&hashes(), &op_hash(), new_config, None).error_message;
    assert_eq!(r, Some(b"Invalid validator range".to_vec()));
    assert_eq!(c.sovereign_config.min_validators, 1);
}

#[test]
fn test_update_config() {
    let mut c = deploy(None);
    assert!(c.register(&owner(), bls_key(1), &vec![]).is_ok());
    assert!(matches!(c.complete_setup_phase(&owner()), Ok(true)));
    let new_config = SovereignConfig::new(1, 2, 0, None);
    assert_eq!(c.update_sovereign_config(&hashes(), &op_hash(), new_config, None).error_message, None);
    assert!(c.sovereign_config.min_validators == 1 && c.sovereign_config.max_validators == 2);
}

#[test]
fn test_register_range_exceeded_too_many_validators() {
    let mut c = deploy(Some(SovereignConfig::default_config()));
    let one = bls_key(1);
    let two = bls_key(2);
    assert!(matches!(c.register(&owner(), one.clone(), &vec![]), Ok(1)));
    let id_one = bls_key_id(&c, &one);
    assert_eq!(c.bls_keys_map.get(id_one), Some(&one));
    assert!(matches!(c.register(&owner(), two.clone(), &vec![]), Ok(2)));
    let id_two = bls_key_id(&c, &two);
    assert_eq!(c.bls_keys_map.get(id_two), Some(&two));
    let r = c.register(&owner(), bls_key(3), &vec![]);
    assert!(r == Err(BridgeError::ValidatorRangeExceeded));
}

#[test]
fn test_register_not_enough_egld_stake() {
    let config = SovereignConfig { max_validators: 3, min_stake: 100, ..SovereignConfig::default_config() };
    let mut c = deploy(Some(config));
    let payments = vec![Payment::new(EGLD.as_bytes().to_vec(), 0, 99)];
    let r = c.register(&owner(), bls_key(1), &payments);
    assert!(r == Err(BridgeError::InvalidEgldStake));
}

#[test]
fn test_register_already_registered() {
    let config = SovereignConfig { max_validators: 10, ..SovereignConfig::default_config() };
    let mut c = deploy(Some(config));
    assert!(c.register(&owner(), bls_key(1), &vec![]).is_ok());
    let new_validator = bls_key(2);
    assert!(c.register(&owner(), new_validator.clone(), &vec![]).is_ok());
    assert!(bls_key_id(&c, &new_validator) == 2);
    let r = c.register(&owner(), new_validator, &vec![]);
    assert!(r == Err(BridgeError::ValidatorAlreadyRegistered));
}

#[test]
fn test_register_invalid_bls_key() {
    let mut c = deploy(None);
    let r = c.register(&owner(), b"invalid bls key".to_vec(), &vec![]);
    assert!(r == Err(BridgeError::InvalidBlsKeyProvided));
}

#[test]
fn test_register_after_genesis() {
    let mut c = deploy(None);
    assert!(c.register(&owner(), bls_key(1), &vec![]).is_ok());
    assert!(matches!(c.complete_setup_phase(&owner()), Ok(true)));
    let r = c.register(&owner(), bls_key(2), &vec![]);
    assert!(r == Err(BridgeError::RegistrationsDisabledGenesisPhase));
}

#[test]
fn test_register_validator_after_genesis() {
    let config = SovereignConfig {
        max_validators: 3,
        opt_additional_stake_required: Some(first_token_stake(100)),
        ..SovereignConfig::default_config()
    };
    let mut c = deploy(Some(config));
    let payments = vec![Payment::new(FIRST_TEST_TOKEN.as_bytes().to_vec(), 0, 100)];
    let pub_keys = vec![bls_key(1), bls_key(2), bls_key(3)];
    assert!(c.register(&owner(), pub_keys[0].clone(), &payments).is_ok());
    assert!(matches!(c.complete_setup_phase(&owner()), Ok(true)));
    for id in 2..=3u128 {
        let validator_data = ValidatorData {
            id,
            address: owner(),
            bls_key: pub_keys[(id - 1) as usize].clone(),
        };
        assert_eq!(c.register_bls_key(&hashes(), &op_hash(), validator_data, None).error_message, None);
        assert_eq!(bls_key_id(&c, &pub_keys[(id - 1) as usize]), id);
    }
}

#[test]
fn test_register_additional_stake() {
    let config = SovereignConfig {
        max_validators: 2,
        opt_additional_stake_required: Some(first_token_stake(100)),
        ..SovereignConfig::default_config()
    };
    let mut c = deploy(Some(config));
    let payments = vec![Payment::new(FIRST_TEST_TOKEN.as_bytes().to_vec(), 0, 100)];
    assert!(c.register(&owner(), bls_key(1), &payments).is_ok());
    let r = c.register(&owner(), bls_key(2), &vec![]);
    assert!(r == Err(BridgeError::InvalidAdditionalStake));
}

#[test]
fn test_unregister_not_registered() {
    let mut c = deploy(None);
    let key = bls_key(1);
    let r = c.unregister(&owner(), &key);
    assert!(matches!(r, Err(BridgeError::ValidatorNotRegistered)));
    assert!(bls_key_id(&c, &key) == 0);
}

#[test]
fn test_unregister_wrong_caller_for_bls_key() {
    let mut c = deploy(None);
    let key = bls_key(1);
    assert!(c.register(&owner(), key.clone(), &vec![]).is_ok());
    assert_eq!(bls_key_id(&c, &key), 1);
    let r = c.unregister(&user(), &key);
    assert!(matches!(r, Err(BridgeError::InvalidBlsKeyForCaller)));
}

#[test]
fn test_unregister_invalid_bls_key() {
    let mut c = deploy(None);
    let r = c.unregister(&owner(), &b"invalid bls key".to_vec());
    assert!(matches!(r, Err(BridgeError::InvalidBlsKeyProvided)));
}

#[test]
fn test_unregister_no_stake() {
    let mut c = deploy(None);
    let key = bls_key(1);
    assert!(c.register(&owner(), key.clone(), &vec![]).is_ok());
    let refund = c.unregister(&owner(), &key).ok().expect("unregister");
    assert!(refund.is_empty());
}

#[test]
fn test_unregister() {
    let stake_amount: u128 = 100_000;
    let config = SovereignConfig {
        min_validators: 0,
        max_validators: 2,
        min_stake: stake_amount,
        opt_additional_stake_required: Some(first_token_stake(stake_amount)),
    };
    let mut c = deploy(Some(config));
    let payments = vec![
        Payment::new(EGLD.as_bytes().to_vec(), 0, stake_amount),
        Payment::new(FIRST_TEST_TOKEN.as_bytes().to_vec(), 0, stake_amount),
    ];
    let key = bls_key(1);
    assert!(c.register(&owner(), key.clone(), &payments).is_ok());
    assert_eq!(bls_key_id(&c, &key), 1);
    let refund = c.unregister(&owner(), &key).ok().expect("unregister");
    assert_eq!(refund.len(), 2);
    assert_eq!(refund[0].token_id, EGLD.as_bytes().to_vec());
    assert_eq!(refund[0].amount, stake_amount);
    assert_eq!(refund[1].token_id, FIRST_TEST_TOKEN.as_bytes().to_vec());
    assert_eq!(refund[1].amount, stake_amount);
    assert_eq!(bls_key_id(&c, &key), 0);
}

#[test]
fn test_unregister_after_genesis() {
    let mut c = deploy(None);
    assert!(c.register(&owner(), bls_key(1), &vec![]).is_ok());
    assert!(matches!(c.complete_setup_phase(&owner()), Ok(true)));
    let r = c.unregister(&owner(), &bls_key(2));
    assert!(matches!(r, Err(BridgeError::RegistrationsDisabledGenesisPhase)));
}

#[test]
fn test_unregister_validator_after_genesis() {
    let token_amount: u128 = 100_000;
    let num_of_validators: u64 = 3;
    let config = SovereignConfig {
        max_validators: num_of_validators,
        opt_additional_stake_required: Some(first_token_stake(token_amount)),
        ..SovereignConfig::default_config()
    };
    let mut c = deploy(Some(config));
    let payments = vec![Payment::new(FIRST_TEST_TOKEN.as_bytes().to_vec(), 0, token_amount)];
    let keys: Vec<Vec<u8>> = (1..=num_of_validators as u8).map(bls_key).collect();
    for (i, key) in keys.iter().enumerate() {
        assert_eq!(c.register(&owner(), key.clone(), &payments).ok(), Some((i + 1) as u128));
    }
    assert!(matches!(c.complete_setup_phase(&owner()), Ok(true)));
    let mut returned: u128 = 0;
    for (index, key) in keys.iter().enumerate() {
        let validator_data = ValidatorData { id: (index + 1) as u128, address: owner(), bls_key: key.clone() };
        let (pending, refund) = c.unregister_bls_key(&hashes(), &op_hash(), &validator_data, None);
        let error = pending.error_message;
        assert_eq!(error, None);
        assert_eq!(refund.len(), 1);
        returned += refund[0].amount;
        assert_eq!(bls_key_id(&c, key), 0);
    }
    assert_eq!(returned, token_amount * num_of_validators as u128);
}

#[test]
fn test_unregister_validator_invalid() {
    let mut c = deploy(None);
    assert!(c.register(&owner(), bls_key(1), &vec![]).is_ok());
    assert!(matches!(c.complete_setup_phase(&owner()), Ok(true)));

    let validator1_bls_key = bls_key(7);
    let validator_data_invalid_id = ValidatorData { id: 999, address: owner(), bls_key: validator1_bls_key.clone() };
    let (pending, refund) = c.unregister_bls_key(&hashes(), &op_hash(), &validator_data_invalid_id, None);
    let error = pending.error_message;
    assert_eq!(error, Some(b"Provided validator id is not registered".to_vec()));
    assert!(refund.is_empty());
    assert_eq!(bls_key_id(&c, &validator1_bls_key), 0);

    let validator2_bls_key = bls_key(8);
    let validator_data_invalid_address = ValidatorData { id: 1, address: user(), bls_key: validator2_bls_key.clone() };
    let (pending, refund) = c.unregister_bls_key(&hashes(), &op_hash(), &validator_data_invalid_address, None);
    let error = pending.error_message;
    assert_eq!(error, Some(BridgeError::InvalidValidatorData.message().as_bytes().to_vec()));
    assert!(refund.is_empty());
    assert_eq!(bls_key_id(&c, &validator2_bls_key), 0);
}

#[test]
fn freed_identifier_is_never_handed_out_again() {
    let config = SovereignConfig { min_validators: 0, max_validators: 3, ..SovereignConfig::default_config() };
    let mut c = deploy(Some(config));
    let first = c.register(&owner(), bls_key(1), &vec![]).ok().expect("register");
    assert_eq!(first, 1);
    assert!(c.unregister(&owner(), &bls_key(1)).is_ok());
    assert_eq!(c.last_bls_key_id, 1);
    let next = c.register(&user(), bls_key(2), &vec![]).ok().expect("register again");
    assert_eq!(next, 2);
    assert_eq!(bls_key_id(&c, &bls_key(2)), 2);
}

#[test]
fn signed_update_ends_in_one_release_and_one_event() {
    let mut c = deploy(None);
    assert!(c.register(&owner(), bls_key(1), &vec![]).is_ok());
    assert!(matches!(c.complete_setup_phase(&owner()), Ok(true)));
    let pending = c.update_sovereign_config(&hashes(), &op_hash(), SovereignConfig::new(2, 1, 0, None), None);
    assert_eq!(pending.remove_call.hash_of_hashes, hashes());
    assert_eq!(pending.remove_call.operation_hash, op_hash());
    let event = pending.finish(Some(b"hash not registered".to_vec()));
    assert_eq!(event.hash_of_hashes, hashes());
    assert_eq!(event.hash_of_bridge_op, op_hash());
    assert_eq!(event.error_message, Some(b"Invalid validator range\nhash not registered".to_vec()));

    let locked = c.update_sovereign_config(&hashes(), &op_hash(), SovereignConfig::new(1, 2, 0, None), Some(b"locked".to_vec()));
    assert_eq!(locked.finish(None).error_message, Some(b"locked".to_vec()));
    assert_eq!(c.sovereign_config.min_validators, 1);
    assert_eq!(c.sovereign_config.max_validators, 2);
}
