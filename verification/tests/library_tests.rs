use sovereign_bridge::bridge::BridgeModule;
use sovereign_bridge::chain_config::ChainConfigContract;
use sovereign_bridge::chain_factory::{ContractInfo, ScArray};
use sovereign_bridge::config::SovereignConfig;
use sovereign_bridge::cross_chain::{
    u32_to_decimal, CrossChainStorage, EsdtInfo, EsdtSafeConfig, ExecuteCommonModule, TokenMappers, TransferData,
};
use sovereign_bridge::store::BytesMap;
use sovereign_bridge::errors::BridgeError;
use sovereign_bridge::fee::{
    generate_pairs_hash, validate_percentage_sum, AddressPercentagePair, FeeCommonModule, FeeStruct, FeeType,
};
use sovereign_bridge::interactor::{
    calculate_fee_amount, check_address_balance, check_balances_after_action, prepare_deposit_payments,
    prepare_operation, search_for_error_in_logs, BalanceCheckConfig, BalanceCheckError, EsdtTokenInfo,
    SerializableFeeMarketToken, State,
};
use sovereign_bridge::logs::{
    assert_expected_data, assert_expected_log, assert_expected_logs, assert_expected_topic_log, contains_window,
    data_matches, topic_matches, ExpectedLogs, Log, LogCheckError,
};
use sovereign_bridge::state::{AddressInfo, CommonState};
use sovereign_bridge::test_setup::{
    bitmap_for_signers, calculate_signer_count, full_bitmap, CallerAddress, ErrorPayloadToString,
};
use sovereign_bridge::token::{is_egld, is_valid_token_id, validate_chain_id};
use sovereign_bridge::types::{EsdtTokenType, Payment, StakeArgs};
use sovereign_bridge::validator_rules::ValidatorRulesModule;

fn address(name: &str) -> Vec<u8> {
    let mut a = name.as_bytes().to_vec();
    a.resize(32, b'_');
    a
}

fn bytes(s: &str) -> Vec<u8> {
    s.as_bytes().to_vec()
}

fn log(endpoint: &str, topics: &[&str], data: &[&str]) -> Log {
    Log {
        endpoint: bytes(endpoint),
        topics: topics.iter().map(|t| bytes(t)).collect(),
        data: data.iter().map(|d| bytes(d)).collect(),
    }
}

fn token(id: &str, amount: u128) -> EsdtTokenInfo {
    EsdtTokenInfo { token_id: bytes(id), nonce: 0, token_type: EsdtTokenType::Fungible, decimals: 18, amount }
}

// ---- windows and log matching

#[test]
fn window_search_finds_inner_run() {
    assert!(contains_window(&bytes("abcdef"), &bytes("cde")));
    assert!(!contains_window(&bytes("abcdef"), &bytes("ce")));
    assert!(!contains_window(&bytes("ab"), &bytes("abc")));
}

#[test]
fn topic_matches_raw_and_base64() {
    assert!(topic_matches(&bytes("deposit"), &bytes("deposit")));
    assert!(topic_matches(&bytes("ZGVwb3NpdA=="), &bytes("deposit")));
    assert!(!topic_matches(&bytes("ZGVwb3NpdA=="), &bytes("deposi")));
    assert!(!topic_matches(&bytes("not base64!"), &bytes("deposit")));
}

#[test]
fn data_matches_raw_and_base64() {
    assert!(data_matches(&bytes("an error occurred"), &bytes("error")));
    assert!(data_matches(&bytes("ZXJyb3IgaGVyZQ=="), &bytes("here")));
    assert!(!data_matches(&bytes("ZXJyb3IgaGVyZQ=="), &bytes("there")));
}

#[test]
fn expected_logs_pass_and_fail_in_order() {
    let logs = vec![
        log("deposit", &["deposit", "user"], &["payload"]),
        log("executeBridgeOps", &["executedBridgeOp"], &[""]),
    ];
    let ok = vec![
        ExpectedLogs { identifier: bytes("deposit"), topics: Some(vec![bytes("user")]), data: Some(bytes("pay")) },
        ExpectedLogs { identifier: bytes("executeBridgeOps"), topics: Some(vec![bytes("executedBridgeOp")]), data: None },
    ];
    assert!(assert_expected_logs(&logs, &ok) == Ok(()));

    let missing = vec![ExpectedLogs { identifier: bytes("scCall"), topics: None, data: None }];
    assert!(assert_expected_logs(&logs, &missing) == Err(LogCheckError::LogNotFound { expected: 0 }));

    let wrong_topic = vec![
        ExpectedLogs { identifier: bytes("deposit"), topics: None, data: None },
        ExpectedLogs { identifier: bytes("deposit"), topics: Some(vec![bytes("other")]), data: None },
    ];
    assert!(assert_expected_logs(&logs, &wrong_topic) == Err(LogCheckError::TopicsNotFound { expected: 1 }));

    let wrong_data = vec![ExpectedLogs { identifier: bytes("deposit"), topics: None, data: Some(bytes("zzz")) }];
    assert!(assert_expected_logs(&logs, &wrong_data) == Err(LogCheckError::DataNotFound { expected: 0 }));
}

#[test]
fn executed_operation_event_checks() {
    let expected = vec![ExpectedLogs {
        identifier: bytes("executeBridgeOps"),
        topics: Some(vec![bytes("executedBridgeOp")]),
        data: None,
    }];
    let twice = vec![
        log("executeBridgeOps", &["executedBridgeOp"], &[]),
        log("executeBridgeOps", &["executedBridgeOp"], &[]),
    ];
    assert!(assert_expected_logs(&twice, &expected) == Err(LogCheckError::NotExactlyOneLog { expected: 0, found: 2 }));
    let vm_error = vec![log("executeBridgeOps", &["executedBridgeOp"], &[]), log("internalVMErrors", &[], &["x"])];
    assert!(assert_expected_logs(&vm_error, &expected) == Err(LogCheckError::InternalVmError { expected: 0 }));
    let with_data = vec![log("executeBridgeOps", &["executedBridgeOp"], &["failure"])];
    assert!(assert_expected_logs(&with_data, &expected) == Err(LogCheckError::UnexpectedData { expected: 0 }));
}

#[test]
fn base_setup_expected_log_rules() {
    let logs = vec![log("deposit", &["deposit-event"], &["bad token here"])];
    assert!(assert_expected_log(&vec![], &None, &None) == Ok(()));
    assert!(assert_expected_log(&logs, &None, &None) == Err(LogCheckError::UnexpectedLogs));
    assert!(assert_expected_log(&vec![], &None, &Some(bytes("e"))) == Err(LogCheckError::UnexpectedErrorCheck));
    assert!(assert_expected_log(&logs, &Some(bytes("")), &None) == Ok(()));
    assert!(assert_expected_log(&logs, &Some(bytes("deposit")), &Some(bytes("bad token"))) == Ok(()));
    assert!(assert_expected_log(&logs, &Some(bytes("deposit")), &Some(bytes("good"))) == Err(LogCheckError::ErrorNotFound));
    assert!(assert_expected_log(&logs, &Some(bytes("register")), &None) == Err(LogCheckError::LogNotFound { expected: 0 }));
}

#[test]
fn exact_topic_and_data_checks() {
    let logs = vec![log("deposit", &["deposit"], &["payload"])];
    assert!(assert_expected_topic_log(&logs, &bytes("deposit")) == Ok(()));
    assert!(assert_expected_topic_log(&logs, &bytes("depo")) == Err(LogCheckError::LogNotFound { expected: 0 }));
    assert!(assert_expected_data(&logs, &bytes("payload")));
    assert!(!assert_expected_data(&logs, &bytes("pay")));
}

#[test]
fn interactor_logs_are_base64_encoded() {
    let logs = vec![log("deposit", &["ZGVwb3NpdA=="], &["dG9rZW4gbm90IHdoaXRlbGlzdGVk"])];
    assert!(search_for_error_in_logs(&logs, &bytes("whitelisted")));
    assert!(!search_for_error_in_logs(&logs, &bytes("blacklisted")));
    let verdict = sovereign_bridge::interactor::assert_expected_log(&logs, &Some(bytes("deposit")), &Some(bytes("not white")));
    assert!(verdict == Ok(()));
    let verdict = sovereign_bridge::interactor::assert_expected_log(&logs, &Some(bytes("register")), &None);
    assert!(verdict == Err(LogCheckError::LogNotFound { expected: 0 }));
    let verdict = sovereign_bridge::interactor::assert_expected_log(&logs, &None, &None);
    assert!(verdict == Err(LogCheckError::UnexpectedLogs));
}

// ---- balances

#[test]
fn address_balance_verdicts() {
    let balances = vec![(bytes("SOV-GREEN-0e161c"), 50u128), (bytes("GREEN-0e161c"), 10u128)];
    assert!(check_address_balance(&vec![], &vec![]) == Ok(()));
    assert!(check_address_balance(&balances, &vec![]) == Err(BalanceCheckError::UnexpectedTokens));
    assert!(check_address_balance(&balances, &vec![token("GREEN-0e161c", 10)]) == Ok(()));
    assert!(check_address_balance(&balances, &vec![token("SOV", 50)]) == Ok(()));
    assert!(check_address_balance(&balances, &vec![token("GREEN-0e161c", 11)])
        == Err(BalanceCheckError::BalanceMismatch { token: 0, found: 10 }));
    assert!(check_address_balance(&balances, &vec![token("GREEN-0e161c", 10), token("RED", 1)])
        == Err(BalanceCheckError::TokenMissing { token: 1 }));
    assert!(check_address_balance(&balances, &vec![token("GREEN-0e161c", 0)])
        == Err(BalanceCheckError::TokenPresent { token: 0 }));
    assert!(check_address_balance(&balances, &vec![token("BLUE-000000", 0)]) == Ok(()));
}

#[test]
fn balances_after_a_deposit() {
    let fee = FeeStruct {
        base_token: bytes("GREEN-0e161c"),
        fee_type: FeeType::Fixed { token: bytes("FEE-123456"), per_transfer: 100, per_gas: 1 },
    };
    let config = BalanceCheckConfig::new()
        .token(Some(token("GREEN-0e161c", 0)))
        .amount(1_000)
        .fee(fee);
    let wallet = vec![token("GREEN-0e161c", 5_000)];
    let fee_token = Some(token("FEE-123456", 10_000));
    let plan = check_balances_after_action(&config, &wallet, &fee_token, 0, 0, 0);
    let user = plan.user_tokens.expect("user tokens");
    assert_eq!(user.len(), 2);
    assert_eq!(user[0].amount, 4_000);
    assert_eq!(user[1].amount, 9_900);
    assert_eq!(plan.mvx_tokens.len(), 1);
    assert_eq!(plan.mvx_tokens[0].amount, 1_000);
    assert_eq!(plan.fee_market_tokens[0].amount, 100);
    assert!(plan.mvx_egld.is_none());
    assert!(plan.testing_tokens.is_empty());
}

#[test]
fn interactor_fee_amounts() {
    let fee = FeeStruct {
        base_token: bytes("GREEN-0e161c"),
        fee_type: FeeType::Fixed { token: bytes("GREEN-0e161c"), per_transfer: 100, per_gas: 1 },
    };
    assert_eq!(calculate_fee_amount(&fee, false, true), 100);
    assert_eq!(calculate_fee_amount(&fee, true, false), 90_000_000);
    assert_eq!(calculate_fee_amount(&fee, true, true), 90_000_100);
}

#[test]
fn deposit_payments_put_the_fee_first() {
    let fee = FeeStruct {
        base_token: bytes("GREEN-0e161c"),
        fee_type: FeeType::Fixed { token: bytes("FEE-123456"), per_transfer: 100, per_gas: 1 },
    };
    let payments = prepare_deposit_payments(&Some(token("GREEN-0e161c", 7)), &Some(fee), false, &bytes("FEE-123456"));
    assert_eq!(payments.len(), 2);
    assert_eq!(payments[0].token_id, bytes("FEE-123456"));
    assert_eq!(payments[0].amount, 100);
    assert_eq!(payments[1].amount, 7);
}

#[test]
fn wallet_tokens_accumulate() {
    let mut state = State::new();
    state.update_or_add_initial_wallet_token(token("GREEN-0e161c", 5));
    state.update_or_add_initial_wallet_token(token("RED-000001", 1));
    state.update_or_add_initial_wallet_token(token("GREEN-0e161c", 7));
    assert_eq!(state.initial_wallet_tokens_state.len(), 2);
    assert_eq!(state.get_initial_wallet_token_balance(&bytes("GREEN-0e161c")), 12);
    assert_eq!(state.get_initial_wallet_token_balance(&bytes("BLUE-000000")), 0);
}

// ---- interactor state

#[test]
fn operation_nonces_count_per_contract() {
    let mut state = CommonState::new();
    let a = address("safe-a");
    let b = address("safe-b");
    assert_eq!(state.get_and_increment_operation_nonce(&a), 0);
    assert_eq!(state.get_and_increment_operation_nonce(&a), 1);
    assert_eq!(state.get_operation_nonce(&a), 2);
    assert_eq!(state.get_operation_nonce(&b), 0);
    state.set_operation_nonce(&b, 9);
    assert_eq!(state.get_operation_nonce(&b), 9);
}

#[test]
fn deposited_amount_round_trip() {
    let mut state = CommonState::new();
    state.add_to_deposited_amount(500);
    state.add_to_deposited_amount(250);
    state.subtract_from_deposited_amount(250);
    assert_eq!(state.get_deposited_amount(), 500);
    state.subtract_from_deposited_amount(900);
    assert_eq!(state.get_deposited_amount(), 0);
}

#[test]
fn egld_balances_and_fee_status_per_shard() {
    let mut state = CommonState::new();
    state.set_mvx_egld_balance_for_all_shards(10);
    state.update_mvx_egld_balance_with_amount(1, 5);
    assert_eq!(state.get_mvx_egld_balance_for_shard(0), 10);
    assert_eq!(state.get_mvx_egld_balance_for_shard(1), 15);
    assert_eq!(state.get_mvx_egld_balance_for_shard(5), 0);
    assert!(!state.get_fee_status_for_shard(2));
    state.set_fee_status_for_all_shards(true);
    state.set_fee_status_for_shard(1, false);
    assert!(state.get_fee_status_for_shard(2));
    assert!(!state.get_fee_status_for_shard(1));
    state.add_bls_secret_key(0, vec![1, 2]);
    state.add_bls_secret_key(0, vec![3]);
    assert_eq!(state.get_bls_secret_keys(0).map(|k| k.len()), Some(2));
    assert!(state.get_bls_secret_keys(1).is_none());
}

#[test]
fn deployed_contracts_are_recorded_by_kind() {
    let mut state = CommonState::new();
    let chain = String::from("abcd");
    let contracts = vec![
        ContractInfo { id: ScArray::ChainConfig, address: address("config") },
        ContractInfo { id: ScArray::SovereignCrossChainOperation, address: address("safe") },
        ContractInfo { id: ScArray::TokenHandler, address: address("handler") },
        ContractInfo { id: ScArray::FeeMarket, address: address("fee") },
    ];
    state.update_smart_contracts_addresses_in_state(&chain, &contracts);
    assert_eq!(state.current_chain_config_sc_address(), &address("config"));
    assert_eq!(state.get_mvx_esdt_safe_address(0), &address("safe"));
    assert_eq!(state.current_fee_market_address(), &address("fee"));
    assert!(state.header_verifier_addresses.is_none());
}

#[test]
fn operations_take_the_next_nonce() {
    let mut state = CommonState::new();
    state.set_mvx_esdt_safe_contract_address(AddressInfo { address: address("safe"), chain_id: String::from("abcd") });
    state.set_testing_sc_address(address("testing"));
    let user = address("user");
    let op = prepare_operation(&mut state, 0, &user, &Some(token("GREEN-0e161c", 3)), &Some(bytes("hello")));
    assert_eq!(op.data.op_nonce, 0);
    assert_eq!(op.to, address("testing"));
    assert_eq!(op.tokens.len(), 1);
    let td = op.data.opt_transfer_data.expect("call");
    assert_eq!(td.gas_limit, 90_000_000);
    assert_eq!(td.args, vec![b"1".to_vec()]);
    let op = prepare_operation(&mut state, 0, &user, &None, &None);
    assert_eq!(op.data.op_nonce, 1);
    assert_eq!(op.to, user);
    assert!(op.tokens.is_empty());
}

#[test]
fn fee_market_token_for_all_shards() {
    let mut state = CommonState::new();
    let t = SerializableFeeMarketToken { token_id: String::from("FEE-123456"), nonce: 0, token_type: 0, decimals: 18, amount: 42 };
    state.set_fee_market_token_for_all_shards(t);
    assert_eq!(state.get_fee_market_token_amount_for_shard(2), 42);
    assert_eq!(state.get_fee_market_token_for_shard(0).token_id, "FEE-123456");
}

// ---- test helpers

#[test]
fn bitmaps_mark_signers() {
    assert_eq!(full_bitmap(10), vec![0xFF, 0x03]);
    assert_eq!(full_bitmap(8), vec![0xFF]);
    assert!(full_bitmap(0).is_empty());
    assert_eq!(bitmap_for_signers(&vec![0, 2, 9]), vec![0x05, 0x02]);
    assert!(bitmap_for_signers(&vec![]).is_empty());
}

#[test]
fn signer_count_is_at_least_one() {
    assert_eq!(calculate_signer_count(&full_bitmap(10)), 10);
    assert_eq!(calculate_signer_count(&vec![0x00, 0x00]), 1);
    assert_eq!(calculate_signer_count(&vec![0x05, 0x02]), 3);
}

#[test]
fn error_payload_to_text() {
    assert_eq!(b"Token is blacklisted".to_vec().to_error_string(), "Token is blacklisted");
    assert_eq!(vec![0x66, 0xFF, 0x6F].to_error_string(), "f\u{FFFD}o");
}

#[test]
fn caller_address_picks_the_sender() {
    let owner = address("owner");
    let enshrine = address("enshrine");
    assert_eq!(CallerAddress::Owner.from_address(&owner, &enshrine), owner);
    assert_eq!(CallerAddress::Enshrine.from_address(&owner, &enshrine), enshrine);
}

// ---- tokens, hashing, formatting

#[test]
fn esdt_identifier_rules() {
    assert!(is_valid_token_id(&bytes("GREEN-0e161c")));
    assert!(is_valid_token_id(&bytes("EGLD-000000")));
    assert!(!is_valid_token_id(&bytes("green-0e161c")));
    assert!(!is_valid_token_id(&bytes("GREEN0e161c")));
    assert!(!is_valid_token_id(&bytes("GR-0e161c")));
    assert!(is_egld(&bytes("EGLD-000000")));
    assert!(!is_egld(&bytes("EGLD")));
}

#[test]
fn chain_id_rules() {
    assert!(validate_chain_id(&bytes("ab12")).is_ok());
    assert!(validate_chain_id(&bytes("AB12")).is_err());
}

#[test]
fn pairs_hash_is_sha256_of_pair_hashes() {
    let pairs = vec![
        AddressPercentagePair { address: address("a"), percentage: 6_000 },
        AddressPercentagePair { address: address("b"), percentage: 4_000 },
    ];
    let mut aggregated = Vec::new();
    for p in &pairs {
        let mut encoded = p.address.clone();
        encoded.extend_from_slice(&(p.percentage as u32).to_be_bytes());
        aggregated.extend_from_slice(&multiversx_chain_vm::crypto_functions::sha256(&encoded));
    }
    let expected = multiversx_chain_vm::crypto_functions::sha256(&aggregated).to_vec();
    assert_eq!(generate_pairs_hash(&pairs), expected);
    let empty = multiversx_chain_vm::crypto_functions::sha256(&[]).to_vec();
    assert_eq!(empty[0], 0xe3);
    assert_eq!(generate_pairs_hash(&vec![]), empty);
}

#[test]
fn pairs_hash_depends_on_pairs() {
    let a = vec![AddressPercentagePair { address: address("a"), percentage: 10_000 }];
    let b = vec![AddressPercentagePair { address: address("a"), percentage: 5_000 }];
    let ha = generate_pairs_hash(&a);
    assert_eq!(ha.len(), 32);
    assert_ne!(ha, generate_pairs_hash(&b));
    assert_ne!(ha, address("a"));
}

#[test]
fn percentage_sum_must_be_whole() {
    let whole = vec![
        AddressPercentagePair { address: address("a"), percentage: 6_000 },
        AddressPercentagePair { address: address("b"), percentage: 4_000 },
    ];
    assert!(validate_percentage_sum(&whole).is_none());
    let short = vec![AddressPercentagePair { address: address("a"), percentage: 6_000 }];
    assert_eq!(validate_percentage_sum(&short), Some(BridgeError::InvalidPercentageSum.message_bytes()));
}

#[test]
fn error_codes_are_formatted_in_decimal() {
    assert_eq!(u32_to_decimal(0), b"0".to_vec());
    assert_eq!(u32_to_decimal(4_294_967_295), b"4294967295".to_vec());
    let module = ExecuteCommonModule { native_token: Some(bytes("WEGLD-abcdef")) };
    assert_eq!(module.format_error("Failed to burn ESDT:", &bytes("GREEN-0e161c"), 10), b"Failed to burn ESDT: GREEN-0e161c; error code: 10".to_vec());
    assert!(module.try_esdt_local_mint(&bytes("GREEN-0e161c"), Ok(())).is_ok());
    assert_eq!(
        module.try_esdt_local_burn(&bytes("GREEN-0e161c"), Err(7)),
        Err(b"Failed to burn ESDT: GREEN-0e161c; error code: 7".to_vec())
    );
    assert!(module.is_native_token(&bytes("WEGLD-abcdef")));
    assert!(!module.is_native_token(&bytes("GREEN-0e161c")));
    assert!(module.is_sft_or_meta(EsdtTokenType::DynamicMeta));
    assert!(module.is_nft(EsdtTokenType::NonFungibleV2));
    assert!(!module.is_fungible(EsdtTokenType::SemiFungible));
}

// ---- deposits

fn storage(whitelist: Vec<Vec<u8>>) -> CrossChainStorage {
    CrossChainStorage {
        paused: false,
        last_tx_nonce: 0,
        esdt_safe_config: EsdtSafeConfig {
            token_whitelist: whitelist,
            token_blacklist: vec![bytes("BAD-000000")],
            max_tx_gas_limit: 300_000_000,
            banned_endpoints: vec![bytes("forbidden")],
            max_bridged_token_amounts: vec![],
        },
        fee_market_address: address("fee"),
        native_token: None,
    }
}

#[test]
fn deposit_splits_into_bridged_and_refunded() {
    let mut s = storage(vec![bytes("GREEN-0e161c")]);
    let payments = vec![
        Payment::new(bytes("GREEN-0e161c"), 0, 5),
        Payment::new(bytes("RED-000001"), 0, 6),
    ];
    let plan = s.deposit_common(payments, false, &None).ok().expect("deposit");
    assert_eq!(plan.bridged.len(), 1);
    assert_eq!(plan.bridged[0].amount, 5);
    assert_eq!(plan.refunds.len(), 1);
    assert_eq!(plan.refunds[0].amount, 6);
    assert_eq!(plan.tx_nonce, 1);
    assert_eq!(s.last_tx_nonce, 1);
}

#[test]
fn deposit_errors() {
    let mut s = storage(vec![]);
    let r = s.deposit_common(vec![Payment::new(bytes("BAD-000000"), 0, 1)], false, &None);
    assert!(matches!(r, Err(BridgeError::TokenBlacklisted)));
    let r = s.deposit_common(vec![], false, &None);
    assert!(matches!(r, Err(BridgeError::NothingToTransfer)));
    let td = Some(TransferData { gas_limit: 1, function: bytes("forbidden"), args: vec![] });
    let r = s.deposit_common(vec![], false, &td);
    assert!(matches!(r, Err(BridgeError::BannedEndpointName)));
    assert_eq!(s.last_tx_nonce, 0);
}

// ---- fee market

#[test]
fn fee_is_charged_and_accumulated() {
    let fee = FeeStruct {
        base_token: bytes("GREEN-0e161c"),
        fee_type: FeeType::Fixed { token: bytes("GREEN-0e161c"), per_transfer: 10, per_gas: 0 },
    };
    let safe = address("safe");
    let mut market = FeeCommonModule::init(safe.clone(), true, Some(fee)).ok().expect("fee market");
    assert!(market.is_fee_enabled());
    let (split, transfers) = market
        .subtract_fee(&safe, address("user"), Payment::new(bytes("GREEN-0e161c"), 0, 100), 2, None)
        .ok()
        .expect("fee");
    assert_eq!(split.fee.amount, 20);
    assert_eq!(split.remaining_tokens.amount, 80);
    assert_eq!(transfers.len(), 1);
    assert_eq!(transfers[0].to, address("user"));
    let r = market.subtract_fee(&address("other"), address("user"), Payment::new(bytes("GREEN-0e161c"), 0, 1), 1, None);
    assert!(matches!(r, Err(_)));
}

#[test]
fn fee_market_needs_a_contract() {
    assert!(matches!(FeeCommonModule::init(vec![0u8; 32], true, None), Err(BridgeError::InvalidScAddress)));
    assert!(matches!(FeeCommonModule::init(address("safe"), false, None), Err(BridgeError::InvalidScAddress)));
}

// ---- bridge and validator rules

#[test]
fn bridge_is_deployed_once_with_its_flags() {
    let owner = address("owner");
    let m = BridgeModule { owner: owner.clone(), bridge_address: None };
    let d = m.deploy_bridge(&owner, vec![1, 2, 3], 2, vec![address("s1")]).ok().expect("deployment");
    assert_eq!(d.code_metadata, 0x0504);
    assert_eq!(d.init.min_valid_signers, 2);
    assert!(matches!(m.deploy_bridge(&address("user"), vec![], 1, vec![]), Err(BridgeError::OnlyOwner)));
    let deployed = BridgeModule { owner: owner.clone(), bridge_address: Some(address("bridge")) };
    assert!(matches!(deployed.deploy_bridge(&owner, vec![], 1, vec![]), Err(BridgeError::BridgeAlreadyDeployed)));
}

#[test]
fn validator_rules_register_and_refund() {
    let config = SovereignConfig::new(1, 2, 0, None);
    let chain_config = ChainConfigContract::init(address("owner"), Some(config)).ok().expect("deploy");
    let mut rules = ValidatorRulesModule { chain_config, registration_status: 0 };
    let key = vec![9u8; 96];
    assert!(matches!(rules.register(&address("v"), key.clone(), &vec![]), Err(BridgeError::RegistrationDisabled)));
    rules.registration_status = 1;
    assert!(matches!(rules.register(&address("v"), key.clone(), &vec![]), Ok(1)));
    assert!(matches!(rules.register(&address("v"), key.clone(), &vec![]), Err(BridgeError::ValidatorAlreadyRegistered)));
    assert!(matches!(rules.unregister(&address("w"), &key), Err(BridgeError::CallerHasIncorrectBlsKey)));
    let refund = rules.unregister(&address("v"), &key).ok().expect("refund");
    assert_eq!(refund.len(), 1);
    assert_eq!(refund[0].token_id, bytes("EGLD-000000"));
    assert_eq!(refund[0].amount, 0);
    assert!(rules.require_validator_set_valid(0).is_err());
    assert!(rules.require_validator_set_valid(1).is_ok());
    let empty = SovereignConfig::new(1, 2, 0, Some(vec![]));
    assert!(rules.is_new_config_valid(&empty) == Err(BridgeError::EmptyAdditionalStake));
    let bad_range = SovereignConfig::new(3, 2, 0, None);
    assert!(rules.is_new_config_valid(&bad_range) == Ok(Some(BridgeError::InvalidMinMaxValidatorNumbers)));
    assert!(rules.is_new_config_valid(&SovereignConfig::new(1, 2, 0, None)) == Ok(None));
    let zero_stake = SovereignConfig::new(3, 2, 0, Some(vec![StakeArgs { token_identifier: bytes("GREEN-0e161c"), amount: 0 }]));
    assert!(rules.is_new_config_valid(&zero_stake) == Err(BridgeError::AdditionalStakeZeroValue));
}

#[test]
fn collected_fees_are_shared_out() {
    let fee = FeeStruct {
        base_token: bytes("GREEN-0e161c"),
        fee_type: FeeType::Fixed { token: bytes("GREEN-0e161c"), per_transfer: 10, per_gas: 0 },
    };
    let safe = address("safe");
    let mut market = FeeCommonModule::init(safe.clone(), true, Some(fee)).ok().expect("fee market");
    assert!(market
        .subtract_fee(&safe, address("user"), Payment::new(bytes("GREEN-0e161c"), 0, 100), 2, None)
        .is_ok());
    let pairs = vec![
        AddressPercentagePair { address: address("a"), percentage: 6_000 },
        AddressPercentagePair { address: address("b"), percentage: 4_000 },
    ];
    let transfers = market.distribute_token_fees(&pairs).ok().expect("distribution");
    assert_eq!(transfers.len(), 2);
    assert_eq!(transfers[0].to, address("a"));
    assert_eq!(transfers[0].payment.amount, 12);
    assert_eq!(transfers[1].payment.amount, 8);
    let total: u128 = transfers.iter().map(|t| t.payment.amount).sum();
    assert!(total <= 20);
}

#[test]
fn burnt_nft_forgets_its_pairing() {
    let mut key = bytes("NFT-123456");
    key.extend_from_slice(&5u64.to_be_bytes());
    let mut sov_key = bytes("sov-NFT-abcdef");
    sov_key.extend_from_slice(&9u64.to_be_bytes());
    let mut mvx_to_sov = BytesMap::new();
    mvx_to_sov.insert(key.clone(), EsdtInfo { token_identifier: bytes("sov-NFT-abcdef"), token_nonce: 9 });
    let mut sov_to_mvx = BytesMap::new();
    sov_to_mvx.insert(sov_key.clone(), EsdtInfo { token_identifier: bytes("NFT-123456"), token_nonce: 5 });
    let mut mappers = TokenMappers { multiversx_to_sovereign_esdt_info: mvx_to_sov, sovereign_to_multiversx_esdt_info: sov_to_mvx };
    let nonce = mappers.burn_mainchain_token(&bytes("NFT-123456"), 5, EsdtTokenType::NonFungible, &bytes("sov-NFT-abcdef"));
    assert_eq!(nonce, 9);
    assert!(!mappers.multiversx_to_sovereign_esdt_info.contains_key(&key));
    assert!(!mappers.sovereign_to_multiversx_esdt_info.contains_key(&sov_key));
    assert_eq!(mappers.burn_mainchain_token(&bytes("GREEN-0e161c"), 0, EsdtTokenType::Fungible, &bytes("x")), 0);
}

#[test]
fn stake_payments_for_tests() {
    let combined = sovereign_bridge::test_setup::combined_stake_payments(100);
    assert_eq!(combined.len(), 2);
    assert_eq!(combined[0].token_id, bytes("EGLD-000000"));
    assert_eq!(combined[1].token_id, bytes("GREEN-0e161c"));
    let single = sovereign_bridge::test_setup::single_token_payment(5);
    assert_eq!(single.len(), 1);
    assert_eq!(single[0].amount, 5);
}

#[test]
fn replacement_keys_and_nonces() {
    let keys = vec![vec![1u8], vec![2u8]];
    assert_eq!(sovereign_bridge::test_setup::replacement_bls_key(0, &keys), Some(vec![1u8]));
    assert_eq!(sovereign_bridge::test_setup::replacement_bls_key(2, &keys), Some(vec![2u8]));
    assert_eq!(sovereign_bridge::test_setup::replacement_bls_key(3, &keys), None);
    let mut nonces = sovereign_bridge::test_setup::OperationNonces { operation_nonce: 0 };
    assert_eq!(nonces.next_operation_nonce(), 0);
    assert_eq!(nonces.next_operation_nonce(), 1);
    assert_eq!(nonces.operation_nonce(), 2);
}

#[test]
fn fee_token_record_round_trip() {
    let t = token("FEE-123456", 0);
    let record = sovereign_bridge::interactor::create_serializable_token(&t, 77);
    assert_eq!(record.token_id, "FEE-123456");
    assert_eq!(record.token_type, 0);
    let mut state = CommonState::new();
    state.set_fee_market_token_for_shard(1, record);
    let back = state.get_fee_market_token_for_shard_converted(1);
    assert_eq!(back.token_id, bytes("FEE-123456"));
    assert_eq!(back.amount, 77);
    assert!(back.token_type == EsdtTokenType::Fungible);
    let empty = sovereign_bridge::interactor::create_empty_balance_state(&vec![token("A-1", 5), token("B-2", 6)]);
    assert!(empty.iter().all(|t| t.amount == 0));
    assert_eq!(empty[1].token_id, bytes("B-2"));
}

#[test]
fn deploy_state_records_per_shard() {
    let mut d = sovereign_bridge::state::DeployState::new();
    d.set_mvx_esdt_safe_contract_address(AddressInfo { address: address("safe0"), chain_id: String::from("c0") });
    d.set_mvx_esdt_safe_contract_address(AddressInfo { address: address("safe1"), chain_id: String::from("c1") });
    d.set_chain_factory_sc_address(address("factory0"));
    d.set_fee_token_id(String::from("FEE-123456"));
    assert_eq!(d.current_mvx_esdt_safe_contract_address(), &address("safe0"));
    assert_eq!(d.get_mvx_esdt_safe_address(1), &address("safe1"));
    assert_eq!(d.current_chain_factory_sc_address(), &address("factory0"));
    assert_eq!(d.get_fee_token_id(), "FEE-123456");
}

#[test]
fn searches_that_cannot_run_are_refused() {
    let decodable = vec![log("deposit", &[], &["ZXJyb3I="])];
    let plain = vec![log("deposit", &[], &["not base64!"])];
    assert_eq!(sovereign_bridge::interactor::try_search_for_error_in_logs(&decodable, &vec![]), None);
    assert_eq!(sovereign_bridge::interactor::try_search_for_error_in_logs(&plain, &vec![]), Some(false));
    assert_eq!(sovereign_bridge::interactor::try_search_for_error_in_logs(&decodable, &bytes("err")), Some(true));
    assert!(sovereign_bridge::interactor::try_assert_expected_log(&decodable, &None, &Some(vec![])).is_none());
    assert!(
        sovereign_bridge::interactor::try_assert_expected_log(&decodable, &None, &Some(bytes("error")))
            == Some(Ok(()))
    );
}

#[test]
fn overdrawn_distribution_changes_nothing() {
    let safe = address("safe");
    let mut market = FeeCommonModule::init(safe.clone(), true, None).ok().expect("fee market");
    market.tokens_for_fees.insert(bytes("SMALL-000001"), ());
    market.accumulated_fees.insert(bytes("SMALL-000001"), 1);
    market.tokens_for_fees.insert(bytes("LARGE-000002"), ());
    market.accumulated_fees.insert(bytes("LARGE-000002"), 10);
    let pairs = vec![
        AddressPercentagePair { address: address("a"), percentage: 6_000 },
        AddressPercentagePair { address: address("b"), percentage: 6_000 },
    ];
    assert!(matches!(market.distribute_token_fees(&pairs), Err(BridgeError::SubtractionUnderflow)));
    assert_eq!(market.accumulated_fees.get(&bytes("SMALL-000001")).copied(), Some(1));
    assert_eq!(market.accumulated_fees.get(&bytes("LARGE-000002")).copied(), Some(10));
}
