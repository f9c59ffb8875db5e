use sovereign_bridge::interactor::{build_bitmap, is_nft, mapped_by_id_only, ActionConfig, EsdtTokenInfo, SerializableFeeMarketToken, State};
use sovereign_bridge::state::CommonState;
use sovereign_bridge::token_issue::{
    mint_count, mint_method, minted_token_kind, MintMethod, plan_token_creation, record_minted_token, MintedTokenKind, TokenCreation,
    ONE_THOUSAND_TOKENS,
};
use sovereign_bridge::fee::{FeeStruct, FeeType};
use sovereign_bridge::types::{EsdtTokenType, Payment};

fn bytes(s: &str) -> Vec<u8> {
    s.as_bytes().to_vec()
}

fn minted(id: &str, token_type: EsdtTokenType, amount: u128) -> EsdtTokenInfo {
    EsdtTokenInfo { token_id: bytes(id), nonce: 1, token_type, decimals: 0, amount }
}

#[test]
fn tickers_name_their_lists() {
    assert_eq!(minted_token_kind(&bytes("MVX")), MintedTokenKind::Fungible);
    assert_eq!(minted_token_kind(&bytes("TRUSTED")), MintedTokenKind::Trusted);
    assert_eq!(minted_token_kind(&bytes("FEE")), MintedTokenKind::Fee);
    assert_eq!(minted_token_kind(&bytes("NFT")), MintedTokenKind::Nft);
    assert_eq!(minted_token_kind(&bytes("SFT")), MintedTokenKind::Sft);
    assert_eq!(minted_token_kind(&bytes("DYN")), MintedTokenKind::DynamicNft);
    assert_eq!(minted_token_kind(&bytes("META")), MintedTokenKind::MetaEsdt);
    assert_eq!(minted_token_kind(&bytes("DYNS")), MintedTokenKind::DynamicSft);
    assert_eq!(minted_token_kind(&bytes("DYNM")), MintedTokenKind::DynamicMetaEsdt);
    assert_eq!(minted_token_kind(&bytes("mvx")), MintedTokenKind::Untracked);
    assert_eq!(minted_token_kind(&bytes("")), MintedTokenKind::Untracked);
}

#[test]
fn trusted_and_fee_tokens_are_minted_once() {
    assert_eq!(mint_count(&bytes("TRUSTED"), 5), 1);
    assert_eq!(mint_count(&bytes("FEE"), 5), 1);
    assert_eq!(mint_count(&bytes("NFT"), 5), 5);
    assert_eq!(mint_count(&bytes("MVX"), 3), 3);
}

#[test]
fn minted_nft_goes_to_its_list_and_the_wallet() {
    let mut state = State::new();
    let mut common = CommonState::new();
    record_minted_token(&mut state, &mut common, &bytes("NFT"), &"NFT-123456".to_string(), minted("NFT-123456", EsdtTokenType::NonFungibleV2, 1));
    assert_eq!(state.nft_tokens.len(), 1);
    assert_eq!(state.nft_tokens[0].token_id, bytes("NFT-123456"));
    assert!(state.fungible_tokens.is_empty());
    assert_eq!(state.initial_wallet_tokens_state.len(), 1);
    assert_eq!(state.initial_wallet_tokens_state[0].amount, 1);
    assert!(common.trusted_token.is_none());
}

#[test]
fn minted_trusted_token_is_remembered_in_common_state() {
    let mut state = State::new();
    let mut common = CommonState::new();
    record_minted_token(&mut state, &mut common, &bytes("TRUSTED"), &"TRUSTED-abcdef".to_string(), minted("TRUSTED-abcdef", EsdtTokenType::Fungible, 1000));
    assert_eq!(common.trusted_token, Some("TRUSTED-abcdef".to_string()));
    assert!(state.trusted_token.is_none());
    assert!(state.fungible_tokens.is_empty());
    assert_eq!(state.initial_wallet_tokens_state.len(), 1);
}

#[test]
fn repeated_mints_add_up_in_the_wallet() {
    let mut state = State::new();
    let mut common = CommonState::new();
    record_minted_token(&mut state, &mut common, &bytes("MVX"), &"MVX-111111".to_string(), minted("MVX-111111", EsdtTokenType::Fungible, 10));
    record_minted_token(&mut state, &mut common, &bytes("MVX"), &"MVX-111111".to_string(), minted("MVX-111111", EsdtTokenType::Fungible, 15));
    assert_eq!(state.fungible_tokens.len(), 2);
    assert_eq!(state.initial_wallet_tokens_state.len(), 1);
    assert_eq!(state.initial_wallet_tokens_state[0].amount, 25);
}

#[test]
fn fee_token_replaces_the_previous_one() {
    let mut state = State::new();
    let mut common = CommonState::new();
    record_minted_token(&mut state, &mut common, &bytes("FEE"), &"FEE-000001".to_string(), minted("FEE-000001", EsdtTokenType::Fungible, 1));
    record_minted_token(&mut state, &mut common, &bytes("FEE"), &"FEE-000002".to_string(), minted("FEE-000002", EsdtTokenType::Fungible, 1));
    assert_eq!(state.fee_token.as_ref().map(|t| t.token_id.clone()), Some(bytes("FEE-000002")));
    assert_eq!(state.initial_wallet_tokens_state.len(), 2);
}

#[test]
fn untracked_ticker_only_reaches_the_wallet() {
    let mut state = State::new();
    let mut common = CommonState::new();
    record_minted_token(&mut state, &mut common, &bytes("OTHER"), &"OTHER-000001".to_string(), minted("OTHER-000001", EsdtTokenType::Fungible, 3));
    assert!(state.fungible_tokens.is_empty() && state.nft_tokens.is_empty() && state.fee_token.is_none());
    assert_eq!(state.initial_wallet_tokens_state.len(), 1);
}

#[test]
fn fungible_token_plan_mints_one_thousand_without_a_name() {
    let common = CommonState::new();
    match plan_token_creation(&common, EsdtTokenType::Fungible, &bytes("MVX"), 18) {
        TokenCreation::Issue(issue, mint) => {
            assert_eq!(issue.token_ticker, bytes("MVX"));
            assert_eq!(issue.token_display_name, bytes("MVX"));
            assert_eq!(issue.num_decimals, 18);
            assert_eq!(mint.amount, ONE_THOUSAND_TOKENS);
            assert_eq!(mint.amount, 1_000_000_000_000_000_000_000u128);
            assert!(mint.name.is_none());
            assert!(mint.attributes.is_none());
        }
        _ => panic!("a fungible token is issued"),
    }
}

#[test]
fn nft_plan_mints_a_single_named_item() {
    let common = CommonState::new();
    match plan_token_creation(&common, EsdtTokenType::NonFungibleV2, &bytes("NFT"), 0) {
        TokenCreation::Issue(_, mint) => {
            assert_eq!(mint.amount, 1);
            assert_eq!(mint.name, Some(bytes("NFT")));
        }
        _ => panic!("a non-fungible token is issued"),
    }
    match plan_token_creation(&common, EsdtTokenType::SemiFungible, &bytes("SFT"), 0) {
        TokenCreation::Issue(_, mint) => assert_eq!(mint.amount, ONE_THOUSAND_TOKENS),
        _ => panic!("a semi-fungible token is issued"),
    }
}

#[test]
fn existing_fee_and_trusted_tokens_are_reused() {
    let mut common = CommonState::new();
    assert!(matches!(plan_token_creation(&common, EsdtTokenType::Fungible, &bytes("FEE"), 18), TokenCreation::Issue(_, _)));
    assert!(matches!(plan_token_creation(&common, EsdtTokenType::Fungible, &bytes("TRUSTED"), 18), TokenCreation::Issue(_, _)));
    common.set_fee_market_token_for_shard(
        0,
        SerializableFeeMarketToken { token_id: "FEE-123456".to_string(), nonce: 0, token_type: 0, decimals: 18, amount: 1 },
    );
    common.set_trusted_token("TRUSTED-123456".to_string());
    assert!(matches!(plan_token_creation(&common, EsdtTokenType::Fungible, &bytes("FEE"), 18), TokenCreation::ReuseFeeToken));
    assert!(matches!(plan_token_creation(&common, EsdtTokenType::Fungible, &bytes("TRUSTED"), 18), TokenCreation::ReuseTrustedToken));
    assert!(matches!(plan_token_creation(&common, EsdtTokenType::Fungible, &bytes("MVX"), 18), TokenCreation::Issue(_, _)));
}

#[test]
fn mint_method_follows_the_token_type() {
    assert_eq!(mint_method(EsdtTokenType::Fungible), Some(MintMethod::LocalMint));
    assert_eq!(mint_method(EsdtTokenType::NonFungibleV2), Some(MintMethod::NftCreate));
    assert_eq!(mint_method(EsdtTokenType::SemiFungible), Some(MintMethod::NftCreate));
    assert_eq!(mint_method(EsdtTokenType::MetaFungible), Some(MintMethod::NftCreate));
    assert_eq!(mint_method(EsdtTokenType::DynamicNFT), Some(MintMethod::NftCreate));
    assert_eq!(mint_method(EsdtTokenType::DynamicSFT), Some(MintMethod::NftCreate));
    assert_eq!(mint_method(EsdtTokenType::DynamicMeta), Some(MintMethod::NftCreate));
    assert_eq!(mint_method(EsdtTokenType::NonFungible), None);
    assert_eq!(mint_method(EsdtTokenType::Invalid), None);
}

#[test]
fn fungible_and_failing_nft_deposits_map_by_identifier_alone() {
    let plain = ActionConfig::new();
    let failing = ActionConfig::new().expected_log_error("deposit refused".to_string());
    let fungible = minted("MVX-111111", EsdtTokenType::Fungible, 1);
    let nft = minted("NFT-123456", EsdtTokenType::NonFungibleV2, 1);
    let sft = minted("SFT-123456", EsdtTokenType::SemiFungible, 1);
    assert!(is_nft(&nft) && !is_nft(&sft) && !is_nft(&fungible));
    assert!(mapped_by_id_only(&plain, &fungible));
    assert!(!mapped_by_id_only(&plain, &nft));
    assert!(mapped_by_id_only(&failing, &nft));
    assert!(!mapped_by_id_only(&failing, &sft));
}

#[test]
fn interactor_bitmap_sets_the_first_signers() {
    assert_eq!(build_bitmap(1), vec![0b0000_0001]);
    assert_eq!(build_bitmap(8), vec![0xff]);
    assert_eq!(build_bitmap(10), vec![0xff, 0b0000_0011]);
}

fn fee_token(amount: u64) -> SerializableFeeMarketToken {
    SerializableFeeMarketToken { token_id: "FEE-123456".to_string(), nonce: 0, token_type: 0, decimals: 18, amount }
}

fn payment(amount: u128) -> Payment {
    Payment { token_id: bytes("FEE-123456"), nonce: 0, amount }
}

#[test]
fn deposit_fee_is_booked_in_the_fee_market() {
    let mut common = CommonState::new();
    common.set_fee_market_token_for_shard(1, fee_token(100));
    let fee = Some(FeeStruct { base_token: bytes("FEE-123456"), fee_type: FeeType::NoFee });
    common.update_fee_market_balance_state(&fee, &vec![payment(25), payment(1000)], 1);
    assert_eq!(common.get_fee_market_token_amount_for_shard(1), 125);
    common.update_fee_market_balance_state(&None, &vec![payment(25)], 1);
    assert_eq!(common.get_fee_market_token_amount_for_shard(1), 125);
    common.update_fee_market_balance_state(&fee, &vec![], 1);
    assert_eq!(common.get_fee_market_token_amount_for_shard(1), 125);
    common.update_fee_market_balance_state(&fee, &vec![payment(u64::MAX as u128 + 1)], 1);
    assert_eq!(common.get_fee_market_token_amount_for_shard(1), 125);
}
