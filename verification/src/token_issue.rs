//! How the interactor issues its test tokens: what it issues and mints for a
//! ticker, how often it mints, and where it files each minted token.

use vstd::prelude::*;
use crate::bytes::{bytes_eq, copy_bytes, str_bytes};
use crate::interactor::{after_wallet_add, token_position, tokens_view, EsdtTokenInfo, State};
use crate::logs::ascii_bytes;
use crate::state::CommonState;
use crate::types::{Amount, EsdtTokenType};

verus! {

/// What the interactor mints of a fungible or semi-fungible test token:
/// one thousand tokens of eighteen decimals.
pub const ONE_THOUSAND_TOKENS: u128 = 1_000_000_000_000_000_000_000u128;

/// Whether `ticker` spells the ASCII text `lit`.
fn ticker_is(ticker: &Vec<u8>, lit: &str) -> (r: bool)
    requires
        lit.is_ascii(),
    ensures
        r == (ticker@ == ascii_bytes(lit@)),
{
    let expected = str_bytes(lit);
    assert(expected@ =~= ascii_bytes(lit@));
    bytes_eq(ticker, &expected)
}

/// Where the interactor files a token it has just minted.
#[derive(PartialEq, Eq, Structural, Clone, Copy, Debug)]
pub enum MintedTokenKind {
    Fungible,
    Trusted,
    Fee,
    Nft,
    Sft,
    DynamicNft,
    MetaEsdt,
    DynamicSft,
    DynamicMetaEsdt,
    Untracked,
}

/// The kind of a minted token, by the ticker it was issued under.
pub open spec fn spec_minted_kind(ticker: Seq<u8>) -> MintedTokenKind {
    if ticker == ascii_bytes("MVX"@) {
        MintedTokenKind::Fungible
    } else if ticker == ascii_bytes("TRUSTED"@) {
        MintedTokenKind::Trusted
    } else if ticker == ascii_bytes("FEE"@) {
        MintedTokenKind::Fee
    } else if ticker == ascii_bytes("NFT"@) {
        MintedTokenKind::Nft
    } else if ticker == ascii_bytes("SFT"@) {
        MintedTokenKind::Sft
    } else if ticker == ascii_bytes("DYN"@) {
        MintedTokenKind::DynamicNft
    } else if ticker == ascii_bytes("META"@) {
        MintedTokenKind::MetaEsdt
    } else if ticker == ascii_bytes("DYNS"@) {
        MintedTokenKind::DynamicSft
    } else if ticker == ascii_bytes("DYNM"@) {
        MintedTokenKind::DynamicMetaEsdt
    } else {
        MintedTokenKind::Untracked
    }
}

/// The kind of a minted token, by the ticker it was issued under.
pub fn minted_token_kind(ticker: &Vec<u8>) -> (r: MintedTokenKind)
    ensures
        r == spec_minted_kind(ticker@),
{
    proof {
        reveal_strlit("MVX");
        reveal_strlit("TRUSTED");
        reveal_strlit("FEE");
        reveal_strlit("NFT");
        reveal_strlit("SFT");
        reveal_strlit("DYN");
        reveal_strlit("META");
        reveal_strlit("DYNS");
        reveal_strlit("DYNM");
    }
    if ticker_is(ticker, "MVX") {
        MintedTokenKind::Fungible
    } else if ticker_is(ticker, "TRUSTED") {
        MintedTokenKind::Trusted
    } else if ticker_is(ticker, "FEE") {
        MintedTokenKind::Fee
    } else if ticker_is(ticker, "NFT") {
        MintedTokenKind::Nft
    } else if ticker_is(ticker, "SFT") {
        MintedTokenKind::Sft
    } else if ticker_is(ticker, "DYN") {
        MintedTokenKind::DynamicNft
    } else if ticker_is(ticker, "META") {
        MintedTokenKind::MetaEsdt
    } else if ticker_is(ticker, "DYNS") {
        MintedTokenKind::DynamicSft
    } else if ticker_is(ticker, "DYNM") {
        MintedTokenKind::DynamicMetaEsdt
    } else {
        MintedTokenKind::Untracked
    }
}

/// How many times a token is minted after its issue: once for the trusted
/// and the fee token, `regular` times for any other.
pub fn mint_count(ticker: &Vec<u8>, regular: u64) -> (r: u64)
    ensures
        r == (if ticker@ == ascii_bytes("TRUSTED"@) || ticker@ == ascii_bytes("FEE"@) { 1 } else { regular }),
{
    proof {
        reveal_strlit("TRUSTED");
        reveal_strlit("FEE");
    }
    if ticker_is(ticker, "TRUSTED") || ticker_is(ticker, "FEE") {
        1
    } else {
        regular
    }
}

/// Files a freshly minted token under the list its ticker names and adds it
/// to the wallet's starting tokens. The trusted token is remembered in the
/// common state by its identifier `token_id`.
pub fn record_minted_token(
    state: &mut State,
    common: &mut CommonState,
    ticker: &Vec<u8>,
    token_id: &String,
    token: EsdtTokenInfo,
)
    requires
        token_position(tokens_view(old(state).initial_wallet_tokens_state@), token.token_id@, token.nonce) matches Some(i)
            ==> old(state).initial_wallet_tokens_state@[i].amount + token.amount <= u128::MAX,
    ensures
        tokens_view(final(state).initial_wallet_tokens_state@)
            == after_wallet_add(tokens_view(old(state).initial_wallet_tokens_state@), token@),
        final(state).fungible_tokens@ == (if spec_minted_kind(ticker@) is Fungible {
            old(state).fungible_tokens@.push(token)
        } else {
            old(state).fungible_tokens@
        }),
        final(state).fee_token == (if spec_minted_kind(ticker@) is Fee { Some(token) } else { old(state).fee_token }),
        final(state).nft_tokens@ == (if spec_minted_kind(ticker@) is Nft {
            old(state).nft_tokens@.push(token)
        } else {
            old(state).nft_tokens@
        }),
        final(state).sft_tokens@ == (if spec_minted_kind(ticker@) is Sft {
            old(state).sft_tokens@.push(token)
        } else {
            old(state).sft_tokens@
        }),
        final(state).dynamic_nft_tokens@ == (if spec_minted_kind(ticker@) is DynamicNft {
            old(state).dynamic_nft_tokens@.push(token)
        } else {
            old(state).dynamic_nft_tokens@
        }),
        final(state).meta_esdt_tokens@ == (if spec_minted_kind(ticker@) is MetaEsdt {
            old(state).meta_esdt_tokens@.push(token)
        } else {
            old(state).meta_esdt_tokens@
        }),
        final(state).dynamic_sft_tokens@ == (if spec_minted_kind(ticker@) is DynamicSft {
            old(state).dynamic_sft_tokens@.push(token)
        } else {
            old(state).dynamic_sft_tokens@
        }),
        final(state).dynamic_meta_esdt_tokens@ == (if spec_minted_kind(ticker@) is DynamicMetaEsdt {
            old(state).dynamic_meta_esdt_tokens@.push(token)
        } else {
            old(state).dynamic_meta_esdt_tokens@
        }),
        final(state).trusted_token == old(state).trusted_token,
        spec_minted_kind(ticker@) is Trusted
            ==> *final(common) == (CommonState { trusted_token: Some(*token_id), ..*old(common) }),
        spec_minted_kind(ticker@) !is Trusted ==> *final(common) == *old(common),
{
    let copy = token.duplicate();
    match minted_token_kind(ticker) {
        MintedTokenKind::Fungible => state.add_fungible_token(token),
        MintedTokenKind::Trusted => common.set_trusted_token(token_id.clone()),
        MintedTokenKind::Fee => state.set_fee_token(token),
        MintedTokenKind::Nft => state.add_nft_token(token),
        MintedTokenKind::Sft => state.add_sft_token(token),
        MintedTokenKind::DynamicNft => state.add_dynamic_nft_token(token),
        MintedTokenKind::MetaEsdt => state.add_meta_esdt_token(token),
        MintedTokenKind::DynamicSft => state.add_dynamic_sft_token(token),
        MintedTokenKind::DynamicMetaEsdt => state.add_dynamic_meta_esdt_token(token),
        MintedTokenKind::Untracked => {},
    }
    state.update_or_add_initial_wallet_token(copy);
}

/// How an issued token is minted.
#[derive(PartialEq, Eq, Structural, Clone, Copy, Debug)]
pub enum MintMethod {
    /// A local mint of a fungible token; the minted nonce is 0.
    LocalMint,
    /// The creation of a new item of a non-fungible, semi-fungible or meta
    /// token; the call returns the new item's nonce.
    NftCreate,
}

/// How a token of `token_type` is minted, or `None` for the types the
/// interactor cannot mint (the first version of non-fungible tokens, and
/// invalid tokens).
pub fn mint_method(token_type: EsdtTokenType) -> (r: Option<MintMethod>)
    ensures
        token_type is Fungible ==> r == Some(MintMethod::LocalMint),
        token_type is NonFungibleV2 || token_type is SemiFungible || token_type is DynamicNFT
            || token_type is DynamicMeta || token_type is DynamicSFT || token_type is MetaFungible
            ==> r == Some(MintMethod::NftCreate),
        token_type is NonFungible || token_type is Invalid ==> r is None,
{
    match token_type {
        EsdtTokenType::Fungible => Some(MintMethod::LocalMint),
        EsdtTokenType::NonFungibleV2
        | EsdtTokenType::SemiFungible
        | EsdtTokenType::DynamicNFT
        | EsdtTokenType::DynamicMeta
        | EsdtTokenType::DynamicSFT
        | EsdtTokenType::MetaFungible => Some(MintMethod::NftCreate),
        _ => None,
    }
}

/// A token to issue: its name, ticker, type and decimals.
pub struct IssueTokenStruct {
    pub token_display_name: Vec<u8>,
    pub token_ticker: Vec<u8>,
    pub token_type: EsdtTokenType,
    pub num_decimals: usize,
}

/// How to mint an issued token: the name of the minted item (none for a
/// fungible token), the amount, and its attributes.
pub struct MintTokenStruct {
    pub name: Option<Vec<u8>>,
    pub amount: Amount,
    pub attributes: Option<Vec<u8>>,
}

/// How the interactor comes by a test token.
pub enum TokenCreation {
    /// The fee market already holds tokens: the wallet's current fee token is used.
    ReuseFeeToken,
    /// A trusted token exists: the wallet's current trusted token is used.
    ReuseTrustedToken,
    /// A new token is issued and minted.
    Issue(IssueTokenStruct, MintTokenStruct),
}

/// What minting a new token of `token_type` under `ticker` asks for: a single
/// item of a non-fungible token, one thousand tokens otherwise; an item name
/// only for tokens that are not fungible.
pub open spec fn planned_issue(issue: IssueTokenStruct, mint: MintTokenStruct, token_type: EsdtTokenType, ticker: Seq<u8>, decimals: usize) -> bool {
    &&& issue.token_display_name@ == ticker
    &&& issue.token_ticker@ == ticker
    &&& issue.token_type == token_type
    &&& issue.num_decimals == decimals
    &&& mint.amount == (if token_type is NonFungibleV2 || token_type is DynamicNFT { 1 } else { ONE_THOUSAND_TOKENS })
    &&& (token_type is Fungible ==> mint.name is None)
    &&& (token_type !is Fungible ==> (mint.name matches Some(n) && n@ == ticker))
    &&& mint.attributes is None
}

/// Decides how to come by a token of `token_type` under `ticker`: the fee
/// token is reused once the fee market holds tokens, the trusted token once
/// one exists; any other token is issued and minted.
pub fn plan_token_creation(common: &CommonState, token_type: EsdtTokenType, ticker: &Vec<u8>, decimals: usize) -> (r: TokenCreation)
    requires
        common.wf(),
    ensures
        ticker@ == ascii_bytes("FEE"@) && common.fee_market_tokens@.len() > 0 ==> r is ReuseFeeToken,
        !(ticker@ == ascii_bytes("FEE"@) && common.fee_market_tokens@.len() > 0)
            && ticker@ == ascii_bytes("TRUSTED"@) && common.trusted_token is Some ==> r is ReuseTrustedToken,
        !(ticker@ == ascii_bytes("FEE"@) && common.fee_market_tokens@.len() > 0)
            && !(ticker@ == ascii_bytes("TRUSTED"@) && common.trusted_token is Some)
            ==> (r matches TokenCreation::Issue(issue, mint) && planned_issue(issue, mint, token_type, ticker@, decimals)),
{
    proof {
        reveal_strlit("FEE");
        reveal_strlit("TRUSTED");
    }
    if ticker_is(ticker, "FEE") && common.fee_market_tokens.len() > 0 {
        return TokenCreation::ReuseFeeToken;
    }
    if ticker_is(ticker, "TRUSTED") && common.trusted_token.is_some() {
        return TokenCreation::ReuseTrustedToken;
    }
    let amount: Amount = match token_type {
        EsdtTokenType::NonFungibleV2 | EsdtTokenType::DynamicNFT => 1,
        _ => ONE_THOUSAND_TOKENS,
    };
    let name = match token_type {
        EsdtTokenType::Fungible => None,
        _ => Some(copy_bytes(ticker)),
    };
    let issue = IssueTokenStruct {
        token_display_name: copy_bytes(ticker),
        token_ticker: copy_bytes(ticker),
        token_type,
        num_decimals: decimals,
    };
    TokenCreation::Issue(issue, MintTokenStruct { name, amount, attributes: None })
}

} // verus!
