use vstd::prelude::*;
use crate::bytes::{bytes_eq, copy_bytes};
use crate::cross_chain::{spec_is_nft, spec_is_sft_or_meta};
use crate::fee::{FeeStruct, FeeType, FeeTypeView};
use crate::token::{dash, dash_count, egld_id, is_egld};
use crate::types::{Amount, EsdtTokenType, Payment, PaymentView, payments_view};
use crate::state::CommonState;
use crate::test_setup::{bitmap_bit, from_utf8_lossy, full_bitmap, utf8_lossy};
use vstd::string::StringSliceAdditionalSpecFns;
use crate::chain_factory::{random_index_below, ScArray};
use crate::bytes::str_bytes;
use crate::logs::ascii_bytes;
use crate::common_utils::opt_view;
use crate::logs::{base64_decode, base64_decoded, contains_window, has_window, Log, LogCheckError};

verus! {

/// The shard whose logs come first when an action expects two logs.
pub const SHARD_1: u32 = 1;
/// Gas limit of the contract calls that test deposits carry.
pub const GAS_LIMIT: u64 = 90_000_000;
/// Fee per transfer in the standard test fee.
pub const PER_TRANSFER: u64 = 100;
/// Fee per gas unit in the standard test fee.
pub const PER_GAS: u64 = 1;

/// What an interactor action expects: the shard it runs on, the error it
/// should fail with, the logs it should emit, and an optional contract call.
pub struct ActionConfig {
    pub shard: u32,
    pub expected_error: Option<String>,
    pub expected_log: Option<Vec<String>>,
    pub expected_log_error: Option<String>,
    pub with_transfer_data: Option<bool>,
    pub endpoint: Option<String>,
}

impl ActionConfig {
    /// An action on shard 0 that expects nothing in particular.
    pub fn new() -> (r: ActionConfig)
        ensures
            r.shard == 0,
            r.expected_error is None,
            r.expected_log is None,
            r.expected_log_error is None,
            r.with_transfer_data is None,
            r.endpoint is None,
    {
        ActionConfig {
            shard: 0,
            expected_error: None,
            expected_log: None,
            expected_log_error: None,
            with_transfer_data: None,
            endpoint: None,
        }
    }

    pub fn shard(self, shard: u32) -> (r: ActionConfig)
        ensures
            r == (ActionConfig { shard, ..self }),
    {
        ActionConfig { shard, ..self }
    }

    pub fn expect_error(self, error: String) -> (r: ActionConfig)
        ensures
            r == (ActionConfig { expected_error: Some(error), ..self }),
    {
        ActionConfig { expected_error: Some(error), ..self }
    }

    pub fn expect_log(self, log: Vec<String>) -> (r: ActionConfig)
        ensures
            r == (ActionConfig { expected_log: Some(log), ..self }),
    {
        ActionConfig { expected_log: Some(log), ..self }
    }

    /// Adds a contract call to `endpoint`; the action then carries transfer data.
    pub fn with_endpoint(self, endpoint: String) -> (r: ActionConfig)
        ensures
            r == (ActionConfig { endpoint: Some(endpoint), with_transfer_data: Some(true), ..self }),
    {
        ActionConfig { endpoint: Some(endpoint), with_transfer_data: Some(true), ..self }
    }

    pub fn expected_log_error(self, value: String) -> (r: ActionConfig)
        ensures
            r == (ActionConfig { expected_log_error: Some(value), ..self }),
    {
        ActionConfig { expected_log_error: Some(value), ..self }
    }
}

/// The log an action checks: the only one expected, or, of two, the first on
/// shard 1 and the second elsewhere.
pub fn extract_log_based_on_shard(config: &ActionConfig) -> (r: Option<String>)
    ensures
        match config.expected_log {
            Some(logs) => if logs@.len() == 1 {
                r matches Some(l) && l@ == logs@[0]@
            } else if logs@.len() > 1 {
                r matches Some(l) && l@ == (if config.shard == SHARD_1 { logs@[0]@ } else { logs@[1]@ })
            } else {
                r is None
            },
            None => r is None,
        },
{
    match &config.expected_log {
        Some(logs) => {
            if logs.len() == 1 {
                Some(logs[0].clone())
            } else if logs.len() > 1 {
                if config.shard == SHARD_1 {
                    Some(logs[0].clone())
                } else {
                    Some(logs[1].clone())
                }
            } else {
                None
            }
        },
        None => None,
    }
}

/// A fee-market token as the interactor's state file records it.
pub struct SerializableFeeMarketToken {
    pub token_id: String,
    pub nonce: u64,
    pub token_type: u8,
    pub decimals: usize,
    pub amount: u64,
}

impl SerializableFeeMarketToken {
    /// A copy of the record.
    pub fn duplicate(&self) -> (r: SerializableFeeMarketToken)
        ensures
            r == *self,
    {
        SerializableFeeMarketToken {
            token_id: self.token_id.clone(),
            nonce: self.nonce,
            token_type: self.token_type,
            decimals: self.decimals,
            amount: self.amount,
        }
    }
}

/// A token that the interactor tracks.
pub struct EsdtTokenInfo {
    pub token_id: Vec<u8>,
    pub nonce: u64,
    pub token_type: EsdtTokenType,
    pub decimals: usize,
    pub amount: Amount,
}

/// Mathematical value of an [`EsdtTokenInfo`].
pub struct EsdtTokenInfoView {
    pub token_id: Seq<u8>,
    pub nonce: u64,
    pub token_type: EsdtTokenType,
    pub decimals: usize,
    pub amount: Amount,
}

impl View for EsdtTokenInfo {
    type V = EsdtTokenInfoView;

    open spec fn view(&self) -> EsdtTokenInfoView {
        EsdtTokenInfoView {
            token_id: self.token_id@,
            nonce: self.nonce,
            token_type: self.token_type,
            decimals: self.decimals,
            amount: self.amount,
        }
    }
}

pub open spec fn tokens_view(s: Seq<EsdtTokenInfo>) -> Seq<EsdtTokenInfoView> {
    s.map_values(|t: EsdtTokenInfo| t@)
}

impl EsdtTokenInfo {
    /// The same token with another amount.
    pub fn with_amount(&self, amount: Amount) -> (r: EsdtTokenInfo)
        ensures
            r@ == (EsdtTokenInfoView { amount, ..self@ }),
    {
        EsdtTokenInfo {
            token_id: copy_bytes(&self.token_id),
            nonce: self.nonce,
            token_type: self.token_type,
            decimals: self.decimals,
            amount,
        }
    }
}

/// What to check after a bridge action: the token moved, its amount, the fee
/// paid, and how the action went.
pub struct BalanceCheckConfig {
    pub shard: u32,
    pub token: Option<EsdtTokenInfo>,
    pub amount: Option<Amount>,
    pub fee: Option<FeeStruct>,
    pub with_transfer_data: bool,
    pub is_execute: bool,
    pub expected_error: Option<String>,
}

impl BalanceCheckConfig {
    /// A check on shard 0 of a deposit that moves nothing.
    pub fn new() -> (r: BalanceCheckConfig)
        ensures
            r.shard == 0,
            r.token is None,
            r.amount is None,
            r.fee is None,
            !r.with_transfer_data,
            !r.is_execute,
            r.expected_error is None,
    {
        BalanceCheckConfig {
            shard: 0,
            token: None,
            amount: None,
            fee: None,
            with_transfer_data: false,
            is_execute: false,
            expected_error: None,
        }
    }

    pub fn shard(self, shard: u32) -> (r: BalanceCheckConfig)
        ensures
            r == (BalanceCheckConfig { shard, ..self }),
    {
        BalanceCheckConfig { shard, ..self }
    }

    pub fn token(self, token: Option<EsdtTokenInfo>) -> (r: BalanceCheckConfig)
        ensures
            r == (BalanceCheckConfig { token, ..self }),
    {
        BalanceCheckConfig { token, ..self }
    }

    pub fn amount(self, amount: Amount) -> (r: BalanceCheckConfig)
        ensures
            r == (BalanceCheckConfig { amount: Some(amount), ..self }),
    {
        BalanceCheckConfig { amount: Some(amount), ..self }
    }

    pub fn fee(self, fee: FeeStruct) -> (r: BalanceCheckConfig)
        ensures
            r == (BalanceCheckConfig { fee: Some(fee), ..self }),
    {
        BalanceCheckConfig { fee: Some(fee), ..self }
    }

    pub fn with_transfer_data(self, value: bool) -> (r: BalanceCheckConfig)
        ensures
            r == (BalanceCheckConfig { with_transfer_data: value, ..self }),
    {
        BalanceCheckConfig { with_transfer_data: value, ..self }
    }

    pub fn is_execute(self, value: bool) -> (r: BalanceCheckConfig)
        ensures
            r == (BalanceCheckConfig { is_execute: value, ..self }),
    {
        BalanceCheckConfig { is_execute: value, ..self }
    }

    pub fn expected_error(self, value: Option<String>) -> (r: BalanceCheckConfig)
        ensures
            r == (BalanceCheckConfig { expected_error: value, ..self }),
    {
        BalanceCheckConfig { expected_error: value, ..self }
    }
}

/// The fee a test deposit pays: per transfer when a token moves, per gas unit
/// of [`GAS_LIMIT`] when a call travels, both when both happen.
pub open spec fn expected_fee(fee: FeeTypeView, with_transfer_data: bool, has_token: bool) -> int {
    match fee {
        FeeTypeView::Fixed { per_transfer, per_gas, .. } => if with_transfer_data && has_token {
            per_transfer + per_gas * GAS_LIMIT
        } else if with_transfer_data {
            per_gas * GAS_LIMIT
        } else {
            per_transfer as int
        },
        FeeTypeView::NoFee => 0,
    }
}

pub fn calculate_fee_amount(fee: &FeeStruct, with_transfer_data: bool, has_token: bool) -> (r: Amount)
    requires
        expected_fee(fee.fee_type@, true, true) <= u128::MAX,
    ensures
        r == expected_fee(fee.fee_type@, with_transfer_data, has_token),
{
    match &fee.fee_type {
        FeeType::Fixed { per_transfer, per_gas, .. } => {
            if with_transfer_data && has_token {
                *per_transfer + *per_gas * (GAS_LIMIT as u128)
            } else if with_transfer_data {
                *per_gas * (GAS_LIMIT as u128)
            } else {
                *per_transfer
            }
        },
        FeeType::NoFee => 0,
    }
}

/// `a - b`, or zero when `b` is not smaller.
pub fn safe_subtract(a: Amount, b: Amount) -> (r: Amount)
    ensures
        r == if a > b { a - b } else { 0 },
{
    if a > b {
        a - b
    } else {
        0
    }
}

/// Decimals of the test tokens of each supported type.
pub open spec fn token_decimals(t: EsdtTokenType) -> usize {
    match t {
        EsdtTokenType::Fungible | EsdtTokenType::MetaFungible | EsdtTokenType::DynamicMeta => 18,
        _ => 0,
    }
}

/// The types of token the tests issue.
pub open spec fn supported_test_type(t: EsdtTokenType) -> bool {
    t != EsdtTokenType::Invalid
}

pub fn get_token_decimals(token_type: EsdtTokenType) -> (r: usize)
    requires
        supported_test_type(token_type),
    ensures
        r == token_decimals(token_type),
{
    match token_type {
        EsdtTokenType::Fungible | EsdtTokenType::MetaFungible | EsdtTokenType::DynamicMeta => 18,
        _ => 0,
    }
}

/// Nonce and decimals of a freshly issued test token: fungible tokens have
/// nonce 0, the others nonce 10.
pub fn generate_nonce_and_decimals(token_type: EsdtTokenType) -> (r: (u64, usize))
    requires
        supported_test_type(token_type),
    ensures
        r.0 == (if token_type == EsdtTokenType::Fungible { 0u64 } else { 10u64 }),
        r.1 == token_decimals(token_type),
{
    match token_type {
        EsdtTokenType::Fungible => (0, 18),
        EsdtTokenType::MetaFungible | EsdtTokenType::DynamicMeta => (10, 18),
        _ => (10, 0),
    }
}

/// A token minted by a sovereign chain carries two dashes (prefix, ticker, suffix).
pub fn is_sovereign_token(token_id: &Vec<u8>) -> (r: bool)
    ensures
        r == (dash_count(token_id@) == 2),
{
    let mut count: usize = 0;
    let mut i: usize = 0;
    while i < token_id.len()
        invariant
            i <= token_id.len(),
            count == dash_count(token_id@.subrange(0, i as int)),
            count <= i,
        decreases token_id.len() - i,
    {
        assert(token_id@.subrange(0, i + 1).drop_last() =~= token_id@.subrange(0, i as int));
        if token_id[i] == 45u8 {
            count = count + 1;
        }
        i = i + 1;
    }
    assert(token_id@.subrange(0, token_id.len() as int) =~= token_id@);
    count == 2
}

/// Whether a token identifier's first part (before the first dash) is `SOV`.
pub open spec fn spec_is_sov_mapped(id: Seq<u8>) -> bool {
    id.len() >= 3 && id[0] == 83 && id[1] == 79 && id[2] == 86 && (id.len() == 3 || id[3] == dash())
}

/// The bitmap with which the interactor signs for `num_signers` validators
/// (one at least): as many bytes as eight bits per byte need, and exactly the
/// first `num_signers` bits set.
pub fn build_bitmap(num_signers: usize) -> (r: Vec<u8>)
    requires
        num_signers > 0,
    ensures
        r.len() == (num_signers + 7) / 8,
        forall|i: int| 0 <= i < 8 * r.len() ==> #[trigger] bitmap_bit(r@, i) == (i < num_signers),
{
    full_bitmap(num_signers as u64)
}

/// Whether the token is non-fungible (any version).
pub fn is_nft(token: &EsdtTokenInfo) -> (r: bool)
    ensures
        r == spec_is_nft(token.token_type),
{
    match token.token_type {
        EsdtTokenType::NonFungibleV2 | EsdtTokenType::DynamicNFT | EsdtTokenType::NonFungible => true,
        _ => false,
    }
}

/// Whether the token a deposit of `token` maps to is looked up by its
/// identifier alone (keeping the deposited nonce): for a fungible token, and
/// for a non-fungible one when the action is expected to fail; otherwise the
/// lookup goes by identifier and nonce.
pub fn mapped_by_id_only(config: &ActionConfig, token: &EsdtTokenInfo) -> (r: bool)
    ensures
        r == (token.token_type == EsdtTokenType::Fungible
            || (spec_is_nft(token.token_type) && config.expected_log_error is Some)),
{
    token.token_type == EsdtTokenType::Fungible || (is_nft(token) && config.expected_log_error.is_some())
}

pub fn is_sov_mapped_token(id: &Vec<u8>) -> (r: bool)
    ensures
        r == spec_is_sov_mapped(id@),
{
    id.len() >= 3 && id[0] == 83u8 && id[1] == 79u8 && id[2] == 86u8 && (id.len() == 3 || id[3] == 45u8)
}

/// The amount of the first recorded token with identifier `id`, or zero.
pub open spec fn initial_balance(tokens: Seq<EsdtTokenInfoView>, id: Seq<u8>) -> Amount
    decreases tokens.len(),
{
    if tokens.len() == 0 {
        0
    } else if tokens[0].token_id == id {
        tokens[0].amount
    } else {
        initial_balance(tokens.drop_first(), id)
    }
}

pub fn get_initial_wallet_token_balance(tokens: &Vec<EsdtTokenInfo>, id: &Vec<u8>) -> (r: Amount)
    ensures
        r == initial_balance(tokens_view(tokens@), id@),
{
    let ghost tv = tokens_view(tokens@);
    let mut i: usize = 0;
    assert(tv.skip(0) =~= tv);
    while i < tokens.len()
        invariant
            i <= tokens.len(),
            tv == tokens_view(tokens@),
            initial_balance(tv, id@) == initial_balance(tv.skip(i as int), id@),
        decreases tokens.len() - i,
    {
        assert(tv.skip(i as int)[0] == tokens@[i as int]@);
        if bytes_eq(&tokens[i].token_id, id) {
            return tokens[i].amount;
        }
        assert(tv.skip(i as int).drop_first() =~= tv.skip(i + 1));
        i = i + 1;
    }
    0
}

/// The balances to check after a bridge action, and the interactor state to
/// update. `user_tokens` is `None` when the user's wallet must be as it started;
/// an empty `mvx_tokens` or `testing_tokens` list means that the contract must
/// hold none of the tokens the wallet started with; an empty `fee_market_tokens`
/// means the fee market must hold what it held before.
pub struct BalanceCheckPlan {
    pub user_tokens: Option<Vec<EsdtTokenInfo>>,
    pub mvx_egld: Option<u64>,
    pub mvx_tokens: Vec<EsdtTokenInfo>,
    pub fee_market_tokens: Vec<EsdtTokenInfo>,
    pub testing_egld: Option<u64>,
    pub testing_tokens: Vec<EsdtTokenInfo>,
}

pub open spec fn fee_of(config: BalanceCheckConfig) -> int {
    match config.fee {
        Some(f) => expected_fee(f.fee_type@, config.with_transfer_data, config.token is Some),
        None => 0,
    }
}

pub open spec fn is_egld_token(config: BalanceCheckConfig) -> bool {
    config.token matches Some(t) && t.token_id@ == egld_id()
}

/// What the check needs to run without failing: the amounts it reads fit their
/// types and the state it reads is there.
pub open spec fn balance_check_inputs_ok(
    config: BalanceCheckConfig,
    fee_token: Option<EsdtTokenInfo>,
    mvx_egld_balance: u64,
    fee_market_amount: u64,
    testing_egld_balance: u64,
) -> bool {
    &&& (config.fee matches Some(f) ==> expected_fee(f.fee_type@, true, true) <= u128::MAX)
    &&& (fee_of(config) > 0 ==> fee_token is Some && fee_market_amount + fee_of(config) <= u128::MAX)
    &&& (is_egld_token(config) ==> (config.amount matches Some(a) && a <= u64::MAX && (if config.is_execute {
        mvx_egld_balance >= a
    } else {
        mvx_egld_balance + a <= u64::MAX
    })))
    &&& (is_egld_token(config) && config.is_execute && config.with_transfer_data && config.expected_error is None
        ==> testing_egld_balance + config.amount->0 <= u64::MAX)
}

/// Computes the balances that a bridge action should leave behind.
/// `initial_wallet_tokens` is what the user's wallet held at the start,
/// `fee_token` the test fee token, and the three numbers the interactor's
/// record of the shard's ESDT-Safe EGLD, its fee market's fee token and the
/// testing contract's EGLD.
pub fn check_balances_after_action(
    config: &BalanceCheckConfig,
    initial_wallet_tokens: &Vec<EsdtTokenInfo>,
    fee_token: &Option<EsdtTokenInfo>,
    mvx_egld_balance: u64,
    fee_market_amount: u64,
    testing_egld_balance: u64,
) -> (r: BalanceCheckPlan)
    requires
        balance_check_inputs_ok(*config, *fee_token, mvx_egld_balance, fee_market_amount, testing_egld_balance),
    ensures
        ({
            let fee = fee_of(*config);
            let is_egld = is_egld_token(*config);
            let sov = config.token matches Some(t) && spec_is_sov_mapped(t.token_id@);
            let wallet = tokens_view(initial_wallet_tokens@);
            // the user's wallet
            let token_part: Seq<EsdtTokenInfoView> = match (config.token, config.amount) {
                (Some(t), Some(a)) => {
                    let initial = initial_balance(wallet, t.token_id@);
                    let back = config.is_execute && !config.with_transfer_data;
                    let rest = if back && sov { a } else if back { initial } else if initial > a { (initial - a) as u128 } else { 0u128 };
                    seq![EsdtTokenInfoView { amount: rest, ..t@ }]
                },
                _ => Seq::empty(),
            };
            let fee_part: Seq<EsdtTokenInfoView> = if config.fee is Some && fee > 0 {
                let ft = fee_token->0@;
                seq![EsdtTokenInfoView { amount: if ft.amount > fee { (ft.amount - fee) as u128 } else { 0u128 }, ..ft }]
            } else {
                Seq::empty()
            };
            let user = token_part + fee_part;
            &&& (user.len() == 0 || config.expected_error is Some) ==> r.user_tokens is None
            &&& (user.len() != 0 && config.expected_error is None) ==> (r.user_tokens matches Some(u) && tokens_view(u@) == user)
            // the ESDT-Safe
            &&& is_egld ==> r.mvx_egld == Some((if config.is_execute {
                mvx_egld_balance - config.amount->0
            } else {
                mvx_egld_balance + config.amount->0
            }) as u64)
            &&& !is_egld ==> r.mvx_egld is None && tokens_view(r.mvx_tokens@) == match (config.token, config.amount) {
                (Some(t), Some(a)) => if sov {
                    if spec_is_sft_or_meta(t.token_type) { seq![EsdtTokenInfoView { amount: 1, ..t@ }] } else { Seq::empty() }
                } else if !config.is_execute {
                    seq![EsdtTokenInfoView { amount: a, ..t@ }]
                } else {
                    Seq::empty()
                },
                _ => Seq::empty(),
            }
            // the fee market
            &&& tokens_view(r.fee_market_tokens@) == if fee > 0 {
                seq![EsdtTokenInfoView { amount: (fee_market_amount + fee) as u128, ..fee_token->0@ }]
            } else {
                Seq::empty()
            }
            // the testing contract
            &&& if is_egld && config.is_execute && config.with_transfer_data && config.expected_error is None {
                r.testing_egld == Some((testing_egld_balance + config.amount->0) as u64)
            } else {
                r.testing_egld is None && tokens_view(r.testing_tokens@) == match (config.token, config.amount) {
                    (Some(t), Some(a)) => if config.is_execute && config.with_transfer_data && config.expected_error is None {
                        seq![EsdtTokenInfoView { amount: a, ..t@ }]
                    } else {
                        Seq::empty()
                    },
                    _ => Seq::empty(),
                }
            }
        }),
{
    let sov = match &config.token {
        Some(t) => is_sov_mapped_token(&t.token_id),
        None => false,
    };
    let is_egld_tok = match &config.token {
        Some(t) => is_egld(&t.token_id),
        None => false,
    };
    let fee_amount: Amount = match &config.fee {
        Some(f) => calculate_fee_amount(f, config.with_transfer_data, config.token.is_some()),
        None => 0,
    };
    let mut user_tokens: Vec<EsdtTokenInfo> = Vec::new();
    match (&config.token, &config.amount) {
        (Some(t), Some(a)) => {
            let initial = get_initial_wallet_token_balance(initial_wallet_tokens, &t.token_id);
            let back = config.is_execute && !config.with_transfer_data;
            let rest = if back && sov { *a } else if back { initial } else { safe_subtract(initial, *a) };
            user_tokens.push(t.with_amount(rest));
        },
        _ => {},
    }
    let ghost token_part = tokens_view(user_tokens@);
    if config.fee.is_some() && fee_amount > 0 {
        match fee_token {
            Some(ft) => {
                user_tokens.push(ft.with_amount(safe_subtract(ft.amount, fee_amount)));
            },
            None => {},
        }
    }
    let user = if user_tokens.len() == 0 || config.expected_error.is_some() {
        None
    } else {
        Some(user_tokens)
    };
    let mut mvx_tokens: Vec<EsdtTokenInfo> = Vec::new();
    let mvx_egld = if is_egld_tok {
        let a = match config.amount {
            Some(a) => a as u64,
            None => 0,
        };
        Some(if config.is_execute { mvx_egld_balance - a } else { mvx_egld_balance + a })
    } else {
        match (&config.token, &config.amount) {
            (Some(t), Some(a)) => {
                if sov {
                    if matches!(t.token_type, EsdtTokenType::SemiFungible | EsdtTokenType::DynamicSFT | EsdtTokenType::MetaFungible | EsdtTokenType::DynamicMeta) {
                        mvx_tokens.push(t.with_amount(1));
                    }
                } else if !config.is_execute {
                    mvx_tokens.push(t.with_amount(*a));
                }
            },
            _ => {},
        }
        None
    };
    let mut fee_market_tokens: Vec<EsdtTokenInfo> = Vec::new();
    if fee_amount > 0 {
        match fee_token {
            Some(ft) => {
                fee_market_tokens.push(ft.with_amount(fee_market_amount as u128 + fee_amount));
            },
            None => {},
        }
    }
    let mut testing_tokens: Vec<EsdtTokenInfo> = Vec::new();
    let success_call = config.is_execute && config.with_transfer_data && config.expected_error.is_none();
    let testing_egld = if is_egld_tok && success_call {
        let a = match config.amount {
            Some(a) => a as u64,
            None => 0,
        };
        Some(testing_egld_balance + a)
    } else {
        match (&config.token, &config.amount) {
            (Some(t), Some(a)) => {
                if success_call {
                    testing_tokens.push(t.with_amount(*a));
                }
            },
            _ => {},
        }
        None
    };
    BalanceCheckPlan { user_tokens: user, mvx_egld, mvx_tokens, fee_market_tokens, testing_egld, testing_tokens }
}

/// Whether some data item of some log decodes from base64.
pub open spec fn decodable_data(logs: Seq<Log>) -> bool {
    exists|i: int, k: int| 0 <= i < logs.len() && 0 <= k < logs[i].data.len()
        && (base64_decoded(#[trigger] logs[i].data@[k]@) is Some)
}

/// Whether the expected error occurs in some data item of some log once it is
/// decoded from base64.
pub open spec fn error_in_logs(logs: Seq<Log>, expected: Seq<u8>) -> bool {
    exists|i: int, k: int| 0 <= i < logs.len() && 0 <= k < logs[i].data.len()
        && (base64_decoded(#[trigger] logs[i].data@[k]@) matches Some(d) && has_window(d, expected))
}

pub fn search_for_error_in_logs(logs: &Vec<Log>, expected_error_bytes: &Vec<u8>) -> (r: bool)
    requires
        expected_error_bytes.len() > 0 || !decodable_data(logs@),
    ensures
        r == error_in_logs(logs@, expected_error_bytes@),
{
    let mut i: usize = 0;
    while i < logs.len()
        invariant
            expected_error_bytes.len() > 0 || !decodable_data(logs@),
            i <= logs.len(),
            forall|x: int, k: int| 0 <= x < i && 0 <= k < logs@[x].data.len() ==>
                !(base64_decoded(#[trigger] logs@[x].data@[k]@) matches Some(d) && has_window(d, expected_error_bytes@)),
        decreases logs.len() - i,
    {
        let log = &logs[i];
        let mut k: usize = 0;
        while k < log.data.len()
            invariant
                expected_error_bytes.len() > 0 || !decodable_data(logs@),
                i < logs.len(),
                *log == logs@[i as int],
                k <= log.data.len(),
                forall|x: int, y: int| 0 <= x < i && 0 <= y < logs@[x].data.len() ==>
                    !(base64_decoded(#[trigger] logs@[x].data@[y]@) matches Some(d) && has_window(d, expected_error_bytes@)),
                forall|y: int| 0 <= y < k ==>
                    !(base64_decoded(#[trigger] log.data@[y]@) matches Some(d) && has_window(d, expected_error_bytes@)),
            decreases log.data.len() - k,
        {
            match base64_decode(&log.data[k]) {
                Some(decoded) => {
                    assert(base64_decoded(logs@[i as int].data@[k as int]@) is Some);
                    if contains_window(&decoded, expected_error_bytes) {
                        return true;
                    }
                },
                None => {},
            }
            k = k + 1;
        }
        i = i + 1;
    }
    false
}

/// Whether some log has a topic that decodes from base64 to `expected`.
pub open spec fn decoded_topic_in_logs(logs: Seq<Log>, expected: Seq<u8>) -> bool {
    exists|i: int, k: int| 0 <= i < logs.len() && 0 <= k < logs[i].topics.len()
        && base64_decoded(#[trigger] logs[i].topics@[k]@) == Some(expected)
}

/// The verdict on an action's logs, whose topics and data come base64-encoded:
/// with no expected log, the expected error must be in the data if one is
/// expected, else there must be no logs; with an expected log, a topic must
/// decode to it (an empty one is not checked), then the expected error must be
/// in the data.
pub open spec fn interactor_log_verdict(logs: Seq<Log>, expected_log: Option<Seq<u8>>, expected_error: Option<Seq<u8>>) -> Result<(), LogCheckError> {
    let error_check = match expected_error {
        Some(err) => if error_in_logs(logs, err) { Ok(()) } else { Err(LogCheckError::ErrorNotFound) },
        None => Ok(()),
    };
    match expected_log {
        None => if expected_error is Some {
            error_check
        } else if logs.len() > 0 {
            Err(LogCheckError::UnexpectedLogs)
        } else {
            Ok(())
        },
        Some(text) => if text.len() == 0 {
            Ok(())
        } else if !decoded_topic_in_logs(logs, text) {
            Err(LogCheckError::LogNotFound { expected: 0 })
        } else {
            error_check
        },
    }
}

fn decoded_topic_found(logs: &Vec<Log>, expected: &Vec<u8>) -> (r: bool)
    ensures
        r == decoded_topic_in_logs(logs@, expected@),
{
    let mut i: usize = 0;
    while i < logs.len()
        invariant
            i <= logs.len(),
            forall|x: int, k: int| 0 <= x < i && 0 <= k < logs@[x].topics.len() ==>
                base64_decoded(#[trigger] logs@[x].topics@[k]@) != Some(expected@),
        decreases logs.len() - i,
    {
        let log = &logs[i];
        let mut k: usize = 0;
        while k < log.topics.len()
            invariant
                i < logs.len(),
                *log == logs@[i as int],
                k <= log.topics.len(),
                forall|x: int, y: int| 0 <= x < i && 0 <= y < logs@[x].topics.len() ==>
                    base64_decoded(#[trigger] logs@[x].topics@[y]@) != Some(expected@),
                forall|y: int| 0 <= y < k ==> base64_decoded(#[trigger] log.topics@[y]@) != Some(expected@),
            decreases log.topics.len() - k,
        {
            match base64_decode(&log.topics[k]) {
                Some(decoded) => {
                    if bytes_eq(&decoded, expected) {
                        assert(base64_decoded(logs@[i as int].topics@[k as int]@) == Some(expected@));
                        return true;
                    }
                },
                None => {},
            }
            k = k + 1;
        }
        i = i + 1;
    }
    false
}

/// Checks an action's logs as the interactor receives them from the network.
pub fn assert_expected_log(logs: &Vec<Log>, expected_log: &Option<Vec<u8>>, expected_log_error: &Option<Vec<u8>>) -> (r: Result<(), LogCheckError>)
    requires
        expected_log_error matches Some(err) ==> err.len() > 0 || !decodable_data(logs@),
    ensures
        r == interactor_log_verdict(logs@, opt_view(*expected_log), opt_view(*expected_log_error)),
{
    match expected_log {
        None => {},
        Some(text) => {
            if text.len() == 0 {
                return Ok(());
            }
            if !decoded_topic_found(logs, text) {
                return Err(LogCheckError::LogNotFound { expected: 0 });
            }
        },
    }
    match expected_log_error {
        Some(err) => {
            if search_for_error_in_logs(logs, err) {
                Ok(())
            } else {
                Err(LogCheckError::ErrorNotFound)
            }
        },
        None => {
            if expected_log.is_none() && logs.len() > 0 {
                Err(LogCheckError::UnexpectedLogs)
            } else {
                Ok(())
            }
        },
    }
}

/// Whether a recorded token is the token `id` with nonce `nonce`.
pub open spec fn is_token(t: EsdtTokenInfoView, id: Seq<u8>, nonce: u64) -> bool {
    t.token_id == id && t.nonce == nonce
}

/// The position of the first record of token `id` with nonce `nonce`.
pub open spec fn token_position(tokens: Seq<EsdtTokenInfoView>, id: Seq<u8>, nonce: u64) -> Option<int> {
    if exists|i: int| 0 <= i < tokens.len() && is_token(#[trigger] tokens[i], id, nonce) {
        Some(choose|i: int| 0 <= i < tokens.len() && is_token(tokens[i], id, nonce)
            && forall|j: int| 0 <= j < i ==> !is_token(#[trigger] tokens[j], id, nonce))
    } else {
        None
    }
}

/// The wallet's starting tokens once `t` is added: to the amount of the first
/// record of the same token and nonce, or as a new record.
pub open spec fn after_wallet_add(before: Seq<EsdtTokenInfoView>, t: EsdtTokenInfoView) -> Seq<EsdtTokenInfoView> {
    match token_position(before, t.token_id, t.nonce) {
        Some(i) => before.update(i, EsdtTokenInfoView { amount: (before[i].amount + t.amount) as u128, ..before[i] }),
        None => before.push(t),
    }
}

/// Two states that differ at most in the wallet's starting tokens.
pub open spec fn same_but_wallet(a: State, b: State) -> bool {
    &&& a.fungible_tokens == b.fungible_tokens
    &&& a.fee_token == b.fee_token
    &&& a.nft_tokens == b.nft_tokens
    &&& a.meta_esdt_tokens == b.meta_esdt_tokens
    &&& a.dynamic_nft_tokens == b.dynamic_nft_tokens
    &&& a.dynamic_sft_tokens == b.dynamic_sft_tokens
    &&& a.dynamic_meta_esdt_tokens == b.dynamic_meta_esdt_tokens
    &&& a.sft_tokens == b.sft_tokens
    &&& a.trusted_token == b.trusted_token
}

/// The tokens the interactor issued or learnt of, by kind, and what the
/// user's wallet held when the run started.
pub struct State {
    pub fungible_tokens: Vec<EsdtTokenInfo>,
    pub fee_token: Option<EsdtTokenInfo>,
    pub nft_tokens: Vec<EsdtTokenInfo>,
    pub meta_esdt_tokens: Vec<EsdtTokenInfo>,
    pub dynamic_nft_tokens: Vec<EsdtTokenInfo>,
    pub dynamic_sft_tokens: Vec<EsdtTokenInfo>,
    pub dynamic_meta_esdt_tokens: Vec<EsdtTokenInfo>,
    pub sft_tokens: Vec<EsdtTokenInfo>,
    pub initial_wallet_tokens_state: Vec<EsdtTokenInfo>,
    pub trusted_token: Option<EsdtTokenInfo>,
}

impl EsdtTokenInfo {
    /// A copy of the record.
    pub fn duplicate(&self) -> (r: EsdtTokenInfo)
        ensures
            r@ == self@,
    {
        self.with_amount(self.amount)
    }
}

impl State {
    pub fn new() -> (r: State)
        ensures
            r.fungible_tokens@.len() == 0,
            r.fee_token is None,
            r.nft_tokens@.len() == 0,
            r.meta_esdt_tokens@.len() == 0,
            r.dynamic_nft_tokens@.len() == 0,
            r.dynamic_sft_tokens@.len() == 0,
            r.dynamic_meta_esdt_tokens@.len() == 0,
            r.sft_tokens@.len() == 0,
            r.initial_wallet_tokens_state@.len() == 0,
            r.trusted_token is None,
    {
        State {
            fungible_tokens: Vec::new(),
            fee_token: None,
            nft_tokens: Vec::new(),
            meta_esdt_tokens: Vec::new(),
            dynamic_nft_tokens: Vec::new(),
            dynamic_sft_tokens: Vec::new(),
            dynamic_meta_esdt_tokens: Vec::new(),
            sft_tokens: Vec::new(),
            initial_wallet_tokens_state: Vec::new(),
            trusted_token: None,
        }
    }

    pub fn add_fungible_token(&mut self, token: EsdtTokenInfo)
        ensures
            *final(self) == (State { fungible_tokens: final(self).fungible_tokens, ..*old(self) }),
            final(self).fungible_tokens@ == old(self).fungible_tokens@.push(token),
    {
        self.fungible_tokens.push(token);
    }

    pub fn set_fee_token(&mut self, token: EsdtTokenInfo)
        ensures
            *final(self) == (State { fee_token: final(self).fee_token, ..*old(self) }),
            final(self).fee_token == Some(token),
    {
        self.fee_token = Some(token);
    }

    pub fn add_nft_token(&mut self, token: EsdtTokenInfo)
        ensures
            *final(self) == (State { nft_tokens: final(self).nft_tokens, ..*old(self) }),
            final(self).nft_tokens@ == old(self).nft_tokens@.push(token),
    {
        self.nft_tokens.push(token);
    }

    pub fn add_meta_esdt_token(&mut self, token: EsdtTokenInfo)
        ensures
            *final(self) == (State { meta_esdt_tokens: final(self).meta_esdt_tokens, ..*old(self) }),
            final(self).meta_esdt_tokens@ == old(self).meta_esdt_tokens@.push(token),
    {
        self.meta_esdt_tokens.push(token);
    }

    pub fn add_dynamic_nft_token(&mut self, token: EsdtTokenInfo)
        ensures
            *final(self) == (State { dynamic_nft_tokens: final(self).dynamic_nft_tokens, ..*old(self) }),
            final(self).dynamic_nft_tokens@ == old(self).dynamic_nft_tokens@.push(token),
    {
        self.dynamic_nft_tokens.push(token);
    }

    pub fn add_sft_token(&mut self, token: EsdtTokenInfo)
        ensures
            *final(self) == (State { sft_tokens: final(self).sft_tokens, ..*old(self) }),
            final(self).sft_tokens@ == old(self).sft_tokens@.push(token),
    {
        self.sft_tokens.push(token);
    }

    pub fn add_dynamic_sft_token(&mut self, token: EsdtTokenInfo)
        ensures
            *final(self) == (State { dynamic_sft_tokens: final(self).dynamic_sft_tokens, ..*old(self) }),
            final(self).dynamic_sft_tokens@ == old(self).dynamic_sft_tokens@.push(token),
    {
        self.dynamic_sft_tokens.push(token);
    }

    pub fn add_dynamic_meta_esdt_token(&mut self, token: EsdtTokenInfo)
        ensures
            *final(self) == (State { dynamic_meta_esdt_tokens: final(self).dynamic_meta_esdt_tokens, ..*old(self) }),
            final(self).dynamic_meta_esdt_tokens@ == old(self).dynamic_meta_esdt_tokens@.push(token),
    {
        self.dynamic_meta_esdt_tokens.push(token);
    }

    /// Adds a token the wallet held at the start: to the amount already
    /// recorded for the same token and nonce, or as a new record.
    pub fn update_or_add_initial_wallet_token(&mut self, token: EsdtTokenInfo)
        requires
            token_position(tokens_view(old(self).initial_wallet_tokens_state@), token.token_id@, token.nonce) matches Some(i)
                ==> old(self).initial_wallet_tokens_state@[i].amount + token.amount <= u128::MAX,
        ensures
            tokens_view(final(self).initial_wallet_tokens_state@)
                == after_wallet_add(tokens_view(old(self).initial_wallet_tokens_state@), token@),
            same_but_wallet(*final(self), *old(self)),
    {
        let ghost before = tokens_view(self.initial_wallet_tokens_state@);
        let mut i: usize = 0;
        while i < self.initial_wallet_tokens_state.len()
            invariant
                i <= self.initial_wallet_tokens_state.len(),
                self.initial_wallet_tokens_state@ == old(self).initial_wallet_tokens_state@,
                same_but_wallet(*self, *old(self)),
                before == tokens_view(old(self).initial_wallet_tokens_state@),
                forall|j: int| 0 <= j < i ==> !is_token(#[trigger] before[j], token.token_id@, token.nonce),
                token_position(before, token.token_id@, token.nonce) matches Some(k)
                    ==> old(self).initial_wallet_tokens_state@[k].amount + token.amount <= u128::MAX,
            decreases self.initial_wallet_tokens_state.len() - i,
        {
            assert(before[i as int] == self.initial_wallet_tokens_state@[i as int]@);
            if bytes_eq(&self.initial_wallet_tokens_state[i].token_id, &token.token_id)
                && self.initial_wallet_tokens_state[i].nonce == token.nonce {
                proof {
                    let k = token_position(before, token.token_id@, token.nonce)->0;
                    assert(is_token(before[k], token.token_id@, token.nonce));
                    if k < i {
                        assert(!is_token(before[k], token.token_id@, token.nonce));
                    }
                    if i < k {
                        assert(!is_token(before[i as int], token.token_id@, token.nonce));
                    }
                    assert(k == i);
                }
                let updated = self.initial_wallet_tokens_state[i].amount + token.amount;
                let record = self.initial_wallet_tokens_state[i].with_amount(updated);
                self.initial_wallet_tokens_state.set(i, record);
                assert(tokens_view(self.initial_wallet_tokens_state@) =~= before.update(i as int, EsdtTokenInfoView {
                    amount: (before[i as int].amount + token.amount) as u128,
                    ..before[i as int]
                }));
                return;
            }
            i = i + 1;
        }
        self.initial_wallet_tokens_state.push(token);
        assert(tokens_view(self.initial_wallet_tokens_state@) =~= before.push(token@));
    }

    pub fn set_trusted_token(&mut self, token: EsdtTokenInfo)
        ensures
            *final(self) == (State { trusted_token: final(self).trusted_token, ..*old(self) }),
            final(self).trusted_token == Some(token),
    {
        self.trusted_token = Some(token);
    }

    pub fn get_trusted_token(&self) -> (r: EsdtTokenInfo)
        requires
            self.trusted_token is Some,
        ensures
            r@ == self.trusted_token->0@,
    {
        self.trusted_token.as_ref().unwrap().duplicate()
    }

    /// The identifier of the trusted token.
    pub fn get_trusted_token_string(&self) -> (r: Vec<u8>)
        requires
            self.trusted_token is Some,
        ensures
            r@ == self.trusted_token->0.token_id@,
    {
        copy_bytes(&self.trusted_token.as_ref().unwrap().token_id)
    }

    pub fn get_first_fungible_token_identifier(&self) -> (r: Vec<u8>)
        requires
            self.fungible_tokens.len() > 0,
        ensures
            r@ == self.fungible_tokens@[0].token_id@,
    {
        copy_bytes(&self.fungible_tokens[0].token_id)
    }

    pub fn get_fee_token_identifier(&self) -> (r: Vec<u8>)
        requires
            self.fee_token is Some,
        ensures
            r@ == self.fee_token->0.token_id@,
    {
        copy_bytes(&self.fee_token.as_ref().unwrap().token_id)
    }

    pub fn get_first_fungible_token_id(&self) -> (r: EsdtTokenInfo)
        requires
            self.fungible_tokens.len() > 0,
        ensures
            r@ == self.fungible_tokens@[0]@,
    {
        self.fungible_tokens[0].duplicate()
    }

    pub fn get_fee_token_id(&self) -> (r: EsdtTokenInfo)
        requires
            self.fee_token is Some,
        ensures
            r@ == self.fee_token->0@,
    {
        self.fee_token.as_ref().unwrap().duplicate()
    }

    pub fn get_fungible_token_by_index(&self, index: usize) -> (r: EsdtTokenInfo)
        requires
            index < self.fungible_tokens.len(),
        ensures
            r@ == self.fungible_tokens@[index as int]@,
    {
        self.fungible_tokens[index].duplicate()
    }

    pub fn get_nft_token_by_index(&self, index: usize) -> (r: EsdtTokenInfo)
        requires
            index < self.nft_tokens.len(),
        ensures
            r@ == self.nft_tokens@[index as int]@,
    {
        self.nft_tokens[index].duplicate()
    }

    pub fn get_meta_esdt_token_by_index(&self, index: usize) -> (r: EsdtTokenInfo)
        requires
            index < self.meta_esdt_tokens.len(),
        ensures
            r@ == self.meta_esdt_tokens@[index as int]@,
    {
        self.meta_esdt_tokens[index].duplicate()
    }

    pub fn get_dynamic_nft_token_by_index(&self, index: usize) -> (r: EsdtTokenInfo)
        requires
            index < self.dynamic_nft_tokens.len(),
        ensures
            r@ == self.dynamic_nft_tokens@[index as int]@,
    {
        self.dynamic_nft_tokens[index].duplicate()
    }

    pub fn get_sft_token_by_index(&self, index: usize) -> (r: EsdtTokenInfo)
        requires
            index < self.sft_tokens.len(),
        ensures
            r@ == self.sft_tokens@[index as int]@,
    {
        self.sft_tokens[index].duplicate()
    }

    pub fn get_dynamic_sft_token_by_index(&self, index: usize) -> (r: EsdtTokenInfo)
        requires
            index < self.dynamic_sft_tokens.len(),
        ensures
            r@ == self.dynamic_sft_tokens@[index as int]@,
    {
        self.dynamic_sft_tokens[index].duplicate()
    }

    pub fn get_dynamic_meta_esdt_token_by_index(&self, index: usize) -> (r: EsdtTokenInfo)
        requires
            index < self.dynamic_meta_esdt_tokens.len(),
        ensures
            r@ == self.dynamic_meta_esdt_tokens@[index as int]@,
    {
        self.dynamic_meta_esdt_tokens[index].duplicate()
    }

    pub fn get_initial_wallet_tokens_state(&self) -> (r: &Vec<EsdtTokenInfo>)
        ensures
            *r == self.initial_wallet_tokens_state,
    {
        &self.initial_wallet_tokens_state
    }

    /// What the wallet held of token `token_id` at the start (the first record
    /// of it), zero if nothing.
    pub fn get_initial_wallet_token_balance(&self, token_id: &Vec<u8>) -> (r: Amount)
        ensures
            r == initial_balance(tokens_view(self.initial_wallet_tokens_state@), token_id@),
    {
        get_initial_wallet_token_balance(&self.initial_wallet_tokens_state, token_id)
    }
}

/// Why a contract's token balances are not the expected ones; `token` is the
/// position of the expected token that failed.
#[derive(PartialEq, Eq, Structural)]
pub enum BalanceCheckError {
    /// Tokens were found where none were expected.
    UnexpectedTokens,
    /// A token expected to be absent is there.
    TokenPresent { token: usize },
    /// A token's balance differs from the expected one.
    BalanceMismatch { token: usize, found: Amount },
    /// No token with the expected identifier is there.
    TokenMissing { token: usize },
}

/// Whether `prefix` is a prefix of `s`.
pub open spec fn starts_with(s: Seq<u8>, prefix: Seq<u8>) -> bool {
    prefix.len() <= s.len() && s.subrange(0, prefix.len() as int) == prefix
}

fn starts_with_exec(s: &Vec<u8>, prefix: &Vec<u8>) -> (r: bool)
    ensures
        r == starts_with(s@, prefix@),
{
    if prefix.len() > s.len() {
        return false;
    }
    let mut i: usize = 0;
    while i < prefix.len()
        invariant
            prefix.len() <= s.len(),
            i <= prefix.len(),
            forall|j: int| 0 <= j < i ==> s@[j] == prefix@[j],
        decreases prefix.len() - i,
    {
        if s[i] != prefix[i] {
            assert(s@.subrange(0, prefix.len() as int)[i as int] != prefix@[i as int]);
            return false;
        }
        i = i + 1;
    }
    assert(s@.subrange(0, prefix.len() as int) =~= prefix@);
    true
}

/// The position of the first balance whose token identifier starts with `id`.
pub open spec fn first_prefixed(balances: Seq<(Vec<u8>, Amount)>, id: Seq<u8>) -> Option<int> {
    if exists|i: int| 0 <= i < balances.len() && starts_with((#[trigger] balances[i]).0@, id) {
        Some(choose|i: int| 0 <= i < balances.len() && starts_with(balances[i].0@, id)
            && forall|j: int| 0 <= j < i ==> !starts_with((#[trigger] balances[j]).0@, id))
    } else {
        None
    }
}

/// How one expected token balance fails, if it does: a zero amount means the
/// token must be absent; otherwise the first token whose identifier starts
/// with the expected one must hold the expected amount.
pub open spec fn token_balance_failure(balances: Seq<(Vec<u8>, Amount)>, expected: EsdtTokenInfoView, idx: usize) -> Option<BalanceCheckError> {
    if expected.amount == 0 {
        if exists|i: int| 0 <= i < balances.len() && (#[trigger] balances[i]).0@ == expected.token_id {
            Some(BalanceCheckError::TokenPresent { token: idx })
        } else {
            None
        }
    } else {
        match first_prefixed(balances, expected.token_id) {
            Some(i) => if balances[i].1 == expected.amount {
                None
            } else {
                Some(BalanceCheckError::BalanceMismatch { token: idx, found: balances[i].1 })
            },
            None => Some(BalanceCheckError::TokenMissing { token: idx }),
        }
    }
}

/// The first expected balance, from position `from` on, that fails.
pub open spec fn first_balance_failure(balances: Seq<(Vec<u8>, Amount)>, expected: Seq<EsdtTokenInfoView>, from: int) -> Option<BalanceCheckError>
    decreases expected.len() - from,
{
    if from < 0 || from >= expected.len() {
        None
    } else {
        match token_balance_failure(balances, expected[from], from as usize) {
            Some(e) => Some(e),
            None => first_balance_failure(balances, expected, from + 1),
        }
    }
}

#[verifier::loop_isolation(false)]
fn check_token_balance(balances: &Vec<(Vec<u8>, Amount)>, expected: &EsdtTokenInfo, idx: usize) -> (r: Option<BalanceCheckError>)
    ensures
        r == token_balance_failure(balances@, expected@, idx),
{
    if expected.amount == 0 {
        let mut i: usize = 0;
        while i < balances.len()
            invariant
                i <= balances.len(),
                forall|j: int| 0 <= j < i ==> (#[trigger] balances@[j]).0@ != expected.token_id@,
            decreases balances.len() - i,
        {
            if bytes_eq(&balances[i].0, &expected.token_id) {
                assert(balances@[i as int].0@ == expected.token_id@);
                return Some(BalanceCheckError::TokenPresent { token: idx });
            }
            i = i + 1;
        }
        return None;
    }
    let mut i: usize = 0;
    while i < balances.len()
        invariant
            i <= balances.len(),
            forall|j: int| 0 <= j < i ==> !starts_with((#[trigger] balances@[j]).0@, expected.token_id@),
        decreases balances.len() - i,
    {
        if starts_with_exec(&balances[i].0, &expected.token_id) {
            proof {
                let b = balances@;
                let k = first_prefixed(b, expected.token_id@)->0;
                assert(starts_with(b[i as int].0@, expected.token_id@));
                assert(starts_with(b[k].0@, expected.token_id@));
                if k < i {
                    assert(!starts_with(b[k].0@, expected.token_id@));
                }
                if i < k {
                    assert(!starts_with(b[i as int].0@, expected.token_id@));
                }
                assert(k == i);
            }
            let found = balances[i].1;
            if found == expected.amount {
                return None;
            }
            return Some(BalanceCheckError::BalanceMismatch { token: idx, found });
        }
        i = i + 1;
    }
    Some(BalanceCheckError::TokenMissing { token: idx })
}

/// Checks the token balances of an address (token identifier and amount, in
/// the order the network listed them) against the expected ones: with none
/// expected the address must hold no token; otherwise each expected token is
/// checked in turn and the first failure is reported.
pub fn check_address_balance(balances: &Vec<(Vec<u8>, Amount)>, expected_token_balance: &Vec<EsdtTokenInfo>) -> (r: Result<(), BalanceCheckError>)
    ensures
        expected_token_balance.len() == 0 ==> (r is Ok <==> balances.len() == 0)
            && (r is Err ==> r == Err::<(), BalanceCheckError>(BalanceCheckError::UnexpectedTokens)),
        expected_token_balance.len() > 0 ==> match first_balance_failure(balances@, tokens_view(expected_token_balance@), 0) {
            Some(e) => r == Err::<(), BalanceCheckError>(e),
            None => r is Ok,
        },
{
    if expected_token_balance.len() == 0 {
        if balances.len() == 0 {
            return Ok(());
        }
        return Err(BalanceCheckError::UnexpectedTokens);
    }
    let ghost ev = tokens_view(expected_token_balance@);
    let mut i: usize = 0;
    while i < expected_token_balance.len()
        invariant
            i <= expected_token_balance.len(),
            ev == tokens_view(expected_token_balance@),
            first_balance_failure(balances@, ev, 0) == first_balance_failure(balances@, ev, i as int),
        decreases expected_token_balance.len() - i,
    {
        assert(ev[i as int] == expected_token_balance@[i as int]@);
        match check_token_balance(balances, &expected_token_balance[i], i) {
            Some(e) => {
                return Err(e);
            },
            None => {},
        }
        i = i + 1;
    }
    Ok(())
}

/// The endpoint of the testing contract that operations and deposits call.
pub open spec fn testing_sc_endpoint() -> Seq<u8> {
    ascii_bytes("hello"@)
}

fn testing_sc_endpoint_bytes() -> (r: Vec<u8>)
    ensures
        r@ == testing_sc_endpoint(),
{
    proof {
        reveal_strlit("hello");
    }
    str_bytes("hello")
}

/// The single argument the testing contract's endpoint is called with.
pub open spec fn call_argument() -> Seq<u8> {
    seq![49u8]
}

fn call_arguments() -> (r: Vec<Vec<u8>>)
    ensures
        r@.len() == 1,
        r@[0]@ == call_argument(),
{
    let mut one: Vec<u8> = Vec::new();
    one.push(49u8);
    let mut args: Vec<Vec<u8>> = Vec::new();
    args.push(one);
    args
}

/// The contract call a test deposit carries: the gas limit, the testing
/// contract's endpoint and its argument, when the deposit has transfer data.
pub fn prepare_transfer_data(with_transfer_data: bool) -> (r: Option<(u64, Vec<u8>, Vec<Vec<u8>>)>)
    ensures
        with_transfer_data <==> r is Some,
        r matches Some((gas, function, args)) ==> gas == GAS_LIMIT && function@ == testing_sc_endpoint()
            && args@.len() == 1 && args@[0]@ == call_argument(),
{
    if with_transfer_data {
        Some((GAS_LIMIT, testing_sc_endpoint_bytes(), call_arguments()))
    } else {
        None
    }
}

/// The payments of a test deposit: the fee, in the fee token, when a fee is
/// due; then the token, when there is one.
pub fn prepare_deposit_payments(
    token: &Option<EsdtTokenInfo>,
    fee: &Option<FeeStruct>,
    with_transfer_data: bool,
    fee_token_id: &Vec<u8>,
) -> (r: Vec<Payment>)
    requires
        fee matches Some(f) ==> expected_fee(f.fee_type@, true, true) <= u128::MAX,
    ensures
        ({
            let fee_part: Seq<PaymentView> = match *fee {
                Some(f) => {
                    let amount = expected_fee(f.fee_type@, with_transfer_data, token is Some);
                    if amount > 0 {
                        seq![PaymentView { token_id: fee_token_id@, nonce: 0, amount: amount as u128 }]
                    } else {
                        Seq::empty()
                    }
                },
                None => Seq::empty(),
            };
            let token_part: Seq<PaymentView> = match *token {
                Some(t) => seq![PaymentView { token_id: t.token_id@, nonce: t.nonce, amount: t.amount }],
                None => Seq::empty(),
            };
            payments_view(r@) == fee_part + token_part
        }),
{
    let mut payments: Vec<Payment> = Vec::new();
    match fee {
        Some(f) => {
            let amount = calculate_fee_amount(f, with_transfer_data, token.is_some());
            if amount > 0 {
                payments.push(Payment::new(copy_bytes(fee_token_id), 0, amount));
            }
        },
        None => {},
    }
    let ghost fee_part = payments_view(payments@);
    match token {
        Some(t) => {
            payments.push(Payment::new(copy_bytes(&t.token_id), t.nonce, t.amount));
            assert(payments_view(payments@) =~= fee_part.push(PaymentView { token_id: t.token_id@, nonce: t.nonce, amount: t.amount }));
        },
        None => {},
    }
    payments
}

/// A token transfer of a bridge operation.
pub struct OperationEsdtPayment {
    pub token_identifier: Vec<u8>,
    pub token_nonce: u64,
    pub token_type: EsdtTokenType,
    pub amount: Amount,
}

/// The contract call of a bridge operation.
pub struct OperationTransferData {
    pub gas_limit: u64,
    pub function: Vec<u8>,
    pub args: Vec<Vec<u8>>,
}

/// The nonce, the sender and the optional call of a bridge operation.
pub struct OperationData {
    pub op_nonce: u64,
    pub op_sender: Vec<u8>,
    pub opt_transfer_data: Option<OperationTransferData>,
}

/// A bridge operation: its destination, its tokens and its data.
pub struct Operation {
    pub to: Vec<u8>,
    pub tokens: Vec<OperationEsdtPayment>,
    pub data: OperationData,
}

/// The transfers of an operation that carries `token`, if any.
pub fn prepare_execute_payment(token: &Option<EsdtTokenInfo>) -> (r: Vec<OperationEsdtPayment>)
    ensures
        token is None ==> r@.len() == 0,
        token matches Some(t) ==> r@.len() == 1 && r@[0].token_identifier@ == t.token_id@
            && r@[0].token_nonce == t.nonce && r@[0].token_type == t.token_type && r@[0].amount == t.amount,
{
    let mut payments: Vec<OperationEsdtPayment> = Vec::new();
    match token {
        Some(t) => {
            payments.push(OperationEsdtPayment {
                token_identifier: copy_bytes(&t.token_id),
                token_nonce: t.nonce,
                token_type: t.token_type,
                amount: t.amount,
            });
        },
        None => {},
    }
    payments
}

/// Builds an operation for the shard's ESDT-Safe: with an endpoint, a call of
/// it on the testing contract; without, a transfer to the user. It takes the
/// ESDT-Safe's next operation nonce.
pub fn prepare_operation(
    state: &mut CommonState,
    shard: u32,
    user_address: &Vec<u8>,
    token: &Option<EsdtTokenInfo>,
    endpoint: &Option<Vec<u8>>,
) -> (r: Operation)
    requires
        old(state).wf(),
        old(state).mvx_esdt_safe_addresses matches Some(l) && (shard as int) < l.addresses.len(),
        old(state).spec_operation_nonce(old(state).mvx_esdt_safe_addresses->0.addresses@[shard as int].address@) < u64::MAX,
        endpoint is Some ==> old(state).testing_sc_address is Some,
    ensures
        ({
            let safe = old(state).mvx_esdt_safe_addresses->0.addresses@[shard as int].address@;
            let nonce = old(state).spec_operation_nonce(safe);
            &&& final(state).wf()
            &&& final(state).operation_nonce@ == old(state).operation_nonce@.insert(safe, (nonce + 1) as u64)
            &&& r.data.op_nonce == nonce
            &&& r.data.op_sender@ == user_address@
            &&& (token is None ==> r.tokens@.len() == 0)
            &&& (token matches Some(t) ==> r.tokens@.len() == 1 && r.tokens@[0].token_identifier@ == t.token_id@
                && r.tokens@[0].token_nonce == t.nonce && r.tokens@[0].token_type == t.token_type
                && r.tokens@[0].amount == t.amount)
            &&& match *endpoint {
                Some(e) => r.to@ == old(state).testing_sc_address->0@ && (r.data.opt_transfer_data matches Some(td)
                    && td.gas_limit == GAS_LIMIT && td.function@ == e@ && td.args@.len() == 1 && td.args@[0]@ == call_argument()),
                None => r.to@ == user_address@ && r.data.opt_transfer_data is None,
            }
        }),
{
    let payments = prepare_execute_payment(token);
    let safe = copy_bytes(state.get_mvx_esdt_safe_address(shard));
    match endpoint {
        Some(e) => {
            let to = copy_bytes(state.current_testing_sc_address());
            let nonce = state.get_and_increment_operation_nonce(&safe);
            let transfer_data = OperationTransferData { gas_limit: GAS_LIMIT, function: copy_bytes(e), args: call_arguments() };
            Operation {
                to,
                tokens: payments,
                data: OperationData { op_nonce: nonce, op_sender: copy_bytes(user_address), opt_transfer_data: Some(transfer_data) },
            }
        },
        None => {
            let nonce = state.get_and_increment_operation_nonce(&safe);
            Operation {
                to: copy_bytes(user_address),
                tokens: payments,
                data: OperationData { op_nonce: nonce, op_sender: copy_bytes(user_address), opt_transfer_data: None },
            }
        },
    }
}

/// Whether the interactor records the first-shard address of a contract kind.
pub open spec fn sc_address_known(state: CommonState, sc_type: ScArray) -> bool {
    match sc_type {
        ScArray::ChainConfig => state.chain_config_sc_addresses matches Some(l) && l.addresses.len() > 0,
        ScArray::ChainFactory => state.chain_factory_sc_addresses matches Some(l) && l.len() > 0,
        ScArray::SovereignCrossChainOperation => state.mvx_esdt_safe_addresses matches Some(l) && l.addresses.len() > 0,
        ScArray::SovereignHeaderVerifier => state.header_verifier_addresses matches Some(l) && l.addresses.len() > 0,
        ScArray::FeeMarket => state.fee_market_addresses matches Some(l) && l.addresses.len() > 0,
        _ => false,
    }
}

/// The first-shard address of a contract kind.
pub open spec fn spec_sc_address(state: CommonState, sc_type: ScArray) -> Seq<u8> {
    match sc_type {
        ScArray::ChainConfig => state.chain_config_sc_addresses->0.addresses@[0].address@,
        ScArray::ChainFactory => state.chain_factory_sc_addresses->0@[0]@,
        ScArray::SovereignCrossChainOperation => state.mvx_esdt_safe_addresses->0.addresses@[0].address@,
        ScArray::SovereignHeaderVerifier => state.header_verifier_addresses->0.addresses@[0].address@,
        _ => state.fee_market_addresses->0.addresses@[0].address@,
    }
}

/// The address of the interactor's contract of a kind, on the first shard.
pub fn get_sc_address(state: &CommonState, sc_type: ScArray) -> (r: Vec<u8>)
    requires
        sc_address_known(*state, sc_type),
    ensures
        r@ == spec_sc_address(*state, sc_type),
{
    match sc_type {
        ScArray::ChainConfig => copy_bytes(state.current_chain_config_sc_address()),
        ScArray::ChainFactory => copy_bytes(state.current_chain_factory_sc_address()),
        ScArray::SovereignCrossChainOperation => copy_bytes(state.current_mvx_esdt_safe_contract_address()),
        ScArray::SovereignHeaderVerifier => copy_bytes(state.current_header_verifier_address()),
        _ => copy_bytes(state.current_fee_market_address()),
    }
}

/// The number that stands for a token type in the protocol's encoding, as a
/// cast of the protocol's enumeration gives it.
pub open spec fn spec_token_type_code(t: EsdtTokenType) -> u8 {
    match t {
        EsdtTokenType::Fungible => 0,
        EsdtTokenType::NonFungible => 1,
        EsdtTokenType::NonFungibleV2 => 2,
        EsdtTokenType::SemiFungible => 3,
        EsdtTokenType::MetaFungible => 4,
        EsdtTokenType::DynamicNFT => 5,
        EsdtTokenType::DynamicSFT => 6,
        EsdtTokenType::DynamicMeta => 7,
        EsdtTokenType::Invalid => 8,
    }
}

pub fn token_type_code(t: EsdtTokenType) -> (r: u8)
    ensures
        r == spec_token_type_code(t),
{
    match t {
        EsdtTokenType::Fungible => 0,
        EsdtTokenType::NonFungible => 1,
        EsdtTokenType::NonFungibleV2 => 2,
        EsdtTokenType::SemiFungible => 3,
        EsdtTokenType::MetaFungible => 4,
        EsdtTokenType::DynamicNFT => 5,
        EsdtTokenType::DynamicSFT => 6,
        EsdtTokenType::DynamicMeta => 7,
        EsdtTokenType::Invalid => 8,
    }
}

/// The token type a stored number stands for; unknown numbers are invalid.
pub fn token_type_from_code(code: u8) -> (r: EsdtTokenType)
    ensures
        code <= 7 ==> spec_token_type_code(r) == code,
        code > 7 ==> r == EsdtTokenType::Invalid,
{
    match code {
        0 => EsdtTokenType::Fungible,
        1 => EsdtTokenType::NonFungible,
        2 => EsdtTokenType::NonFungibleV2,
        3 => EsdtTokenType::SemiFungible,
        4 => EsdtTokenType::MetaFungible,
        5 => EsdtTokenType::DynamicNFT,
        6 => EsdtTokenType::DynamicSFT,
        7 => EsdtTokenType::DynamicMeta,
        _ => EsdtTokenType::Invalid,
    }
}

/// The record of a fee-market token that the state file keeps.
pub fn create_serializable_token(token: &EsdtTokenInfo, amount: u64) -> (r: SerializableFeeMarketToken)
    ensures
        r.token_id@ == utf8_lossy(token.token_id@),
        r.token_type == spec_token_type_code(token.token_type),
        r.nonce == token.nonce,
        r.decimals == token.decimals,
        r.amount == amount,
{
    SerializableFeeMarketToken {
        token_id: from_utf8_lossy(&token.token_id),
        token_type: token_type_code(token.token_type),
        nonce: token.nonce,
        decimals: token.decimals,
        amount,
    }
}

/// A fee-market token of the state file as a tracked token.
pub fn fee_market_token_converted(token: &SerializableFeeMarketToken) -> (r: EsdtTokenInfo)
    ensures
        r.token_id@ == vstd::utf8::encode_utf8(token.token_id@),
        r.nonce == token.nonce,
        token.token_type <= 7 ==> spec_token_type_code(r.token_type) == token.token_type,
        token.token_type > 7 ==> r.token_type == EsdtTokenType::Invalid,
        r.decimals == token.decimals,
        r.amount == token.amount,
{
    EsdtTokenInfo {
        token_id: token.token_id.as_str().as_bytes_vec(),
        nonce: token.nonce,
        token_type: token_type_from_code(token.token_type),
        decimals: token.decimals,
        amount: token.amount as u128,
    }
}

/// What an address holding none of the wallet's tokens should show: each of
/// them with a zero amount.
pub fn create_empty_balance_state(initial_wallet_tokens: &Vec<EsdtTokenInfo>) -> (r: Vec<EsdtTokenInfo>)
    ensures
        tokens_view(r@) == tokens_view(initial_wallet_tokens@).map_values(|t: EsdtTokenInfoView| EsdtTokenInfoView { amount: 0, ..t }),
{
    let mut r: Vec<EsdtTokenInfo> = Vec::new();
    let mut i: usize = 0;
    while i < initial_wallet_tokens.len()
        invariant
            i <= initial_wallet_tokens.len(),
            r@.len() == i,
            forall|j: int| 0 <= j < i ==> #[trigger] r@[j]@ == (EsdtTokenInfoView { amount: 0, ..initial_wallet_tokens@[j]@ }),
        decreases initial_wallet_tokens.len() - i,
    {
        r.push(initial_wallet_tokens[i].with_amount(0));
        i = i + 1;
    }
    assert(tokens_view(r@) =~= tokens_view(initial_wallet_tokens@).map_values(|t: EsdtTokenInfoView| EsdtTokenInfoView { amount: 0, ..t }));
    r
}

/// The standard test fee, in the state's fee token: a fee per transfer and
/// per gas unit.
pub fn create_standard_fee(state: &State) -> (r: FeeStruct)
    requires
        state.fee_token is Some,
    ensures
        r.base_token@ == state.fee_token->0.token_id@,
        r.fee_type@ == (FeeTypeView::Fixed {
            token: state.fee_token->0.token_id@,
            per_transfer: PER_TRANSFER as u128,
            per_gas: PER_GAS as u128,
        }),
{
    FeeStruct {
        base_token: state.get_fee_token_identifier(),
        fee_type: FeeType::Fixed {
            token: state.get_fee_token_identifier(),
            per_transfer: PER_TRANSFER as u128,
            per_gas: PER_GAS as u128,
        },
    }
}

/// Whether the state holds a token of that type at that position.
pub open spec fn token_known(state: State, token_type: EsdtTokenType, index: usize) -> bool {
    match token_type {
        EsdtTokenType::NonFungibleV2 => index < state.nft_tokens.len(),
        EsdtTokenType::Fungible => index < state.fungible_tokens.len(),
        EsdtTokenType::SemiFungible => index < state.sft_tokens.len(),
        EsdtTokenType::MetaFungible => index < state.meta_esdt_tokens.len(),
        EsdtTokenType::DynamicNFT => index < state.dynamic_nft_tokens.len(),
        EsdtTokenType::DynamicSFT => index < state.dynamic_sft_tokens.len(),
        EsdtTokenType::DynamicMeta => index < state.dynamic_meta_esdt_tokens.len(),
        _ => false,
    }
}

/// The token of that type at that position.
pub open spec fn spec_token_by_type(state: State, token_type: EsdtTokenType, index: usize) -> EsdtTokenInfoView {
    match token_type {
        EsdtTokenType::NonFungibleV2 => state.nft_tokens@[index as int]@,
        EsdtTokenType::Fungible => state.fungible_tokens@[index as int]@,
        EsdtTokenType::SemiFungible => state.sft_tokens@[index as int]@,
        EsdtTokenType::MetaFungible => state.meta_esdt_tokens@[index as int]@,
        EsdtTokenType::DynamicNFT => state.dynamic_nft_tokens@[index as int]@,
        EsdtTokenType::DynamicSFT => state.dynamic_sft_tokens@[index as int]@,
        _ => state.dynamic_meta_esdt_tokens@[index as int]@,
    }
}

/// The `index`-th issued token of a type.
pub fn get_token_by_type(state: &State, token_type: EsdtTokenType, index: usize) -> (r: EsdtTokenInfo)
    requires
        token_known(*state, token_type, index),
    ensures
        r@ == spec_token_by_type(*state, token_type, index),
{
    match token_type {
        EsdtTokenType::NonFungibleV2 => state.get_nft_token_by_index(index),
        EsdtTokenType::Fungible => state.get_fungible_token_by_index(index),
        EsdtTokenType::SemiFungible => state.get_sft_token_by_index(index),
        EsdtTokenType::MetaFungible => state.get_meta_esdt_token_by_index(index),
        EsdtTokenType::DynamicNFT => state.get_dynamic_nft_token_by_index(index),
        EsdtTokenType::DynamicSFT => state.get_dynamic_sft_token_by_index(index),
        _ => state.get_dynamic_meta_esdt_token_by_index(index),
    }
}

/// Whether some data item of some log decodes from base64 (see [`decodable_data`]).
pub fn has_decodable_data(logs: &Vec<Log>) -> (r: bool)
    ensures
        r == decodable_data(logs@),
{
    let mut i: usize = 0;
    while i < logs.len()
        invariant
            i <= logs.len(),
            forall|x: int, k: int| 0 <= x < i && 0 <= k < logs@[x].data.len() ==>
                base64_decoded(#[trigger] logs@[x].data@[k]@) is None,
        decreases logs.len() - i,
    {
        let log = &logs[i];
        let mut k: usize = 0;
        while k < log.data.len()
            invariant
                i < logs.len(),
                *log == logs@[i as int],
                k <= log.data.len(),
                forall|x: int, y: int| 0 <= x < i && 0 <= y < logs@[x].data.len() ==>
                    base64_decoded(#[trigger] logs@[x].data@[y]@) is None,
                forall|y: int| 0 <= y < k ==> base64_decoded(#[trigger] log.data@[y]@) is None,
            decreases log.data.len() - k,
        {
            if base64_decode(&log.data[k]).is_some() {
                assert(base64_decoded(logs@[i as int].data@[k as int]@) is Some);
                return true;
            }
            k = k + 1;
        }
        i = i + 1;
    }
    false
}

/// Searches the logs for an error, or answers `None` where the search cannot
/// run: an empty error text against data that decodes.
pub fn try_search_for_error_in_logs(logs: &Vec<Log>, expected_error_bytes: &Vec<u8>) -> (r: Option<bool>)
    ensures
        r is None <==> (expected_error_bytes.len() == 0 && decodable_data(logs@)),
        r matches Some(found) ==> found == error_in_logs(logs@, expected_error_bytes@),
{
    if expected_error_bytes.len() == 0 && has_decodable_data(logs) {
        return None;
    }
    Some(search_for_error_in_logs(logs, expected_error_bytes))
}

/// Checks an action's logs as [`assert_expected_log`] does, or answers `None`
/// where that check cannot run: an empty expected error against data that
/// decodes.
pub fn try_assert_expected_log(logs: &Vec<Log>, expected_log: &Option<Vec<u8>>, expected_log_error: &Option<Vec<u8>>)
    -> (r: Option<Result<(), LogCheckError>>)
    ensures
        r is None <==> (expected_log_error matches Some(err) && err.len() == 0 && decodable_data(logs@)),
        r matches Some(v) ==> v == interactor_log_verdict(logs@, opt_view(*expected_log), opt_view(*expected_log_error)),
{
    match expected_log_error {
        Some(err) => {
            if err.len() == 0 && has_decodable_data(logs) {
                return None;
            }
        },
        None => {},
    }
    Some(assert_expected_log(logs, expected_log, expected_log_error))
}


/// The ESDT-Safe address recorded for `shard`.
pub open spec fn recorded_mvx_esdt_safe(s: CommonState, shard: int) -> Seq<u8> {
    s.mvx_esdt_safe_addresses->0.addresses@[shard].address@
}

/// The fee-market address recorded for `shard`.
pub open spec fn recorded_fee_market(s: CommonState, shard: int) -> Seq<u8> {
    s.fee_market_addresses->0.addresses@[shard].address@
}

/// Whether the shard addresses that naming `address` reads, from `shard` on,
/// are recorded: each shard's ESDT-Safe, and its fee market unless the
/// ESDT-Safe already matched.
pub open spec fn shard_addresses_known(s: CommonState, address: Seq<u8>, shard: int) -> bool
    decreases 3 - shard,
{
    if shard >= 3 || shard < 0 {
        true
    } else {
        &&& s.mvx_esdt_safe_addresses matches Some(l) && shard < l.addresses.len()
        &&& address != recorded_mvx_esdt_safe(s, shard) ==> {
            &&& s.fee_market_addresses matches Some(l) && shard < l.addresses.len()
            &&& address != recorded_fee_market(s, shard) ==> shard_addresses_known(s, address, shard + 1)
        }
    }
}

/// The name of the first shard contract, from `shard` on, whose address is
/// `address`: for each shard its ESDT-Safe, then its fee market.
pub open spec fn shard_contract_name(s: CommonState, address: Seq<u8>, shard: int) -> &'static str
    decreases 3 - shard,
{
    if shard >= 3 || shard < 0 {
        "Unknown Address"
    } else if address == recorded_mvx_esdt_safe(s, shard) {
        if shard == 0 { "MVX ESDT Safe Shard 0" } else if shard == 1 { "MVX ESDT Safe Shard 1" } else { "MVX ESDT Safe Shard 2" }
    } else if address == recorded_fee_market(s, shard) {
        if shard == 0 { "Fee Market Shard 0" } else if shard == 1 { "Fee Market Shard 1" } else { "Fee Market Shard 2" }
    } else {
        shard_contract_name(s, address, shard + 1)
    }
}

/// The name under which balance messages show `address`.
pub open spec fn address_name(s: CommonState, user_address: Seq<u8>, address: Seq<u8>) -> &'static str {
    if address == s.testing_sc_address->0@ {
        "Testing SC"
    } else if address == user_address {
        "User Address"
    } else {
        shard_contract_name(s, address, 0)
    }
}

/// Names an address for balance messages: the testing contract, the user,
/// or the ESDT-Safe or fee market of one of the three shards, looked up
/// shard by shard; any other address is unknown.
pub fn get_address_name(state: &CommonState, user_address: &Vec<u8>, address: &Vec<u8>) -> (r: &'static str)
    requires
        state.testing_sc_address is Some,
        address@ != state.testing_sc_address->0@ && address@ != user_address@
            ==> shard_addresses_known(*state, address@, 0),
    ensures
        r == address_name(*state, user_address@, address@),
{
    if bytes_eq(address, state.current_testing_sc_address()) {
        return "Testing SC";
    }
    if bytes_eq(address, user_address) {
        return "User Address";
    }
    let mut shard: u32 = 0;
    while shard < 3
        invariant
            shard <= 3,
            state.testing_sc_address is Some,
            address@ != state.testing_sc_address->0@,
            address@ != user_address@,
            shard_addresses_known(*state, address@, shard as int),
            shard_contract_name(*state, address@, 0) == shard_contract_name(*state, address@, shard as int),
        decreases 3 - shard,
    {
        if bytes_eq(address, state.get_mvx_esdt_safe_address(shard)) {
            return if shard == 0 {
                "MVX ESDT Safe Shard 0"
            } else if shard == 1 {
                "MVX ESDT Safe Shard 1"
            } else {
                "MVX ESDT Safe Shard 2"
            };
        }
        if bytes_eq(address, state.get_fee_market_address(shard)) {
            return if shard == 0 {
                "Fee Market Shard 0"
            } else if shard == 1 {
                "Fee Market Shard 1"
            } else {
                "Fee Market Shard 2"
            };
        }
        shard = shard + 1;
    }
    "Unknown Address"
}


/// The text between a sovereign token's chain identifier and its random
/// suffix: "-SOV-".
pub open spec fn sov_infix() -> Seq<u8> {
    seq![45u8, 83, 79, 86, 45]
}

/// Whether `b` is a lower-case ASCII letter.
pub open spec fn is_lowercase_letter(b: u8) -> bool {
    97 <= b <= 122
}

/// A sovereign token identifier for the chain `chain_id`: the chain
/// identifier, "-SOV-" and six random lower-case letters.
pub fn create_random_sovereign_token_id(chain_id: &Vec<u8>) -> (r: Vec<u8>)
    ensures
        r@.len() == chain_id@.len() + 11,
        r@.subrange(0, chain_id@.len() as int) == chain_id@,
        r@.subrange(chain_id@.len() as int, chain_id@.len() + 5int) == sov_infix(),
        forall|i: int| chain_id@.len() + 5 <= i < r@.len() ==> is_lowercase_letter(#[trigger] r@[i]),
{
    let mut r = copy_bytes(chain_id);
    r.push(45u8);
    r.push(83u8);
    r.push(79u8);
    r.push(86u8);
    r.push(45u8);
    let n = chain_id.len();
    assert(r@.subrange(0, n as int) =~= chain_id@);
    assert(r@.subrange(n as int, n + 5) =~= sov_infix());
    let mut k: usize = 0;
    while k < 6
        invariant
            n == chain_id@.len(),
            k <= 6,
            r@.len() == n + 5 + k,
            r@.subrange(0, n as int) == chain_id@,
            r@.subrange(n as int, n + 5) == sov_infix(),
            forall|i: int| n + 5 <= i < r@.len() ==> is_lowercase_letter(#[trigger] r@[i]),
        decreases 6 - k,
    {
        let letter = 97u8 + random_index_below(26);
        let ghost before = r@;
        r.push(letter);
        assert(r@.subrange(0, n as int) =~= before.subrange(0, n as int));
        assert(r@.subrange(n as int, n + 5) =~= before.subrange(n as int, n + 5));
        k = k + 1;
    }
    r
}

} // verus!
