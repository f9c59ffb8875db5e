use vstd::prelude::*;
use crate::bytes::{bytes_eq, contains_bytes, copy_bytes, seq_has, views};
use crate::common_utils::pop_first_payment;
use crate::store::BytesMap;
use crate::errors::BridgeError;
use vstd::string::StringSliceAdditionalSpecFns;
use crate::types::{Amount, EsdtTokenType, Payment, PaymentView, copy_payments, payments_view};

verus! {

/// Most token transfers that one deposit may carry.
pub const MAX_TRANSFERS_PER_TX: usize = 10;
/// Cost of issuing a token (0.05 EGLD).
pub const DEFAULT_ISSUE_COST: u64 = 50_000_000_000_000_000;
/// Gas given to a token registration.
pub const REGISTER_GAS: u64 = 60_000_000;
/// Most gas that one transaction may use.
pub const MAX_GAS_PER_TRANSACTION: u64 = 600_000_000;

/// The most that one deposit may bridge of a token.
pub struct MaxBridgedAmount {
    pub token_id: Vec<u8>,
    pub amount: Amount,
}

/// Rules of an ESDT-Safe for deposits.
pub struct EsdtSafeConfig {
    pub token_whitelist: Vec<Vec<u8>>,
    pub token_blacklist: Vec<Vec<u8>>,
    pub max_tx_gas_limit: u64,
    pub banned_endpoints: Vec<Vec<u8>>,
    pub max_bridged_token_amounts: Vec<MaxBridgedAmount>,
}

/// A contract call that travels with a deposit.
pub struct TransferData {
    pub gas_limit: u64,
    pub function: Vec<u8>,
    pub args: Vec<Vec<u8>>,
}

/// Refuses a configuration whose gas limit is not below the transaction maximum.
pub fn require_esdt_config_valid(config: &EsdtSafeConfig) -> (r: Result<(), BridgeError>)
    ensures
        config.max_tx_gas_limit < MAX_GAS_PER_TRANSACTION ==> r is Ok,
        config.max_tx_gas_limit >= MAX_GAS_PER_TRANSACTION ==> r == Err::<(), BridgeError>(BridgeError::MaxGasLimitPerTxExceeded),
{
    if config.max_tx_gas_limit < MAX_GAS_PER_TRANSACTION {
        Ok(())
    } else {
        Err(BridgeError::MaxGasLimitPerTxExceeded)
    }
}

/// A deposit of `amount` of `token_id` exceeds one of the configured limits for that token.
pub open spec fn spec_is_above_max_amount(limits: Seq<MaxBridgedAmount>, token_id: Seq<u8>, amount: Amount) -> bool {
    exists|i: int| 0 <= i < limits.len() && limit_exceeded(#[trigger] limits[i], token_id, amount)
}

/// A deposit of `amount` of `token_id` exceeds the limit `l`.
pub open spec fn limit_exceeded(l: MaxBridgedAmount, token_id: Seq<u8>, amount: Amount) -> bool {
    l.token_id@ == token_id && amount > l.amount
}

pub fn is_above_max_amount(config: &EsdtSafeConfig, token_id: &Vec<u8>, amount: Amount) -> (r: bool)
    ensures
        r == spec_is_above_max_amount(config.max_bridged_token_amounts@, token_id@, amount),
{
    let limits = &config.max_bridged_token_amounts;
    let mut i: usize = 0;
    while i < limits.len()
        invariant
            i <= limits.len(),
            limits@ == config.max_bridged_token_amounts@,
            forall|j: int| 0 <= j < i ==> !limit_exceeded(#[trigger] limits@[j], token_id@, amount),
        decreases limits.len() - i,
    {
        if bytes_eq(&limits[i].token_id, token_id) && amount > limits[i].amount {
            assert(limit_exceeded(limits@[i as int], token_id@, amount));
            return true;
        }
        i = i + 1;
    }
    false
}

/// Whether a token is on the list (whitelist or blacklist).
pub open spec fn listed(list: Seq<Vec<u8>>, token_id: Seq<u8>) -> bool {
    seq_has(views(list), token_id)
}

/// Whether the token is blacklisted.
pub fn is_token_blacklisted(config: &EsdtSafeConfig, token_id: &Vec<u8>) -> (r: bool)
    ensures
        r == listed(config.token_blacklist@, token_id@),
{
    contains_bytes(&config.token_blacklist, token_id)
}

/// Whether the token is whitelisted.
pub fn is_token_whitelisted(config: &EsdtSafeConfig, token_id: &Vec<u8>) -> (r: bool)
    ensures
        r == listed(config.token_whitelist@, token_id@),
{
    contains_bytes(&config.token_whitelist, token_id)
}

/// Whether the endpoint may not be called through a deposit.
pub fn is_endpoint_banned(config: &EsdtSafeConfig, function: &Vec<u8>) -> (r: bool)
    ensures
        r == listed(config.banned_endpoints@, function@),
{
    contains_bytes(&config.banned_endpoints, function)
}

/// Whether a token type is semi-fungible or meta-ESDT (static or dynamic).
pub open spec fn spec_is_sft_or_meta(t: EsdtTokenType) -> bool {
    t == EsdtTokenType::SemiFungible || t == EsdtTokenType::DynamicSFT || t == EsdtTokenType::MetaFungible
        || t == EsdtTokenType::DynamicMeta
}

/// Whether a token type is non-fungible (any version, static or dynamic).
pub open spec fn spec_is_nft(t: EsdtTokenType) -> bool {
    t == EsdtTokenType::NonFungible || t == EsdtTokenType::NonFungibleV2 || t == EsdtTokenType::DynamicNFT
}

/// The decimal digits of `n`, most significant first.
pub open spec fn decimal(n: nat) -> Seq<u8>
    decreases n,
{
    if n < 10 {
        seq![(48 + n) as u8]
    } else {
        decimal(n / 10).push((48 + n % 10) as u8)
    }
}

/// `n` written in decimal.
pub fn u32_to_decimal(n: u32) -> (r: Vec<u8>)
    ensures
        r@ == decimal(n as nat),
    decreases n,
{
    if n < 10 {
        let mut v: Vec<u8> = Vec::new();
        v.push(48u8 + n as u8);
        v
    } else {
        let mut v = u32_to_decimal(n / 10);
        v.push(48u8 + (n % 10) as u8);
        v
    }
}

/// The helpers that execute operations with: the chain's native token, and
/// the kinds of token an operation may carry.
pub struct ExecuteCommonModule {
    pub native_token: Option<Vec<u8>>,
}

/// The error a failed local burn or mint reports: the prefix, the token, and
/// the error code the protocol gave.
pub open spec fn formatted_error(error: Seq<u8>, token_id: Seq<u8>, error_code: u32) -> Seq<u8> {
    error + seq![32u8] + token_id + "; error code: ".spec_bytes() + decimal(error_code as nat)
}

impl ExecuteCommonModule {
    /// Whether `token_id` is the chain's native token (false when none is registered).
    pub fn is_native_token(&self, token_id: &Vec<u8>) -> (r: bool)
        ensures
            r == match self.native_token {
                Some(t) => t@ == token_id@,
                None => false,
            },
    {
        match &self.native_token {
            Some(t) => bytes_eq(token_id, t),
            None => false,
        }
    }

    /// Formats an error as "<error> <token>; error code: <code>".
    pub fn format_error(&self, error: &str, token_id: &Vec<u8>, error_code: u32) -> (r: Vec<u8>)
        ensures
            r@ == formatted_error(error.spec_bytes(), token_id@, error_code),
    {
        let mut r = error.as_bytes_vec();
        r.push(32u8);
        let mut i: usize = 0;
        let ghost start = r@;
        while i < token_id.len()
            invariant
                i <= token_id.len(),
                r@ == start + token_id@.subrange(0, i as int),
            decreases token_id.len() - i,
        {
            r.push(token_id[i]);
            i = i + 1;
            assert(r@ =~= start + token_id@.subrange(0, i as int));
        }
        assert(token_id@.subrange(0, token_id.len() as int) =~= token_id@);
        let mut tail = "; error code: ".as_bytes_vec();
        let mut digits = u32_to_decimal(error_code);
        r.append(&mut tail);
        r.append(&mut digits);
        r
    }

    /// What a local burn of `token_id` answers, given the protocol's outcome:
    /// its error code becomes a formatted burn error.
    pub fn try_esdt_local_burn(&self, token_id: &Vec<u8>, outcome: Result<(), u32>) -> (r: Result<(), Vec<u8>>)
        ensures
            outcome is Ok ==> r is Ok,
            outcome matches Err(code) ==> (r matches Err(m)
                && m@ == formatted_error(BridgeError::BurnEsdtFailed.message_view(), token_id@, code)),
    {
        match outcome {
            Ok(()) => Ok(()),
            Err(code) => {
                let prefix = BridgeError::BurnEsdtFailed.message();
                proof {
                    assert(BridgeError::BurnEsdtFailed.message_view() == prefix.spec_bytes());
                }
                Err(self.format_error(prefix, token_id, code))
            },
        }
    }

    /// What a local mint of `token_id` answers, given the protocol's outcome:
    /// its error code becomes a formatted mint error.
    pub fn try_esdt_local_mint(&self, token_id: &Vec<u8>, outcome: Result<(), u32>) -> (r: Result<(), Vec<u8>>)
        ensures
            outcome is Ok ==> r is Ok,
            outcome matches Err(code) ==> (r matches Err(m)
                && m@ == formatted_error(BridgeError::MintEsdtFailed.message_view(), token_id@, code)),
    {
        match outcome {
            Ok(()) => Ok(()),
            Err(code) => {
                let prefix = BridgeError::MintEsdtFailed.message();
                proof {
                    assert(BridgeError::MintEsdtFailed.message_view() == prefix.spec_bytes());
                }
                Err(self.format_error(prefix, token_id, code))
            },
        }
    }

    /// Whether a token type is fungible.
    pub fn is_fungible(&self, token_type: EsdtTokenType) -> (r: bool)
        ensures
            r == (token_type == EsdtTokenType::Fungible),
    {
        matches!(token_type, EsdtTokenType::Fungible)
    }

    /// Whether a token type is semi-fungible or meta-ESDT (static or dynamic).
    pub fn is_sft_or_meta(&self, token_type: EsdtTokenType) -> (r: bool)
        ensures
            r == spec_is_sft_or_meta(token_type),
    {
        matches!(token_type, EsdtTokenType::SemiFungible | EsdtTokenType::DynamicSFT | EsdtTokenType::MetaFungible | EsdtTokenType::DynamicMeta)
    }

    /// Whether a token type is non-fungible (any version, static or dynamic).
    pub fn is_nft(&self, token_type: EsdtTokenType) -> (r: bool)
        ensures
            r == spec_is_nft(token_type),
    {
        matches!(token_type, EsdtTokenType::NonFungible | EsdtTokenType::NonFungibleV2 | EsdtTokenType::DynamicNFT)
    }
}

/// Why one deposited payment is refused: over its limit, or blacklisted.
pub open spec fn payment_error(config: EsdtSafeConfig, p: PaymentView) -> Option<BridgeError> {
    if spec_is_above_max_amount(config.max_bridged_token_amounts@, p.token_id, p.amount) {
        Some(BridgeError::DepositOverMaxAmount)
    } else if listed(config.token_blacklist@, p.token_id) {
        Some(BridgeError::TokenBlacklisted)
    } else {
        None
    }
}

/// The first refused payment's error, in order.
pub open spec fn payments_error(config: EsdtSafeConfig, ps: Seq<PaymentView>) -> Option<BridgeError>
    decreases ps.len(),
{
    if ps.len() == 0 {
        None
    } else if payments_error(config, ps.drop_last()) is Some {
        payments_error(config, ps.drop_last())
    } else {
        payment_error(config, ps.last())
    }
}

/// A payment is bridged when the whitelist is empty or names its token;
/// otherwise it is refunded.
pub open spec fn is_bridged(config: EsdtSafeConfig, p: PaymentView) -> bool {
    config.token_whitelist@.len() == 0 || listed(config.token_whitelist@, p.token_id)
}

/// The payments that are bridged, in order.
pub open spec fn bridged_payments(config: EsdtSafeConfig, ps: Seq<PaymentView>) -> Seq<PaymentView>
    decreases ps.len(),
{
    if ps.len() == 0 {
        Seq::empty()
    } else if is_bridged(config, ps.last()) {
        bridged_payments(config, ps.drop_last()).push(ps.last())
    } else {
        bridged_payments(config, ps.drop_last())
    }
}

/// The payments that are refunded, in order.
pub open spec fn refunded_payments(config: EsdtSafeConfig, ps: Seq<PaymentView>) -> Seq<PaymentView>
    decreases ps.len(),
{
    if ps.len() == 0 {
        Seq::empty()
    } else if is_bridged(config, ps.last()) {
        refunded_payments(config, ps.drop_last())
    } else {
        refunded_payments(config, ps.drop_last()).push(ps.last())
    }
}

/// What a deposit does once it passes its checks: the fee payment forwarded to
/// the fee market (with the number of bridged tokens and the gas it pays for),
/// the payments bridged, the payments refunded to the depositor, and the nonce
/// of the deposit event; `is_sc_call` when no token travels, only a call.
pub struct DepositPlan {
    pub fee_payment: Option<Payment>,
    pub total_tokens_for_fees: usize,
    pub fee_gas: u64,
    pub bridged: Vec<Payment>,
    pub refunds: Vec<Payment>,
    pub tx_nonce: u64,
    pub is_sc_call: bool,
}

/// How the payments of a deposit split into the fee payment and the others:
/// with fees on, the first payment pays the fee.
pub open spec fn extract_fee(fee_enabled: bool, has_transfer_data: bool, ps: Seq<PaymentView>)
    -> Result<(Option<PaymentView>, Seq<PaymentView>), BridgeError> {
    if ps.len() > MAX_TRANSFERS_PER_TX {
        Err(BridgeError::TooManyTokens)
    } else if fee_enabled {
        if ps.len() == 0 {
            Err(BridgeError::ErrEmptyPayments)
        } else {
            Ok((Some(ps[0]), ps.drop_first()))
        }
    } else if ps.len() == 0 && !has_transfer_data {
        Err(BridgeError::NothingToTransfer)
    } else {
        Ok((None, ps))
    }
}

/// Why a deposit is refused, checked in the order the contract checks.
pub open spec fn deposit_error(
    paused: bool,
    config: EsdtSafeConfig,
    fee_enabled: bool,
    transfer_data: Option<(u64, Seq<u8>)>,
    ps: Seq<PaymentView>,
) -> Option<BridgeError> {
    if paused {
        Some(BridgeError::EsdtSafeStillPaused)
    } else if transfer_data matches Some((gas, _)) && gas > config.max_tx_gas_limit {
        Some(BridgeError::GasLimitTooHigh)
    } else if transfer_data matches Some((_, function)) && listed(config.banned_endpoints@, function) {
        Some(BridgeError::BannedEndpointName)
    } else {
        match extract_fee(fee_enabled, transfer_data is Some, ps) {
            Err(e) => Some(e),
            Ok((_, rest)) => payments_error(config, rest),
        }
    }
}

pub open spec fn transfer_data_view(td: Option<TransferData>) -> Option<(u64, Seq<u8>)> {
    match td {
        Some(t) => Some((t.gas_limit, t.function@)),
        None => None,
    }
}

/// Mathematical value of the cross-chain storage that deposits use.
pub struct CrossChainStorage {
    pub paused: bool,
    pub last_tx_nonce: u64,
    pub esdt_safe_config: EsdtSafeConfig,
    pub fee_market_address: Vec<u8>,
    pub native_token: Option<Vec<u8>>,
}

impl CrossChainStorage {
    /// Increments the deposit nonce and returns it.
    pub fn get_and_save_next_tx_id(&mut self) -> (r: u64)
        requires
            old(self).last_tx_nonce < u64::MAX,
        ensures
            r == old(self).last_tx_nonce + 1,
            final(self).last_tx_nonce == r,
            final(self).paused == old(self).paused,
            final(self).esdt_safe_config == old(self).esdt_safe_config,
            final(self).native_token == old(self).native_token,
            final(self).fee_market_address == old(self).fee_market_address,
    {
        self.last_tx_nonce = self.last_tx_nonce + 1;
        self.last_tx_nonce
    }

    /// Checks a deposit of `payments` (all tokens sent with the call) towards
    /// `to`, with an optional contract call, and plans what it does.
    /// `fee_enabled` is the fee market's fee flag.
    #[verifier::loop_isolation(false)]
    pub fn deposit_common(
        &mut self,
        payments: Vec<Payment>,
        fee_enabled: bool,
        transfer_data: &Option<TransferData>,
    ) -> (r: Result<DepositPlan, BridgeError>)
        requires
            old(self).last_tx_nonce < u64::MAX,
        ensures
            ({
                let ps = payments_view(payments@);
                let td = transfer_data_view(*transfer_data);
                match deposit_error(old(self).paused, old(self).esdt_safe_config, fee_enabled, td, ps) {
                    Some(e) => r == Err::<DepositPlan, BridgeError>(e) && final(self).last_tx_nonce == old(self).last_tx_nonce,
                    None => {
                        let (fee, rest) = extract_fee(fee_enabled, td is Some, ps)->Ok_0;
                        let plan = r->Ok_0;
                        &&& r is Ok
                        &&& match plan.fee_payment {
                            Some(f) => fee == Some(f@),
                            None => fee is None,
                        }
                        &&& plan.total_tokens_for_fees == bridged_payments(old(self).esdt_safe_config, rest).len()
                        &&& plan.fee_gas == (match td { Some((gas, _)) => gas, None => 0 })
                        &&& payments_view(plan.bridged@) == bridged_payments(old(self).esdt_safe_config, rest)
                        &&& payments_view(plan.refunds@) == refunded_payments(old(self).esdt_safe_config, rest)
                        &&& plan.tx_nonce == old(self).last_tx_nonce + 1
                        &&& final(self).last_tx_nonce == plan.tx_nonce
                        &&& plan.is_sc_call == (rest.len() == 0)
                    },
                }
            }),
            final(self).paused == old(self).paused,
            final(self).esdt_safe_config == old(self).esdt_safe_config,
            final(self).native_token == old(self).native_token,
            final(self).fee_market_address == old(self).fee_market_address,
    {
        if self.paused {
            return Err(BridgeError::EsdtSafeStillPaused);
        }
        match transfer_data {
            Some(td) => {
                if td.gas_limit > self.esdt_safe_config.max_tx_gas_limit {
                    return Err(BridgeError::GasLimitTooHigh);
                }
                if is_endpoint_banned(&self.esdt_safe_config, &td.function) {
                    return Err(BridgeError::BannedEndpointName);
                }
            },
            None => {},
        }
        let ghost ps = payments_view(payments@);
        if payments.len() > MAX_TRANSFERS_PER_TX {
            return Err(BridgeError::TooManyTokens);
        }
        let (fee_payment, rest) = if fee_enabled {
            match pop_first_payment(payments) {
                Ok((f, r)) => (Some(f), r),
                Err(e) => {
                    return Err(e);
                },
            }
        } else {
            if payments.len() == 0 && transfer_data.is_none() {
                return Err(BridgeError::NothingToTransfer);
            }
            (None, payments)
        };
        let ghost rv = payments_view(rest@);
        let mut bridged: Vec<Payment> = Vec::new();
        let mut refunds: Vec<Payment> = Vec::new();
        let mut i: usize = 0;
        while i < rest.len()
            invariant
                i <= rest.len(),
                rv == payments_view(rest@),
                payments_error(self.esdt_safe_config, rv.subrange(0, i as int)) is None,
                payments_view(bridged@) == bridged_payments(self.esdt_safe_config, rv.subrange(0, i as int)),
                payments_view(refunds@) == refunded_payments(self.esdt_safe_config, rv.subrange(0, i as int)),
            decreases rest.len() - i,
        {
            let ghost pre = rv.subrange(0, i as int);
            let ghost next = rv.subrange(0, i + 1);
            assert(next.drop_last() =~= pre);
            assert(next.last() == rest@[i as int]@);
            let p = &rest[i];
            if is_above_max_amount(&self.esdt_safe_config, &p.token_id, p.amount) {
                proof { lemma_payments_error_prefix(self.esdt_safe_config, rv, i + 1); }
                return Err(BridgeError::DepositOverMaxAmount);
            }
            if is_token_blacklisted(&self.esdt_safe_config, &p.token_id) {
                proof { lemma_payments_error_prefix(self.esdt_safe_config, rv, i + 1); }
                return Err(BridgeError::TokenBlacklisted);
            }
            if self.esdt_safe_config.token_whitelist.len() != 0 && !is_token_whitelisted(&self.esdt_safe_config, &p.token_id) {
                refunds.push(p.duplicate());
                assert(payments_view(refunds@) =~= refunded_payments(self.esdt_safe_config, pre).push(p@));
            } else {
                bridged.push(p.duplicate());
                assert(payments_view(bridged@) =~= bridged_payments(self.esdt_safe_config, pre).push(p@));
            }
            i = i + 1;
        }
        assert(rv.subrange(0, rest.len() as int) =~= rv);
        proof { lemma_bridged_len(self.esdt_safe_config, rv); }
        let total_tokens_for_fees = bridged.len();
        let fee_gas: u64 = match transfer_data {
            Some(td) => td.gas_limit,
            None => 0,
        };
        let tx_nonce = self.get_and_save_next_tx_id();
        Ok(DepositPlan {
            fee_payment,
            total_tokens_for_fees,
            fee_gas,
            bridged,
            refunds,
            tx_nonce,
            is_sc_call: rest.len() == 0,
        })
    }
}

proof fn lemma_payments_error_prefix(config: EsdtSafeConfig, ps: Seq<PaymentView>, k: int)
    requires
        0 <= k <= ps.len(),
        payments_error(config, ps.subrange(0, k)) is Some,
    ensures
        payments_error(config, ps) == payments_error(config, ps.subrange(0, k)),
    decreases ps.len() - k,
{
    if k < ps.len() {
        assert(ps.subrange(0, k + 1).drop_last() =~= ps.subrange(0, k));
        lemma_payments_error_prefix(config, ps, k + 1);
    } else {
        assert(ps.subrange(0, k) =~= ps);
    }
}

proof fn lemma_bridged_len(config: EsdtSafeConfig, ps: Seq<PaymentView>)
    ensures
        bridged_payments(config, ps).len() <= ps.len(),
    decreases ps.len(),
{
    if ps.len() > 0 {
        lemma_bridged_len(config, ps.drop_last());
    }
}

/// A deposit that passes its checks loses no payment and duplicates none: the
/// payments after the fee split into those it bridges, all accepted by the
/// whitelist, and those it refunds, all refused by it, each payment once.
pub proof fn lemma_deposit_splits_payments(config: EsdtSafeConfig, ps: Seq<PaymentView>)
    ensures
        bridged_payments(config, ps).to_multiset().add(refunded_payments(config, ps).to_multiset()) == ps.to_multiset(),
        bridged_payments(config, ps).len() + refunded_payments(config, ps).len() == ps.len(),
        forall|j: int| 0 <= j < bridged_payments(config, ps).len() ==> is_bridged(config, #[trigger] bridged_payments(config, ps)[j]),
        forall|j: int| 0 <= j < refunded_payments(config, ps).len() ==> !is_bridged(config, #[trigger] refunded_payments(config, ps)[j]),
    decreases ps.len(),
{
    broadcast use vstd::seq_lib::group_to_multiset_ensures;
    if ps.len() == 0 {
        assert(bridged_payments(config, ps).to_multiset() =~= vstd::multiset::Multiset::empty());
        assert(refunded_payments(config, ps).to_multiset() =~= vstd::multiset::Multiset::empty());
        assert(ps.to_multiset() =~= vstd::multiset::Multiset::empty());
    } else {
        let prev = ps.drop_last();
        lemma_deposit_splits_payments(config, prev);
        assert(prev.push(ps.last()) =~= ps);
        let b = bridged_payments(config, prev);
        let f = refunded_payments(config, prev);
        if is_bridged(config, ps.last()) {
            assert(bridged_payments(config, ps) == b.push(ps.last()));
            assert forall|j: int| 0 <= j < b.push(ps.last()).len() implies is_bridged(config, #[trigger] b.push(ps.last())[j]) by {
                if j < b.len() {
                    assert(b.push(ps.last())[j] == b[j]);
                }
            }
            assert(b.push(ps.last()).to_multiset().add(f.to_multiset()) =~= ps.to_multiset());
        } else {
            assert(refunded_payments(config, ps) == f.push(ps.last()));
            assert forall|j: int| 0 <= j < f.push(ps.last()).len() implies !is_bridged(config, #[trigger] f.push(ps.last())[j]) by {
                if j < f.len() {
                    assert(f.push(ps.last())[j] == f[j]);
                }
            }
            assert(b.to_multiset().add(f.push(ps.last()).to_multiset()) =~= ps.to_multiset());
        }
    }
}

/// The eight big-endian bytes of a 64-bit number.
pub open spec fn be64(n: u64) -> Seq<u8> {
    seq![
        ((n / 0x100000000000000) % 256) as u8,
        ((n / 0x1000000000000) % 256) as u8,
        ((n / 0x10000000000) % 256) as u8,
        ((n / 0x100000000) % 256) as u8,
        ((n / 0x1000000) % 256) as u8,
        ((n / 0x10000) % 256) as u8,
        ((n / 0x100) % 256) as u8,
        (n % 256) as u8,
    ]
}

/// The storage key of a token's information: its identifier, then its nonce.
pub open spec fn info_key(token_id: Seq<u8>, nonce: u64) -> Seq<u8> {
    token_id + be64(nonce)
}

fn info_key_bytes(token_id: &Vec<u8>, nonce: u64) -> (r: Vec<u8>)
    ensures
        r@ == info_key(token_id@, nonce),
{
    let mut r = copy_bytes(token_id);
    r.push(((nonce / 0x100000000000000) % 256) as u8);
    r.push(((nonce / 0x1000000000000) % 256) as u8);
    r.push(((nonce / 0x10000000000) % 256) as u8);
    r.push(((nonce / 0x100000000) % 256) as u8);
    r.push(((nonce / 0x1000000) % 256) as u8);
    r.push(((nonce / 0x10000) % 256) as u8);
    r.push(((nonce / 0x100) % 256) as u8);
    r.push((nonce % 256) as u8);
    assert(r@ =~= info_key(token_id@, nonce));
    r
}

/// A token on the other side of the bridge: its identifier and nonce.
pub struct EsdtInfo {
    pub token_identifier: Vec<u8>,
    pub token_nonce: u64,
}

/// The pairing of tokens across the bridge, both ways, by identifier and nonce.
pub struct TokenMappers {
    pub multiversx_to_sovereign_esdt_info: BytesMap<EsdtInfo>,
    pub sovereign_to_multiversx_esdt_info: BytesMap<EsdtInfo>,
}

impl TokenMappers {
    pub open spec fn wf(&self) -> bool {
        &&& self.multiversx_to_sovereign_esdt_info.wf()
        &&& self.sovereign_to_multiversx_esdt_info.wf()
    }

    /// After a MultiversX token is burnt for the trip back: the nonce its
    /// sovereign counterpart has (zero for a fungible token); an NFT's pairing
    /// is forgotten both ways.
    pub fn burn_mainchain_token(
        &mut self,
        token_id: &Vec<u8>,
        token_nonce: u64,
        payment_token_type: EsdtTokenType,
        sov_token_id: &Vec<u8>,
    ) -> (r: u64)
        requires
            old(self).wf(),
            token_nonce > 0 ==> old(self).multiversx_to_sovereign_esdt_info@.contains_key(info_key(token_id@, token_nonce)),
        ensures
            final(self).wf(),
            token_nonce == 0 ==> r == 0
                && final(self).multiversx_to_sovereign_esdt_info@ == old(self).multiversx_to_sovereign_esdt_info@
                && final(self).sovereign_to_multiversx_esdt_info@ == old(self).sovereign_to_multiversx_esdt_info@,
            token_nonce > 0 ==> r == old(self).multiversx_to_sovereign_esdt_info@[info_key(token_id@, token_nonce)].token_nonce,
            token_nonce > 0 && spec_is_nft(payment_token_type) ==>
                final(self).multiversx_to_sovereign_esdt_info@ == old(self).multiversx_to_sovereign_esdt_info@.remove(info_key(token_id@, token_nonce))
                && final(self).sovereign_to_multiversx_esdt_info@ == old(self).sovereign_to_multiversx_esdt_info@.remove(info_key(sov_token_id@, r)),
            token_nonce > 0 && !spec_is_nft(payment_token_type) ==>
                final(self).multiversx_to_sovereign_esdt_info@ == old(self).multiversx_to_sovereign_esdt_info@
                && final(self).sovereign_to_multiversx_esdt_info@ == old(self).sovereign_to_multiversx_esdt_info@,
    {
        if token_nonce == 0 {
            return 0;
        }
        let key = info_key_bytes(token_id, token_nonce);
        let sov_token_nonce = match self.multiversx_to_sovereign_esdt_info.get(&key) {
            Some(info) => info.token_nonce,
            None => 0,
        };
        let nft = matches!(payment_token_type, EsdtTokenType::NonFungible | EsdtTokenType::NonFungibleV2 | EsdtTokenType::DynamicNFT);
        if nft {
            let _ = self.multiversx_to_sovereign_esdt_info.remove(&key);
            let sov_key = info_key_bytes(sov_token_id, sov_token_nonce);
            let _ = self.sovereign_to_multiversx_esdt_info.remove(&sov_key);
        }
        sov_token_nonce
    }
}

/// Whether some entry of the whitelist is exactly `token`.
pub open spec fn on_whitelist(whitelist: Seq<Vec<u8>>, token: Seq<u8>) -> bool {
    exists|k: int| 0 <= k < whitelist.len() && (#[trigger] whitelist[k])@ == token
}

/// With an empty token whitelist, every payment of a deposit is bridged, in
/// order, and none is refunded. With a non-empty one, a bridged payment's
/// token is on the whitelist and a refunded payment's token is not.
pub proof fn lemma_whitelist_decides_bridging(config: EsdtSafeConfig, ps: Seq<PaymentView>)
    ensures
        config.token_whitelist@.len() == 0 ==> bridged_payments(config, ps) == ps,
        config.token_whitelist@.len() == 0 ==> refunded_payments(config, ps).len() == 0,
        config.token_whitelist@.len() > 0 ==> forall|j: int| 0 <= j < bridged_payments(config, ps).len()
            ==> on_whitelist(config.token_whitelist@, (#[trigger] bridged_payments(config, ps)[j]).token_id),
        config.token_whitelist@.len() > 0 ==> forall|j: int| 0 <= j < refunded_payments(config, ps).len()
            ==> !on_whitelist(config.token_whitelist@, (#[trigger] refunded_payments(config, ps)[j]).token_id),
    decreases ps.len(),
{
    lemma_deposit_splits_payments(config, ps);
    if ps.len() > 0 {
        lemma_whitelist_decides_bridging(config, ps.drop_last());
        if config.token_whitelist@.len() == 0 {
            assert(bridged_payments(config, ps) =~= ps);
        }
    }
    if config.token_whitelist@.len() > 0 {
        let wl = config.token_whitelist@;
        let b = bridged_payments(config, ps);
        let f = refunded_payments(config, ps);
        assert forall|j: int| 0 <= j < b.len() implies on_whitelist(wl, (#[trigger] b[j]).token_id) by {
            assert(is_bridged(config, b[j]));
            let k = choose|k: int| 0 <= k < views(wl).len() && views(wl)[k] == b[j].token_id;
            assert(views(wl)[k] == wl[k]@);
        }
        assert forall|j: int| 0 <= j < f.len() implies !on_whitelist(wl, (#[trigger] f[j]).token_id) by {
            assert(!is_bridged(config, f[j]));
            if on_whitelist(wl, f[j].token_id) {
                let k = choose|k: int| 0 <= k < wl.len() && (#[trigger] wl[k])@ == f[j].token_id;
                assert(views(wl)[k] == wl[k]@);
            }
        }
    }
}

} // verus!
