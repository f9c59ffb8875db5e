use vstd::prelude::*;
use crate::bytes::{bytes_eq, copy_bytes};
use crate::common_utils::{is_zero_address, require_sc_address};
use crate::errors::BridgeError;
use crate::hash::{be32, encode_address_percentage, sha256, sha256_bytes};
use crate::store::BytesMap;
use crate::token::{is_valid_token_id, spec_is_valid_token_id};
use crate::types::{Amount, Payment, PaymentView};

verus! {

/// The whole that fee-distribution percentages are parts of (100.00 %).
pub const TOTAL_PERCENTAGE: usize = 10_000;

/// How a token is charged as a bridge fee.
pub enum FeeType {
    NoFee,
    Fixed { token: Vec<u8>, per_transfer: Amount, per_gas: Amount },
}

/// Mathematical value of a [`FeeType`].
pub enum FeeTypeView {
    NoFee,
    Fixed { token: Seq<u8>, per_transfer: Amount, per_gas: Amount },
}

impl View for FeeType {
    type V = FeeTypeView;

    open spec fn view(&self) -> FeeTypeView {
        match self {
            FeeType::NoFee => FeeTypeView::NoFee,
            FeeType::Fixed { token, per_transfer, per_gas } => FeeTypeView::Fixed {
                token: token@,
                per_transfer: *per_transfer,
                per_gas: *per_gas,
            },
        }
    }
}

/// The fee that applies to `base_token`.
pub struct FeeStruct {
    pub base_token: Vec<u8>,
    pub fee_type: FeeType,
}

/// A share of the collected fees: `percentage` parts of [`TOTAL_PERCENTAGE`] go to `address`.
pub struct AddressPercentagePair {
    pub address: Vec<u8>,
    pub percentage: usize,
}

/// A payment split into the fee taken and the tokens that remain.
pub struct FinalPayment {
    pub fee: Payment,
    pub remaining_tokens: Payment,
}

/// A transfer the contract makes.
pub struct Transfer {
    pub to: Vec<u8>,
    pub payment: Payment,
}

/// Mathematical value of a [`Transfer`].
pub struct TransferView {
    pub to: Seq<u8>,
    pub payment: PaymentView,
}

impl View for Transfer {
    type V = TransferView;

    open spec fn view(&self) -> TransferView {
        TransferView { to: self.to@, payment: self.payment@ }
    }
}

pub open spec fn transfers_view(s: Seq<Transfer>) -> Seq<TransferView> {
    s.map_values(|t: Transfer| t@)
}

/// A fee share: `total_fees * percentage / percentage_total`, rounded down.
pub open spec fn fee_share(total_fees: int, percentage: int, percentage_total: int) -> int {
    total_fees * percentage / percentage_total
}

/// Computes a fee share (see [`fee_share`]).
pub fn calculate_fee_amount(total_fees: Amount, percentage: usize, percentage_total: Amount) -> (r: Amount)
    requires
        percentage_total > 0,
        total_fees * percentage <= u128::MAX,
    ensures
        r == fee_share(total_fees as int, percentage as int, percentage_total as int),
{
    let p = percentage as u128;
    (total_fees * p) / percentage_total
}

/// Sum of the percentages of a list of pairs.
pub open spec fn percentage_sum(pairs: Seq<AddressPercentagePair>) -> int
    decreases pairs.len(),
{
    if pairs.len() == 0 {
        0
    } else {
        percentage_sum(pairs.drop_last()) + pairs.last().percentage
    }
}

proof fn lemma_percentage_sum_bounds(pairs: Seq<AddressPercentagePair>)
    ensures
        0 <= percentage_sum(pairs) <= pairs.len() * (usize::MAX as int),
    decreases pairs.len(),
{
    if pairs.len() > 0 {
        lemma_percentage_sum_bounds(pairs.drop_last());
    }
}

/// Refuses percentages that do not add up to [`TOTAL_PERCENTAGE`].
pub fn validate_percentage_sum(pairs: &Vec<AddressPercentagePair>) -> (r: Option<Vec<u8>>)
    ensures
        percentage_sum(pairs@) == TOTAL_PERCENTAGE ==> r is None,
        percentage_sum(pairs@) != TOTAL_PERCENTAGE ==> r is Some && r->0@ == BridgeError::InvalidPercentageSum.message_view(),
{
    let mut sum: u128 = 0;
    let mut i: usize = 0;
    let mut over = false;
    while i < pairs.len()
        invariant
            i <= pairs.len(),
            !over ==> sum == percentage_sum(pairs@.subrange(0, i as int)),
            over ==> percentage_sum(pairs@.subrange(0, i as int)) > TOTAL_PERCENTAGE,
            sum <= TOTAL_PERCENTAGE,
        decreases pairs.len() - i,
    {
        assert(pairs@.subrange(0, i + 1).drop_last() =~= pairs@.subrange(0, i as int));
        proof { lemma_percentage_sum_bounds(pairs@.subrange(0, i as int)); }
        if !over {
            let next = sum + pairs[i].percentage as u128;
            if next > TOTAL_PERCENTAGE as u128 {
                over = true;
            } else {
                sum = next;
            }
        }
        i = i + 1;
    }
    assert(pairs@.subrange(0, pairs.len() as int) =~= pairs@);
    if over || sum != TOTAL_PERCENTAGE as u128 {
        Some(BridgeError::InvalidPercentageSum.message_bytes())
    } else {
        None
    }
}

/// Builds the pairs of a fee distribution from `(address, percentage)` arguments.
pub fn parse_pairs(args: Vec<(Vec<u8>, usize)>) -> (r: Vec<AddressPercentagePair>)
    ensures
        r@.len() == args@.len(),
        forall|i: int| #![trigger r@[i]] 0 <= i < args@.len() ==> r@[i].address@ == args@[i].0@ && r@[i].percentage == args@[i].1,
{
    let mut pairs: Vec<AddressPercentagePair> = Vec::new();
    let mut i: usize = 0;
    while i < args.len()
        invariant
            i <= args.len(),
            pairs@.len() == i,
            forall|j: int| #![trigger pairs@[j]] 0 <= j < i ==> pairs@[j].address@ == args@[j].0@ && pairs@[j].percentage == args@[j].1,
        decreases args.len() - i,
    {
        pairs.push(AddressPercentagePair { address: copy_bytes(&args[i].0), percentage: args[i].1 });
        i = i + 1;
    }
    pairs
}

/// The hash of one pair: SHA-256 of its encoding.
pub open spec fn pair_hash(p: AddressPercentagePair) -> Seq<u8> {
    sha256(p.address@ + be32(p.percentage as u32))
}

/// The concatenated hashes of a list of pairs.
pub open spec fn concat_pair_hashes(pairs: Seq<AddressPercentagePair>) -> Seq<u8>
    decreases pairs.len(),
{
    if pairs.len() == 0 {
        Seq::empty()
    } else {
        concat_pair_hashes(pairs.drop_last()) + pair_hash(pairs.last())
    }
}

/// The hash that a fee-distribution operation is signed under: SHA-256 of the
/// concatenated hashes of its pairs.
pub fn generate_pairs_hash(pairs: &Vec<AddressPercentagePair>) -> (r: Vec<u8>)
    requires
        forall|i: int| 0 <= i < pairs@.len() ==> (#[trigger] pairs@[i]).address@.len() == 32,
    ensures
        r@ == sha256(concat_pair_hashes(pairs@)),
{
    let mut aggregated: Vec<u8> = Vec::new();
    let mut i: usize = 0;
    while i < pairs.len()
        invariant
            i <= pairs.len(),
            forall|j: int| 0 <= j < pairs@.len() ==> (#[trigger] pairs@[j]).address@.len() == 32,
            aggregated@ == concat_pair_hashes(pairs@.subrange(0, i as int)),
        decreases pairs.len() - i,
    {
        let enc = encode_address_percentage(&pairs[i].address, pairs[i].percentage);
        let h = sha256_bytes(&enc);
        let ghost prev = aggregated@;
        let mut k: usize = 0;
        while k < h.len()
            invariant
                k <= h.len(),
                aggregated@ == prev + h@.subrange(0, k as int),
            decreases h.len() - k,
        {
            aggregated.push(h[k]);
            k = k + 1;
            assert(aggregated@ =~= prev + h@.subrange(0, k as int));
        }
        assert(h@.subrange(0, h.len() as int) =~= h@);
        assert(pairs@.subrange(0, i + 1).drop_last() =~= pairs@.subrange(0, i as int));
        i = i + 1;
    }
    assert(pairs@.subrange(0, pairs.len() as int) =~= pairs@);
    sha256_bytes(&aggregated)
}

/// The fee charged for `total_transfers` transfers and, when given, `gas` units of gas.
pub open spec fn fixed_fee(per_transfer: Amount, per_gas: Amount, total_transfers: usize, gas: Option<u64>) -> int {
    per_transfer * (total_transfers as u32) + match gas {
        Some(g) => per_gas * g,
        None => 0,
    }
}

/// Takes a fixed fee, paid in the fee token itself, out of `payment`.
pub fn subtract_fee_same_token(
    payment: Payment,
    fee_token: &Vec<u8>,
    per_transfer: Amount,
    per_gas: Amount,
    total_transfers: usize,
    opt_gas_limit: Option<u64>,
) -> (r: Result<FinalPayment, BridgeError>)
    requires
        fixed_fee(per_transfer, per_gas, total_transfers, opt_gas_limit) <= u128::MAX,
    ensures
        payment.token_id@ != fee_token@ ==> r == Err::<FinalPayment, BridgeError>(BridgeError::InvalidTokenProvidedForFee),
        payment.token_id@ == fee_token@ && fixed_fee(per_transfer, per_gas, total_transfers, opt_gas_limit) > payment.amount
            ==> r == Err::<FinalPayment, BridgeError>(BridgeError::PaymentDoesNotCoverFee),
        payment.token_id@ == fee_token@ && fixed_fee(per_transfer, per_gas, total_transfers, opt_gas_limit) <= payment.amount
            ==> r is Ok && ({
                let f = fixed_fee(per_transfer, per_gas, total_transfers, opt_gas_limit);
                &&& r->Ok_0.fee@ == PaymentView { token_id: payment.token_id@, nonce: 0, amount: f as u128 }
                &&& r->Ok_0.remaining_tokens@ == PaymentView { token_id: payment.token_id@, nonce: payment.nonce, amount: (payment.amount - f) as u128 }
            }),
{
    if !bytes_eq(&payment.token_id, fee_token) {
        return Err(BridgeError::InvalidTokenProvidedForFee);
    }
    let n = total_transfers as u32;
    let mut total_fee: Amount = per_transfer * (n as u128);
    match opt_gas_limit {
        Some(gas) => {
            total_fee = total_fee + per_gas * (gas as u128);
        },
        None => {},
    }
    if total_fee > payment.amount {
        return Err(BridgeError::PaymentDoesNotCoverFee);
    }
    let fee = Payment::new(copy_bytes(&payment.token_id), 0, total_fee);
    let remaining = Payment::new(payment.token_id, payment.nonce, payment.amount - total_fee);
    Ok(FinalPayment { fee, remaining_tokens: remaining })
}

/// The amount recorded for `token` in a fee ledger, where an absent entry means zero.
pub open spec fn ledger_amount(m: Map<Seq<u8>, Amount>, token: Seq<u8>) -> Amount {
    if m.contains_key(token) { m[token] } else { 0 }
}

/// Mathematical value of the fee market's storage.
pub struct FeeCommonView {
    pub esdt_safe_address: Seq<u8>,
    pub fee_enabled: bool,
    pub token_fee: Map<Seq<u8>, FeeTypeView>,
    pub users_whitelist: Set<Seq<u8>>,
    pub accumulated_fees: Map<Seq<u8>, Amount>,
    pub tokens_for_fees: Seq<Seq<u8>>,
}

/// State of a fee market: the fee of each token, the users that pay no fee,
/// and the fees collected so far, per token.
pub struct FeeCommonModule {
    pub esdt_safe_address: Vec<u8>,
    pub fee_enabled: bool,
    pub token_fee: BytesMap<FeeType>,
    pub users_whitelist: BytesMap<()>,
    pub accumulated_fees: BytesMap<Amount>,
    pub tokens_for_fees: BytesMap<()>,
}

impl View for FeeCommonModule {
    type V = FeeCommonView;

    open spec fn view(&self) -> FeeCommonView {
        FeeCommonView {
            esdt_safe_address: self.esdt_safe_address@,
            fee_enabled: self.fee_enabled,
            token_fee: self.token_fee@.map_values(|f: FeeType| f@),
            users_whitelist: self.users_whitelist@.dom(),
            accumulated_fees: self.accumulated_fees@,
            tokens_for_fees: self.tokens_for_fees.key_seq(),
        }
    }
}

/// The fee type stored for `token`, where an absent entry means no fee.
pub open spec fn stored_fee(m: Map<Seq<u8>, FeeTypeView>, token: Seq<u8>) -> FeeTypeView {
    if m.contains_key(token) { m[token] } else { FeeTypeView::NoFee }
}

/// Why a fee is refused when it is stored (`Ok(Some(..))` is the error the
/// storing reports without failing, `Err` aborts the call).
pub open spec fn set_fee_outcome(fee: FeeStruct) -> Result<Option<BridgeError>, BridgeError> {
    if !spec_is_valid_token_id(fee.base_token@) {
        Ok(Some(BridgeError::InvalidTokenId))
    } else {
        match fee.fee_type@ {
            FeeTypeView::NoFee => Err(BridgeError::InvalidFeeType),
            FeeTypeView::Fixed { token, .. } => if fee.base_token@ != token {
                Err(BridgeError::InvalidFee)
            } else {
                Ok(None)
            },
        }
    }
}

/// The fee that the stored fee type of the payment's token asks for (0 when none).
pub open spec fn stored_fixed_fee(s: FeeCommonView, p: PaymentView, total_transfers: usize, gas: Option<u64>) -> int {
    match stored_fee(s.token_fee, p.token_id) {
        FeeTypeView::Fixed { per_transfer, per_gas, .. } => fixed_fee(per_transfer, per_gas, total_transfers, gas),
        FeeTypeView::NoFee => 0,
    }
}

/// The fee and the fee ledger fit in 128 bits.
pub open spec fn fee_in_range(s: FeeCommonView, p: PaymentView, total_transfers: usize, gas: Option<u64>) -> bool {
    &&& stored_fixed_fee(s, p, total_transfers, gas) <= u128::MAX
    &&& ledger_amount(s.accumulated_fees, p.token_id) + p.amount <= u128::MAX
}

/// No fee is taken: fees are off, or the depositor is whitelisted.
pub open spec fn fee_exempt(s: FeeCommonView, caller: Seq<u8>, original_caller: Seq<u8>) -> bool {
    caller == s.esdt_safe_address && (!s.fee_enabled || s.users_whitelist.contains(original_caller))
}

/// Why taking a fee is refused, checked in this order.
pub open spec fn subtract_fee_error(
    s: FeeCommonView,
    caller: Seq<u8>,
    original_caller: Seq<u8>,
    p: PaymentView,
    total_transfers: usize,
    gas: Option<u64>,
) -> Option<BridgeError> {
    if caller != s.esdt_safe_address {
        Some(BridgeError::OnlyEsdtSafeCaller)
    } else if fee_exempt(s, caller, original_caller) {
        None
    } else {
        match stored_fee(s.token_fee, p.token_id) {
            FeeTypeView::NoFee => Some(BridgeError::TokenNotAcceptedAsFee),
            FeeTypeView::Fixed { token, per_transfer, per_gas } => if p.token_id != token {
                Some(BridgeError::InvalidTokenProvidedForFee)
            } else if fixed_fee(per_transfer, per_gas, total_transfers, gas) > p.amount {
                Some(BridgeError::PaymentDoesNotCoverFee)
            } else {
                None
            },
        }
    }
}

/// A fee is taken.
pub open spec fn fee_charged(
    s: FeeCommonView,
    caller: Seq<u8>,
    original_caller: Seq<u8>,
    p: PaymentView,
    total_transfers: usize,
    gas: Option<u64>,
) -> bool {
    subtract_fee_error(s, caller, original_caller, p, total_transfers, gas) is None && !fee_exempt(s, caller, original_caller)
}

/// The storage after a fee `f` in `token` is collected: the token's ledger grows
/// by `f` and the token joins the fee tokens.
pub open spec fn after_charge(s: FeeCommonView, token: Seq<u8>, f: int) -> FeeCommonView {
    let total = ledger_amount(s.accumulated_fees, token) + f;
    FeeCommonView {
        accumulated_fees: if total == 0 { s.accumulated_fees.remove(token) } else { s.accumulated_fees.insert(token, total as u128) },
        tokens_for_fees: if s.tokens_for_fees.contains(token) { s.tokens_for_fees } else { s.tokens_for_fees.push(token) },
        ..s
    }
}

/// The sum of the shares of `acc` that the pairs get.
pub open spec fn shares_total(acc: int, pairs: Seq<AddressPercentagePair>) -> int
    decreases pairs.len(),
{
    if pairs.len() == 0 {
        0
    } else {
        shares_total(acc, pairs.drop_last()) + fee_share(acc, pairs.last().percentage as int, TOTAL_PERCENTAGE as int)
    }
}

/// The transfers that pay the pairs their shares of `acc` collected in `token`;
/// a zero share is not sent.
pub open spec fn share_transfers(token: Seq<u8>, acc: int, pairs: Seq<AddressPercentagePair>) -> Seq<TransferView>
    decreases pairs.len(),
{
    if pairs.len() == 0 {
        Seq::empty()
    } else {
        let share = fee_share(acc, pairs.last().percentage as int, TOTAL_PERCENTAGE as int);
        share_transfers(token, acc, pairs.drop_last()) + if share > 0 {
            seq![TransferView {
                to: pairs.last().address@,
                payment: PaymentView { token_id: token, nonce: 0, amount: share as u128 },
            }]
        } else {
            Seq::<TransferView>::empty()
        }
    }
}

/// The transfers of a whole distribution: token by token, in the order of the fee tokens.
pub open spec fn distribution_transfers(tokens: Seq<Seq<u8>>, acc: Map<Seq<u8>, Amount>, pairs: Seq<AddressPercentagePair>) -> Seq<TransferView>
    decreases tokens.len(),
{
    if tokens.len() == 0 {
        Seq::empty()
    } else {
        let a = ledger_amount(acc, tokens.last());
        distribution_transfers(tokens.drop_last(), acc, pairs) + if a == 0 {
            Seq::<TransferView>::empty()
        } else {
            share_transfers(tokens.last(), a as int, pairs)
        }
    }
}

/// A distribution fails when the shares of some token's fees add up to more
/// than was collected.
pub open spec fn distribution_overdraws(tokens: Seq<Seq<u8>>, acc: Map<Seq<u8>, Amount>, pairs: Seq<AddressPercentagePair>) -> bool {
    exists|i: int| 0 <= i < tokens.len() && #[trigger] ledger_amount(acc, tokens[i]) > 0
        && shares_total(ledger_amount(acc, tokens[i]) as int, pairs) > ledger_amount(acc, tokens[i])
}

/// The fee ledger after a distribution: each fee token keeps what its shares
/// left over.
pub open spec fn distributed_ledger(tokens: Seq<Seq<u8>>, acc: Map<Seq<u8>, Amount>, pairs: Seq<AddressPercentagePair>) -> Map<Seq<u8>, Amount> {
    Map::new(
        |t: Seq<u8>| acc.contains_key(t) && !(tokens.contains(t) && acc[t] - shares_total(acc[t] as int, pairs) == 0),
        |t: Seq<u8>| if tokens.contains(t) { (acc[t] - shares_total(acc[t] as int, pairs)) as u128 } else { acc[t] },
    )
}

/// Each share of the fees fits in 128 bits before it is divided.
pub open spec fn shares_in_range(acc: Map<Seq<u8>, Amount>, pairs: Seq<AddressPercentagePair>) -> bool {
    forall|t: Seq<u8>, i: int| acc.contains_key(t) && 0 <= i < pairs.len() ==> #[trigger] acc[t] * (#[trigger] pairs[i]).percentage <= u128::MAX
}

proof fn lemma_shares_total_monotone(acc: int, pairs: Seq<AddressPercentagePair>, k: int)
    requires
        acc >= 0,
        0 <= k <= pairs.len(),
    ensures
        0 <= shares_total(acc, pairs.subrange(0, k)) <= shares_total(acc, pairs),
    decreases pairs.len() - k,
{
    lemma_shares_total_nonneg(acc, pairs.subrange(0, k));
    if k < pairs.len() {
        lemma_shares_total_monotone(acc, pairs, k + 1);
        assert(pairs.subrange(0, k + 1).drop_last() =~= pairs.subrange(0, k));
        let p = pairs[k].percentage as int;
        assert(acc * p >= 0) by (nonlinear_arith) requires acc >= 0, p >= 0;
    } else {
        assert(pairs.subrange(0, k) =~= pairs);
    }
}

proof fn lemma_shares_total_nonneg(acc: int, pairs: Seq<AddressPercentagePair>)
    requires
        acc >= 0,
    ensures
        shares_total(acc, pairs) >= 0,
    decreases pairs.len(),
{
    if pairs.len() > 0 {
        lemma_shares_total_nonneg(acc, pairs.drop_last());
        let p = pairs.last().percentage as int;
        assert(acc * p >= 0) by (nonlinear_arith) requires acc >= 0, p >= 0;
    }
}

impl FeeCommonModule {
    pub open spec fn wf(&self) -> bool {
        &&& self.token_fee.wf()
        &&& self.users_whitelist.wf()
        &&& self.accumulated_fees.wf()
        &&& self.tokens_for_fees.wf()
        &&& forall|t: Seq<u8>| #[trigger] self.accumulated_fees@.contains_key(t) ==> self.accumulated_fees@[t] > 0
    }

    /// Stores `fee`: enables fees and records the fee type under its base token.
    pub fn set_fee_in_storage(&mut self, fee: FeeStruct) -> (r: Result<Option<BridgeError>, BridgeError>)
        requires
            old(self).wf(),
        ensures
            final(self).wf(),
            r == set_fee_outcome(fee),
            set_fee_outcome(fee) == Ok::<Option<BridgeError>, BridgeError>(None) ==> final(self)@ == (FeeCommonView {
                fee_enabled: true,
                token_fee: old(self)@.token_fee.insert(fee.base_token@, fee.fee_type@),
                ..old(self)@
            }),
            set_fee_outcome(fee) != Ok::<Option<BridgeError>, BridgeError>(None) ==> final(self)@ == old(self)@,
    {
        if !is_valid_token_id(&fee.base_token) {
            return Ok(Some(BridgeError::InvalidTokenId));
        }
        match &fee.fee_type {
            FeeType::NoFee => {
                return Err(BridgeError::InvalidFeeType);
            },
            FeeType::Fixed { token, .. } => {
                if !bytes_eq(&fee.base_token, token) {
                    return Err(BridgeError::InvalidFee);
                }
            },
        }
        let ghost fv = fee.fee_type@;
        let ghost old_view = self@;
        self.fee_enabled = true;
        self.token_fee.insert(fee.base_token, fee.fee_type);
        assert(self@.token_fee =~= old_view.token_fee.insert(fee.base_token@, fv));
        Ok(None)
    }

    /// Deploys a fee market for the ESDT-Safe at `esdt_safe_address`
    /// (`is_smart_contract` is what the chain answers about that address),
    /// with `fee` as its first fee when given.
    pub fn init(esdt_safe_address: Vec<u8>, is_smart_contract: bool, fee: Option<FeeStruct>) -> (r: Result<FeeCommonModule, BridgeError>)
        ensures
            (is_zero_address(esdt_safe_address@) || !is_smart_contract) ==> r == Err::<FeeCommonModule, BridgeError>(BridgeError::InvalidScAddress),
            !is_zero_address(esdt_safe_address@) && is_smart_contract ==> match fee {
                None => r is Ok && !r->Ok_0@.fee_enabled && r->Ok_0@.token_fee.is_empty(),
                Some(f) => match set_fee_outcome(f) {
                    Err(e) => r == Err::<FeeCommonModule, BridgeError>(e),
                    Ok(None) => r is Ok && r->Ok_0@.fee_enabled
                        && r->Ok_0@.token_fee == Map::<Seq<u8>, FeeTypeView>::empty().insert(f.base_token@, f.fee_type@),
                    Ok(Some(_)) => r is Ok && !r->Ok_0@.fee_enabled && r->Ok_0@.token_fee.is_empty(),
                },
            },
            r is Ok ==> {
                &&& r->Ok_0.wf()
                &&& r->Ok_0@.esdt_safe_address == esdt_safe_address@
                &&& r->Ok_0@.users_whitelist.is_empty()
                &&& r->Ok_0@.accumulated_fees.is_empty()
                &&& r->Ok_0@.tokens_for_fees.len() == 0
            },
    {
        match require_sc_address(&esdt_safe_address, is_smart_contract) {
            Ok(()) => {},
            Err(e) => {
                return Err(e);
            },
        }
        let mut market = FeeCommonModule {
            esdt_safe_address,
            fee_enabled: false,
            token_fee: BytesMap::new(),
            users_whitelist: BytesMap::new(),
            accumulated_fees: BytesMap::new(),
            tokens_for_fees: BytesMap::new(),
        };
        proof {
            market.tokens_for_fees.lemma_key_seq();
            assert(market@.token_fee =~= Map::<Seq<u8>, FeeTypeView>::empty());
            assert(market@.users_whitelist =~= Set::<Seq<u8>>::empty());
        }
        match fee {
            Some(f) => {
                match market.set_fee_in_storage(f) {
                    Err(e) => {
                        return Err(e);
                    },
                    Ok(_) => {},
                }
            },
            None => {},
        }
        Ok(market)
    }
    /// Records `amount` as the fees collected in `token`; a zero amount leaves
    /// no entry, as zero is stored as an empty value.
    fn set_accumulated(&mut self, token: Vec<u8>, amount: Amount)
        requires
            old(self).wf(),
        ensures
            final(self).wf(),
            final(self)@ == (FeeCommonView {
                accumulated_fees: if amount == 0 {
                    old(self)@.accumulated_fees.remove(token@)
                } else {
                    old(self)@.accumulated_fees.insert(token@, amount)
                },
                ..old(self)@
            }),
    {
        if amount == 0 {
            let _ = self.accumulated_fees.remove(&token);
        } else {
            self.accumulated_fees.insert(token, amount);
        }
    }

    /// Whether fees are charged.
    pub fn is_fee_enabled(&self) -> (r: bool)
        ensures
            r == self@.fee_enabled,
    {
        self.fee_enabled
    }

    /// Refuses callers other than the ESDT-Safe.
    pub fn require_caller_esdt_safe(&self, caller: &Vec<u8>) -> (r: Result<(), BridgeError>)
        ensures
            r is Ok <==> caller@ == self@.esdt_safe_address,
            r is Err ==> r == Err::<(), BridgeError>(BridgeError::OnlyEsdtSafeCaller),
    {
        if bytes_eq(caller, &self.esdt_safe_address) {
            Ok(())
        } else {
            Err(BridgeError::OnlyEsdtSafeCaller)
        }
    }

    /// Takes the fee out of the single payment that the ESDT-Safe (`caller`)
    /// forwards for a deposit of `original_caller`. Returns the split payment and
    /// the transfers made: the whole payment back to the ESDT-Safe when no fee
    /// applies, otherwise what remains of it to `original_caller`.
    pub fn subtract_fee(
        &mut self,
        caller: &Vec<u8>,
        original_caller: Vec<u8>,
        payment: Payment,
        total_transfers: usize,
        opt_gas_limit: Option<u64>,
    ) -> (r: Result<(FinalPayment, Vec<Transfer>), BridgeError>)
        requires
            old(self).wf(),
            fee_in_range(old(self)@, payment@, total_transfers, opt_gas_limit),
        ensures
            final(self).wf(),
            subtract_fee_error(old(self)@, caller@, original_caller@, payment@, total_transfers, opt_gas_limit) matches Some(e)
                ==> (r == Err::<(FinalPayment, Vec<Transfer>), BridgeError>(e) && final(self)@ == old(self)@),
            fee_exempt(old(self)@, caller@, original_caller@) ==> (r is Ok && final(self)@ == old(self)@
                && r->Ok_0.0.fee@ == (PaymentView { token_id: payment.token_id@, nonce: 0, amount: 0 })
                && r->Ok_0.0.remaining_tokens@ == payment@
                && transfers_view(r->Ok_0.1@) == seq![(TransferView { to: caller@, payment: payment@ })]),
            fee_charged(old(self)@, caller@, original_caller@, payment@, total_transfers, opt_gas_limit) ==> ({
                let f = stored_fixed_fee(old(self)@, payment@, total_transfers, opt_gas_limit);
                let rest = (PaymentView { token_id: payment.token_id@, nonce: payment.nonce, amount: (payment.amount - f) as u128 });
                &&& r is Ok
                &&& r->Ok_0.0.fee@ == (PaymentView { token_id: payment.token_id@, nonce: 0, amount: f as u128 })
                &&& r->Ok_0.0.remaining_tokens@ == rest
                &&& transfers_view(r->Ok_0.1@) == (if payment.amount - f > 0 {
                    seq![(TransferView { to: original_caller@, payment: rest })]
                } else {
                    Seq::<TransferView>::empty()
                })
                &&& final(self)@ == after_charge(old(self)@, payment.token_id@, f)
            }),
    {
        if let Err(e) = self.require_caller_esdt_safe(caller) {
            return Err(e);
        }
        if !self.fee_enabled || self.users_whitelist.contains_key(&original_caller) {
            let fee = Payment::new(copy_bytes(&payment.token_id), 0, 0);
            let remaining = payment.duplicate();
            let mut transfers: Vec<Transfer> = Vec::new();
            transfers.push(Transfer { to: copy_bytes(caller), payment });
            assert(transfers_view(transfers@) =~= seq![TransferView { to: caller@, payment: remaining@ }]);
            return Ok((FinalPayment { fee, remaining_tokens: remaining }, transfers));
        }
        let (fee_token, per_transfer, per_gas) = match self.token_fee.get(&payment.token_id) {
            None => {
                return Err(BridgeError::TokenNotAcceptedAsFee);
            },
            Some(FeeType::NoFee) => {
                return Err(BridgeError::TokenNotAcceptedAsFee);
            },
            Some(FeeType::Fixed { token, per_transfer, per_gas }) => (copy_bytes(token), *per_transfer, *per_gas),
        };
        let final_payment = match subtract_fee_same_token(payment, &fee_token, per_transfer, per_gas, total_transfers, opt_gas_limit) {
            Ok(p) => p,
            Err(e) => {
                return Err(e);
            },
        };
        proof { self.tokens_for_fees.lemma_key_seq(); }
        let token = copy_bytes(&final_payment.fee.token_id);
        self.tokens_for_fees.insert(copy_bytes(&token), ());
        let current: Amount = match self.accumulated_fees.get(&token) {
            Some(a) => *a,
            None => 0,
        };
        self.set_accumulated(copy_bytes(&token), current + final_payment.fee.amount);
        let mut transfers: Vec<Transfer> = Vec::new();
        if final_payment.remaining_tokens.amount > 0 {
            transfers.push(Transfer { to: original_caller, payment: final_payment.remaining_tokens.duplicate() });
        }
        proof {
            if final_payment.remaining_tokens.amount > 0 {
                assert(transfers_view(transfers@) =~= seq![TransferView { to: original_caller@, payment: final_payment.remaining_tokens@ }]);
            } else {
                assert(transfers_view(transfers@) =~= Seq::<TransferView>::empty());
            }
        }
        Ok((final_payment, transfers))
    }
    /// Pays out the fees collected in `token` (`acc` of them) by the pairs'
    /// shares; returns what remains, or an error when the shares overdraw.
    fn distribute_one(token: &Vec<u8>, acc: Amount, pairs: &Vec<AddressPercentagePair>, transfers: &mut Vec<Transfer>) -> (r: Result<Amount, BridgeError>)
        requires
            forall|i: int| 0 <= i < pairs@.len() ==> acc * (#[trigger] pairs@[i]).percentage <= u128::MAX,
        ensures
            shares_total(acc as int, pairs@) > acc ==> r == Err::<Amount, BridgeError>(BridgeError::SubtractionUnderflow),
            shares_total(acc as int, pairs@) <= acc ==> r == Ok::<Amount, BridgeError>((acc - shares_total(acc as int, pairs@)) as u128)
                && transfers_view(final(transfers)@) == transfers_view(old(transfers)@) + share_transfers(token@, acc as int, pairs@),
    {
        let ghost start = transfers_view(transfers@);
        let mut remaining: Amount = acc;
        let mut j: usize = 0;
        while j < pairs.len()
            invariant
                j <= pairs.len(),
                forall|i: int| 0 <= i < pairs@.len() ==> acc * (#[trigger] pairs@[i]).percentage <= u128::MAX,
                remaining == acc - shares_total(acc as int, pairs@.subrange(0, j as int)),
                transfers_view(transfers@) == start + share_transfers(token@, acc as int, pairs@.subrange(0, j as int)),
            decreases pairs.len() - j,
        {
            let ghost pre = pairs@.subrange(0, j as int);
            assert(pairs@.subrange(0, j + 1).drop_last() =~= pre);
            assert(pairs@.subrange(0, j + 1).last() == pairs@[j as int]);
            let amount = calculate_fee_amount(acc, pairs[j].percentage, TOTAL_PERCENTAGE as u128);
            if amount > 0 {
                if amount > remaining {
                    proof {
                        lemma_shares_total_monotone(acc as int, pairs@, j + 1);
                    }
                    return Err(BridgeError::SubtractionUnderflow);
                }
                remaining = remaining - amount;
                let ghost before = transfers_view(transfers@);
                transfers.push(Transfer {
                    to: copy_bytes(&pairs[j].address),
                    payment: Payment::new(copy_bytes(token), 0, amount),
                });
                assert(transfers_view(transfers@) =~= before + seq![transfers@.last()@]);
            }
            j = j + 1;
        }
        assert(pairs@.subrange(0, pairs.len() as int) =~= pairs@);
        proof { lemma_shares_total_nonneg(acc as int, pairs@); }
        Ok(remaining)
    }

    /// Whether some fee token's shares would pay out more than was collected
    /// in it; nothing is changed.
    fn overdraws(&self, pairs: &Vec<AddressPercentagePair>) -> (r: bool)
        requires
            self.wf(),
            shares_in_range(self@.accumulated_fees, pairs@),
        ensures
            r == distribution_overdraws(self@.tokens_for_fees, self@.accumulated_fees, pairs@),
    {
        let ghost tokens = self@.tokens_for_fees;
        let ghost acc0 = self@.accumulated_fees;
        proof { self.tokens_for_fees.lemma_key_seq(); }
        let n = self.tokens_for_fees.key_count();
        let mut k: usize = 0;
        while k < n
            invariant
                self.wf(),
                tokens == self@.tokens_for_fees,
                acc0 == self@.accumulated_fees,
                self.tokens_for_fees.key_seq() == tokens,
                n == tokens.len(),
                k <= n,
                shares_in_range(acc0, pairs@),
                forall|i: int| 0 <= i < k ==> !(ledger_amount(acc0, #[trigger] tokens[i]) > 0
                    && shares_total(ledger_amount(acc0, tokens[i]) as int, pairs@) > ledger_amount(acc0, tokens[i])),
            decreases n - k,
        {
            let token = self.tokens_for_fees.key_at(k);
            let acc: Amount = match self.accumulated_fees.get(token) {
                Some(a) => *a,
                None => 0,
            };
            assert(acc == ledger_amount(acc0, tokens[k as int]));
            if acc != 0 {
                assert forall|i: int| 0 <= i < pairs@.len() implies acc * (#[trigger] pairs@[i]).percentage <= u128::MAX by {
                    assert(acc0.contains_key(tokens[k as int]));
                    assert(acc0[tokens[k as int]] * pairs@[i].percentage <= u128::MAX);
                }
                let mut scratch: Vec<Transfer> = Vec::new();
                if Self::distribute_one(token, acc, pairs, &mut scratch).is_err() {
                    assert(ledger_amount(acc0, tokens[k as int]) > 0);
                    return true;
                }
            }
            k = k + 1;
        }
        false
    }

    /// Pays out the collected fees of every fee token by the pairs' shares and
    /// keeps what is left over. Returns the transfers made.
    pub fn distribute_token_fees(&mut self, pairs: &Vec<AddressPercentagePair>) -> (r: Result<Vec<Transfer>, BridgeError>)
        requires
            old(self).wf(),
            shares_in_range(old(self)@.accumulated_fees, pairs@),
        ensures
            final(self).wf(),
            distribution_overdraws(old(self)@.tokens_for_fees, old(self)@.accumulated_fees, pairs@)
                ==> r == Err::<Vec<Transfer>, BridgeError>(BridgeError::SubtractionUnderflow),
            r is Err ==> *final(self) == *old(self),
            !distribution_overdraws(old(self)@.tokens_for_fees, old(self)@.accumulated_fees, pairs@) ==> ({
                &&& r is Ok
                &&& transfers_view(r->Ok_0@) == distribution_transfers(old(self)@.tokens_for_fees, old(self)@.accumulated_fees, pairs@)
                &&& final(self)@ == (FeeCommonView {
                    accumulated_fees: distributed_ledger(old(self)@.tokens_for_fees, old(self)@.accumulated_fees, pairs@),
                    ..old(self)@
                })
            }),
    {
        if self.overdraws(pairs) {
            return Err(BridgeError::SubtractionUnderflow);
        }
        let ghost s0 = self@;
        let ghost tokens = s0.tokens_for_fees;
        let ghost acc0 = s0.accumulated_fees;
        assert(s0 == old(self)@);
        proof { self.tokens_for_fees.lemma_key_seq(); }
        let mut transfers: Vec<Transfer> = Vec::new();
        let n = self.tokens_for_fees.key_count();
        let mut k: usize = 0;
        assert(tokens.subrange(0, n as int) =~= tokens);
        assert(tokens.subrange(0, 0) =~= Seq::<Seq<u8>>::empty());
        while k < n
            invariant
                self.wf(),
                s0 == old(self)@,
                tokens == s0.tokens_for_fees,
                acc0 == s0.accumulated_fees,
                n == tokens.len(),
                k <= n,
                tokens.no_duplicates(),
                shares_in_range(acc0, pairs@),
                !distribution_overdraws(tokens, acc0, pairs@),
                self.tokens_for_fees.key_seq() == tokens,
                self@ == (FeeCommonView {
                    accumulated_fees: self@.accumulated_fees,
                    ..s0
                }),
                forall|i: int| 0 <= i < k ==> !(ledger_amount(acc0, #[trigger] tokens[i]) > 0
                    && shares_total(ledger_amount(acc0, tokens[i]) as int, pairs@) > ledger_amount(acc0, tokens[i])),
                forall|t: Seq<u8>| !tokens.subrange(k as int, n as int).contains(t) ==>
                    (#[trigger] self@.accumulated_fees.contains_key(t) <==> distributed_ledger(tokens, acc0, pairs@).contains_key(t))
                    && (self@.accumulated_fees.contains_key(t) ==> self@.accumulated_fees[t] == distributed_ledger(tokens, acc0, pairs@)[t]),
                forall|t: Seq<u8>| tokens.subrange(k as int, n as int).contains(t) ==>
                    (#[trigger] self@.accumulated_fees.contains_key(t) <==> acc0.contains_key(t))
                    && (self@.accumulated_fees.contains_key(t) ==> self@.accumulated_fees[t] == acc0[t]),
                transfers_view(transfers@) == distribution_transfers(tokens.subrange(0, k as int), acc0, pairs@),
            decreases n - k,
        {
            let token = copy_bytes(self.tokens_for_fees.key_at(k));
            let ghost t = token@;
            let ghost rest0 = tokens.subrange(k as int, n as int);
            let ghost rest1 = tokens.subrange(k + 1, n as int);
            assert(tokens[k as int] == t);
            assert(tokens.subrange(k as int, n as int).contains(t)) by {
                assert(tokens.subrange(k as int, n as int)[0] == t);
            }
            let acc: Amount = match self.accumulated_fees.get(&token) {
                Some(a) => *a,
                None => 0,
            };
            assert(acc == ledger_amount(acc0, t));
            assert(tokens.subrange(0, k + 1).drop_last() =~= tokens.subrange(0, k as int));
            assert(tokens.subrange(0, k + 1).last() == t);
            if acc != 0 {
                assert forall|i: int| 0 <= i < pairs@.len() implies acc * (#[trigger] pairs@[i]).percentage <= u128::MAX by {
                    assert(acc0.contains_key(t));
                    assert(acc0[t] * pairs@[i].percentage <= u128::MAX);
                }
                match Self::distribute_one(&token, acc, pairs, &mut transfers) {
                    Err(e) => {
                        proof {
                            assert(ledger_amount(acc0, tokens[k as int]) > 0);
                            assert(shares_total(ledger_amount(acc0, tokens[k as int]) as int, pairs@) > ledger_amount(acc0, tokens[k as int]));
                            assert(distribution_overdraws(tokens, acc0, pairs@));
                        }
                        return Err(e);
                    },
                    Ok(remaining) => {
                        let ghost before = self@.accumulated_fees;
                        self.set_accumulated(token, remaining);
                        proof {
                            assert forall|tt: Seq<u8>| !tokens.subrange(k + 1, n as int).contains(tt) implies
                                (#[trigger] self@.accumulated_fees.contains_key(tt) <==> distributed_ledger(tokens, acc0, pairs@).contains_key(tt))
                                && (self@.accumulated_fees.contains_key(tt) ==> self@.accumulated_fees[tt] == distributed_ledger(tokens, acc0, pairs@)[tt]) by {
                                if tt == t {
                                    assert(tokens.contains(t));
                                    assert(acc0.contains_key(t));
                                    lemma_shares_total_nonneg(acc0[t] as int, pairs@);
                                    assert(remaining == acc0[t] - shares_total(acc0[t] as int, pairs@));
                                    assert(self@.accumulated_fees.contains_key(tt) <==> distributed_ledger(tokens, acc0, pairs@).contains_key(tt));
                                } else {
                                    assert(self@.accumulated_fees.contains_key(tt) == before.contains_key(tt));
                                    assert(!rest0.contains(tt)) by {
                                        if rest0.contains(tt) {
                                            let m = choose|m: int| 0 <= m < rest0.len() && rest0[m] == tt;
                                            assert(m != 0);
                                            assert(rest1[m - 1] == tt);
                                        }
                                    }
                                }
                            }
                            assert forall|tt: Seq<u8>| tokens.subrange(k + 1, n as int).contains(tt) implies
                                (#[trigger] self@.accumulated_fees.contains_key(tt) <==> acc0.contains_key(tt))
                                && (self@.accumulated_fees.contains_key(tt) ==> self@.accumulated_fees[tt] == acc0[tt]) by {
                                let m = choose|m: int| 0 <= m < rest1.len() && rest1[m] == tt;
                                assert(tokens[k + 1 + m] == tt);
                                assert(tt != t);
                                assert(rest0[m + 1] == tt);
                            }
                        }
                    },
                }
            } else {
                proof {
                    assert forall|tt: Seq<u8>| !tokens.subrange(k + 1, n as int).contains(tt) implies
                        (#[trigger] self@.accumulated_fees.contains_key(tt) <==> distributed_ledger(tokens, acc0, pairs@).contains_key(tt))
                        && (self@.accumulated_fees.contains_key(tt) ==> self@.accumulated_fees[tt] == distributed_ledger(tokens, acc0, pairs@)[tt]) by {
                        if tt == t {
                            assert(tokens.contains(t));
                            assert(!acc0.contains_key(t));
                        } else {
                            assert(!rest0.contains(tt)) by {
                                if rest0.contains(tt) {
                                    let m = choose|m: int| 0 <= m < rest0.len() && rest0[m] == tt;
                                    assert(m != 0);
                                    assert(rest1[m - 1] == tt);
                                }
                            }
                        }
                    }
                    assert forall|tt: Seq<u8>| tokens.subrange(k + 1, n as int).contains(tt) implies
                        (#[trigger] self@.accumulated_fees.contains_key(tt) <==> acc0.contains_key(tt))
                        && (self@.accumulated_fees.contains_key(tt) ==> self@.accumulated_fees[tt] == acc0[tt]) by {
                        let m = choose|m: int| 0 <= m < rest1.len() && rest1[m] == tt;
                        assert(rest0[m + 1] == tt);
                    }
                }
            }
            k = k + 1;
        }
        proof {
            assert(tokens.subrange(0, n as int) =~= tokens);
            assert(!distribution_overdraws(tokens, acc0, pairs@));
            assert forall|t: Seq<u8>| !tokens.subrange(n as int, n as int).contains(t) by {}
            assert(self@.accumulated_fees =~= distributed_ledger(tokens, acc0, pairs@));
        }
        Ok(transfers)
    }
}

proof fn lemma_floor_add(u: int, v: int, t: int)
    requires
        u >= 0,
        v >= 0,
        t > 0,
    ensures
        u / t + v / t <= (u + v) / t,
{
    let q1 = u / t;
    let q2 = v / t;
    assert(q1 * t <= u) by (nonlinear_arith) requires q1 == u / t, t > 0;
    assert(q2 * t <= v) by (nonlinear_arith) requires q2 == v / t, t > 0;
    assert((q1 + q2) * t <= u + v) by (nonlinear_arith) requires q1 * t <= u, q2 * t <= v;
    assert(q1 + q2 <= (u + v) / t) by (nonlinear_arith) requires (q1 + q2) * t <= u + v, t > 0;
}

proof fn lemma_shares_total_bound(acc: int, pairs: Seq<AddressPercentagePair>)
    requires
        acc >= 0,
    ensures
        shares_total(acc, pairs) <= acc * percentage_sum(pairs) / (TOTAL_PERCENTAGE as int),
    decreases pairs.len(),
{
    if pairs.len() > 0 {
        let rest = pairs.drop_last();
        lemma_shares_total_bound(acc, rest);
        let ps = percentage_sum(rest);
        let p = pairs.last().percentage as int;
        lemma_percentage_sum_bounds(rest);
        assert(acc * ps >= 0) by (nonlinear_arith) requires acc >= 0, ps >= 0;
        assert(acc * p >= 0) by (nonlinear_arith) requires acc >= 0, p >= 0;
        lemma_floor_add(acc * ps, acc * p, TOTAL_PERCENTAGE as int);
        assert(acc * ps + acc * p == acc * (ps + p)) by (nonlinear_arith);
    }
}

/// When the percentages of a distribution add up to exactly 100 % (which the
/// fee market checks before distributing), no token's shares ever add up to
/// more than the fees collected in it, so the distribution cannot fail.
pub proof fn lemma_validated_distribution_never_overdraws(
    tokens: Seq<Seq<u8>>,
    acc: Map<Seq<u8>, Amount>,
    pairs: Seq<AddressPercentagePair>,
)
    requires
        percentage_sum(pairs) == TOTAL_PERCENTAGE,
    ensures
        !distribution_overdraws(tokens, acc, pairs),
        forall|a: int| a >= 0 ==> shares_total(a, pairs) <= a,
{
    assert forall|a: int| a >= 0 implies shares_total(a, pairs) <= a by {
        lemma_shares_total_bound(a, pairs);
        assert(a * (TOTAL_PERCENTAGE as int) / (TOTAL_PERCENTAGE as int) == a) by (nonlinear_arith);
    }
    assert forall|i: int| 0 <= i < tokens.len() && #[trigger] ledger_amount(acc, tokens[i]) > 0
        implies shares_total(ledger_amount(acc, tokens[i]) as int, pairs) <= ledger_amount(acc, tokens[i]) by {
        let a = ledger_amount(acc, tokens[i]) as int;
        assert(shares_total(a, pairs) <= a);
    }
}

/// Sum of the amounts of a list of transfers.
pub open spec fn transferred_total(s: Seq<TransferView>) -> int
    decreases s.len(),
{
    if s.len() == 0 {
        0
    } else {
        transferred_total(s.drop_last()) + s.last().payment.amount
    }
}

/// The transfers of one token's distribution carry exactly the shares' total:
/// what is sent plus what remains in the ledger is what was collected.
pub proof fn lemma_share_transfers_total(token: Seq<u8>, acc: int, pairs: Seq<AddressPercentagePair>)
    requires
        acc >= 0,
        forall|i: int| 0 <= i < pairs.len() ==> acc * (#[trigger] pairs[i]).percentage <= u128::MAX,
    ensures
        transferred_total(share_transfers(token, acc, pairs)) == shares_total(acc, pairs),
    decreases pairs.len(),
{
    if pairs.len() > 0 {
        let rest = pairs.drop_last();
        assert forall|i: int| 0 <= i < rest.len() implies acc * (#[trigger] rest[i]).percentage <= u128::MAX by {
            assert(rest[i] == pairs[i]);
        }
        lemma_share_transfers_total(token, acc, rest);
        let p = pairs.last().percentage as int;
        let share = fee_share(acc, p, TOTAL_PERCENTAGE as int);
        assert(pairs[pairs.len() - 1] == pairs.last());
        assert(acc * p <= u128::MAX);
        assert(0 <= share <= acc * p) by (nonlinear_arith) requires acc >= 0, p >= 0, share == acc * p / 10000;
        let prev = share_transfers(token, acc, rest);
        let extra = if share > 0 {
            seq![TransferView {
                to: pairs.last().address@,
                payment: PaymentView { token_id: token, nonce: 0, amount: share as u128 },
            }]
        } else {
            Seq::<TransferView>::empty()
        };
        lemma_transferred_total_append(prev, extra);
        assert(share_transfers(token, acc, pairs) == prev + extra);
        assert(shares_total(acc, pairs) == shares_total(acc, rest) + share);
        if share > 0 {
            assert(extra.drop_last() =~= Seq::<TransferView>::empty());
            assert(transferred_total(extra.drop_last()) == 0);
            assert(extra.last().payment.amount == share);
            assert(transferred_total(extra) == share);
        } else {
            assert(transferred_total(extra) == 0);
        }
    }
}

proof fn lemma_transferred_total_append(a: Seq<TransferView>, b: Seq<TransferView>)
    ensures
        transferred_total(a + b) == transferred_total(a) + transferred_total(b),
    decreases b.len(),
{
    if b.len() > 0 {
        lemma_transferred_total_append(a, b.drop_last());
        assert((a + b).drop_last() =~= a + b.drop_last());
    } else {
        assert(a + b =~= a);
    }
}

/// Sum of the amounts of the transfers of `token` in a list of transfers.
pub open spec fn token_transferred(s: Seq<TransferView>, token: Seq<u8>) -> int
    decreases s.len(),
{
    if s.len() == 0 {
        0
    } else {
        token_transferred(s.drop_last(), token) + if s.last().payment.token_id == token { s.last().payment.amount as int } else { 0 }
    }
}

proof fn lemma_token_transferred_append(a: Seq<TransferView>, b: Seq<TransferView>, token: Seq<u8>)
    ensures
        token_transferred(a + b, token) == token_transferred(a, token) + token_transferred(b, token),
    decreases b.len(),
{
    if b.len() > 0 {
        lemma_token_transferred_append(a, b.drop_last(), token);
        assert((a + b).drop_last() =~= a + b.drop_last());
    } else {
        assert(a + b =~= a);
    }
}

/// The shares of one token's fees are all paid in that token.
proof fn lemma_share_transfers_of_token(u: Seq<u8>, acc: int, pairs: Seq<AddressPercentagePair>, token: Seq<u8>)
    requires
        acc >= 0,
        forall|i: int| 0 <= i < pairs.len() ==> acc * (#[trigger] pairs[i]).percentage <= u128::MAX,
    ensures
        token_transferred(share_transfers(u, acc, pairs), token) == if u == token { shares_total(acc, pairs) } else { 0 },
    decreases pairs.len(),
{
    if pairs.len() > 0 {
        let rest = pairs.drop_last();
        assert forall|i: int| 0 <= i < rest.len() implies acc * (#[trigger] rest[i]).percentage <= u128::MAX by {
            assert(rest[i] == pairs[i]);
        }
        lemma_share_transfers_of_token(u, acc, rest, token);
        let p = pairs.last().percentage as int;
        let share = fee_share(acc, p, TOTAL_PERCENTAGE as int);
        assert(pairs[pairs.len() - 1] == pairs.last());
        assert(acc * p <= u128::MAX);
        assert(0 <= share <= acc * p) by (nonlinear_arith) requires acc >= 0, p >= 0, share == acc * p / 10000;
        let prev = share_transfers(u, acc, rest);
        let extra = if share > 0 {
            seq![TransferView {
                to: pairs.last().address@,
                payment: PaymentView { token_id: u, nonce: 0, amount: share as u128 },
            }]
        } else {
            Seq::<TransferView>::empty()
        };
        lemma_token_transferred_append(prev, extra, token);
        assert(share_transfers(u, acc, pairs) == prev + extra);
        assert(shares_total(acc, pairs) == shares_total(acc, rest) + share);
        if share > 0 {
            assert(extra.drop_last() =~= Seq::<TransferView>::empty());
            assert(token_transferred(extra.drop_last(), token) == 0);
            assert(extra.last().payment.token_id == u);
            assert(extra.last().payment.amount == share as u128);
            assert(share as u128 as int == share);
            assert(token_transferred(extra, token) == if u == token { share } else { 0 });
        } else {
            assert(token_transferred(extra, token) == 0);
        }
    }
}

proof fn lemma_shares_total_of_nothing(pairs: Seq<AddressPercentagePair>)
    ensures
        shares_total(0, pairs) == 0,
    decreases pairs.len(),
{
    if pairs.len() > 0 {
        lemma_shares_total_of_nothing(pairs.drop_last());
    }
}

/// What a whole distribution pays out in one token: that token's shares,
/// when it is a fee token with fees collected, and nothing otherwise.
proof fn lemma_distribution_transfers_of_token(
    tokens: Seq<Seq<u8>>,
    acc: Map<Seq<u8>, Amount>,
    pairs: Seq<AddressPercentagePair>,
    token: Seq<u8>,
)
    requires
        tokens.no_duplicates(),
        shares_in_range(acc, pairs),
    ensures
        token_transferred(distribution_transfers(tokens, acc, pairs), token)
            == if tokens.contains(token) && ledger_amount(acc, token) != 0 {
                shares_total(ledger_amount(acc, token) as int, pairs)
            } else {
                0
            },
    decreases tokens.len(),
{
    if tokens.len() > 0 {
        let prev = tokens.drop_last();
        let u = tokens.last();
        assert(prev.no_duplicates()) by {
            assert forall|i: int, j: int| 0 <= i < prev.len() && 0 <= j < prev.len() && i != j implies prev[i] != prev[j] by {
                assert(prev[i] == tokens[i] && prev[j] == tokens[j]);
            }
        }
        lemma_distribution_transfers_of_token(prev, acc, pairs, token);
        let a = ledger_amount(acc, u);
        let extra = if a == 0 { Seq::<TransferView>::empty() } else { share_transfers(u, a as int, pairs) };
        lemma_token_transferred_append(distribution_transfers(prev, acc, pairs), extra, token);
        if a != 0 {
            assert(acc.contains_key(u));
            assert forall|i: int| 0 <= i < pairs.len() implies a * (#[trigger] pairs[i]).percentage <= u128::MAX by {
                assert(acc[u] * pairs[i].percentage <= u128::MAX);
            }
            lemma_share_transfers_of_token(u, a as int, pairs, token);
        }
        assert(tokens =~= prev.push(u));
        if u == token {
            assert(!prev.contains(token)) by {
                if prev.contains(token) {
                    let i = choose|i: int| 0 <= i < prev.len() && prev[i] == token;
                    assert(tokens[i] == tokens[tokens.len() - 1]);
                }
            }
            assert(tokens.contains(token)) by { assert(tokens[tokens.len() - 1] == token); }
        } else {
            assert(tokens.contains(token) == prev.contains(token)) by {
                if tokens.contains(token) {
                    let i = choose|i: int| 0 <= i < tokens.len() && tokens[i] == token;
                    assert(i != tokens.len() - 1);
                    assert(prev[i] == token);
                }
                if prev.contains(token) {
                    let i = choose|i: int| 0 <= i < prev.len() && prev[i] == token;
                    assert(tokens[i] == token);
                }
            }
        }
    }
}

/// A distribution moves fees out of the ledger and nowhere else: for every
/// token, what the ledger holds afterwards plus what the distribution sends
/// in that token is what the ledger held before.
pub proof fn lemma_distribution_conserves_fees(
    tokens: Seq<Seq<u8>>,
    acc: Map<Seq<u8>, Amount>,
    pairs: Seq<AddressPercentagePair>,
    token: Seq<u8>,
)
    requires
        tokens.no_duplicates(),
        shares_in_range(acc, pairs),
        !distribution_overdraws(tokens, acc, pairs),
    ensures
        ledger_amount(distributed_ledger(tokens, acc, pairs), token)
            + token_transferred(distribution_transfers(tokens, acc, pairs), token) == ledger_amount(acc, token),
{
    lemma_distribution_transfers_of_token(tokens, acc, pairs, token);
    lemma_shares_total_of_nothing(pairs);
    if tokens.contains(token) && acc.contains_key(token) {
        let i = choose|i: int| 0 <= i < tokens.len() && tokens[i] == token;
        if acc[token] > 0 {
            assert(!(ledger_amount(acc, tokens[i]) > 0
                && shares_total(ledger_amount(acc, tokens[i]) as int, pairs) > ledger_amount(acc, tokens[i])));
            lemma_shares_total_nonneg(acc[token] as int, pairs);
        }
    }
}

/// A fixed fee grows by the per-gas price with each unit of gas, and by the
/// per-transfer price with each transfer: it is the per-transfer price times
/// the transfers plus the per-gas price times the gas limit.
pub proof fn lemma_fixed_fee_arithmetic(per_transfer: Amount, per_gas: Amount, total_transfers: usize, gas: u64)
    ensures
        gas < u64::MAX ==> fixed_fee(per_transfer, per_gas, total_transfers, Some((gas + 1) as u64))
            == fixed_fee(per_transfer, per_gas, total_transfers, Some(gas)) + per_gas,
        fixed_fee(per_transfer, per_gas, total_transfers, Some(0)) == fixed_fee(per_transfer, per_gas, total_transfers, None),
        fixed_fee(per_transfer, per_gas, 0, None) == 0,
        total_transfers < u32::MAX ==> fixed_fee(per_transfer, per_gas, (total_transfers + 1) as usize, None)
            == fixed_fee(per_transfer, per_gas, total_transfers, None) + per_transfer,
        fixed_fee(per_transfer, per_gas, total_transfers, Some(gas))
            == fixed_fee(per_transfer, per_gas, total_transfers, None) + per_gas * gas,
{
    let pg = per_gas as int;
    let g = gas as int;
    assert(pg * (g + 1) == pg * g + pg) by (nonlinear_arith);
    assert(pg * 0 == 0);
    let pt = per_transfer as int;
    let n = total_transfers as int;
    assert(pt * (n + 1) == pt * n + pt) by (nonlinear_arith);
    assert(pt * 0 == 0);
}

} // verus!
