use vstd::prelude::*;
use crate::errors::BridgeError;
use crate::token::{egld_id, is_egld, is_valid_esdt_identifier, spec_is_valid_esdt_identifier};
use crate::types::{Amount, Payment, PaymentView, StakeArgs, payments_view};

verus! {

/// The sovereign chain's validator configuration.
pub struct SovereignConfig {
    pub min_validators: u64,
    pub max_validators: u64,
    pub min_stake: Amount,
    pub opt_additional_stake_required: Option<Vec<StakeArgs>>,
}

impl SovereignConfig {
    pub fn new(
        min_validators: u64,
        max_validators: u64,
        min_stake: Amount,
        opt_additional_stake_required: Option<Vec<StakeArgs>>,
    ) -> (r: SovereignConfig)
        ensures
            r.min_validators == min_validators,
            r.max_validators == max_validators,
            r.min_stake == min_stake,
            r.opt_additional_stake_required == opt_additional_stake_required,
    {
        SovereignConfig { min_validators, max_validators, min_stake, opt_additional_stake_required }
    }

    /// The configuration a chain gets when none is given: one to two validators,
    /// no stake.
    pub fn default_config() -> (r: SovereignConfig)
        ensures
            r.min_validators == 1,
            r.max_validators == 2,
            r.min_stake == 0,
            r.opt_additional_stake_required is None,
    {
        SovereignConfig {
            min_validators: 1,
            max_validators: 2,
            min_stake: 0,
            opt_additional_stake_required: None,
        }
    }
}

/// The first fault in a list of required additional stakes, checked in order:
/// an invalid token identifier, or a zero amount.
pub open spec fn stake_list_error(s: Seq<StakeArgs>) -> Option<BridgeError>
    decreases s.len(),
{
    if s.len() == 0 {
        None
    } else if !spec_is_valid_esdt_identifier(s[0].token_identifier@) {
        Some(BridgeError::InvalidTokenId)
    } else if s[0].amount == 0 {
        Some(BridgeError::AdditionalStakeZeroValue)
    } else {
        stake_list_error(s.drop_first())
    }
}

/// Why a configuration is refused, if it is: the first fault among its
/// additional stakes, else a minimum above the maximum.
pub open spec fn config_error(config: SovereignConfig) -> Option<BridgeError> {
    let stake_error = match config.opt_additional_stake_required {
        Some(v) => stake_list_error(v@),
        None => None,
    };
    if stake_error is Some {
        stake_error
    } else if config.min_validators <= config.max_validators {
        None
    } else {
        Some(BridgeError::InvalidMinMaxValidatorNumbers)
    }
}

fn check_stake_list(v: &Vec<StakeArgs>) -> (r: Option<BridgeError>)
    ensures
        r == stake_list_error(v@),
{
    let mut i: usize = 0;
    assert(v@.skip(0) =~= v@);
    while i < v.len()
        invariant
            i <= v.len(),
            stake_list_error(v@) == stake_list_error(v@.skip(i as int)),
        decreases v.len() - i,
    {
        assert(v@.skip(i as int).drop_first() =~= v@.skip(i + 1));
        assert(v@.skip(i as int)[0] == v@[i as int]);
        if !is_valid_esdt_identifier(&v[i].token_identifier) {
            return Some(BridgeError::InvalidTokenId);
        }
        if v[i].amount == 0 {
            return Some(BridgeError::AdditionalStakeZeroValue);
        }
        i = i + 1;
    }
    None
}

/// Checks a new configuration; `None` when it is acceptable.
pub fn is_new_config_valid(config: &SovereignConfig) -> (r: Option<BridgeError>)
    ensures
        r == config_error(*config),
{
    match &config.opt_additional_stake_required {
        Some(v) => {
            let e = check_stake_list(v);
            if e.is_some() {
                return e;
            }
        },
        None => {},
    }
    if config.min_validators <= config.max_validators {
        None
    } else {
        Some(BridgeError::InvalidMinMaxValidatorNumbers)
    }
}

/// Sum of the EGLD amounts among `p`.
pub open spec fn egld_total(p: Seq<PaymentView>) -> int
    decreases p.len(),
{
    if p.len() == 0 {
        0
    } else {
        egld_total(p.drop_last()) + if p.last().token_id == egld_id() { p.last().amount as int } else { 0int }
    }
}

/// Amount of the last EGLD payment among `p`, or 0.
pub open spec fn last_egld(p: Seq<PaymentView>) -> int
    decreases p.len(),
{
    if p.len() == 0 {
        0
    } else if p.last().token_id == egld_id() {
        p.last().amount as int
    } else {
        last_egld(p.drop_last())
    }
}

/// The payments of `p` that are not EGLD, in order.
pub open spec fn esdt_part(p: Seq<PaymentView>) -> Seq<PaymentView>
    decreases p.len(),
{
    if p.len() == 0 {
        Seq::empty()
    } else if p.last().token_id == egld_id() {
        esdt_part(p.drop_last())
    } else {
        esdt_part(p.drop_last()).push(p.last())
    }
}

/// Some payment carries the token and amount of `req`.
pub open spec fn stake_matched(req: StakeArgs, esdt: Seq<PaymentView>) -> bool {
    exists|j: int| 0 <= j < esdt.len() && #[trigger] esdt[j].token_id == req.token_identifier@
        && esdt[j].amount == req.amount
}

/// Every required stake is matched by a payment of the same token and amount.
pub open spec fn additional_stake_paid(required: Seq<StakeArgs>, esdt: Seq<PaymentView>) -> bool {
    forall|i: int| 0 <= i < required.len() ==> stake_matched(#[trigger] required[i], esdt)
}

/// What a registration's stake check decides, given the EGLD sent and the other payments.
pub open spec fn stake_error(config: SovereignConfig, egld: int, esdt: Seq<PaymentView>) -> Option<BridgeError> {
    if egld != config.min_stake {
        Some(BridgeError::InvalidEgldStake)
    } else {
        match config.opt_additional_stake_required {
            Some(v) => if additional_stake_paid(v@, esdt) { None } else { Some(BridgeError::InvalidAdditionalStake) },
            None => if esdt.len() == 0 { None } else { Some(BridgeError::AdditionalStakeNotRequired) },
        }
    }
}

/// Splits the payments of a call into the EGLD they carry and the other tokens.
/// With `accumulate`, EGLD amounts are added up; otherwise the last one counts.
pub fn split_payments(payments: &Vec<Payment>, accumulate: bool) -> (r: (Amount, Vec<Payment>))
    requires
        accumulate ==> egld_total(payments_view(payments@)) <= u128::MAX,
    ensures
        accumulate ==> r.0 == egld_total(payments_view(payments@)),
        !accumulate ==> r.0 == last_egld(payments_view(payments@)),
        payments_view(r.1@) == esdt_part(payments_view(payments@)),
{
    let ghost pv = payments_view(payments@);
    let mut egld: Amount = 0;
    let mut esdt: Vec<Payment> = Vec::new();
    let mut i: usize = 0;
    while i < payments.len()
        invariant
            i <= payments.len(),
            pv == payments_view(payments@),
            accumulate ==> egld_total(pv) <= u128::MAX,
            accumulate ==> egld == egld_total(pv.subrange(0, i as int)),
            !accumulate ==> egld == last_egld(pv.subrange(0, i as int)),
            payments_view(esdt@) == esdt_part(pv.subrange(0, i as int)),
        decreases payments.len() - i,
    {
        let ghost pre = pv.subrange(0, i as int);
        let ghost next = pv.subrange(0, i + 1);
        assert(next.drop_last() =~= pre);
        assert(next.last() == payments@[i as int]@);
        proof {
            if accumulate {
                lemma_egld_total_prefix(pv, i + 1);
            }
        }
        let p = &payments[i];
        if is_egld(&p.token_id) {
            if accumulate {
                egld = egld + p.amount;
            } else {
                egld = p.amount;
            }
        } else {
            esdt.push(p.duplicate());
            assert(payments_view(esdt@) =~= esdt_part(pre).push(p@));
        }
        i = i + 1;
    }
    assert(pv.subrange(0, payments.len() as int) =~= pv);
    (egld, esdt)
}

proof fn lemma_egld_total_prefix(p: Seq<PaymentView>, k: int)
    requires
        0 <= k <= p.len(),
    ensures
        0 <= egld_total(p.subrange(0, k)) <= egld_total(p),
    decreases p.len() - k,
{
    lemma_egld_total_nonneg(p.subrange(0, k));
    if k < p.len() {
        lemma_egld_total_prefix(p, k + 1);
        assert(p.subrange(0, k + 1).drop_last() =~= p.subrange(0, k));
    } else {
        assert(p.subrange(0, k) =~= p);
    }
}

proof fn lemma_egld_total_nonneg(p: Seq<PaymentView>)
    ensures
        egld_total(p) >= 0,
    decreases p.len(),
{
    if p.len() > 0 {
        lemma_egld_total_nonneg(p.drop_last());
    }
}

fn stake_is_matched(req: &StakeArgs, esdt: &Vec<Payment>) -> (r: bool)
    ensures
        r == stake_matched(*req, payments_view(esdt@)),
{
    let ghost ev = payments_view(esdt@);
    let mut j: usize = 0;
    while j < esdt.len()
        invariant
            j <= esdt.len(),
            ev == payments_view(esdt@),
            forall|b: int| 0 <= b < j ==> !(ev[b].token_id == req.token_identifier@
                && ev[b].amount == req.amount),
        decreases esdt.len() - j,
    {
        assert(ev[j as int] == esdt@[j as int]@);
        if crate::bytes::bytes_eq(&esdt[j].token_id, &req.token_identifier)
            && esdt[j].amount == req.amount {
            assert(ev[j as int].token_id == req.token_identifier@);
            return true;
        }
        j = j + 1;
    }
    false
}

fn additional_stake_matches(required: &Vec<StakeArgs>, esdt: &Vec<Payment>) -> (r: bool)
    ensures
        r == additional_stake_paid(required@, payments_view(esdt@)),
{
    let mut i: usize = 0;
    while i < required.len()
        invariant
            i <= required.len(),
            forall|a: int| 0 <= a < i ==> stake_matched(#[trigger] required@[a], payments_view(esdt@)),
        decreases required.len() - i,
    {
        if !stake_is_matched(&required[i], esdt) {
            return false;
        }
        i = i + 1;
    }
    true
}

/// Checks the stake sent with a registration against the configuration and
/// returns the EGLD staked and the other tokens staked.
pub fn validate_stake(config: &SovereignConfig, payments: &Vec<Payment>, accumulate: bool) -> (r: Result<(Amount, Vec<Payment>), BridgeError>)
    requires
        accumulate ==> egld_total(payments_view(payments@)) <= u128::MAX,
    ensures
        ({
            let pv = payments_view(payments@);
            let egld = if accumulate { egld_total(pv) } else { last_egld(pv) };
            match stake_error(*config, egld, esdt_part(pv)) {
                Some(e) => r == Err::<(Amount, Vec<Payment>), BridgeError>(e),
                None => r is Ok && r->Ok_0.0 == egld && payments_view(r->Ok_0.1@) == esdt_part(pv),
            }
        }),
{
    let (egld, esdt) = split_payments(payments, accumulate);
    if egld != config.min_stake {
        return Err(BridgeError::InvalidEgldStake);
    }
    match &config.opt_additional_stake_required {
        Some(required) => {
            if !additional_stake_matches(required, &esdt) {
                return Err(BridgeError::InvalidAdditionalStake);
            }
        },
        None => {
            if esdt.len() != 0 {
                return Err(BridgeError::AdditionalStakeNotRequired);
            }
        },
    }
    Ok((egld, esdt))
}

/// A list of additional stakes has no fault exactly when every entry, at
/// every position, names a valid token and a non-zero amount.
proof fn lemma_stake_list_error_none(s: Seq<StakeArgs>)
    ensures
        stake_list_error(s) is None <==> forall|i: int| 0 <= i < s.len()
            ==> spec_is_valid_esdt_identifier((#[trigger] s[i]).token_identifier@) && s[i].amount > 0,
    decreases s.len(),
{
    if s.len() > 0 {
        lemma_stake_list_error_none(s.drop_first());
        if stake_list_error(s.drop_first()) is None && spec_is_valid_esdt_identifier(s[0].token_identifier@) && s[0].amount > 0 {
            assert forall|i: int| 0 <= i < s.len()
                implies spec_is_valid_esdt_identifier((#[trigger] s[i]).token_identifier@) && s[i].amount > 0 by {
                if i > 0 {
                    assert(s[i] == s.drop_first()[i - 1]);
                }
            }
        }
        if forall|i: int| 0 <= i < s.len() ==> spec_is_valid_esdt_identifier((#[trigger] s[i]).token_identifier@) && s[i].amount > 0 {
            assert forall|i: int| 0 <= i < s.drop_first().len()
                implies spec_is_valid_esdt_identifier((#[trigger] s.drop_first()[i]).token_identifier@) && s.drop_first()[i].amount > 0 by {
                assert(s.drop_first()[i] == s[i + 1]);
            }
        }
    }
}

/// A configuration is accepted exactly when its minimum number of validators
/// is at most its maximum and every entry of its additional stake list, at
/// every position, names a valid token with a non-zero amount.
pub proof fn lemma_config_accepted_exactly(config: SovereignConfig)
    ensures
        config_error(config) is None <==> {
            &&& config.min_validators <= config.max_validators
            &&& config.opt_additional_stake_required matches Some(v) ==> forall|i: int| 0 <= i < v@.len()
                ==> spec_is_valid_esdt_identifier((#[trigger] v@[i]).token_identifier@) && v@[i].amount > 0
        },
{
    match config.opt_additional_stake_required {
        Some(v) => lemma_stake_list_error_none(v@),
        None => {},
    }
}

/// Every required stake is paid by some payment of exactly its token and
/// amount.
pub open spec fn paid_exactly(required: Seq<StakeArgs>, esdt: Seq<PaymentView>) -> bool {
    forall|i: int| 0 <= i < required.len() ==> paid_by(#[trigger] required[i], esdt)
}

/// Some payment carries exactly the token and the amount of `stake`.
pub open spec fn paid_by(stake: StakeArgs, esdt: Seq<PaymentView>) -> bool {
    exists|j: int| 0 <= j < esdt.len() && (#[trigger] esdt[j]).token_id == stake.token_identifier@
        && esdt[j].amount == stake.amount
}

/// The stake check passes exactly when the EGLD sent is the minimum stake and,
/// where additional stakes are required, each of them is paid by some payment
/// of exactly that token and amount: a stake paid short, or not at all, is
/// refused.
pub proof fn lemma_additional_stake_paid_exactly(config: SovereignConfig, egld: int, esdt: Seq<PaymentView>)
    requires
        config.opt_additional_stake_required is Some,
    ensures
        stake_error(config, egld, esdt) is None <==> egld == config.min_stake
            && paid_exactly(config.opt_additional_stake_required->0@, esdt),
{
    let v = config.opt_additional_stake_required->0@;
    if additional_stake_paid(v, esdt) {
        assert forall|i: int| 0 <= i < v.len() implies paid_by(#[trigger] v[i], esdt) by {
            assert(stake_matched(v[i], esdt));
            let j = choose|j: int| 0 <= j < esdt.len() && esdt[j].token_id == v[i].token_identifier@ && esdt[j].amount == v[i].amount;
            assert(esdt[j].token_id == v[i].token_identifier@);
        }
        assert(paid_exactly(v, esdt));
    }
    if paid_exactly(v, esdt) {
        assert forall|i: int| 0 <= i < v.len() implies stake_matched(#[trigger] v[i], esdt) by {
            assert(paid_by(v[i], esdt));
            let j = choose|j: int| 0 <= j < esdt.len() && esdt[j].token_id == v[i].token_identifier@ && esdt[j].amount == v[i].amount;
            assert(esdt[j].token_id == v[i].token_identifier@);
        }
        assert(additional_stake_paid(v, esdt));
    }
    assert(stake_error(config, egld, esdt) == if egld != config.min_stake {
        Some(BridgeError::InvalidEgldStake)
    } else if additional_stake_paid(v, esdt) {
        None
    } else {
        Some(BridgeError::InvalidAdditionalStake)
    });
}

} // verus!
