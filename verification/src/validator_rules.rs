use vstd::prelude::*;
use crate::bytes::{bytes_eq, copy_bytes};
use crate::chain_config::{
    ChainConfigContract, ChainConfigView, ValidatorInfo, ValidatorInfoView, consistent, with_validator,
    without_validator,
};
use crate::config::{SovereignConfig, esdt_part, is_new_config_valid, last_egld, stake_error, stake_list_error, validate_stake};
use crate::errors::BridgeError;
use crate::token::{egld_id, egld_token_identifier};
use crate::types::{Payment, PaymentView, StakeArgs, payments_view};

verus! {

/// A fault in a list of additional stakes is a bad token or a zero amount.
proof fn lemma_stake_list_error_kinds(s: Seq<StakeArgs>)
    ensures
        stake_list_error(s) matches Some(e)
            ==> e == BridgeError::InvalidTokenId || e == BridgeError::AdditionalStakeZeroValue,
    decreases s.len(),
{
    if s.len() > 0 {
        lemma_stake_list_error_kinds(s.drop_first());
    }
}

/// Why the validator rules abort on a configuration's additional stakes: an
/// empty list, or the first fault in it.
pub open spec fn rules_config_abort(config: SovereignConfig) -> Option<BridgeError> {
    match config.opt_additional_stake_required {
        Some(v) => if v@.len() == 0 { Some(BridgeError::EmptyAdditionalStake) } else { stake_list_error(v@) },
        None => None,
    }
}

/// Why a registration is refused under the validator rules, checked in this
/// order: registrations closed, a wrong stake (the last EGLD payment counts),
/// a key already registered, or no identifier left.
pub open spec fn rules_register_error(s: ChainConfigView, registration_status: u8, bls_key: Seq<u8>, pv: Seq<PaymentView>) -> Option<BridgeError> {
    if registration_status != 1 {
        Some(BridgeError::RegistrationDisabled)
    } else if stake_error(s.config, last_egld(pv), esdt_part(pv)) is Some {
        stake_error(s.config, last_egld(pv), esdt_part(pv))
    } else if s.key_to_id.contains_key(bls_key) {
        Some(BridgeError::ValidatorAlreadyRegistered)
    } else if s.last_id + 1 > s.config.max_validators {
        Some(BridgeError::ValidatorRangeExceeded)
    } else {
        None
    }
}

/// The storage after a registration under the validator rules.
pub open spec fn rules_registered(s: ChainConfigView, caller: Seq<u8>, bls_key: Seq<u8>, pv: Seq<PaymentView>) -> ChainConfigView {
    let id = (s.last_id + 1) as u128;
    let info = ValidatorInfoView {
        address: caller,
        bls_key,
        egld_stake: last_egld(pv) as u128,
        token_stake: Some(esdt_part(pv)),
    };
    ChainConfigView { last_id: id, ..with_validator(s, id, info) }
}

/// Why an unregistration is refused under the validator rules.
pub open spec fn rules_unregister_error(s: ChainConfigView, caller: Seq<u8>, bls_key: Seq<u8>) -> Option<BridgeError> {
    if !s.key_to_id.contains_key(bls_key) {
        Some(BridgeError::ValidatorNotRegistered)
    } else if !s.infos.contains_key(s.key_to_id[bls_key]) {
        Some(BridgeError::MissingValidatorInfo)
    } else if s.infos[s.key_to_id[bls_key]].address != caller {
        Some(BridgeError::CallerHasIncorrectBlsKey)
    } else {
        None
    }
}

/// The stake refunded under the validator rules: always an EGLD payment (of
/// zero too), then the other tokens.
pub open spec fn rules_total_stake(info: ValidatorInfoView) -> Seq<PaymentView> {
    let egld = seq![PaymentView { token_id: egld_id(), nonce: 0, amount: info.egld_stake }];
    match info.token_stake {
        Some(v) => egld + v,
        None => egld,
    }
}

/// The Chain-Config validator rules: registrations open and close with a
/// status flag, and validators register and leave with their stake.
pub struct ValidatorRulesModule {
    pub chain_config: ChainConfigContract,
    pub registration_status: u8,
}

impl ValidatorRulesModule {
    pub open spec fn wf(&self) -> bool {
        self.chain_config.wf()
    }

    /// Checks a new configuration under the validator rules. A fault in the
    /// additional stakes aborts the call (`Err`); otherwise the call returns
    /// the range error of a minimum above the maximum, or nothing.
    pub fn is_new_config_valid(&self, config: &SovereignConfig) -> (r: Result<Option<BridgeError>, BridgeError>)
        ensures
            rules_config_abort(*config) matches Some(e) ==> r == Err::<Option<BridgeError>, BridgeError>(e),
            rules_config_abort(*config) is None ==> r == Ok::<Option<BridgeError>, BridgeError>(
                if config.min_validators <= config.max_validators { None } else { Some(BridgeError::InvalidMinMaxValidatorNumbers) },
            ),
    {
        match &config.opt_additional_stake_required {
            Some(v) => {
                if v.len() == 0 {
                    return Err(BridgeError::EmptyAdditionalStake);
                }
            },
            None => {},
        }
        proof {
            match &config.opt_additional_stake_required {
                Some(v) => lemma_stake_list_error_kinds(v@),
                None => {},
            }
        }
        match is_new_config_valid(config) {
            Some(BridgeError::InvalidMinMaxValidatorNumbers) => Ok(Some(BridgeError::InvalidMinMaxValidatorNumbers)),
            Some(e) => Err(e),
            None => Ok(None),
        }
    }

    /// Registers `bls_key` for `caller` with the stake sent along; returns the
    /// validator's identifier.
    pub fn register(&mut self, caller: &Vec<u8>, new_bls_key: Vec<u8>, payments: &Vec<Payment>) -> (r: Result<u128, BridgeError>)
        requires
            old(self).wf(),
        ensures
            final(self).wf(),
            final(self).registration_status == old(self).registration_status,
            match rules_register_error(old(self).chain_config@, old(self).registration_status, new_bls_key@, payments_view(payments@)) {
                Some(e) => r == Err::<u128, BridgeError>(e) && final(self).chain_config@ == old(self).chain_config@,
                None => r == Ok::<u128, BridgeError>((old(self).chain_config@.last_id + 1) as u128)
                    && final(self).chain_config@ == rules_registered(old(self).chain_config@, caller@, new_bls_key@, payments_view(payments@)),
            },
    {
        if self.registration_status != 1 {
            return Err(BridgeError::RegistrationDisabled);
        }
        let (egld_stake, additional_stake) = match validate_stake(&self.chain_config.sovereign_config, payments, false) {
            Ok(v) => v,
            Err(e) => {
                return Err(e);
            },
        };
        if self.chain_config.bls_key_to_id.contains_key(&new_bls_key) {
            return Err(BridgeError::ValidatorAlreadyRegistered);
        }
        let id: u128 = self.chain_config.last_bls_key_id + 1;
        if id > self.chain_config.sovereign_config.max_validators as u128 {
            return Err(BridgeError::ValidatorRangeExceeded);
        }
        let info = ValidatorInfo {
            address: copy_bytes(caller),
            bls_key: new_bls_key,
            egld_stake,
            token_stake: Some(additional_stake),
        };
        self.chain_config.insert_validator(id, info);
        self.chain_config.last_bls_key_id = id;
        Ok(id)
    }

    /// Unregisters `bls_key`; only the validator that registered it may.
    /// Returns the stake refunded to the caller.
    pub fn unregister(&mut self, caller: &Vec<u8>, bls_key: &Vec<u8>) -> (r: Result<Vec<Payment>, BridgeError>)
        requires
            old(self).wf(),
        ensures
            final(self).wf(),
            final(self).registration_status == old(self).registration_status,
            match rules_unregister_error(old(self).chain_config@, caller@, bls_key@) {
                Some(e) => r == Err::<Vec<Payment>, BridgeError>(e) && final(self).chain_config@ == old(self).chain_config@,
                None => r is Ok
                    && final(self).chain_config@ == without_validator(old(self).chain_config@, old(self).chain_config@.key_to_id[bls_key@])
                    && payments_view(r->Ok_0@) == rules_total_stake(old(self).chain_config@.infos[old(self).chain_config@.key_to_id[bls_key@]]),
            },
    {
        let id: u128 = match self.chain_config.bls_key_to_id.get(bls_key) {
            Some(id) => *id,
            None => {
                return Err(BridgeError::ValidatorNotRegistered);
            },
        };
        match self.chain_config.validator_info.get(id) {
            Some(info) => {
                if !bytes_eq(&info.address, caller) {
                    return Err(BridgeError::CallerHasIncorrectBlsKey);
                }
            },
            None => {
                return Err(BridgeError::MissingValidatorInfo);
            },
        }
        let info = self.chain_config.remove_validator(id);
        Ok(get_total_stake(&info))
    }

    /// Checks that enough validators registered for the chain to start.
    pub fn require_validator_set_valid(&self, validator_len: usize) -> (r: Result<(), BridgeError>)
        ensures
            r is Ok <==> validator_len >= self.chain_config.sovereign_config.min_validators,
            r is Err ==> r == Err::<(), BridgeError>(BridgeError::NotEnoughValidators),
    {
        if (validator_len as u64) >= self.chain_config.sovereign_config.min_validators {
            Ok(())
        } else {
            Err(BridgeError::NotEnoughValidators)
        }
    }
}

/// The stake to refund under the validator rules (see [`rules_total_stake`]).
pub fn get_total_stake(info: &ValidatorInfo) -> (r: Vec<Payment>)
    ensures
        payments_view(r@) == rules_total_stake(info@),
{
    let mut total: Vec<Payment> = Vec::new();
    total.push(Payment::new(egld_token_identifier(), 0, info.egld_stake));
    let ghost base = payments_view(total@);
    match &info.token_stake {
        Some(v) => {
            let mut i: usize = 0;
            while i < v.len()
                invariant
                    i <= v.len(),
                    total@.len() == base.len() + i,
                    forall|j: int| 0 <= j < base.len() ==> #[trigger] total@[j]@ == base[j],
                    forall|j: int| 0 <= j < i ==> #[trigger] total@[base.len() + j]@ == v@[j]@,
                decreases v.len() - i,
            {
                total.push(v[i].duplicate());
                i = i + 1;
            }
            assert forall|j: int| 0 <= j < total@.len() implies #[trigger] payments_view(total@)[j] == (base + payments_view(v@))[j] by {
                if j >= base.len() {
                    assert(total@[base.len() + (j - base.len())]@ == v@[j - base.len()]@);
                }
            }
            assert(payments_view(total@) =~= base + payments_view(v@));
        },
        None => {},
    }
    total
}

/// A registration under the validator rules keeps the validator maps in
/// agreement, and an unregistration does too.
pub proof fn lemma_rules_keep_consistent(s: ChainConfigView, registration_status: u8, caller: Seq<u8>, bls_key: Seq<u8>, pv: Seq<PaymentView>)
    requires
        consistent(s),
    ensures
        rules_register_error(s, registration_status, bls_key, pv) is None ==> consistent(rules_registered(s, caller, bls_key, pv)),
        rules_unregister_error(s, caller, bls_key) is None ==> consistent(without_validator(s, s.key_to_id[bls_key])),
{
    if rules_register_error(s, registration_status, bls_key, pv) is None {
        let t = rules_registered(s, caller, bls_key, pv);
        let id = (s.last_id + 1) as u128;
        assert(!s.infos.contains_key(id));
        assert(t.bls_keys.dom() =~= t.infos.dom());
        assert forall|k: Seq<u8>| #[trigger] t.key_to_id.contains_key(k) implies
            t.infos.contains_key(t.key_to_id[k]) && t.infos[t.key_to_id[k]].bls_key == k by {
            if k != bls_key {
                assert(s.key_to_id.contains_key(k));
                assert(s.infos.contains_key(s.key_to_id[k]));
            }
        }
    }
    if rules_unregister_error(s, caller, bls_key) is None {
        let id = s.key_to_id[bls_key];
        let t = without_validator(s, id);
        assert(s.infos[id].bls_key == bls_key);
        assert(t.bls_keys.dom() =~= t.infos.dom());
        assert forall|j: u128| #[trigger] t.infos.contains_key(j) implies {
            &&& 0 < j <= t.last_id
            &&& t.bls_keys[j] == t.infos[j].bls_key
            &&& t.key_to_id.contains_key(t.infos[j].bls_key)
            &&& t.key_to_id[t.infos[j].bls_key] == j
        } by {
            assert(s.infos.contains_key(j));
            if s.infos[j].bls_key == bls_key {
                assert(s.key_to_id[bls_key] == j);
            }
        }
    }
}

} // verus!
