use vstd::prelude::*;
use crate::bytes::{bytes_eq, copy_bytes};
use crate::config::{
    SovereignConfig, config_error, egld_total, esdt_part, is_new_config_valid, last_egld,
    lemma_additional_stake_paid_exactly, lemma_config_accepted_exactly, paid_exactly, stake_error, validate_stake,
};
use crate::common_utils::{completion_for, PendingCompletion};
use crate::errors::BridgeError;
use crate::store::{BytesMap, IdMap};
use crate::token::{egld_id, egld_token_identifier, spec_is_valid_esdt_identifier};
use crate::types::{Amount, Payment, PaymentView, payments_view};

verus! {

/// Length of a validator's BLS public key.
pub const BLS_KEY_BYTE_LENGTH: usize = 96;

/// What the chain keeps about a registered validator.
pub struct ValidatorInfo {
    pub address: Vec<u8>,
    pub bls_key: Vec<u8>,
    pub egld_stake: Amount,
    pub token_stake: Option<Vec<Payment>>,
}

/// Mathematical value of a [`ValidatorInfo`].
pub struct ValidatorInfoView {
    pub address: Seq<u8>,
    pub bls_key: Seq<u8>,
    pub egld_stake: Amount,
    pub token_stake: Option<Seq<PaymentView>>,
}

impl View for ValidatorInfo {
    type V = ValidatorInfoView;

    open spec fn view(&self) -> ValidatorInfoView {
        ValidatorInfoView {
            address: self.address@,
            bls_key: self.bls_key@,
            egld_stake: self.egld_stake,
            token_stake: match self.token_stake {
                Some(v) => Some(payments_view(v@)),
                None => None,
            },
        }
    }
}

/// A validator as a bridge operation names it.
pub struct ValidatorData {
    pub id: u128,
    pub address: Vec<u8>,
    pub bls_key: Vec<u8>,
}

/// The stake that a validator gets back: its EGLD, when there is any, then its
/// other tokens.
pub open spec fn total_stake(info: ValidatorInfoView) -> Seq<PaymentView> {
    let egld: Seq<PaymentView> = if info.egld_stake > 0 {
        seq![PaymentView { token_id: egld_id(), nonce: 0, amount: info.egld_stake }]
    } else {
        Seq::empty()
    };
    match info.token_stake {
        Some(v) => egld + v,
        None => egld,
    }
}

/// The stake that a validator gets back (see [`total_stake`]).
pub fn get_total_stake(info: &ValidatorInfo) -> (r: Vec<Payment>)
    ensures
        payments_view(r@) == total_stake(info@),
{
    let mut total: Vec<Payment> = Vec::new();
    if info.egld_stake > 0 {
        total.push(Payment::new(egld_token_identifier(), 0, info.egld_stake));
    }
    let ghost base = payments_view(total@);
    match &info.token_stake {
        Some(v) => {
            let mut i: usize = 0;
            while i < v.len()
                invariant
                    i <= v.len(),
                    total@.len() == base.len() + i,
                    forall|j: int| 0 <= j < base.len() ==> #[trigger] total@[j]@ == base[j],
                    forall|j: int| 0 <= j < i ==> #[trigger] total@[base.len() + j]@ == v@[j]@,
                decreases v.len() - i,
            {
                total.push(v[i].duplicate());
                i = i + 1;
            }
            assert forall|j: int| 0 <= j < total@.len() implies #[trigger] payments_view(total@)[j] == (base + payments_view(v@))[j] by {
                if j >= base.len() {
                    assert(total@[base.len() + (j - base.len())]@ == v@[j - base.len()]@);
                }
            }
            assert(payments_view(total@) =~= base + payments_view(v@));
        },
        None => {},
    }
    assert(payments_view(total@) =~= total_stake(info@));
    total
}

/// Mathematical value of the Chain-Config contract's storage.
pub struct ChainConfigView {
    pub owner: Seq<u8>,
    pub config: SovereignConfig,
    pub setup_phase_complete: bool,
    pub bls_keys: Map<u128, Seq<u8>>,
    pub key_to_id: Map<Seq<u8>, u128>,
    pub infos: Map<u128, ValidatorInfoView>,
    pub last_id: u128,
}

/// The three validator maps agree with one another and hold no identifier
/// above the last one handed out.
pub open spec fn consistent(s: ChainConfigView) -> bool {
    &&& s.bls_keys.dom() == s.infos.dom()
    &&& forall|id: u128| #[trigger] s.infos.contains_key(id) ==> {
        &&& 0 < id <= s.last_id
        &&& s.bls_keys[id] == s.infos[id].bls_key
        &&& s.key_to_id.contains_key(s.infos[id].bls_key)
        &&& s.key_to_id[s.infos[id].bls_key] == id
    }
    &&& forall|k: Seq<u8>| #[trigger] s.key_to_id.contains_key(k) ==> {
        &&& s.infos.contains_key(s.key_to_id[k])
        &&& s.infos[s.key_to_id[k]].bls_key == k
    }
}

/// The storage after a validator is written under `id`: the storage cell of
/// the key's identifier is left empty when `id` is zero.
pub open spec fn with_validator(s: ChainConfigView, id: u128, info: ValidatorInfoView) -> ChainConfigView {
    ChainConfigView {
        bls_keys: s.bls_keys.insert(id, info.bls_key),
        key_to_id: if id == 0 { s.key_to_id.remove(info.bls_key) } else { s.key_to_id.insert(info.bls_key, id) },
        infos: s.infos.insert(id, info),
        ..s
    }
}

/// The storage after the validator under `id` is removed.
pub open spec fn without_validator(s: ChainConfigView, id: u128) -> ChainConfigView {
    ChainConfigView {
        bls_keys: s.bls_keys.remove(id),
        key_to_id: s.key_to_id.remove(s.infos[id].bls_key),
        infos: s.infos.remove(id),
        ..s
    }
}

/// Why a genesis-phase registration is refused, checked in this order.
pub open spec fn register_error(s: ChainConfigView, bls_key: Seq<u8>, pv: Seq<PaymentView>) -> Option<BridgeError> {
    if s.setup_phase_complete {
        Some(BridgeError::RegistrationsDisabledGenesisPhase)
    } else if bls_key.len() != BLS_KEY_BYTE_LENGTH {
        Some(BridgeError::InvalidBlsKeyProvided)
    } else if s.key_to_id.contains_key(bls_key) {
        Some(BridgeError::ValidatorAlreadyRegistered)
    } else if s.last_id + 1 > s.config.max_validators {
        Some(BridgeError::ValidatorRangeExceeded)
    } else {
        stake_error(s.config, egld_total(pv), esdt_part(pv))
    }
}

/// The storage after a successful registration: the key gets the next identifier.
pub open spec fn registered(s: ChainConfigView, caller: Seq<u8>, bls_key: Seq<u8>, pv: Seq<PaymentView>) -> ChainConfigView {
    let id = (s.last_id + 1) as u128;
    let info = ValidatorInfoView {
        address: caller,
        bls_key,
        egld_stake: egld_total(pv) as u128,
        token_stake: Some(esdt_part(pv)),
    };
    ChainConfigView { last_id: id, ..with_validator(s, id, info) }
}

/// Why a genesis-phase unregistration is refused, checked in this order.
pub open spec fn unregister_error(s: ChainConfigView, caller: Seq<u8>, bls_key: Seq<u8>) -> Option<BridgeError> {
    if s.setup_phase_complete {
        Some(BridgeError::RegistrationsDisabledGenesisPhase)
    } else if bls_key.len() != BLS_KEY_BYTE_LENGTH {
        Some(BridgeError::InvalidBlsKeyProvided)
    } else if !s.key_to_id.contains_key(bls_key) {
        Some(BridgeError::ValidatorNotRegistered)
    } else if !s.infos.contains_key(s.key_to_id[bls_key]) {
        Some(BridgeError::MissingValidatorInfo)
    } else if s.infos[s.key_to_id[bls_key]].address != caller {
        Some(BridgeError::InvalidBlsKeyForCaller)
    } else {
        None
    }
}

/// State of the Chain-Config contract: the sovereign configuration and the
/// registered validators, kept in three maps (id to key, key to id, id to
/// validator), plus the last identifier handed out.
pub struct ChainConfigContract {
    pub owner: Vec<u8>,
    pub sovereign_config: SovereignConfig,
    pub setup_phase_complete: bool,
    pub bls_keys_map: IdMap<Vec<u8>>,
    pub bls_key_to_id: BytesMap<u128>,
    pub validator_info: IdMap<ValidatorInfo>,
    pub last_bls_key_id: u128,
}

impl View for ChainConfigContract {
    type V = ChainConfigView;

    open spec fn view(&self) -> ChainConfigView {
        ChainConfigView {
            owner: self.owner@,
            config: self.sovereign_config,
            setup_phase_complete: self.setup_phase_complete,
            bls_keys: self.bls_keys_map@.map_values(|v: Vec<u8>| v@),
            key_to_id: self.bls_key_to_id@,
            infos: self.validator_info@.map_values(|i: ValidatorInfo| i@),
            last_id: self.last_bls_key_id,
        }
    }
}

impl ChainConfigContract {
    /// The maps are well kept and identifiers stay within 64 bits.
    pub open spec fn wf(&self) -> bool {
        &&& self.bls_keys_map.wf()
        &&& self.bls_key_to_id.wf()
        &&& self.validator_info.wf()
        &&& self.last_bls_key_id <= u64::MAX
    }

    /// Deploys the contract with `opt_config`, or with the default configuration.
    pub fn init(owner: Vec<u8>, opt_config: Option<SovereignConfig>) -> (r: Result<ChainConfigContract, BridgeError>)
        ensures
            match opt_config {
                Some(cfg) => match config_error(cfg) {
                    Some(e) => r == Err::<ChainConfigContract, BridgeError>(e),
                    None => r is Ok && r->Ok_0.sovereign_config == cfg,
                },
                None => r is Ok && r->Ok_0.sovereign_config.min_validators == 1
                    && r->Ok_0.sovereign_config.max_validators == 2
                    && r->Ok_0.sovereign_config.min_stake == 0
                    && r->Ok_0.sovereign_config.opt_additional_stake_required is None,
            },
            r is Ok ==> {
                let c = r->Ok_0;
                &&& c.wf()
                &&& consistent(c@)
                &&& c@.owner == owner@
                &&& !c@.setup_phase_complete
                &&& c@.bls_keys.is_empty()
                &&& c@.key_to_id.is_empty()
                &&& c@.infos.is_empty()
                &&& c@.last_id == 0
            },
    {
        let config = match opt_config {
            Some(cfg) => {
                if let Some(e) = is_new_config_valid(&cfg) {
                    return Err(e);
                }
                cfg
            },
            None => SovereignConfig::default_config(),
        };
        let c = ChainConfigContract {
            owner,
            sovereign_config: config,
            setup_phase_complete: false,
            bls_keys_map: IdMap::new(),
            bls_key_to_id: BytesMap::new(),
            validator_info: IdMap::new(),
            last_bls_key_id: 0,
        };
        assert(c@.bls_keys =~= Map::empty());
        assert(c@.infos =~= Map::empty());
        Ok(c)
    }
    pub(crate) fn insert_validator(&mut self, id: u128, info: ValidatorInfo)
        requires
            old(self).wf(),
        ensures
            final(self).wf(),
            final(self)@ == with_validator(old(self)@, id, info@),
    {
        let ghost infov = info@;
        let ghost old_view = self@;
        self.bls_keys_map.insert(id, copy_bytes(&info.bls_key));
        if id == 0 {
            let _ = self.bls_key_to_id.remove(&info.bls_key);
        } else {
            self.bls_key_to_id.insert(copy_bytes(&info.bls_key), id);
        }
        self.validator_info.insert(id, info);
        assert(self@.bls_keys =~= old_view.bls_keys.insert(id, infov.bls_key));
        assert(self@.infos =~= old_view.infos.insert(id, infov));
    }

    pub(crate) fn remove_validator(&mut self, id: u128) -> (r: ValidatorInfo)
        requires
            old(self).wf(),
            old(self)@.infos.contains_key(id),
        ensures
            final(self).wf(),
            final(self)@ == without_validator(old(self)@, id),
            r@ == old(self)@.infos[id],
    {
        let ghost old_view = self@;
        let info = self.validator_info.remove(id).unwrap();
        let _ = self.bls_keys_map.remove(id);
        let _ = self.bls_key_to_id.remove(&info.bls_key);
        assert(self@.bls_keys =~= old_view.bls_keys.remove(id));
        assert(self@.infos =~= old_view.infos.remove(id));
        info
    }

    /// Registers `bls_key` for `caller` during the genesis phase, staking the
    /// tokens sent with the call; returns the validator's identifier.
    pub fn register(&mut self, caller: &Vec<u8>, bls_key: Vec<u8>, payments: &Vec<Payment>) -> (r: Result<u128, BridgeError>)
        requires
            old(self).wf(),
            egld_total(payments_view(payments@)) <= u128::MAX,
        ensures
            final(self).wf(),
            match register_error(old(self)@, bls_key@, payments_view(payments@)) {
                Some(e) => r == Err::<u128, BridgeError>(e) && final(self)@ == old(self)@,
                None => r == Ok::<u128, BridgeError>((old(self)@.last_id + 1) as u128)
                    && final(self)@ == registered(old(self)@, caller@, bls_key@, payments_view(payments@)),
            },
    {
        if self.setup_phase_complete {
            return Err(BridgeError::RegistrationsDisabledGenesisPhase);
        }
        if bls_key.len() != BLS_KEY_BYTE_LENGTH {
            return Err(BridgeError::InvalidBlsKeyProvided);
        }
        if self.bls_key_to_id.contains_key(&bls_key) {
            return Err(BridgeError::ValidatorAlreadyRegistered);
        }
        let id: u128 = self.last_bls_key_id + 1;
        if id > self.sovereign_config.max_validators as u128 {
            return Err(BridgeError::ValidatorRangeExceeded);
        }
        let (egld_stake, additional_stake) = match validate_stake(&self.sovereign_config, payments, true) {
            Ok(v) => v,
            Err(e) => {
                return Err(e);
            },
        };
        let info = ValidatorInfo {
            address: copy_bytes(caller),
            bls_key,
            egld_stake,
            token_stake: Some(additional_stake),
        };
        self.insert_validator(id, info);
        self.last_bls_key_id = id;
        Ok(id)
    }

    /// Unregisters `bls_key` during the genesis phase; only the validator that
    /// registered it may. Returns the stake given back to the caller.
    pub fn unregister(&mut self, caller: &Vec<u8>, bls_key: &Vec<u8>) -> (r: Result<Vec<Payment>, BridgeError>)
        requires
            old(self).wf(),
        ensures
            final(self).wf(),
            match unregister_error(old(self)@, caller@, bls_key@) {
                Some(e) => r == Err::<Vec<Payment>, BridgeError>(e) && final(self)@ == old(self)@,
                None => r is Ok
                    && final(self)@ == without_validator(old(self)@, old(self)@.key_to_id[bls_key@])
                    && payments_view(r->Ok_0@) == total_stake(old(self)@.infos[old(self)@.key_to_id[bls_key@]]),
            },
    {
        if self.setup_phase_complete {
            return Err(BridgeError::RegistrationsDisabledGenesisPhase);
        }
        if bls_key.len() != BLS_KEY_BYTE_LENGTH {
            return Err(BridgeError::InvalidBlsKeyProvided);
        }
        let id: u128 = match self.bls_key_to_id.get(bls_key) {
            Some(id) => *id,
            None => {
                return Err(BridgeError::ValidatorNotRegistered);
            },
        };
        match self.validator_info.get(id) {
            Some(info) => {
                if !bytes_eq(&info.address, caller) {
                    return Err(BridgeError::InvalidBlsKeyForCaller);
                }
            },
            None => {
                return Err(BridgeError::MissingValidatorInfo);
            },
        }
        let info = self.remove_validator(id);
        Ok(get_total_stake(&info))
    }
    /// Whether the setup phase is over.
    pub fn is_setup_phase_complete(&self) -> (r: bool)
        ensures
            r == self@.setup_phase_complete,
    {
        self.setup_phase_complete
    }

    /// Ends the setup phase (owner only) once enough validators are registered.
    /// Returns whether the phase ended with this call: a second call does nothing.
    pub fn complete_setup_phase(&mut self, caller: &Vec<u8>) -> (r: Result<bool, BridgeError>)
        requires
            old(self).wf(),
        ensures
            final(self).wf(),
            old(self)@.owner != caller@ ==> r == Err::<bool, BridgeError>(BridgeError::OnlyOwner) && final(self)@ == old(self)@,
            old(self)@.owner == caller@ && old(self)@.setup_phase_complete ==> r == Ok::<bool, BridgeError>(false) && final(self)@ == old(self)@,
            old(self)@.owner == caller@ && !old(self)@.setup_phase_complete && old(self)@.bls_keys.len() < old(self)@.config.min_validators
                ==> r == Err::<bool, BridgeError>(BridgeError::NotEnoughValidators) && final(self)@ == old(self)@,
            old(self)@.owner == caller@ && !old(self)@.setup_phase_complete && old(self)@.bls_keys.len() >= old(self)@.config.min_validators
                ==> r == Ok::<bool, BridgeError>(true) && final(self)@ == (ChainConfigView { setup_phase_complete: true, ..old(self)@ }),
    {
        if !bytes_eq(&self.owner, caller) {
            return Err(BridgeError::OnlyOwner);
        }
        if self.setup_phase_complete {
            return Ok(false);
        }
        let n = self.bls_keys_map.len();
        proof {
            assert(self@.bls_keys.dom() == self.bls_keys_map@.dom());
            assert(self@.bls_keys.len() == self.bls_keys_map@.len());
        }
        if (n as u64) < self.sovereign_config.min_validators {
            return Err(BridgeError::NotEnoughValidators);
        }
        self.setup_phase_complete = true;
        Ok(true)
    }

    /// Replaces the configuration during the setup phase (owner only).
    pub fn update_sovereign_config_during_setup_phase(&mut self, caller: &Vec<u8>, new_config: SovereignConfig) -> (r: Result<(), BridgeError>)
        requires
            old(self).wf(),
        ensures
            final(self).wf(),
            old(self)@.owner != caller@ ==> r == Err::<(), BridgeError>(BridgeError::OnlyOwner) && final(self)@ == old(self)@,
            old(self)@.owner == caller@ && old(self)@.setup_phase_complete
                ==> r == Err::<(), BridgeError>(BridgeError::SetupPhaseAlreadyCompleted) && final(self)@ == old(self)@,
            old(self)@.owner == caller@ && !old(self)@.setup_phase_complete ==> match config_error(new_config) {
                Some(e) => r == Err::<(), BridgeError>(e) && final(self)@ == old(self)@,
                None => r is Ok && final(self)@ == (ChainConfigView { config: new_config, ..old(self)@ }),
            },
    {
        if !bytes_eq(&self.owner, caller) {
            return Err(BridgeError::OnlyOwner);
        }
        if self.setup_phase_complete {
            return Err(BridgeError::SetupPhaseAlreadyCompleted);
        }
        if let Some(e) = is_new_config_valid(&new_config) {
            return Err(e);
        }
        self.sovereign_config = new_config;
        Ok(())
    }

    /// Applies a signed configuration update, the operation `operation_hash`
    /// under `hash_of_hashes`. `lock_error` is what the Header-Verifier
    /// answered when the operation's hash was locked. Every outcome ends in
    /// one pending completion for those hashes, which carries the error the
    /// operation completes with (`None` when it was applied).
    pub fn update_sovereign_config(
        &mut self,
        hash_of_hashes: &Vec<u8>,
        operation_hash: &Vec<u8>,
        new_config: SovereignConfig,
        lock_error: Option<Vec<u8>>,
    ) -> (r: PendingCompletion)
        requires
            old(self).wf(),
        ensures
            final(self).wf(),
            completion_for(r, hash_of_hashes@, operation_hash@),
            lock_error is Some ==> r.error_message == lock_error && final(self)@ == old(self)@,
            lock_error is None && !old(self)@.setup_phase_complete
                ==> r.error_message is Some && r.error_message->0@ == BridgeError::SetupPhaseNotCompleted.message_view()
                    && final(self)@ == old(self)@,
            lock_error is None && old(self)@.setup_phase_complete ==> match config_error(new_config) {
                Some(e) => r.error_message is Some && r.error_message->0@ == e.message_view() && final(self)@ == old(self)@,
                None => r.error_message is None && final(self)@ == (ChainConfigView { config: new_config, ..old(self)@ }),
            },
    {
        if lock_error.is_some() {
            return PendingCompletion::new(hash_of_hashes, operation_hash, lock_error);
        }
        if !self.setup_phase_complete {
            return PendingCompletion::new(hash_of_hashes, operation_hash, Some(BridgeError::SetupPhaseNotCompleted.message_bytes()));
        }
        if let Some(e) = is_new_config_valid(&new_config) {
            return PendingCompletion::new(hash_of_hashes, operation_hash, Some(e.message_bytes()));
        }
        self.sovereign_config = new_config;
        PendingCompletion::new(hash_of_hashes, operation_hash, None)
    }

    /// Writes a validator that a signed bridge operation registers, with no stake.
    /// `lock_error` is the Header-Verifier's answer to locking the operation.
    /// Every outcome ends in one pending completion for the operation's hashes.
    pub fn register_bls_key(
        &mut self,
        hash_of_hashes: &Vec<u8>,
        operation_hash: &Vec<u8>,
        validator_data: ValidatorData,
        lock_error: Option<Vec<u8>>,
    ) -> (r: PendingCompletion)
        requires
            old(self).wf(),
        ensures
            final(self).wf(),
            completion_for(r, hash_of_hashes@, operation_hash@),
            lock_error is Some ==> r.error_message == lock_error && final(self)@ == old(self)@,
            lock_error is None ==> r.error_message is None && final(self)@ == with_validator(
                old(self)@,
                validator_data.id,
                ValidatorInfoView {
                    address: validator_data.address@,
                    bls_key: validator_data.bls_key@,
                    egld_stake: 0,
                    token_stake: None,
                },
            ),
    {
        if lock_error.is_some() {
            return PendingCompletion::new(hash_of_hashes, operation_hash, lock_error);
        }
        let info = ValidatorInfo {
            address: validator_data.address,
            bls_key: validator_data.bls_key,
            egld_stake: 0,
            token_stake: None,
        };
        self.insert_validator(validator_data.id, info);
        PendingCompletion::new(hash_of_hashes, operation_hash, None)
    }

    /// Removes a validator that a signed bridge operation unregisters, giving its
    /// stake back to the address the operation names. Returns the pending
    /// completion for the operation's hashes, with the error the operation
    /// completes with, and the stake given back.
    pub fn unregister_bls_key(
        &mut self,
        hash_of_hashes: &Vec<u8>,
        operation_hash: &Vec<u8>,
        validator_data: &ValidatorData,
        lock_error: Option<Vec<u8>>,
    ) -> (r: (PendingCompletion, Vec<Payment>))
        requires
            old(self).wf(),
        ensures
            final(self).wf(),
            completion_for(r.0, hash_of_hashes@, operation_hash@),
            lock_error is Some ==> r.0.error_message == lock_error && r.1@.len() == 0 && final(self)@ == old(self)@,
            lock_error is None && !old(self)@.infos.contains_key(validator_data.id)
                ==> r.0.error_message is Some && r.0.error_message->0@ == BridgeError::ValidatorIdNotRegistered.message_view()
                    && r.1@.len() == 0 && final(self)@ == old(self)@,
            lock_error is None && old(self)@.infos.contains_key(validator_data.id)
                && old(self)@.infos[validator_data.id].address != validator_data.address@
                ==> r.0.error_message is Some && r.0.error_message->0@ == BridgeError::InvalidValidatorData.message_view()
                    && r.1@.len() == 0 && final(self)@ == old(self)@,
            lock_error is None && old(self)@.infos.contains_key(validator_data.id)
                && old(self)@.infos[validator_data.id].address == validator_data.address@
                ==> r.0.error_message is None && final(self)@ == without_validator(old(self)@, validator_data.id)
                    && payments_view(r.1@) == total_stake(old(self)@.infos[validator_data.id]),
    {
        if lock_error.is_some() {
            return (PendingCompletion::new(hash_of_hashes, operation_hash, lock_error), Vec::new());
        }
        match self.validator_info.get(validator_data.id) {
            None => {
                return (
                    PendingCompletion::new(hash_of_hashes, operation_hash, Some(BridgeError::ValidatorIdNotRegistered.message_bytes())),
                    Vec::new(),
                );
            },
            Some(info) => {
                if !bytes_eq(&info.address, &validator_data.address) {
                    return (
                        PendingCompletion::new(hash_of_hashes, operation_hash, Some(BridgeError::InvalidValidatorData.message_bytes())),
                        Vec::new(),
                    );
                }
            },
        }
        let info = self.remove_validator(validator_data.id);
        (PendingCompletion::new(hash_of_hashes, operation_hash, None), get_total_stake(&info))
    }
}

/// A genesis-phase registration keeps the three validator maps in agreement.
pub proof fn lemma_register_keeps_consistent(s: ChainConfigView, caller: Seq<u8>, bls_key: Seq<u8>, pv: Seq<PaymentView>)
    requires
        consistent(s),
        register_error(s, bls_key, pv) is None,
    ensures
        consistent(registered(s, caller, bls_key, pv)),
{
    let t = registered(s, caller, bls_key, pv);
    let id = (s.last_id + 1) as u128;
    assert(!s.infos.contains_key(id));
    assert(t.bls_keys.dom() =~= t.infos.dom());
    assert forall|k: Seq<u8>| #[trigger] t.key_to_id.contains_key(k) implies
        t.infos.contains_key(t.key_to_id[k]) && t.infos[t.key_to_id[k]].bls_key == k by {
        if k != bls_key {
            assert(s.key_to_id.contains_key(k));
            assert(s.infos.contains_key(s.key_to_id[k]));
        }
    }
}

/// A genesis-phase unregistration keeps the three validator maps in agreement.
pub proof fn lemma_unregister_keeps_consistent(s: ChainConfigView, caller: Seq<u8>, bls_key: Seq<u8>)
    requires
        consistent(s),
        unregister_error(s, caller, bls_key) is None,
    ensures
        consistent(without_validator(s, s.key_to_id[bls_key])),
{
    let id = s.key_to_id[bls_key];
    let t = without_validator(s, id);
    assert(s.infos[id].bls_key == bls_key);
    assert(t.bls_keys.dom() =~= t.infos.dom());
    assert forall|j: u128| #[trigger] t.infos.contains_key(j) implies {
        &&& 0 < j <= t.last_id
        &&& t.bls_keys[j] == t.infos[j].bls_key
        &&& t.key_to_id.contains_key(t.infos[j].bls_key)
        &&& t.key_to_id[t.infos[j].bls_key] == j
    } by {
        assert(s.infos.contains_key(j));
        if s.infos[j].bls_key == bls_key {
            assert(s.key_to_id[bls_key] == j);
        }
    }
}

/// Registering a key and then unregistering it, by the same caller, gives back
/// exactly the stake that was sent and leaves the validator maps as they were;
/// only the last identifier handed out has moved on.
pub proof fn lemma_register_then_unregister(s: ChainConfigView, caller: Seq<u8>, bls_key: Seq<u8>, pv: Seq<PaymentView>)
    requires
        consistent(s),
        register_error(s, bls_key, pv) is None,
    ensures
        ({
            let id = (s.last_id + 1) as u128;
            let t = registered(s, caller, bls_key, pv);
            &&& unregister_error(t, caller, bls_key) is None
            &&& t.key_to_id[bls_key] == id
            &&& without_validator(t, id) == ChainConfigView { last_id: id, ..s }
            &&& total_stake(t.infos[id]) == (if egld_total(pv) > 0 {
                seq![PaymentView { token_id: egld_id(), nonce: 0, amount: egld_total(pv) as u128 }]
            } else {
                Seq::<PaymentView>::empty()
            }) + esdt_part(pv)
        }),
{
    let id = (s.last_id + 1) as u128;
    let t = registered(s, caller, bls_key, pv);
    let u = without_validator(t, id);
    assert(!s.infos.contains_key(id));
    assert(!s.bls_keys.contains_key(id)) by {
        assert(s.bls_keys.dom() == s.infos.dom());
    }
    assert(u.bls_keys =~= s.bls_keys);
    assert(u.key_to_id =~= s.key_to_id);
    assert(u.infos =~= s.infos);
}

/// Every successful registration hands out an identifier that no validator had.
pub proof fn lemma_register_fresh_id(s: ChainConfigView, caller: Seq<u8>, bls_key: Seq<u8>, pv: Seq<PaymentView>)
    requires
        consistent(s),
        register_error(s, bls_key, pv) is None,
    ensures
        forall|j: u128| #[trigger] s.infos.contains_key(j) ==> j < s.last_id + 1,
        !s.infos.contains_key((s.last_id + 1) as u128),
        registered(s, caller, bls_key, pv).last_id == s.last_id + 1,
{
}

/// No registration succeeds once the identifiers handed out reach the
/// configured maximum number of validators.
pub proof fn lemma_register_range(s: ChainConfigView, caller: Seq<u8>, bls_key: Seq<u8>, pv: Seq<PaymentView>)
    requires
        s.last_id >= s.config.max_validators,
    ensures
        register_error(s, bls_key, pv) is Some,
{
}

/// Identifiers are never handed out twice: unregistering a validator leaves
/// the last identifier where it was, so when a key registered and then
/// unregistered by its caller is followed by another registration, that one
/// gets the next identifier and never the freed one.
pub proof fn lemma_ids_never_reused(
    s: ChainConfigView,
    caller: Seq<u8>,
    first_key: Seq<u8>,
    first_payments: Seq<PaymentView>,
    next_caller: Seq<u8>,
    next_key: Seq<u8>,
    next_payments: Seq<PaymentView>,
)
    requires
        consistent(s),
        register_error(s, first_key, first_payments) is None,
        register_error(
            without_validator(registered(s, caller, first_key, first_payments), (s.last_id + 1) as u128),
            next_key,
            next_payments,
        ) is None,
    ensures
        ({
            let t = registered(s, caller, first_key, first_payments);
            let freed = t.key_to_id[first_key];
            let u = without_validator(t, freed);
            let w = registered(u, next_caller, next_key, next_payments);
            &&& freed == s.last_id + 1
            &&& unregister_error(t, caller, first_key) is None
            &&& u.last_id == t.last_id
            &&& w.key_to_id[next_key] == s.last_id + 2
            &&& w.key_to_id[next_key] != freed
        }),
{
    lemma_register_then_unregister(s, caller, first_key, first_payments);
}

/// A genesis registration that asks for additional stakes succeeds only when
/// each required stake is paid by some payment of exactly that token and
/// amount: a stake paid short, or not at all, is refused.
pub proof fn lemma_register_requires_exact_stake(s: ChainConfigView, bls_key: Seq<u8>, pv: Seq<PaymentView>)
    requires
        s.config.opt_additional_stake_required is Some,
    ensures
        register_error(s, bls_key, pv) is None
            ==> paid_exactly(s.config.opt_additional_stake_required->0@, esdt_part(pv)),
        !paid_exactly(s.config.opt_additional_stake_required->0@, esdt_part(pv))
            ==> register_error(s, bls_key, pv) is Some,
{
    lemma_additional_stake_paid_exactly(s.config, egld_total(pv), esdt_part(pv));
}

/// A configuration is taken, at deployment or by an update, only when every
/// entry of its additional stake list names a valid token with a non-zero
/// amount and its minimum number of validators is at most its maximum.
pub proof fn lemma_accepted_config_entries(config: SovereignConfig, i: int)
    requires
        config_error(config) is None,
    ensures
        config.min_validators <= config.max_validators,
        config.opt_additional_stake_required is Some && 0 <= i < config.opt_additional_stake_required->0@.len()
            ==> spec_is_valid_esdt_identifier(config.opt_additional_stake_required->0@[i].token_identifier@)
                && config.opt_additional_stake_required->0@[i].amount > 0,
{
    lemma_config_accepted_exactly(config);
}

} // verus!
