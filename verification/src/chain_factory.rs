use vstd::prelude::*;
use crate::bytes::{bytes_eq, copy_bytes};
use crate::common_utils::{is_zero, is_zero_address, require_sc_address};
use crate::config::SovereignConfig;
use crate::cross_chain::{decimal, u32_to_decimal, EsdtSafeConfig};
use crate::errors::BridgeError;
use crate::fee::FeeStruct;
use crate::store::BytesMap;
use vstd::string::StringSliceAdditionalSpecFns;

verus! {

/// The kinds of contract that make up a sovereign chain.
#[derive(Clone, Copy, Debug, PartialEq, Eq, Structural)]
pub enum ScArray {
    ChainFactory,
    Controller,
    SovereignHeaderVerifier,
    SovereignCrossChainOperation,
    FeeMarket,
    TokenHandler,
    ChainConfig,
    Slashing,
}

/// The number by which messages name a kind of contract: its place in the
/// list of kinds, from 0.
pub open spec fn spec_sc_array_number(id: ScArray) -> u32 {
    match id {
        ScArray::ChainFactory => 0,
        ScArray::Controller => 1,
        ScArray::SovereignHeaderVerifier => 2,
        ScArray::SovereignCrossChainOperation => 3,
        ScArray::FeeMarket => 4,
        ScArray::TokenHandler => 5,
        ScArray::ChainConfig => 6,
        ScArray::Slashing => 7,
    }
}

/// The number by which messages name a kind of contract.
pub fn sc_array_number(id: ScArray) -> (r: u32)
    ensures
        r == spec_sc_array_number(id),
{
    match id {
        ScArray::ChainFactory => 0,
        ScArray::Controller => 1,
        ScArray::SovereignHeaderVerifier => 2,
        ScArray::SovereignCrossChainOperation => 3,
        ScArray::FeeMarket => 4,
        ScArray::TokenHandler => 5,
        ScArray::ChainConfig => 6,
        ScArray::Slashing => 7,
    }
}

/// Why the factory refuses a request about a creator's deployed contracts.
pub enum FactoryError {
    /// The creator has no contracts registered; `chain_id` is the chain asked about.
    NoRegisteredContracts { chain_id: Vec<u8> },
    /// The creator registered no contract of kind `contract_id`.
    ContractNotDeployed { contract_id: ScArray },
    /// The creator's contracts belong to another chain than `chain_id`.
    UnregisteredChain { chain_id: Vec<u8> },
    /// A refusal that carries no data.
    Refused(BridgeError),
}

impl FactoryError {
    /// The message that the factory reports for this error.
    pub open spec fn message_view(&self) -> Seq<u8> {
        match self {
            FactoryError::NoRegisteredContracts { chain_id } =>
                "There are no registered contracts in the ".spec_bytes() + chain_id@ + " chain".spec_bytes(),
            FactoryError::ContractNotDeployed { contract_id } =>
                "The contract with ".spec_bytes() + decimal(spec_sc_array_number(*contract_id) as nat)
                    + " id was not deployed".spec_bytes(),
            FactoryError::UnregisteredChain { chain_id } =>
                "There are no registered contracts by the caller it the ".spec_bytes() + chain_id@
                    + " chain".spec_bytes(),
            FactoryError::Refused(e) => e.message_view(),
        }
    }

    /// The message that the factory reports for this error.
    pub fn message_bytes(&self) -> (r: Vec<u8>)
        ensures
            r@ == self.message_view(),
    {
        match self {
            FactoryError::NoRegisteredContracts { chain_id } =>
                enclose("There are no registered contracts in the ".as_bytes_vec(), chain_id, " chain".as_bytes_vec()),
            FactoryError::ContractNotDeployed { contract_id } => {
                let digits = u32_to_decimal(sc_array_number(*contract_id));
                enclose("The contract with ".as_bytes_vec(), &digits, " id was not deployed".as_bytes_vec())
            },
            FactoryError::UnregisteredChain { chain_id } =>
                enclose("There are no registered contracts by the caller it the ".as_bytes_vec(), chain_id, " chain".as_bytes_vec()),
            FactoryError::Refused(e) => e.message_bytes(),
        }
    }
}

/// `head`, then `middle`, then `tail`.
fn enclose(head: Vec<u8>, middle: &Vec<u8>, tail: Vec<u8>) -> (r: Vec<u8>)
    ensures
        r@ == head@ + middle@ + tail@,
{
    let mut r = head;
    let mut m = copy_bytes(middle);
    let mut t = tail;
    r.append(&mut m);
    r.append(&mut t);
    r
}

/// A deployed contract of a sovereign chain.
pub struct ContractInfo {
    pub id: ScArray,
    pub address: Vec<u8>,
}

/// The contracts that a sovereign creator deployed, and their chain.
pub struct ContractMapArgs {
    pub chain_id: Vec<u8>,
    pub contracts_info: Vec<ContractInfo>,
}

/// Whether some contract of the list has kind `id`.
pub open spec fn has_contract(list: Seq<ContractInfo>, id: ScArray) -> bool {
    exists|i: int| 0 <= i < list.len() && (#[trigger] list[i]).id == id
}

/// The address of the first contract of kind `id` in the list.
pub open spec fn first_contract_address(list: Seq<ContractInfo>, id: ScArray) -> Seq<u8>
    decreases list.len(),
{
    if list.len() == 0 {
        Seq::empty()
    } else if list[0].id == id {
        list[0].address@
    } else {
        first_contract_address(list.drop_first(), id)
    }
}

proof fn lemma_has_contract_drop_first(list: Seq<ContractInfo>, id: ScArray)
    requires
        list.len() > 0,
        list[0].id != id,
    ensures
        has_contract(list, id) == has_contract(list.drop_first(), id),
{
    if has_contract(list, id) {
        let i = choose|i: int| 0 <= i < list.len() && (#[trigger] list[i]).id == id;
        assert(list.drop_first()[i - 1].id == id);
    }
    if has_contract(list.drop_first(), id) {
        let i = choose|i: int| 0 <= i < list.len() - 1 && (#[trigger] list.drop_first()[i]).id == id;
        assert(list[i + 1].id == id);
    }
}

/// Finds the address of the first contract of kind `id`.
pub fn find_contract(list: &Vec<ContractInfo>, id: ScArray) -> (r: Option<Vec<u8>>)
    ensures
        has_contract(list@, id) ==> r is Some && r->0@ == first_contract_address(list@, id),
        !has_contract(list@, id) ==> r is None,
{
    let mut i: usize = 0;
    assert(list@.skip(0) =~= list@);
    while i < list.len()
        invariant
            i <= list.len(),
            has_contract(list@, id) == has_contract(list@.skip(i as int), id),
            first_contract_address(list@, id) == first_contract_address(list@.skip(i as int), id),
        decreases list.len() - i,
    {
        let ghost rest = list@.skip(i as int);
        assert(rest[0] == list@[i as int]);
        if list[i].id == id {
            assert(has_contract(rest, id)) by { assert(rest[0].id == id); }
            return Some(copy_bytes(&list[i].address));
        }
        proof {
            lemma_has_contract_drop_first(rest, id);
            assert(rest.drop_first() =~= list@.skip(i + 1));
        }
        i = i + 1;
    }
    None
}

/// A call that the factory makes on another contract.
pub enum FactoryCall {
    /// Deploys a Chain-Config from the template at `source`.
    DeployChainConfig { source: Vec<u8>, opt_sovereign_config: Option<SovereignConfig> },
    /// Deploys a Header-Verifier from the template at `source`.
    DeployHeaderVerifier { source: Vec<u8>, contracts: Vec<ContractInfo> },
    /// Deploys an ESDT-Safe from the template at `source`.
    DeployEsdtSafe { source: Vec<u8>, sovereign_owner: Vec<u8>, sovereign_forge: Vec<u8>, token_prefix: Vec<u8>, opt_esdt_safe_config: Option<EsdtSafeConfig> },
    /// Deploys a fee market from the template at `source`.
    DeployFeeMarket { source: Vec<u8>, esdt_safe_address: Vec<u8>, opt_fee: Option<FeeStruct> },
    /// Tells the ESDT-Safe at `to` the address of its fee market.
    SetFeeMarketAddress { to: Vec<u8>, fee_market_address: Vec<u8> },
    /// Ends the setup phase of the contract at `to`.
    CompleteSetupPhase { to: Vec<u8> },
    /// Hands the contract at `to` over to `new_owner`.
    ChangeOwnerAddress { to: Vec<u8>, new_owner: Vec<u8> },
    /// Replaces an ESDT-Safe's configuration during its setup phase.
    UpdateEsdtSafeConfig { to: Vec<u8>, esdt_safe_config: EsdtSafeConfig },
    /// Replaces a Chain-Config's configuration during its setup phase.
    UpdateSovereignConfig { to: Vec<u8>, sovereign_config: SovereignConfig },
    /// Sets a fee on a fee market during its setup phase.
    SetFee { to: Vec<u8>, fee: FeeStruct },
    /// Removes a fee from a fee market during its setup phase.
    RemoveFee { to: Vec<u8>, token_id: Vec<u8> },
    /// Adds users to a fee market's whitelist during its setup phase.
    AddUsersToWhitelist { to: Vec<u8>, users: Vec<Vec<u8>> },
    /// Removes users from a fee market's whitelist during its setup phase.
    RemoveUsersFromWhitelist { to: Vec<u8>, users: Vec<Vec<u8>> },
    /// Moves a token of an ESDT-Safe to the burn mechanism during its setup phase.
    SetTokenBurnMechanism { to: Vec<u8>, token_id: Vec<u8> },
    /// Moves a token of an ESDT-Safe to the lock mechanism during its setup phase.
    SetTokenLockMechanism { to: Vec<u8>, token_id: Vec<u8> },
}

/// State of the Chain-Factory contract: its admins, the templates it clones,
/// what each creator deployed, and the chain identifiers in use.
pub struct ChainFactoryContract {
    pub owner: Vec<u8>,
    pub admins: BytesMap<()>,
    pub chain_config_template: Vec<u8>,
    pub header_verifier_template: Vec<u8>,
    pub mvx_esdt_safe_template: Vec<u8>,
    pub fee_market_template: Vec<u8>,
    pub all_deployed_contracts: BytesMap<ContractMapArgs>,
    pub chain_ids: BytesMap<()>,
}

impl ChainFactoryContract {
    pub open spec fn wf(&self) -> bool {
        &&& self.admins.wf()
        &&& self.all_deployed_contracts.wf()
        &&& self.chain_ids.wf()
    }

    /// Deploys the factory: the Sovereign-Forge becomes its admin, and the four
    /// templates are recorded. `is_smart_contract` holds what the chain answers
    /// about each of the five addresses, in the order of the arguments.
    pub fn init(
        owner: Vec<u8>,
        sovereign_forge_address: Vec<u8>,
        chain_config_template: Vec<u8>,
        header_verifier_template: Vec<u8>,
        mvx_esdt_safe_template: Vec<u8>,
        fee_market_template: Vec<u8>,
        is_smart_contract: [bool; 5],
    ) -> (r: Result<ChainFactoryContract, BridgeError>)
        ensures
            r is Ok <==> (!is_zero_address(sovereign_forge_address@) && is_smart_contract[0]
                && !is_zero_address(chain_config_template@) && is_smart_contract[1]
                && !is_zero_address(header_verifier_template@) && is_smart_contract[2]
                && !is_zero_address(mvx_esdt_safe_template@) && is_smart_contract[3]
                && !is_zero_address(fee_market_template@) && is_smart_contract[4]),
            r is Err ==> r == Err::<ChainFactoryContract, BridgeError>(BridgeError::InvalidScAddress),
            r is Ok ==> {
                let c = r->Ok_0;
                &&& c.wf()
                &&& c.owner@ == owner@
                &&& c.admins@.dom() == Set::<Seq<u8>>::empty().insert(sovereign_forge_address@)
                &&& c.chain_config_template@ == chain_config_template@
                &&& c.header_verifier_template@ == header_verifier_template@
                &&& c.mvx_esdt_safe_template@ == mvx_esdt_safe_template@
                &&& c.fee_market_template@ == fee_market_template@
                &&& c.all_deployed_contracts@.is_empty()
                &&& c.chain_ids@.is_empty()
            },
    {
        require_sc_address(&sovereign_forge_address, is_smart_contract[0])?;
        require_sc_address(&chain_config_template, is_smart_contract[1])?;
        require_sc_address(&header_verifier_template, is_smart_contract[2])?;
        require_sc_address(&mvx_esdt_safe_template, is_smart_contract[3])?;
        require_sc_address(&fee_market_template, is_smart_contract[4])?;
        let ghost sovereign_forge_address_view = sovereign_forge_address@;
        let mut admins: BytesMap<()> = BytesMap::new();
        admins.insert(sovereign_forge_address, ());
        let c = ChainFactoryContract {
            owner,
            admins,
            chain_config_template,
            header_verifier_template,
            mvx_esdt_safe_template,
            fee_market_template,
            all_deployed_contracts: BytesMap::new(),
            chain_ids: BytesMap::new(),
        };
        assert(c.admins@.dom() =~= Set::<Seq<u8>>::empty().insert(sovereign_forge_address_view));
        Ok(c)
    }
    /// Whether `address` is an admin.
    pub fn is_admin(&self, address: &Vec<u8>) -> (r: bool)
        requires
            self.wf(),
        ensures
            r == self.admins@.contains_key(address@),
    {
        self.admins.contains_key(address)
    }

    /// Refuses callers that are not admins.
    pub fn require_caller_is_admin(&self, caller: &Vec<u8>) -> (r: Result<(), BridgeError>)
        requires
            self.wf(),
        ensures
            r is Ok <==> self.admins@.contains_key(caller@),
            r is Err ==> r == Err::<(), BridgeError>(BridgeError::OnlyAdmin),
    {
        if self.admins.contains_key(caller) {
            Ok(())
        } else {
            Err(BridgeError::OnlyAdmin)
        }
    }

    /// Adds an admin (owner only).
    pub fn add_admin(&mut self, caller: &Vec<u8>, address: Vec<u8>) -> (r: Result<(), BridgeError>)
        requires
            old(self).wf(),
        ensures
            final(self).wf(),
            caller@ != old(self).owner@ ==> r == Err::<(), BridgeError>(BridgeError::OnlyOwner) && final(self).admins@ == old(self).admins@,
            caller@ == old(self).owner@ ==> r is Ok && final(self).admins@ == old(self).admins@.insert(address@, ()),
            r is Err ==> *final(self) == *old(self),
            *final(self) == (ChainFactoryContract { admins: final(self).admins, ..*old(self) }),
    {
        if !bytes_eq(caller, &self.owner) {
            return Err(BridgeError::OnlyOwner);
        }
        self.admins.insert(address, ());
        Ok(())
    }

    /// Removes an admin (owner only).
    pub fn remove_admin(&mut self, caller: &Vec<u8>, address: &Vec<u8>) -> (r: Result<(), BridgeError>)
        requires
            old(self).wf(),
        ensures
            final(self).wf(),
            caller@ != old(self).owner@ ==> r == Err::<(), BridgeError>(BridgeError::OnlyOwner) && final(self).admins@ == old(self).admins@,
            caller@ == old(self).owner@ ==> r is Ok && final(self).admins@ == old(self).admins@.remove(address@),
            r is Err ==> *final(self) == *old(self),
            *final(self) == (ChainFactoryContract { admins: final(self).admins, ..*old(self) }),
    {
        if !bytes_eq(caller, &self.owner) {
            return Err(BridgeError::OnlyOwner);
        }
        let _ = self.admins.remove(address);
        Ok(())
    }

    /// Deploys a Chain-Config from the template (admins only).
    pub fn deploy_sovereign_chain_config_contract(&self, caller: &Vec<u8>, opt_config: Option<SovereignConfig>) -> (r: Result<FactoryCall, BridgeError>)
        requires
            self.wf(),
        ensures
            !self.admins@.contains_key(caller@) ==> r == Err::<FactoryCall, BridgeError>(BridgeError::OnlyAdmin),
            self.admins@.contains_key(caller@) ==> (r matches Ok(FactoryCall::DeployChainConfig { source, opt_sovereign_config: config })
                && source@ == self.chain_config_template@ && config == opt_config),
    {
        self.require_caller_is_admin(caller)?;
        Ok(FactoryCall::DeployChainConfig { source: copy_bytes(&self.chain_config_template), opt_sovereign_config: opt_config })
    }

    /// Deploys a Header-Verifier from the template (admins only).
    pub fn deploy_header_verifier(&self, caller: &Vec<u8>, sovereign_contracts: Vec<ContractInfo>) -> (r: Result<FactoryCall, BridgeError>)
        requires
            self.wf(),
        ensures
            !self.admins@.contains_key(caller@) ==> r == Err::<FactoryCall, BridgeError>(BridgeError::OnlyAdmin),
            self.admins@.contains_key(caller@) ==> (r matches Ok(FactoryCall::DeployHeaderVerifier { source, contracts })
                && source@ == self.header_verifier_template@ && contracts == sovereign_contracts),
    {
        self.require_caller_is_admin(caller)?;
        Ok(FactoryCall::DeployHeaderVerifier { source: copy_bytes(&self.header_verifier_template), contracts: sovereign_contracts })
    }

    /// Deploys an ESDT-Safe from the template (admins only); the caller, the
    /// Sovereign-Forge, is passed to the new contract.
    pub fn deploy_mvx_esdt_safe(
        &self,
        caller: &Vec<u8>,
        sovereign_owner: Vec<u8>,
        sov_token_prefix: Vec<u8>,
        opt_config: Option<EsdtSafeConfig>,
    ) -> (r: Result<FactoryCall, BridgeError>)
        requires
            self.wf(),
        ensures
            !self.admins@.contains_key(caller@) ==> r == Err::<FactoryCall, BridgeError>(BridgeError::OnlyAdmin),
            self.admins@.contains_key(caller@) ==> (r matches Ok(FactoryCall::DeployEsdtSafe { source, sovereign_owner: o, sovereign_forge, token_prefix, opt_esdt_safe_config: config })
                && source@ == self.mvx_esdt_safe_template@ && o@ == sovereign_owner@ && sovereign_forge@ == caller@
                && token_prefix@ == sov_token_prefix@ && config == opt_config),
    {
        self.require_caller_is_admin(caller)?;
        Ok(FactoryCall::DeployEsdtSafe {
            source: copy_bytes(&self.mvx_esdt_safe_template),
            sovereign_owner,
            sovereign_forge: copy_bytes(caller),
            token_prefix: sov_token_prefix,
            opt_esdt_safe_config: opt_config,
        })
    }

    /// Deploys a fee market from the template for `esdt_safe_address` (admins only).
    pub fn deploy_fee_market(&self, caller: &Vec<u8>, esdt_safe_address: Vec<u8>, fee: Option<FeeStruct>) -> (r: Result<FactoryCall, BridgeError>)
        requires
            self.wf(),
        ensures
            !self.admins@.contains_key(caller@) ==> r == Err::<FactoryCall, BridgeError>(BridgeError::OnlyAdmin),
            self.admins@.contains_key(caller@) ==> (r matches Ok(FactoryCall::DeployFeeMarket { source, esdt_safe_address: a, opt_fee: f })
                && source@ == self.fee_market_template@ && a@ == esdt_safe_address@ && f == fee),
    {
        self.require_caller_is_admin(caller)?;
        Ok(FactoryCall::DeployFeeMarket { source: copy_bytes(&self.fee_market_template), esdt_safe_address, opt_fee: fee })
    }

    /// The call that follows a fee market's deployment: the ESDT-Safe for
    /// which `deployment` deployed the fee market learns the address that the
    /// deployment returned.
    pub fn fee_market_deployed(deployment: &FactoryCall, fee_market_address: Vec<u8>) -> (r: FactoryCall)
        requires
            deployment is DeployFeeMarket,
        ensures
            r matches FactoryCall::SetFeeMarketAddress { to, fee_market_address: f }
                && to@ == deployment->DeployFeeMarket_esdt_safe_address@ && f@ == fee_market_address@,
    {
        match deployment {
            FactoryCall::DeployFeeMarket { esdt_safe_address, .. } => FactoryCall::SetFeeMarketAddress {
                to: copy_bytes(esdt_safe_address),
                fee_market_address,
            },
            _ => FactoryCall::SetFeeMarketAddress { to: Vec::new(), fee_market_address },
        }
    }
    /// Ends the setup phase of a sovereign chain's four contracts (admins only):
    /// each one's setup phase is completed and its ownership passes to the
    /// Header-Verifier, in the order Chain-Config, Header-Verifier, ESDT-Safe,
    /// fee market.
    pub fn complete_setup_phase(
        &self,
        caller: &Vec<u8>,
        chain_config_address: &Vec<u8>,
        header_verifier_address: &Vec<u8>,
        mvx_esdt_safe_address: &Vec<u8>,
        fee_market_address: &Vec<u8>,
    ) -> (r: Result<Vec<FactoryCall>, BridgeError>)
        requires
            self.wf(),
        ensures
            !self.admins@.contains_key(caller@) ==> r == Err::<Vec<FactoryCall>, BridgeError>(BridgeError::OnlyAdmin),
            self.admins@.contains_key(caller@) ==> r is Ok && ({
                let calls = r->Ok_0@;
                &&& calls.len() == 8
                &&& calls[0] matches FactoryCall::CompleteSetupPhase { to } && to@ == chain_config_address@
                &&& calls[1] matches FactoryCall::ChangeOwnerAddress { to, new_owner } && to@ == chain_config_address@ && new_owner@ == header_verifier_address@
                &&& calls[2] matches FactoryCall::CompleteSetupPhase { to } && to@ == header_verifier_address@
                &&& calls[3] matches FactoryCall::ChangeOwnerAddress { to, new_owner } && to@ == header_verifier_address@ && new_owner@ == header_verifier_address@
                &&& calls[4] matches FactoryCall::CompleteSetupPhase { to } && to@ == mvx_esdt_safe_address@
                &&& calls[5] matches FactoryCall::ChangeOwnerAddress { to, new_owner } && to@ == mvx_esdt_safe_address@ && new_owner@ == header_verifier_address@
                &&& calls[6] matches FactoryCall::CompleteSetupPhase { to } && to@ == fee_market_address@
                &&& calls[7] matches FactoryCall::ChangeOwnerAddress { to, new_owner } && to@ == fee_market_address@ && new_owner@ == header_verifier_address@
            }),
    {
        self.require_caller_is_admin(caller)?;
        let mut calls: Vec<FactoryCall> = Vec::new();
        calls.push(FactoryCall::CompleteSetupPhase { to: copy_bytes(chain_config_address) });
        calls.push(FactoryCall::ChangeOwnerAddress { to: copy_bytes(chain_config_address), new_owner: copy_bytes(header_verifier_address) });
        calls.push(FactoryCall::CompleteSetupPhase { to: copy_bytes(header_verifier_address) });
        calls.push(FactoryCall::ChangeOwnerAddress { to: copy_bytes(header_verifier_address), new_owner: copy_bytes(header_verifier_address) });
        calls.push(FactoryCall::CompleteSetupPhase { to: copy_bytes(mvx_esdt_safe_address) });
        calls.push(FactoryCall::ChangeOwnerAddress { to: copy_bytes(mvx_esdt_safe_address), new_owner: copy_bytes(header_verifier_address) });
        calls.push(FactoryCall::CompleteSetupPhase { to: copy_bytes(fee_market_address) });
        calls.push(FactoryCall::ChangeOwnerAddress { to: copy_bytes(fee_market_address), new_owner: copy_bytes(header_verifier_address) });
        Ok(calls)
    }

    /// Replaces an ESDT-Safe's configuration during its setup phase (admins only).
    pub fn update_esdt_safe_config(&self, caller: &Vec<u8>, esdt_safe_address: Vec<u8>, new_config: EsdtSafeConfig) -> (r: Result<FactoryCall, BridgeError>)
        requires
            self.wf(),
        ensures
            !self.admins@.contains_key(caller@) ==> r == Err::<FactoryCall, BridgeError>(BridgeError::OnlyAdmin),
            self.admins@.contains_key(caller@) ==> (r matches Ok(FactoryCall::UpdateEsdtSafeConfig { to, esdt_safe_config: config })
                && to@ == esdt_safe_address@ && config == new_config),
    {
        self.require_caller_is_admin(caller)?;
        Ok(FactoryCall::UpdateEsdtSafeConfig { to: esdt_safe_address, esdt_safe_config: new_config })
    }

    /// Replaces a Chain-Config's configuration during its setup phase (admins only).
    pub fn update_sovereign_config(&self, caller: &Vec<u8>, chain_config_address: Vec<u8>, new_config: SovereignConfig) -> (r: Result<FactoryCall, BridgeError>)
        requires
            self.wf(),
        ensures
            !self.admins@.contains_key(caller@) ==> r == Err::<FactoryCall, BridgeError>(BridgeError::OnlyAdmin),
            self.admins@.contains_key(caller@) ==> (r matches Ok(FactoryCall::UpdateSovereignConfig { to, sovereign_config: config })
                && to@ == chain_config_address@ && config == new_config),
    {
        self.require_caller_is_admin(caller)?;
        Ok(FactoryCall::UpdateSovereignConfig { to: chain_config_address, sovereign_config: new_config })
    }

    /// Sets a fee on a fee market during its setup phase (admins only).
    pub fn set_fee(&self, caller: &Vec<u8>, fee_market_address: Vec<u8>, new_fee: FeeStruct) -> (r: Result<FactoryCall, BridgeError>)
        requires
            self.wf(),
        ensures
            !self.admins@.contains_key(caller@) ==> r == Err::<FactoryCall, BridgeError>(BridgeError::OnlyAdmin),
            self.admins@.contains_key(caller@) ==> (r matches Ok(FactoryCall::SetFee { to, fee })
                && to@ == fee_market_address@ && fee == new_fee),
    {
        self.require_caller_is_admin(caller)?;
        Ok(FactoryCall::SetFee { to: fee_market_address, fee: new_fee })
    }

    /// Removes a fee from a fee market during its setup phase (admins only).
    pub fn remove_fee(&self, caller: &Vec<u8>, fee_market_address: Vec<u8>, token_id: Vec<u8>) -> (r: Result<FactoryCall, BridgeError>)
        requires
            self.wf(),
        ensures
            !self.admins@.contains_key(caller@) ==> r == Err::<FactoryCall, BridgeError>(BridgeError::OnlyAdmin),
            self.admins@.contains_key(caller@) ==> (r matches Ok(FactoryCall::RemoveFee { to, token_id: t })
                && to@ == fee_market_address@ && t@ == token_id@),
    {
        self.require_caller_is_admin(caller)?;
        Ok(FactoryCall::RemoveFee { to: fee_market_address, token_id })
    }

    /// Adds users to a fee market's whitelist during its setup phase (admins only).
    pub fn add_users_to_whitelist(&self, caller: &Vec<u8>, fee_market_address: Vec<u8>, users: Vec<Vec<u8>>) -> (r: Result<FactoryCall, BridgeError>)
        requires
            self.wf(),
        ensures
            !self.admins@.contains_key(caller@) ==> r == Err::<FactoryCall, BridgeError>(BridgeError::OnlyAdmin),
            self.admins@.contains_key(caller@) ==> (r matches Ok(FactoryCall::AddUsersToWhitelist { to, users: u })
                && to@ == fee_market_address@ && u == users),
    {
        self.require_caller_is_admin(caller)?;
        Ok(FactoryCall::AddUsersToWhitelist { to: fee_market_address, users })
    }

    /// Removes users from a fee market's whitelist during its setup phase (admins only).
    pub fn remove_users_from_whitelist(&self, caller: &Vec<u8>, fee_market_address: Vec<u8>, users: Vec<Vec<u8>>) -> (r: Result<FactoryCall, BridgeError>)
        requires
            self.wf(),
        ensures
            !self.admins@.contains_key(caller@) ==> r == Err::<FactoryCall, BridgeError>(BridgeError::OnlyAdmin),
            self.admins@.contains_key(caller@) ==> (r matches Ok(FactoryCall::RemoveUsersFromWhitelist { to, users: u })
                && to@ == fee_market_address@ && u == users),
    {
        self.require_caller_is_admin(caller)?;
        Ok(FactoryCall::RemoveUsersFromWhitelist { to: fee_market_address, users })
    }

    /// Moves a token of an ESDT-Safe to the burn mechanism during its setup phase (admins only).
    pub fn set_token_burn_mechanism(&self, caller: &Vec<u8>, mvx_esdt_safe_address: Vec<u8>, token_id: Vec<u8>) -> (r: Result<FactoryCall, BridgeError>)
        requires
            self.wf(),
        ensures
            !self.admins@.contains_key(caller@) ==> r == Err::<FactoryCall, BridgeError>(BridgeError::OnlyAdmin),
            self.admins@.contains_key(caller@) ==> (r matches Ok(FactoryCall::SetTokenBurnMechanism { to, token_id: t })
                && to@ == mvx_esdt_safe_address@ && t@ == token_id@),
    {
        self.require_caller_is_admin(caller)?;
        Ok(FactoryCall::SetTokenBurnMechanism { to: mvx_esdt_safe_address, token_id })
    }

    /// Moves a token of an ESDT-Safe to the lock mechanism during its setup phase (admins only).
    pub fn set_token_lock_mechanism(&self, caller: &Vec<u8>, mvx_esdt_safe_address: Vec<u8>, token_id: Vec<u8>) -> (r: Result<FactoryCall, BridgeError>)
        requires
            self.wf(),
        ensures
            !self.admins@.contains_key(caller@) ==> r == Err::<FactoryCall, BridgeError>(BridgeError::OnlyAdmin),
            self.admins@.contains_key(caller@) ==> (r matches Ok(FactoryCall::SetTokenLockMechanism { to, token_id: t })
                && to@ == mvx_esdt_safe_address@ && t@ == token_id@),
    {
        self.require_caller_is_admin(caller)?;
        Ok(FactoryCall::SetTokenLockMechanism { to: mvx_esdt_safe_address, token_id })
    }

    /// Whether `caller` deployed a contract of kind `contract_id` for the chain
    /// `chain_id`; a caller with contracts on another chain is refused.
    pub fn is_contract_registered(&self, caller: &Vec<u8>, chain_id: &Vec<u8>, contract_id: ScArray) -> (r: Result<bool, FactoryError>)
        requires
            self.wf(),
        ensures
            !self.all_deployed_contracts@.contains_key(caller@) ==> r == Ok::<bool, FactoryError>(false),
            self.all_deployed_contracts@.contains_key(caller@) ==> ({
                let info = self.all_deployed_contracts@[caller@];
                if info.chain_id@ != chain_id@ {
                    &&& r matches Err(FactoryError::UnregisteredChain { chain_id: c }) && c@ == chain_id@
                    &&& r->Err_0.message_view() == "There are no registered contracts by the caller it the ".spec_bytes()
                        + chain_id@ + " chain".spec_bytes()
                } else {
                    r == Ok::<bool, FactoryError>(has_contract(info.contracts_info@, contract_id))
                }
            }),
    {
        match self.all_deployed_contracts.get(caller) {
            None => Ok(false),
            Some(info) => {
                if !bytes_eq(chain_id, &info.chain_id) {
                    return Err(FactoryError::UnregisteredChain { chain_id: copy_bytes(chain_id) });
                }
                Ok(find_contract(&info.contracts_info, contract_id).is_some())
            },
        }
    }

    /// The address of the contract of kind `contract_id` that `caller`
    /// deployed; `chain_id` names the chain in the refusal when the caller
    /// has no contracts (it is not compared with the recorded chain).
    pub fn get_contract_address(&self, caller: &Vec<u8>, chain_id: &Vec<u8>, contract_id: ScArray) -> (r: Result<Vec<u8>, FactoryError>)
        requires
            self.wf(),
        ensures
            !self.all_deployed_contracts@.contains_key(caller@) ==> {
                &&& r matches Err(FactoryError::NoRegisteredContracts { chain_id: c }) && c@ == chain_id@
                &&& r->Err_0.message_view() == "There are no registered contracts in the ".spec_bytes() + chain_id@
                    + " chain".spec_bytes()
            },
            self.all_deployed_contracts@.contains_key(caller@) ==> ({
                let list = self.all_deployed_contracts@[caller@].contracts_info@;
                if has_contract(list, contract_id) {
                    r is Ok && r->Ok_0@ == first_contract_address(list, contract_id)
                } else {
                    &&& r matches Err(FactoryError::ContractNotDeployed { contract_id: c }) && c == contract_id
                    &&& r->Err_0.message_view() == "The contract with ".spec_bytes()
                        + decimal(spec_sc_array_number(contract_id) as nat) + " id was not deployed".spec_bytes()
                }
            }),
    {
        match self.all_deployed_contracts.get(caller) {
            None => Err(FactoryError::NoRegisteredContracts { chain_id: copy_bytes(chain_id) }),
            Some(info) => match find_contract(&info.contracts_info, contract_id) {
                Some(a) => Ok(a),
                None => Err(FactoryError::ContractNotDeployed { contract_id }),
            },
        }
    }

    /// Checks that a number of validator keys lies strictly between the
    /// minimum and maximum that the caller's Chain-Config stores
    /// (`min_validators` and `max_validators`, read from that contract).
    pub fn require_bls_keys_in_range(
        &self,
        caller: &Vec<u8>,
        chain_id: &Vec<u8>,
        bls_pub_keys_count: u128,
        min_validators: u128,
        max_validators: u128,
    ) -> (r: Result<(), FactoryError>)
        requires
            self.wf(),
        ensures
            !self.all_deployed_contracts@.contains_key(caller@)
                ==> (r matches Err(FactoryError::NoRegisteredContracts { chain_id: c }) && c@ == chain_id@),
            self.all_deployed_contracts@.contains_key(caller@) ==> ({
                let list = self.all_deployed_contracts@[caller@].contracts_info@;
                if !has_contract(list, ScArray::ChainConfig) {
                    r matches Err(FactoryError::ContractNotDeployed { contract_id: c }) && c == ScArray::ChainConfig
                } else if is_zero_address(first_contract_address(list, ScArray::ChainConfig)) {
                    r matches Err(FactoryError::Refused(e)) && e == BridgeError::ChainConfigNotDeployed
                } else if !(min_validators < bls_pub_keys_count && bls_pub_keys_count < max_validators) {
                    r matches Err(FactoryError::Refused(e)) && e == BridgeError::InvalidNumberOfBlsKeys
                } else {
                    r is Ok
                }
            }),
    {
        let address = self.get_contract_address(caller, chain_id, ScArray::ChainConfig)?;
        if is_zero(&address) {
            return Err(FactoryError::Refused(BridgeError::ChainConfigNotDeployed));
        }
        if !(min_validators < bls_pub_keys_count && bls_pub_keys_count < max_validators) {
            return Err(FactoryError::Refused(BridgeError::InvalidNumberOfBlsKeys));
        }
        Ok(())
    }

    /// Records a new chain identifier unless it is already in use; returns
    /// whether it was new.
    pub fn try_register_chain_id(&mut self, chain_id: Vec<u8>) -> (r: bool)
        requires
            old(self).wf(),
        ensures
            final(self).wf(),
            r == !old(self).chain_ids@.contains_key(chain_id@),
            final(self).chain_ids@.dom() == old(self).chain_ids@.dom().insert(chain_id@),
            !r ==> *final(self) == *old(self),
            *final(self) == (ChainFactoryContract { chain_ids: final(self).chain_ids, ..*old(self) }),
    {
        if self.chain_ids.contains_key(&chain_id) {
            assert(old(self).chain_ids@.dom().insert(chain_id@) =~= old(self).chain_ids@.dom());
            return false;
        }
        self.chain_ids.insert(chain_id, ());
        true
    }
}

/// How many four-character identifiers the character set gives: `36^4`.
pub const CHAIN_ID_COUNT: u32 = 1_679_616;

/// The identifier numbered `m` (`m < 36^4`): its characters are the base-36
/// digits of `m`, most significant first.
pub open spec fn chain_id_of(m: int) -> Seq<u8> {
    seq![charset()[m / 46656], charset()[(m / 1296) % 36], charset()[(m / 36) % 36], charset()[m % 36]]
}

/// Every four-character identifier over the character set has a number.
proof fn lemma_chain_id_numbered(id: Seq<u8>)
    requires
        id.len() == 4,
        in_charset(id),
    ensures
        exists|m: int| 0 <= m < CHAIN_ID_COUNT && #[trigger] chain_id_of(m) == id,
{
    assert(charset().len() == 36);
    assert(charset().contains(id[0]));
    assert(charset().contains(id[1]));
    assert(charset().contains(id[2]));
    assert(charset().contains(id[3]));
    let k0: int = choose|k: int| 0 <= k < charset().len() && charset()[k] == id[0];
    let k1: int = choose|k: int| 0 <= k < charset().len() && charset()[k] == id[1];
    let k2: int = choose|k: int| 0 <= k < charset().len() && charset()[k] == id[2];
    let k3: int = choose|k: int| 0 <= k < charset().len() && charset()[k] == id[3];
    let m: int = k0 * 46656 + k1 * 1296 + k2 * 36 + k3;
    assert(0 <= m < 1679616 && m / 46656 == k0 && (m / 1296) % 36 == k1 && (m / 36) % 36 == k2 && m % 36 == k3)
        by (nonlinear_arith)
        requires
            0 <= k0 < 36,
            0 <= k1 < 36,
            0 <= k2 < 36,
            0 <= k3 < 36,
            m == k0 * 46656 + k1 * 1296 + k2 * 36 + k3,
    ;
    assert(chain_id_of(m) =~= id);
}

impl ChainFactoryContract {
    /// Draws chain identifiers until one is not yet in use, records it and
    /// returns it. Should `u64::MAX` draws in a row all hit identifiers in
    /// use, the identifiers are tried in order instead; `None`, with nothing
    /// changed, means that every identifier is in use.
    pub fn generate_chain_id(&mut self) -> (r: Option<Vec<u8>>)
        requires
            old(self).wf(),
        ensures
            final(self).wf(),
            r matches Some(id) ==> {
                &&& id@.len() == 4
                &&& in_charset(id@)
                &&& !old(self).chain_ids@.contains_key(id@)
                &&& final(self).chain_ids@.dom() == old(self).chain_ids@.dom().insert(id@)
                &&& *final(self) == (ChainFactoryContract { chain_ids: final(self).chain_ids, ..*old(self) })
            },
            r is None ==> *final(self) == *old(self),
            r is None ==> forall|id: Seq<u8>| id.len() == 4 && in_charset(id) ==> old(self).chain_ids@.contains_key(id),
            old(self).chain_ids@.dom().is_empty() ==> r is Some,
    {
        let mut attempts: u64 = 0;
        while attempts < u64::MAX
            invariant
                self.wf(),
                *self == *old(self),
            decreases u64::MAX - attempts,
        {
            let candidate = generated_random_4_char_string();
            if self.try_register_chain_id(copy_bytes(&candidate)) {
                return Some(candidate);
            }
            attempts = attempts + 1;
        }
        let mut m: u32 = 0;
        while m < CHAIN_ID_COUNT
            invariant
                self.wf(),
                *self == *old(self),
                m <= CHAIN_ID_COUNT,
                forall|j: int| 0 <= j < m ==> old(self).chain_ids@.contains_key(#[trigger] chain_id_of(j)),
            decreases CHAIN_ID_COUNT - m,
        {
            assert(m / 46656 < 36 && (m / 1296) % 36 < 36 && (m / 36) % 36 < 36 && m % 36 < 36);
            let indices: [u8; 4] = [(m / 46656) as u8, ((m / 1296) % 36) as u8, ((m / 36) % 36) as u8, (m % 36) as u8];
            assert(forall|i: int| 0 <= i < 4 ==> indices[i] < 36);
            let candidate = random_4_char_string(indices);
            assert(candidate@ =~= chain_id_of(m as int));
            if self.try_register_chain_id(copy_bytes(&candidate)) {
                proof {
                    assert forall|i: int| 0 <= i < candidate@.len() implies charset().contains(#[trigger] candidate@[i]) by {
                        assert(charset()[indices[i] as int] == candidate@[i]);
                    }
                }
                return Some(candidate);
            }
            m = m + 1;
        }
        proof {
            assert forall|id: Seq<u8>| id.len() == 4 && in_charset(id) implies old(self).chain_ids@.contains_key(id) by {
                lemma_chain_id_numbered(id);
                let k: int = choose|k: int| 0 <= k < CHAIN_ID_COUNT && #[trigger] chain_id_of(k) == id;
                assert(old(self).chain_ids@.contains_key(chain_id_of(k)));
            }
            assert(old(self).chain_ids@.contains_key(chain_id_of(0)));
            assert(old(self).chain_ids@.dom().contains(chain_id_of(0)));
        }
        None
    }
}

/// The characters of generated chain identifiers: digits, then lower-case letters.
pub open spec fn charset() -> Seq<u8> {
    seq![48u8, 49, 50, 51, 52, 53, 54, 55, 56, 57, 97, 98, 99, 100, 101, 102, 103, 104, 105, 106, 107, 108,
        109, 110, 111, 112, 113, 114, 115, 116, 117, 118, 119, 120, 121, 122]
}

/// The byte of the character set at `i` (`0..36`).
pub fn charset_byte(i: u8) -> (r: u8)
    requires
        i < 36,
    ensures
        r == charset()[i as int],
{
    if i < 10 {
        48 + i
    } else {
        97 + (i - 10)
    }
}

/// A four-character identifier built from four random indices into the
/// character set, as the factory draws them.
pub fn random_4_char_string(indices: [u8; 4]) -> (r: Vec<u8>)
    requires
        forall|i: int| 0 <= i < 4 ==> indices[i] < 36,
    ensures
        r@.len() == 4,
        forall|i: int| 0 <= i < 4 ==> r@[i] == charset()[indices[i] as int],
{
    let mut out: Vec<u8> = Vec::new();
    let mut i: usize = 0;
    while i < 4
        invariant
            i <= 4,
            forall|j: int| 0 <= j < 4 ==> indices[j] < 36,
            out@.len() == i,
            forall|j: int| 0 <= j < i ==> out@[j] == charset()[indices[j] as int],
        decreases 4 - i,
    {
        out.push(charset_byte(indices[i]));
        i = i + 1;
    }
    out
}

/// Whether every byte of `id` is one of the character set.
pub open spec fn in_charset(id: Seq<u8>) -> bool {
    forall|i: int| 0 <= i < id.len() ==> charset().contains(#[trigger] id[i])
}

/// A random number below `bound` (`rand::random_range(0..bound)`). Of the
/// result only its range is known: which number comes out is chance.
#[verifier::external_body]
pub(crate) fn random_index_below(bound: u8) -> (r: u8)
    requires
        bound > 0,
    ensures
        r < bound,
{
    rand::random_range(0..bound)
}

/// Four characters drawn at random from the character set.
pub fn generated_random_4_char_string() -> (r: Vec<u8>)
    ensures
        r@.len() == 4,
        in_charset(r@),
{
    let a = random_index_below(36);
    let b = random_index_below(36);
    let c = random_index_below(36);
    let d = random_index_below(36);
    let indices: [u8; 4] = [a, b, c, d];
    assert(forall|i: int| 0 <= i < 4 ==> indices[i] < 36);
    let r = random_4_char_string(indices);
    assert forall|i: int| 0 <= i < r@.len() implies charset().contains(#[trigger] r@[i]) by {
        assert(charset()[indices[i] as int] == r@[i]);
    }
    r
}

/// A call on the validators contract that the factory forwards.
pub enum ValidatorsContractProxy {
    /// Slashes `value` from a validator's stake.
    Slash { to: Vec<u8>, validator_address: Vec<u8>, value: u128 },
    /// Distributes slashed stake to the destinations, each with its amount.
    DistributeSlashed { to: Vec<u8>, dest_amount_pairs: Vec<(Vec<u8>, u128)> },
}

/// The factory module that forwards slashing to the validators contract.
pub struct SlashModule {
    pub validators_contract_address: Vec<u8>,
}

impl SlashModule {
    /// Forwards a slash of `value` from `validator_address`.
    pub fn slash(&self, chain_id: &Vec<u8>, validator_address: Vec<u8>, value: u128) -> (r: ValidatorsContractProxy)
        ensures
            r matches ValidatorsContractProxy::Slash { to, validator_address: v, value: x }
                && to@ == self.validators_contract_address@ && v@ == validator_address@ && x == value,
    {
        ValidatorsContractProxy::Slash { to: copy_bytes(&self.validators_contract_address), validator_address, value }
    }

    /// Forwards a distribution of slashed stake.
    pub fn distribute_slashed(&self, chain_id: &Vec<u8>, dest_amount_pairs: Vec<(Vec<u8>, u128)>) -> (r: ValidatorsContractProxy)
        ensures
            r matches ValidatorsContractProxy::DistributeSlashed { to, dest_amount_pairs: d }
                && to@ == self.validators_contract_address@ && d == dest_amount_pairs,
    {
        ValidatorsContractProxy::DistributeSlashed { to: copy_bytes(&self.validators_contract_address), dest_amount_pairs }
    }
}

} // verus!
