use vstd::prelude::*;
use crate::bytes::copy_bytes;
use crate::interactor::{EsdtTokenInfo, SerializableFeeMarketToken, fee_market_token_converted};
use crate::store::{BytesMap, IdMap};
use crate::types::{Amount, Payment};
use crate::fee::FeeStruct;
use crate::chain_factory::{ContractInfo, ScArray};

verus! {

/// A deployed contract's address and the chain it belongs to.
pub struct AddressInfo {
    pub address: Vec<u8>,
    pub chain_id: String,
}

/// The addresses of one kind of contract, one per shard: the address at
/// position `i` is the contract deployed on shard `i`.
pub struct ShardAddresses {
    pub addresses: Vec<AddressInfo>,
}

impl ShardAddresses {
    /// Records the address of the next shard and returns its position.
    pub fn push(&mut self, address: AddressInfo) -> (r: usize)
        requires
            old(self).addresses.len() < usize::MAX,
        ensures
            final(self).addresses@ == old(self).addresses@.push(address),
            r == old(self).addresses.len(),
    {
        self.addresses.push(address);
        self.addresses.len() - 1
    }

    /// The address on the first shard.
    pub fn first(&self) -> (r: &Vec<u8>)
        requires
            self.addresses.len() > 0,
        ensures
            r@ == self.addresses@[0].address@,
    {
        &self.addresses[0].address
    }
}

/// The number of shards the interactor deploys on.
pub const SHARD_COUNT: u32 = 3;

/// What the interactor remembers between runs: the contracts it deployed on
/// each shard, the fee settings and tokens per shard, the operation nonces of
/// each contract, the chains it created and the balances it expects.
pub struct CommonState {
    pub mvx_esdt_safe_addresses: Option<ShardAddresses>,
    pub header_verifier_addresses: Option<ShardAddresses>,
    pub fee_market_addresses: Option<ShardAddresses>,
    pub chain_config_sc_addresses: Option<ShardAddresses>,
    pub testing_sc_address: Option<Vec<u8>>,
    pub sovereign_forge_sc_address: Option<Vec<u8>>,
    pub chain_factory_sc_addresses: Option<Vec<Vec<u8>>>,
    pub fee_market_tokens: IdMap<SerializableFeeMarketToken>,
    pub trusted_token: Option<String>,
    pub fee_status: IdMap<bool>,
    pub operation_nonce: BytesMap<u64>,
    pub chain_ids: Vec<String>,
    pub mvx_egld_balances: Vec<(u32, u64)>,
    pub testing_egld_balance: u64,
    pub bls_secret_keys: IdMap<Vec<Vec<u8>>>,
    pub deposited_amount: Amount,
    pub is_burn_mechanism_set: bool,
}

/// The balance recorded for `shard`: the first entry of that shard gets the
/// updates.
pub open spec fn first_shard_entry(balances: Seq<(u32, u64)>, shard: u32) -> Option<int> {
    if exists|i: int| 0 <= i < balances.len() && (#[trigger] balances[i]).0 == shard {
        Some(choose|i: int| 0 <= i < balances.len() && balances[i].0 == shard
            && forall|j: int| 0 <= j < i ==> (#[trigger] balances[j]).0 != shard)
    } else {
        None
    }
}

/// The deposited total once `amount` is taken off it, zero at least.
pub open spec fn after_withdrawal(total: Amount, amount: Amount) -> Amount {
    if total >= amount { (total - amount) as u128 } else { 0 }
}

/// Withdrawing from the deposited total never goes below zero: what is left
/// is the total less the amount when the total covers it, and zero
/// otherwise. Withdrawing what was just deposited gives back the state
/// before the deposit.
pub proof fn lemma_deposit_then_withdraw(before: CommonState, amount: Amount, withdrawn: Amount)
    requires
        before.deposited_amount + amount <= u128::MAX,
    ensures
        withdrawn <= before.deposited_amount
            ==> after_withdrawal(before.deposited_amount, withdrawn) == before.deposited_amount - withdrawn,
        withdrawn > before.deposited_amount ==> after_withdrawal(before.deposited_amount, withdrawn) == 0,
        ({
            let deposited = (CommonState { deposited_amount: (before.deposited_amount + amount) as u128, ..before });
            let withdrawn_again = (CommonState {
                deposited_amount: after_withdrawal(deposited.deposited_amount, amount),
                ..deposited
            });
            withdrawn_again == before
        }),
{
}

/// Taking an operation nonce hands out the contract's current nonce (0 for a
/// contract never seen), advances that contract's counter by one and leaves
/// every other contract's counter, and the rest of the state, as they were;
/// the next take hands out the following nonce.
pub proof fn lemma_operation_nonce_advances(before: CommonState, after: CommonState, contract: Seq<u8>, other: Seq<u8>, taken: u64)
    requires
        taken == before.spec_operation_nonce(contract),
        taken < u64::MAX,
        after == (CommonState { operation_nonce: after.operation_nonce, ..before }),
        after.operation_nonce@ == before.operation_nonce@.insert(contract, (taken + 1) as u64),
    ensures
        !before.operation_nonce@.contains_key(contract) ==> taken == 0,
        after.spec_operation_nonce(contract) == taken + 1,
        other != contract ==> after.spec_operation_nonce(other) == before.spec_operation_nonce(other),
        after.deposited_amount == before.deposited_amount,
        after.fee_market_tokens == before.fee_market_tokens,
{
}

/// The recorded addresses of one kind of contract, with their chains.
pub open spec fn recorded(list: Option<ShardAddresses>) -> Option<Seq<(Seq<u8>, Seq<char>)>> {
    match list {
        Some(l) => Some(l.addresses@.map_values(|a: AddressInfo| (a.address@, a.chain_id@))),
        None => None,
    }
}

/// A record after `added` is appended: unchanged when nothing is added.
pub open spec fn appended(list: Option<Seq<(Seq<u8>, Seq<char>)>>, added: Seq<(Seq<u8>, Seq<char>)>) -> Option<Seq<(Seq<u8>, Seq<char>)>> {
    if added.len() == 0 {
        list
    } else {
        match list {
            Some(l) => Some(l + added),
            None => Some(added),
        }
    }
}

/// The addresses, with the chain, of the deployed contracts of kind `kind`.
pub open spec fn deployed_of(contracts: Seq<ContractInfo>, kind: ScArray, chain_id: Seq<char>) -> Seq<(Seq<u8>, Seq<char>)>
    decreases contracts.len(),
{
    if contracts.len() == 0 {
        Seq::empty()
    } else if contracts.last().id == kind {
        deployed_of(contracts.drop_last(), kind, chain_id).push((contracts.last().address@, chain_id))
    } else {
        deployed_of(contracts.drop_last(), kind, chain_id)
    }
}

proof fn lemma_deployed_of_len(contracts: Seq<ContractInfo>, kind: ScArray, chain_id: Seq<char>)
    ensures
        deployed_of(contracts, kind, chain_id).len() <= contracts.len(),
    decreases contracts.len(),
{
    if contracts.len() > 0 {
        lemma_deployed_of_len(contracts.drop_last(), kind, chain_id);
    }
}

proof fn lemma_recorded_push(before: Option<ShardAddresses>, after: Option<ShardAddresses>, info: AddressInfo)
    requires
        after matches Some(l) && l.addresses@ == match before { Some(o) => o.addresses@, None => Seq::<AddressInfo>::empty() }.push(info),
    ensures
        recorded(after) == Some(match recorded(before) {
            Some(r) => r,
            None => Seq::<(Seq<u8>, Seq<char>)>::empty(),
        }.push((info.address@, info.chain_id@))),
{
    let f = |a: AddressInfo| (a.address@, a.chain_id@);
    let prev = match before { Some(o) => o.addresses@, None => Seq::<AddressInfo>::empty() };
    assert(prev.push(info).map_values(f) =~= prev.map_values(f).push((info.address@, info.chain_id@)));
}

/// Room for one more address in a record that has grown by fewer than `n`.
proof fn lemma_room(cur: Option<ShardAddresses>, before: Option<ShardAddresses>, added: Seq<(Seq<u8>, Seq<char>)>, n: int)
    requires
        recorded(cur) == appended(recorded(before), added),
        added.len() < n,
        n <= usize::MAX,
        before matches Some(l) ==> l.addresses.len() + n < usize::MAX,
    ensures
        cur matches Some(l) ==> l.addresses.len() < usize::MAX,
{
    if let Some(l) = cur {
        assert(recorded(cur)->0.len() == l.addresses.len());
        if let Some(o) = before {
            assert(recorded(before)->0.len() == o.addresses.len());
        }
    }
}

proof fn lemma_appended_push(list: Option<Seq<(Seq<u8>, Seq<char>)>>, added: Seq<(Seq<u8>, Seq<char>)>, entry: (Seq<u8>, Seq<char>))
    ensures
        appended(list, added.push(entry)) == Some(match appended(list, added) {
            Some(x) => x,
            None => Seq::<(Seq<u8>, Seq<char>)>::empty(),
        }.push(entry)),
{
    if added.len() > 0 {
        if let Some(l) = list {
            assert(l + added.push(entry) =~= (l + added).push(entry));
        }
    } else {
        assert(added.push(entry) =~= seq![entry]);
        if let Some(l) = list {
            assert(l + seq![entry] =~= l.push(entry));
        }
    }
}

fn push_address(list: &mut Option<ShardAddresses>, address: AddressInfo)
    requires
        *old(list) matches Some(l) ==> l.addresses.len() < usize::MAX,
    ensures
        *final(list) matches Some(l) && l.addresses@ == match *old(list) {
            Some(o) => o.addresses@,
            None => Seq::empty(),
        }.push(address),
{
    match list {
        Some(l) => {
            l.push(address);
        },
        None => {
            let mut l = ShardAddresses { addresses: Vec::new() };
            l.push(address);
            *list = Some(l);
        },
    }
}

impl CommonState {
    /// The well-formedness of the maps the state holds.
    pub open spec fn wf(&self) -> bool {
        &&& self.fee_market_tokens.wf()
        &&& self.fee_status.wf()
        &&& self.operation_nonce.wf()
        &&& self.bls_secret_keys.wf()
    }

    /// An empty state, as on a first run.
    pub fn new() -> (r: CommonState)
        ensures
            r.wf(),
            r.mvx_esdt_safe_addresses is None,
            r.header_verifier_addresses is None,
            r.fee_market_addresses is None,
            r.chain_config_sc_addresses is None,
            r.testing_sc_address is None,
            r.sovereign_forge_sc_address is None,
            r.chain_factory_sc_addresses is None,
            r.fee_market_tokens@ == Map::<u128, SerializableFeeMarketToken>::empty(),
            r.trusted_token is None,
            r.fee_status@ == Map::<u128, bool>::empty(),
            r.operation_nonce@ == Map::<Seq<u8>, u64>::empty(),
            r.chain_ids@.len() == 0,
            r.mvx_egld_balances@.len() == 0,
            r.testing_egld_balance == 0,
            r.bls_secret_keys@ == Map::<u128, Vec<Vec<u8>>>::empty(),
            r.deposited_amount == 0,
            !r.is_burn_mechanism_set,
    {
        CommonState {
            mvx_esdt_safe_addresses: None,
            header_verifier_addresses: None,
            fee_market_addresses: None,
            chain_config_sc_addresses: None,
            testing_sc_address: None,
            sovereign_forge_sc_address: None,
            chain_factory_sc_addresses: None,
            fee_market_tokens: IdMap::new(),
            trusted_token: None,
            fee_status: IdMap::new(),
            operation_nonce: BytesMap::new(),
            chain_ids: Vec::new(),
            mvx_egld_balances: Vec::new(),
            testing_egld_balance: 0,
            bls_secret_keys: IdMap::new(),
            deposited_amount: 0,
            is_burn_mechanism_set: false,
        }
    }

    /// The operation nonce of a contract: zero until it is first incremented.
    pub open spec fn spec_operation_nonce(&self, contract_address: Seq<u8>) -> u64 {
        if self.operation_nonce@.contains_key(contract_address) {
            self.operation_nonce@[contract_address]
        } else {
            0
        }
    }

    pub fn get_operation_nonce(&self, contract_address: &Vec<u8>) -> (r: u64)
        requires
            self.wf(),
        ensures
            r == self.spec_operation_nonce(contract_address@),
    {
        match self.operation_nonce.get(contract_address) {
            Some(n) => *n,
            None => 0,
        }
    }

    /// Counts one more operation for the contract.
    pub fn increment_operation_nonce(&mut self, contract_address: &Vec<u8>)
        requires
            old(self).wf(),
            old(self).spec_operation_nonce(contract_address@) < u64::MAX,
        ensures
            *final(self) == (CommonState { operation_nonce: final(self).operation_nonce, ..*old(self) }),
            final(self).wf(),
            final(self).operation_nonce@ == old(self).operation_nonce@.insert(
                contract_address@,
                (old(self).spec_operation_nonce(contract_address@) + 1) as u64,
            ),
            final(self).mvx_egld_balances == old(self).mvx_egld_balances,
            final(self).deposited_amount == old(self).deposited_amount,
            final(self).fee_status@ == old(self).fee_status@,
    {
        let current = self.get_operation_nonce(contract_address);
        self.operation_nonce.insert(copy_bytes(contract_address), current + 1);
    }

    /// Sets the contract's operation nonce.
    pub fn set_operation_nonce(&mut self, contract_address: &Vec<u8>, nonce: u64)
        requires
            old(self).wf(),
        ensures
            *final(self) == (CommonState { operation_nonce: final(self).operation_nonce, ..*old(self) }),
            final(self).wf(),
            final(self).operation_nonce@ == old(self).operation_nonce@.insert(contract_address@, nonce),
    {
        self.operation_nonce.insert(copy_bytes(contract_address), nonce);
    }

    /// Returns the contract's operation nonce and counts it as used.
    pub fn get_and_increment_operation_nonce(&mut self, contract_address: &Vec<u8>) -> (r: u64)
        requires
            old(self).wf(),
            old(self).spec_operation_nonce(contract_address@) < u64::MAX,
        ensures
            *final(self) == (CommonState { operation_nonce: final(self).operation_nonce, ..*old(self) }),
            final(self).wf(),
            r == old(self).spec_operation_nonce(contract_address@),
            final(self).operation_nonce@ == old(self).operation_nonce@.insert(contract_address@, (r + 1) as u64),
    {
        let nonce = self.get_operation_nonce(contract_address);
        self.increment_operation_nonce(contract_address);
        nonce
    }

    /// Adds a deposit to the running total of deposited tokens.
    pub fn add_to_deposited_amount(&mut self, amount: Amount)
        requires
            old(self).deposited_amount + amount <= u128::MAX,
        ensures
            *final(self) == (CommonState { deposited_amount: final(self).deposited_amount, ..*old(self) }),
            final(self).deposited_amount == old(self).deposited_amount + amount,
    {
        self.deposited_amount = self.deposited_amount + amount;
    }

    /// Takes an amount off the running total, down to zero at most.
    pub fn subtract_from_deposited_amount(&mut self, amount: Amount)
        ensures
            *final(self) == (CommonState { deposited_amount: final(self).deposited_amount, ..*old(self) }),
            final(self).deposited_amount == after_withdrawal(old(self).deposited_amount, amount),
    {
        self.deposited_amount = if self.deposited_amount >= amount { self.deposited_amount - amount } else { 0 };
    }

    pub fn get_deposited_amount(&self) -> (r: Amount)
        ensures
            r == self.deposited_amount,
    {
        self.deposited_amount
    }

    /// Adds `amount` to the first EGLD balance recorded for `shard`; a shard
    /// with no balance is left as it is.
    pub fn update_mvx_egld_balance_with_amount(&mut self, shard: u32, amount: u64)
        requires
            first_shard_entry(old(self).mvx_egld_balances@, shard) matches Some(i)
                ==> old(self).mvx_egld_balances@[i].1 + amount <= u64::MAX,
        ensures
            *final(self) == (CommonState { mvx_egld_balances: final(self).mvx_egld_balances, ..*old(self) }),
            match first_shard_entry(old(self).mvx_egld_balances@, shard) {
                Some(i) => final(self).mvx_egld_balances@ == old(self).mvx_egld_balances@.update(
                    i,
                    (shard, (old(self).mvx_egld_balances@[i].1 + amount) as u64),
                ),
                None => final(self).mvx_egld_balances@ == old(self).mvx_egld_balances@,
            },
            final(self).deposited_amount == old(self).deposited_amount,
    {
        let mut i: usize = 0;
        while i < self.mvx_egld_balances.len()
            invariant
                i <= self.mvx_egld_balances.len(),
                self.mvx_egld_balances@ == old(self).mvx_egld_balances@,
                *self == (CommonState { mvx_egld_balances: self.mvx_egld_balances, ..*old(self) }),
                self.deposited_amount == old(self).deposited_amount,
                forall|j: int| 0 <= j < i ==> (#[trigger] self.mvx_egld_balances@[j]).0 != shard,
                first_shard_entry(old(self).mvx_egld_balances@, shard) matches Some(k)
                    ==> old(self).mvx_egld_balances@[k].1 + amount <= u64::MAX,
            decreases self.mvx_egld_balances.len() - i,
        {
            let (s, balance) = self.mvx_egld_balances[i];
            if s == shard {
                proof {
                    let b = old(self).mvx_egld_balances@;
                    assert(b[i as int].0 == shard);
                    let k = first_shard_entry(b, shard)->0;
                    assert(0 <= k < b.len() && b[k].0 == shard && forall|j: int| 0 <= j < k ==> (#[trigger] b[j]).0 != shard);
                    if k < i {
                        assert(b[k].0 != shard);
                    }
                    if i < k {
                        assert(b[i as int].0 != shard);
                    }
                    assert(k == i);
                }
                self.mvx_egld_balances.set(i, (shard, balance + amount));
                return;
            }
            i = i + 1;
        }
    }

    /// Records the same EGLD balance for every shard, after what is there.
    pub fn set_mvx_egld_balance_for_all_shards(&mut self, balance: u64)
        ensures
            *final(self) == (CommonState { mvx_egld_balances: final(self).mvx_egld_balances, ..*old(self) }),
            final(self).mvx_egld_balances@ == old(self).mvx_egld_balances@ + seq![(0u32, balance), (1u32, balance), (2u32, balance)],
    {
        let mut shard: u32 = 0;
        while shard < SHARD_COUNT
            invariant
                shard <= SHARD_COUNT,
                *self == (CommonState { mvx_egld_balances: self.mvx_egld_balances, ..*old(self) }),
                self.mvx_egld_balances@ == old(self).mvx_egld_balances@ + seq![(0u32, balance), (1u32, balance), (2u32, balance)].subrange(0, shard as int),
            decreases SHARD_COUNT - shard,
        {
            self.mvx_egld_balances.push((shard, balance));
            shard = shard + 1;
            assert(self.mvx_egld_balances@ =~= old(self).mvx_egld_balances@ + seq![(0u32, balance), (1u32, balance), (2u32, balance)].subrange(0, shard as int));
        }
        assert(seq![(0u32, balance), (1u32, balance), (2u32, balance)].subrange(0, 3) =~= seq![(0u32, balance), (1u32, balance), (2u32, balance)]);
    }

    /// The EGLD balance recorded at position `shard`, zero when there is none.
    pub fn get_mvx_egld_balance_for_shard(&self, shard: u32) -> (r: u64)
        ensures
            r == if (shard as int) < self.mvx_egld_balances@.len() { self.mvx_egld_balances@[shard as int].1 } else { 0 },
    {
        if (shard as usize) < self.mvx_egld_balances.len() {
            self.mvx_egld_balances[shard as usize].1
        } else {
            0
        }
    }

    /// Adds to the testing contract's recorded EGLD balance.
    pub fn update_testing_egld_balance_with_amount(&mut self, amount: u64)
        requires
            old(self).testing_egld_balance + amount <= u64::MAX,
        ensures
            *final(self) == (CommonState { testing_egld_balance: final(self).testing_egld_balance, ..*old(self) }),
            final(self).testing_egld_balance == old(self).testing_egld_balance + amount,
    {
        self.testing_egld_balance = self.testing_egld_balance + amount;
    }

    pub fn get_testing_egld_balance(&self) -> (r: u64)
        ensures
            r == self.testing_egld_balance,
    {
        self.testing_egld_balance
    }

    /// Whether fees are on in `shard`: off unless it was set.
    pub open spec fn spec_fee_status(&self, shard: u32) -> bool {
        self.fee_status@.contains_key(shard as u128) && self.fee_status@[shard as u128]
    }

    pub fn set_fee_status_for_shard(&mut self, shard: u32, status: bool)
        requires
            old(self).wf(),
        ensures
            *final(self) == (CommonState { fee_status: final(self).fee_status, ..*old(self) }),
            final(self).wf(),
            final(self).fee_status@ == old(self).fee_status@.insert(shard as u128, status),
    {
        self.fee_status.insert(shard as u128, status);
    }

    pub fn set_fee_status_for_all_shards(&mut self, status: bool)
        requires
            old(self).wf(),
        ensures
            *final(self) == (CommonState { fee_status: final(self).fee_status, ..*old(self) }),
            final(self).wf(),
            final(self).fee_status@ == old(self).fee_status@.insert(0, status).insert(1, status).insert(2, status),
    {
        self.fee_status.insert(0, status);
        self.fee_status.insert(1, status);
        self.fee_status.insert(2, status);
    }

    pub fn get_fee_status_for_shard(&self, shard: u32) -> (r: bool)
        requires
            self.wf(),
        ensures
            r == self.spec_fee_status(shard),
    {
        match self.fee_status.get(shard as u128) {
            Some(s) => *s,
            None => false,
        }
    }

    /// Records the shard's ESDT-Safe address.
    pub fn set_mvx_esdt_safe_contract_address(&mut self, address: AddressInfo)
        requires
            old(self).mvx_esdt_safe_addresses matches Some(l) ==> l.addresses.len() < usize::MAX,
        ensures
            *final(self) == (CommonState { mvx_esdt_safe_addresses: final(self).mvx_esdt_safe_addresses, ..*old(self) }),
            final(self).mvx_esdt_safe_addresses matches Some(l) && l.addresses@ == match old(self).mvx_esdt_safe_addresses {
                Some(o) => o.addresses@,
                None => Seq::empty(),
            }.push(address),
    {
        push_address(&mut self.mvx_esdt_safe_addresses, address);
    }

    /// Records the shard's Header-Verifier address.
    pub fn set_header_verifier_address(&mut self, address: AddressInfo)
        requires
            old(self).header_verifier_addresses matches Some(l) ==> l.addresses.len() < usize::MAX,
        ensures
            *final(self) == (CommonState { header_verifier_addresses: final(self).header_verifier_addresses, ..*old(self) }),
            final(self).header_verifier_addresses matches Some(l) && l.addresses@ == match old(self).header_verifier_addresses {
                Some(o) => o.addresses@,
                None => Seq::empty(),
            }.push(address),
    {
        push_address(&mut self.header_verifier_addresses, address);
    }

    /// Records the shard's fee-market address.
    pub fn set_fee_market_address(&mut self, address: AddressInfo)
        requires
            old(self).fee_market_addresses matches Some(l) ==> l.addresses.len() < usize::MAX,
        ensures
            *final(self) == (CommonState { fee_market_addresses: final(self).fee_market_addresses, ..*old(self) }),
            final(self).fee_market_addresses matches Some(l) && l.addresses@ == match old(self).fee_market_addresses {
                Some(o) => o.addresses@,
                None => Seq::empty(),
            }.push(address),
    {
        push_address(&mut self.fee_market_addresses, address);
    }

    /// Records the shard's Chain-Config address.
    pub fn set_chain_config_sc_address(&mut self, address: AddressInfo)
        requires
            old(self).chain_config_sc_addresses matches Some(l) ==> l.addresses.len() < usize::MAX,
        ensures
            *final(self) == (CommonState { chain_config_sc_addresses: final(self).chain_config_sc_addresses, ..*old(self) }),
            final(self).chain_config_sc_addresses matches Some(l) && l.addresses@ == match old(self).chain_config_sc_addresses {
                Some(o) => o.addresses@,
                None => Seq::empty(),
            }.push(address),
    {
        push_address(&mut self.chain_config_sc_addresses, address);
    }

    /// The ESDT-Safe address recorded for `shard`.
    pub fn get_mvx_esdt_safe_address(&self, shard: u32) -> (r: &Vec<u8>)
        requires
            self.mvx_esdt_safe_addresses matches Some(l) && (shard as int) < l.addresses.len(),
        ensures
            r@ == self.mvx_esdt_safe_addresses->0.addresses@[shard as int].address@,
    {
        &self.mvx_esdt_safe_addresses.as_ref().unwrap().addresses[shard as usize].address
    }

    /// The Header-Verifier address recorded for `shard`.
    pub fn get_header_verifier_address(&self, shard: u32) -> (r: &Vec<u8>)
        requires
            self.header_verifier_addresses matches Some(l) && (shard as int) < l.addresses.len(),
        ensures
            r@ == self.header_verifier_addresses->0.addresses@[shard as int].address@,
    {
        &self.header_verifier_addresses.as_ref().unwrap().addresses[shard as usize].address
    }

    /// The fee-market address recorded for `shard`.
    pub fn get_fee_market_address(&self, shard: u32) -> (r: &Vec<u8>)
        requires
            self.fee_market_addresses matches Some(l) && (shard as int) < l.addresses.len(),
        ensures
            r@ == self.fee_market_addresses->0.addresses@[shard as int].address@,
    {
        &self.fee_market_addresses.as_ref().unwrap().addresses[shard as usize].address
    }

    /// The ESDT-Safe on the first shard.
    pub fn current_mvx_esdt_safe_contract_address(&self) -> (r: &Vec<u8>)
        requires
            self.mvx_esdt_safe_addresses matches Some(l) && l.addresses.len() > 0,
        ensures
            r@ == self.mvx_esdt_safe_addresses->0.addresses@[0].address@,
    {
        self.mvx_esdt_safe_addresses.as_ref().unwrap().first()
    }

    /// The Header-Verifier on the first shard.
    pub fn current_header_verifier_address(&self) -> (r: &Vec<u8>)
        requires
            self.header_verifier_addresses matches Some(l) && l.addresses.len() > 0,
        ensures
            r@ == self.header_verifier_addresses->0.addresses@[0].address@,
    {
        self.header_verifier_addresses.as_ref().unwrap().first()
    }

    /// The fee market on the first shard.
    pub fn current_fee_market_address(&self) -> (r: &Vec<u8>)
        requires
            self.fee_market_addresses matches Some(l) && l.addresses.len() > 0,
        ensures
            r@ == self.fee_market_addresses->0.addresses@[0].address@,
    {
        self.fee_market_addresses.as_ref().unwrap().first()
    }

    /// The Chain-Config on the first shard.
    pub fn current_chain_config_sc_address(&self) -> (r: &Vec<u8>)
        requires
            self.chain_config_sc_addresses matches Some(l) && l.addresses.len() > 0,
        ensures
            r@ == self.chain_config_sc_addresses->0.addresses@[0].address@,
    {
        self.chain_config_sc_addresses.as_ref().unwrap().first()
    }

    pub fn set_testing_sc_address(&mut self, address: Vec<u8>)
        ensures
            *final(self) == (CommonState { testing_sc_address: final(self).testing_sc_address, ..*old(self) }),
            final(self).testing_sc_address == Some(address),
    {
        self.testing_sc_address = Some(address);
    }

    pub fn current_testing_sc_address(&self) -> (r: &Vec<u8>)
        requires
            self.testing_sc_address is Some,
        ensures
            *r == self.testing_sc_address->0,
    {
        self.testing_sc_address.as_ref().unwrap()
    }

    pub fn set_sovereign_forge_sc_address(&mut self, address: Vec<u8>)
        ensures
            *final(self) == (CommonState { sovereign_forge_sc_address: final(self).sovereign_forge_sc_address, ..*old(self) }),
            final(self).sovereign_forge_sc_address == Some(address),
    {
        self.sovereign_forge_sc_address = Some(address);
    }

    pub fn current_sovereign_forge_sc_address(&self) -> (r: &Vec<u8>)
        requires
            self.sovereign_forge_sc_address is Some,
        ensures
            *r == self.sovereign_forge_sc_address->0,
    {
        self.sovereign_forge_sc_address.as_ref().unwrap()
    }

    /// Records the next shard's Chain-Factory address.
    pub fn set_chain_factory_sc_address(&mut self, address: Vec<u8>)
        ensures
            *final(self) == (CommonState { chain_factory_sc_addresses: final(self).chain_factory_sc_addresses, ..*old(self) }),
            final(self).chain_factory_sc_addresses matches Some(l) && l@ == match old(self).chain_factory_sc_addresses {
                Some(o) => o@,
                None => Seq::empty(),
            }.push(address),
    {
        match &mut self.chain_factory_sc_addresses {
            Some(l) => {
                l.push(address);
            },
            None => {
                let mut l: Vec<Vec<u8>> = Vec::new();
                l.push(address);
                self.chain_factory_sc_addresses = Some(l);
            },
        }
    }

    /// The Chain-Factory on the first shard.
    pub fn current_chain_factory_sc_address(&self) -> (r: &Vec<u8>)
        requires
            self.chain_factory_sc_addresses matches Some(l) && l.len() > 0,
        ensures
            *r == self.chain_factory_sc_addresses->0@[0],
    {
        &self.chain_factory_sc_addresses.as_ref().unwrap()[0]
    }

    /// The Chain-Factory recorded for `shard`.
    pub fn get_chain_factory_sc_address(&self, shard: u32) -> (r: &Vec<u8>)
        requires
            self.chain_factory_sc_addresses matches Some(l) && (shard as int) < l.len(),
        ensures
            *r == self.chain_factory_sc_addresses->0@[shard as int],
    {
        &self.chain_factory_sc_addresses.as_ref().unwrap()[shard as usize]
    }

    pub fn set_fee_market_token_for_shard(&mut self, shard: u32, token: SerializableFeeMarketToken)
        requires
            old(self).wf(),
        ensures
            *final(self) == (CommonState { fee_market_tokens: final(self).fee_market_tokens, ..*old(self) }),
            final(self).wf(),
            final(self).fee_market_tokens@ == old(self).fee_market_tokens@.insert(shard as u128, token),
    {
        self.fee_market_tokens.insert(shard as u128, token);
    }

    /// Records the same fee token for every shard.
    pub fn set_fee_market_token_for_all_shards(&mut self, token: SerializableFeeMarketToken)
        requires
            old(self).wf(),
        ensures
            *final(self) == (CommonState { fee_market_tokens: final(self).fee_market_tokens, ..*old(self) }),
            final(self).wf(),
            final(self).fee_market_tokens@.dom() == old(self).fee_market_tokens@.dom().insert(0).insert(1).insert(2),
            forall|k: u128| old(self).fee_market_tokens@.contains_key(k) && k > 2
                ==> final(self).fee_market_tokens@[k] == old(self).fee_market_tokens@[k],
            forall|k: u128| 0 <= k <= 2 ==> #[trigger] final(self).fee_market_tokens@[k] == token,
    {
        let t0 = token.duplicate();
        let t1 = token.duplicate();
        self.fee_market_tokens.insert(0, t0);
        self.fee_market_tokens.insert(1, t1);
        self.fee_market_tokens.insert(2, token);
        assert(self.fee_market_tokens@.dom() =~= old(self).fee_market_tokens@.dom().insert(0).insert(1).insert(2));
    }

    /// The fee token recorded for `shard`.
    pub fn get_fee_market_token_for_shard(&self, shard: u32) -> (r: &SerializableFeeMarketToken)
        requires
            self.wf(),
            self.fee_market_tokens@.contains_key(shard as u128),
        ensures
            *r == self.fee_market_tokens@[shard as u128],
    {
        self.fee_market_tokens.get(shard as u128).unwrap()
    }

    /// The amount of the fee token recorded for `shard`.
    pub fn get_fee_market_token_amount_for_shard(&self, shard: u32) -> (r: u64)
        requires
            self.wf(),
            self.fee_market_tokens@.contains_key(shard as u128),
        ensures
            r == self.fee_market_tokens@[shard as u128].amount,
    {
        self.get_fee_market_token_for_shard(shard).amount
    }

    pub fn add_chain_id(&mut self, chain_id: String)
        ensures
            *final(self) == (CommonState { chain_ids: final(self).chain_ids, ..*old(self) }),
            final(self).chain_ids@ == old(self).chain_ids@.push(chain_id),
    {
        self.chain_ids.push(chain_id);
    }

    /// The chain created on `shard`.
    pub fn get_chain_id_for_shard(&self, shard: u32) -> (r: &String)
        requires
            (shard as int) < self.chain_ids.len(),
        ensures
            *r == self.chain_ids@[shard as int],
    {
        &self.chain_ids[shard as usize]
    }

    pub fn set_trusted_token(&mut self, token: String)
        ensures
            *final(self) == (CommonState { trusted_token: final(self).trusted_token, ..*old(self) }),
            final(self).trusted_token == Some(token),
    {
        self.trusted_token = Some(token);
    }

    pub fn get_trusted_token(&self) -> (r: String)
        requires
            self.trusted_token is Some,
        ensures
            r@ == self.trusted_token->0@,
    {
        self.trusted_token.as_ref().unwrap().clone()
    }

    pub fn set_is_burn_mechanism_set(&mut self, is_burn_mechanism_set: bool)
        ensures
            *final(self) == (CommonState { is_burn_mechanism_set: final(self).is_burn_mechanism_set, ..*old(self) }),
            final(self).is_burn_mechanism_set == is_burn_mechanism_set,
    {
        self.is_burn_mechanism_set = is_burn_mechanism_set;
    }

    pub fn get_is_burn_mechanism_set(&self) -> (r: bool)
        ensures
            r == self.is_burn_mechanism_set,
    {
        self.is_burn_mechanism_set
    }

    /// The BLS secret keys recorded for `shard`'s validators, in order.
    pub open spec fn spec_bls_secret_keys(&self, shard: u32) -> Seq<Seq<u8>> {
        if self.bls_secret_keys@.contains_key(shard as u128) {
            self.bls_secret_keys@[shard as u128]@.map_values(|k: Vec<u8>| k@)
        } else {
            Seq::empty()
        }
    }

    /// Records one more BLS secret key for `shard`.
    pub fn add_bls_secret_key(&mut self, shard: u32, secret_key_bytes: Vec<u8>)
        requires
            old(self).wf(),
        ensures
            *final(self) == (CommonState { bls_secret_keys: final(self).bls_secret_keys, ..*old(self) }),
            final(self).wf(),
            final(self).bls_secret_keys@.contains_key(shard as u128),
            final(self).spec_bls_secret_keys(shard) == old(self).spec_bls_secret_keys(shard).push(secret_key_bytes@),
            forall|k: u128| k != shard as u128 ==> #[trigger] final(self).bls_secret_keys@.contains_key(k)
                == old(self).bls_secret_keys@.contains_key(k),
            forall|k: u128| k != shard as u128 && old(self).bls_secret_keys@.contains_key(k)
                ==> #[trigger] final(self).bls_secret_keys@[k] == old(self).bls_secret_keys@[k],
    {
        let mut keys = match self.bls_secret_keys.remove(shard as u128) {
            Some(k) => k,
            None => Vec::new(),
        };
        let ghost before = keys@;
        keys.push(secret_key_bytes);
        self.bls_secret_keys.insert(shard as u128, keys);
        proof {
            assert(before.push(secret_key_bytes).map_values(|k: Vec<u8>| k@)
                =~= before.map_values(|k: Vec<u8>| k@).push(secret_key_bytes@));
        }
    }

    /// The BLS secret keys recorded for `shard`, if any.
    pub fn get_bls_secret_keys(&self, shard: u32) -> (r: Option<&Vec<Vec<u8>>>)
        requires
            self.wf(),
        ensures
            match r {
                Some(k) => self.bls_secret_keys@.contains_key(shard as u128) && *k == self.bls_secret_keys@[shard as u128],
                None => !self.bls_secret_keys@.contains_key(shard as u128),
            },
    {
        self.bls_secret_keys.get(shard as u128)
    }

    /// Records the contracts the forge deployed for chain `chain_id`: the
    /// Chain-Config, ESDT-Safe, fee-market and Header-Verifier addresses, in
    /// the order listed; other contracts are not recorded.
    pub fn update_smart_contracts_addresses_in_state(&mut self, chain_id: &String, contracts: &Vec<ContractInfo>)
        requires
            old(self).chain_config_sc_addresses matches Some(l) ==> l.addresses.len() + contracts.len() < usize::MAX,
            old(self).mvx_esdt_safe_addresses matches Some(l) ==> l.addresses.len() + contracts.len() < usize::MAX,
            old(self).fee_market_addresses matches Some(l) ==> l.addresses.len() + contracts.len() < usize::MAX,
            old(self).header_verifier_addresses matches Some(l) ==> l.addresses.len() + contracts.len() < usize::MAX,
        ensures
            *final(self) == (CommonState { chain_config_sc_addresses: final(self).chain_config_sc_addresses, mvx_esdt_safe_addresses: final(self).mvx_esdt_safe_addresses, fee_market_addresses: final(self).fee_market_addresses, header_verifier_addresses: final(self).header_verifier_addresses, ..*old(self) }),
            recorded(final(self).chain_config_sc_addresses) == appended(recorded(old(self).chain_config_sc_addresses),
                deployed_of(contracts@, ScArray::ChainConfig, chain_id@)),
            recorded(final(self).mvx_esdt_safe_addresses) == appended(recorded(old(self).mvx_esdt_safe_addresses),
                deployed_of(contracts@, ScArray::SovereignCrossChainOperation, chain_id@)),
            recorded(final(self).fee_market_addresses) == appended(recorded(old(self).fee_market_addresses),
                deployed_of(contracts@, ScArray::FeeMarket, chain_id@)),
            recorded(final(self).header_verifier_addresses) == appended(recorded(old(self).header_verifier_addresses),
                deployed_of(contracts@, ScArray::SovereignHeaderVerifier, chain_id@)),
    {
        let mut i: usize = 0;
        while i < contracts.len()
            invariant
                i <= contracts.len(),
                *self == (CommonState {
                    chain_config_sc_addresses: self.chain_config_sc_addresses,
                    mvx_esdt_safe_addresses: self.mvx_esdt_safe_addresses,
                    fee_market_addresses: self.fee_market_addresses,
                    header_verifier_addresses: self.header_verifier_addresses,
                    ..*old(self)
                }),
                recorded(self.chain_config_sc_addresses) == appended(recorded(old(self).chain_config_sc_addresses),
                    deployed_of(contracts@.subrange(0, i as int), ScArray::ChainConfig, chain_id@)),
                recorded(self.mvx_esdt_safe_addresses) == appended(recorded(old(self).mvx_esdt_safe_addresses),
                    deployed_of(contracts@.subrange(0, i as int), ScArray::SovereignCrossChainOperation, chain_id@)),
                recorded(self.fee_market_addresses) == appended(recorded(old(self).fee_market_addresses),
                    deployed_of(contracts@.subrange(0, i as int), ScArray::FeeMarket, chain_id@)),
                recorded(self.header_verifier_addresses) == appended(recorded(old(self).header_verifier_addresses),
                    deployed_of(contracts@.subrange(0, i as int), ScArray::SovereignHeaderVerifier, chain_id@)),
                old(self).chain_config_sc_addresses matches Some(l) ==> l.addresses.len() + contracts.len() < usize::MAX,
                old(self).mvx_esdt_safe_addresses matches Some(l) ==> l.addresses.len() + contracts.len() < usize::MAX,
                old(self).fee_market_addresses matches Some(l) ==> l.addresses.len() + contracts.len() < usize::MAX,
                old(self).header_verifier_addresses matches Some(l) ==> l.addresses.len() + contracts.len() < usize::MAX,
            decreases contracts.len() - i,
        {
            let ghost pre = contracts@.subrange(0, i as int);
            let ghost cur = contracts@.subrange(0, i + 1);
            proof {
                assert(cur.drop_last() =~= pre);
                assert(cur.last() == contracts@[i as int]);
                lemma_deployed_of_len(pre, ScArray::ChainConfig, chain_id@);
                lemma_deployed_of_len(pre, ScArray::SovereignCrossChainOperation, chain_id@);
                lemma_deployed_of_len(pre, ScArray::FeeMarket, chain_id@);
                lemma_deployed_of_len(pre, ScArray::SovereignHeaderVerifier, chain_id@);
            }
            let c = &contracts[i];
            let info = AddressInfo { address: copy_bytes(&c.address), chain_id: chain_id.clone() };
            let ghost entry = (c.address@, chain_id@);
            match c.id {
                ScArray::ChainConfig => {
                    let ghost before = self.chain_config_sc_addresses;
                    let ghost moved = info;
                    proof {
                        lemma_deployed_of_len(pre, ScArray::ChainConfig, chain_id@);
                        lemma_room(before, old(self).chain_config_sc_addresses, deployed_of(pre, ScArray::ChainConfig, chain_id@), contracts.len() as int);
                    }
                    push_address(&mut self.chain_config_sc_addresses, info);
                    proof {
                        lemma_recorded_push(before, self.chain_config_sc_addresses, moved);
                        lemma_appended_push(recorded(old(self).chain_config_sc_addresses), deployed_of(pre, ScArray::ChainConfig, chain_id@), entry);
                    }
                },
                ScArray::SovereignCrossChainOperation => {
                    let ghost before = self.mvx_esdt_safe_addresses;
                    let ghost moved = info;
                    proof {
                        lemma_deployed_of_len(pre, ScArray::SovereignCrossChainOperation, chain_id@);
                        lemma_room(before, old(self).mvx_esdt_safe_addresses, deployed_of(pre, ScArray::SovereignCrossChainOperation, chain_id@), contracts.len() as int);
                    }
                    push_address(&mut self.mvx_esdt_safe_addresses, info);
                    proof {
                        lemma_recorded_push(before, self.mvx_esdt_safe_addresses, moved);
                        lemma_appended_push(recorded(old(self).mvx_esdt_safe_addresses), deployed_of(pre, ScArray::SovereignCrossChainOperation, chain_id@), entry);
                    }
                },
                ScArray::FeeMarket => {
                    let ghost before = self.fee_market_addresses;
                    let ghost moved = info;
                    proof {
                        lemma_deployed_of_len(pre, ScArray::FeeMarket, chain_id@);
                        lemma_room(before, old(self).fee_market_addresses, deployed_of(pre, ScArray::FeeMarket, chain_id@), contracts.len() as int);
                    }
                    push_address(&mut self.fee_market_addresses, info);
                    proof {
                        lemma_recorded_push(before, self.fee_market_addresses, moved);
                        lemma_appended_push(recorded(old(self).fee_market_addresses), deployed_of(pre, ScArray::FeeMarket, chain_id@), entry);
                    }
                },
                ScArray::SovereignHeaderVerifier => {
                    let ghost before = self.header_verifier_addresses;
                    let ghost moved = info;
                    proof {
                        lemma_deployed_of_len(pre, ScArray::SovereignHeaderVerifier, chain_id@);
                        lemma_room(before, old(self).header_verifier_addresses, deployed_of(pre, ScArray::SovereignHeaderVerifier, chain_id@), contracts.len() as int);
                    }
                    push_address(&mut self.header_verifier_addresses, info);
                    proof {
                        lemma_recorded_push(before, self.header_verifier_addresses, moved);
                        lemma_appended_push(recorded(old(self).header_verifier_addresses), deployed_of(pre, ScArray::SovereignHeaderVerifier, chain_id@), entry);
                    }
                },
                _ => {},
            }
            i = i + 1;
        }
        assert(contracts@.subrange(0, contracts.len() as int) =~= contracts@);
    }

    /// The fee token recorded for `shard`, as a tracked token.
    pub fn get_fee_market_token_for_shard_converted(&self, shard: u32) -> (r: EsdtTokenInfo)
        requires
            self.wf(),
            self.fee_market_tokens@.contains_key(shard as u128),
        ensures
            ({
                let t = self.fee_market_tokens@[shard as u128];
                &&& r.token_id@ == vstd::utf8::encode_utf8(t.token_id@)
                &&& r.nonce == t.nonce
                &&& r.decimals == t.decimals
                &&& r.amount == t.amount
                &&& t.token_type <= 7 ==> crate::interactor::spec_token_type_code(r.token_type) == t.token_type
            }),
    {
        fee_market_token_converted(self.get_fee_market_token_for_shard(shard))
    }

    /// Books a deposit's fee into the fee token recorded for `shard`: when a
    /// fee is set and the deposit carries payments, the first payment's amount
    /// is added to the recorded amount (unless it exceeds what a `u64` holds,
    /// in which case nothing is added); otherwise nothing changes.
    pub fn update_fee_market_balance_state(&mut self, fee: &Option<FeeStruct>, payments: &Vec<Payment>, shard: u32)
        requires
            old(self).wf(),
            fee is Some && payments.len() > 0 ==> old(self).fee_market_tokens@.contains_key(shard as u128),
            fee is Some && payments.len() > 0 && payments@[0].amount <= u64::MAX
                ==> old(self).fee_market_tokens@[shard as u128].amount + payments@[0].amount <= u64::MAX,
        ensures
            final(self).wf(),
            fee is None || payments.len() == 0 ==> *final(self) == *old(self),
            fee is Some && payments.len() > 0 ==> {
                let t = old(self).fee_market_tokens@[shard as u128];
                let added: int = if payments@[0].amount <= u64::MAX { payments@[0].amount as int } else { 0 };
                &&& *final(self) == (CommonState { fee_market_tokens: final(self).fee_market_tokens, ..*old(self) })
                &&& final(self).fee_market_tokens@ == old(self).fee_market_tokens@.insert(
                    shard as u128,
                    (SerializableFeeMarketToken { amount: (t.amount + added) as u64, ..t }),
                )
            },
    {
        if fee.is_none() || payments.len() == 0 {
            return;
        }
        let mut token = self.get_fee_market_token_for_shard(shard).duplicate();
        let payment_amount: Amount = payments[0].amount;
        if payment_amount <= u64::MAX as u128 {
            token.amount = token.amount + payment_amount as u64;
        }
        self.set_fee_market_token_for_shard(shard, token);
    }
}

/// What a deployment run of the interactor remembers: the contracts it
/// deployed on each shard and the fee token it issued.
pub struct DeployState {
    pub mvx_esdt_safe_addresses: Option<ShardAddresses>,
    pub header_verifier_addresses: Option<ShardAddresses>,
    pub fee_market_addresses: Option<ShardAddresses>,
    pub chain_config_sc_addresses: Option<ShardAddresses>,
    pub testing_sc_address: Option<Vec<u8>>,
    pub sovereign_forge_sc_address: Option<Vec<u8>>,
    pub chain_factory_sc_addresses: Option<Vec<Vec<u8>>>,
    pub fee_token_id: String,
}

impl DeployState {
    /// A state with nothing deployed.
    pub fn new() -> (r: DeployState)
        ensures
            r.mvx_esdt_safe_addresses is None,
            r.header_verifier_addresses is None,
            r.fee_market_addresses is None,
            r.chain_config_sc_addresses is None,
            r.testing_sc_address is None,
            r.sovereign_forge_sc_address is None,
            r.chain_factory_sc_addresses is None,
            r.fee_token_id@.len() == 0,
    {
        DeployState {
            mvx_esdt_safe_addresses: None,
            header_verifier_addresses: None,
            fee_market_addresses: None,
            chain_config_sc_addresses: None,
            testing_sc_address: None,
            sovereign_forge_sc_address: None,
            chain_factory_sc_addresses: None,
            fee_token_id: String::new(),
        }
    }

    /// Records the shard's ESDT-Safe address.
    pub fn set_mvx_esdt_safe_contract_address(&mut self, address: AddressInfo)
        requires
            old(self).mvx_esdt_safe_addresses matches Some(l) ==> l.addresses.len() < usize::MAX,
        ensures
            *final(self) == (DeployState { mvx_esdt_safe_addresses: final(self).mvx_esdt_safe_addresses, ..*old(self) }),
            final(self).mvx_esdt_safe_addresses matches Some(l) && l.addresses@ == match old(self).mvx_esdt_safe_addresses {
                Some(o) => o.addresses@,
                None => Seq::empty(),
            }.push(address),
    {
        push_address(&mut self.mvx_esdt_safe_addresses, address);
    }

    /// Records the shard's Header-Verifier address.
    pub fn set_header_verifier_address(&mut self, address: AddressInfo)
        requires
            old(self).header_verifier_addresses matches Some(l) ==> l.addresses.len() < usize::MAX,
        ensures
            *final(self) == (DeployState { header_verifier_addresses: final(self).header_verifier_addresses, ..*old(self) }),
            final(self).header_verifier_addresses matches Some(l) && l.addresses@ == match old(self).header_verifier_addresses {
                Some(o) => o.addresses@,
                None => Seq::empty(),
            }.push(address),
    {
        push_address(&mut self.header_verifier_addresses, address);
    }

    /// Records the shard's fee-market address.
    pub fn set_fee_market_address(&mut self, address: AddressInfo)
        requires
            old(self).fee_market_addresses matches Some(l) ==> l.addresses.len() < usize::MAX,
        ensures
            *final(self) == (DeployState { fee_market_addresses: final(self).fee_market_addresses, ..*old(self) }),
            final(self).fee_market_addresses matches Some(l) && l.addresses@ == match old(self).fee_market_addresses {
                Some(o) => o.addresses@,
                None => Seq::empty(),
            }.push(address),
    {
        push_address(&mut self.fee_market_addresses, address);
    }

    /// Records the shard's Chain-Config address.
    pub fn set_chain_config_sc_address(&mut self, address: AddressInfo)
        requires
            old(self).chain_config_sc_addresses matches Some(l) ==> l.addresses.len() < usize::MAX,
        ensures
            *final(self) == (DeployState { chain_config_sc_addresses: final(self).chain_config_sc_addresses, ..*old(self) }),
            final(self).chain_config_sc_addresses matches Some(l) && l.addresses@ == match old(self).chain_config_sc_addresses {
                Some(o) => o.addresses@,
                None => Seq::empty(),
            }.push(address),
    {
        push_address(&mut self.chain_config_sc_addresses, address);
    }

    pub fn set_testing_sc_address(&mut self, address: Vec<u8>)
        ensures
            *final(self) == (DeployState { testing_sc_address: final(self).testing_sc_address, ..*old(self) }),
            final(self).testing_sc_address == Some(address),
    {
        self.testing_sc_address = Some(address);
    }

    pub fn set_sovereign_forge_sc_address(&mut self, address: Vec<u8>)
        ensures
            *final(self) == (DeployState { sovereign_forge_sc_address: final(self).sovereign_forge_sc_address, ..*old(self) }),
            final(self).sovereign_forge_sc_address == Some(address),
    {
        self.sovereign_forge_sc_address = Some(address);
    }

    /// Records the next shard's Chain-Factory address.
    pub fn set_chain_factory_sc_address(&mut self, address: Vec<u8>)
        ensures
            *final(self) == (DeployState { chain_factory_sc_addresses: final(self).chain_factory_sc_addresses, ..*old(self) }),
            final(self).chain_factory_sc_addresses matches Some(l) && l@ == match old(self).chain_factory_sc_addresses {
                Some(o) => o@,
                None => Seq::empty(),
            }.push(address),
    {
        match &mut self.chain_factory_sc_addresses {
            Some(l) => {
                l.push(address);
            },
            None => {
                let mut l: Vec<Vec<u8>> = Vec::new();
                l.push(address);
                self.chain_factory_sc_addresses = Some(l);
            },
        }
    }

    pub fn set_fee_token_id(&mut self, fee_token_id: String)
        ensures
            *final(self) == (DeployState { fee_token_id: final(self).fee_token_id, ..*old(self) }),
            final(self).fee_token_id == fee_token_id,
    {
        self.fee_token_id = fee_token_id;
    }

    /// The ESDT-Safe on the first shard.
    pub fn current_mvx_esdt_safe_contract_address(&self) -> (r: &Vec<u8>)
        requires
            self.mvx_esdt_safe_addresses matches Some(l) && l.addresses.len() > 0,
        ensures
            r@ == self.mvx_esdt_safe_addresses->0.addresses@[0].address@,
    {
        self.mvx_esdt_safe_addresses.as_ref().unwrap().first()
    }

    /// The Header-Verifier on the first shard.
    pub fn current_header_verifier_address(&self) -> (r: &Vec<u8>)
        requires
            self.header_verifier_addresses matches Some(l) && l.addresses.len() > 0,
        ensures
            r@ == self.header_verifier_addresses->0.addresses@[0].address@,
    {
        self.header_verifier_addresses.as_ref().unwrap().first()
    }

    /// The fee market on the first shard.
    pub fn current_fee_market_address(&self) -> (r: &Vec<u8>)
        requires
            self.fee_market_addresses matches Some(l) && l.addresses.len() > 0,
        ensures
            r@ == self.fee_market_addresses->0.addresses@[0].address@,
    {
        self.fee_market_addresses.as_ref().unwrap().first()
    }

    /// The Chain-Config on the first shard.
    pub fn current_chain_config_sc_address(&self) -> (r: &Vec<u8>)
        requires
            self.chain_config_sc_addresses matches Some(l) && l.addresses.len() > 0,
        ensures
            r@ == self.chain_config_sc_addresses->0.addresses@[0].address@,
    {
        self.chain_config_sc_addresses.as_ref().unwrap().first()
    }

    pub fn current_testing_sc_address(&self) -> (r: &Vec<u8>)
        requires
            self.testing_sc_address is Some,
        ensures
            *r == self.testing_sc_address->0,
    {
        self.testing_sc_address.as_ref().unwrap()
    }

    pub fn current_sovereign_forge_sc_address(&self) -> (r: &Vec<u8>)
        requires
            self.sovereign_forge_sc_address is Some,
        ensures
            *r == self.sovereign_forge_sc_address->0,
    {
        self.sovereign_forge_sc_address.as_ref().unwrap()
    }

    /// The Chain-Factory on the first shard.
    pub fn current_chain_factory_sc_address(&self) -> (r: &Vec<u8>)
        requires
            self.chain_factory_sc_addresses matches Some(l) && l.len() > 0,
        ensures
            *r == self.chain_factory_sc_addresses->0@[0],
    {
        &self.chain_factory_sc_addresses.as_ref().unwrap()[0]
    }

    /// The Chain-Factory recorded for `shard`.
    pub fn get_chain_factory_sc_address(&self, shard: u32) -> (r: &Vec<u8>)
        requires
            self.chain_factory_sc_addresses matches Some(l) && (shard as int) < l.len(),
        ensures
            *r == self.chain_factory_sc_addresses->0@[shard as int],
    {
        &self.chain_factory_sc_addresses.as_ref().unwrap()[shard as usize]
    }

    /// The ESDT-Safe address recorded for `shard`.
    pub fn get_mvx_esdt_safe_address(&self, shard: u32) -> (r: &Vec<u8>)
        requires
            self.mvx_esdt_safe_addresses matches Some(l) && (shard as int) < l.addresses.len(),
        ensures
            r@ == self.mvx_esdt_safe_addresses->0.addresses@[shard as int].address@,
    {
        &self.mvx_esdt_safe_addresses.as_ref().unwrap().addresses[shard as usize].address
    }

    /// The fee-market address recorded for `shard`.
    pub fn get_fee_market_address(&self, shard: u32) -> (r: &Vec<u8>)
        requires
            self.fee_market_addresses matches Some(l) && (shard as int) < l.addresses.len(),
        ensures
            r@ == self.fee_market_addresses->0.addresses@[shard as int].address@,
    {
        &self.fee_market_addresses.as_ref().unwrap().addresses[shard as usize].address
    }

    /// The Header-Verifier address recorded for `shard`.
    pub fn get_header_verifier_address(&self, shard: u32) -> (r: &Vec<u8>)
        requires
            self.header_verifier_addresses matches Some(l) && (shard as int) < l.addresses.len(),
        ensures
            r@ == self.header_verifier_addresses->0.addresses@[shard as int].address@,
    {
        &self.header_verifier_addresses.as_ref().unwrap().addresses[shard as usize].address
    }

    pub fn get_fee_token_id(&self) -> (r: &String)
        ensures
            *r == self.fee_token_id,
    {
        &self.fee_token_id
    }
}

} // verus!
