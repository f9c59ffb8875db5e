use vstd::prelude::*;
use crate::bytes::copy_bytes;

verus! {

/// An amount of tokens (the contracts' unsigned big integer, held in 128 bits).
pub type Amount = u128;

/// Kind of an ESDT token, as the protocol defines them.
#[derive(Clone, Copy, Debug, PartialEq, Eq, Structural)]
pub enum EsdtTokenType {
    Fungible,
    NonFungible,
    NonFungibleV2,
    SemiFungible,
    MetaFungible,
    DynamicNFT,
    DynamicSFT,
    DynamicMeta,
    Invalid,
}

/// A transfer of `amount` units of the token `token_id` (with `nonce` 0 for fungible tokens).
pub struct Payment {
    pub token_id: Vec<u8>,
    pub nonce: u64,
    pub amount: Amount,
}

/// Mathematical value of a [`Payment`].
pub struct PaymentView {
    pub token_id: Seq<u8>,
    pub nonce: u64,
    pub amount: Amount,
}

impl View for Payment {
    type V = PaymentView;

    open spec fn view(&self) -> PaymentView {
        PaymentView { token_id: self.token_id@, nonce: self.nonce, amount: self.amount }
    }
}

impl Payment {
    pub fn new(token_id: Vec<u8>, nonce: u64, amount: Amount) -> (r: Payment)
        ensures
            r.token_id@ == token_id@,
            r.nonce == nonce,
            r.amount == amount,
    {
        Payment { token_id, nonce, amount }
    }

    pub fn duplicate(&self) -> (r: Payment)
        ensures
            r@ == self@,
    {
        Payment { token_id: copy_bytes(&self.token_id), nonce: self.nonce, amount: self.amount }
    }
}

/// Views of a list of payments.
pub open spec fn payments_view(s: Seq<Payment>) -> Seq<PaymentView> {
    s.map_values(|p: Payment| p@)
}

/// A copy of a list of payments.
pub fn copy_payments(v: &Vec<Payment>) -> (r: Vec<Payment>)
    ensures
        payments_view(r@) == payments_view(v@),
{
    let mut r: Vec<Payment> = Vec::new();
    let mut i: usize = 0;
    while i < v.len()
        invariant
            i <= v.len(),
            r@.len() == i,
            forall|j: int| 0 <= j < i ==> #[trigger] r@[j]@ == v@[j]@,
        decreases v.len() - i,
    {
        r.push(v[i].duplicate());
        i = i + 1;
    }
    assert(payments_view(r@) =~= payments_view(v@));
    r
}

/// Token and amount that a validator must stake on top of EGLD.
pub struct StakeArgs {
    pub token_identifier: Vec<u8>,
    pub amount: Amount,
}

} // verus!
