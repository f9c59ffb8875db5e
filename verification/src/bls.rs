use vstd::prelude::*;
use crate::bytes::{bytes_eq, views};
use crate::errors::BridgeError;
use crate::store::BytesMap;

verus! {

/// Length of a BLS signature.
pub const BLS_SIGNATURE_LEN: usize = 48;

/// Number of `true` among the first `n` entries.
pub open spec fn count_true(s: Seq<bool>) -> nat
    decreases s.len(),
{
    if s.len() == 0 {
        0
    } else {
        count_true(s.drop_last()) + if s.last() { 1nat } else { 0nat }
    }
}

/// Concatenation of byte strings, in order.
pub open spec fn concat_all(s: Seq<Seq<u8>>) -> Seq<u8>
    decreases s.len(),
{
    if s.len() == 0 {
        Seq::empty()
    } else {
        concat_all(s.drop_last()) + s.last()
    }
}

/// The signer set of a multi-signed bridge and the number of valid signatures
/// it requires.
pub struct BlsSignatureModule {
    pub owner: Vec<u8>,
    pub all_signers: BytesMap<()>,
    pub min_valid_signers: u32,
}

impl BlsSignatureModule {
    pub open spec fn wf(&self) -> bool {
        self.all_signers.wf()
    }

    /// Sets how many valid signatures are required (owner only).
    pub fn set_min_valid_signers(&mut self, caller: &Vec<u8>, new_value: u32) -> (r: Result<(), BridgeError>)
        requires
            old(self).wf(),
        ensures
            final(self).wf(),
            caller@ != old(self).owner@ ==> r == Err::<(), BridgeError>(BridgeError::OnlyOwner) && final(self).min_valid_signers == old(self).min_valid_signers,
            caller@ == old(self).owner@ ==> r is Ok && final(self).min_valid_signers == new_value,
            *final(self) == (BlsSignatureModule { min_valid_signers: final(self).min_valid_signers, ..*old(self) }),
    {
        if !bytes_eq(caller, &self.owner) {
            return Err(BridgeError::OnlyOwner);
        }
        self.min_valid_signers = new_value;
        Ok(())
    }

    /// Adds signers (owner only).
    pub fn add_signers(&mut self, caller: &Vec<u8>, signers: Vec<Vec<u8>>) -> (r: Result<(), BridgeError>)
        requires
            old(self).wf(),
        ensures
            final(self).wf(),
            caller@ != old(self).owner@ ==> r == Err::<(), BridgeError>(BridgeError::OnlyOwner) && final(self).all_signers@ == old(self).all_signers@,
            caller@ == old(self).owner@ ==> r is Ok
                && final(self).all_signers@.dom() == Set::new(|x: Seq<u8>| old(self).all_signers@.dom().contains(x) || views(signers@).contains(x)),
            r is Err ==> *final(self) == *old(self),
            *final(self) == (BlsSignatureModule { all_signers: final(self).all_signers, ..*old(self) }),
    {
        if !bytes_eq(caller, &self.owner) {
            return Err(BridgeError::OnlyOwner);
        }
        let ghost start = self.all_signers@.dom();
        let ghost sv = views(signers@);
        let mut i: usize = 0;
        while i < signers.len()
            invariant
                self.wf(),
                i <= signers.len(),
                sv == views(signers@),
                self.all_signers@.dom() == Set::new(|x: Seq<u8>| start.contains(x) || sv.subrange(0, i as int).contains(x)),
                self.min_valid_signers == old(self).min_valid_signers,
                self.owner == old(self).owner,
            decreases signers.len() - i,
        {
            let ghost prev = sv.subrange(0, i as int);
            let ghost next = sv.subrange(0, i + 1);
            self.all_signers.insert(crate::bytes::copy_bytes(&signers[i]), ());
            assert(sv.subrange(0, i + 1) =~= prev.push(signers@[i as int]@));
            assert forall|x: Seq<u8>| #[trigger] next.contains(x) <==> (prev.contains(x) || x == signers@[i as int]@) by {
                if next.contains(x) {
                    let j = choose|j: int| 0 <= j < next.len() && next[j] == x;
                    if j < i {
                        assert(prev[j] == x);
                    }
                }
                if prev.contains(x) {
                    let j = choose|j: int| 0 <= j < prev.len() && prev[j] == x;
                    assert(next[j] == x);
                }
                if x == signers@[i as int]@ {
                    assert(next[i as int] == x);
                }
            }
            assert(self.all_signers@.dom() =~= Set::new(|x: Seq<u8>| start.contains(x) || sv.subrange(0, i + 1).contains(x)));
            i = i + 1;
        }
        assert(sv.subrange(0, signers.len() as int) =~= sv);
        Ok(())
    }

    /// Removes signers (owner only).
    pub fn remove_signers(&mut self, caller: &Vec<u8>, signers: Vec<Vec<u8>>) -> (r: Result<(), BridgeError>)
        requires
            old(self).wf(),
        ensures
            final(self).wf(),
            caller@ != old(self).owner@ ==> r == Err::<(), BridgeError>(BridgeError::OnlyOwner) && final(self).all_signers@ == old(self).all_signers@,
            caller@ == old(self).owner@ ==> r is Ok
                && final(self).all_signers@.dom() == Set::new(|x: Seq<u8>| old(self).all_signers@.dom().contains(x) && !views(signers@).contains(x)),
            r is Err ==> *final(self) == *old(self),
            *final(self) == (BlsSignatureModule { all_signers: final(self).all_signers, ..*old(self) }),
    {
        if !bytes_eq(caller, &self.owner) {
            return Err(BridgeError::OnlyOwner);
        }
        let ghost start = self.all_signers@.dom();
        let ghost sv = views(signers@);
        let mut i: usize = 0;
        while i < signers.len()
            invariant
                self.wf(),
                i <= signers.len(),
                sv == views(signers@),
                self.all_signers@.dom() == Set::new(|x: Seq<u8>| start.contains(x) && !sv.subrange(0, i as int).contains(x)),
                self.min_valid_signers == old(self).min_valid_signers,
                self.owner == old(self).owner,
            decreases signers.len() - i,
        {
            let ghost prev = sv.subrange(0, i as int);
            let ghost next = sv.subrange(0, i + 1);
            let _ = self.all_signers.remove(&signers[i]);
            assert(sv.subrange(0, i + 1) =~= prev.push(signers@[i as int]@));
            assert forall|x: Seq<u8>| #[trigger] next.contains(x) <==> (prev.contains(x) || x == signers@[i as int]@) by {
                if next.contains(x) {
                    let j = choose|j: int| 0 <= j < next.len() && next[j] == x;
                    if j < i {
                        assert(prev[j] == x);
                    }
                }
                if prev.contains(x) {
                    let j = choose|j: int| 0 <= j < prev.len() && prev[j] == x;
                    assert(next[j] == x);
                }
                if x == signers@[i as int]@ {
                    assert(next[i as int] == x);
                }
            }
            assert(self.all_signers@.dom() =~= Set::new(|x: Seq<u8>| start.contains(x) && !sv.subrange(0, i + 1).contains(x)));
            i = i + 1;
        }
        assert(sv.subrange(0, signers.len() as int) =~= sv);
        Ok(())
    }

    /// The signers, in the order in which they are checked.
    pub open spec fn signer_order(&self) -> Seq<Seq<u8>> {
        self.all_signers.key_seq()
    }

    /// Accepts a signature that enough signers produced. `valid[i]` is the
    /// chain's BLS verdict for the `i`-th signer (in [`Self::signer_order`])
    /// on the signed data.
    pub fn multi_verify_signature(&self, valid: &Vec<bool>) -> (r: Result<(), BridgeError>)
        requires
            self.wf(),
            valid@.len() == self.signer_order().len(),
        ensures
            count_true(valid@) >= self.min_valid_signers ==> r is Ok,
            count_true(valid@) < self.min_valid_signers ==> r == Err::<(), BridgeError>(BridgeError::InvalidSignature),
    {
        let mut total: u64 = 0;
        let mut i: usize = 0;
        while i < valid.len()
            invariant
                i <= valid.len(),
                total == count_true(valid@.subrange(0, i as int)),
                total <= i,
            decreases valid.len() - i,
        {
            assert(valid@.subrange(0, i + 1).drop_last() =~= valid@.subrange(0, i as int));
            if valid[i] {
                total = total + 1;
            }
            i = i + 1;
        }
        assert(valid@.subrange(0, valid.len() as int) =~= valid@);
        if total >= self.min_valid_signers as u64 {
            Ok(())
        } else {
            Err(BridgeError::InvalidSignature)
        }
    }
}

/// Concatenates public keys into one buffer.
pub fn aggregate_pub_keys(pub_keys: &Vec<Vec<u8>>) -> (r: Vec<u8>)
    ensures
        r@ == concat_all(views(pub_keys@)),
{
    let ghost kv = views(pub_keys@);
    let mut out: Vec<u8> = Vec::new();
    let mut i: usize = 0;
    while i < pub_keys.len()
        invariant
            i <= pub_keys.len(),
            kv == views(pub_keys@),
            out@ == concat_all(kv.subrange(0, i as int)),
        decreases pub_keys.len() - i,
    {
        let k = &pub_keys[i];
        let ghost prev = out@;
        let mut j: usize = 0;
        while j < k.len()
            invariant
                j <= k.len(),
                out@ == prev + k@.subrange(0, j as int),
            decreases k.len() - j,
        {
            out.push(k[j]);
            j = j + 1;
            assert(out@ =~= prev + k@.subrange(0, j as int));
        }
        assert(k@.subrange(0, k.len() as int) =~= k@);
        assert(kv.subrange(0, i + 1).drop_last() =~= kv.subrange(0, i as int));
        assert(kv.subrange(0, i + 1).last() == k@);
        i = i + 1;
    }
    assert(kv.subrange(0, pub_keys.len() as int) =~= kv);
    out
}

/// The aggregate-verification stub of the signature module: it refuses any
/// set containing an empty key and, as the pairing check is not there, every
/// other set too.
pub fn bls_fast_aggregate_verify(signature: &Vec<u8>, message: &Vec<u8>, count: usize, pub_keys: &Vec<Vec<u8>>) -> (r: bool)
    ensures
        !r,
{
    let mut i: usize = 0;
    while i < pub_keys.len()
        invariant
            i <= pub_keys.len(),
        decreases pub_keys.len() - i,
    {
        if pub_keys[i].len() == 0 {
            return false;
        }
        i = i + 1;
    }
    let _aggregated = aggregate_pub_keys(pub_keys);
    false
}

} // verus!
