use vstd::prelude::*;
use crate::bytes::copy_bytes;
use crate::errors::BridgeError;
use crate::types::{Payment, PaymentView, payments_view};

verus! {

/// The byte that separates joined error messages (a newline).
pub open spec fn newline() -> u8 {
    10
}

/// Messages joined by newlines, in order.
pub open spec fn join_lines(s: Seq<Seq<u8>>) -> Seq<u8>
    decreases s.len(),
{
    if s.len() == 0 {
        Seq::empty()
    } else if s.len() == 1 {
        s[0]
    } else {
        join_lines(s.drop_last()) + seq![newline()] + s.last()
    }
}

/// Joins error messages with newlines.
pub fn combine_error_messages(errors: &Vec<Vec<u8>>) -> (r: Vec<u8>)
    ensures
        r@ == join_lines(errors@.map_values(|e: Vec<u8>| e@)),
{
    let ghost ev = errors@.map_values(|e: Vec<u8>| e@);
    let mut out: Vec<u8> = Vec::new();
    let mut i: usize = 0;
    while i < errors.len()
        invariant
            i <= errors.len(),
            ev == errors@.map_values(|e: Vec<u8>| e@),
            out@ == join_lines(ev.subrange(0, i as int)),
        decreases errors.len() - i,
    {
        let ghost prev = out@;
        assert(ev.subrange(0, i + 1).drop_last() =~= ev.subrange(0, i as int));
        if i > 0 {
            out.push(10u8);
        }
        let e = &errors[i];
        let mut k: usize = 0;
        let ghost mid = out@;
        while k < e.len()
            invariant
                k <= e.len(),
                out@ == mid + e@.subrange(0, k as int),
            decreases e.len() - k,
        {
            out.push(e[k]);
            k = k + 1;
            assert(out@ =~= mid + e@.subrange(0, k as int));
        }
        assert(e@.subrange(0, e.len() as int) =~= e@);
        proof {
            if i == 0 {
                assert(out@ =~= e@);
                assert(ev.subrange(0, 1)[0] == e@);
            } else {
                assert(out@ =~= prev + seq![newline()] + e@);
            }
        }
        i = i + 1;
    }
    assert(ev.subrange(0, errors.len() as int) =~= ev);
    out
}

/// The event that closes a bridge operation.
pub struct ExecutedBridgeOp {
    pub hash_of_hashes: Vec<u8>,
    pub hash_of_bridge_op: Vec<u8>,
    pub error_message: Option<Vec<u8>>,
}

/// The error a completed operation reports: the operation's own error and the
/// Header-Verifier's error on releasing the hash, joined by a newline when
/// there are both.
pub open spec fn merged_error(error: Option<Seq<u8>>, remove_error: Option<Seq<u8>>) -> Option<Seq<u8>> {
    match (error, remove_error) {
        (None, None) => None,
        (Some(e), None) => Some(e),
        (None, Some(e)) => Some(e),
        (Some(e1), Some(e2)) => Some(e1 + seq![newline()] + e2),
    }
}

pub open spec fn opt_view(o: Option<Vec<u8>>) -> Option<Seq<u8>> {
    match o {
        Some(v) => Some(v@),
        None => None,
    }
}

/// Completes a bridge operation: `remove_error` is what the Header-Verifier
/// answered when asked to release the executed hash. Returns the event emitted.
pub fn complete_operation(
    hash_of_hashes: &Vec<u8>,
    operation_hash: &Vec<u8>,
    error_message: Option<Vec<u8>>,
    remove_error: Option<Vec<u8>>,
) -> (r: ExecutedBridgeOp)
    ensures
        r.hash_of_hashes@ == hash_of_hashes@,
        r.hash_of_bridge_op@ == operation_hash@,
        opt_view(r.error_message) == merged_error(opt_view(error_message), opt_view(remove_error)),
{
    let merged = match (error_message, remove_error) {
        (None, None) => None,
        (Some(e), None) => Some(e),
        (None, Some(e)) => Some(e),
        (Some(e1), Some(e2)) => {
            let ghost v1 = e1@;
            let ghost v2 = e2@;
            let mut errors: Vec<Vec<u8>> = Vec::new();
            errors.push(e1);
            errors.push(e2);
            let c = combine_error_messages(&errors);
            proof {
                let ev = errors@.map_values(|e: Vec<u8>| e@);
                assert(ev =~= seq![v1, v2]);
                assert(ev.drop_last() =~= seq![v1]);
                assert(join_lines(seq![v1]) == v1);
            }
            Some(c)
        },
    };
    ExecutedBridgeOp {
        hash_of_hashes: copy_bytes(hash_of_hashes),
        hash_of_bridge_op: copy_bytes(operation_hash),
        error_message: merged,
    }
}

/// The call with which a contract asks the Header-Verifier to release the
/// hash of a bridge operation it has executed.
pub struct RemoveExecutedHash {
    pub hash_of_hashes: Vec<u8>,
    pub operation_hash: Vec<u8>,
}

/// A bridge operation that has been carried out and awaits its completion:
/// the release call to make and the error the operation ended with.
pub struct PendingCompletion {
    pub remove_call: RemoveExecutedHash,
    pub error_message: Option<Vec<u8>>,
}

/// Whether `p` completes the operation `operation_hash` under
/// `hash_of_hashes`: its release call names those two hashes.
pub open spec fn completion_for(p: PendingCompletion, hash_of_hashes: Seq<u8>, operation_hash: Seq<u8>) -> bool {
    &&& p.remove_call.hash_of_hashes@ == hash_of_hashes
    &&& p.remove_call.operation_hash@ == operation_hash
}

impl PendingCompletion {
    /// Awaits the release of `operation_hash` under `hash_of_hashes`, with
    /// the operation's error.
    pub fn new(hash_of_hashes: &Vec<u8>, operation_hash: &Vec<u8>, error_message: Option<Vec<u8>>) -> (r: PendingCompletion)
        ensures
            completion_for(r, hash_of_hashes@, operation_hash@),
            r.error_message == error_message,
    {
        PendingCompletion {
            remove_call: RemoveExecutedHash {
                hash_of_hashes: copy_bytes(hash_of_hashes),
                operation_hash: copy_bytes(operation_hash),
            },
            error_message,
        }
    }

    /// Completes the operation once the Header-Verifier has answered the
    /// release call (`remove_error`): the one event that closes it, for the
    /// same two hashes, with both errors merged.
    pub fn finish(self, remove_error: Option<Vec<u8>>) -> (r: ExecutedBridgeOp)
        ensures
            r.hash_of_hashes@ == self.remove_call.hash_of_hashes@,
            r.hash_of_bridge_op@ == self.remove_call.operation_hash@,
            opt_view(r.error_message) == merged_error(opt_view(self.error_message), opt_view(remove_error)),
    {
        complete_operation(&self.remove_call.hash_of_hashes, &self.remove_call.operation_hash, self.error_message, remove_error)
    }
}

/// The error reported for an operation whose hash could not be generated.
pub fn validate_operation_hash(hash: &Vec<u8>) -> (r: Option<Vec<u8>>)
    ensures
        hash@.len() == 0 ==> r is Some && r->0@ == BridgeError::ErrorAtGeneratingOperationHash.message_view(),
        hash@.len() != 0 ==> r is None,
{
    if hash.len() == 0 {
        Some(BridgeError::ErrorAtGeneratingOperationHash.message_bytes())
    } else {
        None
    }
}

/// Separates the first payment of a call from the others.
pub fn pop_first_payment(payments: Vec<Payment>) -> (r: Result<(Payment, Vec<Payment>), BridgeError>)
    ensures
        payments@.len() == 0 ==> r == Err::<(Payment, Vec<Payment>), BridgeError>(BridgeError::ErrEmptyPayments),
        payments@.len() > 0 ==> r is Ok && r->Ok_0.0@ == payments@[0]@
            && payments_view(r->Ok_0.1@) == payments_view(payments@).drop_first(),
{
    if payments.len() == 0 {
        return Err(BridgeError::ErrEmptyPayments);
    }
    let mut rest = payments;
    let ghost orig = payments_view(rest@);
    let first = rest.remove(0);
    assert(payments_view(rest@) =~= orig.drop_first());
    Ok((first, rest))
}

/// Whether an address is the zero address.
pub open spec fn is_zero_address(a: Seq<u8>) -> bool {
    forall|i: int| 0 <= i < a.len() ==> a[i] == 0
}

pub fn is_zero(a: &Vec<u8>) -> (r: bool)
    ensures
        r == is_zero_address(a@),
{
    let mut i: usize = 0;
    while i < a.len()
        invariant
            i <= a.len(),
            forall|j: int| 0 <= j < i ==> a@[j] == 0,
        decreases a.len() - i,
    {
        if a[i] != 0 {
            return false;
        }
        i = i + 1;
    }
    true
}

/// Accepts a smart-contract address: not zero, and a contract according to the
/// chain (`is_smart_contract`, what the chain answered about `address`).
pub fn require_sc_address(address: &Vec<u8>, is_smart_contract: bool) -> (r: Result<(), BridgeError>)
    ensures
        r is Ok <==> !is_zero_address(address@) && is_smart_contract,
        r is Err ==> r == Err::<(), BridgeError>(BridgeError::InvalidScAddress),
{
    if !is_zero(address) && is_smart_contract {
        Ok(())
    } else {
        Err(BridgeError::InvalidScAddress)
    }
}

} // verus!
