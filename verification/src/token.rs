use vstd::prelude::*;
use crate::errors::BridgeError;

verus! {

/// Whether `c` is an ASCII digit.
pub open spec fn is_digit(c: u8) -> bool {
    48 <= c <= 57
}

/// Whether `c` is an upper-case ASCII letter.
pub open spec fn is_upper(c: u8) -> bool {
    65 <= c <= 90
}

/// Whether `c` is a lower-case ASCII letter.
pub open spec fn is_lower(c: u8) -> bool {
    97 <= c <= 122
}

/// The dash that separates the parts of a token identifier.
pub open spec fn dash() -> u8 {
    45
}

/// The rule of the protocol for ESDT token identifiers: a ticker of 3 to 10
/// upper-case letters or digits, a dash, and 6 lower-case letters or digits.
pub open spec fn spec_is_valid_esdt_identifier(id: Seq<u8>) -> bool {
    let n = id.len();
    &&& 10 <= n <= 17
    &&& forall|i: int| 0 <= i < n - 7 ==> is_upper(#[trigger] id[i]) || is_digit(id[i])
    &&& id[n - 7] == dash()
    &&& forall|i: int| n - 6 <= i < n ==> is_lower(#[trigger] id[i]) || is_digit(id[i])
}

/// Checks an ESDT token identifier with the protocol's own validation
/// (`multiversx_chain_core::token_identifier_util::validate_token_identifier`).
/// Its source checks a length between 10 and 17, an upper-case alphanumeric
/// ticker, a dash seven bytes from the end and six lower-case alphanumeric bytes
/// after it; that is what the contract states.
#[verifier::external_body]
pub(crate) fn is_valid_esdt_identifier(id: &Vec<u8>) -> (r: bool)
    ensures
        r == spec_is_valid_esdt_identifier(id@),
{
    multiversx_sc::chain_core::token_identifier_util::validate_token_identifier(id.as_slice())
}

/// The identifier under which EGLD travels in multi-token transfers: `EGLD-000000`.
pub open spec fn egld_id() -> Seq<u8> {
    seq![69u8, 71u8, 76u8, 68u8, 45u8, 48u8, 48u8, 48u8, 48u8, 48u8, 48u8]
}

/// The protocol's identifier for EGLD (`multiversx_chain_core::EGLD_000000_TOKEN_IDENTIFIER`),
/// whose source defines it as the string `EGLD-000000`.
#[verifier::external_body]
pub(crate) fn egld_token_identifier() -> (r: Vec<u8>)
    ensures
        r@ == egld_id(),
{
    multiversx_sc::chain_core::EGLD_000000_TOKEN_IDENTIFIER.as_bytes().to_vec()
}

/// Whether a token identifier names EGLD.
pub fn is_egld(id: &Vec<u8>) -> (r: bool)
    ensures
        r == (id@ == egld_id()),
{
    let egld = egld_token_identifier();
    crate::bytes::bytes_eq(id, &egld)
}

/// Whether an EGLD-or-ESDT identifier is valid: EGLD always is, an ESDT
/// identifier when it follows the protocol's rule.
pub open spec fn spec_is_valid_token_id(id: Seq<u8>) -> bool {
    id == egld_id() || spec_is_valid_esdt_identifier(id)
}

pub fn is_valid_token_id(id: &Vec<u8>) -> (r: bool)
    ensures
        r == spec_is_valid_token_id(id@),
{
    is_egld(id) || is_valid_esdt_identifier(id)
}

/// Number of dashes in a byte string.
pub open spec fn dash_count(s: Seq<u8>) -> nat
    decreases s.len(),
{
    if s.len() == 0 {
        0
    } else {
        dash_count(s.drop_last()) + if s.last() == dash() { 1nat } else { 0nat }
    }
}

/// A sovereign token identifier carries a chain prefix: exactly two dashes.
pub open spec fn spec_has_prefix(id: Seq<u8>) -> bool {
    dash_count(id) == 2
}

/// Longest token identifier that the prefix checks load.
pub const MAX_TOKEN_ID_LEN: usize = 32;

pub fn has_prefix(id: &Vec<u8>) -> (r: bool)
    requires
        id.len() <= MAX_TOKEN_ID_LEN,
    ensures
        r == spec_has_prefix(id@),
{
    let mut count: usize = 0;
    let mut i: usize = 0;
    while i < id.len()
        invariant
            i <= id.len(),
            id.len() <= MAX_TOKEN_ID_LEN,
            count == dash_count(id@.subrange(0, i as int)),
            count <= i,
        decreases id.len() - i,
    {
        assert(id@.subrange(0, i + 1).drop_last() =~= id@.subrange(0, i as int));
        if id[i] == 45u8 {
            count = count + 1;
        }
        i = i + 1;
    }
    assert(id@.subrange(0, id.len() as int) =~= id@);
    count == 2
}

/// A token identifier carries the prefix of chain `prefix`: it has a prefix and
/// the bytes before its first dash are `prefix`.
pub open spec fn spec_has_sov_prefix(id: Seq<u8>, prefix: Seq<u8>) -> bool {
    spec_has_prefix(id) && exists|i: int|
        0 <= i < id.len() && id[i] == dash() && (forall|j: int| 0 <= j < i ==> id[j] != dash())
            && id.subrange(0, i) == prefix
}

pub fn has_sov_prefix(id: &Vec<u8>, prefix: &Vec<u8>) -> (r: bool)
    requires
        id.len() <= MAX_TOKEN_ID_LEN,
    ensures
        r == spec_has_sov_prefix(id@, prefix@),
{
    if !has_prefix(id) {
        return false;
    }
    let mut i: usize = 0;
    while i < id.len()
        invariant
            i <= id.len(),
            spec_has_prefix(id@),
            forall|j: int| 0 <= j < i ==> id@[j] != dash(),
        decreases id.len() - i,
    {
        if id[i] == 45u8 {
            let mut head: Vec<u8> = Vec::new();
            let mut k: usize = 0;
            while k < i
                invariant
                    k <= i,
                    i < id.len(),
                    id@[i as int] == dash(),
                    forall|j: int| 0 <= j < i ==> id@[j] != dash(),
                    spec_has_prefix(id@),
                    head@ =~= id@.subrange(0, k as int),
                decreases i - k,
            {
                head.push(id[k]);
                k = k + 1;
            }
            let eq = crate::bytes::bytes_eq(&head, prefix);
            proof {
                assert forall|m: int|
                    0 <= m < id.len() && id@[m] == dash() && (forall|j: int| 0 <= j < m ==> id@[j] != dash())
                    implies m == i by {
                    if m < i {
                    } else if m > i {
                        assert(id@[i as int] == dash());
                    }
                }
                let ii = i as int;
                assert(id@[ii] == dash() && (forall|j: int| 0 <= j < ii ==> id@[j] != dash()));
                if eq {
                    assert(id@.subrange(0, ii) == prefix@);
                }
            }
            return eq;
        }
        i = i + 1;
    }
    false
}

/// Bytes allowed in a chain identifier: digits and lower-case letters.
pub open spec fn is_chain_id_char(c: u8) -> bool {
    is_digit(c) || is_lower(c)
}

pub open spec fn spec_is_chain_id_lowercase_alphanumeric(id: Seq<u8>) -> bool {
    forall|i: int| 0 <= i < id.len() ==> is_chain_id_char(#[trigger] id[i])
}

pub fn is_chain_id_lowercase_alphanumeric(id: &Vec<u8>) -> (r: bool)
    requires
        id.len() <= 4,
    ensures
        r == spec_is_chain_id_lowercase_alphanumeric(id@),
{
    let mut i: usize = 0;
    while i < id.len()
        invariant
            i <= id.len(),
            forall|j: int| 0 <= j < i ==> is_chain_id_char(#[trigger] id@[j]),
        decreases id.len() - i,
    {
        let c = id[i];
        if !((48u8 <= c && c <= 57u8) || (97u8 <= c && c <= 122u8)) {
            return false;
        }
        i = i + 1;
    }
    true
}

/// Shortest and longest chain identifier.
pub const MIN_PREFIX_LENGTH: usize = 1;
pub const MAX_PREFIX_LENGTH: usize = 4;

/// Checks a chain identifier: 1 to 4 bytes, all digits or lower-case letters.
pub fn validate_chain_id(id: &Vec<u8>) -> (r: Result<(), BridgeError>)
    ensures
        !(1 <= id.len() <= 4) ==> r == Err::<(), BridgeError>(BridgeError::InvalidChainId),
        (1 <= id.len() <= 4 && !spec_is_chain_id_lowercase_alphanumeric(id@))
            ==> r == Err::<(), BridgeError>(BridgeError::ChainIdNotLowercaseAlphanumeric),
        (1 <= id.len() <= 4 && spec_is_chain_id_lowercase_alphanumeric(id@)) ==> r is Ok,
{
    let n = id.len();
    if n < MIN_PREFIX_LENGTH || n > MAX_PREFIX_LENGTH {
        return Err(BridgeError::InvalidChainId);
    }
    if !is_chain_id_lowercase_alphanumeric(id) {
        return Err(BridgeError::ChainIdNotLowercaseAlphanumeric);
    }
    Ok(())
}

} // verus!
