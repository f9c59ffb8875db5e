//! Checks on a contract account's storage as the chain reports it: keys and
//! values written in hexadecimal, shown decoded in the check's messages.

use vstd::prelude::*;
use vstd::utf8::{decode_utf8, valid_utf8};
use crate::bytes::copy_bytes;
use crate::common_utils::opt_view;
use crate::logs::{contains_window, has_window};

verus! {

/// The value of one hexadecimal digit (either case), if `c` is one.
pub open spec fn hex_digit_value(c: u8) -> Option<u8> {
    if 48 <= c <= 57 {
        Some((c - 48) as u8)
    } else if 97 <= c <= 102 {
        Some((c - 97 + 10) as u8)
    } else if 65 <= c <= 70 {
        Some((c - 65 + 10) as u8)
    } else {
        None
    }
}

/// The bytes that a hexadecimal text stands for: two digits per byte, the
/// high half first; none for a text of odd length or with a non-digit.
pub open spec fn hex_decoded(s: Seq<u8>) -> Option<Seq<u8>> {
    if s.len() % 2 == 0 && forall|i: int| 0 <= i < s.len() ==> (#[trigger] hex_digit_value(s[i])) is Some {
        Some(Seq::new(
            (s.len() / 2) as nat,
            |i: int| (hex_digit_value(s[2 * i])->0 * 16 + hex_digit_value(s[2 * i + 1])->0) as u8,
        ))
    } else {
        None
    }
}

/// Hexadecimal decoding (`hex::decode`): the bytes that `s` stands for, or
/// `None` where the crate reports an odd length or an invalid character.
#[verifier::external_body]
pub(crate) fn hex_decode(s: &Vec<u8>) -> (r: Option<Vec<u8>>)
    ensures
        opt_view(r) == hex_decoded(s@),
{
    hex::decode(s).ok()
}

/// UTF-8 decoding (`String::from_utf8`): the text that `bytes` encode, or
/// `None` where they are not valid UTF-8.
#[verifier::external_body]
pub(crate) fn utf8_decode(bytes: Vec<u8>) -> (r: Option<String>)
    ensures
        (r is Some) == valid_utf8(bytes@),
        r matches Some(t) ==> t@ == decode_utf8(bytes@),
{
    String::from_utf8(bytes).ok()
}

/// Whether `s` is a hexadecimal text.
pub fn is_hex(s: &Vec<u8>) -> (r: bool)
    ensures
        r == hex_decoded(s@) is Some,
{
    hex_decode(s).is_some()
}

/// The text that a hexadecimal string stands for, if it stands for valid UTF-8.
pub open spec fn decoded_text(hex: Seq<u8>) -> Option<Seq<char>> {
    match hex_decoded(hex) {
        Some(b) => if valid_utf8(b) { Some(decode_utf8(b)) } else { None },
        None => None,
    }
}

/// The text that a hexadecimal string stands for, or `None` where it is not
/// hexadecimal or does not decode to UTF-8.
pub fn try_decode_from_hex(hex_string: &Vec<u8>) -> (r: Option<String>)
    ensures
        r is Some == decoded_text(hex_string@) is Some,
        r matches Some(t) ==> decoded_text(hex_string@) == Some(t@),
{
    match hex_decode(hex_string) {
        Some(bytes) => utf8_decode(bytes),
        None => None,
    }
}

/// The text that a hexadecimal string stands for.
pub fn decode_from_hex(hex_string: &Vec<u8>) -> (r: String)
    requires
        decoded_text(hex_string@) is Some,
    ensures
        decoded_text(hex_string@) == Some(r@),
{
    match try_decode_from_hex(hex_string) {
        Some(t) => t,
        None => String::new(),
    }
}

/// Whether `needle` occurs in `hay`; an empty needle occurs everywhere.
pub fn text_contains(hay: &Vec<u8>, needle: &Vec<u8>) -> (r: bool)
    ensures
        r == has_window(hay@, needle@),
{
    if needle.len() == 0 {
        assert(hay@.subrange(0int, 0int + needle@.len()) =~= needle@);
        true
    } else {
        contains_window(hay, needle)
    }
}

/// The storage pairs as byte sequences.
pub open spec fn pairs_view(pairs: Seq<(Vec<u8>, Vec<u8>)>) -> Seq<(Seq<u8>, Seq<u8>)> {
    pairs.map_values(|p: (Vec<u8>, Vec<u8>)| (p.0@, p.1@))
}

/// The first entry whose key contains `wanted`.
pub open spec fn first_key_containing(pairs: Seq<(Seq<u8>, Seq<u8>)>, wanted: Seq<u8>) -> Option<int> {
    if exists|i: int| 0 <= i < pairs.len() && has_window(#[trigger] pairs[i].0, wanted) {
        Some(choose|i: int| 0 <= i < pairs.len() && has_window(pairs[i].0, wanted)
            && forall|j: int| 0 <= j < i ==> !has_window(#[trigger] pairs[j].0, wanted))
    } else {
        None
    }
}

/// Finds the first entry whose key contains `wanted`.
pub fn find_key_containing(pairs: &Vec<(Vec<u8>, Vec<u8>)>, wanted: &Vec<u8>) -> (r: Option<usize>)
    ensures
        match first_key_containing(pairs_view(pairs@), wanted@) {
            Some(i) => r matches Some(j) && j == i,
            None => r is None,
        },
        r matches Some(i) ==> i < pairs.len(),
{
    let ghost pv = pairs_view(pairs@);
    let mut i: usize = 0;
    while i < pairs.len()
        invariant
            i <= pairs.len(),
            pv == pairs_view(pairs@),
            pv.len() == pairs.len(),
            forall|j: int| 0 <= j < i ==> !has_window(#[trigger] pv[j].0, wanted@),
        decreases pairs.len() - i,
    {
        assert(pv[i as int].0 == pairs@[i as int].0@);
        if text_contains(&pairs[i].0, wanted) {
            proof {
                assert(has_window(pv[i as int].0, wanted@));
                let k = first_key_containing(pv, wanted@)->0;
                assert(has_window(pv[k].0, wanted@));
                if k < i {
                    assert(!has_window(pv[k].0, wanted@));
                }
                if i < k {
                    assert(!has_window(pv[i as int].0, wanted@));
                }
            }
            return Some(i);
        }
        i = i + 1;
    }
    proof {
        assert forall|j: int| 0 <= j < pv.len() implies !has_window(#[trigger] pv[j].0, wanted@) by {}
    }
    None
}

/// Why an account's storage does not look as expected. Keys and values are
/// given as the chain reports them (hexadecimal) and decoded.
pub enum StorageCheckError {
    /// No key contains the wanted key.
    MissingKey { wanted_key: Vec<u8>, decoded_key: String },
    /// The value of the first key that contains the wanted key does not
    /// contain the expected value.
    ValueMismatch { expected: Vec<u8>, decoded_expected: String, value: Vec<u8>, decoded_value: String },
    /// A key contains the wanted key, where none should.
    UnexpectedKey { wanted_key: Vec<u8>, decoded_key: String },
}

/// What an account-storage check requires of its texts: the wanted key
/// decodes, and where an expected value is compared with a found entry, both
/// decode too.
pub open spec fn storage_check_decodable(pairs: Seq<(Seq<u8>, Seq<u8>)>, wanted_key: Seq<u8>, expected_value: Option<Seq<u8>>) -> bool {
    &&& decoded_text(wanted_key) is Some
    &&& (expected_value matches Some(e) && first_key_containing(pairs, wanted_key) matches Some(i)
        ==> decoded_text(e) is Some && decoded_text(pairs[i].1) is Some)
}

/// Checks an account's storage (`pairs`, in the order given): with an
/// expected value, the first key that contains `wanted_key` must exist and
/// its value must contain the expected value; without one, no key may
/// contain `wanted_key`.
pub fn check_account_storage(pairs: &Vec<(Vec<u8>, Vec<u8>)>, wanted_key: &Vec<u8>, expected_value: &Option<Vec<u8>>) -> (r: Result<(), StorageCheckError>)
    requires
        storage_check_decodable(pairs_view(pairs@), wanted_key@, opt_view(*expected_value)),
    ensures
        ({
            let pv = pairs_view(pairs@);
            match expected_value {
                Some(e) => match first_key_containing(pv, wanted_key@) {
                    None => r matches Err(StorageCheckError::MissingKey { wanted_key: w, decoded_key: d })
                        && w@ == wanted_key@ && decoded_text(wanted_key@) == Some(d@),
                    Some(i) => if has_window(pv[i].1, e@) {
                        r is Ok
                    } else {
                        r matches Err(StorageCheckError::ValueMismatch { expected: x, decoded_expected: dx, value: v, decoded_value: dv })
                            && x@ == e@ && v@ == pv[i].1
                            && decoded_text(e@) == Some(dx@) && decoded_text(pv[i].1) == Some(dv@)
                    },
                },
                None => match first_key_containing(pv, wanted_key@) {
                    None => r is Ok,
                    Some(i) => r matches Err(StorageCheckError::UnexpectedKey { wanted_key: w, decoded_key: d })
                        && w@ == wanted_key@ && decoded_text(wanted_key@) == Some(d@),
                },
            }
        }),
{
    let ghost pv = pairs_view(pairs@);
    let found = find_key_containing(pairs, wanted_key);
    let decoded_key = decode_from_hex(wanted_key);
    match expected_value {
        Some(expected) => match found {
            None => Err(StorageCheckError::MissingKey { wanted_key: copy_bytes(wanted_key), decoded_key }),
            Some(i) => {
                let value = &pairs[i].1;
                assert(pv[i as int].1 == value@);
                let decoded_expected = decode_from_hex(expected);
                let decoded_value = decode_from_hex(value);
                if text_contains(value, expected) {
                    Ok(())
                } else {
                    Err(StorageCheckError::ValueMismatch {
                        expected: copy_bytes(expected),
                        decoded_expected,
                        value: copy_bytes(value),
                        decoded_value,
                    })
                }
            },
        },
        None => match found {
            None => Ok(()),
            Some(_) => Err(StorageCheckError::UnexpectedKey { wanted_key: copy_bytes(wanted_key), decoded_key }),
        },
    }
}

} // verus!
