use vstd::prelude::*;
use crate::bytes::{copy_bytes, str_bytes};
use crate::logs::ascii_bytes;
use crate::token::{egld_id, egld_token_identifier};
use crate::types::{Amount, Payment, PaymentView, payments_view};

verus! {

/// Who sends a bridge-operation registration in a test: the owner, or the
/// enshrined ESDT-Safe.
#[derive(Clone, Copy, Debug, PartialEq, Eq, Structural)]
pub enum CallerAddress {
    Owner,
    Enshrine,
}

impl CallerAddress {
    /// The address the registration is sent from.
    pub fn from_address(&self, owner: &Vec<u8>, enshrine: &Vec<u8>) -> (r: Vec<u8>)
        ensures
            *self == CallerAddress::Owner ==> r@ == owner@,
            *self == CallerAddress::Enshrine ==> r@ == enshrine@,
    {
        match self {
            CallerAddress::Enshrine => copy_bytes(enshrine),
            CallerAddress::Owner => copy_bytes(owner),
        }
    }
}

/// What `String::from_utf8_lossy` makes of `bytes`.
pub uninterp spec fn utf8_lossy(bytes: Seq<u8>) -> Seq<char>;

/// Whether every byte is ASCII.
pub open spec fn all_ascii(bytes: Seq<u8>) -> bool {
    forall|i: int| 0 <= i < bytes.len() ==> #[trigger] bytes[i] < 128
}

/// Decodes bytes as UTF-8, replacing invalid sequences (`String::from_utf8_lossy`).
/// The contract names the result and states what std documents of valid
/// input: ASCII bytes come back as the same characters.
#[verifier::external_body]
pub(crate) fn from_utf8_lossy(bytes: &Vec<u8>) -> (r: String)
    ensures
        r@ == utf8_lossy(bytes@),
        all_ascii(bytes@) ==> r@ == bytes@.map_values(|b: u8| b as char),
{
    String::from_utf8_lossy(bytes.as_slice()).into_owned()
}

/// Turns the payload of a failed call into the text of its error.
pub trait ErrorPayloadToString {
    fn to_error_string(self) -> String;
}

impl ErrorPayloadToString for Vec<u8> {
    fn to_error_string(self) -> (r: String)
        ensures
            r@ == utf8_lossy(self@),
            all_ascii(self@) ==> r@ == self@.map_values(|b: u8| b as char),
    {
        from_utf8_lossy(&self)
    }
}

/// Whether bit `b` (0 is the least significant) of `byte` is set.
pub open spec fn bit_of(byte: u8, b: int) -> bool {
    (byte >> (b as u8)) & 1u8 == 1u8
}

/// Whether validator `i` is marked in a bitmap: bit `i % 8` of byte `i / 8`.
pub open spec fn bitmap_bit(bitmap: Seq<u8>, i: int) -> bool {
    bit_of(bitmap[i / 8], i % 8)
}

proof fn lemma_set_bit(x: u8, b: u8, c: u8)
    by (bit_vector)
    requires
        b < 8,
        c < 8,
    ensures
        (((x | (1u8 << b)) >> c) & 1u8 == 1u8) == (c == b || ((x >> c) & 1u8 == 1u8)),
{
}

proof fn lemma_zero_bits(c: u8)
    by (bit_vector)
    requires
        c < 8,
    ensures
        ((0u8 >> c) & 1u8) != 1u8,
{
}

/// Sets bit `index` of the bitmap.
fn set_bitmap_bit(bitmap: &mut Vec<u8>, index: u64)
    requires
        index / 8 < old(bitmap).len(),
    ensures
        final(bitmap).len() == old(bitmap).len(),
        forall|i: int| 0 <= i < 8 * old(bitmap).len() ==>
            #[trigger] bitmap_bit(final(bitmap)@, i) == (i == index || bitmap_bit(old(bitmap)@, i)),
{
    let byte_index = (index / 8) as usize;
    let bit_index = (index % 8) as u8;
    let old_byte = bitmap[byte_index];
    bitmap.set(byte_index, old_byte | (1u8 << bit_index));
    proof {
        assert forall|i: int| 0 <= i < 8 * old(bitmap).len() implies
            #[trigger] bitmap_bit(bitmap@, i) == (i == index || bitmap_bit(old(bitmap)@, i)) by {
            let c = (i % 8) as u8;
            if i / 8 == byte_index as int {
                lemma_set_bit(old_byte, bit_index, c);
                assert(i == index <==> c == bit_index);
            }
        }
    }
}

/// A bitmap of `len` zero bytes.
fn zero_bitmap(len: usize) -> (r: Vec<u8>)
    ensures
        r.len() == len,
        forall|i: int| 0 <= i < 8 * len ==> !#[trigger] bitmap_bit(r@, i),
{
    let mut r: Vec<u8> = Vec::new();
    let mut k: usize = 0;
    while k < len
        invariant
            k <= len,
            r.len() == k,
            forall|j: int| 0 <= j < k ==> r@[j] == 0u8,
        decreases len - k,
    {
        r.push(0u8);
        k = k + 1;
    }
    proof {
        assert forall|i: int| 0 <= i < 8 * len implies !#[trigger] bitmap_bit(r@, i) by {
            lemma_zero_bits((i % 8) as u8);
        }
    }
    r
}

/// The bitmap in which the first `num_of_validators` validators have signed:
/// as many bytes as eight bits per byte need, and exactly those bits set.
pub fn full_bitmap(num_of_validators: u64) -> (r: Vec<u8>)
    requires
        num_of_validators / 8 < usize::MAX,
    ensures
        r.len() == (num_of_validators + 7) / 8,
        forall|i: int| 0 <= i < 8 * r.len() ==> #[trigger] bitmap_bit(r@, i) == (i < num_of_validators),
{
    let byte_len: usize = (num_of_validators / 8) as usize + if num_of_validators % 8 == 0 { 0usize } else { 1usize };
    let mut bitmap = zero_bitmap(byte_len);
    let mut index: u64 = 0;
    while index < num_of_validators
        invariant
            bitmap.len() == byte_len,
            byte_len == (num_of_validators + 7) / 8,
            index <= num_of_validators,
            forall|i: int| 0 <= i < 8 * byte_len ==> #[trigger] bitmap_bit(bitmap@, i) == (i < index),
        decreases num_of_validators - index,
    {
        set_bitmap_bit(&mut bitmap, index);
        index = index + 1;
    }
    bitmap
}

/// Whether `v` occurs in `indices`.
pub open spec fn has_index(indices: Seq<u64>, v: int) -> bool {
    exists|k: int| 0 <= k < indices.len() && indices[k] == v
}

/// The bitmap in which exactly the listed validators have signed: empty for
/// no validators, else as many bytes as the largest index needs.
pub fn bitmap_for_signers(validator_indices: &Vec<u64>) -> (r: Vec<u8>)
    requires
        forall|k: int| 0 <= k < validator_indices.len() ==> #[trigger] validator_indices@[k] / 8 < usize::MAX,
    ensures
        validator_indices.len() == 0 ==> r.len() == 0,
        validator_indices.len() > 0 ==> exists|k: int| 0 <= k < validator_indices.len()
            && r.len() == #[trigger] validator_indices@[k] / 8 + 1,
        forall|k: int| 0 <= k < validator_indices.len() ==> #[trigger] validator_indices@[k] / 8 < r.len(),
        forall|i: int| 0 <= i < 8 * r.len() ==> #[trigger] bitmap_bit(r@, i) == has_index(validator_indices@, i),
{
    if validator_indices.len() == 0 {
        return Vec::new();
    }
    let mut max_index: u64 = validator_indices[0];
    let mut k: usize = 1;
    while k < validator_indices.len()
        invariant
            1 <= k <= validator_indices.len(),
            exists|x: int| 0 <= x < k && max_index == #[trigger] validator_indices@[x],
            forall|x: int| 0 <= x < k ==> #[trigger] validator_indices@[x] <= max_index,
        decreases validator_indices.len() - k,
    {
        if validator_indices[k] > max_index {
            max_index = validator_indices[k];
        }
        k = k + 1;
    }
    let byte_len: usize = (max_index / 8) as usize + 1;
    let mut bitmap = zero_bitmap(byte_len);
    let mut j: usize = 0;
    while j < validator_indices.len()
        invariant
            bitmap.len() == byte_len,
            byte_len == max_index / 8 + 1,
            j <= validator_indices.len(),
            forall|x: int| 0 <= x < validator_indices.len() ==> #[trigger] validator_indices@[x] <= max_index,
            forall|i: int| 0 <= i < 8 * byte_len ==> #[trigger] bitmap_bit(bitmap@, i)
                == has_index(validator_indices@.subrange(0, j as int), i),
        decreases validator_indices.len() - j,
    {
        let index = validator_indices[j];
        set_bitmap_bit(&mut bitmap, index);
        proof {
            let prev = validator_indices@.subrange(0, j as int);
            let cur = validator_indices@.subrange(0, j + 1);
            assert forall|i: int| 0 <= i < 8 * byte_len implies #[trigger] bitmap_bit(bitmap@, i)
                == has_index(cur, i) by {
                if has_index(prev, i) {
                    let x = choose|x: int| 0 <= x < prev.len() && prev[x] == i;
                    assert(cur[x] == i);
                }
                if has_index(cur, i) && i != index {
                    let x = choose|x: int| 0 <= x < cur.len() && cur[x] == i;
                    assert(prev[x] == i);
                }
                assert(cur[j as int] == index);
            }
        }
        j = j + 1;
    }
    assert(validator_indices@.subrange(0, validator_indices.len() as int) =~= validator_indices@);
    bitmap
}

/// How many of the first `k` bits of `byte` are set.
pub open spec fn bits_below(byte: u8, k: int) -> nat
    decreases k,
{
    if k <= 0 {
        0
    } else {
        bits_below(byte, k - 1) + if bit_of(byte, k - 1) { 1nat } else { 0nat }
    }
}

/// How many bits of the bitmap are set.
pub open spec fn count_set_bits(bitmap: Seq<u8>) -> nat
    decreases bitmap.len(),
{
    if bitmap.len() == 0 {
        0
    } else {
        count_set_bits(bitmap.drop_last()) + bits_below(bitmap.last(), 8)
    }
}

/// The number of signers a bitmap stands for: its set bits, at least one.
pub open spec fn signer_count(bitmap: Seq<u8>) -> nat {
    if count_set_bits(bitmap) == 0 { 1 } else { count_set_bits(bitmap) }
}

fn count_ones(byte: u8) -> (r: usize)
    ensures
        r == bits_below(byte, 8),
        r <= 8,
{
    let mut count: usize = 0;
    let mut b: u8 = 0;
    while b < 8
        invariant
            b <= 8,
            count == bits_below(byte, b as int),
            count <= b,
        decreases 8 - b,
    {
        if (byte >> b) & 1u8 == 1u8 {
            count = count + 1;
        }
        b = b + 1;
    }
    count
}

/// The number of validators that signed according to the bitmap, one at least.
pub fn calculate_signer_count(bitmap: &Vec<u8>) -> (r: usize)
    requires
        8 * bitmap.len() <= usize::MAX,
    ensures
        r == signer_count(bitmap@),
{
    let mut total: usize = 0;
    let mut j: usize = 0;
    while j < bitmap.len()
        invariant
            8 * bitmap.len() <= usize::MAX,
            j <= bitmap.len(),
            total == count_set_bits(bitmap@.subrange(0, j as int)),
            total <= 8 * j,
        decreases bitmap.len() - j,
    {
        let ones = count_ones(bitmap[j]);
        proof {
            let cur = bitmap@.subrange(0, j + 1);
            assert(cur.drop_last() =~= bitmap@.subrange(0, j as int));
            assert(cur.last() == bitmap@[j as int]);
        }
        total = total + ones;
        j = j + 1;
    }
    assert(bitmap@.subrange(0, bitmap.len() as int) =~= bitmap@);
    if total == 0 { 1 } else { total }
}

/// How many of the first `m` validator positions are marked.
pub open spec fn positions_set(bitmap: Seq<u8>, m: int) -> nat
    decreases m,
{
    if m <= 0 {
        0
    } else {
        positions_set(bitmap, m - 1) + if bitmap_bit(bitmap, m - 1) { 1nat } else { 0nat }
    }
}

proof fn lemma_byte_positions(b: Seq<u8>, j: int, k: int)
    requires
        0 <= j < b.len(),
        0 <= k <= 8,
    ensures
        positions_set(b, 8 * j + k) == positions_set(b, 8 * j) + bits_below(b[j], k),
    decreases k,
{
    if k > 0 {
        lemma_byte_positions(b, j, k - 1);
        assert((8 * j + k - 1) / 8 == j);
        assert((8 * j + k - 1) % 8 == k - 1);
    }
}

proof fn lemma_positions_prefix(p: Seq<u8>, b: Seq<u8>, m: int)
    requires
        p.len() <= b.len(),
        forall|j: int| 0 <= j < p.len() ==> p[j] == b[j],
        0 <= m <= 8 * p.len(),
    ensures
        positions_set(p, m) == positions_set(b, m),
    decreases m,
{
    if m > 0 {
        lemma_positions_prefix(p, b, m - 1);
        assert((m - 1) / 8 < p.len());
    }
}

proof fn lemma_count_is_positions(b: Seq<u8>)
    ensures
        count_set_bits(b) == positions_set(b, 8 * b.len() as int),
    decreases b.len(),
{
    if b.len() > 0 {
        let p = b.drop_last();
        lemma_count_is_positions(p);
        lemma_positions_prefix(p, b, 8 * p.len() as int);
        lemma_byte_positions(b, p.len() as int, 8);
    }
}

proof fn lemma_positions_below(b: Seq<u8>, n: int, m: int)
    requires
        0 <= m <= 8 * b.len(),
        0 <= n,
        forall|i: int| 0 <= i < 8 * b.len() ==> #[trigger] bitmap_bit(b, i) == (i < n),
    ensures
        positions_set(b, m) == if m < n { m } else { n },
    decreases m,
{
    if m > 0 {
        lemma_positions_below(b, n, m - 1);
    }
}

/// A full bitmap of `n` validators stands for all of them (one at least, when
/// there are none): every bitmap with the bits of the first `n` positions set
/// and no others, over as many bytes as they need, counts `n` signers.
pub proof fn lemma_full_bitmap_signer_count(bitmap: Seq<u8>, n: u64)
    requires
        bitmap.len() == (n + 7) / 8,
        forall|i: int| 0 <= i < 8 * bitmap.len() ==> #[trigger] bitmap_bit(bitmap, i) == (i < n),
    ensures
        count_set_bits(bitmap) == n,
        signer_count(bitmap) == if n == 0 { 1 } else { n as nat },
{
    lemma_count_is_positions(bitmap);
    lemma_positions_below(bitmap, n as int, 8 * bitmap.len() as int);
}

/// The test token that validators stake besides EGLD.
pub open spec fn first_test_token() -> Seq<u8> {
    ascii_bytes("GREEN-0e161c"@)
}

fn first_test_token_bytes() -> (r: Vec<u8>)
    ensures
        r@ == first_test_token(),
{
    proof {
        reveal_strlit("GREEN-0e161c");
    }
    str_bytes("GREEN-0e161c")
}

/// A stake of `amount` EGLD and `amount` of the test token.
pub fn combined_stake_payments(amount: Amount) -> (r: Vec<Payment>)
    ensures
        payments_view(r@) == seq![
            PaymentView { token_id: egld_id(), nonce: 0, amount },
            PaymentView { token_id: first_test_token(), nonce: 0, amount },
        ],
{
    let mut payments: Vec<Payment> = Vec::new();
    payments.push(Payment::new(egld_token_identifier(), 0, amount));
    payments.push(Payment::new(first_test_token_bytes(), 0, amount));
    assert(payments_view(payments@) =~= seq![
        PaymentView { token_id: egld_id(), nonce: 0, amount },
        PaymentView { token_id: first_test_token(), nonce: 0, amount },
    ]);
    payments
}

/// A stake of `amount` of the test token alone.
pub fn single_token_payment(amount: Amount) -> (r: Vec<Payment>)
    ensures
        payments_view(r@) == seq![PaymentView { token_id: first_test_token(), nonce: 0, amount }],
{
    let mut payments: Vec<Payment> = Vec::new();
    payments.push(Payment::new(first_test_token_bytes(), 0, amount));
    assert(payments_view(payments@) =~= seq![PaymentView { token_id: first_test_token(), nonce: 0, amount }]);
    payments
}

/// The freshly signed key that replaces validator `validator_id`'s key in a
/// test: the key at position `validator_id - 1` (0 for the first identifiers),
/// when there is one.
pub fn replacement_bls_key(validator_id: u64, pub_keys: &Vec<Vec<u8>>) -> (r: Option<Vec<u8>>)
    ensures
        ({
            let target = if validator_id == 0 { 0 } else { validator_id - 1 };
            &&& target < pub_keys.len() ==> (r matches Some(k) && k@ == pub_keys@[target as int]@)
            &&& target >= pub_keys.len() ==> r is None
        }),
{
    let target = validator_id.saturating_sub(1);
    if target < pub_keys.len() as u64 {
        Some(copy_bytes(&pub_keys[target as usize]))
    } else {
        None
    }
}

/// The counter of bridge-operation nonces that a test world hands out.
pub struct OperationNonces {
    pub operation_nonce: u64,
}

impl OperationNonces {
    /// The next nonce to hand out.
    pub fn operation_nonce(&self) -> (r: u64)
        ensures
            r == self.operation_nonce,
    {
        self.operation_nonce
    }

    /// Hands out the next nonce.
    pub fn next_operation_nonce(&mut self) -> (r: u64)
        requires
            old(self).operation_nonce < u64::MAX,
        ensures
            r == old(self).operation_nonce,
            final(self).operation_nonce == r + 1,
    {
        let nonce = self.operation_nonce;
        self.operation_nonce = self.operation_nonce + 1;
        nonce
    }
}

} // verus!
