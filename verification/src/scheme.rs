//! The rule at the heart of the scheme: the bits of a message digest choose, position by
//! position, between the two tables of a key.
//!
//! The functions here work on plain tables and digests of any size, so that the rule can be
//! stated and tried apart from keys and hash functions.

use crate::rows::{bytes_equal, copy_bytes, lemma_deep_view_rows};
use vstd::arithmetic::power2::{lemma2_to64, pow2};
use vstd::prelude::*;

verus! {

/// Whether bit `j` of `byte` is set, bit 0 being the least significant one.
pub open spec fn bit_is_set(byte: u8, j: nat) -> bool {
    byte & (1u8 << j) != 0
}

/// Bit `j` of a byte is the digit of weight `2^j` in its binary notation.
pub proof fn lemma_bit_is_binary_digit(byte: u8, j: nat)
    requires
        j < 8,
    ensures
        bit_is_set(byte, j) <==> (byte as nat / pow2(j)) % 2 == 1,
{
    lemma2_to64();
    if j == 0 {
        assert(byte & (1u8 << 0u8) != 0 <==> (byte / 1u8) % 2 == 1) by (bit_vector);
    } else if j == 1 {
        assert(byte & (1u8 << 1u8) != 0 <==> (byte / 2u8) % 2 == 1) by (bit_vector);
    } else if j == 2 {
        assert(byte & (1u8 << 2u8) != 0 <==> (byte / 4u8) % 2 == 1) by (bit_vector);
    } else if j == 3 {
        assert(byte & (1u8 << 3u8) != 0 <==> (byte / 8u8) % 2 == 1) by (bit_vector);
    } else if j == 4 {
        assert(byte & (1u8 << 4u8) != 0 <==> (byte / 16u8) % 2 == 1) by (bit_vector);
    } else if j == 5 {
        assert(byte & (1u8 << 5u8) != 0 <==> (byte / 32u8) % 2 == 1) by (bit_vector);
    } else if j == 6 {
        assert(byte & (1u8 << 6u8) != 0 <==> (byte / 64u8) % 2 == 1) by (bit_vector);
    } else {
        assert(byte & (1u8 << 7u8) != 0 <==> (byte / 128u8) % 2 == 1) by (bit_vector);
    }
}

/// Bit `i` of a digest: bit `i % 8` of byte `i / 8`.
pub open spec fn digest_bit(digest: Seq<u8>, i: int) -> bool {
    bit_is_set(digest[i / 8], (i % 8) as nat)
}

/// For every position of a key, the row of `one` where the digest's bit is set and the row of
/// `zero` where it is clear.
///
/// Applied to the tables of a private key this is the signature of the digested message; applied
/// to the tables of a public key it is what the digests of a valid signature must equal.
pub open spec fn select(zero: Seq<Seq<u8>>, one: Seq<Seq<u8>>, digest: Seq<u8>) -> Seq<Seq<u8>> {
    Seq::new(zero.len(), |i: int| if digest_bit(digest, i) { one[i] } else { zero[i] })
}

/// Reads bit `i` of `digest`.
pub fn bit_at(digest: &[u8], i: usize) -> (set: bool)
    requires
        i < 8 * digest@.len(),
    ensures
        set == digest_bit(digest@, i as int),
{
    let byte = digest[i / 8];
    let j: u8 = (i % 8) as u8;
    (byte & (1u8 << j)) != 0
}

/// Copies out, for every position, the row that the digest's bit chooses.
pub fn select_rows(zero: &Vec<Vec<u8>>, one: &Vec<Vec<u8>>, digest: &[u8]) -> (out: Vec<Vec<u8>>)
    requires
        zero@.len() == one@.len(),
        zero@.len() == 8 * digest@.len(),
    ensures
        out.deep_view() == select(zero.deep_view(), one.deep_view(), digest@),
{
    let mut out: Vec<Vec<u8>> = Vec::with_capacity(zero.len());
    let mut i: usize = 0;
    while i < zero.len()
        invariant
            i <= zero@.len(),
            zero@.len() == one@.len(),
            zero@.len() == 8 * digest@.len(),
            out@.len() == i,
            forall|k: int| 0 <= k < zero@.len() ==> #[trigger] zero.deep_view()[k] == zero@[k]@,
            forall|k: int| 0 <= k < one@.len() ==> #[trigger] one.deep_view()[k] == one@[k]@,
            forall|k: int|
                0 <= k < i ==> (#[trigger] out@[k])@ == select(
                    zero.deep_view(),
                    one.deep_view(),
                    digest@,
                )[k],
        decreases zero@.len() - i,
    {
        let row = if bit_at(digest, i) {
            copy_bytes(one[i].as_slice())
        } else {
            copy_bytes(zero[i].as_slice())
        };
        out.push(row);
        i += 1;
    }
    out
}

/// Whether `rows` is, position by position, what the digest's bits choose from `zero` and `one`.
pub fn rows_match(
    zero: &Vec<Vec<u8>>,
    one: &Vec<Vec<u8>>,
    digest: &[u8],
    rows: &Vec<Vec<u8>>,
) -> (ok: bool)
    requires
        zero@.len() == one@.len(),
        zero@.len() == 8 * digest@.len(),
    ensures
        ok == (rows.deep_view() == select(zero.deep_view(), one.deep_view(), digest@)),
{
    proof {
        lemma_deep_view_rows(rows);
    }
    if rows.len() != zero.len() {
        return false;
    }
    let mut i: usize = 0;
    while i < rows.len()
        invariant
            i <= rows@.len(),
            rows@.len() == zero@.len(),
            zero@.len() == one@.len(),
            zero@.len() == 8 * digest@.len(),
            forall|k: int| 0 <= k < zero@.len() ==> #[trigger] zero.deep_view()[k] == zero@[k]@,
            forall|k: int| 0 <= k < one@.len() ==> #[trigger] one.deep_view()[k] == one@[k]@,
            forall|k: int| 0 <= k < rows@.len() ==> #[trigger] rows.deep_view()[k] == rows@[k]@,
            forall|k: int|
                0 <= k < i ==> rows@[k]@ == #[trigger] select(
                    zero.deep_view(),
                    one.deep_view(),
                    digest@,
                )[k],
        decreases rows@.len() - i,
    {
        let chosen = if bit_at(digest, i) {
            one[i].as_slice()
        } else {
            zero[i].as_slice()
        };
        if !bytes_equal(rows[i].as_slice(), chosen) {
            assert(rows.deep_view()[i as int] != select(
                zero.deep_view(),
                one.deep_view(),
                digest@,
            )[i as int]);
            return false;
        }
        i += 1;
    }
    assert(rows.deep_view() =~= select(zero.deep_view(), one.deep_view(), digest@));
    true
}

} // verus!
