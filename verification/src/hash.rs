//! The hash functions a key can be built on, and the digest primitive.

use crate::rows::{has_shape, lemma_deep_view_rows};
use vstd::prelude::*;

verus! {

/// A hash function with a fixed output length.
///
/// Two keys belong together only if they name the same algorithm; the algorithm is compared by
/// value.
#[derive(Clone, Copy, Debug, PartialEq, Eq, Hash, Structural)]
pub enum Algorithm {
    /// SHA-1, 160 bits of output.  Kept for interoperability only.
    Sha1,
    /// SHA-256, 256 bits of output.
    Sha256,
    /// SHA-384, 384 bits of output.
    Sha384,
    /// SHA-512, 512 bits of output.
    Sha512,
    /// SHA-512/256, 256 bits of output.
    Sha512_256,
}

impl Algorithm {
    /// Length of a digest in bytes.
    pub open spec fn digest_len(self) -> nat {
        match self {
            Algorithm::Sha1 => 20,
            Algorithm::Sha256 => 32,
            Algorithm::Sha384 => 48,
            Algorithm::Sha512 => 64,
            Algorithm::Sha512_256 => 32,
        }
    }

    /// Length of a digest in bits, which is also the number of positions of a key.
    pub open spec fn bit_len(self) -> nat {
        8 * self.digest_len()
    }

    /// Length of a digest in bytes.
    pub fn output_len(self) -> (len: usize)
        ensures
            len == self.digest_len(),
    {
        match self {
            Algorithm::Sha1 => 20,
            Algorithm::Sha256 => 32,
            Algorithm::Sha384 => 48,
            Algorithm::Sha512 => 64,
            Algorithm::Sha512_256 => 32,
        }
    }

    /// Length of a digest in bits.
    pub fn output_bits(self) -> (bits: usize)
        ensures
            bits == self.bit_len(),
    {
        8 * self.output_len()
    }
}

/// The longest input, in bytes, that the digest primitive takes: its bit length has to fit in 64
/// bits.
pub const MAX_INPUT_LEN: u64 = 0x1fff_ffff_ffff_ffff;

/// Whether `data` is short enough to be hashed.
pub open spec fn hashable(data: Seq<u8>) -> bool {
    data.len() <= MAX_INPUT_LEN
}

/// Whether every row of `rows` is short enough to be hashed.
pub open spec fn all_hashable(rows: Seq<Seq<u8>>) -> bool {
    forall|i: int| 0 <= i < rows.len() ==> hashable(#[trigger] rows[i])
}

/// Tests whether `data` is short enough to be hashed.
pub fn is_hashable(data: &[u8]) -> (ok: bool)
    ensures
        ok == hashable(data@),
{
    data.len() as u64 <= MAX_INPUT_LEN
}

/// Tests whether every row of `rows` is short enough to be hashed.
pub fn are_hashable(rows: &Vec<Vec<u8>>) -> (ok: bool)
    ensures
        ok == all_hashable(rows.deep_view()),
{
    let mut i: usize = 0;
    while i < rows.len()
        invariant
            i <= rows@.len(),
            forall|k: int| 0 <= k < rows@.len() ==> #[trigger] rows.deep_view()[k] == rows@[k]@,
            forall|k: int| 0 <= k < i ==> hashable(#[trigger] rows.deep_view()[k]),
        decreases rows@.len() - i,
    {
        if !is_hashable(rows[i].as_slice()) {
            assert(!hashable(rows.deep_view()[i as int]));
            return false;
        }
        i += 1;
    }
    true
}

/// The digest of `data` under `algorithm`.
///
/// Nothing is known of this function but what [`digest`] states: it is the mathematical function
/// that the hash implementation computes.
pub uninterp spec fn digest_of(algorithm: Algorithm, data: Seq<u8>) -> Seq<u8>;

/// The digests of the rows of `rows`, in order.
pub open spec fn digests_of(algorithm: Algorithm, rows: Seq<Seq<u8>>) -> Seq<Seq<u8>> {
    Seq::new(rows.len(), |i: int| digest_of(algorithm, rows[i]))
}

/// Hashes `data` with `ring::digest::digest`.
///
/// Trusted: the result is taken to be a function of the algorithm and of the input bytes alone,
/// named [`digest_of`], and to have the algorithm's output length.  `ring` refuses inputs of more
/// than [`MAX_INPUT_LEN`] bytes, which the precondition leaves out.
#[verifier::external_body]
pub(crate) fn digest(algorithm: Algorithm, data: &[u8]) -> (out: Vec<u8>)
    requires
        hashable(data@),
    ensures
        out@ == digest_of(algorithm, data@),
        out@.len() == algorithm.digest_len(),
{
    let outside: &'static ring::digest::Algorithm = match algorithm {
        Algorithm::Sha1 => &ring::digest::SHA1_FOR_LEGACY_USE_ONLY,
        Algorithm::Sha256 => &ring::digest::SHA256,
        Algorithm::Sha384 => &ring::digest::SHA384,
        Algorithm::Sha512 => &ring::digest::SHA512,
        Algorithm::Sha512_256 => &ring::digest::SHA512_256,
    };
    ring::digest::digest(outside, data).as_ref().to_vec()
}

/// Hashes every row of `rows`.
pub fn digest_rows(algorithm: Algorithm, rows: &Vec<Vec<u8>>) -> (out: Vec<Vec<u8>>)
    requires
        all_hashable(rows.deep_view()),
    ensures
        out.deep_view() == digests_of(algorithm, rows.deep_view()),
        has_shape(out.deep_view(), rows@.len(), algorithm.digest_len()),
{
    let mut out: Vec<Vec<u8>> = Vec::with_capacity(rows.len());
    let mut i: usize = 0;
    while i < rows.len()
        invariant
            i <= rows.len(),
            all_hashable(rows.deep_view()),
            out@.len() == i,
            forall|k: int| 0 <= k < i ==> (#[trigger] out@[k])@ == digest_of(algorithm, rows@[k]@),
            forall|k: int| 0 <= k < rows@.len() ==> #[trigger] rows.deep_view()[k] == rows@[k]@,
            forall|k: int| 0 <= k < i ==> (#[trigger] out@[k])@.len() == algorithm.digest_len(),
        decreases rows.len() - i,
    {
        assert(hashable(rows.deep_view()[i as int]));
        let row = digest(algorithm, rows[i].as_slice());
        out.push(row);
        i += 1;
    }
    proof {
        lemma_deep_view_rows(&out);
    }
    out
}

} // verus!
