//! The public half of a one-time key: the digests of the private key's preimages.

use crate::encoding::{
    append_rows, chunks, lemma_flatten_of_chunks, lemma_flatten_shape, split_rows,
};
use crate::hash::{
    all_hashable, are_hashable, digest, digest_of, digest_rows, digests_of, hashable, is_hashable,
    Algorithm,
};
use crate::rows::{copy_rows, has_shape, rows_equal};
use crate::scheme::{digest_bit, rows_match, select};
use vstd::prelude::*;
use vstd::std_specs::cmp::PartialEqSpecImpl;
use vstd::std_specs::convert::FromSpecImpl;

verus! {

/// A signature: one revealed preimage for every bit of the message digest.
pub type LamportSignatureData = Vec<Vec<u8>>;

/// What a public key is: two tables of digests and the hash function they were made with.
pub struct PublicKeyView {
    /// The digests that answer a clear bit, one for every bit position.
    pub zero_values: Seq<Seq<u8>>,
    /// The digests that answer a set bit, one for every bit position.
    pub one_values: Seq<Seq<u8>>,
    /// The hash function of the key.
    pub algorithm: Algorithm,
}

impl PublicKeyView {
    /// Both tables hold one digest for every bit of a digest, each of the algorithm's output
    /// length.
    pub open spec fn wf(self) -> bool {
        &&& has_shape(self.zero_values, self.algorithm.bit_len(), self.algorithm.digest_len())
        &&& has_shape(self.one_values, self.algorithm.bit_len(), self.algorithm.digest_len())
    }

    /// The digest that the key holds at position `i` for the bit of `digest` there: that of
    /// `one_values` where the bit is set, that of `zero_values` where it is clear.
    pub open spec fn expected(self, digest: Seq<u8>, i: int) -> Seq<u8> {
        if digest_bit(digest, i) {
            self.one_values[i]
        } else {
            self.zero_values[i]
        }
    }

    /// Whether `signature` is valid for `message`: it has one entry for every bit position, and
    /// every entry hashes to the digest that the key holds there for the message digest's bit.
    pub open spec fn accepts(self, signature: Seq<Seq<u8>>, message: Seq<u8>) -> bool {
        let digest = digest_of(self.algorithm, message);
        &&& signature.len() == self.algorithm.bit_len()
        &&& forall|i: int|
            0 <= i < signature.len() ==> digest_of(self.algorithm, #[trigger] signature[i])
                == self.expected(digest, i)
    }

    /// The encoding of the key: the digests of `zero_values`, then those of `one_values`, each in
    /// index order and with nothing between them.
    pub open spec fn to_bytes(self) -> Seq<u8> {
        self.zero_values.flatten() + self.one_values.flatten()
    }

    /// Length of the encoding of a key of `algorithm`.
    pub open spec fn encoded_len(algorithm: Algorithm) -> nat {
        2 * (algorithm.bit_len() * algorithm.digest_len())
    }

    /// The key that `bytes` encodes, if it has the length of an encoding: the first half cut into
    /// digests is `zero_values`, the second half `one_values`.
    pub open spec fn from_bytes(bytes: Seq<u8>, algorithm: Algorithm) -> Option<PublicKeyView> {
        let half = (algorithm.bit_len() * algorithm.digest_len()) as int;
        if bytes.len() == Self::encoded_len(algorithm) {
            Some(
                PublicKeyView {
                    zero_values: chunks(bytes.subrange(0, half), algorithm.digest_len()),
                    one_values: chunks(bytes.subrange(half, 2 * half), algorithm.digest_len()),
                    algorithm,
                },
            )
        } else {
            None
        }
    }
}

/// A one-time signing public key.
#[derive(Debug, Hash)]
pub struct PublicKey {
    zero_values: Vec<Vec<u8>>,
    one_values: Vec<Vec<u8>>,
    algorithm: Algorithm,
}

impl View for PublicKey {
    type V = PublicKeyView;

    closed spec fn view(&self) -> PublicKeyView {
        PublicKeyView {
            zero_values: self.zero_values.deep_view(),
            one_values: self.one_values.deep_view(),
            algorithm: self.algorithm,
        }
    }
}

/// A signature is accepted exactly when the digests of its entries are what the message digest
/// selects from the key's tables.
pub proof fn lemma_accepts_by_digests(key: PublicKeyView, signature: Seq<Seq<u8>>, message: Seq<u8>)
    requires
        key.wf(),
    ensures
        key.accepts(signature, message) <==> digests_of(key.algorithm, signature) == select(
            key.zero_values,
            key.one_values,
            digest_of(key.algorithm, message),
        ),
{
    let hashed = digests_of(key.algorithm, signature);
    let chosen = select(key.zero_values, key.one_values, digest_of(key.algorithm, message));
    if key.accepts(signature, message) {
        assert(hashed =~= chosen);
    }
    if hashed == chosen {
        assert(signature.len() == hashed.len());
        assert forall|i: int| 0 <= i < signature.len() implies digest_of(
            key.algorithm,
            #[trigger] signature[i],
        ) == chosen[i] by {
            assert(hashed[i] == chosen[i]);
        }
    }
}

impl PublicKey {
    #[verifier::type_invariant]
    spec fn inv(&self) -> bool {
        self@.wf()
    }

    /// Puts a key together from its two tables.
    pub(crate) fn assemble(
        zero_values: Vec<Vec<u8>>,
        one_values: Vec<Vec<u8>>,
        algorithm: Algorithm,
    ) -> (key: PublicKey)
        requires
            has_shape(zero_values.deep_view(), algorithm.bit_len(), algorithm.digest_len()),
            has_shape(one_values.deep_view(), algorithm.bit_len(), algorithm.digest_len()),
        ensures
            key@ == (PublicKeyView {
                zero_values: zero_values.deep_view(),
                one_values: one_values.deep_view(),
                algorithm,
            }),
            key@.wf(),
    {
        PublicKey { zero_values, one_values, algorithm }
    }

    /// Reads a public key of `algorithm` from its encoding.
    ///
    /// Returns `None` unless `vec` has exactly the length of an encoded key.
    pub fn from_vec(vec: Vec<u8>, algorithm: Algorithm) -> (key: Option<PublicKey>)
        ensures
            key is Some <==> vec@.len() == PublicKeyView::encoded_len(algorithm),
            match key {
                Some(k) => Some(k@) == PublicKeyView::from_bytes(vec@, algorithm) && k@.wf(),
                None => PublicKeyView::from_bytes(vec@, algorithm) is None,
            },
    {
        let width = algorithm.output_len();
        let count = algorithm.output_bits();
        let half = count * width;
        if vec.len() != 2 * half {
            return None;
        }
        let mut zero_values_merged = vec;
        let one_values_merged = zero_values_merged.split_off(half);
        let zero_values = split_rows(zero_values_merged.as_slice(), width);
        let one_values = split_rows(one_values_merged.as_slice(), width);
        proof {
            lemma_flatten_of_chunks(zero_values_merged@, count as nat, width as nat);
            lemma_flatten_of_chunks(one_values_merged@, count as nat, width as nat);
        }
        Some(PublicKey::assemble(zero_values, one_values, algorithm))
    }

    /// Serializes the key: every digest of `zero_values`, then every digest of `one_values`.
    pub fn to_bytes(&self) -> (bytes: Vec<u8>)
        ensures
            bytes@ == self@.to_bytes(),
            bytes@.len() == PublicKeyView::encoded_len(self@.algorithm),
    {
        proof {
            use_type_invariant(self);
            let count = self@.algorithm.bit_len();
            let width = self@.algorithm.digest_len();
            lemma_flatten_shape(self@.zero_values, count, width);
            lemma_flatten_shape(self@.one_values, count, width);
        }
        let mut bytes: Vec<u8> = Vec::new();
        append_rows(&mut bytes, &self.zero_values);
        append_rows(&mut bytes, &self.one_values);
        bytes
    }

    /// Verifies that `signature` signs `data` under this key.
    ///
    /// A signature of the wrong length is not valid, nor is anything too long to be hashed: the
    /// answer to a malformed input is `false`.  The digests are compared entry by entry up to
    /// the first that differs, so the running time tells where a forged signature went wrong.
    pub fn verify_signature(&self, signature: &LamportSignatureData, data: &[u8]) -> (ok: bool)
        ensures
            ok == (hashable(data@) && all_hashable(signature.deep_view()) && self@.accepts(
                signature.deep_view(),
                data@,
            )),
    {
        proof {
            use_type_invariant(self);
            lemma_accepts_by_digests(self@, signature.deep_view(), data@);
        }
        if signature.len() != self.algorithm.output_bits() {
            return false;
        }
        if !is_hashable(data) || !are_hashable(signature) {
            return false;
        }
        let data_hash = digest(self.algorithm, data);
        let hashed_values = digest_rows(self.algorithm, signature);
        rows_match(&self.zero_values, &self.one_values, data_hash.as_slice(), &hashed_values)
    }

    /// The digests that answer a clear bit.
    pub fn zero_values(&self) -> (rows: &Vec<Vec<u8>>)
        ensures
            rows.deep_view() == self@.zero_values,
    {
        &self.zero_values
    }

    /// The digests that answer a set bit.
    pub fn one_values(&self) -> (rows: &Vec<Vec<u8>>)
        ensures
            rows.deep_view() == self@.one_values,
    {
        &self.one_values
    }

    /// The hash function of the key.  Every key that exists is well formed.
    pub fn algorithm(&self) -> (algorithm: Algorithm)
        ensures
            algorithm == self@.algorithm,
            self@.wf(),
    {
        proof {
            use_type_invariant(self);
        }
        self.algorithm
    }
}

impl Clone for PublicKey {
    fn clone(&self) -> (copy: Self)
        ensures
            copy@ == self@,
    {
        proof {
            use_type_invariant(self);
        }
        PublicKey {
            zero_values: copy_rows(&self.zero_values),
            one_values: copy_rows(&self.one_values),
            algorithm: self.algorithm,
        }
    }
}

impl From<PublicKey> for Vec<u8> {
    /// The encoding of the key, as [`PublicKey::to_bytes`] gives it.
    fn from(key: PublicKey) -> (bytes: Vec<u8>)
        ensures
            bytes@ == key@.to_bytes(),
    {
        key.to_bytes()
    }
}

impl FromSpecImpl<PublicKey> for Vec<u8> {
    /// No `Vec` can be named in a specification, so the conversion is specified by the contract
    /// of `from` and not by `from_spec`.
    open spec fn obeys_from_spec() -> bool {
        false
    }

    open spec fn from_spec(key: PublicKey) -> Vec<u8> {
        choose|bytes: Vec<u8>| bytes@ == key@.to_bytes()
    }
}

impl PartialEq for PublicKey {
    /// Two public keys are equal when they hold the same digests and name the same algorithm.
    /// The algorithm is compared by value.
    fn eq(&self, other: &Self) -> (same: bool) {
        self.algorithm == other.algorithm && rows_equal(&self.zero_values, &other.zero_values)
            && rows_equal(&self.one_values, &other.one_values)
    }
}

impl PartialEqSpecImpl for PublicKey {
    open spec fn obeys_eq_spec() -> bool {
        true
    }

    open spec fn eq_spec(&self, other: &Self) -> bool {
        self@ == other@
    }
}

impl Eq for PublicKey {}

} // verus!
