//! The private half of a one-time key: two tables of secret preimages and the flag that
//! records whether the key has signed.

use crate::entropy::fill_rows;
use crate::hash::{digest, digest_of, digest_rows, digests_of, hashable, Algorithm};
use crate::public_key::{LamportSignatureData, PublicKey, PublicKeyView};
use crate::rows::{blank_rows, copy_rows, has_shape, is_shaped, rows_equal, wipe_rows, zeroed};
use crate::scheme::{select, select_rows};
use vstd::prelude::*;
use vstd::std_specs::cmp::PartialEqSpecImpl;

verus! {

/// What `sign` answers on a key that has signed before.
pub const ALREADY_USED: &'static str = "Attempting to sign more than once.";

/// What a private key is: two tables of preimages, the hash function they are meant for, and
/// whether the key has signed.
pub struct PrivateKeyView {
    /// The preimages that are revealed for a clear bit, one for every bit position.
    pub zero_values: Seq<Seq<u8>>,
    /// The preimages that are revealed for a set bit, one for every bit position.
    pub one_values: Seq<Seq<u8>>,
    /// The hash function of the key.
    pub algorithm: Algorithm,
    /// Whether the key has signed a message.
    pub used: bool,
}

impl PrivateKeyView {
    /// Both tables hold one preimage for every bit of a digest, each as long as a digest.
    pub open spec fn wf(self) -> bool {
        &&& has_shape(self.zero_values, self.algorithm.bit_len(), self.algorithm.digest_len())
        &&& has_shape(self.one_values, self.algorithm.bit_len(), self.algorithm.digest_len())
    }

    /// The public key: the digest of every preimage, at the same place.
    pub open spec fn public_key(self) -> PublicKeyView {
        PublicKeyView {
            zero_values: digests_of(self.algorithm, self.zero_values),
            one_values: digests_of(self.algorithm, self.one_values),
            algorithm: self.algorithm,
        }
    }

    /// The signature of `message`: for every bit of the message digest, the preimage of
    /// `one_values` where the bit is set and that of `zero_values` where it is clear.
    pub open spec fn signature(self, message: Seq<u8>) -> Seq<Seq<u8>> {
        select(self.zero_values, self.one_values, digest_of(self.algorithm, message))
    }

    /// The key after it has signed: nothing but the flag changes.
    pub open spec fn spent(self) -> PrivateKeyView {
        PrivateKeyView { used: true, ..self }
    }

    /// One signing attempt: the key afterwards, and the signature if one is given.  A key signs
    /// once; after that it refuses and stays as it is.
    pub open spec fn sign(self, message: Seq<u8>) -> (PrivateKeyView, Option<Seq<Seq<u8>>>) {
        if self.used {
            (self, None)
        } else {
            (self.spent(), Some(self.signature(message)))
        }
    }

    /// The key with every byte of every preimage overwritten with zero.
    pub open spec fn erased(self) -> PrivateKeyView {
        PrivateKeyView {
            zero_values: zeroed(self.zero_values),
            one_values: zeroed(self.one_values),
            ..self
        }
    }

    /// Whether two keys hold the same preimages for the same algorithm.  The flag is not
    /// compared.
    pub open spec fn same_key(self, other: PrivateKeyView) -> bool {
        &&& self.zero_values == other.zero_values
        &&& self.one_values == other.one_values
        &&& self.algorithm == other.algorithm
    }
}

/// A one-time signing private key.
///
/// The preimages are overwritten with zero when the key is dropped.
#[derive(Debug)]
pub struct PrivateKey {
    zero_values: Vec<Vec<u8>>,
    one_values: Vec<Vec<u8>>,
    algorithm: Algorithm,
    used: bool,
}

impl View for PrivateKey {
    type V = PrivateKeyView;

    closed spec fn view(&self) -> PrivateKeyView {
        PrivateKeyView {
            zero_values: self.zero_values.deep_view(),
            one_values: self.one_values.deep_view(),
            algorithm: self.algorithm,
            used: self.used,
        }
    }
}

impl PrivateKey {
    #[verifier::type_invariant]
    spec fn inv(&self) -> bool {
        self@.wf()
    }

    /// Generates a new random one-time signing key.
    ///
    /// Every preimage is drawn from the operating system's random source.  If that source
    /// fails, the call panics: a key is never made of weaker randomness.
    pub fn new(algorithm: Algorithm) -> (key: PrivateKey)
        ensures
            key@.wf(),
            key@.algorithm == algorithm,
            !key@.used,
    {
        let count = algorithm.output_bits();
        let width = algorithm.output_len();
        let mut zero_values = blank_rows(count, width);
        fill_rows(&mut zero_values);
        let mut one_values = blank_rows(count, width);
        fill_rows(&mut one_values);
        PrivateKey { zero_values, one_values, algorithm, used: false }
    }

    /// Makes an unused key of the given preimages.
    ///
    /// Returns `None` unless each table holds one preimage for every bit of a digest of
    /// `algorithm`, each as long as a digest.
    pub fn from_preimages(
        zero_values: Vec<Vec<u8>>,
        one_values: Vec<Vec<u8>>,
        algorithm: Algorithm,
    ) -> (key: Option<PrivateKey>)
        ensures
            key is Some <==> (PrivateKeyView {
                zero_values: zero_values.deep_view(),
                one_values: one_values.deep_view(),
                algorithm,
                used: false,
            }).wf(),
            key is Some ==> key->Some_0@ == (PrivateKeyView {
                zero_values: zero_values.deep_view(),
                one_values: one_values.deep_view(),
                algorithm,
                used: false,
            }),
    {
        let count = algorithm.output_bits();
        let width = algorithm.output_len();
        if is_shaped(&zero_values, count, width) && is_shaped(&one_values, count, width) {
            Some(PrivateKey { zero_values, one_values, algorithm, used: false })
        } else {
            None
        }
    }

    /// Returns the public key associated with this private key.  The key is neither changed nor
    /// marked as used.
    pub fn public_key(&self) -> (public: PublicKey)
        ensures
            public@ == self@.public_key(),
            public@.wf(),
    {
        proof {
            use_type_invariant(self);
        }
        let hashed_zero_values = digest_rows(self.algorithm, &self.zero_values);
        let hashed_one_values = digest_rows(self.algorithm, &self.one_values);
        PublicKey::assemble(hashed_zero_values, hashed_one_values, self.algorithm)
    }

    /// Signs `data` and marks the key as used.
    ///
    /// A key that has signed before answers [`ALREADY_USED`] and stays as it is.
    pub fn sign(&mut self, data: &[u8]) -> (result: Result<LamportSignatureData, &'static str>)
        requires
            hashable(data@),
        ensures
            match result {
                Ok(signature) => old(self)@.sign(data@) == (
                    final(self)@,
                    Some(signature.deep_view()),
                ),
                Err(message) => old(self)@.sign(data@) == (final(self)@, None::<Seq<Seq<u8>>>)
                    && message@ == ALREADY_USED@,
            },
            result is Ok ==> has_shape(
                result->Ok_0.deep_view(),
                old(self)@.algorithm.bit_len(),
                old(self)@.algorithm.digest_len(),
            ),
            final(self)@.wf(),
    {
        proof {
            use_type_invariant(&*self);
        }
        if self.used {
            return Err(ALREADY_USED);
        }
        let data_hash = digest(self.algorithm, data);
        let signature = select_rows(&self.zero_values, &self.one_values, data_hash.as_slice());
        self.used = true;
        Ok(signature)
    }

    /// Overwrites every byte of every preimage with zero.  The key keeps its shape, its
    /// algorithm and its flag.
    pub fn zeroize(&mut self)
        ensures
            final(self)@ == old(self)@.erased(),
        no_unwind
    {
        proof {
            use_type_invariant(&*self);
        }
        wipe_rows(&mut self.zero_values);
        wipe_rows(&mut self.one_values);
    }

    /// The hash function of the key.  Every key that exists is well formed.
    pub fn algorithm(&self) -> (algorithm: Algorithm)
        ensures
            algorithm == self@.algorithm,
            self@.wf(),
    {
        proof {
            use_type_invariant(self);
        }
        self.algorithm
    }

    /// Whether the key has signed a message.
    pub fn is_used(&self) -> (used: bool)
        ensures
            used == self@.used,
    {
        self.used
    }
}

impl Drop for PrivateKey {
    /// Erases the preimages before the memory is given back, whether or not the key has signed.
    ///
    /// Trusted: a destructor may open no invariant, which the specifications of `Vec` do not
    /// promise of its methods, so this body is not checked.  It does nothing but call
    /// [`PrivateKey::zeroize`], which is verified and cannot unwind.
    #[verifier::external_body]
    fn drop(&mut self)
        opens_invariants none
        no_unwind
    {
        self.zeroize();
    }
}

impl Clone for PrivateKey {
    fn clone(&self) -> (copy: Self)
        ensures
            copy@ == self@,
    {
        proof {
            use_type_invariant(self);
        }
        PrivateKey {
            zero_values: copy_rows(&self.zero_values),
            one_values: copy_rows(&self.one_values),
            algorithm: self.algorithm,
            used: self.used,
        }
    }
}

impl PartialEq for PrivateKey {
    /// Two private keys are equal when they hold the same preimages for the same algorithm.
    ///
    /// The comparison stops at the first difference, so its running time tells where two keys
    /// differ: it must not be used where that would give a secret away.
    fn eq(&self, other: &PrivateKey) -> (same: bool) {
        self.algorithm == other.algorithm && rows_equal(&self.zero_values, &other.zero_values)
            && rows_equal(&self.one_values, &other.one_values)
    }
}

impl PartialEqSpecImpl for PrivateKey {
    open spec fn obeys_eq_spec() -> bool {
        true
    }

    open spec fn eq_spec(&self, other: &PrivateKey) -> bool {
        self@.same_key(other@)
    }
}

} // verus!
