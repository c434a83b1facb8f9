//! What holds of the scheme as a whole, proved over the models of the two keys.
//!
//! The executable functions are tied to these models by their contracts, so each statement here
//! is also a statement about what they return.

use crate::encoding::{lemma_chunks_of_flatten, lemma_flatten_of_chunks, lemma_flatten_shape};
use crate::hash::{all_hashable, digest_of, Algorithm};
use crate::private_key::PrivateKeyView;
use crate::public_key::PublicKeyView;
use crate::rows::all_zero;
use crate::scheme::digest_bit;
use vstd::prelude::*;

verus! {

/// The public key of a well-formed private key has one entry per digest bit in each table:
/// eight times the digest length in bytes.
pub proof fn lemma_public_key_size(key: PrivateKeyView)
    requires
        key.wf(),
    ensures
        key.public_key().zero_values.len() == 8 * key.algorithm.digest_len(),
        key.public_key().one_values.len() == 8 * key.algorithm.digest_len(),
        key.public_key().algorithm == key.algorithm,
{
}

/// Deriving the public key does not depend on whether the key has signed.
pub proof fn lemma_public_key_ignores_use(key: PrivateKeyView)
    ensures
        key.spent().public_key() == key.public_key(),
{
}

/// The signature that a key gives for a message is accepted by its public key for that message.
/// Its entries are preimages of the key, which are short enough to be hashed.
pub proof fn lemma_signature_accepted(key: PrivateKeyView, message: Seq<u8>)
    requires
        key.wf(),
    ensures
        key.public_key().accepts(key.signature(message), message),
        all_hashable(key.signature(message)),
        !key.used ==> key.sign(message).1 == Some(key.signature(message)),
{
}

/// Whether the digests of the two messages differ in bit `i`.
pub open spec fn digests_differ_at(
    algorithm: Algorithm,
    first: Seq<u8>,
    second: Seq<u8>,
    i: int,
) -> bool {
    digest_bit(digest_of(algorithm, first), i) != digest_bit(digest_of(algorithm, second), i)
}

/// Whether the two preimages that the key holds at position `i` have the same digest.
pub open spec fn collides_at(key: PrivateKeyView, i: int) -> bool {
    digest_of(key.algorithm, key.zero_values[i]) == digest_of(key.algorithm, key.one_values[i])
}

/// A signature given for one message is accepted for another only if, at every position where
/// the two message digests differ, the key's two preimages hash alike.
pub proof fn lemma_reuse_needs_collisions(key: PrivateKeyView, signed: Seq<u8>, other: Seq<u8>)
    requires
        key.wf(),
        key.public_key().accepts(key.signature(signed), other),
    ensures
        forall|i: int|
            0 <= i < key.algorithm.bit_len() && digests_differ_at(key.algorithm, signed, other, i)
                ==> #[trigger] collides_at(key, i),
{
    let signature = key.signature(signed);
    let digest = digest_of(key.algorithm, other);
    assert forall|i: int|
        0 <= i < key.algorithm.bit_len() && digests_differ_at(
            key.algorithm,
            signed,
            other,
            i,
        ) implies #[trigger] collides_at(key, i) by {
        assert(digest_of(key.algorithm, signature[i]) == key.public_key().expected(digest, i));
    }
}

/// A key signs once: the first attempt marks it as used, every later attempt is refused and
/// leaves the key as the first one left it.
pub proof fn lemma_signs_once(key: PrivateKeyView, first: Seq<u8>, second: Seq<u8>)
    ensures
        key.sign(first).0.used,
        key.sign(first).0.sign(second) == (key.sign(first).0, None::<Seq<Seq<u8>>>),
{
}

/// A signature that does not have one entry for every bit position is not accepted.
pub proof fn lemma_wrong_length_rejected(
    key: PublicKeyView,
    signature: Seq<Seq<u8>>,
    message: Seq<u8>,
)
    requires
        signature.len() != key.algorithm.bit_len(),
    ensures
        !key.accepts(signature, message),
{
}

/// Taking the last entry away from an accepted signature, or adding one more, gives a signature
/// that is not accepted.
pub proof fn lemma_resized_signature_rejected(
    key: PublicKeyView,
    signature: Seq<Seq<u8>>,
    message: Seq<u8>,
    extra: Seq<u8>,
)
    requires
        key.accepts(signature, message),
    ensures
        !key.accepts(signature.drop_last(), message),
        !key.accepts(signature.push(extra), message),
{
}

/// The encoding of a well-formed key has the length that decoding asks for.
pub proof fn lemma_encoding_len(key: PublicKeyView)
    requires
        key.wf(),
    ensures
        key.to_bytes().len() == PublicKeyView::encoded_len(key.algorithm),
        key.to_bytes().len() > 0,
{
    lemma_flatten_shape(key.zero_values, key.algorithm.bit_len(), key.algorithm.digest_len());
    lemma_flatten_shape(key.one_values, key.algorithm.bit_len(), key.algorithm.digest_len());
}

/// Decoding the encoding of a well-formed key, with the key's algorithm, gives the key back.
pub proof fn lemma_encoding_round_trip(key: PublicKeyView)
    requires
        key.wf(),
    ensures
        PublicKeyView::from_bytes(key.to_bytes(), key.algorithm) == Some(key),
{
    let count = key.algorithm.bit_len();
    let width = key.algorithm.digest_len();
    let half = (count * width) as int;
    let bytes = key.to_bytes();
    lemma_flatten_shape(key.zero_values, count, width);
    lemma_flatten_shape(key.one_values, count, width);
    assert(bytes.subrange(0, half) =~= key.zero_values.flatten());
    assert(bytes.subrange(half, 2 * half) =~= key.one_values.flatten());
    lemma_chunks_of_flatten(key.zero_values, count, width);
    lemma_chunks_of_flatten(key.one_values, count, width);
}

/// Whatever decoding accepts is a well-formed key whose encoding is the bytes that were decoded.
pub proof fn lemma_decoding_round_trip(bytes: Seq<u8>, algorithm: Algorithm)
    requires
        PublicKeyView::from_bytes(bytes, algorithm) is Some,
    ensures
        PublicKeyView::from_bytes(bytes, algorithm)->Some_0.wf(),
        PublicKeyView::from_bytes(bytes, algorithm)->Some_0.algorithm == algorithm,
        PublicKeyView::from_bytes(bytes, algorithm)->Some_0.to_bytes() == bytes,
{
    let count = algorithm.bit_len();
    let width = algorithm.digest_len();
    let half = (count * width) as int;
    lemma_flatten_of_chunks(bytes.subrange(0, half), count, width);
    lemma_flatten_of_chunks(bytes.subrange(half, 2 * half), count, width);
}

/// Decoding succeeds on the encoded length and on no other: a valid encoding with its last byte
/// cut off, or with one byte added, is refused.
pub proof fn lemma_resized_encoding_refused(key: PublicKeyView, extra: u8)
    requires
        key.wf(),
    ensures
        forall|bytes: Seq<u8>, algorithm: Algorithm|
            #![trigger PublicKeyView::from_bytes(bytes, algorithm)]
            PublicKeyView::from_bytes(bytes, algorithm) is Some <==> bytes.len()
                == PublicKeyView::encoded_len(algorithm),
        PublicKeyView::from_bytes(key.to_bytes().drop_last(), key.algorithm) is None,
        PublicKeyView::from_bytes(key.to_bytes().push(extra), key.algorithm) is None,
{
    lemma_encoding_len(key);
}

/// Erasing a key leaves nothing but zero bytes in its tables, and keeps its shape, its algorithm
/// and its flag.
pub proof fn lemma_erased_is_zero(key: PrivateKeyView)
    requires
        key.wf(),
    ensures
        all_zero(key.erased().zero_values),
        all_zero(key.erased().one_values),
        key.erased().wf(),
        key.erased().algorithm == key.algorithm,
        key.erased().used == key.used,
{
}

} // verus!
