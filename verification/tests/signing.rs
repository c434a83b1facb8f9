use lamport::private_key::ALREADY_USED;
use lamport::{Algorithm, LamportSignatureData, PrivateKey, PublicKey};
use std::collections::hash_map::DefaultHasher;
use std::hash::{Hash, Hasher};

const ALL: [Algorithm; 5] = [
    Algorithm::Sha1,
    Algorithm::Sha256,
    Algorithm::Sha384,
    Algorithm::Sha512,
    Algorithm::Sha512_256,
];

fn outside(algorithm: Algorithm) -> &'static ring::digest::Algorithm {
    match algorithm {
        Algorithm::Sha1 => &ring::digest::SHA1_FOR_LEGACY_USE_ONLY,
        Algorithm::Sha256 => &ring::digest::SHA256,
        Algorithm::Sha384 => &ring::digest::SHA384,
        Algorithm::Sha512 => &ring::digest::SHA512,
        Algorithm::Sha512_256 => &ring::digest::SHA512_256,
    }
}

fn hash(algorithm: Algorithm, data: &[u8]) -> Vec<u8> {
    let mut context = ring::digest::Context::new(outside(algorithm));
    context.update(data);
    context.finish().as_ref().to_vec()
}

fn table(algorithm: Algorithm, seed: u8) -> Vec<Vec<u8>> {
    (0..algorithm.output_bits())
        .map(|i| {
            (0..algorithm.output_len())
                .map(|j| (i * 31 + j * 7) as u8 ^ seed)
                .collect()
        })
        .collect()
}

fn known_key(algorithm: Algorithm) -> PrivateKey {
    PrivateKey::from_preimages(table(algorithm, 0x00), table(algorithm, 0xff), algorithm).unwrap()
}

fn hash_of<T: Hash>(value: &T) -> u64 {
    let mut hasher = DefaultHasher::new();
    value.hash(&mut hasher);
    hasher.finish()
}

#[test]
fn a_fresh_key_is_unused_and_keeps_its_algorithm() {
    for algorithm in ALL {
        let key = PrivateKey::new(algorithm);
        assert_eq!(key.algorithm(), algorithm);
        assert!(!key.is_used());
        assert_eq!(key.public_key().algorithm(), algorithm);
    }
}

#[test]
fn public_tables_have_one_digest_per_bit() {
    for algorithm in ALL {
        let public = PrivateKey::new(algorithm).public_key();
        assert_eq!(public.zero_values().len(), 8 * algorithm.output_len());
        assert_eq!(public.one_values().len(), 8 * algorithm.output_len());
        for row in public.zero_values().iter().chain(public.one_values().iter()) {
            assert_eq!(row.len(), algorithm.output_len());
        }
    }
}

#[test]
fn the_public_key_holds_the_digest_of_every_preimage() {
    for algorithm in ALL {
        let public = known_key(algorithm).public_key();
        let zero = table(algorithm, 0x00);
        let one = table(algorithm, 0xff);
        for i in 0..algorithm.output_bits() {
            assert_eq!(public.zero_values()[i], hash(algorithm, &zero[i]));
            assert_eq!(public.one_values()[i], hash(algorithm, &one[i]));
        }
    }
}

#[test]
fn deriving_the_public_key_changes_nothing() {
    let mut key = known_key(Algorithm::Sha256);
    let first = key.public_key();
    let second = key.public_key();
    assert_eq!(first, second);
    assert!(!key.is_used());
    assert!(key == known_key(Algorithm::Sha256));
    assert!(key.sign(b"still unused").is_ok());
    assert_eq!(key.public_key(), first);
}

#[test]
fn a_signature_reveals_the_preimages_that_the_digest_selects() {
    for algorithm in ALL {
        let zero = table(algorithm, 0x00);
        let one = table(algorithm, 0xff);
        let digest = hash(algorithm, b"Hello World");
        let signature = known_key(algorithm).sign(b"Hello World").unwrap();
        assert_eq!(signature.len(), algorithm.output_bits());
        for i in 0..algorithm.output_bits() {
            let set = (digest[i / 8] >> (i % 8)) & 1 == 1;
            assert_eq!(signature[i], if set { one[i].clone() } else { zero[i].clone() });
        }
    }
}

#[test]
fn the_first_entries_of_a_known_signature() {
    // SHA-256 of "Hello World" begins with a5 = 1010_0101: read from the lowest bit, the bits
    // of the first byte are 1, 0, 1, 0, 0, 1, 0, 1.
    let zero = table(Algorithm::Sha256, 0x00);
    let one = table(Algorithm::Sha256, 0xff);
    let signature = known_key(Algorithm::Sha256).sign(b"Hello World").unwrap();
    assert_eq!(signature[0], one[0]);
    assert_eq!(signature[1], zero[1]);
    assert_eq!(signature[2], one[2]);
    assert_eq!(signature[3], zero[3]);
    assert_eq!(signature[4], zero[4]);
    assert_eq!(signature[5], one[5]);
    assert_eq!(signature[6], zero[6]);
    assert_eq!(signature[7], one[7]);
    // The second byte is 91 = 1001_0001.
    assert_eq!(signature[8], one[8]);
    assert_eq!(signature[9], zero[9]);
    assert_eq!(signature[12], one[12]);
    assert_eq!(signature[15], one[15]);
}

#[test]
fn signatures_verify_for_every_algorithm() {
    let messages: [&[u8]; 4] = [b"", b"Hello World", &[0u8; 1], &[0xffu8; 1000]];
    for algorithm in ALL {
        for message in messages {
            let mut key = PrivateKey::new(algorithm);
            let public = key.public_key();
            let signature = key.sign(message).unwrap();
            assert!(public.verify_signature(&signature, message));
            assert!(key.public_key().verify_signature(&signature, message));
        }
    }
}

#[test]
fn a_signature_does_not_verify_for_another_message() {
    let mut key = PrivateKey::new(Algorithm::Sha256);
    let public = key.public_key();
    let signature = key.sign(b"Hello World").unwrap();
    assert!(!public.verify_signature(&signature, b"Hello"));
    assert!(!public.verify_signature(&signature, b"Hello World "));
    assert!(!public.verify_signature(&signature, b"hello World"));
    assert!(!public.verify_signature(&signature, b""));
}

#[test]
fn a_signature_does_not_verify_under_another_key() {
    let mut key = PrivateKey::new(Algorithm::Sha256);
    let signature = key.sign(b"Hello World").unwrap();
    let other = PrivateKey::new(Algorithm::Sha256).public_key();
    assert!(!other.verify_signature(&signature, b"Hello World"));
}

#[test]
fn a_signature_does_not_verify_under_another_algorithm() {
    let zero = table(Algorithm::Sha256, 0x00);
    let one = table(Algorithm::Sha256, 0xff);
    let mut key =
        PrivateKey::from_preimages(zero.clone(), one.clone(), Algorithm::Sha256).unwrap();
    let other = PrivateKey::from_preimages(zero, one, Algorithm::Sha512_256).unwrap();
    let signature = key.sign(b"Hello World").unwrap();
    assert!(key.public_key().verify_signature(&signature, b"Hello World"));
    assert!(!other.public_key().verify_signature(&signature, b"Hello World"));
}

#[test]
fn a_changed_signature_does_not_verify() {
    let mut key = known_key(Algorithm::Sha1);
    let public = key.public_key();
    let signature = key.sign(b"Hello World").unwrap();
    for i in [0usize, 1, 79, 158, 159] {
        let mut changed = signature.clone();
        changed[i][0] ^= 1;
        assert!(!public.verify_signature(&changed, b"Hello World"));
        let mut longer = signature.clone();
        longer[i].push(0);
        assert!(!public.verify_signature(&longer, b"Hello World"));
        let mut emptied = signature.clone();
        emptied[i].clear();
        assert!(!public.verify_signature(&emptied, b"Hello World"));
    }
    let mut swapped = signature.clone();
    swapped.swap(0, 1);
    assert!(!public.verify_signature(&swapped, b"Hello World"));
    assert!(public.verify_signature(&signature, b"Hello World"));
}

#[test]
fn a_signature_of_the_wrong_length_does_not_verify() {
    let mut key = PrivateKey::new(Algorithm::Sha256);
    let public = key.public_key();
    let signature = key.sign(b"Hello World").unwrap();
    assert_eq!(signature.len(), 256);

    let mut shorter = signature.clone();
    let last = shorter.pop().unwrap();
    assert!(!public.verify_signature(&shorter, b"Hello World"));

    let mut longer = signature.clone();
    longer.push(last);
    assert!(!public.verify_signature(&longer, b"Hello World"));

    let empty: LamportSignatureData = Vec::new();
    assert!(!public.verify_signature(&empty, b"Hello World"));
    assert!(!public.verify_signature(&signature[1..].to_vec(), b"Hello World"));
}

#[test]
fn a_key_signs_once() {
    let mut key = PrivateKey::new(Algorithm::Sha256);
    let before = key.clone();
    assert!(!key.is_used());
    let first = key.sign(b"Hello World");
    assert!(first.is_ok());
    assert!(key.is_used());

    let after_first = key.clone();
    assert_eq!(key.sign(b"Hello World"), Err("Attempting to sign more than once."));
    assert_eq!(key.sign(b"another message"), Err(ALREADY_USED));
    assert_eq!(key.sign(b""), Err(ALREADY_USED));

    // The refusals changed nothing: the key is still used and holds the same preimages.
    assert!(key.is_used());
    assert!(key == after_first);
    assert!(key == before);
    assert_eq!(key.public_key(), before.public_key());
}

#[test]
fn a_copy_of_a_used_key_is_used() {
    let mut key = PrivateKey::new(Algorithm::Sha1);
    let mut unused_copy = key.clone();
    key.sign(b"one").unwrap();
    let mut used_copy = key.clone();
    assert!(used_copy.is_used());
    assert_eq!(used_copy.sign(b"two"), Err(ALREADY_USED));
    // The copy taken before signing is a key of its own.
    assert!(!unused_copy.is_used());
    assert!(unused_copy.sign(b"two").is_ok());
}

#[test]
fn the_message_of_a_refusal() {
    assert_eq!(ALREADY_USED, "Attempting to sign more than once.");
}

#[test]
fn erasing_leaves_only_zeros() {
    for algorithm in ALL {
        let mut key = known_key(algorithm);
        key.zeroize();
        let blank = vec![vec![0u8; algorithm.output_len()]; algorithm.output_bits()];
        let blank_key = PrivateKey::from_preimages(blank.clone(), blank, algorithm).unwrap();
        assert!(key == blank_key);
        assert_eq!(key.algorithm(), algorithm);
        assert!(!key.is_used());

        let digest_of_zeros = hash(algorithm, &vec![0u8; algorithm.output_len()]);
        let public = key.public_key();
        for row in public.zero_values().iter().chain(public.one_values().iter()) {
            assert_eq!(row, &digest_of_zeros);
        }
    }
}

#[test]
fn erasing_keeps_the_flag() {
    let mut key = PrivateKey::new(Algorithm::Sha256);
    key.sign(b"Hello World").unwrap();
    key.zeroize();
    assert!(key.is_used());
    assert_eq!(key.sign(b"again"), Err(ALREADY_USED));
    key.zeroize();
    assert!(key.is_used());
}

#[test]
fn erasing_a_key_leaves_its_copies_alone() {
    let mut key = known_key(Algorithm::Sha256);
    let copy = key.clone();
    key.zeroize();
    assert!(copy == known_key(Algorithm::Sha256));
    assert!(key != copy);
    drop(key);
    assert!(copy == known_key(Algorithm::Sha256));
}

#[test]
fn keys_of_given_preimages() {
    for algorithm in ALL {
        let key = known_key(algorithm);
        assert_eq!(key.algorithm(), algorithm);
        assert!(!key.is_used());
    }
    let zero = table(Algorithm::Sha256, 0x00);
    let one = table(Algorithm::Sha256, 0xff);

    let mut short_row = zero.clone();
    short_row[100].pop();
    assert!(PrivateKey::from_preimages(short_row, one.clone(), Algorithm::Sha256).is_none());

    let mut long_row = one.clone();
    long_row[255].push(0);
    assert!(PrivateKey::from_preimages(zero.clone(), long_row, Algorithm::Sha256).is_none());

    assert!(PrivateKey::from_preimages(Vec::new(), Vec::new(), Algorithm::Sha256).is_none());
    assert!(PrivateKey::from_preimages(zero.clone(), Vec::new(), Algorithm::Sha256).is_none());
    assert!(PrivateKey::from_preimages(zero.clone(), one.clone(), Algorithm::Sha384).is_none());
    assert!(PrivateKey::from_preimages(zero, one, Algorithm::Sha512_256).is_some());
}

#[test]
fn private_keys_compare_by_preimages_and_algorithm() {
    let key = known_key(Algorithm::Sha256);
    assert!(key == known_key(Algorithm::Sha256));
    assert!(key == key.clone());

    let zero = table(Algorithm::Sha256, 0x00);
    let one = table(Algorithm::Sha256, 0xff);
    let swapped = PrivateKey::from_preimages(one.clone(), zero.clone(), Algorithm::Sha256);
    assert!(key != swapped.unwrap());

    let mut changed = zero.clone();
    changed[0][0] ^= 0x80;
    let other = PrivateKey::from_preimages(changed, one.clone(), Algorithm::Sha256).unwrap();
    assert!(key != other);

    let same_bytes = PrivateKey::from_preimages(zero, one, Algorithm::Sha512_256).unwrap();
    assert!(key != same_bytes);
    assert!(key != known_key(Algorithm::Sha512));
}

#[test]
fn signing_does_not_change_what_a_key_equals() {
    let mut key = known_key(Algorithm::Sha256);
    key.sign(b"Hello World").unwrap();
    assert!(key == known_key(Algorithm::Sha256));
}

#[test]
fn public_keys_compare_by_digests_and_algorithm() {
    let key = known_key(Algorithm::Sha256).public_key();
    assert_eq!(key, known_key(Algorithm::Sha256).public_key());
    assert_eq!(key, key.clone());
    assert_ne!(key, PrivateKey::new(Algorithm::Sha256).public_key());
    assert_ne!(key, known_key(Algorithm::Sha512).public_key());

    let bytes = key.to_bytes();
    let same_bytes = PublicKey::from_vec(bytes.clone(), Algorithm::Sha512_256).unwrap();
    assert_eq!(same_bytes.zero_values(), key.zero_values());
    assert_eq!(same_bytes.one_values(), key.one_values());
    assert_ne!(same_bytes, key);

    let mut changed = bytes;
    let last = changed.len() - 1;
    changed[last] ^= 1;
    assert_ne!(PublicKey::from_vec(changed, Algorithm::Sha256).unwrap(), key);
}

#[test]
fn equal_public_keys_hash_alike() {
    let key = known_key(Algorithm::Sha256).public_key();
    let copy = key.clone();
    assert_eq!(hash_of(&key), hash_of(&copy));
    let decoded = PublicKey::from_vec(key.to_bytes(), Algorithm::Sha256).unwrap();
    assert_eq!(hash_of(&key), hash_of(&decoded));
    let mut set = std::collections::HashSet::new();
    assert!(set.insert(key));
    assert!(!set.insert(copy));
    assert!(!set.insert(decoded));
}

#[test]
fn keys_can_be_shown() {
    let key = known_key(Algorithm::Sha1);
    let shown = format!("{:?}", key.public_key());
    assert!(shown.starts_with("PublicKey"));
    assert!(shown.contains("Sha1"));
    assert!(format!("{:?}", key).starts_with("PrivateKey"));
}

#[test]
fn a_decoded_key_verifies_like_the_one_encoded() {
    let mut key = PrivateKey::new(Algorithm::Sha512);
    let public = key.public_key();
    let decoded = PublicKey::from_vec(public.to_bytes(), Algorithm::Sha512).unwrap();
    let signature = key.sign(b"Hello World").unwrap();
    assert!(decoded.verify_signature(&signature, b"Hello World"));
    assert!(!decoded.verify_signature(&signature, b"Hello"));
}
