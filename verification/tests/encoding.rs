use lamport::encoding::{append_bytes, append_rows, split_rows};
use lamport::{Algorithm, PrivateKey, PublicKey};

fn counting(len: usize) -> Vec<u8> {
    (0..len).map(|k| (k % 251) as u8).collect()
}

#[test]
fn rows_are_laid_end_to_end() {
    let mut out = vec![9u8];
    append_rows(&mut out, &vec![vec![1, 2], vec![], vec![3], vec![4, 5, 6]]);
    assert_eq!(out, vec![9u8, 1, 2, 3, 4, 5, 6]);
    append_rows(&mut out, &Vec::new());
    assert_eq!(out, vec![9u8, 1, 2, 3, 4, 5, 6]);
    append_bytes(&mut out, &[7, 8]);
    assert_eq!(out, vec![9u8, 1, 2, 3, 4, 5, 6, 7, 8]);
    append_bytes(&mut out, &[]);
    assert_eq!(out.len(), 9);
}

#[test]
fn bytes_are_cut_into_rows() {
    assert_eq!(
        split_rows(&[1, 2, 3, 4, 5, 6], 2),
        vec![vec![1u8, 2], vec![3, 4], vec![5, 6]]
    );
    assert_eq!(split_rows(&[1, 2, 3, 4, 5, 6], 3), vec![vec![1u8, 2, 3], vec![4, 5, 6]]);
    assert_eq!(split_rows(&[1, 2, 3, 4, 5, 6], 6), vec![vec![1u8, 2, 3, 4, 5, 6]]);
    assert_eq!(split_rows(&[1, 2, 3], 1), vec![vec![1u8], vec![2], vec![3]]);
}

#[test]
fn a_short_rest_is_left_out() {
    assert_eq!(split_rows(&[1, 2, 3, 4, 5], 2), vec![vec![1u8, 2], vec![3, 4]]);
    assert!(split_rows(&[1, 2, 3], 4).is_empty());
    assert!(split_rows(&[], 4).is_empty());
}

#[test]
fn cutting_undoes_joining() {
    let rows: Vec<Vec<u8>> = (0u8..7).map(|i| vec![i, i + 1, i + 2]).collect();
    let mut bytes = Vec::new();
    append_rows(&mut bytes, &rows);
    assert_eq!(bytes.len(), 21);
    assert_eq!(split_rows(&bytes, 3), rows);
}

#[test]
fn encoded_lengths() {
    let lengths = [
        (Algorithm::Sha1, 2 * 160 * 20),
        (Algorithm::Sha256, 2 * 256 * 32),
        (Algorithm::Sha384, 2 * 384 * 48),
        (Algorithm::Sha512, 2 * 512 * 64),
        (Algorithm::Sha512_256, 2 * 256 * 32),
    ];
    for (algorithm, len) in lengths {
        assert_eq!(PrivateKey::new(algorithm).public_key().to_bytes().len(), len);
        assert!(PublicKey::from_vec(vec![0u8; len], algorithm).is_some());
        assert!(PublicKey::from_vec(vec![0u8; len - 1], algorithm).is_none());
        assert!(PublicKey::from_vec(vec![0u8; len + 1], algorithm).is_none());
    }
}

#[test]
fn decoding_places_every_byte() {
    let bytes = counting(2 * 160 * 20);
    let key = PublicKey::from_vec(bytes.clone(), Algorithm::Sha1).unwrap();
    assert_eq!(key.algorithm(), Algorithm::Sha1);
    assert_eq!(key.zero_values().len(), 160);
    assert_eq!(key.one_values().len(), 160);
    for i in 0..160 {
        assert_eq!(key.zero_values()[i].len(), 20);
        assert_eq!(key.one_values()[i].len(), 20);
        for j in 0..20 {
            assert_eq!(key.zero_values()[i][j], bytes[i * 20 + j]);
            assert_eq!(key.one_values()[i][j], bytes[160 * 20 + i * 20 + j]);
        }
    }
}

#[test]
fn encoding_places_every_byte() {
    let key = PrivateKey::new(Algorithm::Sha256).public_key();
    let bytes = key.to_bytes();
    for i in 0..256 {
        assert_eq!(&bytes[i * 32..(i + 1) * 32], &key.zero_values()[i][..]);
        assert_eq!(&bytes[8192 + i * 32..8192 + (i + 1) * 32], &key.one_values()[i][..]);
    }
}

#[test]
fn decoding_then_encoding_gives_the_bytes_back() {
    let bytes = counting(2 * 384 * 48);
    let key = PublicKey::from_vec(bytes.clone(), Algorithm::Sha384).unwrap();
    assert_eq!(key.to_bytes(), bytes);
}

#[test]
fn encoding_then_decoding_gives_the_key_back() {
    for algorithm in [
        Algorithm::Sha1,
        Algorithm::Sha256,
        Algorithm::Sha384,
        Algorithm::Sha512,
        Algorithm::Sha512_256,
    ] {
        let key = PrivateKey::new(algorithm).public_key();
        let back = PublicKey::from_vec(key.to_bytes(), algorithm).unwrap();
        assert_eq!(back, key);
        assert_eq!(back.algorithm(), algorithm);
    }
}

#[test]
fn decoding_refuses_other_lengths() {
    let bytes = PrivateKey::new(Algorithm::Sha256).public_key().to_bytes();
    assert!(PublicKey::from_vec(Vec::new(), Algorithm::Sha256).is_none());
    assert!(PublicKey::from_vec(bytes[..bytes.len() - 1].to_vec(), Algorithm::Sha256).is_none());
    assert!(PublicKey::from_vec(bytes[..bytes.len() / 2].to_vec(), Algorithm::Sha256).is_none());
    let mut longer = bytes.clone();
    longer.push(0);
    assert!(PublicKey::from_vec(longer, Algorithm::Sha256).is_none());
    // The length depends on the algorithm that the caller names.
    assert!(PublicKey::from_vec(bytes.clone(), Algorithm::Sha512).is_none());
    assert!(PublicKey::from_vec(bytes.clone(), Algorithm::Sha1).is_none());
    assert!(PublicKey::from_vec(bytes, Algorithm::Sha512_256).is_some());
}

#[test]
fn a_key_converts_into_its_encoding() {
    let key = PrivateKey::new(Algorithm::Sha256).public_key();
    let expected = key.to_bytes();
    let bytes: Vec<u8> = key.into();
    assert_eq!(bytes, expected);
}
