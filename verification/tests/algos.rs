use sigpacket::{AlgorithmError, HashAlgorithm, PublicKeyAlgorithm, SymmetricKeyAlgorithm};

fn hex(bytes: &[u8]) -> String {
    bytes.iter().map(|b| format!("{:02x}", b)).collect()
}

#[test]
fn public_key_algorithm_ids_round_trip() {
    for id in [1u8, 2, 3, 16, 17, 18, 19, 20, 21] {
        let a = PublicKeyAlgorithm::from(id);
        assert_ne!(a, PublicKeyAlgorithm::Unknown);
        assert_eq!(u8::from(a), id);
    }
    assert_eq!(PublicKeyAlgorithm::from(250), PublicKeyAlgorithm::Unknown);
    assert_eq!(u8::from(PublicKeyAlgorithm::Unknown), 0xFF);
    assert_eq!(PublicKeyAlgorithm::from(17), PublicKeyAlgorithm::Dsa);
}

#[test]
fn hash_algorithm_ids_round_trip() {
    for id in [1u8, 2, 3, 8, 9, 10, 11] {
        let a = HashAlgorithm::from(id);
        assert_ne!(a, HashAlgorithm::Unknown);
        assert_eq!(u8::from(a), id);
    }
    assert_eq!(HashAlgorithm::from(4), HashAlgorithm::Unknown);
    assert_eq!(u8::from(HashAlgorithm::Unknown), 0xFF);
    assert_eq!(HashAlgorithm::from(8), HashAlgorithm::Sha256);
}

#[test]
fn symmetric_key_algorithm_ids() {
    assert_eq!(SymmetricKeyAlgorithm::from(0), SymmetricKeyAlgorithm::Plaintext);
    assert_eq!(SymmetricKeyAlgorithm::from(5), SymmetricKeyAlgorithm::Reserved);
    assert_eq!(SymmetricKeyAlgorithm::from(6), SymmetricKeyAlgorithm::Reserved);
    assert_eq!(SymmetricKeyAlgorithm::from(7), SymmetricKeyAlgorithm::Aes128);
    assert_eq!(SymmetricKeyAlgorithm::from(200), SymmetricKeyAlgorithm::Unknown);
}

#[test]
fn block_sizes() {
    assert_eq!(SymmetricKeyAlgorithm::Plaintext.block_bytes(), 0);
    assert_eq!(SymmetricKeyAlgorithm::Idea.block_bytes(), 8);
    assert_eq!(SymmetricKeyAlgorithm::TripleDes.block_bytes(), 8);
    assert_eq!(SymmetricKeyAlgorithm::Cast5.block_bytes(), 8);
    assert_eq!(SymmetricKeyAlgorithm::Blowfish.block_bytes(), 8);
    assert_eq!(SymmetricKeyAlgorithm::Aes128.block_bytes(), 16);
    assert_eq!(SymmetricKeyAlgorithm::Aes192.block_bytes(), 16);
    assert_eq!(SymmetricKeyAlgorithm::Aes256.block_bytes(), 16);
    assert_eq!(SymmetricKeyAlgorithm::Twofish.block_bytes(), 16);
    assert_eq!(SymmetricKeyAlgorithm::Reserved.block_bytes(), 0);
    assert_eq!(SymmetricKeyAlgorithm::Unknown.block_bytes(), 0);
}

#[test]
fn md5_digest_vector() {
    let d = HashAlgorithm::Md5.hash(b"abc").unwrap();
    assert_eq!(hex(&d), "900150983cd24fb0d6963f7d28e17f72");
}

#[test]
fn sha1_digest_vector() {
    let d = HashAlgorithm::Sha1.hash(b"abc").unwrap();
    assert_eq!(hex(&d), "a9993e364706816aba3e25717850c26c9cd0d89d");
}

#[test]
fn ripemd160_digest_vector() {
    let d = HashAlgorithm::Ripemd160.hash(b"abc").unwrap();
    assert_eq!(hex(&d), "8eb208f7e05d987a9b044a8e98c6b087f15a0bfc");
}

#[test]
fn sha256_digest_vector() {
    let d = HashAlgorithm::Sha256.hash(b"abc").unwrap();
    assert_eq!(
        hex(&d),
        "ba7816bf8f01cfea414140de5dae2223b00361a396177a9cb410ff61f20015ad"
    );
}

#[test]
fn sha224_digest_vector() {
    let d = HashAlgorithm::Sha224.hash(b"abc").unwrap();
    assert_eq!(hex(&d), "23097d223405d8228642a477bda255b32aadbce4bda0b3f7e36c9da7");
}

#[test]
fn sha384_digest_vector() {
    let d = HashAlgorithm::Sha384.hash(b"abc").unwrap();
    assert_eq!(
        hex(&d),
        "cb00753f45a35e8bb5a03d699ac65007272c32ab0eded1631a8b605a43ff5bed8086072ba1e7cc2358baeca134c825a7"
    );
}

#[test]
fn sha512_digest_vector() {
    let d = HashAlgorithm::Sha512.hash(b"abc").unwrap();
    assert_eq!(
        hex(&d),
        "ddaf35a193617abacc417349ae20413112e6fa4e89a97ea20a9eeee64b55d39a2192992a274fc1a836ba3c23a3feebbd454d4423643ce80e2a9ac94fa54ca49f"
    );
}

#[test]
fn unknown_hash_refused() {
    assert_eq!(
        HashAlgorithm::Unknown.hash(b"abc"),
        Err(AlgorithmError::HashAlgorithmError)
    );
}

#[test]
fn oid_components() {
    let cases: [(HashAlgorithm, &[u64]); 7] = [
        (HashAlgorithm::Md5, &[1, 2, 840, 113549, 2, 5]),
        (HashAlgorithm::Sha1, &[1, 3, 14, 3, 2, 26]),
        (HashAlgorithm::Ripemd160, &[1, 3, 36, 3, 2, 1]),
        (HashAlgorithm::Sha256, &[2, 16, 840, 1, 101, 3, 4, 2, 1]),
        (HashAlgorithm::Sha384, &[2, 16, 840, 1, 101, 3, 4, 2, 2]),
        (HashAlgorithm::Sha512, &[2, 16, 840, 1, 101, 3, 4, 2, 3]),
        (HashAlgorithm::Sha224, &[2, 16, 840, 1, 101, 3, 4, 2, 4]),
    ];
    for (algo, expected) in cases {
        let oid = algo.asn1_oid().unwrap();
        assert_eq!(oid.components().as_slice(), expected);
    }
}

#[test]
fn unknown_oid_refused() {
    assert!(HashAlgorithm::Unknown.asn1_oid().is_err());
}
