use checksums::algorithm::{lookup_algorithm, Algorithm};
use checksums::errors::Error;

#[test]
fn lookup_canonical_names() {
    let cases: Vec<(&[u8], Algorithm)> = vec![
        (b"SHA1", Algorithm::Sha1),
        (b"SHA2-256", Algorithm::Sha2256),
        (b"SHA2-512", Algorithm::Sha2512),
        (b"SHA3-256", Algorithm::Sha3256),
        (b"SHA3-512", Algorithm::Sha3512),
        (b"BLAKE", Algorithm::Blake),
        (b"BLAKE2", Algorithm::Blake2),
        (b"CRC8", Algorithm::Crc8),
        (b"CRC16", Algorithm::Crc16),
        (b"CRC32", Algorithm::Crc32),
        (b"CRC64", Algorithm::Crc64),
        (b"MD5", Algorithm::Md5),
        (b"XOR8", Algorithm::Xor8),
    ];
    for (name, alg) in cases {
        assert_eq!(lookup_algorithm(name).unwrap(), alg);
    }
}

#[test]
fn lookup_is_case_insensitive() {
    assert_eq!(lookup_algorithm(b"sha1").unwrap(), Algorithm::Sha1);
    assert_eq!(lookup_algorithm(b"sha2-256").unwrap(), Algorithm::Sha2256);
    assert_eq!(lookup_algorithm(b"Blake2").unwrap(), Algorithm::Blake2);
    assert_eq!(lookup_algorithm(b"md5").unwrap(), Algorithm::Md5);
    assert_eq!(lookup_algorithm(b"xOr8").unwrap(), Algorithm::Xor8);
}

#[test]
fn lookup_unknown_name_fails() {
    assert_eq!(
        lookup_algorithm(b"SHA4-128").unwrap_err(),
        Error::UnsupportedAlgorithm
    );
    assert_eq!(lookup_algorithm(b"").unwrap_err(), Error::UnsupportedAlgorithm);
    assert_eq!(
        lookup_algorithm(b"MD5 ").unwrap_err(),
        Error::UnsupportedAlgorithm
    );
}

#[test]
fn widths_are_fixed() {
    assert_eq!(Algorithm::Sha1.size_bits(), 160);
    assert_eq!(Algorithm::Sha2256.size_bits(), 256);
    assert_eq!(Algorithm::Sha2512.size_bits(), 512);
    assert_eq!(Algorithm::Sha3256.size_bits(), 256);
    assert_eq!(Algorithm::Sha3512.size_bits(), 512);
    assert_eq!(Algorithm::Blake.size_bits(), 512);
    assert_eq!(Algorithm::Blake2.size_bits(), 512);
    assert_eq!(Algorithm::Crc8.size_bits(), 8);
    assert_eq!(Algorithm::Crc16.size_bits(), 16);
    assert_eq!(Algorithm::Crc32.size_bits(), 32);
    assert_eq!(Algorithm::Crc64.size_bits(), 64);
    assert_eq!(Algorithm::Md5.size_bits(), 128);
    assert_eq!(Algorithm::Xor8.size_bits(), 8);
}

#[test]
fn names_resolve_to_themselves() {
    let algs = vec![
        Algorithm::Sha1,
        Algorithm::Sha2256,
        Algorithm::Sha2512,
        Algorithm::Sha3256,
        Algorithm::Sha3512,
        Algorithm::Blake,
        Algorithm::Blake2,
        Algorithm::Crc8,
        Algorithm::Crc16,
        Algorithm::Crc32,
        Algorithm::Crc64,
        Algorithm::Md5,
        Algorithm::Xor8,
    ];
    for alg in algs {
        let name = alg.name();
        assert_eq!(lookup_algorithm(&name).unwrap(), alg);
    }
}
