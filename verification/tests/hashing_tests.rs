use checksums::algorithm::Algorithm;
use checksums::hashing::{digest_bytes, hash_bytes, xor8, Hasher};
use checksums::util::bytes_to_hex;

fn all_algorithms() -> Vec<Algorithm> {
    vec![
        Algorithm::Sha1,
        Algorithm::Sha2256,
        Algorithm::Sha2512,
        Algorithm::Sha3256,
        Algorithm::Sha3512,
        Algorithm::Blake,
        Algorithm::Blake2,
        Algorithm::Crc8,
        Algorithm::Crc16,
        Algorithm::Crc32,
        Algorithm::Crc64,
        Algorithm::Md5,
        Algorithm::Xor8,
    ]
}

#[test]
fn empty_input_known_digests() {
    let cases: Vec<(Algorithm, &[u8])> = vec![
        (Algorithm::Sha1, b"da39a3ee5e6b4b0d3255bfef95601890afd80709"),
        (
            Algorithm::Sha2256,
            b"e3b0c44298fc1c149afbf4c8996fb92427ae41e4649b934ca495991b7852b855",
        ),
        (
            Algorithm::Sha2512,
            b"cf83e1357eefb8bdf1542850d66d8007d620e4050b5715dc83f4a921d36ce9ce47d0d13c5d85f2b0ff8318d2877eec2f63b931bd47417a81a538327af927da3e",
        ),
        (
            Algorithm::Sha3256,
            b"a7ffc6f8bf1ed76651c14756a061d662f580ff4de43b49fa82d80a4b80f8434a",
        ),
        (
            Algorithm::Sha3512,
            b"a69f73cca23a9ac5c8b567dc185a756e97c982164fe25859e0d1dcc1475c80a615b2123af1f5f94c11e3e9402c3ac558f500199d95b6d3e301758586281dcd26",
        ),
        (
            Algorithm::Blake,
            b"a8cfbbd73726062df0c6864dda65defe58ef0cc52a5625090fa17601e1eecd1b628e94f396ae402a00acc9eab77b4d4c2e852aaaa25a636d80af3fc7913ef5b8",
        ),
        (
            Algorithm::Blake2,
            b"786a02f742015903c6c6fd852552d272912f4740e15847618a86e217f71f5419d25e1031afee585313896444934eb04b903a685b1448b755d56f701afe9be2ce",
        ),
        (Algorithm::Crc8, b"00"),
        (Algorithm::Crc16, b"0000"),
        (Algorithm::Crc32, b"00000000"),
        (Algorithm::Crc64, b"0000000000000000"),
        (Algorithm::Md5, b"d41d8cd98f00b204e9800998ecf8427e"),
        (Algorithm::Xor8, b"00"),
    ];
    for (alg, want) in cases {
        let got = hash_bytes(alg, b"");
        assert_eq!(
            got,
            want.to_vec(),
            "empty digest mismatch for {:?}",
            alg
        );
    }
}

#[test]
fn known_nonempty_digests() {
    assert_eq!(
        hash_bytes(Algorithm::Md5, b"abc"),
        b"900150983cd24fb0d6963f7d28e17f72".to_vec()
    );
    assert_eq!(
        hash_bytes(Algorithm::Sha1, b"abc"),
        b"a9993e364706816aba3e25717850c26c9cd0d89d".to_vec()
    );
    assert_eq!(
        hash_bytes(Algorithm::Sha2256, b"abc"),
        b"ba7816bf8f01cfea414140de5dae2223b00361a396177a9cb410ff61f20015ad".to_vec()
    );
}

#[test]
fn hashing_twice_is_deterministic() {
    for alg in all_algorithms() {
        let once = hash_bytes(alg, b"some test input");
        let twice = hash_bytes(alg, b"some test input");
        assert_eq!(once, twice, "digest changed between calls for {:?}", alg);
        assert_eq!(once.len(), 2 * alg.size_bytes());
    }
}

#[test]
fn chunked_digest_equals_one_shot() {
    let whole: &[u8] = b"the quick brown fox jumps over the lazy dog";
    for alg in all_algorithms() {
        let mut h = Hasher::new(alg);
        h.update(b"the quick brown ");
        h.update(b"");
        h.update(b"fox jumps over");
        h.update(b" the lazy dog");
        let streamed = h.finalize();
        let one_shot = digest_bytes(alg, whole);
        assert_eq!(streamed, one_shot, "chunking changed digest for {:?}", alg);
    }
}

#[test]
fn hasher_empty_equals_empty_input() {
    for alg in all_algorithms() {
        let h = Hasher::new(alg);
        assert_eq!(h.finalize_hex(), hash_bytes(alg, b""));
    }
}

#[test]
fn xor8_exact_value() {
    assert_eq!(xor8(b""), 0);
    assert_eq!(xor8(&[0x01, 0x02, 0x04]), 0x07);
    assert_eq!(xor8(&[0xff, 0xff]), 0x00);
    assert_eq!(hash_bytes(Algorithm::Xor8, &[0x01, 0x02, 0x04]), b"07".to_vec());
}

#[test]
fn hex_rendering_exact() {
    assert_eq!(bytes_to_hex(&[]), b"".to_vec());
    assert_eq!(bytes_to_hex(&[0x00, 0xff, 0x1a]), b"00ff1a".to_vec());
    assert_eq!(bytes_to_hex(&[0xde, 0xad, 0xbe, 0xef]), b"deadbeef".to_vec());
}
