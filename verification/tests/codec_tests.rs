use checksums::algorithm::Algorithm;
use checksums::codec::{read_hashes, write_gate, write_hashes};
use checksums::errors::{CorruptReason, Error};
use checksums::manifest::Manifest;

fn manifest_of(entries: &[(&[u8], &[u8])]) -> Manifest {
    let mut m = Manifest::new();
    for (p, d) in entries {
        assert!(!m.contains_path(p));
        m.insert(p.to_vec(), d.to_vec());
    }
    m
}

fn entries_of(m: &Manifest) -> Vec<(Vec<u8>, Vec<u8>)> {
    let mut out = Vec::new();
    for i in 0..m.len() {
        let e = m.entry_at(i);
        out.push((e.path.clone(), e.digest.clone()));
    }
    out
}

#[test]
fn write_exact_bytes() {
    let m = manifest_of(&[(b"a.txt", b"d41d8cd98f00b204e9800998ecf8427e")]);
    let bytes = write_hashes(Algorithm::Md5, &m);
    assert_eq!(
        bytes,
        b"MD5\na.txt\td41d8cd98f00b204e9800998ecf8427e\n".to_vec()
    );
}

#[test]
fn round_trip_restores_manifest() {
    let m = manifest_of(&[
        (b"a.txt", b"d41d8cd98f00b204e9800998ecf8427e"),
        (b"sub/inner.txt", b"900150983cd24fb0d6963f7d28e17f72"),
        (b"zz", b"00000000000000000000000000000000"),
    ]);
    let bytes = write_hashes(Algorithm::Md5, &m);
    let (alg, back) = read_hashes(&bytes).unwrap();
    assert_eq!(alg, Algorithm::Md5);
    assert_eq!(entries_of(&back), entries_of(&m));
}

#[test]
fn round_trip_empty_manifest() {
    let m = Manifest::new();
    let bytes = write_hashes(Algorithm::Crc32, &m);
    assert_eq!(bytes, b"CRC32\n".to_vec());
    let (alg, back) = read_hashes(&bytes).unwrap();
    assert_eq!(alg, Algorithm::Crc32);
    assert_eq!(back.len(), 0);
}

#[test]
fn read_header_is_case_insensitive() {
    let (alg, m) = read_hashes(b"md5\nx\td41d8cd98f00b204e9800998ecf8427e\n").unwrap();
    assert_eq!(alg, Algorithm::Md5);
    assert_eq!(m.len(), 1);
}

#[test]
fn read_without_trailing_newline() {
    let (alg, m) = read_hashes(b"XOR8\nx\t07").unwrap();
    assert_eq!(alg, Algorithm::Xor8);
    assert_eq!(m.len(), 1);
    assert_eq!(m.entry_at(0).digest, b"07".to_vec());
}

#[test]
fn read_ignores_trailing_blank_lines() {
    let (_, m) = read_hashes(b"XOR8\nx\t07\n\n\n").unwrap();
    assert_eq!(m.len(), 1);
}

#[test]
fn read_rejects_interior_blank_line() {
    let err = read_hashes(b"XOR8\nx\t07\n\ny\t08\n").unwrap_err();
    assert_eq!(
        err,
        Error::ManifestCorrupt {
            line: 3,
            reason: CorruptReason::WrongFieldCount
        }
    );
}

#[test]
fn read_rejects_unknown_algorithm() {
    assert_eq!(
        read_hashes(b"SHA4\nx\t07\n").unwrap_err(),
        Error::UnsupportedAlgorithm
    );
    assert_eq!(read_hashes(b"").unwrap_err(), Error::UnsupportedAlgorithm);
}

#[test]
fn read_rejects_wrong_digest_length() {
    let err = read_hashes(b"MD5\nfile.txt\tdeadbeef\n").unwrap_err();
    assert_eq!(
        err,
        Error::ManifestCorrupt {
            line: 2,
            reason: CorruptReason::WrongDigestLength
        }
    );
}

#[test]
fn read_rejects_non_hex_digest() {
    let err = read_hashes(b"XOR8\nfile.txt\tzz\n").unwrap_err();
    assert_eq!(
        err,
        Error::ManifestCorrupt {
            line: 2,
            reason: CorruptReason::NonHexDigest
        }
    );
    let err = read_hashes(b"XOR8\nfile.txt\tAB\n").unwrap_err();
    assert_eq!(
        err,
        Error::ManifestCorrupt {
            line: 2,
            reason: CorruptReason::NonHexDigest
        }
    );
}

#[test]
fn read_rejects_missing_tab() {
    let err = read_hashes(b"XOR8\nfile.txt 07\n").unwrap_err();
    assert_eq!(
        err,
        Error::ManifestCorrupt {
            line: 2,
            reason: CorruptReason::WrongFieldCount
        }
    );
}

#[test]
fn read_rejects_extra_tab() {
    let err = read_hashes(b"XOR8\na\t07\tmore\n").unwrap_err();
    assert_eq!(
        err,
        Error::ManifestCorrupt {
            line: 2,
            reason: CorruptReason::WrongFieldCount
        }
    );
}

#[test]
fn read_rejects_duplicate_path() {
    let err = read_hashes(b"XOR8\na\t07\na\t08\n").unwrap_err();
    assert_eq!(
        err,
        Error::ManifestCorrupt {
            line: 3,
            reason: CorruptReason::DuplicatePath
        }
    );
}

#[test]
fn read_names_first_bad_line() {
    let err = read_hashes(b"XOR8\na\t07\nb\t08\nc no tab\n").unwrap_err();
    assert_eq!(
        err,
        Error::ManifestCorrupt {
            line: 4,
            reason: CorruptReason::WrongFieldCount
        }
    );
}

#[test]
fn write_gate_is_fail_closed() {
    assert_eq!(write_gate(false, false), Ok(()));
    assert_eq!(write_gate(false, true), Ok(()));
    assert_eq!(write_gate(true, false), Err(Error::OutputExists));
    assert_eq!(write_gate(true, true), Ok(()));
}
