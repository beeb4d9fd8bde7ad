//! The registry of supported digest algorithms: canonical names,
//! case-insensitive lookup, and fixed digest widths.

use vstd::prelude::*;

use crate::errors::Error;
use crate::util::{bytes_eq, spec_upper, upper_bytes};

verus! {

/// The closed set of supported digest schemes. Each has a canonical
/// (uppercase) name and a fixed output width that never varies with the
/// input length.
#[derive(Clone, Copy, Debug, PartialEq, Eq, Structural)]
pub enum Algorithm {
    Sha1,
    Sha2256,
    Sha2512,
    Sha3256,
    Sha3512,
    Blake,
    Blake2,
    Crc8,
    Crc16,
    Crc32,
    Crc64,
    Md5,
    Xor8,
}

impl Algorithm {
    /// Width of this algorithm's digest, in bytes.
    pub open spec fn spec_size_bytes(self) -> nat {
        match self {
            Algorithm::Sha1 => 20,
            Algorithm::Sha2256 => 32,
            Algorithm::Sha2512 => 64,
            Algorithm::Sha3256 => 32,
            Algorithm::Sha3512 => 64,
            Algorithm::Blake => 64,
            Algorithm::Blake2 => 64,
            Algorithm::Crc8 => 1,
            Algorithm::Crc16 => 2,
            Algorithm::Crc32 => 4,
            Algorithm::Crc64 => 8,
            Algorithm::Md5 => 16,
            Algorithm::Xor8 => 1,
        }
    }

    /// Width of this algorithm's digest, in bytes.
    pub fn size_bytes(&self) -> (r: usize)
        ensures
            r == self.spec_size_bytes(),
    {
        match self {
            Algorithm::Sha1 => 20,
            Algorithm::Sha2256 => 32,
            Algorithm::Sha2512 => 64,
            Algorithm::Sha3256 => 32,
            Algorithm::Sha3512 => 64,
            Algorithm::Blake => 64,
            Algorithm::Blake2 => 64,
            Algorithm::Crc8 => 1,
            Algorithm::Crc16 => 2,
            Algorithm::Crc32 => 4,
            Algorithm::Crc64 => 8,
            Algorithm::Md5 => 16,
            Algorithm::Xor8 => 1,
        }
    }

    /// Width of this algorithm's digest, in bits.
    pub fn size_bits(&self) -> (r: usize)
        ensures
            r == 8 * self.spec_size_bytes(),
    {
        let b = self.size_bytes();
        b * 8
    }

    /// The canonical (uppercase ASCII) name, as bytes.
    pub open spec fn spec_name(self) -> Seq<u8> {
        match self {
            Algorithm::Sha1 => seq![83u8, 72u8, 65u8, 49u8],
            Algorithm::Sha2256 => seq![83u8, 72u8, 65u8, 50u8, 45u8, 50u8, 53u8, 54u8],
            Algorithm::Sha2512 => seq![83u8, 72u8, 65u8, 50u8, 45u8, 53u8, 49u8, 50u8],
            Algorithm::Sha3256 => seq![83u8, 72u8, 65u8, 51u8, 45u8, 50u8, 53u8, 54u8],
            Algorithm::Sha3512 => seq![83u8, 72u8, 65u8, 51u8, 45u8, 53u8, 49u8, 50u8],
            Algorithm::Blake => seq![66u8, 76u8, 65u8, 75u8, 69u8],
            Algorithm::Blake2 => seq![66u8, 76u8, 65u8, 75u8, 69u8, 50u8],
            Algorithm::Crc8 => seq![67u8, 82u8, 67u8, 56u8],
            Algorithm::Crc16 => seq![67u8, 82u8, 67u8, 49u8, 54u8],
            Algorithm::Crc32 => seq![67u8, 82u8, 67u8, 51u8, 50u8],
            Algorithm::Crc64 => seq![67u8, 82u8, 67u8, 54u8, 52u8],
            Algorithm::Md5 => seq![77u8, 68u8, 53u8],
            Algorithm::Xor8 => seq![88u8, 79u8, 82u8, 56u8],
        }
    }

    /// The canonical (uppercase ASCII) name, as bytes.
    pub fn name(&self) -> (r: Vec<u8>)
        ensures
            r@ == self.spec_name(),
    {
        let mut v: Vec<u8> = Vec::new();
        match self {
            Algorithm::Sha1 => {
                v.push(83u8);
                v.push(72u8);
                v.push(65u8);
                v.push(49u8);
            },
            Algorithm::Sha2256 => {
                v.push(83u8);
                v.push(72u8);
                v.push(65u8);
                v.push(50u8);
                v.push(45u8);
                v.push(50u8);
                v.push(53u8);
                v.push(54u8);
            },
            Algorithm::Sha2512 => {
                v.push(83u8);
                v.push(72u8);
                v.push(65u8);
                v.push(50u8);
                v.push(45u8);
                v.push(53u8);
                v.push(49u8);
                v.push(50u8);
            },
            Algorithm::Sha3256 => {
                v.push(83u8);
                v.push(72u8);
                v.push(65u8);
                v.push(51u8);
                v.push(45u8);
                v.push(50u8);
                v.push(53u8);
                v.push(54u8);
            },
            Algorithm::Sha3512 => {
                v.push(83u8);
                v.push(72u8);
                v.push(65u8);
                v.push(51u8);
                v.push(45u8);
                v.push(53u8);
                v.push(49u8);
                v.push(50u8);
            },
            Algorithm::Blake => {
                v.push(66u8);
                v.push(76u8);
                v.push(65u8);
                v.push(75u8);
                v.push(69u8);
            },
            Algorithm::Blake2 => {
                v.push(66u8);
                v.push(76u8);
                v.push(65u8);
                v.push(75u8);
                v.push(69u8);
                v.push(50u8);
            },
            Algorithm::Crc8 => {
                v.push(67u8);
                v.push(82u8);
                v.push(67u8);
                v.push(56u8);
            },
            Algorithm::Crc16 => {
                v.push(67u8);
                v.push(82u8);
                v.push(67u8);
                v.push(49u8);
                v.push(54u8);
            },
            Algorithm::Crc32 => {
                v.push(67u8);
                v.push(82u8);
                v.push(67u8);
                v.push(51u8);
                v.push(50u8);
            },
            Algorithm::Crc64 => {
                v.push(67u8);
                v.push(82u8);
                v.push(67u8);
                v.push(54u8);
                v.push(52u8);
            },
            Algorithm::Md5 => {
                v.push(77u8);
                v.push(68u8);
                v.push(53u8);
            },
            Algorithm::Xor8 => {
                v.push(88u8);
                v.push(79u8);
                v.push(82u8);
                v.push(56u8);
            },
        }
        proof {
            assert(v@ =~= self.spec_name());
        }
        v
    }
}



/// Which algorithm, if any, a name denotes: the name is uppercased and
/// held against each canonical name.
pub open spec fn spec_lookup_name(s: Seq<u8>) -> Option<Algorithm> {
    let u = spec_upper(s);
    if u == Algorithm::Sha1.spec_name() {
        Some(Algorithm::Sha1)
    } else if u == Algorithm::Sha2256.spec_name() {
        Some(Algorithm::Sha2256)
    } else if u == Algorithm::Sha2512.spec_name() {
        Some(Algorithm::Sha2512)
    } else if u == Algorithm::Sha3256.spec_name() {
        Some(Algorithm::Sha3256)
    } else if u == Algorithm::Sha3512.spec_name() {
        Some(Algorithm::Sha3512)
    } else if u == Algorithm::Blake.spec_name() {
        Some(Algorithm::Blake)
    } else if u == Algorithm::Blake2.spec_name() {
        Some(Algorithm::Blake2)
    } else if u == Algorithm::Crc8.spec_name() {
        Some(Algorithm::Crc8)
    } else if u == Algorithm::Crc16.spec_name() {
        Some(Algorithm::Crc16)
    } else if u == Algorithm::Crc32.spec_name() {
        Some(Algorithm::Crc32)
    } else if u == Algorithm::Crc64.spec_name() {
        Some(Algorithm::Crc64)
    } else if u == Algorithm::Md5.spec_name() {
        Some(Algorithm::Md5)
    } else if u == Algorithm::Xor8.spec_name() {
        Some(Algorithm::Xor8)
    } else {
        None
    }
}



/// Look an algorithm up by name, case-insensitively. Returns
/// `Err(UnsupportedAlgorithm)` exactly when the name matches no canonical
/// name of the registry.
pub fn lookup_algorithm(name: &[u8]) -> (r: Result<Algorithm, Error>)
    ensures
        match r {
            Ok(a) => spec_lookup_name(name@) == Some(a),
            Err(e) => e == Error::UnsupportedAlgorithm && spec_lookup_name(name@) is None,
        },
{
    let u = upper_bytes(name);
    if matches_name(&u, Algorithm::Sha1) {
        Ok(Algorithm::Sha1)
    } else if matches_name(&u, Algorithm::Sha2256) {
        Ok(Algorithm::Sha2256)
    } else if matches_name(&u, Algorithm::Sha2512) {
        Ok(Algorithm::Sha2512)
    } else if matches_name(&u, Algorithm::Sha3256) {
        Ok(Algorithm::Sha3256)
    } else if matches_name(&u, Algorithm::Sha3512) {
        Ok(Algorithm::Sha3512)
    } else if matches_name(&u, Algorithm::Blake) {
        Ok(Algorithm::Blake)
    } else if matches_name(&u, Algorithm::Blake2) {
        Ok(Algorithm::Blake2)
    } else if matches_name(&u, Algorithm::Crc8) {
        Ok(Algorithm::Crc8)
    } else if matches_name(&u, Algorithm::Crc16) {
        Ok(Algorithm::Crc16)
    } else if matches_name(&u, Algorithm::Crc32) {
        Ok(Algorithm::Crc32)
    } else if matches_name(&u, Algorithm::Crc64) {
        Ok(Algorithm::Crc64)
    } else if matches_name(&u, Algorithm::Md5) {
        Ok(Algorithm::Md5)
    } else if matches_name(&u, Algorithm::Xor8) {
        Ok(Algorithm::Xor8)
    } else {
        Err(Error::UnsupportedAlgorithm)
    }
}

/// Whether `u` is exactly the canonical name of `a`.
fn matches_name(u: &Vec<u8>, a: Algorithm) -> (r: bool)
    ensures
        r == (u@ == a.spec_name()),
{
    let cn = a.name();
    bytes_eq(u.as_slice(), cn.as_slice())
}


/// Canonical names are made of `-`, digits and uppercase letters (bytes
/// 45 to 90), are at least three bytes long, uppercase to themselves,
/// and each resolves back to its own algorithm.
pub proof fn lemma_name_facts(alg: Algorithm)
    ensures
        alg.spec_name().len() >= 3,
        forall|k: int|
            0 <= k < alg.spec_name().len() ==> 45 <= (#[trigger] alg.spec_name()[k]) <= 90,
        spec_upper(alg.spec_name()) == alg.spec_name(),
        spec_lookup_name(alg.spec_name()) == Some(alg),
{
    let n = alg.spec_name();
    assert forall|k: int| 0 <= k < n.len() implies 45 <= (#[trigger] n[k]) <= 90 by {
        match alg {
            Algorithm::Sha1 => {},
            Algorithm::Sha2256 => {},
            Algorithm::Sha2512 => {},
            Algorithm::Sha3256 => {},
            Algorithm::Sha3512 => {},
            Algorithm::Blake => {},
            Algorithm::Blake2 => {},
            Algorithm::Crc8 => {},
            Algorithm::Crc16 => {},
            Algorithm::Crc32 => {},
            Algorithm::Crc64 => {},
            Algorithm::Md5 => {},
            Algorithm::Xor8 => {},
        }
    }
    assert(spec_upper(n) =~= n);
    match alg {
        Algorithm::Sha1 => {},
        Algorithm::Sha2256 => {},
        Algorithm::Sha2512 => {},
        Algorithm::Sha3256 => {},
        Algorithm::Sha3512 => {},
        Algorithm::Blake => {},
        Algorithm::Blake2 => {},
        Algorithm::Crc8 => {},
        Algorithm::Crc16 => {},
        Algorithm::Crc32 => {},
        Algorithm::Crc64 => {},
        Algorithm::Md5 => {},
        Algorithm::Xor8 => {},
    }
}

} // verus!
