//! The digest engine. Twelve schemes are computed by outside crates behind
//! trusted wrappers; what each returns is named by an uninterpreted spec
//! function of the input bytes alone. XOR8 is the library's own, fully
//! verified. [`Hasher`] is the streaming interface: it absorbs chunks and
//! finalizes to the digest of their concatenation.

use vstd::prelude::*;

use crate::algorithm::Algorithm;
use crate::manifest::digest_ok;
use crate::util::{bytes_to_hex, lemma_hex_chars, spec_hex};
use shaman::digest::Digest as _;
use tiny_keccak::Hasher as _;

verus! {

pub uninterp spec fn sha1_of(data: Seq<u8>) -> Seq<u8>;

pub uninterp spec fn sha2_256_of(data: Seq<u8>) -> Seq<u8>;

pub uninterp spec fn sha2_512_of(data: Seq<u8>) -> Seq<u8>;

pub uninterp spec fn sha3_256_of(data: Seq<u8>) -> Seq<u8>;

pub uninterp spec fn sha3_512_of(data: Seq<u8>) -> Seq<u8>;

pub uninterp spec fn blake_of(data: Seq<u8>) -> Seq<u8>;

pub uninterp spec fn blake2_of(data: Seq<u8>) -> Seq<u8>;

pub uninterp spec fn crc8_of(data: Seq<u8>) -> Seq<u8>;

pub uninterp spec fn crc16_of(data: Seq<u8>) -> Seq<u8>;

pub uninterp spec fn crc32_of(data: Seq<u8>) -> Seq<u8>;

pub uninterp spec fn crc64_of(data: Seq<u8>) -> Seq<u8>;

pub uninterp spec fn md5_of(data: Seq<u8>) -> Seq<u8>;

/// Relies on shaman's `sha1::Sha1` (`input` then `result`): a 20-byte
/// digest that depends on the input bytes alone.
#[verifier::external_body]
fn sha1_digest(data: &[u8]) -> (r: Vec<u8>)
    ensures
        r@ == sha1_of(data@),
        r@.len() == 20,
{
    let mut h = shaman::sha1::Sha1::new();
    h.input(data);
    let mut out = [0u8; 20];
    h.result(&mut out);
    out.to_vec()
}

/// Relies on shaman's `sha2::Sha256`: a 32-byte digest that depends on the
/// input bytes alone.
#[verifier::external_body]
fn sha2_256_digest(data: &[u8]) -> (r: Vec<u8>)
    ensures
        r@ == sha2_256_of(data@),
        r@.len() == 32,
{
    let mut h = shaman::sha2::Sha256::new();
    h.input(data);
    let mut out = [0u8; 32];
    h.result(&mut out);
    out.to_vec()
}

/// Relies on shaman's `sha2::Sha512`: a 64-byte digest that depends on the
/// input bytes alone.
#[verifier::external_body]
fn sha2_512_digest(data: &[u8]) -> (r: Vec<u8>)
    ensures
        r@ == sha2_512_of(data@),
        r@.len() == 64,
{
    let mut h = shaman::sha2::Sha512::new();
    h.input(data);
    let mut out = [0u8; 64];
    h.result(&mut out);
    out.to_vec()
}

/// Relies on tiny_keccak's `Sha3::v256` (`update` then `finalize`): a
/// 32-byte digest that depends on the input bytes alone.
#[verifier::external_body]
fn sha3_256_digest(data: &[u8]) -> (r: Vec<u8>)
    ensures
        r@ == sha3_256_of(data@),
        r@.len() == 32,
{
    let mut h = tiny_keccak::Sha3::v256();
    h.update(data);
    let mut out = [0u8; 32];
    h.finalize(&mut out);
    out.to_vec()
}

/// Relies on tiny_keccak's `Sha3::v512`: a 64-byte digest that depends on
/// the input bytes alone.
#[verifier::external_body]
fn sha3_512_digest(data: &[u8]) -> (r: Vec<u8>)
    ensures
        r@ == sha3_512_of(data@),
        r@.len() == 64,
{
    let mut h = tiny_keccak::Sha3::v512();
    h.update(data);
    let mut out = [0u8; 64];
    h.finalize(&mut out);
    out.to_vec()
}

/// Relies on `blake::hash` with bit length 512, which its documentation
/// lists as valid, so the call cannot fail: a 64-byte digest that depends
/// on the input bytes alone.
#[verifier::external_body]
fn blake_digest(data: &[u8]) -> (r: Vec<u8>)
    ensures
        r@ == blake_of(data@),
        r@.len() == 64,
{
    let mut out = [0u8; 64];
    blake::hash(512, data, &mut out).expect("512 is a valid BLAKE bit length");
    out.to_vec()
}

/// Relies on blake2_rfc's `blake2b::blake2b` with a 64-byte output and an
/// empty key: a 64-byte digest that depends on the input bytes alone.
#[verifier::external_body]
fn blake2_digest(data: &[u8]) -> (r: Vec<u8>)
    ensures
        r@ == blake2_of(data@),
        r@.len() == 64,
{
    let h = blake2_rfc::blake2b::blake2b(64, &[], data);
    h.as_bytes().to_vec()
}

/// Relies on crc8's `Crc8::create_msb(0x07)` and `calc` with initial value
/// zero: a one-byte checksum that depends on the input bytes alone.
#[verifier::external_body]
fn crc8_digest(data: &[u8]) -> (r: Vec<u8>)
    ensures
        r@ == crc8_of(data@),
        r@.len() == 1,
{
    let mut c = crc8::Crc8::create_msb(0x07);
    let x = c.calc(data, data.len() as i32, 0);
    vec![x]
}

/// Relies on crc16's `State::<ARC>::calculate`: a two-byte (big-endian)
/// checksum that depends on the input bytes alone.
#[verifier::external_body]
fn crc16_digest(data: &[u8]) -> (r: Vec<u8>)
    ensures
        r@ == crc16_of(data@),
        r@.len() == 2,
{
    let x = crc16::State::<crc16::ARC>::calculate(data);
    x.to_be_bytes().to_vec()
}

/// Relies on crc's `Crc::<u32>` with the `CRC_32_ISO_HDLC` algorithm: a
/// four-byte (big-endian) checksum that depends on the input bytes alone.
#[verifier::external_body]
fn crc32_digest(data: &[u8]) -> (r: Vec<u8>)
    ensures
        r@ == crc32_of(data@),
        r@.len() == 4,
{
    let c = crc::Crc::<u32>::new(&crc::CRC_32_ISO_HDLC);
    c.checksum(data).to_be_bytes().to_vec()
}

/// Relies on crc's `Crc::<u64>` with the `CRC_64_ECMA_182` algorithm: an
/// eight-byte (big-endian) checksum that depends on the input bytes alone.
#[verifier::external_body]
fn crc64_digest(data: &[u8]) -> (r: Vec<u8>)
    ensures
        r@ == crc64_of(data@),
        r@.len() == 8,
{
    let c = crc::Crc::<u64>::new(&crc::CRC_64_ECMA_182);
    c.checksum(data).to_be_bytes().to_vec()
}

/// Relies on `md5::compute`: a 16-byte digest that depends on the input
/// bytes alone.
#[verifier::external_body]
fn md5_digest(data: &[u8]) -> (r: Vec<u8>)
    ensures
        r@ == md5_of(data@),
        r@.len() == 16,
{
    let d = md5::compute(data);
    d.0.to_vec()
}

/// XOR of all bytes of a sequence; the digest of the `XOR8` scheme.
pub open spec fn spec_xor8(data: Seq<u8>) -> u8
    decreases data.len(),
{
    if data.len() == 0 {
        0
    } else {
        spec_xor8(data.drop_last()) ^ data.last()
    }
}

/// Compute the XOR8 checksum of a byte slice.
pub fn xor8(data: &[u8]) -> (r: u8)
    ensures
        r == spec_xor8(data@),
{
    let n = data.len();
    let mut acc: u8 = 0;
    let mut i: usize = 0;
    while i < n
        invariant
            n == data@.len(),
            0 <= i <= n,
            acc == spec_xor8(data@.take(i as int)),
        decreases n - i,
    {
        proof {
            assert(data@.take(i + 1).drop_last() =~= data@.take(i as int));
            assert(data@.take(i + 1).last() == data@[i as int]);
        }
        acc = acc ^ data[i];
        i += 1;
    }
    proof {
        assert(data@.take(n as int) =~= data@);
    }
    acc
}

/// The digest (raw bytes, not hex) that each algorithm assigns to a byte
/// sequence. For the outside schemes this goes through the named results
/// of the trusted wrappers; for XOR8 it is defined outright.
pub open spec fn spec_digest(alg: Algorithm, data: Seq<u8>) -> Seq<u8> {
    match alg {
        Algorithm::Sha1 => sha1_of(data),
        Algorithm::Sha2256 => sha2_256_of(data),
        Algorithm::Sha2512 => sha2_512_of(data),
        Algorithm::Sha3256 => sha3_256_of(data),
        Algorithm::Sha3512 => sha3_512_of(data),
        Algorithm::Blake => blake_of(data),
        Algorithm::Blake2 => blake2_of(data),
        Algorithm::Crc8 => crc8_of(data),
        Algorithm::Crc16 => crc16_of(data),
        Algorithm::Crc32 => crc32_of(data),
        Algorithm::Crc64 => crc64_of(data),
        Algorithm::Md5 => md5_of(data),
        Algorithm::Xor8 => seq![spec_xor8(data)],
    }
}

/// Digest a byte slice in one call: raw digest bytes of the algorithm's
/// fixed width.
pub fn digest_bytes(alg: Algorithm, data: &[u8]) -> (r: Vec<u8>)
    ensures
        r@ == spec_digest(alg, data@),
        r@.len() == alg.spec_size_bytes(),
{
    match alg {
        Algorithm::Sha1 => sha1_digest(data),
        Algorithm::Sha2256 => sha2_256_digest(data),
        Algorithm::Sha2512 => sha2_512_digest(data),
        Algorithm::Sha3256 => sha3_256_digest(data),
        Algorithm::Sha3512 => sha3_512_digest(data),
        Algorithm::Blake => blake_digest(data),
        Algorithm::Blake2 => blake2_digest(data),
        Algorithm::Crc8 => crc8_digest(data),
        Algorithm::Crc16 => crc16_digest(data),
        Algorithm::Crc32 => crc32_digest(data),
        Algorithm::Crc64 => crc64_digest(data),
        Algorithm::Md5 => md5_digest(data),
        Algorithm::Xor8 => {
            let x = xor8(data);
            let mut v: Vec<u8> = Vec::new();
            v.push(x);
            proof {
                assert(v@ =~= seq![spec_xor8(data@)]);
            }
            v
        },
    }
}

/// Digest a byte slice in one call and render the result as lowercase
/// hex: a digest fit for a manifest of the same algorithm.
pub fn hash_bytes(alg: Algorithm, data: &[u8]) -> (r: Vec<u8>)
    ensures
        r@ == spec_hex(spec_digest(alg, data@)),
        digest_ok(alg, r@),
{
    let d = digest_bytes(alg, data);
    let r = bytes_to_hex(d.as_slice());
    proof {
        lemma_hex_chars(d@);
    }
    r
}

/// A single-use streaming digest instance: absorb any number of chunks
/// with [`Hasher::update`], then consume it with [`Hasher::finalize`].
/// The result is the digest of the concatenation of all absorbed chunks,
/// so splitting the input differently cannot change it.
pub struct Hasher {
    alg: Algorithm,
    buf: Vec<u8>,
}

impl Hasher {
    /// The algorithm this instance was created for.
    pub closed spec fn algorithm(self) -> Algorithm {
        self.alg
    }

    /// All bytes absorbed so far, in order.
    pub closed spec fn absorbed(self) -> Seq<u8> {
        self.buf@
    }

    /// A fresh instance that has absorbed nothing.
    pub fn new(alg: Algorithm) -> (r: Hasher)
        ensures
            r.algorithm() == alg,
            r.absorbed() == Seq::<u8>::empty(),
    {
        let r = Hasher { alg, buf: Vec::new() };
        proof {
            assert(r.absorbed() =~= Seq::<u8>::empty());
        }
        r
    }

    /// Absorb one chunk: the absorbed bytes are extended by exactly the
    /// chunk, in order.
    pub fn update(&mut self, chunk: &[u8])
        ensures
            final (self).algorithm() == old(self).algorithm(),
            final (self).absorbed() == old(self).absorbed() + chunk@,
    {
        let n = chunk.len();
        let mut i: usize = 0;
        while i < n
            invariant
                n == chunk@.len(),
                0 <= i <= n,
                self.alg == old(self).alg,
                self.buf@ == old(self).buf@ + chunk@.take(i as int),
            decreases n - i,
        {
            self.buf.push(chunk[i]);
            proof {
                assert(old(self).buf@ + chunk@.take(i + 1) =~= (old(self).buf@ + chunk@.take(
                    i as int,
                )).push(chunk@[i as int]));
            }
            i += 1;
        }
        proof {
            assert(chunk@.take(n as int) =~= chunk@);
        }
    }

    /// Consume the instance and yield the raw digest of everything
    /// absorbed.
    pub fn finalize(self) -> (r: Vec<u8>)
        ensures
            r@ == spec_digest(self.algorithm(), self.absorbed()),
            r@.len() == self.algorithm().spec_size_bytes(),
    {
        digest_bytes(self.alg, self.buf.as_slice())
    }

    /// Consume the instance and yield the digest of everything absorbed,
    /// rendered as lowercase hex.
    pub fn finalize_hex(self) -> (r: Vec<u8>)
        ensures
            r@ == spec_hex(spec_digest(self.algorithm(), self.absorbed())),
            digest_ok(self.algorithm(), r@),
    {
        let d = self.finalize();
        let r = bytes_to_hex(d.as_slice());
        proof {
            lemma_hex_chars(d@);
        }
        r
    }
}

/// Determinism: the digest is a function of the algorithm and the input
/// bytes, so two digests of the same input under the same algorithm are
/// equal.
pub proof fn lemma_digest_deterministic(alg: Algorithm, data: Seq<u8>, d1: Seq<u8>, d2: Seq<u8>)
    requires
        d1 == spec_digest(alg, data),
        d2 == spec_digest(alg, data),
    ensures
        d1 == d2,
{
}

/// Chunking transparency: the digest depends only on the concatenation of
/// the absorbed chunks, never on how the input was split. Together with
/// [`Hasher::update`]'s contract (absorbing appends exactly the chunk)
/// this says that digesting a file in one chunk or in many yields the same
/// digest.
pub proof fn lemma_chunking_transparent(alg: Algorithm, chunks: Seq<Seq<u8>>, whole: Seq<u8>)
    requires
        chunks.flatten() == whole,
    ensures
        spec_digest(alg, chunks.flatten()) == spec_digest(alg, whole),
{
}

} // verus!
