//! The manifest codec: the line-oriented text format, its serializer, its
//! parser, and the proof that reading back what was written restores the
//! manifest. The format is one header line naming the algorithm, then one
//! line per entry: path, tab, lowercase hex digest. Trailing blank lines
//! are ignored; anything else malformed is a hard failure naming its line.

use vstd::prelude::*;

use crate::algorithm::{spec_lookup_name, Algorithm};
use crate::util::spec_upper;
use crate::errors::{CorruptReason, Error};
use crate::manifest::{digest_ok, manifest_ok, path_ok, spec_lookup, Manifest};
use crate::util::{is_hex_digit, spec_find_from};

verus! {

/// One serialized entry line, newline included.
pub open spec fn spec_encode_entry(e: (Seq<u8>, Seq<u8>)) -> Seq<u8> {
    e.0 + seq![9u8] + e.1 + seq![10u8]
}

/// The serialized entry lines, in manifest order.
pub open spec fn spec_encode_entries(m: Seq<(Seq<u8>, Seq<u8>)>) -> Seq<u8>
    decreases m.len(),
{
    if m.len() == 0 {
        Seq::empty()
    } else {
        spec_encode_entry(m.first()) + spec_encode_entries(m.drop_first())
    }
}

/// The whole serialized manifest: algorithm name, newline, entry lines.
pub open spec fn spec_encode(alg: Algorithm, m: Seq<(Seq<u8>, Seq<u8>)>) -> Seq<u8> {
    alg.spec_name() + seq![10u8] + spec_encode_entries(m)
}

/// Serializing is per-entry: appending an entry appends its line.
pub proof fn lemma_encode_entries_snoc(m: Seq<(Seq<u8>, Seq<u8>)>, e: (Seq<u8>, Seq<u8>))
    ensures
        spec_encode_entries(m.push(e)) == spec_encode_entries(m) + spec_encode_entry(e),
    decreases m.len(),
{
    if m.len() == 0 {
        assert(m.push(e).first() == e);
        assert(m.push(e).drop_first() =~= Seq::<(Seq<u8>, Seq<u8>)>::empty());
        assert(spec_encode_entry(e) + spec_encode_entries(Seq::empty()) =~= spec_encode_entries(m)
            + spec_encode_entry(e));
    } else {
        assert(m.push(e).first() == m.first());
        assert(m.push(e).drop_first() =~= m.drop_first().push(e));
        lemma_encode_entries_snoc(m.drop_first(), e);
        assert(spec_encode_entry(m.first()) + (spec_encode_entries(m.drop_first())
            + spec_encode_entry(e)) =~= (spec_encode_entry(m.first()) + spec_encode_entries(
            m.drop_first(),
        )) + spec_encode_entry(e));
    }
}

/// Serialize a manifest for `alg` to the on-disk byte format.
pub fn write_hashes(alg: Algorithm, m: &Manifest) -> (r: Vec<u8>)
    ensures
        r@ == spec_encode(alg, m@),
{
    let mut out: Vec<u8> = alg.name();
    out.push(10u8);
    proof {
        assert(out@ =~= alg.spec_name() + seq![10u8] + spec_encode_entries(m@.take(0)));
    }
    let n = m.len();
    let mut i: usize = 0;
    while i < n
        invariant
            n == m@.len(),
            0 <= i <= n,
            out@ == alg.spec_name() + seq![10u8] + spec_encode_entries(m@.take(i as int)),
        decreases n - i,
    {
        let e = m.entry_at(i);
        crate::util::append_bytes(&mut out, e.path.as_slice());
        out.push(9u8);
        crate::util::append_bytes(&mut out, e.digest.as_slice());
        out.push(10u8);
        proof {
            assert(m@.take(i + 1) =~= m@.take(i as int).push(m@[i as int]));
            lemma_encode_entries_snoc(m@.take(i as int), m@[i as int]);
            assert(out@ =~= alg.spec_name() + seq![10u8] + (spec_encode_entries(
                m@.take(i as int),
            ) + spec_encode_entry(m@[i as int])));
        }
        i += 1;
    }
    proof {
        assert(m@.take(n as int) =~= m@);
    }
    out
}

/// How one entry line parses: the first tab splits path from digest; a
/// missing tab, a second tab or an empty path is a field-count failure,
/// then the digest must be lowercase hex, then of the declared width.
pub open spec fn spec_parse_entry(alg: Algorithm, line: Seq<u8>) -> Result<
    (Seq<u8>, Seq<u8>),
    CorruptReason,
> {
    let t = spec_find_from(line, 0, 9u8);
    if t >= line.len() {
        Err(CorruptReason::WrongFieldCount)
    } else if spec_find_from(line, t + 1, 9u8) < line.len() {
        Err(CorruptReason::WrongFieldCount)
    } else if t == 0 {
        Err(CorruptReason::WrongFieldCount)
    } else {
        let digest = line.skip(t + 1);
        if exists|k: int| 0 <= k < digest.len() && !is_hex_digit(#[trigger] digest[k]) {
            Err(CorruptReason::NonHexDigest)
        } else if digest.len() != 2 * alg.spec_size_bytes() {
            Err(CorruptReason::WrongDigestLength)
        } else {
            Ok((line.take(t), digest))
        }
    }
}

/// Whether everything from `i` on is newlines: only trailing blank lines.
pub open spec fn spec_all_newlines(s: Seq<u8>, i: int) -> bool {
    forall|k: int| i <= k < s.len() ==> s[k] == 10u8
}

/// How the entry lines from byte `i` (which starts line `lineno`) parse,
/// given the entries `acc` of earlier lines: the accumulated entries once
/// the input or a blank tail is reached, or the first failure, naming its
/// line. A path already seen is a duplicate; a blank line is ignored only
/// as part of a blank tail.
pub open spec fn spec_parse_rest(
    alg: Algorithm,
    s: Seq<u8>,
    i: int,
    lineno: int,
    acc: Seq<(Seq<u8>, Seq<u8>)>,
) -> Result<Seq<(Seq<u8>, Seq<u8>)>, Error>
    decreases s.len() + 1 - i,
    via spec_parse_rest_decreases
{
    if i < 0 || i >= s.len() {
        Ok(acc)
    } else {
        let j = spec_find_from(s, i, 10u8);
        let line = s.subrange(i, j);
        if line.len() == 0 {
            if spec_all_newlines(s, i) {
                Ok(acc)
            } else {
                Err(
                    Error::ManifestCorrupt {
                        line: lineno as usize,
                        reason: CorruptReason::WrongFieldCount,
                    },
                )
            }
        } else {
            match spec_parse_entry(alg, line) {
                Err(reason) => Err(Error::ManifestCorrupt { line: lineno as usize, reason }),
                Ok(e) => if spec_lookup(acc, e.0) is Some {
                    Err(
                        Error::ManifestCorrupt {
                            line: lineno as usize,
                            reason: CorruptReason::DuplicatePath,
                        },
                    )
                } else {
                    spec_parse_rest(alg, s, j + 1, lineno + 1, acc.push(e))
                },
            }
        }
    }
}

#[via_fn]
proof fn spec_parse_rest_decreases(
    alg: Algorithm,
    s: Seq<u8>,
    i: int,
    lineno: int,
    acc: Seq<(Seq<u8>, Seq<u8>)>,
) {
    if 0 <= i < s.len() {
        crate::util::lemma_find_from(s, i, 10u8);
    }
}

/// How a whole manifest source parses: the first line must name a
/// supported algorithm, the rest are entry lines.
pub open spec fn spec_read(s: Seq<u8>) -> Result<(Algorithm, Seq<(Seq<u8>, Seq<u8>)>), Error> {
    let h = spec_find_from(s, 0, 10u8);
    match spec_lookup_name(s.take(h)) {
        Option::None => Err(Error::UnsupportedAlgorithm),
        Some(alg) => if h >= s.len() {
            Ok((alg, Seq::empty()))
        } else {
            match spec_parse_rest(alg, s, h + 1, 2, Seq::empty()) {
                Ok(entries) => Ok((alg, entries)),
                Err(e) => Err(e),
            }
        },
    }
}

/// Whether every byte of a slice is a lowercase hex digit.
fn all_hex(s: &[u8]) -> (r: bool)
    ensures
        r == (forall|k: int| 0 <= k < s@.len() ==> is_hex_digit(#[trigger] s@[k])),
{
    let n = s.len();
    let mut i: usize = 0;
    while i < n
        invariant
            n == s@.len(),
            0 <= i <= n,
            forall|k: int| 0 <= k < i ==> is_hex_digit(#[trigger] s@[k]),
        decreases n - i,
    {
        let b = s[i];
        if !((48 <= b && b <= 57) || (97 <= b && b <= 102)) {
            proof {
                assert(!is_hex_digit(s@[i as int]));
            }
            return false;
        }
        i += 1;
    }
    true
}

/// Whether everything from `start` on is newline bytes.
fn all_newlines_from(s: &[u8], start: usize) -> (r: bool)
    requires
        start <= s@.len(),
    ensures
        r == spec_all_newlines(s@, start as int),
{
    let n = s.len();
    let mut i: usize = start;
    while i < n
        invariant
            n == s@.len(),
            start <= i <= n,
            forall|k: int| start <= k < i ==> s@[k] == 10u8,
        decreases n - i,
    {
        if s[i] != 10 {
            proof {
                assert(s@[i as int] != 10u8);
            }
            return false;
        }
        i += 1;
    }
    true
}

/// Parse one entry line (no newline in it).
fn parse_entry_line(alg: Algorithm, line: &[u8]) -> (r: Result<(Vec<u8>, Vec<u8>), CorruptReason>)
    ensures
        match r {
            Ok((p, d)) => spec_parse_entry(alg, line@) == Ok::<_, CorruptReason>((p@, d@))
                && p@.len() > 0 && !p@.contains(9u8) && digest_ok(alg, d@) && p@.len()
                <= line@.len() && (forall|k: int|
                0 <= k < p@.len() ==> p@[k] == line@[k]),
            Err(reason) => spec_parse_entry(alg, line@) == Err::<(Seq<u8>, Seq<u8>), _>(reason),
        },
{
    let n = line.len();
    let t = crate::util::find_from(line, 0, 9);
    proof {
        crate::util::lemma_find_from(line@, 0, 9u8);
    }
    if t >= n {
        return Err(CorruptReason::WrongFieldCount);
    }
    let t2 = crate::util::find_from(line, t + 1, 9);
    if t2 < n {
        return Err(CorruptReason::WrongFieldCount);
    }
    if t == 0 {
        return Err(CorruptReason::WrongFieldCount);
    }
    let digest = vstd::slice::slice_subrange(line, t + 1, n);
    if !all_hex(digest) {
        proof {
            let dv = line@.skip(t + 1);
            assert(dv =~= line@.subrange(t + 1, n as int));
            assert(exists|k: int| 0 <= k < dv.len() && !is_hex_digit(#[trigger] dv[k]));
        }
        return Err(CorruptReason::NonHexDigest);
    }
    let want = alg.size_bytes();
    if digest.len() != 2 * want {
        proof {
            assert(line@.skip(t + 1) =~= line@.subrange(t + 1, n as int));
        }
        return Err(CorruptReason::WrongDigestLength);
    }
    let p = vstd::slice::slice_to_vec(vstd::slice::slice_subrange(line, 0, t));
    let d = vstd::slice::slice_to_vec(digest);
    proof {
        let dv = line@.skip(t + 1);
        assert(dv =~= line@.subrange(t + 1, n as int));
        assert(line@.take(t as int) =~= line@.subrange(0, t as int));
        crate::util::lemma_find_from(line@, 0, 9u8);
        assert(forall|k: int| 0 <= k < t ==> line@[k] != 9u8);
        assert(!p@.contains(9u8)) by {
            if p@.contains(9u8) {
                let k = choose|k: int| 0 <= k < p@.len() && p@[k] == 9u8;
                assert(line@[k] == 9u8);
            }
        }
    }
    Ok((p, d))
}

/// Parse a manifest source.
///
/// On success the algorithm and entries are exactly what [`spec_read`]
/// yields of the bytes, and the manifest is well formed for the declared
/// algorithm; on failure the error is exactly the one [`spec_read`]
/// names: `UnsupportedAlgorithm` for a bad header, else the first
/// offending line with its reason.
pub fn read_hashes(source: &[u8]) -> (r: Result<(Algorithm, Manifest), Error>)
    requires
        source@.len() < usize::MAX,
    ensures
        match r {
            Ok(am) => spec_read(source@) == Ok::<_, Error>((am.0, am.1@)) && manifest_ok(
                am.0,
                am.1@,
            ),
            Err(e) => spec_read(source@) == Err::<(Algorithm, Seq<(Seq<u8>, Seq<u8>)>), Error>(e),
        },
{
    let n = source.len();
    let h = crate::util::find_from(source, 0, 10);
    proof {
        crate::util::lemma_find_from(source@, 0, 10u8);
    }
    let header = vstd::slice::slice_subrange(source, 0, h);
    proof {
        assert(header@ =~= source@.take(h as int));
    }
    let alg = match crate::algorithm::lookup_algorithm(header) {
        Ok(a) => a,
        Err(e) => {
            return Err(e);
        },
    };
    let mut m = Manifest::new();
    if h >= n {
        return Ok((alg, m));
    }
    proof {
        assert(spec_upper(source@.take(h as int)).len() == h);
        assert(alg.spec_name().len() >= 3);
    }
    let mut i: usize = h + 1;
    let mut lineno: usize = 2;
    while i < n
        invariant
            n == source@.len() < usize::MAX,
            1 <= h < n,
            h == spec_find_from(source@, 0, 10u8),
            spec_lookup_name(source@.take(h as int)) == Some(alg),
            i <= n + 1,
            2 <= lineno <= i,
            spec_parse_rest(alg, source@, h + 1, 2, Seq::empty()) == spec_parse_rest(
                alg,
                source@,
                i as int,
                lineno as int,
                m@,
            ),
            manifest_ok(alg, m@),
        decreases n + 1 - i,
    {
        let j = crate::util::find_from(source, i, 10);
        proof {
            crate::util::lemma_find_from(source@, i as int, 10u8);
        }
        if j == i {
            if all_newlines_from(source, i) {
                proof {
                    assert(source@.subrange(i as int, j as int).len() == 0);
                    assert(spec_parse_rest(alg, source@, i as int, lineno as int, m@)
                        == Ok::<Seq<(Seq<u8>, Seq<u8>)>, Error>(m@));
                }
                return Ok((alg, m));
            } else {
                proof {
                    assert(source@.subrange(i as int, j as int).len() == 0);
                    assert(spec_parse_rest(alg, source@, i as int, lineno as int, m@)
                        == Err::<Seq<(Seq<u8>, Seq<u8>)>, Error>(
                        Error::ManifestCorrupt {
                            line: lineno,
                            reason: CorruptReason::WrongFieldCount,
                        },
                    ));
                }
                return Err(
                    Error::ManifestCorrupt { line: lineno, reason: CorruptReason::WrongFieldCount },
                );
            }
        }
        let line = vstd::slice::slice_subrange(source, i, j);
        match parse_entry_line(alg, line) {
            Err(reason) => {
                proof {
                    assert(spec_parse_rest(alg, source@, i as int, lineno as int, m@)
                        == Err::<Seq<(Seq<u8>, Seq<u8>)>, Error>(
                        Error::ManifestCorrupt { line: lineno, reason },
                    ));
                }
                return Err(Error::ManifestCorrupt { line: lineno, reason });
            },
            Ok((path, digest)) => {
                if m.contains_path(path.as_slice()) {
                    proof {
                        assert(spec_parse_rest(alg, source@, i as int, lineno as int, m@)
                            == Err::<Seq<(Seq<u8>, Seq<u8>)>, Error>(
                            Error::ManifestCorrupt {
                                line: lineno,
                                reason: CorruptReason::DuplicatePath,
                            },
                        ));
                    }
                    return Err(
                        Error::ManifestCorrupt {
                            line: lineno,
                            reason: CorruptReason::DuplicatePath,
                        },
                    );
                }
                proof {
                    assert(!path@.contains(10u8)) by {
                        if path@.contains(10u8) {
                            let k = choose|k: int| 0 <= k < path@.len() && path@[k] == 10u8;
                            assert(line@[k] == source@[i + k]);
                        }
                    }
                    assert(path_ok(path@));
                    Manifest::lemma_insert_unique(m@, (path@, digest@));
                }
                let ghost old_m = m@;
                m.insert(path, digest);
                proof {
                    assert(manifest_ok(alg, m@)) by {
                        assert(forall|k: int|
                            0 <= k < old_m.len() ==> m@[k] == #[trigger] old_m[k]);
                    }
                }
                proof {
                    assert(spec_parse_rest(alg, source@, i as int, lineno as int, old_m)
                        == spec_parse_rest(
                        alg,
                        source@,
                        j + 1,
                        lineno + 1,
                        old_m.push((path@, digest@)),
                    ));
                }
                i = j + 1;
                lineno = lineno + 1;
            },
        }
    }
    Ok((alg, m))
}

/// Parsing undoes serializing, entry by entry: the bytes from `i` on
/// hold exactly the lines of `rest`, whose entries are valid and disjoint
/// from `acc`, so parsing yields `acc` extended by `rest`.
proof fn lemma_parse_of_encode(
    alg: Algorithm,
    s: Seq<u8>,
    i: int,
    lineno: int,
    acc: Seq<(Seq<u8>, Seq<u8>)>,
    rest: Seq<(Seq<u8>, Seq<u8>)>,
)
    requires
        0 <= i <= s.len(),
        s.skip(i) == spec_encode_entries(rest),
        forall|k: int|
            0 <= k < rest.len() ==> path_ok((#[trigger] rest[k]).0) && digest_ok(alg, rest[k].1),
        forall|k: int| 0 <= k < rest.len() ==> spec_lookup(acc, (#[trigger] rest[k]).0) is None,
        forall|a: int, b: int|
            0 <= a < b < rest.len() ==> (#[trigger] rest[a]).0 != (#[trigger] rest[b]).0,
    ensures
        spec_parse_rest(alg, s, i, lineno, acc) == Ok::<Seq<(Seq<u8>, Seq<u8>)>, Error>(acc + rest),
    decreases rest.len(),
{
    if rest.len() == 0 {
        assert(s.skip(i).len() == 0);
        assert(acc + rest =~= acc);
    } else {
        let e = rest.first();
        let rest1 = rest.drop_first();
        let pl = e.0.len() as int;
        let dl = e.1.len() as int;
        let j = i + pl + 1 + dl;
        assert(spec_encode_entries(rest) == spec_encode_entry(e) + spec_encode_entries(rest1));
        assert forall|k: int| 0 <= k < pl implies s[i + k] == e.0[k] by {
            assert(s.skip(i)[k] == s[i + k]);
        }
        assert(s.skip(i)[pl] == s[i + pl]);
        assert(s[i + pl] == 9u8);
        assert forall|k: int| 0 <= k < dl implies s[i + pl + 1 + k] == e.1[k] by {
            assert(s.skip(i)[pl + 1 + k] == s[i + pl + 1 + k]);
        }
        assert(s.skip(i)[pl + 1 + dl] == s[j]);
        assert(s[j] == 10u8);
        assert(j < s.len());
        assert forall|k: int| i <= k < j implies s[k] != 10u8 by {
            if k < i + pl {
                assert(s[k] == e.0[k - i]);
                assert(!e.0.contains(10u8));
                if s[k] == 10u8 {
                    assert(e.0[k - i] == 10u8);
                }
            } else if k == i + pl {
            } else {
                assert(s[k] == e.1[k - i - pl - 1]);
                assert(is_hex_digit(e.1[k - i - pl - 1]));
            }
        }
        crate::util::lemma_find_from_is(s, i, j, 10u8);
        let line = s.subrange(i, j);
        assert(line =~= e.0 + seq![9u8] + e.1);
        assert forall|k: int| 0 <= k < pl implies line[k] != 9u8 by {
            assert(line[k] == e.0[k]);
            assert(!e.0.contains(9u8));
            if line[k] == 9u8 {
                assert(e.0[k] == 9u8);
            }
        }
        assert(line[pl] == 9u8);
        crate::util::lemma_find_from_is(line, 0, pl, 9u8);
        assert forall|k: int| pl + 1 <= k < line.len() implies line[k] != 9u8 by {
            assert(line[k] == e.1[k - pl - 1]);
            assert(is_hex_digit(e.1[k - pl - 1]));
        }
        crate::util::lemma_find_from_is(line, pl + 1, line.len() as int, 9u8);
        assert(line.take(pl) =~= e.0);
        assert(line.skip(pl + 1) =~= e.1);
        assert(spec_parse_entry(alg, line) == Ok::<(Seq<u8>, Seq<u8>), CorruptReason>((e.0, e.1)));
        assert(spec_lookup(acc, e.0) is None);
        assert(s.skip(j + 1) =~= spec_encode_entries(rest1)) by {
            assert forall|k: int| 0 <= k < s.len() - j - 1 implies s.skip(j + 1)[k]
                == spec_encode_entries(rest1)[k] by {
                assert(s.skip(j + 1)[k] == s[j + 1 + k]);
                assert(s[j + 1 + k] == s.skip(i)[pl + 1 + dl + 1 + k]);
            }
        }
        assert forall|k: int| 0 <= k < rest1.len() implies path_ok((#[trigger] rest1[k]).0)
            && digest_ok(alg, rest1[k].1) by {
            assert(rest1[k] == rest[k + 1]);
        }
        assert forall|k: int| 0 <= k < rest1.len() implies spec_lookup(
            acc.push(e),
            (#[trigger] rest1[k]).0,
        ) is None by {
            assert(rest1[k] == rest[k + 1]);
            assert(rest[0].0 != rest[k + 1].0);
            crate::manifest::lemma_lookup_push(acc, e, rest1[k].0);
        }
        assert forall|a: int, b: int| 0 <= a < b < rest1.len() implies (#[trigger] rest1[a]).0 != (
        #[trigger] rest1[b]).0 by {
            assert(rest1[a] == rest[a + 1]);
            assert(rest1[b] == rest[b + 1]);
        }
        lemma_parse_of_encode(alg, s, j + 1, lineno + 1, acc.push(e), rest1);
        assert(acc.push(e) + rest1 =~= acc + rest);
    }
}

/// Round trip: reading back a written manifest restores the algorithm
/// and exactly the entries that were written, in order. Together with
/// [`write_hashes`]'s and [`read_hashes`]'s contracts this says
/// `read(write(m)) == m` for every manifest whose paths and digests are
/// valid for the declared algorithm.
pub proof fn lemma_round_trip(alg: Algorithm, m: Seq<(Seq<u8>, Seq<u8>)>)
    requires
        manifest_ok(alg, m),
    ensures
        spec_read(spec_encode(alg, m)) == Ok::<(Algorithm, Seq<(Seq<u8>, Seq<u8>)>), Error>(
            (alg, m),
        ),
{
    let s = spec_encode(alg, m);
    crate::algorithm::lemma_name_facts(alg);
    let name = alg.spec_name();
    let nl = name.len() as int;
    assert forall|k: int| 0 <= k < nl implies s[k] != 10u8 by {
        assert(s[k] == name[k]);
        assert(45 <= name[k] <= 90);
    }
    assert(s[nl] == 10u8);
    crate::util::lemma_find_from_is(s, 0, nl, 10u8);
    assert(s.take(nl) =~= name);
    assert(nl < s.len());
    assert(s.skip(nl + 1) =~= spec_encode_entries(m));
    lemma_parse_of_encode(alg, s, nl + 1, 2, Seq::empty(), m);
    assert(Seq::<(Seq<u8>, Seq<u8>)>::empty() + m =~= m);
}

/// Whether writing may proceed: refuse an existing destination unless the
/// caller granted an override. The caller reports whether the destination
/// exists; the decision itself is fail-closed.
pub fn write_gate(destination_exists: bool, overwrite: bool) -> (r: Result<(), Error>)
    ensures
        r == if destination_exists && !overwrite {
            Err::<(), Error>(Error::OutputExists)
        } else {
            Ok::<(), Error>(())
        },
{
    if destination_exists && !overwrite {
        Err(Error::OutputExists)
    } else {
        Ok(())
    }
}

} // verus!
