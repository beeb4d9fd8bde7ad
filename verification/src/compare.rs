//! The comparator: reconciles a freshly computed manifest against a loaded
//! one, classifying every path as matching, mismatching, missing or extra,
//! and aggregates the verdict. A pure pass over two immutable inputs.

use vstd::prelude::*;

use crate::manifest::{lemma_lookup_at, lemma_lookup_present, paths_unique, spec_lookup, Manifest};
use crate::util::bytes_eq;

verus! {

/// The classification of one path of the union of the two manifests.
#[derive(Clone, Copy, Debug, PartialEq, Eq, Structural)]
pub enum ComparisonOutcome {
    /// Present on both sides with equal digests.
    Matching,
    /// Present on both sides with differing digests.
    Mismatching,
    /// Present only in the loaded manifest.
    Missing,
    /// Present only in the fresh manifest.
    Extra,
}

/// Counts per outcome kind, and whether every path matched.
#[derive(Clone, Copy, Debug, PartialEq, Eq, Structural)]
pub struct VerificationVerdict {
    pub matching: usize,
    pub mismatching: usize,
    pub missing: usize,
    pub extra: usize,
    pub all_matched: bool,
}

/// Per-path classifications in a deterministic order, plus the verdict.
pub struct ComparisonReport {
    pub items: Vec<(Vec<u8>, ComparisonOutcome)>,
    pub verdict: VerificationVerdict,
}

/// How a path of the union is classified, by where it is found and
/// whether the digests agree.
pub open spec fn spec_outcome(
    fresh: Seq<(Seq<u8>, Seq<u8>)>,
    loaded: Seq<(Seq<u8>, Seq<u8>)>,
    p: Seq<u8>,
) -> ComparisonOutcome {
    match (spec_lookup(fresh, p), spec_lookup(loaded, p)) {
        (Some(df), Some(dl)) => if df == dl {
            ComparisonOutcome::Matching
        } else {
            ComparisonOutcome::Mismatching
        },
        (Option::None, Some(_)) => ComparisonOutcome::Missing,
        (Some(_), Option::None) => ComparisonOutcome::Extra,
        (Option::None, Option::None) => ComparisonOutcome::Matching,
    }
}

/// The fresh paths that the loaded manifest does not know, in fresh order.
pub open spec fn spec_extra_paths(
    fresh: Seq<(Seq<u8>, Seq<u8>)>,
    loaded: Seq<(Seq<u8>, Seq<u8>)>,
) -> Seq<Seq<u8>>
    decreases fresh.len(),
{
    if fresh.len() == 0 {
        Seq::empty()
    } else {
        let rest = spec_extra_paths(fresh.drop_last(), loaded);
        if spec_lookup(loaded, fresh.last().0) is None {
            rest.push(fresh.last().0)
        } else {
            rest
        }
    }
}

/// How many report items carry the outcome `o`.
pub open spec fn count_outcome(s: Seq<(Vec<u8>, ComparisonOutcome)>, o: ComparisonOutcome) -> nat
    decreases s.len(),
{
    if s.len() == 0 {
        0
    } else {
        count_outcome(s.drop_last(), o) + if s.last().1 == o {
            1nat
        } else {
            0nat
        }
    }
}

/// Appending an item raises exactly the count of its own outcome.
pub proof fn lemma_count_push(
    s: Seq<(Vec<u8>, ComparisonOutcome)>,
    x: (Vec<u8>, ComparisonOutcome),
    o: ComparisonOutcome,
)
    ensures
        count_outcome(s.push(x), o) == count_outcome(s, o) + if x.1 == o {
            1nat
        } else {
            0nat
        },
{
    assert(s.push(x).drop_last() =~= s);
}

/// A count is zero exactly when no item carries that outcome.
pub proof fn lemma_count_zero(s: Seq<(Vec<u8>, ComparisonOutcome)>, o: ComparisonOutcome)
    ensures
        (count_outcome(s, o) == 0) <==> (forall|i: int|
            0 <= i < s.len() ==> (#[trigger] s[i]).1 != o),
    decreases s.len(),
{
    if s.len() > 0 {
        lemma_count_zero(s.drop_last(), o);
        assert(s.last() == s[s.len() - 1]);
        assert forall|i: int| 0 <= i < s.len() - 1 implies s.drop_last()[i] == s[i] by {}
    }
}

/// Compare a freshly computed manifest against a loaded one.
///
/// The report lists every loaded path first, in loaded order, then every
/// fresh path absent from the loaded manifest, in fresh order; each with
/// its classification. The verdict counts the outcomes, and `all_matched`
/// holds exactly when every listed path matches.
pub fn compare_hashes(fresh: &Manifest, loaded: &Manifest) -> (r: ComparisonReport)
    requires
        paths_unique(loaded@),
    ensures
        r.items@.len() == loaded@.len() + spec_extra_paths(fresh@, loaded@).len(),
        forall|k: int|
            0 <= k < loaded@.len() ==> (#[trigger] r.items@[k]).0@ == loaded@[k].0,
        forall|k: int|
            loaded@.len() <= k < r.items@.len() ==> (#[trigger] r.items@[k]).0@
                == spec_extra_paths(fresh@, loaded@)[k - loaded@.len()],
        forall|k: int|
            0 <= k < r.items@.len() ==> (#[trigger] r.items@[k]).1 == spec_outcome(
                fresh@,
                loaded@,
                r.items@[k].0@,
            ),
        r.verdict.matching == count_outcome(r.items@, ComparisonOutcome::Matching),
        r.verdict.mismatching == count_outcome(r.items@, ComparisonOutcome::Mismatching),
        r.verdict.missing == count_outcome(r.items@, ComparisonOutcome::Missing),
        r.verdict.extra == count_outcome(r.items@, ComparisonOutcome::Extra),
        r.verdict.all_matched == (forall|k: int|
            0 <= k < r.items@.len() ==> (#[trigger] r.items@[k]).1 == ComparisonOutcome::Matching),
{
    let mut items: Vec<(Vec<u8>, ComparisonOutcome)> = Vec::new();
    let mut n_match: usize = 0;
    let mut n_mismatch: usize = 0;
    let mut n_missing: usize = 0;
    let mut n_extra: usize = 0;

    let nl = loaded.len();
    let mut i: usize = 0;
    while i < nl
        invariant
            nl == loaded@.len(),
            paths_unique(loaded@),
            0 <= i <= nl,
            items@.len() == i,
            forall|k: int| 0 <= k < i ==> (#[trigger] items@[k]).0@ == loaded@[k].0,
            forall|k: int|
                0 <= k < i ==> (#[trigger] items@[k]).1 == spec_outcome(
                    fresh@,
                    loaded@,
                    items@[k].0@,
                ),
            n_match == count_outcome(items@, ComparisonOutcome::Matching),
            n_mismatch == count_outcome(items@, ComparisonOutcome::Mismatching),
            n_missing == count_outcome(items@, ComparisonOutcome::Missing),
            n_extra == count_outcome(items@, ComparisonOutcome::Extra),
            n_match + n_mismatch + n_missing + n_extra == items@.len(),
        decreases nl - i,
    {
        let e = loaded.entry_at(i);
        let path = vstd::slice::slice_to_vec(e.path.as_slice());
        let ghost pv = path@;
        proof {
            assert(e@ == loaded@[i as int]);
            assert(pv == loaded@[i as int].0);
        }
        proof {
            lemma_lookup_at(loaded@, i as int);
        }
        let outcome = match fresh.get(path.as_slice()) {
            Some(df) => {
                if bytes_eq(df.as_slice(), e.digest.as_slice()) {
                    ComparisonOutcome::Matching
                } else {
                    ComparisonOutcome::Mismatching
                }
            },
            None => ComparisonOutcome::Missing,
        };
        match outcome {
            ComparisonOutcome::Matching => n_match = n_match + 1,
            ComparisonOutcome::Mismatching => n_mismatch = n_mismatch + 1,
            ComparisonOutcome::Missing => n_missing = n_missing + 1,
            ComparisonOutcome::Extra => n_extra = n_extra + 1,
        }
        proof {
            lemma_count_push(items@, (path, outcome), ComparisonOutcome::Matching);
            lemma_count_push(items@, (path, outcome), ComparisonOutcome::Mismatching);
            lemma_count_push(items@, (path, outcome), ComparisonOutcome::Missing);
            lemma_count_push(items@, (path, outcome), ComparisonOutcome::Extra);
        }
        items.push((path, outcome));
        i += 1;
    }

    let nf = fresh.len();
    let mut j: usize = 0;
    proof {
        assert(spec_extra_paths(fresh@.take(0), loaded@) =~= Seq::<Seq<u8>>::empty());
    }
    while j < nf
        invariant
            nl == loaded@.len(),
            nf == fresh@.len(),
            0 <= j <= nf,
            items@.len() == nl + spec_extra_paths(fresh@.take(j as int), loaded@).len(),
            forall|k: int| 0 <= k < nl ==> (#[trigger] items@[k]).0@ == loaded@[k].0,
            forall|k: int|
                nl <= k < items@.len() ==> (#[trigger] items@[k]).0@ == spec_extra_paths(
                    fresh@.take(j as int),
                    loaded@,
                )[k - nl],
            forall|k: int|
                0 <= k < items@.len() ==> (#[trigger] items@[k]).1 == spec_outcome(
                    fresh@,
                    loaded@,
                    items@[k].0@,
                ),
            n_match == count_outcome(items@, ComparisonOutcome::Matching),
            n_mismatch == count_outcome(items@, ComparisonOutcome::Mismatching),
            n_missing == count_outcome(items@, ComparisonOutcome::Missing),
            n_extra == count_outcome(items@, ComparisonOutcome::Extra),
            n_match + n_mismatch + n_missing + n_extra == items@.len(),
        decreases nf - j,
    {
        let e = fresh.entry_at(j);
        proof {
            assert(fresh@.take(j + 1).drop_last() =~= fresh@.take(j as int));
            assert(fresh@.take(j + 1).last() == fresh@[j as int]);
        }
        match loaded.get(e.path.as_slice()) {
            Some(_) => {},
            None => {
                let path = vstd::slice::slice_to_vec(e.path.as_slice());
                proof {
                    lemma_lookup_present(fresh@, path@);
                    assert(0 <= j < fresh@.len() && fresh@[j as int].0 == path@);
                    lemma_count_push(items@, (path, ComparisonOutcome::Extra), ComparisonOutcome::Matching);
                    lemma_count_push(items@, (path, ComparisonOutcome::Extra), ComparisonOutcome::Mismatching);
                    lemma_count_push(items@, (path, ComparisonOutcome::Extra), ComparisonOutcome::Missing);
                    lemma_count_push(items@, (path, ComparisonOutcome::Extra), ComparisonOutcome::Extra);
                }
                items.push((path, ComparisonOutcome::Extra));
                let grown_len = items.len();
                proof {
                    assert(n_extra < grown_len);
                }
                n_extra = n_extra + 1;
            },
        }
        j += 1;
    }
    proof {
        assert(fresh@.take(nf as int) =~= fresh@);
    }

    let all = n_mismatch == 0 && n_missing == 0 && n_extra == 0;
    proof {
        lemma_count_zero(items@, ComparisonOutcome::Mismatching);
        lemma_count_zero(items@, ComparisonOutcome::Missing);
        lemma_count_zero(items@, ComparisonOutcome::Extra);
        if all {
            assert forall|k: int| 0 <= k < items@.len() implies (#[trigger] items@[k]).1
                == ComparisonOutcome::Matching by {
                let o = items@[k].1;
                match o {
                    ComparisonOutcome::Matching => {},
                    ComparisonOutcome::Mismatching => {
                        assert(false);
                    },
                    ComparisonOutcome::Missing => {
                        assert(false);
                    },
                    ComparisonOutcome::Extra => {
                        assert(false);
                    },
                }
            }
        }
    }

    ComparisonReport {
        items,
        verdict: VerificationVerdict {
            matching: n_match,
            mismatching: n_mismatch,
            missing: n_missing,
            extra: n_extra,
            all_matched: all,
        },
    }
}

/// Exit status of verification: zero when everything matched, one when
/// anything did not.
pub fn exit_code(v: &VerificationVerdict) -> (r: i32)
    ensures
        (r == 0) == v.all_matched,
        !v.all_matched ==> r == 1,
{
    if v.all_matched {
        0
    } else {
        1
    }
}

/// Exit status under the policy that files absent from the manifest are
/// only informational: zero when nothing mismatched and nothing was
/// missing, however much was extra; one otherwise. The report surfaces
/// and counts extras either way; only the exit status differs.
pub fn exit_code_allowing_extra(v: &VerificationVerdict) -> (r: i32)
    ensures
        (r == 0) == (v.mismatching == 0 && v.missing == 0),
        !(v.mismatching == 0 && v.missing == 0) ==> r == 1,
{
    if v.mismatching == 0 && v.missing == 0 {
        0
    } else {
        1
    }
}

/// Comparing a manifest with itself classifies every known path as
/// matching and leaves nothing over: with [`compare_hashes`]'s contract,
/// the report of `compare_hashes(m, m)` lists every path of `m` as
/// `Matching` and its verdict has `all_matched`.
pub proof fn lemma_compare_self(m: Seq<(Seq<u8>, Seq<u8>)>)
    ensures
        forall|p: Seq<u8>|
            spec_lookup(m, p) is Some ==> #[trigger] spec_outcome(m, m, p)
                == ComparisonOutcome::Matching,
        spec_extra_paths(m, m).len() == 0,
{
    assert forall|i: int| 0 <= i < m.len() implies spec_lookup(m, (#[trigger] m[i]).0) is Some by {
        lemma_lookup_present(m, m[i].0);
    }
    lemma_extra_none(m, m);
}

/// If every fresh path is known to the loaded manifest, nothing is extra.
proof fn lemma_extra_none(fresh: Seq<(Seq<u8>, Seq<u8>)>, loaded: Seq<(Seq<u8>, Seq<u8>)>)
    requires
        forall|i: int|
            0 <= i < fresh.len() ==> spec_lookup(loaded, (#[trigger] fresh[i]).0) is Some,
    ensures
        spec_extra_paths(fresh, loaded).len() == 0,
    decreases fresh.len(),
{
    if fresh.len() > 0 {
        assert(fresh.last() == fresh[fresh.len() - 1]);
        assert forall|i: int| 0 <= i < fresh.len() - 1 implies spec_lookup(
            loaded,
            (#[trigger] fresh.drop_last()[i]).0,
        ) is Some by {
            assert(fresh.drop_last()[i] == fresh[i]);
        }
        lemma_extra_none(fresh.drop_last(), loaded);
    }
}

} // verus!
