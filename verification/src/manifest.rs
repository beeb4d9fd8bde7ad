//! The manifest: an ordered mapping from relative path to hex digest,
//! one algorithm per manifest. Entries keep insertion order; paths are
//! unique. Paths use `/` as separator and are held as bytes.

use vstd::prelude::*;

use crate::algorithm::Algorithm;
use crate::util::{bytes_eq, is_hex_digit};

verus! {

/// One line of a manifest: a relative path and the lowercase hex digest
/// of the file it names.
#[derive(Debug)]
pub struct HashEntry {
    pub path: Vec<u8>,
    pub digest: Vec<u8>,
}

impl View for HashEntry {
    type V = (Seq<u8>, Seq<u8>);

    open spec fn view(&self) -> (Seq<u8>, Seq<u8>) {
        (self.path@, self.digest@)
    }
}

/// The digest recorded for `p`, if any: the digest of the first entry
/// whose path is `p`.
pub open spec fn spec_lookup(m: Seq<(Seq<u8>, Seq<u8>)>, p: Seq<u8>) -> Option<Seq<u8>>
    decreases m.len(),
{
    if m.len() == 0 {
        None
    } else if m[0].0 == p {
        Some(m[0].1)
    } else {
        spec_lookup(m.drop_first(), p)
    }
}

/// No two entries share a path.
pub open spec fn paths_unique(m: Seq<(Seq<u8>, Seq<u8>)>) -> bool {
    forall|i: int, j: int| 0 <= i < j < m.len() ==> (#[trigger] m[i]).0 != (#[trigger] m[j]).0
}

/// A path fit for a manifest line: non-empty, and free of the tab and
/// newline bytes that delimit the line format.
pub open spec fn path_ok(p: Seq<u8>) -> bool {
    p.len() > 0 && !p.contains(9u8) && !p.contains(10u8)
}

/// A digest fit for a manifest of `alg`: lowercase hex of exactly twice
/// the algorithm's byte width.
pub open spec fn digest_ok(alg: Algorithm, d: Seq<u8>) -> bool {
    d.len() == 2 * alg.spec_size_bytes() && forall|i: int|
        0 <= i < d.len() ==> is_hex_digit(#[trigger] d[i])
}

/// A manifest whose entries can all be written and read back under `alg`.
pub open spec fn manifest_ok(alg: Algorithm, m: Seq<(Seq<u8>, Seq<u8>)>) -> bool {
    paths_unique(m) && forall|i: int|
        0 <= i < m.len() ==> path_ok((#[trigger] m[i]).0) && digest_ok(alg, m[i].1)
}

/// An ordered path-to-digest mapping for one directory tree.
#[derive(Debug)]
pub struct Manifest {
    entries: Vec<HashEntry>,
}

impl View for Manifest {
    type V = Seq<(Seq<u8>, Seq<u8>)>;

    closed spec fn view(&self) -> Seq<(Seq<u8>, Seq<u8>)> {
        self.entries@.map(|_i: int, e: HashEntry| e@)
    }
}

/// Advancing past a non-matching head entry keeps the lookup result.
pub proof fn lemma_lookup_skip(m: Seq<(Seq<u8>, Seq<u8>)>, p: Seq<u8>, i: int)
    requires
        0 <= i < m.len(),
        m[i].0 != p,
    ensures
        spec_lookup(m.skip(i), p) == spec_lookup(m.skip(i + 1), p),
{
    assert(m.skip(i).drop_first() =~= m.skip(i + 1));
}

/// A lookup that answers `Some` names a path that is present, and a path
/// that is present is answered with `Some`.
pub proof fn lemma_lookup_present(m: Seq<(Seq<u8>, Seq<u8>)>, p: Seq<u8>)
    ensures
        (spec_lookup(m, p) is Some) <==> exists|i: int| 0 <= i < m.len() && (#[trigger] m[i]).0 == p,
    decreases m.len(),
{
    if m.len() > 0 {
        lemma_lookup_present(m.drop_first(), p);
        if m[0].0 != p {
            assert forall|i: int| 0 <= i < m.len() && (#[trigger] m[i]).0 == p implies exists|j: int|
                0 <= j < m.drop_first().len() && (#[trigger] m.drop_first()[j]).0 == p by {
                assert(m.drop_first()[i - 1] == m[i]);
            }
        }
    }
}

/// The entry appended by a push is found by lookup only under its own
/// path; every other path resolves as before.
pub proof fn lemma_lookup_push(m: Seq<(Seq<u8>, Seq<u8>)>, e: (Seq<u8>, Seq<u8>), p: Seq<u8>)
    ensures
        spec_lookup(m.push(e), p) == if spec_lookup(m, p) is Some {
            spec_lookup(m, p)
        } else if e.0 == p {
            Some(e.1)
        } else {
            None
        },
    decreases m.len(),
{
    if m.len() == 0 {
        assert(m.push(e).drop_first() =~= Seq::<(Seq<u8>, Seq<u8>)>::empty());
    } else {
        assert(m.push(e).drop_first() =~= m.drop_first().push(e));
        lemma_lookup_push(m.drop_first(), e, p);
    }
}

/// With unique paths, looking an entry's own path up yields exactly that
/// entry's digest.
pub proof fn lemma_lookup_at(m: Seq<(Seq<u8>, Seq<u8>)>, i: int)
    requires
        paths_unique(m),
        0 <= i < m.len(),
    ensures
        spec_lookup(m, m[i].0) == Some(m[i].1),
    decreases i,
{
    if i == 0 {
    } else {
        assert(m[0].0 != m[i].0);
        assert(m.drop_first()[i - 1] == m[i]);
        assert forall|a: int, b: int| 0 <= a < b < m.drop_first().len() implies (
        #[trigger] m.drop_first()[a]).0 != (#[trigger] m.drop_first()[b]).0 by {
            assert(m.drop_first()[a] == m[a + 1]);
            assert(m.drop_first()[b] == m[b + 1]);
        }
        lemma_lookup_at(m.drop_first(), i - 1);
    }
}

impl Manifest {
    /// An empty manifest.
    pub fn new() -> (r: Manifest)
        ensures
            r@ == Seq::<(Seq<u8>, Seq<u8>)>::empty(),
    {
        let r = Manifest { entries: Vec::new() };
        proof {
            assert(r@ =~= Seq::<(Seq<u8>, Seq<u8>)>::empty());
        }
        r
    }

    /// How many entries the manifest holds.
    pub fn len(&self) -> (r: usize)
        ensures
            r == self@.len(),
    {
        self.entries.len()
    }

    /// Borrow the entry at `i`, in insertion order.
    pub fn entry_at(&self, i: usize) -> (r: &HashEntry)
        requires
            i < self@.len(),
        ensures
            r@ == self@[i as int],
    {
        &self.entries[i]
    }

    /// The digest recorded for `p`, if any.
    pub fn get(&self, p: &[u8]) -> (r: Option<&Vec<u8>>)
        ensures
            match r {
                Some(d) => spec_lookup(self@, p@) == Some(d@),
                None => spec_lookup(self@, p@) is None,
            },
    {
        let n = self.entries.len();
        let mut i: usize = 0;
        proof {
            assert(self@.skip(0) =~= self@);
        }
        while i < n
            invariant
                n == self@.len(),
                0 <= i <= n,
                spec_lookup(self@, p@) == spec_lookup(self@.skip(i as int), p@),
            decreases n - i,
        {
            proof {
                assert(self@.skip(i as int)[0] == self@[i as int]);
            }
            if bytes_eq(self.entries[i].path.as_slice(), p) {
                proof {
                    assert(self@[i as int].0 == p@);
                    assert(spec_lookup(self@.skip(i as int), p@) == Some(self@[i as int].1));
                }
                return Some(&self.entries[i].digest);
            }
            proof {
                lemma_lookup_skip(self@, p@, i as int);
            }
            i += 1;
        }
        proof {
            assert(self@.skip(n as int) =~= Seq::<(Seq<u8>, Seq<u8>)>::empty());
        }
        None
    }

    /// Whether the manifest holds an entry for `p`.
    pub fn contains_path(&self, p: &[u8]) -> (r: bool)
        ensures
            r == (spec_lookup(self@, p@) is Some),
    {
        match self.get(p) {
            Some(_) => true,
            None => false,
        }
    }

    /// Append an entry for a path not yet present.
    pub fn insert(&mut self, path: Vec<u8>, digest: Vec<u8>)
        requires
            spec_lookup(old(self)@, path@) is None,
        ensures
            final (self)@ == old(self)@.push((path@, digest@)),
    {
        let ghost pv = path@;
        let ghost dv = digest@;
        self.entries.push(HashEntry { path, digest });
        proof {
            assert(self@ =~= old(self)@.push((pv, dv)));
        }
    }

    /// Appending an entry for an absent path keeps the paths unique.
    pub proof fn lemma_insert_unique(m: Seq<(Seq<u8>, Seq<u8>)>, e: (Seq<u8>, Seq<u8>))
        requires
            paths_unique(m),
            spec_lookup(m, e.0) is None,
        ensures
            paths_unique(m.push(e)),
    {
        lemma_lookup_present(m, e.0);
        assert forall|i: int, j: int| 0 <= i < j < m.push(e).len() implies (#[trigger] m.push(
            e,
        )[i]).0 != (#[trigger] m.push(e)[j]).0 by {
            if j == m.len() {
                assert(m.push(e)[i] == m[i]);
            }
        }
    }
}

} // verus!
