//! Depth bounding and relative-path assembly for the tree hasher. The
//! directory walking itself is I/O and stays with the caller; decided
//! here is which files a depth-bounded traversal takes and how their
//! relative paths (always `/`-separated) are formed.

use vstd::prelude::*;

verus! {

/// The recursion bound of a traversal: a maximum depth, or none at all.
#[derive(Clone, Copy, Debug, PartialEq, Eq, Structural)]
pub enum Depth {
    /// Visit directories at most this deep below the root; zero means
    /// only files directly inside the root.
    Limit(u64),
    /// No bound: recurse without limit.
    Infinite,
}

/// How deep below the root a relative path sits, counted by its `/`
/// separators: a file directly in the root has depth zero.
pub open spec fn spec_path_depth(p: Seq<u8>) -> nat
    decreases p.len(),
{
    if p.len() == 0 {
        0
    } else {
        spec_path_depth(p.drop_last()) + if p.last() == 47u8 {
            1nat
        } else {
            0nat
        }
    }
}

/// Count how deep below the root a relative path sits.
pub fn path_depth(p: &[u8]) -> (r: usize)
    ensures
        r == spec_path_depth(p@),
{
    let n = p.len();
    let mut count: usize = 0;
    let mut i: usize = 0;
    while i < n
        invariant
            n == p@.len(),
            0 <= i <= n,
            count == spec_path_depth(p@.take(i as int)),
            count <= i,
        decreases n - i,
    {
        proof {
            assert(p@.take(i + 1).drop_last() =~= p@.take(i as int));
            assert(p@.take(i + 1).last() == p@[i as int]);
        }
        if p[i] == 47 {
            count += 1;
        }
        i += 1;
    }
    proof {
        assert(p@.take(n as int) =~= p@);
    }
    count
}

/// Whether a file at relative path `p` lies within the bound `d`.
pub open spec fn spec_within_depth(p: Seq<u8>, d: Depth) -> bool {
    match d {
        Depth::Limit(n) => spec_path_depth(p) <= n,
        Depth::Infinite => true,
    }
}

/// Whether a file at relative path `p` is taken by a traversal bounded
/// by `d`: always under no bound, else only if it sits no deeper than
/// the limit.
pub fn within_depth(p: &[u8], d: &Depth) -> (r: bool)
    ensures
        r == spec_within_depth(p@, *d),
{
    match d {
        Depth::Limit(n) => {
            let dep = path_depth(p);
            dep as u64 <= *n
        },
        Depth::Infinite => true,
    }
}

/// Whether a traversal may step into a subdirectory whose files sit at
/// depth `child_depth`: always under no bound, else only while the limit
/// is not exceeded.
pub fn may_descend(child_depth: u64, d: &Depth) -> (r: bool)
    ensures
        r == match *d {
            Depth::Limit(n) => child_depth <= n,
            Depth::Infinite => true,
        },
{
    match d {
        Depth::Limit(n) => child_depth <= *n,
        Depth::Infinite => true,
    }
}

/// Join a relative prefix and a name with `/`; an empty prefix yields
/// the name alone, so paths never start with a separator.
pub fn rel_join(prefix: &[u8], name: &[u8]) -> (r: Vec<u8>)
    ensures
        r@ == if prefix@.len() == 0 {
            name@
        } else {
            prefix@ + seq![47u8] + name@
        },
{
    let mut out: Vec<u8> = Vec::new();
    if prefix.len() > 0 {
        crate::util::append_bytes(&mut out, prefix);
        out.push(47);
    }
    crate::util::append_bytes(&mut out, name);
    proof {
        if prefix@.len() == 0 {
            assert(out@ =~= name@);
        } else {
            assert(out@ =~= prefix@ + seq![47u8] + name@);
        }
    }
    out
}

} // verus!
