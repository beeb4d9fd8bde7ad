//! Byte-sequence helpers shared across the library: slice equality,
//! ASCII uppercasing, and lowercase hex rendering of digests.

use vstd::prelude::*;

verus! {

/// Whether two byte slices hold the same bytes.
pub fn bytes_eq(a: &[u8], b: &[u8]) -> (r: bool)
    ensures
        r == (a@ == b@),
{
    if a.len() != b.len() {
        proof {
            assert(a@ != b@);
        }
        return false;
    }
    let n = a.len();
    let mut i: usize = 0;
    while i < n
        invariant
            n == a@.len() == b@.len(),
            0 <= i <= n,
            forall|j: int| 0 <= j < i ==> a@[j] == b@[j],
        decreases n - i,
    {
        if a[i] != b[i] {
            proof {
                assert(a@[i as int] != b@[i as int]);
            }
            return false;
        }
        i += 1;
    }
    proof {
        assert(a@ =~= b@);
    }
    true
}

/// ASCII uppercasing of one byte: lowercase letters are shifted, all other
/// bytes stay as they are.
pub open spec fn spec_upper_byte(b: u8) -> u8 {
    if 97 <= b && b <= 122 {
        (b - 32) as u8
    } else {
        b
    }
}

/// ASCII uppercasing of a byte sequence.
pub open spec fn spec_upper(s: Seq<u8>) -> Seq<u8> {
    s.map(|_i: int, b: u8| spec_upper_byte(b))
}

/// ASCII-uppercase a byte slice.
pub fn upper_bytes(s: &[u8]) -> (r: Vec<u8>)
    ensures
        r@ == spec_upper(s@),
{
    let mut v: Vec<u8> = Vec::new();
    let n = s.len();
    let mut i: usize = 0;
    while i < n
        invariant
            n == s@.len(),
            0 <= i <= n,
            v@.len() == i,
            forall|j: int| 0 <= j < i ==> v@[j] == spec_upper_byte(s@[j]),
        decreases n - i,
    {
        let b = s[i];
        if 97 <= b && b <= 122 {
            v.push(b - 32);
        } else {
            v.push(b);
        }
        i += 1;
    }
    proof {
        assert(v@ =~= spec_upper(s@));
    }
    v
}

/// The index of the first occurrence of `b` in `s` at or after `i`, or
/// `s.len()` if there is none.
pub open spec fn spec_find_from(s: Seq<u8>, i: int, b: u8) -> int
    decreases s.len() - i,
{
    if i < 0 || i >= s.len() {
        s.len() as int
    } else if s[i] == b {
        i
    } else {
        spec_find_from(s, i + 1, b)
    }
}

/// What the found index satisfies: it is in range, it carries `b` unless
/// it is the length, and nothing before it (from `i`) carries `b`.
pub proof fn lemma_find_from(s: Seq<u8>, i: int, b: u8)
    requires
        0 <= i <= s.len(),
    ensures
        i <= spec_find_from(s, i, b) <= s.len(),
        spec_find_from(s, i, b) < s.len() ==> s[spec_find_from(s, i, b)] == b,
        forall|k: int| i <= k < spec_find_from(s, i, b) ==> s[k] != b,
    decreases s.len() - i,
{
    if i < s.len() && s[i] != b {
        lemma_find_from(s, i + 1, b);
    }
}

/// The found index is the only one in range that carries `b` first: any
/// `j` with nothing before it and `b` at it (or the length, with nothing
/// anywhere after `i`) is the found index.
pub proof fn lemma_find_from_is(s: Seq<u8>, i: int, j: int, b: u8)
    requires
        0 <= i <= j <= s.len(),
        forall|k: int| i <= k < j ==> s[k] != b,
        j < s.len() ==> s[j] == b,
    ensures
        spec_find_from(s, i, b) == j,
    decreases j - i,
{
    if i < j {
        lemma_find_from_is(s, i + 1, j, b);
    }
}

/// Find the first occurrence of `b` at or after `start`, or the length.
pub fn find_from(s: &[u8], start: usize, b: u8) -> (r: usize)
    requires
        start <= s@.len(),
    ensures
        r == spec_find_from(s@, start as int, b),
{
    let n = s.len();
    let mut j: usize = start;
    while j < n
        invariant
            n == s@.len(),
            start <= j <= n,
            forall|k: int| start <= k < j ==> s@[k] != b,
        decreases n - j,
    {
        if s[j] == b {
            proof {
                lemma_find_from_is(s@, start as int, j as int, b);
            }
            return j;
        }
        j += 1;
    }
    proof {
        lemma_find_from_is(s@, start as int, n as int, b);
    }
    n
}

/// Append a byte slice to a vector.
pub fn append_bytes(out: &mut Vec<u8>, s: &[u8])
    ensures
        final (out)@ == old(out)@ + s@,
{
    let n = s.len();
    let mut i: usize = 0;
    while i < n
        invariant
            n == s@.len(),
            0 <= i <= n,
            out@ == old(out)@ + s@.take(i as int),
        decreases n - i,
    {
        out.push(s[i]);
        proof {
            assert(old(out)@ + s@.take(i + 1) =~= (old(out)@ + s@.take(i as int)).push(
                s@[i as int],
            ));
        }
        i += 1;
    }
    proof {
        assert(s@.take(n as int) =~= s@);
    }
}

/// Whether a byte is a lowercase hex digit (`0`-`9` or `a`-`f`).
pub open spec fn is_hex_digit(b: u8) -> bool {
    (48 <= b && b <= 57) || (97 <= b && b <= 102)
}

/// The lowercase hex digit for a value below 16.
pub open spec fn spec_hex_digit(n: u8) -> u8 {
    if n < 10 {
        (48 + n) as u8
    } else {
        (87 + n) as u8
    }
}

/// Lowercase hex rendering of a byte sequence: two digits per byte, high
/// nibble first.
pub open spec fn spec_hex(s: Seq<u8>) -> Seq<u8> {
    Seq::new(
        2 * s.len(),
        |i: int|
            if i % 2 == 0 {
                spec_hex_digit(s[i / 2] >> 4)
            } else {
                spec_hex_digit(s[i / 2] & 15)
            },
    )
}

/// Every character of a hex rendering is a lowercase hex digit.
pub proof fn lemma_hex_chars(s: Seq<u8>)
    ensures
        forall|i: int| 0 <= i < spec_hex(s).len() ==> is_hex_digit(#[trigger] spec_hex(s)[i]),
{
    assert forall|i: int| 0 <= i < spec_hex(s).len() implies is_hex_digit(
        #[trigger] spec_hex(s)[i],
    ) by {
        let b = s[i / 2];
        assert((b >> 4) < 16 && (b & 15) < 16) by (bit_vector);
    }
}

/// Render a byte slice as lowercase hex, two digits per byte.
pub fn bytes_to_hex(data: &[u8]) -> (r: Vec<u8>)
    ensures
        r@ == spec_hex(data@),
{
    let n = data.len();
    let mut v: Vec<u8> = Vec::new();
    let mut i: usize = 0;
    while i < n
        invariant
            n == data@.len(),
            0 <= i <= n,
            v@.len() == 2 * i,
            forall|j: int| 0 <= j < 2 * i ==> v@[j] == spec_hex(data@)[j],
        decreases n - i,
    {
        let b = data[i];
        let hi = b >> 4;
        let lo = b & 15;
        proof {
            assert(hi < 16 && lo < 16) by (bit_vector)
                requires
                    hi == b >> 4 && lo == b & 15,
            ;
        }
        let dh = if hi < 10 {
            48 + hi
        } else {
            87 + hi
        };
        let dl = if lo < 10 {
            48 + lo
        } else {
            87 + lo
        };
        v.push(dh);
        v.push(dl);
        i += 1;
    }
    proof {
        assert(v@ =~= spec_hex(data@));
    }
    v
}

} // verus!
