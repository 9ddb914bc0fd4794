//! Byte block primitives: compare, copy and fill.

use vstd::prelude::*;

verus! {

/// Holds when `a` and `b` agree on the bytes before index `i` and differ at
/// index `i`.
pub open spec fn first_difference(a: Seq<u8>, b: Seq<u8>, i: int) -> bool {
    &&& a[i] != b[i]
    &&& forall|j: int| 0 <= j < i ==> a[j] == b[j]
}

/// The difference `a - b` of two bytes as a signed number.
pub fn byte_difference(a: u8, b: u8) -> (d: i32)
    ensures
        d == a - b,
{
    a as i32 - b as i32
}

/// Compares the first `n` bytes of two blocks.
///
/// The result is 0 when they are the same, and otherwise the difference of
/// the first two bytes that differ, that of `s1` minus that of `s2`.
pub fn memcmp(s1: &[u8], s2: &[u8], n: usize) -> (order: i32)
    requires
        n <= s1@.len(),
        n <= s2@.len(),
    ensures
        order == 0 <==> (forall|j: int| 0 <= j < n ==> s1@[j] == s2@[j]),
        order != 0 ==> exists|i: int|
            0 <= i < n && first_difference(s1@, s2@, i) && order == s1@[i] - s2@[i],
{
    let mut i: usize = 0;
    while i < n
        invariant
            i <= n,
            n <= s1@.len(),
            n <= s2@.len(),
            forall|j: int| 0 <= j < i ==> s1@[j] == s2@[j],
        decreases n - i,
    {
        if s1[i] != s2[i] {
            let d: i32 = byte_difference(s1[i], s2[i]);
            proof {
                let at: int = i + 0int;
                assert(0 <= at < n && first_difference(s1@, s2@, at) && d == s1@[at] - s2@[at]);
            }
            return d;
        }
        i += 1;
    }
    0
}

/// Copies the first `n` bytes of `s` to the start of `d` and leaves the rest
/// of `d` as it is.
pub fn memcpy(d: &mut Vec<u8>, s: &[u8], n: usize)
    requires
        n <= old(d)@.len(),
        n <= s@.len(),
    ensures
        final(d)@ == s@.take(n as int) + old(d)@.skip(n as int),
{
    let mut i: usize = 0;
    while i < n
        invariant
            i <= n,
            n <= s@.len(),
            d@.len() == old(d)@.len(),
            n <= d@.len(),
            forall|j: int| 0 <= j < i ==> d@[j] == s@[j],
            forall|j: int| i <= j < d@.len() ==> d@[j] == old(d)@[j],
        decreases n - i,
    {
        d[i] = s[i];
        i += 1;
    }
    assert(d@ =~= s@.take(n as int) + old(d)@.skip(n as int));
}

/// Sets the first `n` bytes of `s` to the low byte of `c` and leaves the
/// rest of `s` as it is.
pub fn memset(s: &mut Vec<u8>, c: i32, n: usize)
    requires
        n <= old(s)@.len(),
    ensures
        final(s)@ == Seq::new(n as nat, |j: int| c as u8) + old(s)@.skip(n as int),
{
    let byte: u8 = #[verifier::truncate]
    (c as u8);
    let mut i: usize = 0;
    while i < n
        invariant
            i <= n,
            s@.len() == old(s)@.len(),
            n <= s@.len(),
            byte == c as u8,
            forall|j: int| 0 <= j < i ==> s@[j] == byte,
            forall|j: int| i <= j < s@.len() ==> s@[j] == old(s)@[j],
        decreases n - i,
    {
        s[i] = byte;
        i += 1;
    }
    assert(s@ =~= Seq::new(n as nat, |j: int| c as u8) + old(s)@.skip(n as int));
}

} // verus!
