//! Small byte-string helpers: joining, taking fixed-size prefixes.
use vstd::prelude::*;

verus! {

/// The concatenation of two byte strings.
pub fn concat_bytes(a: &[u8], b: &[u8]) -> (r: Vec<u8>)
    ensures
        r@ == a@ + b@,
{
    let mut r: Vec<u8> = Vec::new();
    let mut i: usize = 0;
    while i < a.len()
        invariant
            i <= a@.len(),
            r@ == a@.take(i as int),
        decreases a@.len() - i,
    {
        r.push(a[i]);
        i += 1;
        assert(r@ =~= a@.take(i as int));
    }
    let mut j: usize = 0;
    while j < b.len()
        invariant
            j <= b@.len(),
            r@ == a@ + b@.take(j as int),
        decreases b@.len() - j,
    {
        r.push(b[j]);
        j += 1;
        assert(r@ =~= a@ + b@.take(j as int));
    }
    assert(a@.take(a@.len() as int) =~= a@);
    assert(b@.take(b@.len() as int) =~= b@);
    assert(r@ =~= a@ + b@);
    r
}

/// The first `N` bytes of a byte string, as an array.
pub fn prefix_array<const N: usize>(v: &[u8]) -> (a: [u8; N])
    requires
        v@.len() >= N,
    ensures
        a@ == v@.take(N as int),
{
    let mut a = [0u8; N];
    let mut i: usize = 0;
    while i < N
        invariant
            i <= N,
            v@.len() >= N,
            a@.len() == N,
            forall|j: int| 0 <= j < i ==> a@[j] == v@[j],
        decreases N - i,
    {
        a[i] = v[i];
        i += 1;
    }
    assert(a@ =~= v@.take(N as int));
    a
}

/// A byte string of exactly `N` bytes, as an array.
pub fn exact_array<const N: usize>(v: &[u8]) -> (a: [u8; N])
    requires
        v@.len() == N,
    ensures
        a@ == v@,
{
    let a = prefix_array::<N>(v);
    assert(v@.take(N as int) =~= v@);
    a
}

/// The array of `N` zero bytes.
pub open spec fn zeros(n: nat) -> Seq<u8> {
    Seq::new(n, |i: int| 0u8)
}

} // verus!
