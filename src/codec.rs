use vstd::prelude::*;
use vstd::bytes::*;

verus! {

/// A 32-byte identity.
pub use pinocchio::pubkey::Pubkey;

/// The width of one identity, and of one entry of a packed array.
pub const KEY_LEN: usize = 32;

/// Reads the little-endian `u64` that starts at `off`.
pub fn read_u64(b: &[u8], off: usize) -> (r: u64)
    requires
        off + 8 <= b@.len(),
    ensures
        r == spec_u64_from_le_bytes(b@.subrange(off as int, off + 8)),
{
    let n = b.len();
    let mut v: Vec<u8> = Vec::new();
    let mut k: usize = 0;
    while k < 8
        invariant
            k <= 8,
            n == b@.len(),
            off + 8 <= b@.len(),
            v@ == b@.subrange(off as int, off + k),
        decreases 8 - k,
    {
        v.push(b[off + k]);
        k += 1;
        assert(v@ =~= b@.subrange(off as int, off + k));
    }
    u64_from_le_bytes(v.as_slice())
}

/// Reads the little-endian `u16` that starts at `off`.
pub fn read_u16(b: &[u8], off: usize) -> (r: u16)
    requires
        off + 2 <= b@.len(),
    ensures
        r == spec_u16_from_le_bytes(b@.subrange(off as int, off + 2)),
{
    let v: Vec<u8> = vec![b[off], b[off + 1]];
    assert(v@ =~= b@.subrange(off as int, off + 2));
    u16_from_le_bytes(v.as_slice())
}

/// Reads the identity that starts at `off`.
pub fn read_key(b: &[u8], off: usize) -> (r: Pubkey)
    requires
        off + KEY_LEN <= b@.len(),
    ensures
        r@ == b@.subrange(off as int, off + KEY_LEN),
{
    let n = b.len();
    let mut k: Pubkey = [0u8; 32];
    let mut i: usize = 0;
    while i < KEY_LEN
        invariant
            i <= KEY_LEN,
            n == b@.len(),
            off + KEY_LEN <= b@.len(),
            forall|j: int| 0 <= j < i ==> k@[j] == b@[off + j],
        decreases KEY_LEN - i,
    {
        k[i] = b[off + i];
        i += 1;
    }
    assert(k@ =~= b@.subrange(off as int, off + KEY_LEN));
    k
}

/// Whether two identities hold the same bytes.
pub fn keys_equal(a: &Pubkey, b: &Pubkey) -> (r: bool)
    ensures
        r == (a@ == b@),
{
    let mut i: usize = 0;
    while i < KEY_LEN
        invariant
            i <= KEY_LEN,
            forall|j: int| 0 <= j < i ==> a@[j] == b@[j],
        decreases KEY_LEN - i,
    {
        if a[i] != b[i] {
            return false;
        }
        i += 1;
    }
    assert(a@ =~= b@);
    true
}

/// The identity whose bytes are `b`.
pub open spec fn key_from(b: Seq<u8>) -> Pubkey {
    choose|k: Pubkey| k@ == b
}

/// An identity is the one its own bytes name.
pub proof fn lemma_key_from(k: Pubkey)
    ensures
        key_from(k@) == k,
{
    let c = key_from(k@);
    assert(c@ == k@);
    assert(c =~= k);
}

/// Appends `x` to `out`.
pub fn push_bytes(out: &mut Vec<u8>, x: &[u8])
    ensures
        final(out)@ == old(out)@ + x@,
{
    let n = x.len();
    let mut i: usize = 0;
    while i < n
        invariant
            i <= n,
            n == x@.len(),
            out@ == old(out)@ + x@.subrange(0, i as int),
        decreases n - i,
    {
        out.push(x[i]);
        i += 1;
        assert(out@ =~= old(out)@ + x@.subrange(0, i as int));
    }
    assert(x@.subrange(0, n as int) =~= x@);
}

/// Appends the little-endian bytes of `x` to `out`.
pub fn push_u64(out: &mut Vec<u8>, x: u64)
    ensures
        final(out)@ == old(out)@ + spec_u64_to_le_bytes(x),
{
    let v = u64_to_le_bytes(x);
    push_bytes(out, v.as_slice());
}

/// Appends the little-endian bytes of `x` to `out`.
pub fn push_u16(out: &mut Vec<u8>, x: u16)
    ensures
        final(out)@ == old(out)@ + spec_u16_to_le_bytes(x),
{
    let v = u16_to_le_bytes(x);
    push_bytes(out, v.as_slice());
}

/// The byte array whose bytes are `b`.
pub open spec fn array_from<const N: usize>(b: Seq<u8>) -> [u8; N] {
    choose|a: [u8; N]| a@ == b
}

/// A byte array is the one its own bytes name.
pub proof fn lemma_array_from<const N: usize>(a: [u8; N])
    ensures
        array_from::<N>(a@) == a,
{
    let c = array_from::<N>(a@);
    assert(c@ == a@);
    assert(c =~= a);
}

/// Reads the `N` bytes that start at `off`.
pub fn read_array<const N: usize>(b: &[u8], off: usize) -> (r: [u8; N])
    requires
        off + N <= b@.len(),
    ensures
        r@ == b@.subrange(off as int, off + N),
{
    let n = b.len();
    let mut a: [u8; N] = [0u8; N];
    let mut i: usize = 0;
    while i < N
        invariant
            i <= N,
            n == b@.len(),
            off + N <= b@.len(),
            a@.len() == N,
            forall|j: int| 0 <= j < i ==> a@[j] == b@[off + j],
        decreases N - i,
    {
        a[i] = b[off + i];
        i += 1;
    }
    assert(a@ =~= b@.subrange(off as int, off + N));
    a
}

/// Overwrites the front of `d` with `bytes`.
pub fn write_prefix(d: &mut Vec<u8>, bytes: &Vec<u8>)
    requires
        bytes@.len() <= old(d)@.len(),
    ensures
        final(d)@ == bytes@ + old(d)@.subrange(bytes@.len() as int, old(d)@.len() as int),
{
    let len = d.len();
    let m = bytes.len();
    let mut i: usize = 0;
    while i < m
        invariant
            i <= m,
            m == bytes@.len(),
            m <= old(d)@.len(),
            len == old(d)@.len(),
            d@.len() == old(d)@.len(),
            forall|p: int| 0 <= p < i ==> d@[p] == bytes@[p],
            forall|p: int| i <= p < d@.len() ==> d@[p] == old(d)@[p],
        decreases m - i,
    {
        d[i] = bytes[i];
        i += 1;
    }
    assert(d@ =~= bytes@ + old(d)@.subrange(bytes@.len() as int, old(d)@.len() as int));
}

} // verus!
