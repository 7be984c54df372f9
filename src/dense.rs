//! Packed arrays of 32-byte entries stored after a fixed header in a record.
use vstd::prelude::*;
use vstd::array::axiom_spec_array_fill_for_copy_type;
use crate::codec::{keys_equal, read_key, Pubkey, KEY_LEN};

verus! {

broadcast use axiom_spec_array_fill_for_copy_type;

/// The slot of entry `i` of an array placed at `base`.
pub open spec fn slot(d: Seq<u8>, base: int, i: int) -> Seq<u8> {
    d.subrange(base + 32 * i, base + 32 * i + 32)
}

/// The first `n` entries of the array placed at `base`.
pub open spec fn entries(d: Seq<u8>, base: int, n: int) -> Seq<Seq<u8>> {
    Seq::new(n as nat, |i: int| slot(d, base, i))
}

/// An all-zero slot.
pub open spec fn zero_slot() -> Seq<u8> {
    Seq::new(32, |_i: int| 0u8)
}

/// Two records that agree on the slots of the first `n` entries hold the same entries.
pub proof fn lemma_entries_agree(d1: Seq<u8>, d2: Seq<u8>, base: int, n: int)
    requires
        0 <= base,
        0 <= n,
        base + 32 * n <= d1.len(),
        base + 32 * n <= d2.len(),
        forall|p: int| base <= p < base + 32 * n ==> d1[p] == d2[p],
    ensures
        entries(d1, base, n) == entries(d2, base, n),
{
    assert forall|i: int| 0 <= i < n implies slot(d1, base, i) == slot(d2, base, i) by {
        assert(slot(d1, base, i) =~= slot(d2, base, i));
    }
    assert(entries(d1, base, n) =~= entries(d2, base, n));
}

/// The entries of an array whose slot `i` was overwritten with `k`.
pub proof fn lemma_entries_write(d1: Seq<u8>, d2: Seq<u8>, base: int, n: int, i: int, k: Seq<u8>)
    requires
        0 <= base,
        0 <= i < n,
        k.len() == 32,
        base + 32 * n <= d1.len(),
        d2.len() == d1.len(),
        forall|p: int|
            0 <= p < d1.len() ==> d2[p] == if base + 32 * i <= p < base + 32 * i + 32 {
                k[p - (base + 32 * i)]
            } else {
                d1[p]
            },
    ensures
        entries(d2, base, n) == entries(d1, base, n).update(i, k),
{
    assert forall|j: int| 0 <= j < n implies slot(d2, base, j) == (if j == i {
        k
    } else {
        slot(d1, base, j)
    }) by {
        if j == i {
            assert(slot(d2, base, j) =~= k);
        } else {
            assert(slot(d2, base, j) =~= slot(d1, base, j));
        }
    }
    assert(entries(d2, base, n) =~= entries(d1, base, n).update(i, k));
}

/// Reads entry `i` of the array placed at `base`.
pub fn read_entry(d: &Vec<u8>, base: usize, i: usize) -> (r: Pubkey)
    requires
        base + 32 * i + 32 <= d@.len(),
    ensures
        r@ == slot(d@, base as int, i as int),
{
    let _len = d.len();
    read_key(d.as_slice(), base + KEY_LEN * i)
}

/// Overwrites entry `i` of the array placed at `base` with `k`.
pub fn write_entry(d: &mut Vec<u8>, base: usize, i: usize, k: &Pubkey)
    requires
        base + 32 * i + 32 <= old(d)@.len(),
    ensures
        final(d)@.len() == old(d)@.len(),
        forall|p: int|
            0 <= p < old(d)@.len() ==> final(d)@[p] == if base + 32 * i <= p < base + 32 * i + 32 {
                k@[p - (base + 32 * i)]
            } else {
                old(d)@[p]
            },
{
    let len = d.len();
    let start = base + KEY_LEN * i;
    let mut t: usize = 0;
    while t < KEY_LEN
        invariant
            t <= KEY_LEN,
            start == base + 32 * i,
            start + 32 <= old(d)@.len(),
            len == old(d)@.len(),
            d@.len() == old(d)@.len(),
            forall|p: int|
                0 <= p < old(d)@.len() ==> d@[p] == if start <= p < start + t {
                    k@[p - start]
                } else {
                    old(d)@[p]
                },
        decreases KEY_LEN - t,
    {
        d[start + t] = k[t];
        t += 1;
    }
}

/// Overwrites entry `i` of an array of `n` entries with `k`.
pub fn set_entry(d: &mut Vec<u8>, base: usize, n: usize, i: usize, k: &Pubkey)
    requires
        i < n,
        base + 32 * n <= old(d)@.len(),
    ensures
        final(d)@.len() == old(d)@.len(),
        final(d)@.subrange(0, base as int) == old(d)@.subrange(0, base as int),
        final(d)@.subrange(base + 32 * n, final(d)@.len() as int) == old(d)@.subrange(
            base + 32 * n,
            old(d)@.len() as int,
        ),
        entries(final(d)@, base as int, n as int) == entries(old(d)@, base as int, n as int).update(
            i as int,
            k@,
        ),
{
    write_entry(d, base, i, k);
    proof {
        lemma_entries_write(old(d)@, d@, base as int, n as int, i as int, k@);
        assert(d@.subrange(0, base as int) =~= old(d)@.subrange(0, base as int));
        assert(d@.subrange(base + 32 * n, d@.len() as int) =~= old(d)@.subrange(
            base + 32 * n,
            old(d)@.len() as int,
        ));
    }
}

/// The index of the first entry among the first `n` that equals `k`, if any.
pub fn find_entry(d: &Vec<u8>, base: usize, n: usize, k: &Pubkey) -> (r: Option<usize>)
    requires
        base + 32 * n <= d@.len(),
    ensures
        r is None <==> !entries(d@, base as int, n as int).contains(k@),
        r is Some ==> r->Some_0 < n && entries(d@, base as int, n as int)[r->Some_0 as int] == k@
            && forall|j: int| 0 <= j < r->Some_0 ==> entries(d@, base as int, n as int)[j] != k@,
{
    let ghost es = entries(d@, base as int, n as int);
    let mut i: usize = 0;
    while i < n
        invariant
            i <= n,
            base + 32 * n <= d@.len(),
            es == entries(d@, base as int, n as int),
            forall|j: int| 0 <= j < i ==> es[j] != k@,
        decreases n - i,
    {
        let e = read_entry(d, base, i);
        if keys_equal(&e, k) {
            assert(es[i as int] == k@);
            return Some(i);
        }
        i += 1;
    }
    proof {
        if es.contains(k@) {
            let j = choose|j: int| 0 <= j < es.len() && es[j] == k@;
            assert(es[j] != k@);
        }
    }
    None
}

/// Exchanges entries `i` and `j` of an array of `n` entries.
pub fn swap_entries(d: &mut Vec<u8>, base: usize, n: usize, i: usize, j: usize)
    requires
        i < n,
        j < n,
        base + 32 * n <= old(d)@.len(),
    ensures
        final(d)@.len() == old(d)@.len(),
        final(d)@.subrange(0, base as int) == old(d)@.subrange(0, base as int),
        final(d)@.subrange(base + 32 * n, final(d)@.len() as int) == old(d)@.subrange(
            base + 32 * n,
            old(d)@.len() as int,
        ),
        entries(final(d)@, base as int, n as int) == entries(old(d)@, base as int, n as int).update(
            i as int,
            entries(old(d)@, base as int, n as int)[j as int],
        ).update(j as int, entries(old(d)@, base as int, n as int)[i as int]),
{
    let a = read_entry(d, base, i);
    let b = read_entry(d, base, j);
    set_entry(d, base, n, i, &b);
    set_entry(d, base, n, j, &a);
}

/// Appends one zeroed slot to the record.
pub fn grow_slot(d: &mut Vec<u8>)
    ensures
        final(d)@ == old(d)@ + zero_slot(),
{
    let mut t: usize = 0;
    while t < KEY_LEN
        invariant
            t <= KEY_LEN,
            d@ == old(d)@ + Seq::new(t as nat, |_i: int| 0u8),
        decreases KEY_LEN - t,
    {
        d.push(0u8);
        t += 1;
        assert(d@ =~= old(d)@ + Seq::new(t as nat, |_i: int| 0u8));
    }
    assert(d@ =~= old(d)@ + zero_slot());
}

/// Removes the last slot of the record.
pub fn shrink_slot(d: &mut Vec<u8>)
    requires
        old(d)@.len() >= 32,
    ensures
        final(d)@ == old(d)@.subrange(0, old(d)@.len() - 32),
{
    let new_len = d.len() - KEY_LEN;
    d.truncate(new_len);
}

/// Inserts `k` at index `pos` of an array of `n` entries whose record already
/// holds a spare slot after the last entry: the entries from `pos` on move one
/// slot to the right.
pub fn insert_entry(d: &mut Vec<u8>, base: usize, n: usize, pos: usize, k: &Pubkey)
    requires
        pos <= n,
        base + 32 * (n + 1) <= old(d)@.len(),
    ensures
        final(d)@.len() == old(d)@.len(),
        final(d)@.subrange(0, base as int) == old(d)@.subrange(0, base as int),
        entries(final(d)@, base as int, n + 1) == entries(old(d)@, base as int, n as int).insert(
            pos as int,
            k@,
        ),
{
    let len = d.len();
    let ghost e = entries(d@, base as int, n + 1);
    let mut j: usize = n + 1;
    while j > pos + 1
        invariant
            pos + 1 <= j <= n + 1,
            len == old(d)@.len(),
            base + 32 * (n + 1) <= old(d)@.len(),
            d@.len() == old(d)@.len(),
            d@.subrange(0, base as int) == old(d)@.subrange(0, base as int),
            e == entries(old(d)@, base as int, n + 1),
            forall|p: int| 0 <= p < j ==> #[trigger] entries(d@, base as int, n + 1)[p] == e[p],
            forall|p: int| j <= p <= n ==> #[trigger] entries(d@, base as int, n + 1)[p] == e[p - 1],
        decreases j,
    {
        j -= 1;
        let prev = read_entry(d, base, j - 1);
        assert(prev@ == entries(d@, base as int, n + 1)[j - 1]);
        set_entry(d, base, n + 1, j, &prev);
    }
    set_entry(d, base, n + 1, pos, k);
    proof {
        let old_e = entries(old(d)@, base as int, n as int);
        assert forall|p: int| 0 <= p < n implies old_e[p] == e[p] by {}
        assert(entries(d@, base as int, n + 1) =~= old_e.insert(pos as int, k@));
    }
}

/// Removes index `pos` of an array of `n` entries: the entries after it move
/// one slot to the left and the slot that falls vacant is zeroed.
pub fn remove_entry(d: &mut Vec<u8>, base: usize, n: usize, pos: usize)
    requires
        pos < n,
        base + 32 * n <= old(d)@.len(),
    ensures
        final(d)@.len() == old(d)@.len(),
        final(d)@.subrange(0, base as int) == old(d)@.subrange(0, base as int),
        entries(final(d)@, base as int, n - 1) == entries(old(d)@, base as int, n as int).remove(
            pos as int,
        ),
        slot(final(d)@, base as int, n - 1) == zero_slot(),
{
    let ghost e = entries(d@, base as int, n as int);
    let mut j: usize = pos;
    while j + 1 < n
        invariant
            pos <= j < n,
            base + 32 * n <= old(d)@.len(),
            d@.len() == old(d)@.len(),
            d@.subrange(0, base as int) == old(d)@.subrange(0, base as int),
            e == entries(old(d)@, base as int, n as int),
            forall|p: int| 0 <= p < j ==> #[trigger] entries(d@, base as int, n as int)[p] == e.remove(
                pos as int,
            )[p],
            forall|p: int| j <= p < n ==> #[trigger] entries(d@, base as int, n as int)[p] == e[p],
        decreases n - j,
    {
        let next = read_entry(d, base, j + 1);
        assert(next@ == entries(d@, base as int, n as int)[j + 1]);
        set_entry(d, base, n, j, &next);
        j += 1;
    }
    let z: Pubkey = [0u8; 32];
    assert(z@ =~= zero_slot());
    let ghost before = entries(d@, base as int, n as int);
    set_entry(d, base, n, n - 1, &z);
    proof {
        let cur = entries(d@, base as int, n as int);
        assert(slot(d@, base as int, n - 1) == cur[n - 1]);
        assert forall|p: int| 0 <= p < n - 1 implies entries(d@, base as int, n - 1)[p]
            == e.remove(pos as int)[p] by {
            assert(entries(d@, base as int, n - 1)[p] == cur[p]);
            assert(cur[p] == before[p]);
            assert(before[p] == e.remove(pos as int)[p]);
        }
        assert(entries(d@, base as int, n - 1) =~= e.remove(pos as int));
    }
}

/// Appending a slot to a record that ends with its array appends an entry.
pub proof fn lemma_entries_push(d: Seq<u8>, base: int, n: int, k: Seq<u8>)
    requires
        0 <= base,
        0 <= n,
        d.len() == base + 32 * n,
        k.len() == 32,
    ensures
        entries(d + k, base, n + 1) == entries(d, base, n).push(k),
{
    let d2 = d + k;
    assert forall|i: int| 0 <= i < n implies slot(d2, base, i) == slot(d, base, i) by {
        assert(slot(d2, base, i) =~= slot(d, base, i));
    }
    assert(slot(d2, base, n) =~= k);
    assert(entries(d2, base, n + 1) =~= entries(d, base, n).push(k));
}

} // verus!
