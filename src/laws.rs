//! Properties that hold across operations and of every reachable state.
use vstd::prelude::*;
use crate::ledger::{after_vote, proposal_header, proposal_wf, voted, voters};
use crate::member::{spec_role, MemberRole};
use crate::registry::{added, admins, first_index, group_header, group_wf, members, regular_members, members_after_add, members_after_remove, removed, AccountRecord};

verus! {

/// The admin count after an identity joined with `role`.
pub open spec fn admin_count_after_add(admin_counter: u8, role: MemberRole) -> int {
    if role == MemberRole::Admin {
        admin_counter + 1
    } else {
        admin_counter as int
    }
}

/// `x` stands in `s` between `lo` and `hi` exactly when some index there holds it.
proof fn lemma_range_contains(s: Seq<Seq<u8>>, lo: int, hi: int, x: Seq<u8>)
    requires
        0 <= lo <= hi <= s.len(),
    ensures
        s.subrange(lo, hi).contains(x) <==> exists|j: int| lo <= j < hi && s[j] == x,
{
    if s.subrange(lo, hi).contains(x) {
        let t = choose|t: int| 0 <= t < hi - lo && s.subrange(lo, hi)[t] == x;
        assert(s[lo + t] == x);
    }
    if exists|j: int| lo <= j < hi && s[j] == x {
        let j = choose|j: int| lo <= j < hi && s[j] == x;
        assert(s.subrange(lo, hi)[j - lo] == x);
    }
}

/// Adding an identity that is not yet a member keeps the array free of
/// duplicates and the admin count within it; an admin joins the end of the
/// admins and leaves the regular members as they were, a regular member joins
/// the end of the regular members and leaves the admins as they were.
pub proof fn lemma_add_keeps_partition(m: Seq<Seq<u8>>, ac: u8, k: Seq<u8>, role: MemberRole)
    requires
        ac <= m.len(),
        m.no_duplicates(),
        !m.contains(k),
    ensures
        ({
            let m2 = members_after_add(m, ac, k, role);
            let ac2 = admin_count_after_add(ac, role);
            &&& m2.no_duplicates()
            &&& 0 <= ac2 <= m2.len()
            &&& m2.len() == m.len() + 1
            &&& role == MemberRole::Admin ==> m2.take(ac2) == m.take(ac as int).push(k)
                && m2.skip(ac2) == m.skip(ac as int)
            &&& role == MemberRole::Member ==> m2.take(ac2) == m.take(ac as int) && m2.skip(ac2)
                == m.skip(ac as int).push(k)
        }),
{
    let m2 = members_after_add(m, ac, k, role);
    let a = ac as int;
    if role == MemberRole::Admin {
        assert forall|i: int| 0 <= i < m2.len() implies m2[i] == (if i < a {
            m[i]
        } else if i == a {
            k
        } else {
            m[i - 1]
        }) by {}
        assert forall|i: int, j: int| 0 <= i < m2.len() && 0 <= j < m2.len() && i != j implies m2[i]
            != m2[j] by {
            if i == a {
                if j < a {
                    assert(m[j] == m2[j]);
                } else {
                    assert(m[j - 1] == m2[j]);
                }
            } else if j == a {
                if i < a {
                    assert(m[i] == m2[i]);
                } else {
                    assert(m[i - 1] == m2[i]);
                }
            }
        }
        assert(m2.take(a + 1) =~= m.take(a).push(k));
        assert(m2.skip(a + 1) =~= m.skip(a));
    } else {
        assert forall|i: int, j: int| 0 <= i < m2.len() && 0 <= j < m2.len() && i != j implies m2[i]
            != m2[j] by {
            if i == m.len() {
                assert(m[j] == m2[j]);
            } else if j == m.len() {
                assert(m[i] == m2[i]);
            }
        }
        assert(m2.take(a) =~= m.take(a));
        assert(m2.skip(a) =~= m.skip(a).push(k));
    }
}

/// Exchanging two entries of an array free of duplicates keeps it so.
proof fn lemma_swap_no_duplicates(s: Seq<Seq<u8>>, a: int, b: int)
    requires
        0 <= a < s.len(),
        0 <= b < s.len(),
        s.no_duplicates(),
    ensures
        s.update(a, s[b]).update(b, s[a]).no_duplicates(),
        forall|i: int|
            0 <= i < s.len() ==> #[trigger] s.update(a, s[b]).update(b, s[a])[i] == if i == b {
                s[a]
            } else if i == a {
                s[b]
            } else {
                s[i]
            },
{
    let w = s.update(a, s[b]).update(b, s[a]);
    assert forall|i: int| 0 <= i < s.len() implies w[i] == if i == b {
        s[a]
    } else if i == a {
        s[b]
    } else {
        s[i]
    } by {}
    assert forall|i: int, j: int| 0 <= i < w.len() && 0 <= j < w.len() && i != j implies w[i]
        != w[j] by {
        let si = if i == b {
            a
        } else if i == a {
            b
        } else {
            i
        };
        let sj = if j == b {
            a
        } else if j == a {
            b
        } else {
            j
        };
        assert(w[i] == s[si] && w[j] == s[sj] && si != sj);
    }
}

/// Removing a member keeps the array free of duplicates and the admin count
/// within it. A departing admin leaves the other admins and the regular
/// members where they were as a set; a departing regular member leaves the
/// admins as they were and the other regular members as a set.
pub proof fn lemma_remove_keeps_partition(m: Seq<Seq<u8>>, ac: u8, k: Seq<u8>)
    requires
        ac <= m.len(),
        m.no_duplicates(),
        m.contains(k),
    ensures
        ({
            let i = first_index(m, k);
            let m2 = members_after_remove(m, ac, i);
            let ac2 = if i < ac {
                ac - 1
            } else {
                ac as int
            };
            &&& m2.no_duplicates()
            &&& 0 <= ac2 <= m2.len()
            &&& m2.len() == m.len() - 1
            &&& !m2.contains(k)
            &&& i < ac ==> m2.take(ac2).to_set() == m.take(ac as int).to_set().remove(k) && m2.skip(
                ac2,
            ) == m.skip(ac as int)
            &&& i >= ac ==> m2.take(ac2) == m.take(ac as int) && m2.skip(ac2).to_set() == m.skip(
                ac as int,
            ).to_set().remove(k)
        }),
{
    let i = first_index(m, k);
    let a = ac as int;
    let last = if i < a {
        a - 1
    } else {
        m.len() - 1
    };
    let s = m.update(i, m[last]).update(last, m[i]);
    lemma_swap_no_duplicates(m, i, last);
    let m2 = s.remove(last);
    assert(m2 == members_after_remove(m, ac, i));
    assert(s[last] == k);
    assert forall|p: int| 0 <= p < m2.len() implies m2[p] == if p < last {
        s[p]
    } else {
        s[p + 1]
    } by {}
    assert forall|p: int, q: int| 0 <= p < m2.len() && 0 <= q < m2.len() && p != q implies m2[p]
        != m2[q] by {
        let sp = if p < last {
            p
        } else {
            p + 1
        };
        let sq = if q < last {
            q
        } else {
            q + 1
        };
        assert(m2[p] == s[sp] && m2[q] == s[sq] && sp != sq);
    }
    assert(!m2.contains(k)) by {
        if m2.contains(k) {
            let p = choose|p: int| 0 <= p < m2.len() && m2[p] == k;
            let sp = if p < last {
                p
            } else {
                p + 1
            };
            assert(s[sp] == k && sp != last);
        }
    }
    if i < a {
        let a2 = a - 1;
        assert(m2.skip(a2) =~= m.skip(a));
        assert forall|x: Seq<u8>| m2.take(a2).to_set().contains(x) <==> m.take(a).to_set().remove(
            k,
        ).contains(x) by {
            lemma_range_contains(m2, 0, a2, x);
            lemma_range_contains(m, 0, a, x);
            assert(m2.take(a2) == m2.subrange(0, a2));
            assert(m.take(a) == m.subrange(0, a));
            if exists|j: int| 0 <= j < a2 && m2[j] == x {
                let j = choose|j: int| 0 <= j < a2 && m2[j] == x;
                let sj = if j == i {
                    last
                } else {
                    j
                };
                assert(m[sj] == x && 0 <= sj < a);
                assert(x != k);
            }
            if x != k && exists|j: int| 0 <= j < a && m[j] == x {
                let j = choose|j: int| 0 <= j < a && m[j] == x;
                assert(j != i);
                let tj = if j == last {
                    i
                } else {
                    j
                };
                assert(m2[tj] == x && 0 <= tj < a2);
            }
        }
        assert(m2.take(a2).to_set() =~= m.take(a).to_set().remove(k));
    } else {
        assert(m2.take(a) =~= m.take(a));
        let n = m.len() as int;
        assert forall|x: Seq<u8>| m2.skip(a).to_set().contains(x) <==> m.skip(a).to_set().remove(
            k,
        ).contains(x) by {
            lemma_range_contains(m2, a, n - 1, x);
            lemma_range_contains(m, a, n, x);
            assert(m2.skip(a) == m2.subrange(a, n - 1));
            assert(m.skip(a) == m.subrange(a, n));
            if exists|j: int| a <= j < n - 1 && m2[j] == x {
                let j = choose|j: int| a <= j < n - 1 && m2[j] == x;
                let sj = if j == i {
                    last
                } else {
                    j
                };
                assert(m[sj] == x && a <= sj < n);
                assert(x != k);
            }
            if x != k && exists|j: int| a <= j < n && m[j] == x {
                let j = choose|j: int| a <= j < n && m[j] == x;
                assert(j != i);
                let tj = if j == last {
                    i
                } else {
                    j
                };
                assert(m2[tj] == x && a <= tj < n - 1);
            }
        }
        assert(m2.skip(a).to_set() =~= m.skip(a).to_set().remove(k));
    }
}

/// Each index of one range of `w` that does not hold `k` holds what index
/// `f(p)` of a range of `u` holds; so whatever but `k` the first range holds,
/// the second holds too.
proof fn lemma_range_map(
    w: Seq<Seq<u8>>,
    lo1: int,
    hi1: int,
    u: Seq<Seq<u8>>,
    lo2: int,
    hi2: int,
    f: spec_fn(int) -> int,
    k: Seq<u8>,
    x: Seq<u8>,
)
    requires
        0 <= lo1 <= hi1 <= w.len(),
        0 <= lo2 <= hi2 <= u.len(),
        forall|p: int|
            lo1 <= p < hi1 ==> w[p] == k || (lo2 <= #[trigger] f(p) < hi2 && w[p] == u[f(p)]),
        x != k,
        w.subrange(lo1, hi1).contains(x),
    ensures
        u.subrange(lo2, hi2).contains(x),
{
    lemma_range_contains(w, lo1, hi1, x);
    lemma_range_contains(u, lo2, hi2, x);
    let p = choose|p: int| lo1 <= p < hi1 && w[p] == x;
    assert(u[f(p)] == x);
}

/// An identity held once, at `at`, is absent from every range without `at`.
proof fn lemma_absent_elsewhere(w: Seq<Seq<u8>>, at: int, lo: int, hi: int, k: Seq<u8>)
    requires
        w.no_duplicates(),
        0 <= at < w.len(),
        w[at] == k,
        0 <= lo <= hi <= w.len(),
        !(lo <= at < hi),
    ensures
        !w.subrange(lo, hi).contains(k),
{
    lemma_range_contains(w, lo, hi, k);
}

/// A vote keeps the voter array free of duplicates, with the "yes" count
/// within it; the array grows by one entry exactly on a first vote. The voter
/// ends on the side it chose, and every other voter stays on its side.
#[verifier::spinoff_prover]
pub proof fn lemma_vote_keeps_density(v: Seq<Seq<u8>>, yes: int, k: Seq<u8>, choice: bool)
    requires
        0 <= yes <= v.len(),
        v.no_duplicates(),
    ensures
        ({
            let (w, y2) = after_vote(v, yes, k, choice);
            &&& w.no_duplicates()
            &&& 0 <= y2 <= w.len()
            &&& w.len() == v.len() + (if v.contains(k) {
                0int
            } else {
                1int
            })
            &&& choice ==> w.take(y2).contains(k) && !w.skip(y2).contains(k)
            &&& !choice ==> w.skip(y2).contains(k) && !w.take(y2).contains(k)
            &&& forall|x: Seq<u8>|
                x != k ==> (w.take(y2).contains(x) <==> v.take(yes).contains(x)) && (w.skip(
                    y2,
                ).contains(x) <==> v.skip(yes).contains(x))
        }),
{
    let (w, y2) = after_vote(v, yes, k, choice);
    let l = v.len() as int;
    assert(v.take(yes) == v.subrange(0, yes));
    assert(v.skip(yes) == v.subrange(yes, l));
    if v.contains(k) {
        let i = first_index(v, k);
        assert(0 <= i < l && v[i] == k);
        assert(w.take(y2) == w.subrange(0, y2));
        assert(w.skip(y2) == w.subrange(y2, l));
        if choice && i >= yes {
            lemma_swap_no_duplicates(v, i, yes);
            assert forall|x: Seq<u8>| x != k implies (w.take(y2).contains(x) <==> v.take(
                yes,
            ).contains(x)) && (w.skip(y2).contains(x) <==> v.skip(yes).contains(x)) by {
                if w.take(y2).contains(x) {
                    lemma_range_map(w, 0, y2, v, 0, yes, |p: int| p, k, x);
                }
                if v.take(yes).contains(x) {
                    lemma_range_map(v, 0, yes, w, 0, y2, |p: int| p, k, x);
                }
                if w.skip(y2).contains(x) {
                    lemma_range_map(w, y2, l, v, yes, l, |p: int| if p == i { yes } else { p }, k, x);
                }
                if v.skip(yes).contains(x) {
                    lemma_range_map(v, yes, l, w, y2, l, |p: int| if p == yes { i } else { p }, k, x);
                }
            }
            assert(w[yes] == k);
            lemma_range_contains(w, 0, y2, k);
            lemma_absent_elsewhere(w, yes, y2, l, k);
        } else if !choice && i < yes {
            lemma_swap_no_duplicates(v, i, yes - 1);
            assert forall|x: Seq<u8>| x != k implies (w.take(y2).contains(x) <==> v.take(
                yes,
            ).contains(x)) && (w.skip(y2).contains(x) <==> v.skip(yes).contains(x)) by {
                if w.take(y2).contains(x) {
                    lemma_range_map(w, 0, y2, v, 0, yes, |p: int| if p == i { yes - 1 } else { p }, k, x);
                }
                if v.take(yes).contains(x) {
                    lemma_range_map(v, 0, yes, w, 0, y2, |p: int| if p == yes - 1 { i } else { p }, k, x);
                }
                if w.skip(y2).contains(x) {
                    lemma_range_map(w, y2, l, v, yes, l, |p: int| p, k, x);
                }
                if v.skip(yes).contains(x) {
                    lemma_range_map(v, yes, l, w, y2, l, |p: int| p, k, x);
                }
            }
            assert(w[yes - 1] == k);
            lemma_range_contains(w, y2, l, k);
            lemma_absent_elsewhere(w, yes - 1, 0, y2, k);
        } else {
            assert(w == v && y2 == yes);
            if i < yes {
                lemma_range_contains(w, 0, y2, k);
                lemma_absent_elsewhere(w, i, y2, l, k);
            } else {
                lemma_range_contains(w, y2, l, k);
                lemma_absent_elsewhere(w, i, 0, y2, k);
            }
        }
    } else {
        let u = v.push(k);
        assert(u.no_duplicates()) by {
            assert forall|p: int, q: int| 0 <= p < u.len() && 0 <= q < u.len() && p != q implies u[p]
                != u[q] by {
                if p == l {
                    assert(v[q] == u[q]);
                } else if q == l {
                    assert(v[p] == u[p]);
                }
            }
        }
        assert(w.take(y2) == w.subrange(0, y2));
        assert(w.skip(y2) == w.subrange(y2, l + 1));
        if choice {
            assert(w == u.update(l, u[yes]).update(yes, u[l]));
            lemma_swap_no_duplicates(u, l, yes);
            assert forall|x: Seq<u8>| x != k implies (w.take(y2).contains(x) <==> v.take(
                yes,
            ).contains(x)) && (w.skip(y2).contains(x) <==> v.skip(yes).contains(x)) by {
                if w.take(y2).contains(x) {
                    lemma_range_map(w, 0, y2, v, 0, yes, |p: int| p, k, x);
                }
                if v.take(yes).contains(x) {
                    lemma_range_map(v, 0, yes, w, 0, y2, |p: int| p, k, x);
                }
                if w.skip(y2).contains(x) {
                    lemma_range_map(w, y2, l + 1, v, yes, l, |p: int| if p == l { yes } else { p }, k, x);
                }
                if v.skip(yes).contains(x) {
                    lemma_range_map(v, yes, l, w, y2, l + 1, |p: int| if p == yes { l } else { p }, k, x);
                }
            }
            assert(w[yes] == k);
            lemma_range_contains(w, 0, y2, k);
            lemma_absent_elsewhere(w, yes, y2, l + 1, k);
        } else {
            assert(w == u);
            assert forall|x: Seq<u8>| x != k implies (w.take(y2).contains(x) <==> v.take(
                yes,
            ).contains(x)) && (w.skip(y2).contains(x) <==> v.skip(yes).contains(x)) by {
                if w.take(y2).contains(x) {
                    lemma_range_map(w, 0, y2, v, 0, yes, |p: int| p, k, x);
                }
                if v.take(yes).contains(x) {
                    lemma_range_map(v, 0, yes, w, 0, y2, |p: int| p, k, x);
                }
                if w.skip(y2).contains(x) {
                    lemma_range_map(w, y2, l + 1, v, yes, l, |p: int| p, k, x);
                }
                if v.skip(yes).contains(x) {
                    lemma_range_map(v, yes, l, w, y2, l + 1, |p: int| p, k, x);
                }
            }
            assert(w[l] == k);
            lemma_range_contains(w, y2, l + 1, k);
            lemma_absent_elsewhere(w, l, 0, y2, k);
        }
    }
}

/// One change to a member array: an identity joins with a role, or leaves.
pub enum MemberChange {
    Add(Seq<u8>, MemberRole),
    Remove(Seq<u8>),
}

/// The member array and admin count after one change. A change that the
/// registry refuses (a duplicate, an absent identity, a full array) leaves
/// both as they were.
pub open spec fn apply_member_change(m: Seq<Seq<u8>>, ac: u8, c: MemberChange) -> (
    Seq<Seq<u8>>,
    u8,
) {
    match c {
        MemberChange::Add(k, role) => {
            if m.contains(k) || m.len() >= 255 || k.len() != 32 {
                (m, ac)
            } else {
                (members_after_add(m, ac, k, role), admin_count_after_add(ac, role) as u8)
            }
        },
        MemberChange::Remove(k) => {
            if !m.contains(k) {
                (m, ac)
            } else {
                let i = first_index(m, k);
                (members_after_remove(m, ac, i), if i < ac {
                    (ac - 1) as u8
                } else {
                    ac
                })
            }
        },
    }
}

/// The member array and admin count after a sequence of changes.
pub open spec fn apply_member_changes(m: Seq<Seq<u8>>, ac: u8, cs: Seq<MemberChange>) -> (
    Seq<Seq<u8>>,
    u8,
)
    decreases cs.len(),
{
    if cs.len() == 0 {
        (m, ac)
    } else {
        let (m_post, ac1) = apply_member_change(m, ac, cs[0]);
        apply_member_changes(m_post, ac1, cs.skip(1))
    }
}

/// Whatever additions and removals follow one another, the member array stays
/// free of duplicates and its admin count stays within it: the array is always
/// the admins, as many as the count says, followed by the regular members.
pub proof fn lemma_member_changes_keep_partition(m: Seq<Seq<u8>>, ac: u8, cs: Seq<MemberChange>)
    requires
        ac <= m.len(),
        m.len() <= 255,
        m.no_duplicates(),
    ensures
        ({
            let (m2, ac2) = apply_member_changes(m, ac, cs);
            &&& ac2 <= m2.len() <= 255
            &&& m2.no_duplicates()
        }),
    decreases cs.len(),
{
    if cs.len() > 0 {
        let (m_post, ac1) = apply_member_change(m, ac, cs[0]);
        match cs[0] {
            MemberChange::Add(k, role) => {
                if !(m.contains(k) || m.len() >= 255 || k.len() != 32) {
                    lemma_add_keeps_partition(m, ac, k, role);
                }
            },
            MemberChange::Remove(k) => {
                if m.contains(k) {
                    lemma_remove_keeps_partition(m, ac, k);
                }
            },
        }
        lemma_member_changes_keep_partition(m_post, ac1, cs.skip(1));
    }
}

/// The voter array and "yes" count after a sequence of votes, each an
/// identity and its choice (`true` for "yes").
pub open spec fn apply_votes(v: Seq<Seq<u8>>, yes: int, ballots: Seq<(Seq<u8>, bool)>) -> (
    Seq<Seq<u8>>,
    int,
)
    decreases ballots.len(),
{
    if ballots.len() == 0 {
        (v, yes)
    } else {
        let (v_post, yes1) = after_vote(v, yes, ballots[0].0, ballots[0].1);
        apply_votes(v_post, yes1, ballots.skip(1))
    }
}

/// Whatever votes follow one another on a proposal, the voter array stays
/// free of duplicates and the "yes" count stays within it: the array is always
/// the "yes" voters, as many as the count says, followed by the "no" voters.
pub proof fn lemma_votes_keep_density(v: Seq<Seq<u8>>, yes: int, ballots: Seq<(Seq<u8>, bool)>)
    requires
        0 <= yes <= v.len(),
        v.no_duplicates(),
    ensures
        ({
            let (w, y2) = apply_votes(v, yes, ballots);
            &&& 0 <= y2 <= w.len()
            &&& w.no_duplicates()
        }),
    decreases ballots.len(),
{
    if ballots.len() > 0 {
        lemma_vote_keeps_density(v, yes, ballots[0].0, ballots[0].1);
        let (v_post, yes1) = after_vote(v, yes, ballots[0].0, ballots[0].1);
        lemma_votes_keep_density(v_post, yes1, ballots.skip(1));
    }
}

/// A minimum-deposit schedule that never asks less of a larger record.
pub open spec fn monotone(deposit: spec_fn(int) -> int) -> bool {
    forall|a: int, b: int| a <= b ==> #[trigger] deposit(a) <= #[trigger] deposit(b)
}

/// A group record that held its minimum deposit still holds it after an
/// addition paid against the deposit for the grown size.
pub proof fn lemma_add_keeps_deposit(
    deposit: spec_fn(int) -> int,
    p_pre: AccountRecord,
    m_pre: AccountRecord,
    p_post: AccountRecord,
    m_post: AccountRecord,
    min_balance: u64,
    data: Seq<u8>,
)
    requires
        min_balance == deposit(m_pre.data@.len() + 32int),
        added(p_pre, m_pre, p_post, m_post, min_balance, data),
    ensures
        m_post.lamports >= deposit(m_post.data@.len() as int),
{
}

/// A group record that held its minimum deposit still holds it after a
/// removal, which keeps the balance and shrinks the record.
pub proof fn lemma_remove_keeps_deposit(
    deposit: spec_fn(int) -> int,
    m_pre: AccountRecord,
    m_post: AccountRecord,
    data: Seq<u8>,
)
    requires
        monotone(deposit),
        m_pre.lamports >= deposit(m_pre.data@.len() as int),
        removed(m_pre, m_post, data),
    ensures
        m_post.lamports >= deposit(m_post.data@.len() as int),
{
    assert(deposit(m_post.data@.len() as int) <= deposit(m_pre.data@.len() as int));
}

/// A proposal record that held its minimum deposit still holds it after a
/// vote paid against the deposit for the grown size.
pub proof fn lemma_vote_keeps_deposit(
    deposit: spec_fn(int) -> int,
    v_pre: AccountRecord,
    p_pre: AccountRecord,
    v_post: AccountRecord,
    p_post: AccountRecord,
    data: Seq<u8>,
    min_balance: u64,
)
    requires
        p_pre.lamports >= deposit(p_pre.data@.len() as int),
        min_balance == deposit(p_pre.data@.len() + 32int),
        voted(v_pre, p_pre, v_post, p_post, data, min_balance),
    ensures
        p_post.lamports >= deposit(p_post.data@.len() as int),
{
    let first = !voters(p_pre.data@).contains(v_pre.key@);
    assert(first ==> p_post.lamports >= min_balance && p_post.data@.len() == p_pre.data@.len() + 32);
    assert(!first ==> p_post.lamports == p_pre.lamports && p_post.data@.len() == p_pre.data@.len());
}

/// A successful addition to a group record whose members were distinct: the
/// new identity joins its side, the other side stays as it was, and the
/// members stay distinct with the admin count within them.
pub proof fn lemma_added_keeps_partition(
    p_pre: AccountRecord,
    m_pre: AccountRecord,
    p_post: AccountRecord,
    m_post: AccountRecord,
    min_balance: u64,
    data: Seq<u8>,
)
    requires
        added(p_pre, m_pre, p_post, m_post, min_balance, data),
        group_wf(m_pre.data@),
        members(m_pre.data@).no_duplicates(),
        !members(m_pre.data@).contains(data.subrange(0, 32)),
    ensures
        members(m_post.data@).no_duplicates(),
        spec_role(data[32]) == MemberRole::Admin ==> admins(m_post.data@) == admins(m_pre.data@).push(
            data.subrange(0, 32),
        ) && regular_members(m_post.data@) == regular_members(m_pre.data@),
        spec_role(data[32]) == MemberRole::Member ==> admins(m_post.data@) == admins(m_pre.data@)
            && regular_members(m_post.data@) == regular_members(m_pre.data@).push(
            data.subrange(0, 32),
        ),
{
    let h = group_header(m_pre.data@);
    lemma_add_keeps_partition(members(m_pre.data@), h.admin_counter, data.subrange(0, 32), spec_role(data[32]));
}

/// A successful removal from a group record whose members were distinct: the
/// identity leaves its side, the other side stays as it was, and the members
/// stay distinct with the admin count within them.
pub proof fn lemma_removed_keeps_partition(m_pre: AccountRecord, m_post: AccountRecord, data: Seq<u8>)
    requires
        removed(m_pre, m_post, data),
        group_wf(m_pre.data@),
        members(m_pre.data@).no_duplicates(),
        members(m_pre.data@).contains(data.subrange(0, 32)),
    ensures
        ({
            let k = data.subrange(0, 32);
            let was_admin = admins(m_pre.data@).contains(k);
            &&& members(m_post.data@).no_duplicates()
            &&& !members(m_post.data@).contains(k)
            &&& was_admin ==> admins(m_post.data@).to_set() == admins(m_pre.data@).to_set().remove(k)
                && regular_members(m_post.data@) == regular_members(m_pre.data@)
            &&& !was_admin ==> admins(m_post.data@) == admins(m_pre.data@) && regular_members(
                m_post.data@,
            ).to_set() == regular_members(m_pre.data@).to_set().remove(k)
        }),
{
    let m = members(m_pre.data@);
    let h = group_header(m_pre.data@);
    let k = data.subrange(0, 32);
    lemma_remove_keeps_partition(m, h.admin_counter, k);
    let i = first_index(m, k);
    lemma_range_contains(m, 0, h.admin_counter as int, k);
    assert(m.take(h.admin_counter as int) == m.subrange(0, h.admin_counter as int));
    if admins(m_pre.data@).contains(k) {
        let j = choose|j: int| 0 <= j < h.admin_counter && m[j] == k;
        assert(i == j);
    }
}

/// A successful vote on a proposal record whose voters were distinct: the
/// voter ends on the side it chose, every other voter stays on its side, and
/// the voters stay distinct with the "yes" count within them.
pub proof fn lemma_voted_keeps_sides(
    v_pre: AccountRecord,
    p_pre: AccountRecord,
    v_post: AccountRecord,
    p_post: AccountRecord,
    data: Seq<u8>,
    min_balance: u64,
)
    requires
        voted(v_pre, p_pre, v_post, p_post, data, min_balance),
        proposal_wf(p_pre.data@),
        voters(p_pre.data@).no_duplicates(),
    ensures
        ({
            let k = v_pre.key@;
            let yes0 = proposal_header(p_pre.data@).yes_votes as int;
            let yes1 = proposal_header(p_post.data@).yes_votes as int;
            let w0 = voters(p_pre.data@);
            let w1 = voters(p_post.data@);
            &&& w1.no_duplicates()
            &&& w1.len() == yes1 + proposal_header(p_post.data@).no_votes
            &&& data[2] == 1 ==> w1.take(yes1).contains(k) && !w1.skip(yes1).contains(k)
            &&& data[2] != 1 ==> w1.skip(yes1).contains(k) && !w1.take(yes1).contains(k)
            &&& forall|x: Seq<u8>|
                x != k ==> (w1.take(yes1).contains(x) <==> w0.take(yes0).contains(x)) && (w1.skip(
                    yes1,
                ).contains(x) <==> w0.skip(yes0).contains(x))
        }),
{
    let h = proposal_header(p_pre.data@);
    lemma_vote_keeps_density(voters(p_pre.data@), h.yes_votes as int, v_pre.key@, data[2] == 1);
}

} // verus!
