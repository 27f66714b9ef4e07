//! Keyed tables: vectors of key/value pairs with unique keys and map-like
//! contracts. Both persistence tiers hold their tables in this form, with
//! 128-bit ids or pairs of ids as keys.

use vstd::prelude::*;

verus! {

// =============================================================================
// SINGLE ID KEY
// =============================================================================

/// No two entries share a key.
pub open spec fn keys_unique<V>(s: Seq<(u128, V)>) -> bool {
    forall|i: int, j: int| 0 <= i < j < s.len() ==> (#[trigger] s[i]).0 != (#[trigger] s[j]).0
}

/// The value stored under a key, if any.
pub open spec fn spec_lookup<V>(s: Seq<(u128, V)>, k: u128) -> Option<V>
    decreases s.len(),
{
    if s.len() == 0 {
        None
    } else if s.last().0 == k {
        Some(s.last().1)
    } else {
        spec_lookup(s.drop_last(), k)
    }
}

/// An entry with the key pins the lookup down.
pub proof fn lemma_lookup_unique<V>(s: Seq<(u128, V)>, k: u128, i: int)
    requires
        keys_unique(s),
        0 <= i < s.len(),
        s[i].0 == k,
    ensures
        spec_lookup(s, k) == Some(s[i].1),
    decreases s.len(),
{
    if i < s.len() - 1 {
        assert(s.last().0 != k);
        assert(keys_unique(s.drop_last())) by {
            assert(forall|p: int|
                0 <= p < s.len() - 1 ==> #[trigger] s.drop_last()[p] == s[p]);
        }
        lemma_lookup_unique(s.drop_last(), k, i);
    }
}

/// A lookup result is stored at some index.
pub proof fn lemma_lookup_index<V>(s: Seq<(u128, V)>, k: u128, v: V)
    requires
        spec_lookup(s, k) == Some(v),
    ensures
        exists|i: int| 0 <= i < s.len() && #[trigger] s[i] == (k, v),
    decreases s.len(),
{
    if s.last().0 == k {
        assert(s[s.len() - 1] == (k, v));
    } else {
        assert(forall|p: int| 0 <= p < s.len() - 1 ==> #[trigger] s.drop_last()[p] == s[p]);
        lemma_lookup_index(s.drop_last(), k, v);
        let i = choose|i: int| 0 <= i < s.drop_last().len() && #[trigger] s.drop_last()[i] == (k, v);
        assert(s[i] == (k, v));
    }
}

/// An entry with the key means some lookup result.
pub proof fn lemma_lookup_present<V>(s: Seq<(u128, V)>, k: u128, i: int)
    requires
        0 <= i < s.len(),
        s[i].0 == k,
    ensures
        spec_lookup(s, k) is Some,
    decreases s.len(),
{
    if s.last().0 != k {
        assert(forall|p: int| 0 <= p < s.len() - 1 ==> #[trigger] s.drop_last()[p] == s[p]);
        lemma_lookup_present(s.drop_last(), k, i);
    }
}

/// No entry with the key means no lookup result.
pub proof fn lemma_lookup_absent<V>(s: Seq<(u128, V)>, k: u128)
    requires
        forall|i: int| 0 <= i < s.len() ==> (#[trigger] s[i]).0 != k,
    ensures
        spec_lookup(s, k) is None,
    decreases s.len(),
{
    if s.len() > 0 {
        assert(forall|p: int| 0 <= p < s.len() - 1 ==> #[trigger] s.drop_last()[p] == s[p]);
        lemma_lookup_absent(s.drop_last(), k);
    }
}

/// Find the index of the entry with the given key.
pub fn find_key<V>(v: &Vec<(u128, V)>, k: u128) -> (r: Option<usize>)
    requires
        keys_unique(v@),
    ensures
        match r {
            Some(i) => i < v@.len() && v@[i as int].0 == k && spec_lookup(v@, k) == Some(
                v@[i as int].1,
            ),
            None => spec_lookup(v@, k) is None,
        },
{
    let mut i: usize = 0;
    while i < v.len()
        invariant
            i <= v@.len(),
            keys_unique(v@),
            forall|j: int| 0 <= j < i ==> (#[trigger] v@[j]).0 != k,
        decreases v@.len() - i,
    {
        if v[i].0 == k {
            proof {
                lemma_lookup_unique(v@, k, i as int);
            }
            return Some(i);
        }
        i += 1;
    }
    proof {
        lemma_lookup_absent(v@, k);
    }
    None
}

/// Insert or replace the value under a key; every other key is untouched.
pub fn upsert<V>(v: &mut Vec<(u128, V)>, k: u128, val: V)
    requires
        keys_unique(old(v)@),
    ensures
        keys_unique(final(v)@),
        spec_lookup(final(v)@, k) matches Some(x) && x == val,
        forall|k2: u128| k2 != k ==> spec_lookup(final(v)@, k2) == spec_lookup(old(v)@, k2),
        final(v)@.len() <= old(v)@.len() + 1,
{
    let ghost s0 = v@;
    let idx = find_key(v, k);
    match idx {
        Some(i) => {
            let slot = vstd::std_specs::vec::vec_index_mut(v, i);
            *slot = (k, val);
            proof {
                assert(keys_unique(v@)) by {
                    assert(forall|p: int|
                        0 <= p < v@.len() ==> (#[trigger] v@[p]).0 == s0[p].0);
                }
                lemma_lookup_unique(v@, k, i as int);
                assert forall|k2: u128| k2 != k implies spec_lookup(v@, k2) == spec_lookup(
                    s0,
                    k2,
                ) by {
                    lemma_lookup_frame(s0, v@, k2);
                }
            }
        },
        None => {
            v.push((k, val));
            proof {
                assert(forall|p: int| 0 <= p < s0.len() ==> #[trigger] v@[p] == s0[p]);
                assert forall|p: int| 0 <= p < s0.len() implies (#[trigger] s0[p]).0 != k by {
                    if s0[p].0 == k {
                        lemma_lookup_present(s0, k, p);
                    }
                }
                assert(keys_unique(v@));
                assert(v@.last() == (k, val));
                assert(v@.drop_last() =~= s0);
                assert forall|k2: u128| k2 != k implies spec_lookup(v@, k2) == spec_lookup(
                    s0,
                    k2,
                ) by {
                    assert(v@.drop_last() =~= s0);
                }
            }
        },
    }
}

/// If two sequences agree on every entry whose key is `k2`, their lookups of
/// `k2` agree. Stated for same-length sequences equal except possibly at
/// entries whose key is not `k2`.
proof fn lemma_lookup_frame<V>(a: Seq<(u128, V)>, b: Seq<(u128, V)>, k2: u128)
    requires
        a.len() == b.len(),
        forall|p: int| 0 <= p < a.len() ==> (#[trigger] a[p]).0 == (#[trigger] b[p]).0,
        forall|p: int| 0 <= p < a.len() && a[p].0 == k2 ==> #[trigger] a[p] == #[trigger] b[p],
    ensures
        spec_lookup(a, k2) == spec_lookup(b, k2),
    decreases a.len(),
{
    if a.len() > 0 {
        assert(forall|p: int|
            0 <= p < a.len() - 1 ==> #[trigger] a.drop_last()[p] == a[p]);
        assert(forall|p: int|
            0 <= p < b.len() - 1 ==> #[trigger] b.drop_last()[p] == b[p]);
        if a.last().0 == k2 {
            assert(a.last() == b.last());
        } else {
            lemma_lookup_frame(a.drop_last(), b.drop_last(), k2);
        }
    }
}

/// Remove the entry under a key, if present; every other key is untouched.
pub fn remove_key<V>(v: &mut Vec<(u128, V)>, k: u128)
    requires
        keys_unique(old(v)@),
    ensures
        keys_unique(final(v)@),
        spec_lookup(final(v)@, k) is None,
        forall|k2: u128| k2 != k ==> spec_lookup(final(v)@, k2) == spec_lookup(old(v)@, k2),
{
    let ghost s0 = v@;
    let idx = find_key(v, k);
    match idx {
        Some(i) => {
            v.remove(i);
            proof {
                assert(forall|p: int|
                    0 <= p < v@.len() ==> #[trigger] v@[p] == (if p < i {
                        s0[p]
                    } else {
                        s0[p + 1]
                    }));
                assert(keys_unique(v@));
                assert(forall|p: int| 0 <= p < v@.len() ==> (#[trigger] v@[p]).0 != k);
                lemma_lookup_absent(v@, k);
                assert forall|k2: u128| k2 != k implies spec_lookup(v@, k2) == spec_lookup(
                    s0,
                    k2,
                ) by {
                    lemma_lookup_remove_other(s0, v@, i as int, k2);
                }
            }
        },
        None => {},
    }
}

/// Lookup of a key other than the removed entry's is unchanged by the
/// removal.
proof fn lemma_lookup_remove_other<V>(a: Seq<(u128, V)>, b: Seq<(u128, V)>, i: int, k2: u128)
    requires
        0 <= i < a.len(),
        b.len() == a.len() - 1,
        a[i].0 != k2,
        forall|p: int|
            0 <= p < b.len() ==> #[trigger] b[p] == (if p < i {
                a[p]
            } else {
                a[p + 1]
            }),
    ensures
        spec_lookup(a, k2) == spec_lookup(b, k2),
    decreases a.len(),
{
    if i == a.len() - 1 {
        assert(b =~= a.drop_last());
    } else {
        assert(b.last() == a.last());
        assert(forall|p: int|
            0 <= p < b.len() - 1 ==> #[trigger] b.drop_last()[p] == (if p < i {
                a.drop_last()[p]
            } else {
                a.drop_last()[p + 1]
            }));
        if a.last().0 != k2 {
            lemma_lookup_remove_other(a.drop_last(), b.drop_last(), i, k2);
        }
    }
}

// =============================================================================
// PAIRED ID KEY
// =============================================================================

/// No two entries share a key pair.
pub open spec fn keys_unique2<V>(s: Seq<((u128, u128), V)>) -> bool {
    forall|i: int, j: int| 0 <= i < j < s.len() ==> (#[trigger] s[i]).0 != (#[trigger] s[j]).0
}

/// The value stored under a key pair, if any.
pub open spec fn spec_lookup2<V>(s: Seq<((u128, u128), V)>, k: (u128, u128)) -> Option<V>
    decreases s.len(),
{
    if s.len() == 0 {
        None
    } else if s.last().0 == k {
        Some(s.last().1)
    } else {
        spec_lookup2(s.drop_last(), k)
    }
}

pub proof fn lemma_lookup2_unique<V>(s: Seq<((u128, u128), V)>, k: (u128, u128), i: int)
    requires
        keys_unique2(s),
        0 <= i < s.len(),
        s[i].0 == k,
    ensures
        spec_lookup2(s, k) == Some(s[i].1),
    decreases s.len(),
{
    if i < s.len() - 1 {
        assert(s.last().0 != k);
        assert(keys_unique2(s.drop_last())) by {
            assert(forall|p: int|
                0 <= p < s.len() - 1 ==> #[trigger] s.drop_last()[p] == s[p]);
        }
        lemma_lookup2_unique(s.drop_last(), k, i);
    }
}

/// A lookup result is stored at some index.
pub proof fn lemma_lookup2_index<V>(s: Seq<((u128, u128), V)>, k: (u128, u128), v: V)
    requires
        spec_lookup2(s, k) == Some(v),
    ensures
        exists|i: int| 0 <= i < s.len() && #[trigger] s[i] == (k, v),
    decreases s.len(),
{
    if s.last().0 == k {
        assert(s[s.len() - 1] == (k, v));
    } else {
        assert(forall|p: int| 0 <= p < s.len() - 1 ==> #[trigger] s.drop_last()[p] == s[p]);
        lemma_lookup2_index(s.drop_last(), k, v);
        let i = choose|i: int|
            0 <= i < s.drop_last().len() && #[trigger] s.drop_last()[i] == (k, v);
        assert(s[i] == (k, v));
    }
}

pub proof fn lemma_lookup2_present<V>(s: Seq<((u128, u128), V)>, k: (u128, u128), i: int)
    requires
        0 <= i < s.len(),
        s[i].0 == k,
    ensures
        spec_lookup2(s, k) is Some,
    decreases s.len(),
{
    if s.last().0 != k {
        assert(forall|p: int| 0 <= p < s.len() - 1 ==> #[trigger] s.drop_last()[p] == s[p]);
        lemma_lookup2_present(s.drop_last(), k, i);
    }
}

pub proof fn lemma_lookup2_absent<V>(s: Seq<((u128, u128), V)>, k: (u128, u128))
    requires
        forall|i: int| 0 <= i < s.len() ==> (#[trigger] s[i]).0 != k,
    ensures
        spec_lookup2(s, k) is None,
    decreases s.len(),
{
    if s.len() > 0 {
        assert(forall|p: int| 0 <= p < s.len() - 1 ==> #[trigger] s.drop_last()[p] == s[p]);
        lemma_lookup2_absent(s.drop_last(), k);
    }
}

/// Find the index of the entry with the given key pair.
pub fn find_key2<V>(v: &Vec<((u128, u128), V)>, k0: u128, k1: u128) -> (r: Option<usize>)
    requires
        keys_unique2(v@),
    ensures
        match r {
            Some(i) => i < v@.len() && v@[i as int].0 == (k0, k1) && spec_lookup2(v@, (k0, k1))
                == Some(v@[i as int].1),
            None => spec_lookup2(v@, (k0, k1)) is None,
        },
{
    let mut i: usize = 0;
    while i < v.len()
        invariant
            i <= v@.len(),
            keys_unique2(v@),
            forall|j: int| 0 <= j < i ==> (#[trigger] v@[j]).0 != (k0, k1),
        decreases v@.len() - i,
    {
        if v[i].0.0 == k0 && v[i].0.1 == k1 {
            proof {
                assert(v@[i as int].0 == (k0, k1));
                lemma_lookup2_unique(v@, (k0, k1), i as int);
            }
            return Some(i);
        }
        i += 1;
    }
    proof {
        lemma_lookup2_absent(v@, (k0, k1));
    }
    None
}

proof fn lemma_lookup2_frame<V>(a: Seq<((u128, u128), V)>, b: Seq<((u128, u128), V)>, k2: (u128, u128))
    requires
        a.len() == b.len(),
        forall|p: int| 0 <= p < a.len() ==> (#[trigger] a[p]).0 == (#[trigger] b[p]).0,
        forall|p: int| 0 <= p < a.len() && a[p].0 == k2 ==> #[trigger] a[p] == #[trigger] b[p],
    ensures
        spec_lookup2(a, k2) == spec_lookup2(b, k2),
    decreases a.len(),
{
    if a.len() > 0 {
        assert(forall|p: int| 0 <= p < a.len() - 1 ==> #[trigger] a.drop_last()[p] == a[p]);
        assert(forall|p: int| 0 <= p < b.len() - 1 ==> #[trigger] b.drop_last()[p] == b[p]);
        if a.last().0 == k2 {
            assert(a.last() == b.last());
        } else {
            lemma_lookup2_frame(a.drop_last(), b.drop_last(), k2);
        }
    }
}

/// Insert or replace the value under a key pair; every other key is
/// untouched.
pub fn upsert2<V>(v: &mut Vec<((u128, u128), V)>, k0: u128, k1: u128, val: V)
    requires
        keys_unique2(old(v)@),
    ensures
        keys_unique2(final(v)@),
        spec_lookup2(final(v)@, (k0, k1)) matches Some(x) && x == val,
        forall|k2: (u128, u128)|
            k2 != (k0, k1) ==> spec_lookup2(final(v)@, k2) == spec_lookup2(old(v)@, k2),
        final(v)@.len() <= old(v)@.len() + 1,
{
    let ghost s0 = v@;
    let idx = find_key2(v, k0, k1);
    match idx {
        Some(i) => {
            let slot = vstd::std_specs::vec::vec_index_mut(v, i);
            *slot = ((k0, k1), val);
            proof {
                assert(keys_unique2(v@)) by {
                    assert(forall|p: int|
                        0 <= p < v@.len() ==> (#[trigger] v@[p]).0 == s0[p].0);
                }
                lemma_lookup2_unique(v@, (k0, k1), i as int);
                assert forall|k2: (u128, u128)| k2 != (k0, k1) implies spec_lookup2(v@, k2)
                    == spec_lookup2(s0, k2) by {
                    lemma_lookup2_frame(s0, v@, k2);
                }
            }
        },
        None => {
            v.push(((k0, k1), val));
            proof {
                assert(forall|p: int| 0 <= p < s0.len() ==> #[trigger] v@[p] == s0[p]);
                assert forall|p: int| 0 <= p < s0.len() implies (#[trigger] s0[p]).0 != (
                    k0,
                    k1,
                ) by {
                    if s0[p].0 == (k0, k1) {
                        lemma_lookup2_present(s0, (k0, k1), p);
                    }
                }
                assert(keys_unique2(v@));
                assert(v@.last() == ((k0, k1), val));
                assert(v@.drop_last() =~= s0);
            }
        },
    }
}

} // verus!
