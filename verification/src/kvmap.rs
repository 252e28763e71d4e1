//! The mathematical reading of an association list: a sequence of key-value
//! pairs with pairwise-distinct keys, seen as a `Map`.

use vstd::prelude::*;

verus! {

/// The map an association sequence denotes; later pairs win, though under
/// [`distinct_keys`] there is nothing to win over.
pub open spec fn kv_map<K, V>(s: Seq<(K, V)>) -> Map<K, V>
    decreases s.len(),
{
    if s.len() == 0 {
        Map::empty()
    } else {
        kv_map(s.drop_last()).insert(s.last().0, s.last().1)
    }
}

/// No two pairs share a key.
pub open spec fn distinct_keys<K, V>(s: Seq<(K, V)>) -> bool {
    forall|i: int, j: int| 0 <= i < j < s.len() ==> (#[trigger] s[i]).0 != (#[trigger] s[j]).0
}

/// Some pair carries the key `k`.
pub open spec fn has_key<K, V>(s: Seq<(K, V)>, k: K) -> bool {
    exists|i: int| 0 <= i < s.len() && (#[trigger] s[i]).0 == k
}

/// A key is in the map's domain exactly when some pair carries it.
pub proof fn lemma_kv_map_dom<K, V>(s: Seq<(K, V)>)
    ensures
        forall|k: K| #[trigger] kv_map(s).dom().contains(k) <==> has_key(s, k),
    decreases s.len(),
{
    if s.len() > 0 {
        let d = s.drop_last();
        lemma_kv_map_dom(d);
        assert forall|k: K| #[trigger] kv_map(s).dom().contains(k) implies has_key(s, k) by {
            if s.last().0 == k {
                assert((s[s.len() - 1]).0 == k);
            } else {
                assert(kv_map(d).dom().contains(k));
                assert(has_key(d, k));
                let i = choose|i: int| 0 <= i < d.len() && (#[trigger] d[i]).0 == k;
                assert(d[i] == s[i]);
                assert((s[i]).0 == k);
            }
        }
        assert forall|k: K| has_key(s, k) implies #[trigger] kv_map(s).dom().contains(k) by {
            assert(kv_map(s) == kv_map(d).insert(s.last().0, s.last().1));
            let i = choose|i: int| 0 <= i < s.len() && (#[trigger] s[i]).0 == k;
            if i < s.len() - 1 {
                assert(d[i] == s[i]);
                assert((d[i]).0 == k);
                assert(has_key(d, k));
                assert(kv_map(d).dom().contains(k));
            } else {
                assert(s.last() == s[i]);
            }
        }
    }
}

/// Under distinct keys, the pair at `i` gives the value the map holds at its
/// key.
pub proof fn lemma_kv_map_index<K, V>(s: Seq<(K, V)>, i: int)
    requires
        distinct_keys(s),
        0 <= i < s.len(),
    ensures
        kv_map(s).dom().contains((s[i]).0),
        kv_map(s)[(s[i]).0] == (s[i]).1,
    decreases s.len(),
{
    if i == s.len() - 1 {
    } else {
        assert(distinct_keys(s.drop_last())) by {
            assert(forall|a: int, b: int|
                0 <= a < b < s.drop_last().len() ==> (#[trigger] s.drop_last()[a]).0 != (
                #[trigger] s.drop_last()[b]).0) by {
                assert(forall|a: int|
                    0 <= a < s.drop_last().len() ==> #[trigger] s.drop_last()[a] == s[a]);
            }
        }
        lemma_kv_map_index(s.drop_last(), i);
        assert((s.drop_last()[i]) == s[i]);
        assert((s[i]).0 != (s[s.len() - 1]).0);
    }
}

/// Under distinct keys, replacing the value of the pair at `i` is inserting
/// at its key.
pub proof fn lemma_kv_map_update<K, V>(s: Seq<(K, V)>, i: int, v: V)
    requires
        distinct_keys(s),
        0 <= i < s.len(),
    ensures
        kv_map(s.update(i, ((s[i]).0, v))) == kv_map(s).insert((s[i]).0, v),
    decreases s.len(),
{
    let s2 = s.update(i, ((s[i]).0, v));
    if i == s.len() - 1 {
        assert(s2.drop_last() =~= s.drop_last());
        assert(s2.last() == ((s[i]).0, v));
        assert(kv_map(s2) =~= kv_map(s).insert((s[i]).0, v));
    } else {
        assert(distinct_keys(s.drop_last())) by {
            assert(forall|a: int|
                0 <= a < s.drop_last().len() ==> #[trigger] s.drop_last()[a] == s[a]);
        }
        lemma_kv_map_update(s.drop_last(), i, v);
        assert(s2.drop_last() =~= s.drop_last().update(i, ((s[i]).0, v)));
        assert(s2.last() == s.last());
        assert((s[i]).0 != (s[s.len() - 1]).0);
        assert(kv_map(s2) =~= kv_map(s).insert((s[i]).0, v));
    }
}

/// Appending a pair is inserting at its key.
pub proof fn lemma_kv_map_push<K, V>(s: Seq<(K, V)>, p: (K, V))
    ensures
        kv_map(s.push(p)) == kv_map(s).insert(p.0, p.1),
{
    assert(s.push(p).drop_last() =~= s);
    assert(s.push(p).last() == p);
}

/// The pair occurs in the sequence: same key, same value.
pub open spec fn pair_in<K, V>(p: (K, V), s: Seq<(K, V)>) -> bool {
    exists|j: int| 0 <= j < s.len() && (#[trigger] s[j]).0 == p.0 && s[j].1 == p.1
}

/// Every pair of `a` occurs in `b`.
pub open spec fn pairs_sub<K, V>(a: Seq<(K, V)>, b: Seq<(K, V)>) -> bool {
    forall|i: int| 0 <= i < a.len() ==> pair_in(#[trigger] a[i], b)
}

/// Under distinct keys, a pair of `a` missing from `b` separates the two
/// maps.
pub proof fn lemma_kv_maps_ne<K, V>(a: Seq<(K, V)>, b: Seq<(K, V)>)
    requires
        distinct_keys(a),
        distinct_keys(b),
        !pairs_sub(a, b),
    ensures
        kv_map(a) != kv_map(b),
{
    let ma = kv_map(a);
    let mb = kv_map(b);
    let i = choose|i: int| 0 <= i < a.len() && !pair_in(#[trigger] a[i], b);
    let k = (a[i]).0;
    lemma_kv_map_index(a, i);
    lemma_kv_map_dom(b);
    if mb.dom().contains(k) {
        let j = choose|j: int| 0 <= j < b.len() && (#[trigger] b[j]).0 == k;
        lemma_kv_map_index(b, j);
        assert((b[j]).1 != (a[i]).1);
        assert(ma[k] != mb[k]);
    } else {
        assert(ma.dom().contains(k) && !mb.dom().contains(k));
    }
}

/// Under distinct keys, mutual containment of the pairs makes the maps
/// equal.
pub proof fn lemma_kv_maps_eq<K, V>(a: Seq<(K, V)>, b: Seq<(K, V)>)
    requires
        distinct_keys(a),
        distinct_keys(b),
        pairs_sub(a, b),
        pairs_sub(b, a),
    ensures
        kv_map(a) == kv_map(b),
{
    let ma = kv_map(a);
    let mb = kv_map(b);
    lemma_kv_map_dom(a);
    lemma_kv_map_dom(b);
    assert forall|k: K| #[trigger] ma.dom().contains(k) implies mb.dom().contains(k) && ma[k]
        == mb[k] by {
        let i = choose|i: int| 0 <= i < a.len() && (#[trigger] a[i]).0 == k;
        lemma_kv_map_index(a, i);
        assert(pair_in(a[i], b));
        let j = choose|j: int| 0 <= j < b.len() && (#[trigger] b[j]).0 == (a[i]).0 && (b[j]).1 == (
        a[i]).1;
        lemma_kv_map_index(b, j);
    }
    assert forall|k: K| #[trigger] mb.dom().contains(k) implies ma.dom().contains(k) by {
        let j = choose|j: int| 0 <= j < b.len() && (#[trigger] b[j]).0 == k;
        assert(pair_in(b[j], a));
        let i = choose|i: int| 0 <= i < a.len() && (#[trigger] a[i]).0 == (b[j]).0 && (a[i]).1 == (
        b[j]).1;
        lemma_kv_map_index(a, i);
    }
    assert(ma =~= mb);
}

/// Under distinct keys, the number of pairs is the size of the domain.
pub proof fn lemma_kv_map_len<K, V>(s: Seq<(K, V)>)
    requires
        distinct_keys(s),
    ensures
        kv_map(s).dom().finite(),
        kv_map(s).dom().len() == s.len(),
    decreases s.len(),
{
    if s.len() > 0 {
        assert(distinct_keys(s.drop_last())) by {
            assert(forall|a: int|
                0 <= a < s.drop_last().len() ==> #[trigger] s.drop_last()[a] == s[a]);
        }
        lemma_kv_map_len(s.drop_last());
        lemma_kv_map_dom(s.drop_last());
        assert(!has_key(s.drop_last(), s.last().0)) by {
            assert(forall|a: int|
                0 <= a < s.drop_last().len() ==> (#[trigger] s.drop_last()[a]).0 == (s[a]).0);
        }
    }
}

} // verus!
