use vstd::prelude::*;

verus! {

/// The keys of a key-value sequence, in the order they stand.
pub open spec fn keys_of<V>(s: Seq<(u64, V)>) -> Seq<u64> {
    s.map_values(|p: (u64, V)| p.0)
}

/// Strictly ascending: the ordered-map shape both transaction logs keep,
/// which also makes every key appear at most once.
pub open spec fn strictly_sorted(ks: Seq<u64>) -> bool {
    forall|i: int, j: int| 0 <= i < j < ks.len() ==> ks[i] < ks[j]
}

/// The map a key-value sequence denotes; a later entry for a key would win,
/// though a sorted sequence never holds two entries for one key.
pub open spec fn map_of<V>(s: Seq<(u64, V)>) -> Map<u64, V>
    decreases s.len(),
{
    if s.len() == 0 {
        Map::empty()
    } else {
        map_of(s.drop_last()).insert(s.last().0, s.last().1)
    }
}

pub proof fn lemma_map_of_contains<V>(s: Seq<(u64, V)>, k: u64)
    ensures
        map_of(s).contains_key(k) <==> exists|i: int| 0 <= i < s.len() && s[i].0 == k,
    decreases s.len(),
{
    if s.len() > 0 {
        lemma_map_of_contains(s.drop_last(), k);
        if s.last().0 == k {
            assert(s[s.len() - 1].0 == k);
        } else if map_of(s).contains_key(k) {
            let i = choose|i: int| 0 <= i < s.drop_last().len() && s.drop_last()[i].0 == k;
            assert(s[i].0 == k);
        } else if exists|i: int| 0 <= i < s.len() && s[i].0 == k {
            let i = choose|i: int| 0 <= i < s.len() && s[i].0 == k;
            assert(s.drop_last()[i].0 == k);
        }
    }
}

pub proof fn lemma_map_of_get<V>(s: Seq<(u64, V)>, i: int)
    requires
        strictly_sorted(keys_of(s)),
        0 <= i < s.len(),
    ensures
        map_of(s).contains_key(s[i].0),
        map_of(s)[s[i].0] == s[i].1,
    decreases s.len(),
{
    assert(keys_of(s)[i] == s[i].0);
    if i < s.len() - 1 {
        assert(keys_of(s)[s.len() - 1] == s[s.len() - 1].0);
        assert(keys_of(s)[i] < keys_of(s)[s.len() - 1]);
        assert(strictly_sorted(keys_of(s.drop_last()))) by {
            lemma_keys_drop_last(s);
        }
        assert(s.drop_last()[i] == s[i]);
        lemma_map_of_get(s.drop_last(), i);
    }
}

pub proof fn lemma_keys_drop_last<V>(s: Seq<(u64, V)>)
    requires
        s.len() > 0,
    ensures
        keys_of(s.drop_last()) == keys_of(s).drop_last(),
{
    assert(keys_of(s.drop_last()) =~= keys_of(s).drop_last());
}

/// Inserting a pair at the position that keeps the keys sorted denotes a
/// plain map insertion.
pub proof fn lemma_map_of_insert_at<V>(s: Seq<(u64, V)>, p: int, k: u64, v: V)
    requires
        strictly_sorted(keys_of(s)),
        0 <= p <= s.len(),
        forall|i: int| 0 <= i < p ==> s[i].0 < k,
        forall|i: int| p <= i < s.len() ==> s[i].0 > k,
    ensures
        map_of(s.insert(p, (k, v))) == map_of(s).insert(k, v),
    decreases s.len(),
{
    let t = s.insert(p, (k, v));
    if p == s.len() {
        assert(t.drop_last() =~= s);
        assert(t.last() == (k, v));
    } else {
        lemma_keys_drop_last(s);
        assert(t.drop_last() =~= s.drop_last().insert(p, (k, v)));
        assert(forall|i: int| 0 <= i < p ==> s.drop_last()[i].0 < k);
        assert(forall|i: int| p <= i < s.drop_last().len() ==> s.drop_last()[i].0 > k);
        lemma_map_of_insert_at(s.drop_last(), p, k, v);
        assert(t.last() == s.last());
        let a = s.last().0;
        assert(s[s.len() - 1].0 > k);
        assert(a != k);
        assert(map_of(s.drop_last()).insert(k, v).insert(a, s.last().1) =~= map_of(
            s.drop_last(),
        ).insert(a, s.last().1).insert(k, v));
    }
}

/// Replacing the pair that already carries a key denotes a plain map
/// insertion for that key.
pub proof fn lemma_map_of_update_at<V>(s: Seq<(u64, V)>, p: int, k: u64, v: V)
    requires
        strictly_sorted(keys_of(s)),
        0 <= p < s.len(),
        s[p].0 == k,
    ensures
        map_of(s.update(p, (k, v))) == map_of(s).insert(k, v),
    decreases s.len(),
{
    let t = s.update(p, (k, v));
    if p == s.len() - 1 {
        assert(t.drop_last() =~= s.drop_last());
        assert(t.last() == (k, v));
        assert(map_of(s.drop_last()).insert(k, v) =~= map_of(s.drop_last()).insert(
            k,
            s.last().1,
        ).insert(k, v));
    } else {
        lemma_keys_drop_last(s);
        assert(t.drop_last() =~= s.drop_last().update(p, (k, v)));
        assert(s.drop_last()[p] == s[p]);
        lemma_map_of_update_at(s.drop_last(), p, k, v);
        assert(t.last() == s.last());
        let a = s.last().0;
        assert(keys_of(s)[p] == s[p].0);
        assert(keys_of(s)[s.len() - 1] == s[s.len() - 1].0);
        assert(a != k);
        assert(map_of(s.drop_last()).insert(k, v).insert(a, s.last().1) =~= map_of(
            s.drop_last(),
        ).insert(a, s.last().1).insert(k, v));
    }
}

/// The keys after an insertion are the old keys with the new one inserted
/// at the same position.
pub proof fn lemma_keys_insert<V>(s: Seq<(u64, V)>, p: int, k: u64, v: V)
    requires
        0 <= p <= s.len(),
    ensures
        keys_of(s.insert(p, (k, v))) == keys_of(s).insert(p, k),
{
    assert(keys_of(s.insert(p, (k, v))) =~= keys_of(s).insert(p, k));
}

/// The keys are untouched when only a value is replaced.
pub proof fn lemma_keys_update<V>(s: Seq<(u64, V)>, p: int, k: u64, v: V)
    requires
        0 <= p < s.len(),
        s[p].0 == k,
    ensures
        keys_of(s.update(p, (k, v))) == keys_of(s),
{
    assert(keys_of(s.update(p, (k, v))) =~= keys_of(s));
}

/// Sorted keys stay sorted when a key is inserted between its neighbours.
pub proof fn lemma_sorted_insert(ks: Seq<u64>, p: int, k: u64)
    requires
        strictly_sorted(ks),
        0 <= p <= ks.len(),
        forall|i: int| 0 <= i < p ==> ks[i] < k,
        forall|i: int| p <= i < ks.len() ==> ks[i] > k,
    ensures
        strictly_sorted(ks.insert(p, k)),
{
    let t = ks.insert(p, k);
    assert forall|i: int, j: int| 0 <= i < j < t.len() implies t[i] < t[j] by {
        if i < p {
            assert(t[i] == ks[i]);
        } else if i == p {
            assert(t[i] == k);
        } else {
            assert(t[i] == ks[i - 1]);
        }
        if j < p {
            assert(t[j] == ks[j]);
        } else if j == p {
            assert(t[j] == k);
        } else {
            assert(t[j] == ks[j - 1]);
        }
    }
}

} // verus!
