use vstd::prelude::*;

verus! {

/// The map that a sequence of `(key, value)` entries stands for: a later
/// entry for a key hides an earlier one.
pub open spec fn keyed<V>(s: Seq<(Seq<char>, V)>) -> Map<Seq<char>, V>
    decreases s.len(),
{
    if s.len() == 0 {
        Map::empty()
    } else {
        keyed(s.drop_last()).insert(s.last().0, s.last().1)
    }
}

/// No two entries share a key.
pub open spec fn unique_keys<V>(s: Seq<(Seq<char>, V)>) -> bool {
    forall|i: int, j: int| 0 <= i < s.len() && 0 <= j < s.len() && i != j ==> s[i].0 != s[j].0
}

/// A key is in the map exactly when some entry carries it.
pub proof fn lemma_keyed_domain<V>(s: Seq<(Seq<char>, V)>, k: Seq<char>)
    ensures
        keyed(s).contains_key(k) <==> exists|i: int| 0 <= i < s.len() && s[i].0 == k,
    decreases s.len(),
{
    if s.len() > 0 {
        lemma_keyed_domain(s.drop_last(), k);
        if keyed(s.drop_last()).contains_key(k) {
            let i = choose|i: int| 0 <= i < s.drop_last().len() && s.drop_last()[i].0 == k;
            assert(s[i].0 == k);
        }
        if exists|i: int| 0 <= i < s.len() && s[i].0 == k {
            let i = choose|i: int| 0 <= i < s.len() && s[i].0 == k;
            if i < s.len() - 1 {
                assert(s.drop_last()[i].0 == k);
            }
        }
    }
}

/// With unique keys, each entry's value is what the map holds for its key.
pub proof fn lemma_keyed_entry<V>(s: Seq<(Seq<char>, V)>, i: int)
    requires
        unique_keys(s),
        0 <= i < s.len(),
    ensures
        keyed(s).contains_key(s[i].0),
        keyed(s)[s[i].0] == s[i].1,
    decreases s.len(),
{
    if i < s.len() - 1 {
        let t = s.drop_last();
        assert(unique_keys(t));
        lemma_keyed_entry(t, i);
        assert(t[i] == s[i]);
        assert(s.last().0 != s[i].0);
    }
}

/// Appending an entry inserts it into the map.
pub proof fn lemma_keyed_push<V>(s: Seq<(Seq<char>, V)>, e: (Seq<char>, V))
    ensures
        keyed(s.push(e)) == keyed(s).insert(e.0, e.1),
{
    assert(s.push(e).drop_last() =~= s);
}

/// Replacing the value of one entry, with unique keys, replaces that key's
/// value in the map.
pub proof fn lemma_keyed_update<V>(s: Seq<(Seq<char>, V)>, i: int, v: V)
    requires
        unique_keys(s),
        0 <= i < s.len(),
    ensures
        keyed(s.update(i, (s[i].0, v))) == keyed(s).insert(s[i].0, v),
    decreases s.len(),
{
    let u = s.update(i, (s[i].0, v));
    if i == s.len() - 1 {
        assert(u.drop_last() =~= s.drop_last());
    } else {
        let t = s.drop_last();
        assert(unique_keys(t));
        lemma_keyed_update(t, i, v);
        assert(u.drop_last() =~= t.update(i, (t[i].0, v)));
        assert(s.last().0 != s[i].0);
        assert(keyed(u) =~= keyed(s).insert(s[i].0, v));
    }
}

/// Two entry sequences with the same keys in the same places and unique keys
/// give maps with the same domain, each value the one at that key's place.
pub proof fn lemma_keyed_pointwise<V>(s: Seq<(Seq<char>, V)>, t: Seq<(Seq<char>, V)>, k: Seq<char>)
    requires
        unique_keys(s),
        s.len() == t.len(),
        forall|i: int| 0 <= i < s.len() ==> #[trigger] s[i].0 == t[i].0,
    ensures
        unique_keys(t),
        keyed(s).contains_key(k) == keyed(t).contains_key(k),
        keyed(s).contains_key(k) ==> exists|i: int|
            0 <= i < s.len() && s[i].0 == k && keyed(s)[k] == s[i].1 && keyed(t)[k] == t[i].1,
{
    assert(unique_keys(t)) by {
        assert forall|i: int, j: int|
            0 <= i < t.len() && 0 <= j < t.len() && i != j implies t[i].0 != t[j].0 by {
            assert(s[i].0 == t[i].0 && s[j].0 == t[j].0);
        }
    }
    lemma_keyed_domain(s, k);
    lemma_keyed_domain(t, k);
    if keyed(s).contains_key(k) {
        let i = choose|i: int| 0 <= i < s.len() && s[i].0 == k;
        lemma_keyed_entry(s, i);
        lemma_keyed_entry(t, i);
    }
    if keyed(t).contains_key(k) {
        let i = choose|i: int| 0 <= i < t.len() && t[i].0 == k;
        assert(s[i].0 == k);
    }
}

} // verus!
