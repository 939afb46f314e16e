//! Lists of key/value pairs and the maps they describe.

use vstd::prelude::*;

verus! {

/// The map that a list of pairs describes: a later pair for a key overrides an
/// earlier one.
pub open spec fn series_map<K, V>(s: Seq<(K, V)>) -> Map<K, V>
    decreases s.len(),
{
    if s.len() == 0 {
        Map::empty()
    } else {
        series_map(s.drop_last()).insert(s.last().0, s.last().1)
    }
}

/// No key occurs twice in the list.
pub open spec fn keys_unique<K, V>(s: Seq<(K, V)>) -> bool {
    forall|i: int, j: int|
        0 <= i < s.len() && 0 <= j < s.len() && i != j ==> #[trigger] s[i].0 != #[trigger] s[j].0
}

/// A key is in the map exactly when some pair of the list carries it.
pub proof fn lemma_series_map_dom<K, V>(s: Seq<(K, V)>, k: K)
    ensures
        series_map(s).contains_key(k) <==> exists|i: int| 0 <= i < s.len() && s[i].0 == k,
    decreases s.len(),
{
    if s.len() > 0 {
        let t = s.drop_last();
        lemma_series_map_dom(t, k);
        if t.len() > 0 && series_map(t).contains_key(k) {
            let i = choose|i: int| 0 <= i < t.len() && t[i].0 == k;
            assert(s[i].0 == k);
        }
        if exists|i: int| 0 <= i < s.len() && s[i].0 == k {
            let i = choose|i: int| 0 <= i < s.len() && s[i].0 == k;
            if i < s.len() - 1 {
                assert(t[i].0 == k);
            }
        }
    }
}

/// With unique keys, each pair of the list is an entry of the map.
pub proof fn lemma_series_map_value<K, V>(s: Seq<(K, V)>, i: int)
    requires
        keys_unique(s),
        0 <= i < s.len(),
    ensures
        series_map(s).contains_key(s[i].0),
        series_map(s)[s[i].0] == s[i].1,
    decreases s.len(),
{
    if i < s.len() - 1 {
        let t = s.drop_last();
        assert forall|a: int, b: int|
            0 <= a < t.len() && 0 <= b < t.len() && a != b implies #[trigger] t[a].0
            != #[trigger] t[b].0 by {
            assert(t[a] == s[a] && t[b] == s[b]);
        }
        lemma_series_map_value(t, i);
        assert(t[i] == s[i]);
        assert(s[s.len() - 1].0 != s[i].0);
    }
}

/// Appending a pair adds its entry to the map.
pub proof fn lemma_series_map_push<K, V>(s: Seq<(K, V)>, k: K, v: V)
    ensures
        series_map(s.push((k, v))) == series_map(s).insert(k, v),
        keys_unique(s) && !series_map(s).contains_key(k) ==> keys_unique(s.push((k, v))),
{
    assert(s.push((k, v)).drop_last() =~= s);
    if keys_unique(s) && !series_map(s).contains_key(k) {
        lemma_series_map_dom(s, k);
        let t = s.push((k, v));
        assert forall|a: int, b: int|
            0 <= a < t.len() && 0 <= b < t.len() && a != b implies #[trigger] t[a].0
            != #[trigger] t[b].0 by {
            if a < s.len() {
                assert(t[a] == s[a]);
            }
            if b < s.len() {
                assert(t[b] == s[b]);
            }
        }
    }
}

/// Replacing the value of an existing pair replaces that entry of the map.
pub proof fn lemma_series_map_update<K, V>(s: Seq<(K, V)>, j: int, v: V)
    requires
        keys_unique(s),
        0 <= j < s.len(),
    ensures
        keys_unique(s.update(j, (s[j].0, v))),
        series_map(s.update(j, (s[j].0, v))) == series_map(s).insert(s[j].0, v),
{
    let k = s[j].0;
    let t = s.update(j, (k, v));
    assert forall|a: int, b: int|
        0 <= a < t.len() && 0 <= b < t.len() && a != b implies #[trigger] t[a].0
        != #[trigger] t[b].0 by {
        assert(t[a].0 == s[a].0 && t[b].0 == s[b].0);
    }
    let lhs = series_map(t);
    let rhs = series_map(s).insert(k, v);
    assert forall|x: K| lhs.contains_key(x) <==> rhs.contains_key(x) by {
        lemma_series_map_dom(t, x);
        lemma_series_map_dom(s, x);
        if exists|i: int| 0 <= i < t.len() && t[i].0 == x {
            let i = choose|i: int| 0 <= i < t.len() && t[i].0 == x;
            assert(s[i].0 == x);
        }
        if exists|i: int| 0 <= i < s.len() && s[i].0 == x {
            let i = choose|i: int| 0 <= i < s.len() && s[i].0 == x;
            assert(t[i].0 == x);
        }
    }
    assert forall|x: K| lhs.contains_key(x) implies lhs[x] == rhs[x] by {
        lemma_series_map_dom(t, x);
        let i = choose|i: int| 0 <= i < t.len() && t[i].0 == x;
        lemma_series_map_value(t, i);
        if i != j {
            lemma_series_map_value(s, i);
        }
    }
    assert(lhs =~= rhs);
}

/// Laying the map of a list of pairs over another map, then extending the
/// list by one pair, adds that pair's entry to the result.
pub proof fn lemma_overlay_push<K, V>(m: Map<K, V>, s: Seq<(K, V)>, k: K, v: V)
    ensures
        m.union_prefer_right(series_map(s.push((k, v)))) == m.union_prefer_right(
            series_map(s),
        ).insert(k, v),
{
    lemma_series_map_push(s, k, v);
    assert(m.union_prefer_right(series_map(s.push((k, v)))) =~= m.union_prefer_right(
        series_map(s),
    ).insert(k, v));
}

} // verus!
