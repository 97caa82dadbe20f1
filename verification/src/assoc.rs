//! Association lists: sequences of key/value pairs read as maps.

use vstd::prelude::*;

verus! {

/// The pairs as a map; a later pair for the same key replaces an earlier one.
pub open spec fn assoc<K, V>(s: Seq<(K, V)>) -> Map<K, V>
    decreases s.len(),
{
    if s.len() == 0 {
        Map::empty()
    } else {
        assoc(s.drop_last()).insert(s.last().0, s.last().1)
    }
}

/// No key occurs twice.
pub open spec fn distinct_keys<K, V>(s: Seq<(K, V)>) -> bool {
    forall|i: int, j: int| 0 <= i < j < s.len() ==> s[i].0 != s[j].0
}

pub proof fn lemma_assoc_lookup<K, V>(s: Seq<(K, V)>)
    requires
        distinct_keys(s),
    ensures
        forall|i: int|
            0 <= i < s.len() ==> #[trigger] assoc(s).contains_key(s[i].0) && assoc(s)[s[i].0]
                == s[i].1,
        forall|k: K| #[trigger]
            assoc(s).contains_key(k) ==> exists|i: int| 0 <= i < s.len() && s[i].0 == k,
        assoc(s).dom().finite(),
        assoc(s).dom().len() == s.len(),
    decreases s.len(),
{
    if s.len() > 0 {
        let t = s.drop_last();
        assert(distinct_keys(t));
        lemma_assoc_lookup(t);
        assert forall|k: K| #[trigger] assoc(s).contains_key(k) implies exists|i: int|
            0 <= i < s.len() && s[i].0 == k by {
            if k != s.last().0 {
                let i = choose|i: int| 0 <= i < t.len() && t[i].0 == k;
                assert(s[i].0 == k);
            } else {
                assert(s[s.len() - 1].0 == k);
            }
        }
        assert(!assoc(t).contains_key(s.last().0)) by {
            if assoc(t).contains_key(s.last().0) {
                let i = choose|i: int| 0 <= i < t.len() && t[i].0 == s.last().0;
                assert(s[i].0 == s[s.len() - 1].0);
            }
        }
        assert forall|i: int| 0 <= i < s.len() implies #[trigger] assoc(s).contains_key(s[i].0)
            && assoc(s)[s[i].0] == s[i].1 by {
            if i < s.len() - 1 {
                assert(t[i] == s[i]);
                assert(s[i].0 != s[s.len() - 1].0);
            }
        }
    }
}

pub proof fn lemma_assoc_update<K, V>(s: Seq<(K, V)>, i: int, e: (K, V))
    requires
        distinct_keys(s),
        0 <= i < s.len(),
        s[i].0 == e.0,
    ensures
        distinct_keys(s.update(i, e)),
        assoc(s.update(i, e)) == assoc(s).insert(e.0, e.1),
{
    let u = s.update(i, e);
    assert(distinct_keys(u)) by {
        assert forall|a: int, b: int| 0 <= a < b < u.len() implies u[a].0 != u[b].0 by {
            assert(s[a].0 != s[b].0);
        }
    }
    lemma_assoc_lookup(s);
    lemma_assoc_lookup(u);
    assert(assoc(u) =~= assoc(s).insert(e.0, e.1)) by {
        assert forall|k: K| #[trigger] assoc(u).contains_key(k) <==> assoc(s).insert(
            e.0,
            e.1,
        ).contains_key(k) by {
            if assoc(u).contains_key(k) {
                let j = choose|j: int| 0 <= j < u.len() && u[j].0 == k;
                if j != i {
                    assert(s[j] == u[j]);
                }
            }
            if assoc(s).contains_key(k) {
                let j = choose|j: int| 0 <= j < s.len() && s[j].0 == k;
                if j != i {
                    assert(s[j] == u[j]);
                } else {
                    assert(u[i].0 == k);
                }
            }
            if k == e.0 {
                assert(u[i].0 == k);
            }
        }
        assert forall|k: K| #[trigger] assoc(u).contains_key(k) implies assoc(u)[k] == assoc(
            s,
        ).insert(e.0, e.1)[k] by {
            let j = choose|j: int| 0 <= j < u.len() && u[j].0 == k;
            if j != i {
                assert(s[j] == u[j]);
            }
        }
    }
}

pub proof fn lemma_assoc_push<K, V>(s: Seq<(K, V)>, e: (K, V))
    requires
        distinct_keys(s),
        !assoc(s).contains_key(e.0),
    ensures
        distinct_keys(s.push(e)),
        assoc(s.push(e)) == assoc(s).insert(e.0, e.1),
{
    lemma_assoc_lookup(s);
    let p = s.push(e);
    assert(p.drop_last() =~= s);
    assert forall|a: int, b: int| 0 <= a < b < p.len() implies p[a].0 != p[b].0 by {
        if b == s.len() {
            assert(assoc(s).contains_key(s[a].0));
        } else {
            assert(s[a].0 != s[b].0);
        }
    }
}

pub proof fn lemma_assoc_remove<K, V>(s: Seq<(K, V)>, i: int)
    requires
        distinct_keys(s),
        0 <= i < s.len(),
    ensures
        distinct_keys(s.remove(i)),
        assoc(s.remove(i)) == assoc(s).remove(s[i].0),
{
    let r = s.remove(i);
    assert(distinct_keys(r)) by {
        assert forall|a: int, b: int| 0 <= a < b < r.len() implies r[a].0 != r[b].0 by {
            let a2 = if a < i {
                a
            } else {
                a + 1
            };
            let b2 = if b < i {
                b
            } else {
                b + 1
            };
            assert(r[a] == s[a2]);
            assert(r[b] == s[b2]);
        }
    }
    lemma_assoc_lookup(s);
    lemma_assoc_lookup(r);
    assert(assoc(r) =~= assoc(s).remove(s[i].0)) by {
        assert forall|k: K| #[trigger] assoc(r).contains_key(k) <==> assoc(s).remove(
            s[i].0,
        ).contains_key(k) by {
            if assoc(r).contains_key(k) {
                let j = choose|j: int| 0 <= j < r.len() && r[j].0 == k;
                let j2 = if j < i {
                    j
                } else {
                    j + 1
                };
                assert(r[j] == s[j2]);
                assert(s[j2].0 != s[i].0);
            }
            if assoc(s).contains_key(k) && k != s[i].0 {
                let j = choose|j: int| 0 <= j < s.len() && s[j].0 == k;
                if j < i {
                    assert(r[j] == s[j]);
                } else {
                    assert(j != i);
                    assert(r[j - 1] == s[j]);
                }
            }
        }
        assert forall|k: K| #[trigger] assoc(r).contains_key(k) implies assoc(r)[k] == assoc(
            s,
        ).remove(s[i].0)[k] by {
            let j = choose|j: int| 0 <= j < r.len() && r[j].0 == k;
            let j2 = if j < i {
                j
            } else {
                j + 1
            };
            assert(r[j] == s[j2]);
        }
    }
}

} // verus!
