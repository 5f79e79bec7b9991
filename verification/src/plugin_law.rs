//! What learning of the plugins announced in a handshake does to the
//! plugins known before.
use vstd::prelude::*;
use crate::app_state::{is_first_with_uuid, merged_plugin, merged_plugins};
use crate::config::uuids_unique;

verus! {

/// `u` is the module UUID of some plugin in `s`.
pub open spec fn has_uuid(s: Seq<(Seq<char>, Seq<char>)>, u: Seq<char>) -> bool {
    exists|i: int| 0 <= i < s.len() && (#[trigger] s[i]).1 == u
}

/// Entry `j` of `ps` is the last one with its module UUID.
pub open spec fn is_last_with_uuid(ps: Seq<(Seq<char>, Seq<char>)>, j: int) -> bool {
    &&& 0 <= j < ps.len()
    &&& forall|l: int| j < l < ps.len() ==> (#[trigger] ps[l]).1 != ps[j].1
}

proof fn lemma_first_of_present(s: Seq<(Seq<char>, Seq<char>)>, u: Seq<char>, i: int)
    requires
        0 <= i < s.len(),
        s[i].1 == u,
    ensures
        exists|k: int| is_first_with_uuid(s, u, k),
    decreases i,
{
    if exists|j: int| 0 <= j < i && s[j].1 == u {
        let j = choose|j: int| 0 <= j < i && s[j].1 == u;
        lemma_first_of_present(s, u, j);
    } else {
        assert(is_first_with_uuid(s, u, i));
    }
}

proof fn lemma_merge_keeps_places(known: Seq<(Seq<char>, Seq<char>)>, ps: Seq<(Seq<char>, Seq<char>)>)
    requires
        uuids_unique(known),
    ensures
        uuids_unique(merged_plugins(known, ps)),
        known.len() <= merged_plugins(known, ps).len(),
        forall|i: int| 0 <= i < known.len() ==> (#[trigger] merged_plugins(known, ps)[i]).1 == known[i].1,
    decreases ps.len(),
{
    if ps.len() > 0 {
        let pd = ps.drop_last();
        let p = ps.last();
        let m0 = merged_plugins(known, pd);
        lemma_merge_keeps_places(known, pd);
        let m = merged_plugins(known, ps);
        assert(m == merged_plugin(m0, p));
        if exists|k: int| is_first_with_uuid(m0, p.1, k) {
            let k = choose|k: int| is_first_with_uuid(m0, p.1, k);
            assert(m == m0.update(k, (p.0, m0[k].1)));
            assert forall|i: int| 0 <= i < m.len() implies (#[trigger] m[i]).1 == m0[i].1 by {}
            assert forall|a: int, b: int| 0 <= a < b < m.len() implies m[a].1 != m[b].1 by {
                assert(m[a].1 == m0[a].1);
                assert(m[b].1 == m0[b].1);
            }
        } else {
            assert(m == m0.push(p));
            assert forall|i: int| 0 <= i < m0.len() implies m0[i].1 != p.1 by {
                if m0[i].1 == p.1 {
                    lemma_first_of_present(m0, p.1, i);
                }
            }
            assert forall|i: int| 0 <= i < m0.len() implies #[trigger] m[i] == m0[i] by {}
            assert forall|a: int, b: int| 0 <= a < b < m.len() implies m[a].1 != m[b].1 by {
                assert(m[a] == m0[a]);
                if b < m0.len() {
                    assert(m[b] == m0[b]);
                } else {
                    assert(m[b] == p);
                }
            }
        }
    }
}

proof fn lemma_merge_last_name_wins(known: Seq<(Seq<char>, Seq<char>)>, ps: Seq<(Seq<char>, Seq<char>)>)
    ensures
        forall|j: int| is_last_with_uuid(ps, j) ==> merged_plugins(known, ps).contains(#[trigger] ps[j]),
    decreases ps.len(),
{
    if ps.len() > 0 {
        let n = ps.len() - 1;
        let pd = ps.drop_last();
        let p = ps.last();
        let m0 = merged_plugins(known, pd);
        lemma_merge_last_name_wins(known, pd);
        let m = merged_plugins(known, ps);
        assert(m == merged_plugin(m0, p));
        let found = exists|k: int| is_first_with_uuid(m0, p.1, k);
        assert forall|j: int| is_last_with_uuid(ps, j) implies m.contains(#[trigger] ps[j]) by {
            if found {
                let k = choose|k: int| is_first_with_uuid(m0, p.1, k);
                assert(m == m0.update(k, (p.0, m0[k].1)));
                if j == n {
                    assert(m[k] == ps[j]);
                } else {
                    assert(ps[n].1 != ps[j].1);
                    assert(pd[j] == ps[j]);
                    assert forall|l: int| j < l < pd.len() implies (#[trigger] pd[l]).1 != pd[j].1 by {
                        assert(pd[l] == ps[l]);
                    }
                    assert(is_last_with_uuid(pd, j));
                    assert(m0.contains(pd[j]));
                    let k2 = choose|k2: int| 0 <= k2 < m0.len() && m0[k2] == pd[j];
                    assert(k2 != k);
                    assert(m[k2] == ps[j]);
                }
            } else {
                assert(m == m0.push(p));
                if j == n {
                    assert(m[m0.len() as int] == ps[j]);
                } else {
                    assert(pd[j] == ps[j]);
                    assert forall|l: int| j < l < pd.len() implies (#[trigger] pd[l]).1 != pd[j].1 by {
                        assert(pd[l] == ps[l]);
                    }
                    assert(is_last_with_uuid(pd, j));
                    assert(m0.contains(pd[j]));
                    let k2 = choose|k2: int| 0 <= k2 < m0.len() && m0[k2] == pd[j];
                    assert(m[k2] == ps[j]);
                }
            }
        }
    }
}

proof fn lemma_merge_keeps_unannounced(known: Seq<(Seq<char>, Seq<char>)>, ps: Seq<(Seq<char>, Seq<char>)>)
    requires
        uuids_unique(known),
    ensures
        forall|i: int|
            0 <= i < known.len() && !has_uuid(ps, known[i].1) ==> #[trigger] merged_plugins(known, ps)[i]
                == known[i],
    decreases ps.len(),
{
    if ps.len() > 0 {
        let n = ps.len() - 1;
        let pd = ps.drop_last();
        let p = ps.last();
        let m0 = merged_plugins(known, pd);
        lemma_merge_keeps_unannounced(known, pd);
        lemma_merge_keeps_places(known, pd);
        let m = merged_plugins(known, ps);
        assert(m == merged_plugin(m0, p));
        let found = exists|k: int| is_first_with_uuid(m0, p.1, k);
        assert forall|i: int| 0 <= i < known.len() && !has_uuid(ps, known[i].1) implies #[trigger] m[i]
            == known[i] by {
            assert(ps[n].1 != known[i].1);
            if has_uuid(pd, known[i].1) {
                let w = choose|w: int| 0 <= w < pd.len() && (#[trigger] pd[w]).1 == known[i].1;
                assert(ps[w] == pd[w]);
            }
            assert(m0[i] == known[i]);
            if found {
                let k = choose|k: int| is_first_with_uuid(m0, p.1, k);
                assert(m == m0.update(k, (p.0, m0[k].1)));
                assert(k != i);
            } else {
                assert(m == m0.push(p));
            }
        }
    }
}

/// Every announcement in `ps` of UUID `b` comes after one of UUID `a`.
pub open spec fn announced_before(ps: Seq<(Seq<char>, Seq<char>)>, a: Seq<char>, b: Seq<char>) -> bool {
    forall|j2: int|
        0 <= j2 < ps.len() && (#[trigger] ps[j2]).1 == b ==> exists|j1: int|
            0 <= j1 < j2 && (#[trigger] ps[j1]).1 == a
}

proof fn lemma_merge_appends_new_in_order(known: Seq<(Seq<char>, Seq<char>)>, ps: Seq<(Seq<char>, Seq<char>)>)
    requires
        uuids_unique(known),
    ensures
        forall|j: int| 0 <= j < ps.len() ==> has_uuid(merged_plugins(known, ps), (#[trigger] ps[j]).1),
        forall|k: int|
            known.len() <= k < merged_plugins(known, ps).len() ==> has_uuid(
                ps,
                (#[trigger] merged_plugins(known, ps)[k]).1,
            ) && !has_uuid(known, merged_plugins(known, ps)[k].1),
        forall|k1: int, k2: int|
            known.len() <= k1 < k2 < merged_plugins(known, ps).len() ==> announced_before(
                ps,
                (#[trigger] merged_plugins(known, ps)[k1]).1,
                (#[trigger] merged_plugins(known, ps)[k2]).1,
            ),
    decreases ps.len(),
{
    if ps.len() > 0 {
        let n = ps.len() - 1;
        let pd = ps.drop_last();
        let p = ps.last();
        let m0 = merged_plugins(known, pd);
        lemma_merge_appends_new_in_order(known, pd);
        lemma_merge_keeps_places(known, pd);
        let m = merged_plugins(known, ps);
        assert(m == merged_plugin(m0, p));
        assert forall|j: int| 0 <= j < n implies #[trigger] pd[j] == ps[j] by {}
        assert forall|u: Seq<char>| has_uuid(pd, u) implies has_uuid(ps, u) by {
            let w = choose|w: int| 0 <= w < pd.len() && (#[trigger] pd[w]).1 == u;
            assert(ps[w] == pd[w]);
        }
        assert forall|a: Seq<char>, b: Seq<char>|
            has_uuid(pd, a) && announced_before(pd, a, b) implies #[trigger] announced_before(ps, a, b) by {
            assert forall|j2: int| 0 <= j2 < ps.len() && (#[trigger] ps[j2]).1 == b implies exists|j1: int|
                0 <= j1 < j2 && (#[trigger] ps[j1]).1 == a by {
                if j2 == n {
                    let w = choose|w: int| 0 <= w < pd.len() && (#[trigger] pd[w]).1 == a;
                    assert(ps[w] == pd[w]);
                } else {
                    assert(pd[j2] == ps[j2]);
                    let w = choose|w: int| 0 <= w < j2 && (#[trigger] pd[w]).1 == a;
                    assert(ps[w] == pd[w]);
                }
            }
        }
        if exists|k: int| is_first_with_uuid(m0, p.1, k) {
            let k = choose|k: int| is_first_with_uuid(m0, p.1, k);
            assert(m == m0.update(k, (p.0, m0[k].1)));
            assert forall|i: int| 0 <= i < m.len() implies (#[trigger] m[i]).1 == m0[i].1 by {}
            assert forall|j: int| 0 <= j < ps.len() implies has_uuid(m, (#[trigger] ps[j]).1) by {
                if j == n {
                    assert(m[k].1 == ps[j].1);
                } else {
                    assert(has_uuid(m0, pd[j].1));
                    let w = choose|w: int| 0 <= w < m0.len() && (#[trigger] m0[w]).1 == pd[j].1;
                    assert(m[w].1 == m0[w].1);
                }
            }
            assert forall|k1: int| known.len() <= k1 < m.len() implies has_uuid(ps, (#[trigger] m[k1]).1)
                && !has_uuid(known, m[k1].1) by {
                assert(m[k1].1 == m0[k1].1);
            }
            assert forall|k1: int, k2: int| known.len() <= k1 < k2 < m.len() implies announced_before(
                ps,
                (#[trigger] m[k1]).1,
                (#[trigger] m[k2]).1,
            ) by {
                assert(m[k1].1 == m0[k1].1);
                assert(m[k2].1 == m0[k2].1);
                assert(announced_before(pd, m0[k1].1, m0[k2].1));
                assert(has_uuid(pd, m0[k1].1));
            }
        } else {
            assert(m == m0.push(p));
            assert forall|i: int| 0 <= i < m0.len() implies m0[i].1 != p.1 by {
                if m0[i].1 == p.1 {
                    lemma_first_of_present(m0, p.1, i);
                }
            }
            assert forall|i: int| 0 <= i < m0.len() implies #[trigger] m[i] == m0[i] by {}
            assert(m[m0.len() as int] == p);
            assert forall|j: int| 0 <= j < ps.len() implies has_uuid(m, (#[trigger] ps[j]).1) by {
                if j == n {
                    assert(m[m0.len() as int].1 == ps[j].1);
                } else {
                    assert(has_uuid(m0, pd[j].1));
                    let w = choose|w: int| 0 <= w < m0.len() && (#[trigger] m0[w]).1 == pd[j].1;
                    assert(m[w] == m0[w]);
                }
            }
            assert(!has_uuid(known, p.1)) by {
                if has_uuid(known, p.1) {
                    let w = choose|w: int| 0 <= w < known.len() && (#[trigger] known[w]).1 == p.1;
                    assert(m0[w].1 == known[w].1);
                }
            }
            assert forall|k1: int| known.len() <= k1 < m.len() implies has_uuid(ps, (#[trigger] m[k1]).1)
                && !has_uuid(known, m[k1].1) by {
                if k1 == m0.len() {
                    assert(ps[n] == m[k1]);
                } else {
                    assert(m[k1] == m0[k1]);
                }
            }
            assert(!has_uuid(pd, p.1)) by {
                if has_uuid(pd, p.1) {
                    let w = choose|w: int| 0 <= w < pd.len() && (#[trigger] pd[w]).1 == p.1;
                    assert(has_uuid(m0, pd[w].1));
                    let v = choose|v: int| 0 <= v < m0.len() && (#[trigger] m0[v]).1 == pd[w].1;
                    assert(m0[v].1 != p.1);
                }
            }
            assert forall|k1: int, k2: int| known.len() <= k1 < k2 < m.len() implies announced_before(
                ps,
                (#[trigger] m[k1]).1,
                (#[trigger] m[k2]).1,
            ) by {
                assert(m[k1] == m0[k1]);
                assert(has_uuid(pd, m0[k1].1));
                if k2 == m0.len() {
                    assert(m[k2].1 == p.1);
                    assert forall|j2: int| 0 <= j2 < ps.len() && (#[trigger] ps[j2]).1 == p.1 implies exists|j1: int|
                        0 <= j1 < j2 && (#[trigger] ps[j1]).1 == m0[k1].1 by {
                        if j2 < n {
                            assert(pd[j2].1 == p.1);
                        }
                        let w = choose|w: int| 0 <= w < pd.len() && (#[trigger] pd[w]).1 == m0[k1].1;
                        assert(ps[w] == pd[w]);
                    }
                } else {
                    assert(m[k2] == m0[k2]);
                    assert(announced_before(pd, m0[k1].1, m0[k2].1));
                }
            }
        }
    }
}

/// Learning of the plugins announced in a handshake keeps module UUIDs
/// unique: each announced plugin is known afterwards under exactly one
/// entry, which bears the name announced last for its UUID; the entries
/// known before keep their places and UUIDs, nothing is removed, an
/// entry whose UUID was not announced is left as it was, and the entries
/// added are new UUIDs, in the order in which they were first announced.
pub proof fn lemma_plugin_merge_law(known: Seq<(Seq<char>, Seq<char>)>, ps: Seq<(Seq<char>, Seq<char>)>)
    requires
        uuids_unique(known),
    ensures
        uuids_unique(merged_plugins(known, ps)),
        known.len() <= merged_plugins(known, ps).len(),
        forall|i: int| 0 <= i < known.len() ==> (#[trigger] merged_plugins(known, ps)[i]).1 == known[i].1,
        forall|j: int| is_last_with_uuid(ps, j) ==> merged_plugins(known, ps).contains(#[trigger] ps[j]),
        forall|i: int|
            0 <= i < known.len() && !has_uuid(ps, known[i].1) ==> #[trigger] merged_plugins(known, ps)[i]
                == known[i],
        forall|k: int|
            known.len() <= k < merged_plugins(known, ps).len() ==> has_uuid(
                ps,
                (#[trigger] merged_plugins(known, ps)[k]).1,
            ) && !has_uuid(known, merged_plugins(known, ps)[k].1),
        forall|k1: int, k2: int|
            known.len() <= k1 < k2 < merged_plugins(known, ps).len() ==> announced_before(
                ps,
                (#[trigger] merged_plugins(known, ps)[k1]).1,
                (#[trigger] merged_plugins(known, ps)[k2]).1,
            ),
{
    lemma_merge_keeps_places(known, ps);
    lemma_merge_appends_new_in_order(known, ps);
    lemma_merge_last_name_wins(known, ps);
    lemma_merge_keeps_unannounced(known, ps);
}

} // verus!
