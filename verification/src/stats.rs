//! Accumulation of `Stat2` samples into bounded, deterministically ordered
//! series, and the read-side grouping used by the stats dashboard.
//!
//! A sample value is carried as the IEEE-754 double-precision bit pattern
//! the debuggee reported; this module never interprets it.
use vstd::prelude::*;
use crate::order::{
    chars_eq, chars_lt, insert_sorted_unique, lemma_lt_asymmetric, lemma_lt_irreflexive,
    lemma_lt_total, lemma_lt_transitive, seq_lt, sorted_seq_of,
    strictly_sorted, views,
};
use crate::text::{
    chars_eq_str, chars_of, contains_chars, contains_spec, join_chars, join_spec, lowercase_chars,
    lowercase_of, split_chars, split_spec, string_from,
};

verus! {

/// Maximum number of (tick, value) points kept per series.
pub const MAX_STAT_POINTS: usize = 300;

// ── Path helpers ──────────────────────────────────────────────────────

/// A path with its first dot-separated component removed; a path without
/// dots is returned unchanged.
pub open spec fn short_name_spec(path: Seq<char>) -> Seq<char> {
    let parts = split_spec(path, '.');
    if parts.len() > 1 {
        join_spec(parts.skip(1), '.')
    } else {
        parts[0]
    }
}

/// The client ID of a `client_stats.<id>.*` path (at least three components).
pub open spec fn client_id_spec(path: Seq<char>) -> Option<Seq<char>> {
    let parts = split_spec(path, '.');
    if parts.len() >= 3 && parts[0] == "client_stats"@ {
        Some(parts[1])
    } else {
        None
    }
}

/// The addon and event of a `fine_grained_subscribers.<addon>.<event...>` path
/// whose components after the first are all non-empty.
pub open spec fn subscriber_parts_spec(path: Seq<char>) -> Option<(Seq<char>, Seq<char>)> {
    let parts = split_spec(path, '.');
    if parts.len() >= 3 && parts[0] == "fine_grained_subscribers"@ && (forall|k: int|
        1 <= k < parts.len() ==> #[trigger] parts[k].len() > 0) {
        Some((parts[1], join_spec(parts.skip(2), '.')))
    } else {
        None
    }
}

/// Whether a group holds memory figures: its lower-cased name contains `memory`.
pub open spec fn is_memory_group_spec(name: Seq<char>) -> bool {
    contains_spec(lowercase_of(name), "memory"@)
}

/// Return a short display name by stripping the first path component.
pub fn short_name(path: &str) -> (r: String)
    ensures
        r@ == short_name_spec(path@),
{
    let cs = chars_of(path);
    let parts = split_chars(cs.as_slice(), '.');
    proof {
        crate::text::lemma_split_nonempty(path@, '.');
    }
    if parts.len() > 1 {
        let j = join_chars(&parts, 1, '.');
        proof {
            assert(parts@.map_values(|p: Vec<char>| p@) =~= split_spec(path@, '.'));
        }
        string_from(j.as_slice())
    } else {
        let r = string_from(parts[0].as_slice());
        proof {
            assert(parts@[0]@ == split_spec(path@, '.')[0]);
        }
        r
    }
}

/// Extract the client ID from a `client_stats.<id>.*` path.
pub fn get_client_id(path: &str) -> (r: Option<String>)
    ensures
        match client_id_spec(path@) {
            Some(id) => r is Some && r->0@ == id,
            None => r is None,
        },
{
    let cs = chars_of(path);
    let parts = split_chars(cs.as_slice(), '.');
    if parts.len() >= 3 && chars_eq_str(parts[0].as_slice(), "client_stats") {
        Some(string_from(parts[1].as_slice()))
    } else {
        None
    }
}

/// Parse a fine-grained subscriber path. The addon is exactly one component;
/// everything after it is the event name.
pub fn get_subscriber_parts(path: &str) -> (r: Option<(String, String)>)
    ensures
        match subscriber_parts_spec(path@) {
            Some(p) => match r {
                Some((addon, event)) => addon@ == p.0 && event@ == p.1,
                None => false,
            },
            None => r is None,
        },
{
    let cs = chars_of(path);
    let parts = split_chars(cs.as_slice(), '.');
    if parts.len() >= 3 && chars_eq_str(parts[0].as_slice(), "fine_grained_subscribers") {
        let mut k: usize = 1;
        while k < parts.len()
            invariant
                1 <= k <= parts.len(),
                parts@.len() == split_spec(path@, '.').len(),
                forall|j: int|
                    0 <= j < parts@.len() ==> #[trigger] parts@[j]@ == split_spec(path@, '.')[j],
                forall|j: int| 1 <= j < k ==> #[trigger] parts@[j]@.len() > 0,
            decreases parts.len() - k,
        {
            if parts[k].len() == 0 {
                proof {
                    assert(split_spec(path@, '.')[k as int].len() == 0);
                }
                return None;
            }
            k += 1;
        }
        let event = join_chars(&parts, 2, '.');
        proof {
            assert(parts@.map_values(|p: Vec<char>| p@) =~= split_spec(path@, '.'));
        }
        Some((string_from(parts[1].as_slice()), string_from(event.as_slice())))
    } else {
        None
    }
}

/// Whether the group name relates to memory (used for MB scaling).
pub fn is_memory_group(group_name: &str) -> (r: bool)
    ensures
        r == is_memory_group_spec(group_name@),
{
    let lower = lowercase_chars(group_name);
    let pat = chars_of("memory");
    contains_chars(lower.as_slice(), pat.as_slice())
}

// ── Series and their collection ──────────────────────────────────────

/// A single bucketed time-series.
#[derive(Debug, Clone)]
pub struct StatSeries {
    /// Dot-separated flattened path of the stat (e.g. `"server_tick_timings.tick"`).
    pub name: String,
    /// Same as `name`; kept for symmetry with the desktop build.
    pub path: String,
    /// Tick markers aligned one-to-one with `values`.
    pub ticks: Vec<u64>,
    /// Sample values (IEEE-754 double bit patterns) aligned one-to-one with `ticks`.
    pub values: Vec<u64>,
}

/// One node of a `Stat2` payload: its name, the last numeric value it
/// carried (if any, as an IEEE-754 double bit pattern) and its children.
#[derive(Debug)]
pub struct StatNode {
    pub name: String,
    pub value: Option<u64>,
    /// How many raw values the stat carried, numeric or not.
    pub value_count: usize,
    pub children: Vec<StatNode>,
}

/// The samples of one series: ticks and values, oldest first.
pub type Points = (Seq<u64>, Seq<u64>);

/// Path of a stat below `prefix`.
pub open spec fn child_path(prefix: Seq<char>, name: Seq<char>) -> Seq<char> {
    if prefix.len() == 0 {
        name
    } else {
        prefix.push('.') + name
    }
}

/// Append one sample to the series at `path`, dropping the oldest sample
/// once more than `MAX_STAT_POINTS` are held.
pub open spec fn record_spec(m: Map<Seq<char>, Points>, path: Seq<char>, tick: u64, value: u64) -> Map<
    Seq<char>,
    Points,
> {
    let old_points: Points = if m.contains_key(path) {
        m[path]
    } else {
        (Seq::<u64>::empty(), Seq::<u64>::empty())
    };
    let t = old_points.0.push(tick);
    let v = old_points.1.push(value);
    if t.len() > MAX_STAT_POINTS {
        m.insert(path, (t.drop_first(), v.drop_first()))
    } else {
        m.insert(path, (t, v))
    }
}

/// Accumulate `nodes`, in order, below `prefix`.
pub open spec fn accumulate_nodes_spec(
    m: Map<Seq<char>, Points>,
    nodes: Seq<StatNode>,
    tick: u64,
    prefix: Seq<char>,
) -> Map<Seq<char>, Points>
    decreases nodes, 0int,
{
    if nodes.len() == 0 {
        m
    } else {
        accumulate_node_spec(
            accumulate_nodes_spec(m, nodes.drop_last(), tick, prefix),
            nodes.last(),
            tick,
            prefix,
        )
    }
}

/// Accumulate one node: its own value, then its children below its path.
pub open spec fn accumulate_node_spec(
    m: Map<Seq<char>, Points>,
    node: StatNode,
    tick: u64,
    prefix: Seq<char>,
) -> Map<Seq<char>, Points>
    decreases node, 1int,
{
    let path = child_path(prefix, node.name@);
    let m1 = match node.value {
        Some(v) => record_spec(m, path, tick, v),
        None => m,
    };
    accumulate_nodes_spec(m1, node.children@, tick, path)
}

/// The samples held at `p`, none when `p` has no series.
pub open spec fn points_at(m: Map<Seq<char>, Points>, p: Seq<char>) -> Points {
    if m.contains_key(p) {
        m[p]
    } else {
        (Seq::<u64>::empty(), Seq::<u64>::empty())
    }
}

/// `pts` with the sample `(tick, value)` appended, the oldest sample
/// dropped once more than `MAX_STAT_POINTS` would be held.
pub open spec fn appended_points(pts: Points, tick: u64, value: u64) -> Points {
    let t = pts.0.push(tick);
    let v = pts.1.push(value);
    if t.len() > MAX_STAT_POINTS {
        (t.drop_first(), v.drop_first())
    } else {
        (t, v)
    }
}

/// `pts` with a sample at `tick` appended for each of `values`, in order.
pub open spec fn append_all(pts: Points, tick: u64, values: Seq<u64>) -> Points
    decreases values.len(),
{
    if values.len() == 0 {
        pts
    } else {
        appended_points(append_all(pts, tick, values.drop_last()), tick, values.last())
    }
}

/// The values that the walk of `nodes` below `prefix` records at path `p`,
/// in the order it meets them: one for each node whose dotted path is `p`
/// and which carries a value.
pub open spec fn values_at_nodes(nodes: Seq<StatNode>, prefix: Seq<char>, p: Seq<char>) -> Seq<u64>
    decreases nodes, 0int,
{
    if nodes.len() == 0 {
        Seq::empty()
    } else {
        values_at_nodes(nodes.drop_last(), prefix, p) + values_at_node(nodes.last(), prefix, p)
    }
}

/// The values that the walk of `node` below `prefix` records at path `p`.
pub open spec fn values_at_node(node: StatNode, prefix: Seq<char>, p: Seq<char>) -> Seq<u64>
    decreases node, 1int,
{
    let path = child_path(prefix, node.name@);
    let own: Seq<u64> = match node.value {
        Some(v) => if path == p {
            seq![v]
        } else {
            Seq::empty()
        },
        None => Seq::empty(),
    };
    own + values_at_nodes(node.children@, path, p)
}

proof fn lemma_append_all_concat(pts: Points, tick: u64, a: Seq<u64>, b: Seq<u64>)
    ensures
        append_all(pts, tick, a + b) == append_all(append_all(pts, tick, a), tick, b),
    decreases b.len(),
{
    if b.len() == 0 {
        assert(a + b =~= a);
    } else {
        assert((a + b).drop_last() =~= a + b.drop_last());
        assert((a + b).last() == b.last());
        lemma_append_all_concat(pts, tick, a, b.drop_last());
    }
}

proof fn lemma_record_at(m: Map<Seq<char>, Points>, path: Seq<char>, tick: u64, v: u64, p: Seq<char>)
    ensures
        record_spec(m, path, tick, v).contains_key(p) == (m.contains_key(p) || p == path),
        points_at(record_spec(m, path, tick, v), p) == if p == path {
            appended_points(points_at(m, p), tick, v)
        } else {
            points_at(m, p)
        },
{
}

proof fn lemma_nodes_at(m: Map<Seq<char>, Points>, nodes: Seq<StatNode>, tick: u64, prefix: Seq<char>, p: Seq<char>)
    ensures
        accumulate_nodes_spec(m, nodes, tick, prefix).contains_key(p) == (m.contains_key(p)
            || values_at_nodes(nodes, prefix, p).len() > 0),
        points_at(accumulate_nodes_spec(m, nodes, tick, prefix), p) == append_all(
            points_at(m, p),
            tick,
            values_at_nodes(nodes, prefix, p),
        ),
    decreases nodes, 0int,
{
    if nodes.len() > 0 {
        let d = nodes.drop_last();
        let m1 = accumulate_nodes_spec(m, d, tick, prefix);
        lemma_nodes_at(m, d, tick, prefix, p);
        lemma_node_at(m1, nodes.last(), tick, prefix, p);
        lemma_append_all_concat(
            points_at(m, p),
            tick,
            values_at_nodes(d, prefix, p),
            values_at_node(nodes.last(), prefix, p),
        );
    } else {
        assert(values_at_nodes(nodes, prefix, p) =~= Seq::<u64>::empty());
    }
}

proof fn lemma_node_at(m: Map<Seq<char>, Points>, node: StatNode, tick: u64, prefix: Seq<char>, p: Seq<char>)
    ensures
        accumulate_node_spec(m, node, tick, prefix).contains_key(p) == (m.contains_key(p)
            || values_at_node(node, prefix, p).len() > 0),
        points_at(accumulate_node_spec(m, node, tick, prefix), p) == append_all(
            points_at(m, p),
            tick,
            values_at_node(node, prefix, p),
        ),
    decreases node, 1int,
{
    let path = child_path(prefix, node.name@);
    let m1 = match node.value {
        Some(v) => record_spec(m, path, tick, v),
        None => m,
    };
    let own: Seq<u64> = match node.value {
        Some(v) => if path == p {
            seq![v]
        } else {
            Seq::empty()
        },
        None => Seq::empty(),
    };
    match node.value {
        Some(v) => {
            lemma_record_at(m, path, tick, v, p);
            if path == p {
                assert(own.drop_last() =~= Seq::<u64>::empty());
                assert(append_all(points_at(m, p), tick, Seq::<u64>::empty()) == points_at(m, p));
                assert(append_all(points_at(m, p), tick, own) == appended_points(points_at(m, p), tick, v));
            }
        },
        None => {},
    }
    assert(append_all(points_at(m, p), tick, Seq::<u64>::empty()) == points_at(m, p));
    assert(points_at(m1, p) == append_all(points_at(m, p), tick, own));
    assert(m1.contains_key(p) == (m.contains_key(p) || own.len() > 0));
    lemma_nodes_at(m1, node.children@, tick, path, p);
    lemma_append_all_concat(points_at(m, p), tick, own, values_at_nodes(node.children@, path, p));
    assert(values_at_node(node, prefix, p) == own + values_at_nodes(node.children@, path, p));
}

/// Stats accumulate per path: after a batch, the series at each path `p`
/// is the one held before (none if there was none) with one sample at the
/// batch's tick appended for each node of the batch whose dotted path is
/// `p` and which carries a value, in the order of the walk, the oldest
/// sample dropped whenever more than `MAX_STAT_POINTS` would be held; a
/// path that no such node reaches keeps its series, or still has none.
pub proof fn lemma_accumulation_per_path(
    m: Map<Seq<char>, Points>,
    nodes: Seq<StatNode>,
    tick: u64,
    prefix: Seq<char>,
    p: Seq<char>,
)
    ensures
        accumulate_nodes_spec(m, nodes, tick, prefix).contains_key(p) == (m.contains_key(p)
            || values_at_nodes(nodes, prefix, p).len() > 0),
        points_at(accumulate_nodes_spec(m, nodes, tick, prefix), p) == append_all(
            points_at(m, p),
            tick,
            values_at_nodes(nodes, prefix, p),
        ),
        values_at_nodes(nodes, prefix, p).len() == 0 ==> points_at(
            accumulate_nodes_spec(m, nodes, tick, prefix),
            p,
        ) == points_at(m, p),
{
    lemma_nodes_at(m, nodes, tick, prefix, p);
}

/// `m2` is `m` with the sample `(tick, value)` appended to the series at
/// `path`: that series keeps its newest samples, at most `MAX_STAT_POINTS`
/// of them, and every other series is as it was.
pub open spec fn appended_sample(
    m: Map<Seq<char>, Points>,
    m2: Map<Seq<char>, Points>,
    path: Seq<char>,
    tick: u64,
    value: u64,
) -> bool {
    let before: Points = if m.contains_key(path) {
        m[path]
    } else {
        (Seq::<u64>::empty(), Seq::<u64>::empty())
    };
    let n: int = if before.0.len() + 1 > MAX_STAT_POINTS {
        MAX_STAT_POINTS as int
    } else {
        before.0.len() + 1int
    };
    &&& m2.dom() == m.dom().insert(path)
    &&& forall|q: Seq<char>| q != path && m.contains_key(q) ==> #[trigger] m2[q] == m[q]
    &&& m2[path].0 == before.0.push(tick).skip(before.0.len() + 1 - n)
    &&& m2[path].1 == before.1.push(value).skip(before.1.len() + 1 - n)
    &&& m2[path].0.len() == n
    &&& m2[path].0.last() == tick
    &&& m2[path].1.last() == value
}

/// A well-formed series: named by its path, with aligned, bounded, non-empty samples.
pub open spec fn series_wf(s: StatSeries) -> bool {
    &&& s.name@ == s.path@
    &&& s.ticks@.len() == s.values@.len()
    &&& 1 <= s.ticks@.len() <= MAX_STAT_POINTS
}

/// Series kept in strictly increasing path order, each well formed.
pub open spec fn collection_wf(c: Seq<StatSeries>) -> bool {
    &&& forall|i: int, j: int|
        0 <= i < j < c.len() ==> seq_lt(#[trigger] c[i].path@, #[trigger] c[j].path@)
    &&& forall|i: int| 0 <= i < c.len() ==> series_wf(#[trigger] c[i])
}

/// The samples of each path held in the collection.
pub open spec fn collection_map(c: Seq<StatSeries>) -> Map<Seq<char>, Points> {
    Map::new(
        |p: Seq<char>| exists|i: int| 0 <= i < c.len() && #[trigger] c[i].path@ == p,
        |p: Seq<char>| (c[index_of_path(c, p)].ticks@, c[index_of_path(c, p)].values@),
    )
}

/// An index at which the collection holds `p`, if it holds it.
pub open spec fn index_of_path(c: Seq<StatSeries>, p: Seq<char>) -> int {
    choose|i: int| 0 <= i < c.len() && #[trigger] c[i].path@ == p
}

proof fn lemma_unique_path(c: Seq<StatSeries>, i: int, j: int)
    requires
        collection_wf(c),
        0 <= i < c.len(),
        0 <= j < c.len(),
        c[i].path@ == c[j].path@,
    ensures
        i == j,
{
    if i < j {
        assert(seq_lt(c[i].path@, c[j].path@));
        lemma_lt_irreflexive(c[i].path@);
    } else if j < i {
        assert(seq_lt(c[j].path@, c[i].path@));
        lemma_lt_irreflexive(c[i].path@);
    }
}

proof fn lemma_map_at(c: Seq<StatSeries>, i: int)
    requires
        collection_wf(c),
        0 <= i < c.len(),
    ensures
        collection_map(c).contains_key(c[i].path@),
        collection_map(c)[c[i].path@] == (c[i].ticks@, c[i].values@),
{
    let p = c[i].path@;
    assert(exists|k: int| 0 <= k < c.len() && #[trigger] c[k].path@ == p);
    let k = index_of_path(c, p);
    lemma_unique_path(c, i, k);
}

/// Index of the first series whose path does not sort before `path`.
fn lower_bound(coll: &Vec<StatSeries>, path: &[char]) -> (pos: usize)
    requires
        collection_wf(coll@),
    ensures
        pos <= coll@.len(),
        forall|i: int| 0 <= i < pos ==> seq_lt(#[trigger] coll@[i].path@, path@),
        pos < coll@.len() ==> !seq_lt(coll@[pos as int].path@, path@),
{
    let mut i: usize = 0;
    while i < coll.len()
        invariant
            0 <= i <= coll@.len(),
            forall|k: int| 0 <= k < i ==> seq_lt(#[trigger] coll@[k].path@, path@),
        decreases coll.len() - i,
    {
        let p = chars_of(coll[i].path.as_str());
        if !chars_lt(p.as_slice(), path) {
            return i;
        }
        i += 1;
    }
    i
}

/// Append one sample to the series at `path`, creating it if needed.
fn record(coll: &mut Vec<StatSeries>, path: &[char], tick: u64, value: u64)
    requires
        collection_wf(old(coll)@),
    ensures
        collection_wf(final(coll)@),
        collection_map(final(coll)@) == record_spec(collection_map(old(coll)@), path@, tick, value),
{
    let ghost m0 = collection_map(coll@);
    let ghost c0 = coll@;
    let pos = lower_bound(coll, path);
    let found = if pos < coll.len() {
        let p = chars_of(coll[pos].path.as_str());
        chars_eq(p.as_slice(), path)
    } else {
        false
    };
    if found {
        proof {
            lemma_map_at(c0, pos as int);
        }
        let mut series = coll.remove(pos);
        series.ticks.push(tick);
        series.values.push(value);
        if series.ticks.len() > MAX_STAT_POINTS {
            series.ticks.remove(0);
            series.values.remove(0);
        }
        coll.insert(pos, series);
        proof {
            let c1 = coll@;
            assert(c1 == c0.update(pos as int, series));
            assert forall|i: int| 0 <= i < c1.len() implies series_wf(#[trigger] c1[i]) by {
                if i != pos {
                    assert(c1[i] == c0[i]);
                }
            }
            assert forall|i: int, j: int|
                0 <= i < j < c1.len() implies seq_lt(
                #[trigger] c1[i].path@,
                #[trigger] c1[j].path@,
            ) by {
                assert(c0[i].path@ == c1[i].path@ && c0[j].path@ == c1[j].path@);
            }
            let target = record_spec(m0, path@, tick, value);
            assert forall|p: Seq<char>| #[trigger]
                collection_map(c1).contains_key(p) == target.contains_key(p) by {
                if collection_map(c1).contains_key(p) {
                    let k = choose|k: int| 0 <= k < c1.len() && #[trigger] c1[k].path@ == p;
                    assert(c0[k].path@ == p);
                }
                if target.contains_key(p) && p != path@ {
                    let k = choose|k: int| 0 <= k < c0.len() && #[trigger] c0[k].path@ == p;
                    assert(c1[k].path@ == p);
                }
                if p == path@ {
                    assert(c1[pos as int].path@ == p);
                }
            }
            assert forall|p: Seq<char>| #[trigger]
                collection_map(c1).contains_key(p) implies collection_map(c1)[p] == target[p] by {
                let k = choose|k: int| 0 <= k < c1.len() && #[trigger] c1[k].path@ == p;
                lemma_map_at(c1, k);
                if k != pos {
                    lemma_map_at(c0, k);
                    assert(p != path@) by {
                        if p == path@ {
                            lemma_unique_path(c0, k, pos as int);
                        }
                    }
                }
            }
            assert(collection_map(c1) =~= target);
        }
    } else {
        let mut t: Vec<u64> = Vec::new();
        t.push(tick);
        let mut v: Vec<u64> = Vec::new();
        v.push(value);
        let name = string_from(path);
        let series = StatSeries { name: string_from(path), path: name, ticks: t, values: v };
        proof {
            if pos < c0.len() {
                lemma_lt_total(c0[pos as int].path@, path@);
            }
        }
        coll.insert(pos, series);
        proof {
            let c1 = coll@;
            assert(c1 == c0.insert(pos as int, series));
            assert forall|i: int| 0 <= i < c1.len() implies series_wf(#[trigger] c1[i]) by {
                if i < pos {
                    assert(c1[i] == c0[i]);
                } else if i > pos {
                    assert(c1[i] == c0[i - 1]);
                }
            }
            assert forall|i: int, j: int|
                0 <= i < j < c1.len() implies seq_lt(
                #[trigger] c1[i].path@,
                #[trigger] c1[j].path@,
            ) by {
                if j < pos {
                } else if j == pos {
                } else if i < pos {
                    assert(c1[j] == c0[j - 1]);
                    if pos < c0.len() {
                        assert(seq_lt(path@, c0[pos as int].path@));
                        if j - 1 > pos {
                            assert(seq_lt(c0[pos as int].path@, c0[j - 1].path@));
                            lemma_lt_transitive(path@, c0[pos as int].path@, c0[j - 1].path@);
                        }
                        lemma_lt_transitive(c0[i].path@, path@, c0[j - 1].path@);
                    }
                } else if i == pos {
                    assert(c1[j] == c0[j - 1]);
                    assert(seq_lt(path@, c0[pos as int].path@));
                    if j - 1 > pos {
                        assert(seq_lt(c0[pos as int].path@, c0[j - 1].path@));
                        lemma_lt_transitive(path@, c0[pos as int].path@, c0[j - 1].path@);
                    }
                } else {
                    assert(c1[i] == c0[i - 1]);
                    assert(c1[j] == c0[j - 1]);
                }
            }
            let target = record_spec(m0, path@, tick, value);
            assert(!m0.contains_key(path@)) by {
                if m0.contains_key(path@) {
                    let k = choose|k: int| 0 <= k < c0.len() && #[trigger] c0[k].path@ == path@;
                    if k < pos {
                        lemma_lt_irreflexive(path@);
                    } else if k > pos {
                        assert(seq_lt(c0[pos as int].path@, c0[k].path@));
                        lemma_lt_irreflexive(path@);
                        lemma_lt_asymmetric(path@, c0[pos as int].path@);
                    }
                }
            }
            assert forall|p: Seq<char>| #[trigger]
                collection_map(c1).contains_key(p) == target.contains_key(p) by {
                if collection_map(c1).contains_key(p) && p != path@ {
                    let k = choose|k: int| 0 <= k < c1.len() && #[trigger] c1[k].path@ == p;
                    if k < pos {
                        assert(c0[k].path@ == p);
                    } else {
                        assert(c0[k - 1].path@ == p);
                    }
                }
                if target.contains_key(p) && p != path@ {
                    let k = choose|k: int| 0 <= k < c0.len() && #[trigger] c0[k].path@ == p;
                    if k < pos {
                        assert(c1[k].path@ == p);
                    } else {
                        assert(c1[k + 1].path@ == p);
                    }
                }
                if p == path@ {
                    assert(c1[pos as int].path@ == p);
                }
            }
            assert forall|p: Seq<char>| #[trigger]
                collection_map(c1).contains_key(p) implies collection_map(c1)[p] == target[p] by {
                let k = choose|k: int| 0 <= k < c1.len() && #[trigger] c1[k].path@ == p;
                lemma_map_at(c1, k);
                if k < pos {
                    lemma_map_at(c0, k);
                } else if k > pos {
                    lemma_map_at(c0, k - 1);
                }
            }
            assert(collection_map(c1) =~= target);
        }
    }
}

fn child_path_chars(prefix: &[char], name: &str) -> (r: Vec<char>)
    ensures
        r@ == child_path(prefix@, name@),
{
    let n = chars_of(name);
    if prefix.len() == 0 {
        n
    } else {
        let mut r = crate::text::slice_range(prefix, 0, prefix.len());
        assert(r@ == prefix@);
        r.push('.');
        crate::text::extend_chars(&mut r, n.as_slice());
        r
    }
}

fn accumulate_nodes(coll: &mut Vec<StatSeries>, nodes: &Vec<StatNode>, tick: u64, prefix: &[char])
    requires
        collection_wf(old(coll)@),
    ensures
        collection_wf(final(coll)@),
        collection_map(final(coll)@) == accumulate_nodes_spec(
            collection_map(old(coll)@),
            nodes@,
            tick,
            prefix@,
        ),
    decreases nodes@, 0int,
{
    let ghost m0 = collection_map(coll@);
    let mut i: usize = 0;
    proof {
        assert(nodes@.take(0) =~= Seq::<StatNode>::empty());
    }
    while i < nodes.len()
        invariant
            0 <= i <= nodes@.len(),
            collection_wf(coll@),
            collection_map(coll@) == accumulate_nodes_spec(m0, nodes@.take(i as int), tick, prefix@),
        decreases nodes@.len() - i,
    {
        proof {
            assert(nodes@.take(i + 1).drop_last() == nodes@.take(i as int));
            assert(nodes@.take(i + 1).last() == nodes@[i as int]);
        }
        accumulate_node(coll, &nodes[i], tick, prefix);
        i += 1;
    }
    proof {
        assert(nodes@.take(nodes@.len() as int) == nodes@);
    }
}

fn accumulate_node(coll: &mut Vec<StatSeries>, node: &StatNode, tick: u64, prefix: &[char])
    requires
        collection_wf(old(coll)@),
    ensures
        collection_wf(final(coll)@),
        collection_map(final(coll)@) == accumulate_node_spec(
            collection_map(old(coll)@),
            *node,
            tick,
            prefix@,
        ),
    decreases *node, 1int,
{
    let path = child_path_chars(prefix, node.name.as_str());
    match node.value {
        Some(v) => record(coll, path.as_slice(), tick, v),
        None => {},
    }
    accumulate_nodes(coll, &node.children, tick, path.as_slice());
}

/// Recursively flatten `stats` into dot-separated paths below `prefix` and
/// append each node's value to the series of its path.
pub fn accumulate_stats(
    collection: &mut Vec<StatSeries>,
    stats: &Vec<StatNode>,
    tick: u64,
    prefix: &str,
)
    requires
        collection_wf(old(collection)@),
    ensures
        collection_wf(final(collection)@),
        collection_map(final(collection)@) == accumulate_nodes_spec(
            collection_map(old(collection)@),
            stats@,
            tick,
            prefix@,
        ),
{
    let p = chars_of(prefix);
    accumulate_nodes(collection, stats, tick, p.as_slice());
}

// ── Client and addon identifiers ────────────────────────────────────

/// Client IDs found in the paths of the collection.
pub open spec fn client_id_set(c: Seq<StatSeries>) -> Set<Seq<char>> {
    Set::new(
        |id: Seq<char>|
            exists|i: int| 0 <= i < c.len() && #[trigger] client_id_spec(c[i].path@) == Some(id),
    )
}

/// Subscriber addon IDs found in the paths of the collection.
pub open spec fn addon_id_set(c: Seq<StatSeries>) -> Set<Seq<char>> {
    Set::new(
        |id: Seq<char>|
            exists|i: int|
                0 <= i < c.len() && #[trigger] subscriber_parts_spec(c[i].path@) is Some
                    && subscriber_parts_spec(c[i].path@).unwrap().0 == id,
    )
}

fn strings_of(v: &Vec<Vec<char>>) -> (r: Vec<String>)
    ensures
        r@.len() == v@.len(),
        forall|i: int| 0 <= i < r@.len() ==> #[trigger] r@[i]@ == v@[i]@,
{
    let mut r: Vec<String> = Vec::new();
    let mut i: usize = 0;
    while i < v.len()
        invariant
            0 <= i <= v@.len(),
            r@.len() == i,
            forall|k: int| 0 <= k < i ==> #[trigger] r@[k]@ == v@[k]@,
        decreases v.len() - i,
    {
        r.push(string_from(v[i].as_slice()));
        i += 1;
    }
    r
}

/// The views of a vector of strings.
pub open spec fn string_views(v: Seq<String>) -> Seq<Seq<char>> {
    v.map_values(|s: String| s@)
}

/// Collect all unique client IDs from `client_stats.*` paths, sorted.
pub fn build_client_ids(collection: &Vec<StatSeries>) -> (ids: Vec<String>)
    ensures
        string_views(ids@) == sorted_seq_of(client_id_set(collection@)),
{
    let ghost c = collection@;
    let mut acc: Vec<Vec<char>> = Vec::new();
    let mut i: usize = 0;
    proof {
        assert(views(acc@).to_set() =~= Set::<Seq<char>>::empty());
    }
    while i < collection.len()
        invariant
            0 <= i <= c.len(),
            c == collection@,
            strictly_sorted(views(acc@)),
            views(acc@).to_set() == client_id_set(c.take(i as int)),
        decreases c.len() - i,
    {
        let id = get_client_id(collection[i].path.as_str());
        let ghost before = views(acc@).to_set();
        match id {
            Some(s) => {
                let cs = chars_of(s.as_str());
                insert_sorted_unique(&mut acc, cs);
            },
            None => {},
        }
        proof {
            let t1 = c.take(i + 1);
            assert forall|x: Seq<char>| #[trigger] client_id_set(t1).contains(x) == views(
                acc@,
            ).to_set().contains(x) by {
                if client_id_set(t1).contains(x) {
                    let k = choose|k: int|
                        0 <= k < t1.len() && #[trigger] client_id_spec(t1[k].path@) == Some(x);
                    if k < i {
                        assert(c.take(i as int)[k] == t1[k]);
                        assert(client_id_set(c.take(i as int)).contains(x));
                    }
                }
                if before.contains(x) {
                    let k = choose|k: int|
                        0 <= k < c.take(i as int).len() && #[trigger] client_id_spec(
                            c.take(i as int)[k].path@,
                        ) == Some(x);
                    assert(t1[k] == c.take(i as int)[k]);
                }
                if client_id_spec(c[i as int].path@) == Some(x) {
                    assert(t1[i as int] == c[i as int]);
                }
            }
            assert(views(acc@).to_set() =~= client_id_set(t1));
        }
        i += 1;
    }
    proof {
        assert(c.take(c.len() as int) == c);
        crate::order::lemma_sorted_seq_of(views(acc@));
    }
    let r = strings_of(&acc);
    proof {
        assert(string_views(r@) =~= views(acc@));
    }
    r
}

/// Collect unique, valid subscriber addon IDs in deterministic order.
pub fn build_subscriber_addon_ids(collection: &Vec<StatSeries>) -> (ids: Vec<String>)
    ensures
        string_views(ids@) == sorted_seq_of(addon_id_set(collection@)),
{
    let ghost c = collection@;
    let mut acc: Vec<Vec<char>> = Vec::new();
    let mut i: usize = 0;
    proof {
        assert(views(acc@).to_set() =~= Set::<Seq<char>>::empty());
    }
    while i < collection.len()
        invariant
            0 <= i <= c.len(),
            c == collection@,
            strictly_sorted(views(acc@)),
            views(acc@).to_set() == addon_id_set(c.take(i as int)),
        decreases c.len() - i,
    {
        let parts = get_subscriber_parts(collection[i].path.as_str());
        let ghost before = views(acc@).to_set();
        match parts {
            Some((addon, _event)) => {
                let cs = chars_of(addon.as_str());
                insert_sorted_unique(&mut acc, cs);
            },
            None => {},
        }
        proof {
            let t1 = c.take(i + 1);
            assert forall|x: Seq<char>| #[trigger] addon_id_set(t1).contains(x) == views(
                acc@,
            ).to_set().contains(x) by {
                if addon_id_set(t1).contains(x) {
                    let k = choose|k: int|
                        0 <= k < t1.len() && #[trigger] subscriber_parts_spec(t1[k].path@) is Some
                            && subscriber_parts_spec(t1[k].path@).unwrap().0 == x;
                    if k < i {
                        assert(c.take(i as int)[k] == t1[k]);
                        assert(addon_id_set(c.take(i as int)).contains(x));
                    }
                }
                if before.contains(x) {
                    let k = choose|k: int|
                        0 <= k < c.take(i as int).len() && #[trigger] subscriber_parts_spec(
                            c.take(i as int)[k].path@,
                        ) is Some && subscriber_parts_spec(c.take(i as int)[k].path@).unwrap().0
                            == x;
                    assert(t1[k] == c.take(i as int)[k]);
                }
                if subscriber_parts_spec(c[i as int].path@) is Some && subscriber_parts_spec(
                    c[i as int].path@,
                ).unwrap().0 == x {
                    assert(t1[i as int] == c[i as int]);
                }
            }
            assert(views(acc@).to_set() =~= addon_id_set(t1));
        }
        i += 1;
    }
    proof {
        assert(c.take(c.len() as int) == c);
        crate::order::lemma_sorted_seq_of(views(acc@));
    }
    let r = strings_of(&acc);
    proof {
        assert(string_views(r@) =~= views(acc@));
    }
    r
}

// ── Categories ───────────────────────────────────────────────────────

/// Return the category key for a given top-level group name.
pub open spec fn group_category_spec(name: Seq<char>) -> Seq<char> {
    if name == "server_tick_timings"@ || name == "entities"@ || name == "chunks"@ || name
        == "networking"@ {
        "server-performance"@
    } else if name == "app_memory"@ || name == "dynamic_property_values"@ {
        "memory"@
    } else if name == "handle_counts"@ || name == "fine_grained_subscribers"@ {
        "scripting"@
    } else if name == "client_stats"@ {
        "client"@
    } else {
        "uncategorized"@
    }
}

/// The category keys in dashboard order.
pub open spec fn category_order() -> Seq<Seq<char>> {
    seq![
        "server-performance"@,
        "memory"@,
        "scripting"@,
        "client"@,
        "uncategorized"@,
    ]
}

/// Return the category key for a given top-level group name.
fn stat_group_category(group_name: &str) -> (r: &'static str)
    ensures
        r@ == group_category_spec(group_name@),
{
    let n = chars_of(group_name);
    let s = n.as_slice();
    if chars_eq_str(s, "server_tick_timings") || chars_eq_str(s, "entities") || chars_eq_str(
        s,
        "chunks",
    ) || chars_eq_str(s, "networking") {
        "server-performance"
    } else if chars_eq_str(s, "app_memory") || chars_eq_str(s, "dynamic_property_values") {
        "memory"
    } else if chars_eq_str(s, "handle_counts") || chars_eq_str(s, "fine_grained_subscribers") {
        "scripting"
    } else if chars_eq_str(s, "client_stats") {
        "client"
    } else {
        "uncategorized"
    }
}

/// Display label and icon of a category key.
pub open spec fn category_meta_spec(key: Seq<char>) -> (Seq<char>, Seq<char>) {
    if key == "server-performance"@ {
        ("Server Performance"@, "◈"@)
    } else if key == "memory"@ {
        ("Memory"@, "◆"@)
    } else if key == "scripting"@ {
        ("Scripting"@, "◇"@)
    } else if key == "client"@ {
        ("Client"@, "◐"@)
    } else {
        ("Uncategorized"@, "○"@)
    }
}

/// Return the display metadata for a category key.
///
/// Icons are terminal-safe single-cell glyphs, not desktop icon names.
fn stat_category_meta(key: &str) -> (r: (&'static str, &'static str))
    ensures
        (r.0@, r.1@) == category_meta_spec(key@),
{
    let k = chars_of(key);
    let s = k.as_slice();
    if chars_eq_str(s, "server-performance") {
        ("Server Performance", "◈")
    } else if chars_eq_str(s, "memory") {
        ("Memory", "◆")
    } else if chars_eq_str(s, "scripting") {
        ("Scripting", "◇")
    } else if chars_eq_str(s, "client") {
        ("Client", "◐")
    } else {
        ("Uncategorized", "○")
    }
}

// ── Groups ───────────────────────────────────────────────────────────

/// A group of series that share the same top-level path component.
#[derive(Debug, Clone)]
pub struct StatGroup {
    /// Top-level name (first path component, e.g. `"server_tick_timings"`).
    pub name: String,
    /// Series in this group, sorted by path.
    pub series: Vec<StatSeries>,
}

/// What a series holds: path, name, ticks and values.
pub type SeriesView = (Seq<char>, Seq<char>, Seq<u64>, Seq<u64>);

pub open spec fn series_view(s: StatSeries) -> SeriesView {
    (s.path@, s.name@, s.ticks@, s.values@)
}

pub open spec fn series_views(c: Seq<StatSeries>) -> Seq<SeriesView> {
    c.map_values(|s: StatSeries| series_view(s))
}

/// First dot-separated component of a path.
pub open spec fn top_of(path: Seq<char>) -> Seq<char> {
    split_spec(path, '.')[0]
}

/// Series views whose path lies under the top-level component `name`.
pub open spec fn in_group(name: Seq<char>) -> spec_fn(SeriesView) -> bool {
    |v: SeriesView| top_of(v.0) == name
}

/// Top-level components of the paths in the collection.
pub open spec fn group_name_set(c: Seq<StatSeries>) -> Set<Seq<char>> {
    Set::new(|n: Seq<char>| exists|i: int| 0 <= i < c.len() && #[trigger] top_of(c[i].path@) == n)
}

pub open spec fn group_names(g: Seq<StatGroup>) -> Seq<Seq<char>> {
    g.map_values(|x: StatGroup| x.name@)
}

/// `groups` splits `c` by top-level component, in sorted order of names.
pub open spec fn groups_of(groups: Seq<StatGroup>, c: Seq<StatSeries>) -> bool {
    &&& group_names(groups) == sorted_seq_of(group_name_set(c))
    &&& group_names(groups).to_set() == group_name_set(c)
    &&& forall|k: int|
        0 <= k < groups.len() ==> series_views(#[trigger] groups[k].series@) == series_views(
            c,
        ).filter(in_group(groups[k].name@))
}

proof fn lemma_filter_none<A>(s: Seq<A>, pred: spec_fn(A) -> bool)
    requires
        forall|i: int| 0 <= i < s.len() ==> !pred(#[trigger] s[i]),
    ensures
        s.filter(pred) == Seq::<A>::empty(),
    decreases s.len(),
{
    reveal(Seq::filter);
    if s.len() > 0 {
        lemma_filter_none(s.drop_last(), pred);
        assert(!pred(s[s.len() - 1]));
    } else {
        assert(s =~= Seq::<A>::empty());
    }
}

/// A copy of a series holding the same data.
pub fn copy_series(s: &StatSeries) -> (r: StatSeries)
    ensures
        series_view(r) == series_view(*s),
{
    let mut ticks: Vec<u64> = Vec::new();
    let mut values: Vec<u64> = Vec::new();
    let mut i: usize = 0;
    while i < s.ticks.len()
        invariant
            0 <= i <= s.ticks@.len(),
            ticks@ == s.ticks@.take(i as int),
        decreases s.ticks.len() - i,
    {
        ticks.push(s.ticks[i]);
        assert(s.ticks@.take(i + 1) == s.ticks@.take(i as int).push(s.ticks@[i as int]));
        i += 1;
    }
    let mut j: usize = 0;
    while j < s.values.len()
        invariant
            0 <= j <= s.values@.len(),
            values@ == s.values@.take(j as int),
        decreases s.values.len() - j,
    {
        values.push(s.values[j]);
        assert(s.values@.take(j + 1) == s.values@.take(j as int).push(s.values@[j as int]));
        j += 1;
    }
    assert(s.ticks@.take(s.ticks@.len() as int) == s.ticks@);
    assert(s.values@.take(s.values@.len() as int) == s.values@);
    StatSeries { name: s.name.clone(), path: s.path.clone(), ticks, values }
}

fn top_chars(path: &str) -> (r: Vec<char>)
    ensures
        r@ == top_of(path@),
{
    let cs = chars_of(path);
    let parts = split_chars(cs.as_slice(), '.');
    proof {
        crate::text::lemma_split_nonempty(path@, '.');
    }
    let r = crate::text::slice_range(parts[0].as_slice(), 0, parts[0].len());
    assert(r@ == parts@[0]@);
    r
}

/// Group series by their top-level path component, sorted deterministically.
pub fn build_chart_groups(collection: &Vec<StatSeries>) -> (groups: Vec<StatGroup>)
    ensures
        groups_of(groups@, collection@),
{
    let ghost c = collection@;
    let mut groups: Vec<StatGroup> = Vec::new();
    let mut i: usize = 0;
    proof {
        assert(group_names(groups@).to_set() =~= Set::<Seq<char>>::empty());
    }
    while i < collection.len()
        invariant
            0 <= i <= c.len(),
            c == collection@,
            strictly_sorted(group_names(groups@)),
            group_names(groups@).to_set() == group_name_set(c.take(i as int)),
            forall|k: int|
                0 <= k < groups@.len() ==> series_views(#[trigger] groups@[k].series@)
                    == series_views(c.take(i as int)).filter(in_group(groups@[k].name@)),
        decreases c.len() - i,
    {
        let ghost g0 = groups@;
        let ghost names0 = group_names(g0);
        let top = top_chars(collection[i].path.as_str());
        let item = copy_series(&collection[i]);
        let ghost sv = series_view(c[i as int]);
        proof {
            let t1 = c.take(i + 1);
            assert(series_views(t1) =~= series_views(c.take(i as int)).push(sv));
            assert(t1[i as int] == c[i as int]);
        }
        let mut pos: usize = 0;
        while pos < groups.len()
            invariant
                0 <= pos <= groups@.len(),
                groups@ == g0,
                names0 == group_names(g0),
                forall|k: int| 0 <= k < pos ==> seq_lt(#[trigger] names0[k], top@),
            ensures
                0 <= pos <= groups@.len(),
                groups@ == g0,
                names0 == group_names(g0),
                forall|k: int| 0 <= k < pos ==> seq_lt(#[trigger] names0[k], top@),
                pos < groups@.len() ==> !seq_lt(names0[pos as int], top@),
            decreases groups.len() - pos,
        {
            let n = chars_of(groups[pos].name.as_str());
            assert(n@ == names0[pos as int]);
            if !chars_lt(n.as_slice(), top.as_slice()) {
                break;
            }
            pos += 1;
        }
        let found = if pos < groups.len() {
            let n = chars_of(groups[pos].name.as_str());
            chars_eq(n.as_slice(), top.as_slice())
        } else {
            false
        };
        if found {
            let mut g = groups.remove(pos);
            let ghost gs0 = g.series@;
            g.series.push(item);
            groups.insert(pos, g);
            proof {
                let g1 = groups@;
                assert(g1 == g0.update(pos as int, g));
                assert(group_names(g1) =~= names0);
                let t0 = c.take(i as int);
                let t1 = c.take(i + 1);
                assert(group_name_set(t1) =~= group_name_set(t0)) by {
                    assert forall|n: Seq<char>| group_name_set(t1).contains(n) implies group_name_set(
                        t0,
                    ).contains(n) by {
                        let k = choose|k: int| 0 <= k < t1.len() && #[trigger] top_of(t1[k].path@) == n;
                        if k == i {
                            assert(names0.to_set().contains(names0[pos as int]));
                        } else {
                            assert(t0[k] == t1[k]);
                        }
                    }
                    assert forall|n: Seq<char>| group_name_set(t0).contains(n) implies group_name_set(
                        t1,
                    ).contains(n) by {
                        let k = choose|k: int| 0 <= k < t0.len() && #[trigger] top_of(t0[k].path@) == n;
                        assert(t0[k] == t1[k]);
                    }
                }
                assert forall|k: int| 0 <= k < g1.len() implies series_views(
                    #[trigger] g1[k].series@,
                ) == series_views(t1).filter(in_group(g1[k].name@)) by {
                    series_views(t0).lemma_filter_push(sv, in_group(g1[k].name@));
                    if k == pos {
                        assert(series_views(g1[k].series@) =~= series_views(gs0).push(sv));
                    } else {
                        assert(g1[k] == g0[k]);
                        assert(names0[k] != top@) by {
                            if names0[k] == top@ {
                                if k < pos {
                                    assert(seq_lt(names0[k], names0[pos as int]));
                                } else {
                                    assert(seq_lt(names0[pos as int], names0[k]));
                                }
                                lemma_lt_irreflexive(top@);
                            }
                        }
                    }
                }
            }
        } else {
            let mut sv_vec: Vec<StatSeries> = Vec::new();
            sv_vec.push(item);
            let ng = StatGroup { name: string_from(top.as_slice()), series: sv_vec };
            proof {
                if pos < g0.len() {
                    lemma_lt_total(names0[pos as int], top@);
                }
            }
            groups.insert(pos, ng);
            proof {
                let g1 = groups@;
                let t0 = c.take(i as int);
                let t1 = c.take(i + 1);
                assert(g1 == g0.insert(pos as int, ng));
                let names1 = group_names(g1);
                assert(names1 =~= names0.insert(pos as int, top@));
                assert forall|a: int, b: int| 0 <= a < b < names1.len() implies seq_lt(
                    #[trigger] names1[a],
                    #[trigger] names1[b],
                ) by {
                    if b < pos {
                    } else if b == pos {
                    } else if a < pos {
                        assert(names1[b] == names0[b - 1]);
                        if pos < names0.len() {
                            if b - 1 > pos {
                                assert(seq_lt(names0[pos as int], names0[b - 1]));
                                lemma_lt_transitive(top@, names0[pos as int], names0[b - 1]);
                            }
                            lemma_lt_transitive(names0[a], top@, names0[b - 1]);
                        }
                    } else if a == pos {
                        assert(names1[b] == names0[b - 1]);
                        if b - 1 > pos {
                            assert(seq_lt(names0[pos as int], names0[b - 1]));
                            lemma_lt_transitive(top@, names0[pos as int], names0[b - 1]);
                        }
                    } else {
                        assert(names1[a] == names0[a - 1]);
                        assert(names1[b] == names0[b - 1]);
                    }
                }
                assert(!names0.contains(top@)) by {
                    if names0.contains(top@) {
                        let k = choose|k: int| 0 <= k < names0.len() && names0[k] == top@;
                        if k < pos {
                            lemma_lt_irreflexive(top@);
                        } else {
                            assert(seq_lt(names0[pos as int], names0[k]) || k == pos);
                            lemma_lt_asymmetric(top@, names0[pos as int]);
                            lemma_lt_irreflexive(top@);
                        }
                    }
                }
                assert(names1.to_set() =~= group_name_set(t1)) by {
                    assert forall|n: Seq<char>| names1.to_set().contains(n) implies group_name_set(
                        t1,
                    ).contains(n) by {
                        let k = choose|k: int| 0 <= k < names1.len() && names1[k] == n;
                        if k == pos {
                            assert(top_of(t1[i as int].path@) == n);
                        } else {
                            let kk = if k < pos { k } else { k - 1 };
                            assert(names0[kk] == n);
                            assert(names0.to_set().contains(n));
                            let m = choose|m: int| 0 <= m < t0.len() && #[trigger] top_of(t0[m].path@) == n;
                            assert(t1[m] == t0[m]);
                        }
                    }
                    assert forall|n: Seq<char>| group_name_set(t1).contains(n) implies names1.to_set().contains(
                        n,
                    ) by {
                        let m = choose|m: int| 0 <= m < t1.len() && #[trigger] top_of(t1[m].path@) == n;
                        if m == i {
                            assert(names1[pos as int] == n);
                        } else {
                            assert(t0[m] == t1[m]);
                            assert(group_name_set(t0).contains(n));
                            assert(names0.to_set().contains(n));
                            let k = choose|k: int| 0 <= k < names0.len() && names0[k] == n;
                            if k < pos {
                                assert(names1[k] == n);
                            } else {
                                assert(names1[k + 1] == n);
                            }
                        }
                    }
                }
                assert forall|k: int| 0 <= k < g1.len() implies series_views(
                    #[trigger] g1[k].series@,
                ) == series_views(t1).filter(in_group(g1[k].name@)) by {
                    series_views(t0).lemma_filter_push(sv, in_group(g1[k].name@));
                    if k == pos {
                        assert forall|j: int| 0 <= j < series_views(t0).len() implies !(in_group(top@))(
                            #[trigger] series_views(t0)[j],
                        ) by {
                            if top_of(t0[j].path@) == top@ {
                                assert(group_name_set(t0).contains(top@));
                                assert(names0.to_set().contains(top@));
                            }
                        }
                        lemma_filter_none(series_views(t0), in_group(top@));
                        assert(series_views(g1[k].series@) =~= seq![sv]);
                        assert(Seq::<SeriesView>::empty().push(sv) =~= seq![sv]);
                    } else {
                        let kk = if k < pos { k } else { k - 1 };
                        assert(g1[k] == g0[kk]);
                        assert(names0[kk] != top@);
                    }
                }
            }
        }
        i += 1;
    }
    proof {
        assert(c.take(c.len() as int) == c);
        crate::order::lemma_sorted_seq_of(group_names(groups@));
    }
    groups
}

/// A category with display metadata, containing zero or more groups.
#[derive(Debug, Clone)]
pub struct StatCategory {
    pub key: &'static str,
    pub label: &'static str,
    pub icon: &'static str,
    pub groups: Vec<StatGroup>,
}

/// What a group holds: its name and the views of its series.
pub type GroupView = (Seq<char>, Seq<SeriesView>);

pub open spec fn group_view(g: StatGroup) -> GroupView {
    (g.name@, series_views(g.series@))
}

pub open spec fn group_views(g: Seq<StatGroup>) -> Seq<GroupView> {
    g.map_values(|x: StatGroup| group_view(x))
}

/// Group views that belong to category `key`.
pub open spec fn in_category(key: Seq<char>) -> spec_fn(GroupView) -> bool {
    |v: GroupView| group_category_spec(v.0) == key
}

/// Category keys that at least one of `groups` falls into.
pub open spec fn has_groups(groups: Seq<StatGroup>) -> spec_fn(Seq<char>) -> bool {
    |key: Seq<char>|
        exists|i: int| 0 <= i < groups.len() && group_category_spec(#[trigger] groups[i].name@) == key
}

/// `cats` assigns `groups` to the non-empty categories, in dashboard order.
pub open spec fn categories_of(cats: Seq<StatCategory>, groups: Seq<StatGroup>) -> bool {
    &&& cats.map_values(|c: StatCategory| c.key@) == category_order().filter(has_groups(groups))
    &&& forall|k: int|
        0 <= k < cats.len() ==> {
            &&& group_views(#[trigger] cats[k].groups@) == group_views(groups).filter(
                in_category(cats[k].key@),
            )
            &&& (cats[k].label@, cats[k].icon@) == category_meta_spec(cats[k].key@)
        }
}

fn category_key_at(i: usize) -> (r: &'static str)
    requires
        i < 5,
    ensures
        r@ == category_order()[i as int],
{
    if i == 0 {
        "server-performance"
    } else if i == 1 {
        "memory"
    } else if i == 2 {
        "scripting"
    } else if i == 3 {
        "client"
    } else {
        "uncategorized"
    }
}

/// A copy of a group holding the same data.
pub fn copy_group(g: &StatGroup) -> (r: StatGroup)
    ensures
        group_view(r) == group_view(*g),
{
    let mut series: Vec<StatSeries> = Vec::new();
    let mut i: usize = 0;
    while i < g.series.len()
        invariant
            0 <= i <= g.series@.len(),
            series@.len() == i,
            series_views(series@) == series_views(g.series@.take(i as int)),
        decreases g.series.len() - i,
    {
        let s = copy_series(&g.series[i]);
        let ghost old_series = series@;
        series.push(s);
        proof {
            let a = series_views(series@);
            let b = series_views(g.series@.take(i + 1));
            assert(a.len() == b.len());
            assert forall|k: int| 0 <= k < a.len() implies a[k] == b[k] by {
                if k < i {
                    assert(a[k] == series_views(series@.drop_last())[k]);
                    assert(series@.drop_last() == old_series);
                    assert(b[k] == series_views(g.series@.take(i as int))[k]);
                }
            }
            assert(a =~= b);
        }
        i += 1;
    }
    assert(g.series@.take(g.series@.len() as int) == g.series@);
    StatGroup { name: g.name.clone(), series }
}

/// A category that holds exactly the groups of its key, with its metadata.
pub open spec fn category_ok(c: StatCategory, groups: Seq<StatGroup>) -> bool {
    &&& group_views(c.groups@) == group_views(groups).filter(in_category(c.key@))
    &&& (c.label@, c.icon@) == category_meta_spec(c.key@)
}

fn collect_category(groups: &Vec<StatGroup>, key: &str) -> (members: Vec<StatGroup>)
    ensures
        group_views(members@) == group_views(groups@).filter(in_category(key@)),
{
    let ghost gs = groups@;
    let mut members: Vec<StatGroup> = Vec::new();
    let mut j: usize = 0;
    proof {
        assert(group_views(gs.take(0)) =~= Seq::<GroupView>::empty());
        reveal(Seq::filter);
    }
    while j < groups.len()
        invariant
            0 <= j <= gs.len(),
            gs == groups@,
            group_views(members@) == group_views(gs.take(j as int)).filter(in_category(key@)),
        decreases gs.len() - j,
    {
        let cat = stat_group_category(groups[j].name.as_str());
        proof {
            assert(group_views(gs.take(j + 1)) =~= group_views(gs.take(j as int)).push(
                group_view(gs[j as int]),
            ));
            group_views(gs.take(j as int)).lemma_filter_push(
                group_view(gs[j as int]),
                in_category(key@),
            );
        }
        if crate::text::str_eq(cat, key) {
            let g = copy_group(&groups[j]);
            members.push(g);
            proof {
                assert(group_views(members@) =~= group_views(gs.take(j as int)).filter(
                    in_category(key@),
                ).push(group_view(gs[j as int])));
            }
        }
        j += 1;
    }
    proof {
        assert(gs.take(gs.len() as int) == gs);
    }
    members
}

/// Assign groups to categories using the static category map.
proof fn lemma_category_names_distinct()
    ensures
        "server_tick_timings"@ != "entities"@,
        "server_tick_timings"@ != "chunks"@,
        "server_tick_timings"@ != "networking"@,
        "server_tick_timings"@ != "app_memory"@,
        "server_tick_timings"@ != "dynamic_property_values"@,
        "server_tick_timings"@ != "handle_counts"@,
        "server_tick_timings"@ != "fine_grained_subscribers"@,
        "server_tick_timings"@ != "client_stats"@,
        "entities"@ != "chunks"@,
        "entities"@ != "networking"@,
        "entities"@ != "app_memory"@,
        "entities"@ != "dynamic_property_values"@,
        "entities"@ != "handle_counts"@,
        "entities"@ != "fine_grained_subscribers"@,
        "entities"@ != "client_stats"@,
        "chunks"@ != "networking"@,
        "chunks"@ != "app_memory"@,
        "chunks"@ != "dynamic_property_values"@,
        "chunks"@ != "handle_counts"@,
        "chunks"@ != "fine_grained_subscribers"@,
        "chunks"@ != "client_stats"@,
        "networking"@ != "app_memory"@,
        "networking"@ != "dynamic_property_values"@,
        "networking"@ != "handle_counts"@,
        "networking"@ != "fine_grained_subscribers"@,
        "networking"@ != "client_stats"@,
        "app_memory"@ != "dynamic_property_values"@,
        "app_memory"@ != "handle_counts"@,
        "app_memory"@ != "fine_grained_subscribers"@,
        "app_memory"@ != "client_stats"@,
        "dynamic_property_values"@ != "handle_counts"@,
        "dynamic_property_values"@ != "fine_grained_subscribers"@,
        "dynamic_property_values"@ != "client_stats"@,
        "handle_counts"@ != "fine_grained_subscribers"@,
        "handle_counts"@ != "client_stats"@,
        "fine_grained_subscribers"@ != "client_stats"@,
        "server-performance"@ != "memory"@,
        "server-performance"@ != "scripting"@,
        "server-performance"@ != "client"@,
        "server-performance"@ != "uncategorized"@,
        "memory"@ != "scripting"@,
        "memory"@ != "client"@,
        "memory"@ != "uncategorized"@,
        "scripting"@ != "client"@,
        "scripting"@ != "uncategorized"@,
        "client"@ != "uncategorized"@,
{
    reveal_strlit("server_tick_timings");
    reveal_strlit("entities");
    reveal_strlit("chunks");
    reveal_strlit("networking");
    reveal_strlit("app_memory");
    reveal_strlit("dynamic_property_values");
    reveal_strlit("handle_counts");
    reveal_strlit("fine_grained_subscribers");
    reveal_strlit("client_stats");
    reveal_strlit("server-performance");
    reveal_strlit("memory");
    reveal_strlit("scripting");
    reveal_strlit("client");
    reveal_strlit("uncategorized");
    assert("server_tick_timings"@ != "entities"@) by {
        assert("server_tick_timings"@.len() != "entities"@.len());
    }
    assert("server_tick_timings"@ != "chunks"@) by {
        assert("server_tick_timings"@.len() != "chunks"@.len());
    }
    assert("server_tick_timings"@ != "networking"@) by {
        assert("server_tick_timings"@.len() != "networking"@.len());
    }
    assert("server_tick_timings"@ != "app_memory"@) by {
        assert("server_tick_timings"@.len() != "app_memory"@.len());
    }
    assert("server_tick_timings"@ != "dynamic_property_values"@) by {
        assert("server_tick_timings"@.len() != "dynamic_property_values"@.len());
    }
    assert("server_tick_timings"@ != "handle_counts"@) by {
        assert("server_tick_timings"@.len() != "handle_counts"@.len());
    }
    assert("server_tick_timings"@ != "fine_grained_subscribers"@) by {
        assert("server_tick_timings"@.len() != "fine_grained_subscribers"@.len());
    }
    assert("server_tick_timings"@ != "client_stats"@) by {
        assert("server_tick_timings"@.len() != "client_stats"@.len());
    }
    assert("entities"@ != "chunks"@) by {
        assert("entities"@.len() != "chunks"@.len());
    }
    assert("entities"@ != "networking"@) by {
        assert("entities"@.len() != "networking"@.len());
    }
    assert("entities"@ != "app_memory"@) by {
        assert("entities"@.len() != "app_memory"@.len());
    }
    assert("entities"@ != "dynamic_property_values"@) by {
        assert("entities"@.len() != "dynamic_property_values"@.len());
    }
    assert("entities"@ != "handle_counts"@) by {
        assert("entities"@.len() != "handle_counts"@.len());
    }
    assert("entities"@ != "fine_grained_subscribers"@) by {
        assert("entities"@.len() != "fine_grained_subscribers"@.len());
    }
    assert("entities"@ != "client_stats"@) by {
        assert("entities"@.len() != "client_stats"@.len());
    }
    assert("chunks"@ != "networking"@) by {
        assert("chunks"@.len() != "networking"@.len());
    }
    assert("chunks"@ != "app_memory"@) by {
        assert("chunks"@.len() != "app_memory"@.len());
    }
    assert("chunks"@ != "dynamic_property_values"@) by {
        assert("chunks"@.len() != "dynamic_property_values"@.len());
    }
    assert("chunks"@ != "handle_counts"@) by {
        assert("chunks"@.len() != "handle_counts"@.len());
    }
    assert("chunks"@ != "fine_grained_subscribers"@) by {
        assert("chunks"@.len() != "fine_grained_subscribers"@.len());
    }
    assert("chunks"@ != "client_stats"@) by {
        assert("chunks"@.len() != "client_stats"@.len());
    }
    assert("networking"@ != "app_memory"@) by {
        assert("networking"@[0] != "app_memory"@[0]);
    }
    assert("networking"@ != "dynamic_property_values"@) by {
        assert("networking"@.len() != "dynamic_property_values"@.len());
    }
    assert("networking"@ != "handle_counts"@) by {
        assert("networking"@.len() != "handle_counts"@.len());
    }
    assert("networking"@ != "fine_grained_subscribers"@) by {
        assert("networking"@.len() != "fine_grained_subscribers"@.len());
    }
    assert("networking"@ != "client_stats"@) by {
        assert("networking"@.len() != "client_stats"@.len());
    }
    assert("app_memory"@ != "dynamic_property_values"@) by {
        assert("app_memory"@.len() != "dynamic_property_values"@.len());
    }
    assert("app_memory"@ != "handle_counts"@) by {
        assert("app_memory"@.len() != "handle_counts"@.len());
    }
    assert("app_memory"@ != "fine_grained_subscribers"@) by {
        assert("app_memory"@.len() != "fine_grained_subscribers"@.len());
    }
    assert("app_memory"@ != "client_stats"@) by {
        assert("app_memory"@.len() != "client_stats"@.len());
    }
    assert("dynamic_property_values"@ != "handle_counts"@) by {
        assert("dynamic_property_values"@.len() != "handle_counts"@.len());
    }
    assert("dynamic_property_values"@ != "fine_grained_subscribers"@) by {
        assert("dynamic_property_values"@.len() != "fine_grained_subscribers"@.len());
    }
    assert("dynamic_property_values"@ != "client_stats"@) by {
        assert("dynamic_property_values"@.len() != "client_stats"@.len());
    }
    assert("handle_counts"@ != "fine_grained_subscribers"@) by {
        assert("handle_counts"@.len() != "fine_grained_subscribers"@.len());
    }
    assert("handle_counts"@ != "client_stats"@) by {
        assert("handle_counts"@.len() != "client_stats"@.len());
    }
    assert("fine_grained_subscribers"@ != "client_stats"@) by {
        assert("fine_grained_subscribers"@.len() != "client_stats"@.len());
    }
    assert("server-performance"@ != "memory"@) by {
        assert("server-performance"@.len() != "memory"@.len());
    }
    assert("server-performance"@ != "scripting"@) by {
        assert("server-performance"@.len() != "scripting"@.len());
    }
    assert("server-performance"@ != "client"@) by {
        assert("server-performance"@.len() != "client"@.len());
    }
    assert("server-performance"@ != "uncategorized"@) by {
        assert("server-performance"@.len() != "uncategorized"@.len());
    }
    assert("memory"@ != "scripting"@) by {
        assert("memory"@.len() != "scripting"@.len());
    }
    assert("memory"@ != "client"@) by {
        assert("memory"@[0] != "client"@[0]);
    }
    assert("memory"@ != "uncategorized"@) by {
        assert("memory"@.len() != "uncategorized"@.len());
    }
    assert("scripting"@ != "client"@) by {
        assert("scripting"@.len() != "client"@.len());
    }
    assert("scripting"@ != "uncategorized"@) by {
        assert("scripting"@.len() != "uncategorized"@.len());
    }
    assert("client"@ != "uncategorized"@) by {
        assert("client"@.len() != "uncategorized"@.len());
    }
}

/// Each group lands in the category its top-level name fixes:
/// `server_tick_timings`, `entities`, `chunks` and `networking` under
/// server performance, `app_memory` and `dynamic_property_values` under
/// memory, `handle_counts` and `fine_grained_subscribers` under scripting,
/// `client_stats` under client, and every other name under uncategorized;
/// each category bears the label and icon of its key.
pub proof fn lemma_group_categories(cats: Seq<StatCategory>, groups: Seq<StatGroup>)
    requires
        categories_of(cats, groups),
    ensures
        forall|k: int, i: int|
            0 <= k < cats.len() && 0 <= i < cats[k].groups@.len() ==> {
                let n = (#[trigger] cats[k].groups@[i]).name@;
                let key = cats[k].key@;
                &&& (n == "server_tick_timings"@ || n == "entities"@ || n == "chunks"@ || n
                    == "networking"@) ==> key == "server-performance"@
                &&& (n == "app_memory"@ || n == "dynamic_property_values"@) ==> key == "memory"@
                &&& (n == "handle_counts"@ || n == "fine_grained_subscribers"@) ==> key
                    == "scripting"@
                &&& n == "client_stats"@ ==> key == "client"@
                &&& (n != "server_tick_timings"@ && n != "entities"@ && n != "chunks"@ && n
                    != "networking"@ && n != "app_memory"@ && n != "dynamic_property_values"@ && n
                    != "handle_counts"@ && n != "fine_grained_subscribers"@ && n
                    != "client_stats"@) ==> key == "uncategorized"@
            },
        forall|k: int|
            0 <= k < cats.len() ==> {
                let key = (#[trigger] cats[k]).key@;
                &&& key == "server-performance"@ ==> cats[k].label@ == "Server Performance"@
                &&& key == "memory"@ ==> cats[k].label@ == "Memory"@
                &&& key == "scripting"@ ==> cats[k].label@ == "Scripting"@
                &&& key == "client"@ ==> cats[k].label@ == "Client"@
                &&& key == "uncategorized"@ ==> cats[k].label@ == "Uncategorized"@
            },
{
    broadcast use vstd::seq_lib::group_filter_ensures;

    reveal_strlit("server_tick_timings");
    reveal_strlit("entities");
    reveal_strlit("chunks");
    reveal_strlit("networking");
    reveal_strlit("app_memory");
    reveal_strlit("dynamic_property_values");
    reveal_strlit("handle_counts");
    reveal_strlit("fine_grained_subscribers");
    reveal_strlit("client_stats");
    reveal_strlit("server-performance");
    reveal_strlit("memory");
    reveal_strlit("scripting");
    reveal_strlit("client");
    reveal_strlit("uncategorized");
    lemma_category_names_distinct();
    assert forall|k: int| 0 <= k < cats.len() implies (cats[k].label@, cats[k].icon@)
        == category_meta_spec(#[trigger] cats[k].key@) by {
        assert(group_views(cats[k].groups@) == group_views(groups).filter(in_category(cats[k].key@)));
    }
    assert forall|k: int, i: int| 0 <= k < cats.len() && 0 <= i < cats[k].groups@.len() implies
        group_category_spec((#[trigger] cats[k].groups@[i]).name@) == cats[k].key@ by {
        let gv = group_views(cats[k].groups@);
        let f = group_views(groups).filter(in_category(cats[k].key@));
        assert(gv == f);
        assert(gv[i] == group_view(cats[k].groups@[i]));
        assert(in_category(cats[k].key@)(f[i]));
    }
}

pub fn build_categorized_groups(groups: &Vec<StatGroup>) -> (cats: Vec<StatCategory>)
    ensures
        categories_of(cats@, groups@),
{
    let ghost gs = groups@;
    let ghost order = category_order();
    let mut cats: Vec<StatCategory> = Vec::new();
    let mut ci: usize = 0;
    proof {
        assert(order.take(0).filter(has_groups(gs)) =~= Seq::<Seq<char>>::empty()) by {
            reveal(Seq::filter);
        }
    }
    while ci < 5
        invariant
            0 <= ci <= 5,
            gs == groups@,
            order == category_order(),
            cats@.map_values(|c: StatCategory| c.key@) == order.take(ci as int).filter(
                has_groups(gs),
            ),
            forall|k: int| 0 <= k < cats@.len() ==> category_ok(#[trigger] cats@[k], gs),
        decreases 5 - ci,
    {
        let key = category_key_at(ci);
        let members = collect_category(groups, key);
        proof {
            assert(order.take(ci + 1) =~= order.take(ci as int).push(order[ci as int]));
            order.take(ci as int).lemma_filter_push(order[ci as int], has_groups(gs));
        }
        if members.len() > 0 {
            let meta = stat_category_meta(key);
            let c = StatCategory { key, label: meta.0, icon: meta.1, groups: members };
            let ghost cats0 = cats@;
            proof {
                let m = group_views(c.groups@);
                assert(m.len() > 0);
                assert((has_groups(gs))(key@)) by {
                    lemma_filter_witness(group_views(gs), in_category(key@));
                    let w = choose|w: int|
                        0 <= w < group_views(gs).len() && (in_category(key@))(
                            #[trigger] group_views(gs)[w],
                        );
                    assert(group_category_spec(gs[w].name@) == key@);
                }
                assert(category_ok(c, gs));
            }
            cats.push(c);
            proof {
                assert forall|k: int| 0 <= k < cats@.len() implies category_ok(
                    #[trigger] cats@[k],
                    gs,
                ) by {
                    if k < cats0.len() {
                        assert(cats@[k] == cats0[k]);
                    }
                }
                assert(cats@.map_values(|c: StatCategory| c.key@) =~= order.take(ci + 1).filter(
                    has_groups(gs),
                ));
            }
        } else {
            proof {
                assert(!(has_groups(gs))(key@)) by {
                    if (has_groups(gs))(key@) {
                        let w = choose|w: int|
                            0 <= w < gs.len() && group_category_spec(#[trigger] gs[w].name@)
                                == key@;
                        group_views(gs).lemma_filter_contains(in_category(key@), w);
                    }
                }
                assert(cats@.map_values(|c: StatCategory| c.key@) =~= order.take(ci + 1).filter(
                    has_groups(gs),
                ));
            }
        }
        ci += 1;
    }
    proof {
        assert(order.take(5) == order);
        assert forall|k: int| 0 <= k < cats@.len() implies {
            &&& group_views(#[trigger] cats@[k].groups@) == group_views(gs).filter(
                in_category(cats@[k].key@),
            )
            &&& (cats@[k].label@, cats@[k].icon@) == category_meta_spec(cats@[k].key@)
        } by {
            assert(category_ok(cats@[k], gs));
        }
    }
    cats
}

proof fn lemma_filter_witness<A>(s: Seq<A>, pred: spec_fn(A) -> bool)
    requires
        s.filter(pred).len() > 0,
    ensures
        exists|w: int| 0 <= w < s.len() && pred(#[trigger] s[w]),
    decreases s.len(),
{
    reveal(Seq::filter);
    if s.len() > 0 {
        if pred(s.last()) {
            assert(pred(s[s.len() - 1]));
        } else {
            lemma_filter_witness(s.drop_last(), pred);
            let w = choose|w: int| 0 <= w < s.drop_last().len() && pred(#[trigger] s.drop_last()[w]);
            assert(s[w] == s.drop_last()[w]);
        }
    }
}

/// Category keys, in dashboard order, that some series of `c` falls into.
pub open spec fn category_keys(c: Seq<StatSeries>) -> Seq<Seq<char>> {
    category_order().filter(
        |k: Seq<char>|
            exists|i: int| 0 <= i < c.len() && group_category_spec(top_of(#[trigger] c[i].path@)) == k,
    )
}

proof fn lemma_category_keys(cats: Seq<StatCategory>, groups: Seq<StatGroup>, c: Seq<StatSeries>)
    requires
        groups_of(groups, c),
        categories_of(cats, groups),
    ensures
        cats.map_values(|x: StatCategory| x.key@) == category_keys(c),
{
    let f1 = has_groups(groups);
    let f2 = |k: Seq<char>|
        exists|i: int| 0 <= i < c.len() && group_category_spec(top_of(#[trigger] c[i].path@)) == k;
    assert forall|k: Seq<char>| #[trigger] f1(k) == f2(k) by {
        if f1(k) {
            let i = choose|i: int|
                0 <= i < groups.len() && group_category_spec(#[trigger] groups[i].name@) == k;
            assert(group_names(groups)[i] == groups[i].name@);
            assert(group_names(groups).to_set().contains(groups[i].name@));
            let j = choose|j: int| 0 <= j < c.len() && #[trigger] top_of(c[j].path@) == groups[i].name@;
            assert(f2(k));
        }
        if f2(k) {
            let j = choose|j: int|
                0 <= j < c.len() && group_category_spec(top_of(#[trigger] c[j].path@)) == k;
            assert(group_name_set(c).contains(top_of(c[j].path@)));
            let i = choose|i: int|
                0 <= i < group_names(groups).len() && group_names(groups)[i] == top_of(c[j].path@);
            assert(groups[i].name@ == top_of(c[j].path@));
            assert(f1(k));
        }
    }
    assert(f1 =~= f2);
}

// ── StatsState (ephemeral app-owned state) ────────────────────────────

/// Ephemeral stats accumulation state.
///
/// Owned by the application state. Use `clear()` to reset; do not persist.
#[derive(Debug)]
pub struct StatsState {
    collection: Vec<StatSeries>,
}

impl StatsState {
    /// The series held, in increasing path order.
    pub closed spec fn series(&self) -> Seq<StatSeries> {
        self.collection@
    }

    /// The samples held for each path.
    pub open spec fn samples(&self) -> Map<Seq<char>, Points> {
        collection_map(self.series())
    }

    pub open spec fn wf(&self) -> bool {
        collection_wf(self.series())
    }

    /// Create an empty stats state.
    pub fn new() -> (r: Self)
        ensures
            r.wf(),
            r.series().len() == 0,
    {
        StatsState { collection: Vec::new() }
    }

    /// Clear all accumulated stats.
    pub fn clear(&mut self)
        ensures
            final(self).wf(),
            final(self).series().len() == 0,
    {
        self.collection.clear();
    }

    /// Accumulate a batch of stat nodes at the given tick.
    pub fn accumulate(&mut self, stats: &Vec<StatNode>, tick: u64)
        requires
            old(self).wf(),
        ensures
            final(self).wf(),
            final(self).samples() == accumulate_nodes_spec(
                old(self).samples(),
                stats@,
                tick,
                Seq::<char>::empty(),
            ),
    {
        proof {
            reveal_strlit("");
            assert(""@ =~= Seq::<char>::empty());
        }
        accumulate_stats(&mut self.collection, stats, tick, "");
    }

    /// Stats accumulate per path: a batch of one stat with a value and no
    /// children appends exactly one sample, at the batch's tick, to the series
    /// of the stat's own path (created if new), which keeps only its newest
    /// `MAX_STAT_POINTS` samples; every other series is left as it was.
    pub proof fn lemma_leaf_batch_appends_one_sample(s: StatsState, leaf: StatNode, tick: u64)
        requires
            s.wf(),
            leaf.children@.len() == 0,
            leaf.value is Some,
        ensures
            appended_sample(
                s.samples(),
                accumulate_nodes_spec(s.samples(), seq![leaf], tick, Seq::<char>::empty()),
                leaf.name@,
                tick,
                leaf.value->0,
            ),
    {
        let m = s.samples();
        let c = s.series();
        let path = leaf.name@;
        let v = leaf.value->0;
        assert(seq![leaf].drop_last() =~= Seq::<StatNode>::empty());
        assert(seq![leaf].last() == leaf);
        assert(seq![leaf].len() == 1);
        assert(accumulate_nodes_spec(m, Seq::<StatNode>::empty(), tick, Seq::<char>::empty()) == m);
        assert(child_path(Seq::<char>::empty(), path) == path);
        let m2 = record_spec(m, path, tick, v);
        assert(accumulate_nodes_spec(m, seq![leaf], tick, Seq::<char>::empty()) == accumulate_node_spec(
            m,
            leaf,
            tick,
            Seq::<char>::empty(),
        ));
        assert(accumulate_nodes_spec(m2, leaf.children@, tick, path) == m2);
        if m.contains_key(path) {
            let i = index_of_path(c, path);
            assert(exists|j: int| 0 <= j < c.len() && #[trigger] c[j].path@ == path);
            assert(0 <= i < c.len() && c[i].path@ == path);
            assert(series_wf(c[i]));
            assert(m[path] == (c[i].ticks@, c[i].values@));
            let t = m[path].0.push(tick);
            let vs = m[path].1.push(v);
            if t.len() > MAX_STAT_POINTS {
                assert(t.drop_first() =~= t.skip(1));
                assert(vs.drop_first() =~= vs.skip(1));
            } else {
                assert(t =~= t.skip(0));
                assert(vs =~= vs.skip(0));
            }
        } else {
            let t = Seq::<u64>::empty().push(tick);
            let vs = Seq::<u64>::empty().push(v);
            assert(t =~= t.skip(0));
            assert(vs =~= vs.skip(0));
        }
        assert(m2.dom() =~= m.dom().insert(path));
    }

    /// Whether no stats have been accumulated.
    pub fn is_empty(&self) -> (r: bool)
        ensures
            r == (self.series().len() == 0),
    {
        self.collection.len() == 0
    }

    /// Number of series currently tracked.
    pub fn series_count(&self) -> (r: usize)
        ensures
            r == self.series().len(),
    {
        self.collection.len()
    }

    /// The series, in increasing path order.
    pub fn collection(&self) -> (r: &Vec<StatSeries>)
        ensures
            r@ == self.series(),
    {
        &self.collection
    }

    /// Build groups ordered by top-level sort.
    pub fn groups(&self) -> (r: Vec<StatGroup>)
        ensures
            groups_of(r@, self.series()),
    {
        build_chart_groups(&self.collection)
    }

    /// Build categorized groups for UI rendering.
    pub fn categories(&self) -> (r: Vec<StatCategory>)
        ensures
            r@.map_values(|x: StatCategory| x.key@) == category_keys(self.series()),
            exists|g: Seq<StatGroup>| groups_of(g, self.series()) && categories_of(r@, g),
    {
        let groups = self.groups();
        let r = build_categorized_groups(&groups);
        proof {
            lemma_category_keys(r@, groups@, self.series());
        }
        r
    }

    /// Collect sorted unique client IDs.
    pub fn client_ids(&self) -> (r: Vec<String>)
        ensures
            string_views(r@) == sorted_seq_of(client_id_set(self.series())),
    {
        build_client_ids(&self.collection)
    }

    /// Collect sorted unique subscriber addon IDs.
    pub fn subscriber_addon_ids(&self) -> (r: Vec<String>)
        ensures
            string_views(r@) == sorted_seq_of(addon_id_set(self.series())),
    {
        build_subscriber_addon_ids(&self.collection)
    }
}

} // verus!
