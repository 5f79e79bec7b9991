//! Lexicographic order on character sequences, the order in which `str`
//! values compare (UTF-8 preserves code-point order).
use vstd::prelude::*;

verus! {

/// `a` sorts strictly before `b`.
pub open spec fn seq_lt(a: Seq<char>, b: Seq<char>) -> bool
    decreases a.len(),
{
    if a.len() == 0 {
        b.len() > 0
    } else if b.len() == 0 {
        false
    } else if a[0] < b[0] {
        true
    } else if a[0] > b[0] {
        false
    } else {
        seq_lt(a.drop_first(), b.drop_first())
    }
}

/// Every element of `s` sorts strictly before the next one.
pub open spec fn strictly_sorted(s: Seq<Seq<char>>) -> bool {
    forall|i: int, j: int| 0 <= i < j < s.len() ==> seq_lt(#[trigger] s[i], #[trigger] s[j])
}

pub proof fn lemma_lt_irreflexive(a: Seq<char>)
    ensures
        !seq_lt(a, a),
    decreases a.len(),
{
    if a.len() > 0 {
        lemma_lt_irreflexive(a.drop_first());
    }
}

pub proof fn lemma_lt_asymmetric(a: Seq<char>, b: Seq<char>)
    ensures
        seq_lt(a, b) ==> !seq_lt(b, a),
    decreases a.len(),
{
    if a.len() > 0 && b.len() > 0 && a[0] == b[0] {
        lemma_lt_asymmetric(a.drop_first(), b.drop_first());
    }
}

pub proof fn lemma_lt_transitive(a: Seq<char>, b: Seq<char>, c: Seq<char>)
    requires
        seq_lt(a, b),
        seq_lt(b, c),
    ensures
        seq_lt(a, c),
    decreases a.len(),
{
    if a.len() > 0 && b.len() > 0 && c.len() > 0 && a[0] == b[0] && b[0] == c[0] {
        lemma_lt_transitive(a.drop_first(), b.drop_first(), c.drop_first());
    }
}

pub proof fn lemma_lt_total(a: Seq<char>, b: Seq<char>)
    ensures
        a == b || seq_lt(a, b) || seq_lt(b, a),
    decreases a.len(),
{
    if a.len() > 0 && b.len() > 0 && a[0] == b[0] {
        lemma_lt_total(a.drop_first(), b.drop_first());
        if a.drop_first() == b.drop_first() {
            assert(a =~= seq![a[0]] + a.drop_first());
            assert(b =~= seq![b[0]] + b.drop_first());
        }
    } else if a.len() == 0 && b.len() == 0 {
        assert(a =~= b);
    }
}

/// Compare two character sequences lexicographically.
pub fn chars_lt(a: &[char], b: &[char]) -> (r: bool)
    ensures
        r == seq_lt(a@, b@),
{
    let mut i: usize = 0;
    assert(a@.skip(0) == a@ && b@.skip(0) == b@);
    while i < a.len() && i < b.len() && a[i] == b[i]
        invariant
            0 <= i <= a.len(),
            i <= b.len(),
            seq_lt(a@, b@) == seq_lt(a@.skip(i as int), b@.skip(i as int)),
        decreases a.len() - i,
    {
        proof {
            assert(a@.skip(i as int).drop_first() == a@.skip(i + 1));
            assert(b@.skip(i as int).drop_first() == b@.skip(i + 1));
        }
        i += 1;
    }
    if i == a.len() {
        i < b.len()
    } else if i == b.len() {
        false
    } else {
        a[i] < b[i]
    }
}

/// Whether `a` and `b` hold the same characters.
pub fn chars_eq(a: &[char], b: &[char]) -> (r: bool)
    ensures
        r == (a@ == b@),
{
    if a.len() != b.len() {
        return false;
    }
    let mut i: usize = 0;
    while i < a.len()
        invariant
            a.len() == b.len(),
            0 <= i <= a.len(),
            forall|j: int| 0 <= j < i ==> a@[j] == b@[j],
        decreases a.len() - i,
    {
        if a[i] != b[i] {
            return false;
        }
        i += 1;
    }
    assert(a@ =~= b@);
    true
}

/// The strictly sorted sequence holding exactly the elements of `s`.
pub open spec fn sorted_seq_of(s: Set<Seq<char>>) -> Seq<Seq<char>> {
    choose|r: Seq<Seq<char>>| strictly_sorted(r) && r.to_set() == s
}

proof fn lemma_sorted_min(a: Seq<Seq<char>>, x: Seq<char>)
    requires
        strictly_sorted(a),
        a.contains(x),
    ensures
        a[0] == x || seq_lt(a[0], x),
{
    let k = choose|k: int| 0 <= k < a.len() && a[k] == x;
    if k > 0 {
        assert(seq_lt(a[0], a[k]));
    }
}

/// Two strictly sorted sequences with the same elements are equal.
pub proof fn lemma_sorted_unique(a: Seq<Seq<char>>, b: Seq<Seq<char>>)
    requires
        strictly_sorted(a),
        strictly_sorted(b),
        a.to_set() == b.to_set(),
    ensures
        a == b,
    decreases a.len(),
{
    if a.len() == 0 {
        if b.len() > 0 {
            assert(b.to_set().contains(b[0]));
        }
        assert(a =~= b);
    } else {
        assert(a.to_set().contains(a[0]));
        assert(b.len() > 0);
        assert(b.to_set().contains(b[0]));
        assert(b.contains(a[0]));
        assert(a.contains(b[0]));
        lemma_sorted_min(a, b[0]);
        lemma_sorted_min(b, a[0]);
        if a[0] != b[0] {
            lemma_lt_asymmetric(a[0], b[0]);
        }
        let a1 = a.drop_first();
        let b1 = b.drop_first();
        assert(strictly_sorted(a1)) by {
            assert forall|i: int, j: int| 0 <= i < j < a1.len() implies seq_lt(
                #[trigger] a1[i],
                #[trigger] a1[j],
            ) by {
                assert(a1[i] == a[i + 1] && a1[j] == a[j + 1]);
            }
        }
        assert(strictly_sorted(b1)) by {
            assert forall|i: int, j: int| 0 <= i < j < b1.len() implies seq_lt(
                #[trigger] b1[i],
                #[trigger] b1[j],
            ) by {
                assert(b1[i] == b[i + 1] && b1[j] == b[j + 1]);
            }
        }
        assert(a1.to_set() =~= b1.to_set()) by {
            assert forall|x: Seq<char>| a1.to_set().contains(x) implies b1.to_set().contains(x) by {
                let k = choose|k: int| 0 <= k < a1.len() && a1[k] == x;
                assert(a[k + 1] == x);
                assert(seq_lt(a[0], x));
                lemma_lt_irreflexive(x);
                assert(b.to_set().contains(x));
                let m = choose|m: int| 0 <= m < b.len() && b[m] == x;
                assert(m != 0);
                assert(b1[m - 1] == x);
            }
            assert forall|x: Seq<char>| b1.to_set().contains(x) implies a1.to_set().contains(x) by {
                let k = choose|k: int| 0 <= k < b1.len() && b1[k] == x;
                assert(b[k + 1] == x);
                assert(seq_lt(b[0], x));
                lemma_lt_irreflexive(x);
                assert(a.to_set().contains(x));
                let m = choose|m: int| 0 <= m < a.len() && a[m] == x;
                assert(m != 0);
                assert(a1[m - 1] == x);
            }
        }
        lemma_sorted_unique(a1, b1);
        assert(a =~= seq![a[0]] + a1);
        assert(b =~= seq![b[0]] + b1);
    }
}

/// A strictly sorted sequence is the sorted sequence of its elements.
pub proof fn lemma_sorted_seq_of(a: Seq<Seq<char>>)
    requires
        strictly_sorted(a),
    ensures
        sorted_seq_of(a.to_set()) == a,
{
    let r = sorted_seq_of(a.to_set());
    assert(strictly_sorted(a) && a.to_set() == a.to_set());
    lemma_sorted_unique(r, a);
}

/// The views of a vector of character vectors.
pub open spec fn views(v: Seq<Vec<char>>) -> Seq<Seq<char>> {
    v.map_values(|x: Vec<char>| x@)
}

/// Insert `x` into the strictly sorted `v` unless it is already there.
pub fn insert_sorted_unique(v: &mut Vec<Vec<char>>, x: Vec<char>)
    requires
        strictly_sorted(views(old(v)@)),
    ensures
        strictly_sorted(views(final(v)@)),
        views(final(v)@).to_set() == views(old(v)@).to_set().insert(x@),
{
    let ghost v0 = views(v@);
    let mut pos: usize = 0;
    while pos < v.len()
        invariant
            0 <= pos <= v@.len(),
            v0 == views(v@),
            forall|k: int| 0 <= k < pos ==> seq_lt(#[trigger] v0[k], x@),
        ensures
            0 <= pos <= v@.len(),
            v0 == views(v@),
            forall|k: int| 0 <= k < pos ==> seq_lt(#[trigger] v0[k], x@),
            pos < v@.len() ==> !seq_lt(v0[pos as int], x@),
        decreases v.len() - pos,
    {
        if !chars_lt(v[pos].as_slice(), x.as_slice()) {
            break;
        }
        pos += 1;
    }
    if pos < v.len() && chars_eq(v[pos].as_slice(), x.as_slice()) {
        assert(v0.to_set().insert(x@) =~= v0.to_set()) by {
            assert(v0[pos as int] == x@);
        }
        return;
    }
    proof {
        if pos < v0.len() {
            assert(!seq_lt(v0[pos as int], x@));
            lemma_lt_total(v0[pos as int], x@);
        }
    }
    let ghost xv = x@;
    v.insert(pos, x);
    proof {
        let v1 = views(v@);
        assert(v1 =~= v0.insert(pos as int, xv));
        assert forall|i: int, j: int| 0 <= i < j < v1.len() implies seq_lt(
            #[trigger] v1[i],
            #[trigger] v1[j],
        ) by {
            if j < pos {
            } else if j == pos {
            } else if i < pos {
                assert(v1[j] == v0[j - 1]);
                if pos < v0.len() {
                    if j - 1 > pos {
                        assert(seq_lt(v0[pos as int], v0[j - 1]));
                        lemma_lt_transitive(xv, v0[pos as int], v0[j - 1]);
                    }
                    lemma_lt_transitive(v0[i], xv, v0[j - 1]);
                }
            } else if i == pos {
                assert(v1[j] == v0[j - 1]);
                if j - 1 > pos {
                    assert(seq_lt(v0[pos as int], v0[j - 1]));
                    lemma_lt_transitive(xv, v0[pos as int], v0[j - 1]);
                }
            } else {
                assert(v1[i] == v0[i - 1]);
                assert(v1[j] == v0[j - 1]);
            }
        }
        assert(v1.to_set() =~= v0.to_set().insert(xv)) by {
            assert forall|y: Seq<char>| v1.to_set().contains(y) implies v0.to_set().insert(
                xv,
            ).contains(y) by {
                let k = choose|k: int| 0 <= k < v1.len() && v1[k] == y;
                if k < pos {
                    assert(v0[k] == y);
                } else if k > pos {
                    assert(v0[k - 1] == y);
                }
            }
            assert forall|y: Seq<char>| v0.to_set().insert(xv).contains(y) implies v1.to_set().contains(
                y,
            ) by {
                if y == xv {
                    assert(v1[pos as int] == y);
                } else {
                    let k = choose|k: int| 0 <= k < v0.len() && v0[k] == y;
                    if k < pos {
                        assert(v1[k] == y);
                    } else {
                        assert(v1[k + 1] == y);
                    }
                }
            }
        }
    }
}

} // verus!
