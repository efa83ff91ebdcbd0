//! Canonical candidate sets: sorted, duplicate-free vectors of paths.
//!
//! The collector merges the outputs of all candidate strategies into one
//! canonical listing. A listing is canonical when it is strictly sorted in
//! the lexicographic order of `order::lex_lt`; such a listing is determined
//! by its element set alone, which is proved by `lemma_sorted_set_unique` and
//! is what makes collection deterministic and merge order irrelevant.

use vstd::prelude::*;
use crate::paths::has_path;
use crate::order::{
    lex_lt, lemma_lex_lt_asymmetric, lemma_lex_lt_irreflexive, lemma_lex_lt_total,
    lemma_lex_lt_transitive, str_lex_lt,
};

verus! {

/// The character sequences of a sequence of strings.
pub open spec fn views(v: Seq<String>) -> Seq<Seq<char>> {
    v.map_values(|s: String| s@)
}

/// Strictly ascending in lexicographic order; implies freedom from duplicates.
pub open spec fn strictly_sorted(s: Seq<Seq<char>>) -> bool {
    forall|i: int, j: int| 0 <= i < j < s.len() ==> lex_lt(s[i], s[j])
}

/// Inserting an element into a sequence adds exactly that element to its set.
pub proof fn lemma_insert_to_set(q: Seq<Seq<char>>, i: int, x: Seq<char>)
    requires
        0 <= i <= q.len(),
    ensures
        q.insert(i, x).to_set() == q.to_set().insert(x),
{
    let r = q.insert(i, x);
    assert forall|e: Seq<char>| r.to_set().contains(e) implies q.to_set().insert(x).contains(
        e,
    ) by {
        let k = choose|k: int| 0 <= k < r.len() && r[k] == e;
        if k < i {
            assert(q[k] == e);
        } else if k == i {
            assert(e == x);
        } else {
            assert(q[k - 1] == e);
        }
    }
    assert forall|e: Seq<char>| q.to_set().insert(x).contains(e) implies r.to_set().contains(
        e,
    ) by {
        if e == x {
            assert(r[i] == e);
        } else {
            let k = choose|k: int| 0 <= k < q.len() && q[k] == e;
            if k < i {
                assert(r[k] == e);
            } else {
                assert(r[k + 1] == e);
            }
        }
    }
    assert(r.to_set() =~= q.to_set().insert(x));
}

/// Inserts a path into a canonical listing, keeping it canonical; the
/// element set grows by exactly the inserted path.
pub fn insert_sorted(v: &mut Vec<String>, s: String)
    requires
        strictly_sorted(views(old(v)@)),
    ensures
        strictly_sorted(views(final(v)@)),
        views(final(v)@).to_set() == views(old(v)@).to_set().insert(s@),
{
    let ghost q = views(v@);
    let mut i: usize = 0;
    while i < v.len() && str_lex_lt(v[i].as_str(), s.as_str())
        invariant
            i <= v.len(),
            v@ == old(v)@,
            q == views(v@),
            forall|j: int| 0 <= j < i ==> lex_lt(q[j], s@),
        decreases v.len() - i,
    {
        i = i + 1;
    }
    if i < v.len() && v[i] == s {
        proof {
            assert(q[i as int] == s@);
            assert(q.to_set().contains(s@));
            assert(q.to_set() =~= q.to_set().insert(s@));
        }
        return ;
    }
    proof {
        if i < v.len() {
            lemma_lex_lt_total(q[i as int], s@);
            assert(lex_lt(s@, q[i as int]));
        }
    }
    v.insert(i, s);
    proof {
        assert(views(v@) =~= q.insert(i as int, s@));
        lemma_insert_to_set(q, i as int, s@);
        q.insert_ensures(i as int, s@);
        let r = views(v@);
        assert forall|x: int, y: int| 0 <= x < y < r.len() implies lex_lt(r[x], r[y]) by {
            let ins = q.insert(i as int, s@);
            if x > i {
                assert(ins[(x - 1) + 1] == q[x - 1]);
            }
            if y > i {
                assert(ins[(y - 1) + 1] == q[y - 1]);
            }
            if x == i && y > i {
                if y - 1 > i {
                    lemma_lex_lt_transitive(s@, q[i as int], q[y - 1]);
                }
            } else if x < i && y > i {
                lemma_lex_lt_transitive(q[x], s@, q[y - 1]);
            }
        }
    }
}

/// Merges any listing into its canonical form: sorted, duplicate-free, and
/// with exactly the same element set.
pub fn canonicalize(items: &Vec<String>) -> (out: Vec<String>)
    ensures
        strictly_sorted(views(out@)),
        views(out@).to_set() == views(items@).to_set(),
{
    let mut out: Vec<String> = Vec::new();
    let mut i: usize = 0;
    proof {
        assert(views(out@).to_set() =~= views(items@.take(0)).to_set());
    }
    while i < items.len()
        invariant
            i <= items.len(),
            strictly_sorted(views(out@)),
            views(out@).to_set() == views(items@.take(i as int)).to_set(),
        decreases items.len() - i,
    {
        let ghost pre = items@.take(i as int);
        insert_sorted(&mut out, items[i].clone());
        proof {
            assert(views(items@.take(i + 1)) =~= views(pre).push(items@[i as int]@));
            assert(views(pre).push(items@[i as int]@) =~= views(pre).insert(
                views(pre).len() as int,
                items@[i as int]@,
            ));
            lemma_insert_to_set(views(pre), views(pre).len() as int, items@[i as int]@);
        }
        i = i + 1;
    }
    proof {
        assert(items@.take(items@.len() as int) =~= items@);
    }
    out
}

/// A canonical listing is unique: two strictly sorted sequences with the
/// same element set are the same sequence.
pub proof fn lemma_sorted_set_unique(a: Seq<Seq<char>>, b: Seq<Seq<char>>)
    requires
        strictly_sorted(a),
        strictly_sorted(b),
        a.to_set() == b.to_set(),
    ensures
        a == b,
    decreases a.len(),
{
    if a.len() == 0 {
        if b.len() > 0 {
            assert(b.to_set().contains(b[0]));
            assert(a.contains(b[0]));
        }
        assert(a =~= b);
    } else if b.len() == 0 {
        assert(a.to_set().contains(a[0]));
        assert(b.contains(a[0]));
        assert(a =~= b);
    } else {
        // The heads are both the least element of the shared set.
        assert(b.to_set().contains(b[0]));
        assert(a.contains(b[0]));
        let ka = choose|k: int| 0 <= k < a.len() && a[k] == b[0];
        assert(a.to_set().contains(a[0]));
        assert(b.contains(a[0]));
        let kb = choose|k: int| 0 <= k < b.len() && b[k] == a[0];
        if a[0] != b[0] {
            assert(ka > 0 && kb > 0);
            assert(lex_lt(a[0], a[ka]));
            assert(lex_lt(b[0], b[kb]));
            lemma_lex_lt_asymmetric(a[0], b[0]);
            assert(false);
        }
        lemma_sorted_tail_set(a);
        lemma_sorted_tail_set(b);
        assert(a.to_set().remove(a[0]) =~= b.to_set().remove(b[0]));
        lemma_sorted_set_unique(a.drop_first(), b.drop_first());
        assert forall|i: int| 0 <= i < a.len() implies a[i] == b[i] by {
            if i >= 1 {
                assert(a[i] == a.drop_first()[i - 1]);
                assert(b[i] == b.drop_first()[i - 1]);
            }
        }
        assert(a =~= b);
    }
}

/// Dropping the head of a canonical listing removes exactly the head from
/// its element set.
proof fn lemma_sorted_tail_set(a: Seq<Seq<char>>)
    requires
        strictly_sorted(a),
        a.len() > 0,
    ensures
        strictly_sorted(a.drop_first()),
        a.drop_first().to_set() == a.to_set().remove(a[0]),
{
    let t = a.drop_first();
    assert forall|i: int, j: int| 0 <= i < j < t.len() implies lex_lt(t[i], t[j]) by {
        assert(t[i] == a[i + 1] && t[j] == a[j + 1]);
    }
    assert forall|e: Seq<char>| t.to_set().contains(e) implies a.to_set().remove(a[0]).contains(
        e,
    ) by {
        let k = choose|k: int| 0 <= k < t.len() && t[k] == e;
        assert(a[k + 1] == e);
        assert(lex_lt(a[0], a[k + 1]));
        lemma_lex_lt_irreflexive(a[0]);
    }
    assert forall|e: Seq<char>| a.to_set().remove(a[0]).contains(e) implies t.to_set().contains(
        e,
    ) by {
        let k = choose|k: int| 0 <= k < a.len() && a[k] == e;
        assert(k >= 1);
        assert(t[k - 1] == e);
    }
    assert(t.to_set() =~= a.to_set().remove(a[0]));
}

/// Merge commutativity law: canonicalizing the concatenation of two strategy
/// outputs yields the same listing whichever strategy ran first.
pub proof fn lemma_merge_commutative(
    xs: Seq<Seq<char>>,
    ys: Seq<Seq<char>>,
    a: Seq<Seq<char>>,
    b: Seq<Seq<char>>,
)
    requires
        strictly_sorted(a),
        a.to_set() == (xs + ys).to_set(),
        strictly_sorted(b),
        b.to_set() == (ys + xs).to_set(),
    ensures
        a == b,
{
    assert forall|e: Seq<char>| (xs + ys).to_set().contains(e) implies (
    ys + xs).to_set().contains(e) by {
        let k = choose|k: int| 0 <= k < (xs + ys).len() && (xs + ys)[k] == e;
        if k < xs.len() {
            assert((ys + xs)[k + ys.len()] == e);
        } else {
            assert((ys + xs)[k - xs.len()] == e);
        }
    }
    assert forall|e: Seq<char>| (ys + xs).to_set().contains(e) implies (
    xs + ys).to_set().contains(e) by {
        let k = choose|k: int| 0 <= k < (ys + xs).len() && (ys + xs)[k] == e;
        if k < ys.len() {
            assert((xs + ys)[k + xs.len()] == e);
        } else {
            assert((xs + ys)[k - ys.len()] == e);
        }
    }
    assert((xs + ys).to_set() =~= (ys + xs).to_set());
    lemma_sorted_set_unique(a, b);
}

/// Appends clones of every path in `src` to `dst`.
pub fn clone_push_all(dst: &mut Vec<String>, src: &Vec<String>)
    ensures
        views(final(dst)@) == views(old(dst)@) + views(src@),
{
    let mut i: usize = 0;
    while i < src.len()
        invariant
            i <= src.len(),
            dst@.len() == old(dst)@.len() + i,
            forall|k: int| 0 <= k < old(dst)@.len() ==> dst@[k] == old(dst)@[k],
            forall|k: int| 0 <= k < i ==> dst@[old(dst)@.len() + k]@ == src@[k]@,
        decreases src.len() - i,
    {
        dst.push(src[i].clone());
        i = i + 1;
    }
    proof {
        assert forall|k: int| 0 <= k < views(dst@).len() implies views(dst@)[k] == (views(
            old(dst)@,
        ) + views(src@))[k] by {
            if k >= old(dst)@.len() {
                assert(dst@[k]@ == src@[k - old(dst)@.len()]@);
            }
        }
        assert(views(dst@) =~= views(old(dst)@) + views(src@));
    }
}

} // verus!

verus! {

/// Membership of a path in a listing and membership of its characters in the
/// listing's element set are the same thing.
pub proof fn lemma_has_path_to_set(v: Seq<String>, p: Seq<char>)
    ensures
        has_path(v, p) == views(v).to_set().contains(p),
{
    if has_path(v, p) {
        let i = choose|i: int| 0 <= i < v.len() && v[i]@ == p;
        assert(views(v)[i] == p);
        assert(views(v).to_set().contains(p));
    }
    if views(v).to_set().contains(p) {
        let i = choose|i: int| 0 <= i < views(v).len() && views(v)[i] == p;
        assert(v[i]@ == p);
    }
}

/// Pushing a path onto a listing adds exactly that path to its element set.
pub proof fn lemma_push_to_set(v: Seq<String>, x: String)
    ensures
        views(v.push(x)).to_set() == views(v).to_set().insert(x@),
{
    assert(views(v.push(x)) =~= views(v).insert(views(v).len() as int, x@));
    lemma_insert_to_set(views(v), views(v).len() as int, x@);
}

} // verus!
