//! Lists of package names: their model, sorting, and removal of repetitions.

use vstd::prelude::*;
use crate::order::{
    lemma_name_lt_asymmetric, lemma_name_lt_irreflexive, lemma_name_lt_total,
    lemma_name_lt_transitive, name_less, name_lt,
};

verus! {

/// The names that a list of strings spells, in order.
pub open spec fn names(v: Seq<String>) -> Seq<Seq<char>> {
    Seq::new(v.len(), |i: int| v[i]@)
}

/// No element is preceded by a greater one.
pub open spec fn ascending(s: Seq<Seq<char>>) -> bool {
    forall|i: int, j: int| 0 <= i < j < s.len() ==> !name_lt(s[j], s[i])
}

/// Every element is less than each one after it.
pub open spec fn strictly_ascending(s: Seq<Seq<char>>) -> bool {
    forall|i: int, j: int| 0 <= i < j < s.len() ==> name_lt(s[i], s[j])
}

/// `s` with every run of equal neighbours cut down to its first element.
pub open spec fn dedup_adjacent(s: Seq<Seq<char>>) -> Seq<Seq<char>>
    decreases s.len(),
{
    if s.len() <= 1 {
        s
    } else if s[s.len() - 2] == s.last() {
        dedup_adjacent(s.drop_last())
    } else {
        dedup_adjacent(s.drop_last()).push(s.last())
    }
}

/// `r` lists the elements of `s` in strictly ascending order, each once.
pub open spec fn is_sorted_set_of(r: Seq<Seq<char>>, s: Seq<Seq<char>>) -> bool {
    &&& strictly_ascending(r)
    &&& forall|x: Seq<char>|
        #![trigger r.contains(x)]
        #![trigger s.contains(x)]
        r.contains(x) <==> s.contains(x)
}

/// A strictly ascending list holds no name twice.
pub proof fn lemma_strictly_ascending_no_duplicates(s: Seq<Seq<char>>)
    requires
        strictly_ascending(s),
    ensures
        s.no_duplicates(),
{
    assert forall|i: int, j: int| 0 <= i < s.len() && 0 <= j < s.len() && i != j implies s[i]
        != s[j] by {
        if i < j {
            assert(name_lt(s[i], s[j]));
        } else {
            assert(name_lt(s[j], s[i]));
        }
        lemma_name_lt_irreflexive(s[i]);
    }
}

/// A strictly ascending list is ascending.
pub proof fn lemma_strictly_ascending_is_ascending(s: Seq<Seq<char>>)
    requires
        strictly_ascending(s),
    ensures
        ascending(s),
{
    assert forall|i: int, j: int| 0 <= i < j < s.len() implies !name_lt(s[j], s[i]) by {
        assert(name_lt(s[i], s[j]));
        lemma_name_lt_asymmetric(s[i], s[j]);
    }
}

/// Cutting the runs of an ascending list leaves a strictly ascending list of
/// the same names, which ends as the list does.
pub proof fn lemma_dedup_of_ascending(s: Seq<Seq<char>>)
    requires
        ascending(s),
    ensures
        is_sorted_set_of(dedup_adjacent(s), s),
        s.len() > 0 ==> dedup_adjacent(s).len() > 0 && dedup_adjacent(s).last() == s.last(),
    decreases s.len(),
{
    let d = dedup_adjacent(s);
    if s.len() <= 1 {
    } else {
        let init = s.drop_last();
        let e = dedup_adjacent(init);
        assert forall|i: int, j: int| 0 <= i < j < init.len() implies !name_lt(
            init[j],
            init[i],
        ) by {
            assert(!name_lt(s[j], s[i]));
        }
        lemma_dedup_of_ascending(init);
        assert(init.last() == s[s.len() - 2]);
        if s[s.len() - 2] == s.last() {
            assert forall|x: Seq<char>| d.contains(x) <==> s.contains(x) by {
                if s.contains(x) {
                    let k = choose|k: int| 0 <= k < s.len() && s[k] == x;
                    if k == s.len() - 1 {
                        assert(init[s.len() - 2] == x);
                    } else {
                        assert(init[k] == x);
                    }
                    assert(init.contains(x));
                }
                if d.contains(x) {
                    assert(init.contains(x));
                    let k = choose|k: int| 0 <= k < init.len() && init[k] == x;
                    assert(s[k] == x);
                }
            }
        } else {
            assert forall|i: int, j: int| 0 <= i < j < d.len() implies name_lt(d[i], d[j]) by {
                if j < e.len() {
                    assert(name_lt(e[i], e[j]));
                } else {
                    // d[j] is the last name of `s`; d[i] occurs in `init`.
                    assert(e.contains(e[i]));
                    assert(init.contains(e[i]));
                    let k = choose|k: int| 0 <= k < init.len() && init[k] == e[i];
                    assert(!name_lt(s[s.len() - 1], s[k]));
                    if e[i] == s.last() {
                        // the name before the last lies between two equal
                        // names, so it equals the last: this cannot be
                        if k != s.len() - 2 {
                            assert(!name_lt(s[s.len() - 2], s[k]));
                            assert(!name_lt(s[s.len() - 1], s[s.len() - 2]));
                            lemma_name_lt_total(s[s.len() - 2], s.last());
                        }
                    } else {
                        lemma_name_lt_total(e[i], s.last());
                    }
                }
            }
            assert forall|x: Seq<char>| d.contains(x) <==> s.contains(x) by {
                if s.contains(x) {
                    let k = choose|k: int| 0 <= k < s.len() && s[k] == x;
                    if k == s.len() - 1 {
                        assert(d[d.len() - 1] == x);
                    } else {
                        assert(init[k] == x);
                        assert(init.contains(x));
                        assert(e.contains(x));
                        let m = choose|m: int| 0 <= m < e.len() && e[m] == x;
                        assert(d[m] == x);
                    }
                }
                if d.contains(x) {
                    let m = choose|m: int| 0 <= m < d.len() && d[m] == x;
                    if m == d.len() - 1 {
                        assert(s[s.len() - 1] == x);
                    } else {
                        assert(e[m] == x);
                        assert(e.contains(x));
                        assert(init.contains(x));
                        let k = choose|k: int| 0 <= k < init.len() && init[k] == x;
                        assert(s[k] == x);
                    }
                }
            }
        }
    }
}

/// Two strictly ascending lists of the same names are the same list.
pub proof fn lemma_sorted_set_unique(a: Seq<Seq<char>>, b: Seq<Seq<char>>)
    requires
        strictly_ascending(a),
        strictly_ascending(b),
        forall|x: Seq<char>| a.contains(x) <==> b.contains(x),
    ensures
        a == b,
    decreases a.len(),
{
    if a.len() == 0 {
        if b.len() > 0 {
            assert(b.contains(b[0]));
        }
        assert(a =~= b);
    } else if b.len() == 0 {
        assert(a.contains(a[0]));
    } else {
        let x = a.last();
        let y = b.last();
        assert(a.contains(x));
        assert(b.contains(y));
        let j = choose|j: int| 0 <= j < b.len() && b[j] == x;
        let i = choose|i: int| 0 <= i < a.len() && a[i] == y;
        if x != y {
            // x sits before the end of b, so x < y; y before the end of a, so y < x
            assert(name_lt(b[j], b[b.len() - 1]));
            assert(name_lt(a[i], a[a.len() - 1]));
            lemma_name_lt_asymmetric(x, y);
        }
        let a0 = a.drop_last();
        let b0 = b.drop_last();
        assert forall|i: int, j: int| 0 <= i < j < a0.len() implies name_lt(a0[i], a0[j]) by {
            assert(name_lt(a[i], a[j]));
        }
        assert forall|i: int, j: int| 0 <= i < j < b0.len() implies name_lt(b0[i], b0[j]) by {
            assert(name_lt(b[i], b[j]));
        }
        assert forall|z: Seq<char>| a0.contains(z) <==> b0.contains(z) by {
            if a0.contains(z) {
                let k = choose|k: int| 0 <= k < a0.len() && a0[k] == z;
                assert(a[k] == z);
                assert(name_lt(a[k], a[a.len() - 1]));
                lemma_name_lt_irreflexive(x);
                assert(a.contains(z));
                assert(b.contains(z));
                let m = choose|m: int| 0 <= m < b.len() && b[m] == z;
                assert(b0[m] == z);
            }
            if b0.contains(z) {
                let k = choose|k: int| 0 <= k < b0.len() && b0[k] == z;
                assert(b[k] == z);
                assert(name_lt(b[k], b[b.len() - 1]));
                lemma_name_lt_irreflexive(y);
                assert(b.contains(z));
                assert(a.contains(z));
                let m = choose|m: int| 0 <= m < a.len() && a[m] == z;
                assert(a0[m] == z);
            }
        }
        lemma_sorted_set_unique(a0, b0);
        assert(a =~= a0.push(x));
        assert(b =~= b0.push(y));
    }
}

/// The place of `name` in `list`: before the first element that is greater,
/// at the end where there is none.
pub open spec fn insertion_point(list: Seq<Seq<char>>, name: Seq<char>, p: int) -> bool {
    &&& 0 <= p <= list.len()
    &&& forall|k: int| 0 <= k < p ==> !name_lt(name, #[trigger] list[k])
    &&& p < list.len() ==> name_lt(name, list[p])
}

/// Putting a name at its place into an ascending list leaves the list ascending.
pub proof fn lemma_insert_keeps_ascending(list: Seq<Seq<char>>, name: Seq<char>, p: int)
    requires
        ascending(list),
        insertion_point(list, name, p),
    ensures
        ascending(list.insert(p, name)),
{
    let after = list.insert(p, name);
    assert forall|i: int, j: int| 0 <= i < j < after.len() implies !name_lt(after[j], after[i]) by {
        if j < p {
            assert(!name_lt(list[j], list[i]));
        } else if j == p {
            assert(!name_lt(name, list[i]));
        } else if i < p {
            assert(!name_lt(list[j - 1], list[i]));
        } else if i == p {
            if name_lt(list[j - 1], name) {
                lemma_name_lt_transitive(list[j - 1], name, list[p]);
                if j - 1 == p {
                    lemma_name_lt_irreflexive(list[p]);
                } else {
                    assert(!name_lt(list[j - 1], list[p]));
                }
            }
        } else {
            assert(!name_lt(list[j - 1], list[i - 1]));
        }
    }
}

/// Puts `name` into `list` before the first element that is greater, at the
/// end where there is none. An ascending list stays ascending.
pub fn insert_sorted(list: &mut Vec<String>, name: String)
    ensures
        exists|p: int|
            #![trigger names(old(list)@).insert(p, name@)]
            insertion_point(names(old(list)@), name@, p) && names(final(list)@) == names(
                old(list)@,
            ).insert(p, name@),
        ascending(names(old(list)@)) ==> ascending(names(final(list)@)),
{
    let n: usize = list.len();
    let mut p: usize = 0;
    while p < n && !name_less(name.as_str(), list[p].as_str())
        invariant
            p <= n,
            n == list@.len(),
            forall|k: int| 0 <= k < p ==> !name_lt(name@, #[trigger] list@[k]@),
        decreases n - p,
    {
        p += 1;
    }
    let ghost before = names(list@);
    list.insert(p, name);
    proof {
        assert(names(list@) =~= before.insert(p as int, name@));
        assert(insertion_point(before, name@, p as int));
        if ascending(before) {
            lemma_insert_keeps_ascending(before, name@, p as int);
        }
    }
}

/// Sorts a list of names.
pub fn sort_names(list: Vec<String>) -> (sorted: Vec<String>)
    ensures
        ascending(names(sorted@)),
        names(sorted@).to_multiset() == names(list@).to_multiset(),
{
    let mut rest = list;
    let mut sorted: Vec<String> = Vec::new();
    proof {
        assert(names(sorted@) =~= names(list@).skip(rest@.len() as int));
        assert(rest@ =~= list@.take(rest@.len() as int));
    }
    while rest.len() > 0
        invariant
            rest@.len() <= list@.len(),
            rest@ == list@.take(rest@.len() as int),
            ascending(names(sorted@)),
            names(sorted@).to_multiset() == names(list@).skip(rest@.len() as int).to_multiset(),
        decreases rest.len(),
    {
        let ghost before = names(sorted@);
        let ghost k = rest@.len() as int;
        let name = rest.pop().unwrap();
        insert_sorted(&mut sorted, name);
        proof {
            let p = choose|p: int|
                #![trigger before.insert(p, name@)]
                insertion_point(before, name@, p) && names(sorted@) == before.insert(p, name@);
            let done = names(list@).skip(k);
            assert(name@ == names(list@)[k - 1]);
            assert(names(list@).skip(k - 1) =~= done.insert(0, name@));
            vstd::seq_lib::to_multiset_insert(before, p, name@);
            vstd::seq_lib::to_multiset_insert(done, 0, name@);
            assert(rest@ =~= list@.take(k - 1));
        }
    }
    proof {
        assert(names(list@).skip(0) =~= names(list@));
    }
    sorted
}

/// Removes every element that equals the one before it.
pub fn dedup_names(list: Vec<String>) -> (kept: Vec<String>)
    ensures
        names(kept@) == dedup_adjacent(names(list@)),
{
    let mut kept: Vec<String> = Vec::new();
    for name in it: list
        invariant
            it.seq() == list@,
            names(kept@) == dedup_adjacent(names(list@).take(it.index() as int)),
            it.index() > 0 ==> kept@.len() > 0 && kept@.last()@ == list@[it.index() - 1]@,
    {
        let ghost i = it.index() as int;
        let ghost prefix = names(list@).take(i + 1);
        let ghost before = names(kept@);
        proof {
            assert(prefix.drop_last() =~= names(list@).take(i));
            assert(prefix.last() == name@);
        }
        let m: usize = kept.len();
        if m == 0 || kept[m - 1] != name {
            kept.push(name);
            proof {
                assert(names(kept@) =~= before.push(name@));
                if i == 0 {
                    assert(prefix =~= before.push(name@));
                }
            }
        }
    }
    proof {
        assert(names(list@).take(list@.len() as int) =~= names(list@));
    }
    kept
}

/// Sorts a list of names and drops the repetitions.
pub fn sorted_set(list: Vec<String>) -> (merged: Vec<String>)
    ensures
        is_sorted_set_of(names(merged@), names(list@)),
{
    let sorted = sort_names(list);
    proof {
        let before = names(list@);
        let mid = names(sorted@);
        lemma_dedup_of_ascending(mid);
        assert forall|x: Seq<char>| mid.contains(x) <==> before.contains(x) by {
            vstd::seq_lib::to_multiset_contains(mid, x);
            vstd::seq_lib::to_multiset_contains(before, x);
        }
    }
    dedup_names(sorted)
}

} // verus!
