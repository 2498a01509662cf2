//! Tallies and rankings: keys counted in the order first seen, and entries
//! ordered by count.
use crate::text::{owned, str_eq};
use vstd::prelude::*;

verus! {

/// Index of the first entry of `t` whose key is `k`, or -1.
pub open spec fn key_index<K>(t: Seq<(K, nat)>, k: K) -> int
    decreases t.len(),
{
    if t.len() == 0 {
        -1
    } else if t[0].0 == k {
        0
    } else {
        let r = key_index(t.drop_first(), k);
        if r < 0 {
            -1
        } else {
            r + 1
        }
    }
}

pub proof fn lemma_key_index<K>(t: Seq<(K, nat)>, k: K)
    ensures
        -1 <= key_index(t, k) < t.len(),
        key_index(t, k) >= 0 ==> t[key_index(t, k)].0 == k,
        key_index(t, k) < 0 ==> forall|j: int| 0 <= j < t.len() ==> t[j].0 != k,
    decreases t.len(),
{
    if t.len() > 0 && t[0].0 != k {
        lemma_key_index(t.drop_first(), k);
        if key_index(t, k) < 0 {
            assert forall|j: int| 0 <= j < t.len() implies t[j].0 != k by {
                if j > 0 {
                    assert(t[j] == t.drop_first()[j - 1]);
                }
            }
        }
    }
}

proof fn lemma_key_index_at<K>(t: Seq<(K, nat)>, k: K, i: int)
    requires
        0 <= i < t.len(),
        t[i].0 == k,
        forall|j: int| 0 <= j < i ==> t[j].0 != k,
    ensures
        key_index(t, k) == i,
    decreases t.len(),
{
    if i > 0 {
        assert forall|j: int| 0 <= j < i - 1 implies t.drop_first()[j].0 != k by {
            assert(t.drop_first()[j] == t[j + 1]);
        }
        lemma_key_index_at(t.drop_first(), k, i - 1);
    }
}

proof fn lemma_key_index_none<K>(t: Seq<(K, nat)>, k: K)
    requires
        forall|j: int| 0 <= j < t.len() ==> t[j].0 != k,
    ensures
        key_index(t, k) == -1,
    decreases t.len(),
{
    if t.len() > 0 {
        assert forall|j: int| 0 <= j < t.len() - 1 implies t.drop_first()[j].0 != k by {
            assert(t.drop_first()[j] == t[j + 1]);
        }
        lemma_key_index_none(t.drop_first(), k);
    }
}

/// `t` after one more sighting of `k`: its count goes up by one, or it is
/// appended with a count of one when it was not there yet.
pub open spec fn bump<K>(t: Seq<(K, nat)>, k: K) -> Seq<(K, nat)> {
    let i = key_index(t, k);
    if i >= 0 {
        t.update(i, (k, t[i].1 + 1))
    } else {
        t.push((k, 1nat))
    }
}

/// `t` after a sighting of each of `ks`, in order.
pub open spec fn bump_all<K>(t: Seq<(K, nat)>, ks: Seq<K>) -> Seq<(K, nat)>
    decreases ks.len(),
{
    if ks.len() == 0 {
        t
    } else {
        bump(bump_all(t, ks.drop_last()), ks.last())
    }
}

/// The tally of `ks`: each key once, in the order first seen, with the number
/// of times it occurs.
pub open spec fn tally<K>(ks: Seq<K>) -> Seq<(K, nat)> {
    bump_all(seq![], ks)
}

/// How many of `ks` equal `k`.
pub open spec fn occurrences<K>(ks: Seq<K>, k: K) -> nat
    decreases ks.len(),
{
    if ks.len() == 0 {
        0
    } else {
        occurrences(ks.drop_last(), k) + if ks.last() == k {
            1nat
        } else {
            0nat
        }
    }
}

/// No key stands twice in `t`.
pub open spec fn distinct_keys<K>(t: Seq<(K, nat)>) -> bool {
    forall|i: int, j: int| 0 <= i < j < t.len() ==> t[i].0 != t[j].0
}

proof fn lemma_bump_other<K>(t: Seq<(K, nat)>, k: K, other: K)
    requires
        other != k,
    ensures
        key_index(bump(t, other), k) == key_index(t, k),
        key_index(t, k) >= 0 ==> bump(t, other)[key_index(t, k)] == t[key_index(t, k)],
{
    lemma_key_index(t, k);
    lemma_key_index(t, other);
    let b = bump(t, other);
    let j = key_index(t, k);
    if j >= 0 {
        assert forall|m: int| 0 <= m < j implies b[m].0 != k by {
            if m != key_index(t, other) {
                assert(b[m] == t[m]);
                lemma_key_index_first(t, k, m);
            }
        }
        lemma_key_index_at(b, k, j);
    } else {
        lemma_key_index_none(b, k);
    }
}

proof fn lemma_key_index_first<K>(t: Seq<(K, nat)>, k: K, m: int)
    requires
        0 <= m < key_index(t, k),
    ensures
        t[m].0 != k,
    decreases t.len(),
{
    lemma_key_index(t, k);
    assert(t[0].0 != k);
    if m > 0 {
        lemma_key_index_first(t.drop_first(), k, m - 1);
        assert(t.drop_first()[m - 1] == t[m]);
    }
}

/// A tally counts each key exactly as often as it occurs, lists it if and
/// only if it occurs, and lists no key twice.
pub proof fn lemma_tally_counts<K>(ks: Seq<K>, k: K)
    ensures
        distinct_keys(tally(ks)),
        (key_index(tally(ks), k) >= 0) == (occurrences(ks, k) > 0),
        key_index(tally(ks), k) >= 0 ==> tally(ks)[key_index(tally(ks), k)].1 == occurrences(ks, k),
    decreases ks.len(),
{
    if ks.len() > 0 {
        let prev = ks.drop_last();
        lemma_tally_counts(prev, k);
        lemma_tally_counts(prev, ks.last());
        let t = tally(prev);
        assert(tally(ks) == bump(t, ks.last()));
        lemma_key_index(t, k);
        lemma_key_index(t, ks.last());
        let b = bump(t, ks.last());
        if ks.last() != k {
            lemma_bump_other(t, k, ks.last());
        } else {
            let i = key_index(t, k);
            if i >= 0 {
                assert forall|m: int| 0 <= m < i implies b[m].0 != k by {
                    lemma_key_index_first(t, k, m);
                }
                lemma_key_index_at(b, k, i);
            } else {
                lemma_key_index_at(b, k, t.len() as int);
            }
        }
        assert forall|i: int, j: int| 0 <= i < j < b.len() implies b[i].0 != b[j].0 by {}
    } else {
        assert(tally(ks) =~= Seq::<(K, nat)>::empty());
    }
}

/// The keys and counts of a tally held as strings and integers.
pub open spec fn counts_of(v: Seq<(String, u64)>) -> Seq<(Seq<char>, nat)> {
    v.map_values(|e: (String, u64)| (e.0@, e.1 as nat))
}

/// No count in `t` is above `n`.
pub open spec fn counts_at_most<K>(t: Seq<(K, nat)>, n: nat) -> bool {
    forall|i: int| 0 <= i < t.len() ==> #[trigger] t[i].1 <= n
}

/// A sighting raises no count by more than one.
pub proof fn lemma_bump_at_most<K>(t: Seq<(K, nat)>, k: K, n: nat)
    requires
        counts_at_most(t, n),
    ensures
        counts_at_most(bump(t, k), n + 1),
{
    lemma_key_index(t, k);
}

/// Position of the entry keyed `key`, if any.
fn find_key(t: &Vec<(String, u64)>, key: &str) -> (r: Option<usize>)
    ensures
        match r {
            Some(i) => key_index(counts_of(t@), key@) == i,
            None => key_index(counts_of(t@), key@) == -1,
        },
{
    let ghost c = counts_of(t@);
    let mut i: usize = 0;
    while i < t.len() && !str_eq(t[i].0.as_str(), key)
        invariant
            i <= t@.len(),
            c == counts_of(t@),
            forall|j: int| 0 <= j < i ==> c[j].0 != key@,
        decreases t@.len() - i,
    {
        i = i + 1;
    }
    if i < t.len() {
        proof {
            lemma_key_index_at(c, key@, i as int);
        }
        Some(i)
    } else {
        proof {
            lemma_key_index_none(c, key@);
        }
        None
    }
}

/// Counts one more sighting of `key`.
pub fn bump_count(t: &mut Vec<(String, u64)>, key: &str)
    requires
        forall|i: int| 0 <= i < old(t)@.len() ==> #[trigger] old(t)@[i].1 < u64::MAX,
    ensures
        counts_of(final(t)@) == bump(counts_of(old(t)@), key@),
{
    match find_key(t, key) {
        Some(i) => {
            proof {
                lemma_key_index(counts_of(t@), key@);
                assert(counts_of(t@)[i as int].1 == t@[i as int].1);
            }
            let c = t[i].1;
            t.set(i, (owned(key), c + 1));
            proof {
                assert(counts_of(t@) =~= bump(counts_of(old(t)@), key@));
            }
        },
        None => {
            t.push((owned(key), 1));
            proof {
                assert(counts_of(t@) =~= bump(counts_of(old(t)@), key@));
            }
        },
    }
}

pub proof fn lemma_room_to_count(v: Seq<(String, u64)>, n: nat)
    requires
        counts_at_most(counts_of(v), n),
        n < u64::MAX,
    ensures
        forall|i: int| 0 <= i < v.len() ==> #[trigger] v[i].1 < u64::MAX,
{
    assert forall|i: int| 0 <= i < v.len() implies #[trigger] v[i].1 < u64::MAX by {
        assert(counts_of(v)[i].1 == v[i].1);
    }
}

// ------------------------------------------------------------------ rankings

/// Counts do not go up from one entry to the next.
pub open spec fn descending<K>(t: Seq<(K, nat)>) -> bool {
    forall|i: int, j: int| 0 <= i < j < t.len() ==> t[i].1 >= t[j].1
}

/// `p` holds the entries of `t`, in some order with the counts descending.
pub open spec fn is_ranking<K>(p: Seq<(K, nat)>, t: Seq<(K, nat)>) -> bool {
    p.to_multiset() == t.to_multiset() && descending(p)
}

/// Inserting an entry after every entry with a count at least its own, and
/// before every entry with a smaller count, keeps the counts descending.
pub proof fn lemma_insert_descending<K>(before: Seq<(K, nat)>, pos: int, x: (K, nat))
    requires
        0 <= pos <= before.len(),
        descending(before),
        forall|j: int| 0 <= j < pos ==> before[j].1 >= x.1,
        forall|j: int| pos <= j < before.len() ==> before[j].1 < x.1,
    ensures
        descending(before.insert(pos, x)),
{
    let now = before.insert(pos, x);
    assert forall|a: int, b: int| 0 <= a < b < now.len() implies now[a].1 >= now[b].1 by {
        if b < pos {
            assert(now[a] == before[a] && now[b] == before[b]);
        } else if a > pos {
            assert(now[a] == before[a - 1] && now[b] == before[b - 1]);
        } else if a == pos {
            assert(now[b] == before[b - 1]);
        } else if b == pos {
            assert(now[a] == before[a]);
        } else {
            assert(now[a] == before[a] && now[b] == before[b - 1]);
        }
    }
}

/// The entries of `t` ordered by count, highest first, entries of equal count
/// kept in their order (a stable sort).
fn ranked(t: &Vec<(String, u64)>) -> (r: Vec<(String, u64)>)
    ensures
        is_ranking(counts_of(r@), counts_of(t@)),
{
    broadcast use vstd::seq_lib::group_to_multiset_ensures;

    let ghost c = counts_of(t@);
    let mut sorted: Vec<(String, u64)> = Vec::new();
    let mut i: usize = 0;
    proof {
        assert(c.take(0) =~= Seq::<(Seq<char>, nat)>::empty());
        assert(counts_of(sorted@) =~= Seq::<(Seq<char>, nat)>::empty());
    }
    while i < t.len()
        invariant
            i <= t@.len(),
            c == counts_of(t@),
            descending(counts_of(sorted@)),
            counts_of(sorted@).to_multiset() == c.take(i as int).to_multiset(),
        decreases t@.len() - i,
    {
        let count = t[i].1;
        let mut pos: usize = 0;
        while pos < sorted.len() && sorted[pos].1 >= count
            invariant
                pos <= sorted@.len(),
                forall|j: int| 0 <= j < pos ==> sorted@[j].1 >= count,
            decreases sorted@.len() - pos,
        {
            pos = pos + 1;
        }
        let ghost before = counts_of(sorted@);
        let entry = (owned(t[i].0.as_str()), count);
        proof {
            assert(c[i as int] == (entry.0@, entry.1 as nat));
            assert forall|j: int| pos <= j < before.len() implies before[j].1 < count by {
                assert(before[pos as int].1 < count);
                assert(before[pos as int].1 >= before[j].1);
            }
        }
        sorted.insert(pos, entry);
        proof {
            assert(counts_of(sorted@) =~= before.insert(pos as int, (entry.0@, entry.1 as nat)));
            assert(c.take(i + 1) =~= c.take(i as int).push(c[i as int]));
            vstd::seq_lib::to_multiset_insert(before, pos as int, c[i as int]);
            vstd::seq_lib::to_multiset_build(c.take(i as int), c[i as int]);
            lemma_insert_descending(before, pos as int, c[i as int]);
        }
        i = i + 1;
    }
    proof {
        assert(c.take(t@.len() as int) =~= c);
    }
    sorted
}

/// The first `n` entries of a ranking of `t`: the `n` highest counts, highest
/// first (all entries when `t` has fewer). Among entries of equal count, any
/// order is such a ranking.
pub fn top_entries(t: &Vec<(String, u64)>, n: usize) -> (r: Vec<(String, u64)>)
    ensures
        exists|p: Seq<(Seq<char>, nat)>|
            #![trigger is_ranking(p, counts_of(t@))]
            is_ranking(p, counts_of(t@)) && counts_of(r@) == p.take(
                if n <= t@.len() {
                    n as int
                } else {
                    t@.len() as int
                },
            ),
{
    let mut r = ranked(t);
    let ghost p = counts_of(r@);
    proof {
        assert(p.to_multiset().len() == counts_of(t@).to_multiset().len());
        vstd::seq_lib::to_multiset_len(p);
        vstd::seq_lib::to_multiset_len(counts_of(t@));
    }
    r.truncate(n);
    proof {
        if n <= t@.len() {
            assert(counts_of(r@) =~= p.take(n as int));
        } else {
            assert(counts_of(r@) =~= p.take(t@.len() as int));
        }
    }
    r
}

// ---------------------------------------------------------- numeric keys

/// The keys and counts of a tally keyed by numbers.
pub open spec fn id_counts_of(v: Seq<(u32, u64)>) -> Seq<(u32, nat)> {
    v.map_values(|e: (u32, u64)| (e.0, e.1 as nat))
}

/// Counts one more sighting of `key` in a tally keyed by numbers.
pub fn bump_id_count(t: &mut Vec<(u32, u64)>, key: u32)
    requires
        counts_at_most(id_counts_of(old(t)@), (u64::MAX - 1) as nat),
    ensures
        id_counts_of(final(t)@) == bump(id_counts_of(old(t)@), key),
{
    let ghost c = id_counts_of(t@);
    let mut i: usize = 0;
    while i < t.len() && t[i].0 != key
        invariant
            i <= t@.len(),
            c == id_counts_of(t@),
            forall|j: int| 0 <= j < i ==> c[j].0 != key,
        decreases t@.len() - i,
    {
        i = i + 1;
    }
    if i < t.len() {
        proof {
            lemma_key_index_at(c, key, i as int);
            assert(c[i as int].1 == t@[i as int].1);
        }
        let count = t[i].1;
        t.set(i, (key, count + 1));
        assert(id_counts_of(t@) =~= bump(c, key));
    } else {
        proof {
            lemma_key_index_none(c, key);
        }
        t.push((key, 1));
        assert(id_counts_of(t@) =~= bump(c, key));
    }
}

/// The entries of a tally keyed by numbers, ordered by count, highest first,
/// entries of equal count kept in their order.
pub fn ranked_ids(t: &Vec<(u32, u64)>) -> (r: Vec<(u32, u64)>)
    ensures
        is_ranking(id_counts_of(r@), id_counts_of(t@)),
{
    broadcast use vstd::seq_lib::group_to_multiset_ensures;

    let ghost c = id_counts_of(t@);
    let mut sorted: Vec<(u32, u64)> = Vec::new();
    let mut i: usize = 0;
    proof {
        assert(c.take(0) =~= Seq::<(u32, nat)>::empty());
        assert(id_counts_of(sorted@) =~= Seq::<(u32, nat)>::empty());
    }
    while i < t.len()
        invariant
            i <= t@.len(),
            c == id_counts_of(t@),
            descending(id_counts_of(sorted@)),
            id_counts_of(sorted@).to_multiset() == c.take(i as int).to_multiset(),
        decreases t@.len() - i,
    {
        let entry = t[i];
        let mut pos: usize = 0;
        while pos < sorted.len() && sorted[pos].1 >= entry.1
            invariant
                pos <= sorted@.len(),
                forall|j: int| 0 <= j < pos ==> sorted@[j].1 >= entry.1,
            decreases sorted@.len() - pos,
        {
            pos = pos + 1;
        }
        let ghost before = id_counts_of(sorted@);
        proof {
            assert(c[i as int] == (entry.0, entry.1 as nat));
            assert forall|j: int| pos <= j < before.len() implies before[j].1 < entry.1 by {
                assert(before[pos as int].1 < entry.1);
                assert(before[pos as int].1 >= before[j].1);
            }
        }
        sorted.insert(pos, entry);
        proof {
            assert(id_counts_of(sorted@) =~= before.insert(pos as int, c[i as int]));
            assert(c.take(i + 1) =~= c.take(i as int).push(c[i as int]));
            vstd::seq_lib::to_multiset_insert(before, pos as int, c[i as int]);
            vstd::seq_lib::to_multiset_build(c.take(i as int), c[i as int]);
            lemma_insert_descending(before, pos as int, c[i as int]);
        }
        i = i + 1;
    }
    proof {
        assert(c.take(t@.len() as int) =~= c);
    }
    sorted
}

} // verus!
