//! Lists of entries under text keys, in which a key is looked up from the
//! front and a value put under a key takes the place of the one that was there.

use vstd::prelude::*;

verus! {

/// The position of the entry with the key `key`, looked for from `from` on.
pub open spec fn position_from<V>(entries: Seq<(Seq<char>, V)>, key: Seq<char>, from: int) -> Option<
    int,
>
    decreases entries.len() - from,
{
    if from < 0 || from >= entries.len() {
        None
    } else if entries[from].0 == key {
        Some(from)
    } else {
        position_from(entries, key, from + 1)
    }
}

/// The position of the entry with the key `key`.
pub open spec fn position_of<V>(entries: Seq<(Seq<char>, V)>, key: Seq<char>) -> Option<int> {
    position_from(entries, key, 0)
}

/// The entries after `value` was put under `key`: in the place of the entry
/// that had the key, or at the end where none had it.
pub open spec fn inserted<V>(entries: Seq<(Seq<char>, V)>, key: Seq<char>, value: V) -> Seq<
    (Seq<char>, V),
> {
    match position_of(entries, key) {
        Some(i) => entries.update(i, (key, value)),
        None => entries.push((key, value)),
    }
}

/// The keys of the entries, in order.
pub open spec fn keys_of<V>(entries: Seq<(Seq<char>, V)>) -> Seq<Seq<char>> {
    Seq::new(entries.len(), |i: int| entries[i].0)
}

/// The value under `key`, where an entry has that key.
pub open spec fn value_of<V>(entries: Seq<(Seq<char>, V)>, key: Seq<char>) -> Option<V> {
    match position_of(entries, key) {
        Some(i) => Some(entries[i].1),
        None => None,
    }
}

/// The entries made of the first `n` pairs, each put under its key in turn.
pub open spec fn collected<V>(pairs: Seq<(Seq<char>, V)>, n: int) -> Seq<(Seq<char>, V)>
    decreases n,
{
    if n <= 0 || n > pairs.len() {
        Seq::empty()
    } else {
        inserted(collected(pairs, n - 1), pairs[n - 1].0, pairs[n - 1].1)
    }
}

/// The entries made of all the pairs, each put under its key in turn.
pub open spec fn gathered<V>(pairs: Seq<(Seq<char>, V)>) -> Seq<(Seq<char>, V)> {
    collected(pairs, pairs.len() as int)
}

/// What `position_from` returns has the key, and is the first such position
/// from `from` on; where it returns nothing no entry from `from` on has the key.
pub proof fn lemma_position_from<V>(entries: Seq<(Seq<char>, V)>, key: Seq<char>, from: int)
    requires
        0 <= from,
    ensures
        match position_from(entries, key, from) {
            Some(i) => from <= i < entries.len() && entries[i].0 == key && forall|j: int|
                from <= j < i ==> entries[j].0 != key,
            None => forall|j: int| from <= j < entries.len() ==> entries[j].0 != key,
        },
    decreases entries.len() - from,
{
    if from < entries.len() && entries[from].0 != key {
        lemma_position_from(entries, key, from + 1);
    }
}

/// Putting a value under a key keeps the keys distinct; the key is there
/// afterwards with that value, and every other key keeps its value.
pub proof fn lemma_inserted<V>(entries: Seq<(Seq<char>, V)>, key: Seq<char>, value: V)
    requires
        keys_of(entries).no_duplicates(),
    ensures
        keys_of(inserted(entries, key, value)).no_duplicates(),
        value_of(inserted(entries, key, value), key) == Some(value),
        forall|other: Seq<char>|
            other != key ==> value_of(inserted(entries, key, value), other) == value_of(
                entries,
                other,
            ),
        keys_of(inserted(entries, key, value)).to_set() == keys_of(entries).to_set().insert(key),
{
    let after = inserted(entries, key, value);
    lemma_position_from(entries, key, 0);
    lemma_position_from(after, key, 0);
    match position_of(entries, key) {
        Some(i) => {
            assert(keys_of(after) =~= keys_of(entries));
            assert(keys_of(entries)[i] == key);
            assert(keys_of(after).to_set() =~= keys_of(entries).to_set().insert(key));
            assert(after[i].0 == key);
            match position_of(after, key) {
                Some(j) => {
                    assert(keys_of(after)[j] == key);
                    assert(keys_of(after)[i] == key);
                },
                None => {},
            }
        },
        None => {
            assert(keys_of(after) =~= keys_of(entries).push(key));
            assert forall|a: int, b: int|
                0 <= a < keys_of(after).len() && 0 <= b < keys_of(after).len() && a != b implies keys_of(
                after,
            )[a] != keys_of(after)[b] by {
                if a < entries.len() {
                    assert(keys_of(entries)[a] == keys_of(after)[a]);
                }
                if b < entries.len() {
                    assert(keys_of(entries)[b] == keys_of(after)[b]);
                }
            }
            assert forall|k: Seq<char>| #[trigger]
                keys_of(after).to_set().contains(k) == keys_of(entries).to_set().insert(
                    key,
                ).contains(k) by {
                if keys_of(after).contains(k) {
                    let a = choose|a: int| 0 <= a < keys_of(after).len() && keys_of(after)[a] == k;
                    if a < entries.len() {
                        assert(keys_of(entries)[a] == k);
                    }
                }
                if keys_of(entries).contains(k) {
                    let a = choose|a: int|
                        0 <= a < keys_of(entries).len() && keys_of(entries)[a] == k;
                    assert(keys_of(after)[a] == k);
                }
                if k == key {
                    assert(keys_of(after)[entries.len() as int] == k);
                }
            }
            assert(keys_of(after).to_set() =~= keys_of(entries).to_set().insert(key));
            assert(after[entries.len() as int].0 == key);
        },
    }
    assert forall|other: Seq<char>| other != key implies value_of(after, other) == value_of(
        entries,
        other,
    ) by {
        lemma_position_from(entries, other, 0);
        lemma_position_from(after, other, 0);
        match position_of(entries, other) {
            Some(a) => {
                assert(after[a].0 == other);
                match position_of(after, other) {
                    Some(b) => {
                        assert(b <= a);
                        if b < a {
                            assert(entries[b].0 == other);
                        }
                    },
                    None => {},
                }
            },
            None => {
                match position_of(after, other) {
                    Some(b) => {
                        assert(b < entries.len());
                        assert(entries[b].0 == after[b].0);
                    },
                    None => {},
                }
            },
        }
    }
}

/// Every entry made of the first `n` pairs is one of those pairs; no key occurs
/// twice among the entries; their keys are the keys of those pairs; and a pair
/// that no later one of them shares its key with is found under its key.
pub proof fn lemma_collected<V>(pairs: Seq<(Seq<char>, V)>, n: int)
    requires
        0 <= n <= pairs.len(),
    ensures
        keys_of(collected(pairs, n)).no_duplicates(),
        keys_of(collected(pairs, n)).to_set() == keys_of(pairs.take(n)).to_set(),
        forall|j: int|
            0 <= j < collected(pairs, n).len() ==> exists|i: int|
                0 <= i < n && #[trigger] collected(pairs, n)[j] == pairs[i],
        forall|i: int|
            0 <= i < n && (forall|j: int| i < j < n ==> pairs[j].0 != pairs[i].0) ==> value_of(
                collected(pairs, n),
                #[trigger] pairs[i].0,
            ) == Some(pairs[i].1),
    decreases n,
{
    if n == 0 {
        assert(keys_of(collected(pairs, n)) =~= Seq::empty());
        assert(keys_of(pairs.take(n)) =~= Seq::empty());
    } else {
        let before = collected(pairs, n - 1);
        let after = collected(pairs, n);
        let key = pairs[n - 1].0;
        let value = pairs[n - 1].1;
        lemma_collected(pairs, n - 1);
        lemma_inserted(before, key, value);
        lemma_position_from(before, key, 0);
        assert(keys_of(pairs.take(n)) =~= keys_of(pairs.take(n - 1)).push(key));
        assert(keys_of(pairs.take(n)).to_set() =~= keys_of(pairs.take(n - 1)).to_set().insert(key))
            by {
            let longer = keys_of(pairs.take(n));
            let shorter = keys_of(pairs.take(n - 1));
            assert forall|k: Seq<char>| #[trigger]
                longer.to_set().contains(k) == shorter.to_set().insert(key).contains(k) by {
                if longer.contains(k) {
                    let a = choose|a: int| 0 <= a < longer.len() && longer[a] == k;
                    if a < n - 1 {
                        assert(shorter[a] == k);
                    }
                }
                if shorter.contains(k) {
                    let a = choose|a: int| 0 <= a < shorter.len() && shorter[a] == k;
                    assert(longer[a] == k);
                }
                if k == key {
                    assert(longer[n - 1] == k);
                }
            }
        }
        assert forall|j: int| 0 <= j < after.len() implies exists|i: int|
            0 <= i < n && #[trigger] after[j] == pairs[i] by {
            if j < before.len() && after[j] == before[j] {
                let i = choose|i: int| 0 <= i < n - 1 && before[j] == pairs[i];
                assert(after[j] == pairs[i]);
            } else {
                assert(after[j] == pairs[n - 1]);
            }
        }
        assert forall|i: int|
            0 <= i < n && (forall|j: int| i < j < n ==> pairs[j].0 != pairs[i].0) implies value_of(
            after,
            #[trigger] pairs[i].0,
        ) == Some(pairs[i].1) by {
            if i < n - 1 {
                assert(pairs[n - 1].0 != pairs[i].0);
            }
        }
    }
}

} // verus!
