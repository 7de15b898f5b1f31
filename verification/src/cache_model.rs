//! What holds of the sequences by which the circuit cache is described:
//! how looking up, dropping and storing names act on a sequence of entries
//! with distinct names.

use vstd::prelude::*;
use crate::circuit_breaker::CircuitState;
use crate::circuit_cache::{lookup, promoted, stored, without, Entries};

verus! {

/// No two entries share a skill name.
pub open spec fn distinct_keys(entries: Entries) -> bool {
    forall|i: int, j: int|
        0 <= i < j < entries.len() ==> (#[trigger] entries[i]).0 != (#[trigger] entries[j]).0
}

/// Whether some entry is stored under `key`.
pub open spec fn has_key(entries: Entries, key: Seq<char>) -> bool {
    exists|i: int| 0 <= i < entries.len() && (#[trigger] entries[i]).0 == key
}

/// `lookup` finds an entry exactly when one is stored under the key, and
/// what it finds is an entry of the sequence.
pub proof fn lemma_lookup(entries: Entries, key: Seq<char>)
    ensures
        lookup(entries, key) is Some <==> has_key(entries, key),
        lookup(entries, key) is Some ==> entries.contains((key, lookup(entries, key)->0)),
    decreases entries.len(),
{
    if entries.len() == 0 {
    } else if entries[0].0 == key {
        assert(entries[0] == (key, entries[0].1));
    } else {
        let rest = entries.drop_first();
        lemma_lookup(rest, key);
        if has_key(rest, key) {
            let i = choose|i: int| 0 <= i < rest.len() && (#[trigger] rest[i]).0 == key;
            assert(entries[i + 1] == rest[i]);
            let found = (key, lookup(rest, key)->0);
            let k = choose|k: int| 0 <= k < rest.len() && rest[k] == found;
            assert(entries[k + 1] == found);
        }
        if has_key(entries, key) {
            let i = choose|i: int| 0 <= i < entries.len() && (#[trigger] entries[i]).0 == key;
            assert(rest[i - 1] == entries[i]);
        }
    }
}

/// With distinct names, the entry at index `i` is the one that `lookup`
/// finds under its name.
pub proof fn lemma_lookup_at(entries: Entries, i: int)
    requires
        distinct_keys(entries),
        0 <= i < entries.len(),
    ensures
        lookup(entries, entries[i].0) == Some(entries[i].1),
    decreases entries.len(),
{
    if i == 0 {
    } else {
        let rest = entries.drop_first();
        assert(entries[0].0 != entries[i].0);
        assert forall|a: int, b: int| 0 <= a < b < rest.len() implies (#[trigger] rest[a]).0 != (
        #[trigger] rest[b]).0 by {
            assert(rest[a] == entries[a + 1]);
            assert(rest[b] == entries[b + 1]);
        }
        assert(rest[i - 1] == entries[i]);
        lemma_lookup_at(rest, i - 1);
    }
}

/// What `without` keeps: exactly the entries under other names, in their
/// old order, so names stay distinct and nothing new appears.
pub proof fn lemma_without(entries: Entries, key: Seq<char>)
    ensures
        !has_key(without(entries, key), key),
        without(entries, key).len() <= entries.len(),
        forall|i: int|
            0 <= i < without(entries, key).len() ==> entries.contains(
                #[trigger] without(entries, key)[i],
            ),
        forall|other: Seq<char>|
            other != key ==> #[trigger] lookup(without(entries, key), other) == lookup(
                entries,
                other,
            ),
        distinct_keys(entries) ==> distinct_keys(without(entries, key)),
        !has_key(entries, key) ==> without(entries, key) == entries,
        distinct_keys(entries) && has_key(entries, key) ==> without(entries, key).len() + 1
            == entries.len(),
    decreases entries.len(),
{
    if entries.len() == 0 {
    } else {
        let rest = entries.drop_first();
        let kept = without(rest, key);
        lemma_without(rest, key);
        let out = without(entries, key);
        assert forall|i: int| 0 <= i < kept.len() implies entries.contains(#[trigger] kept[i]) by {
            let k = choose|k: int| 0 <= k < rest.len() && rest[k] == kept[i];
            assert(entries[k + 1] == kept[i]);
        }
        if distinct_keys(entries) {
            assert forall|a: int, b: int| 0 <= a < b < rest.len() implies (#[trigger] rest[a]).0
                != (#[trigger] rest[b]).0 by {
                assert(rest[a] == entries[a + 1]);
                assert(rest[b] == entries[b + 1]);
            }
        }
        if has_key(rest, key) {
            let i = choose|i: int| 0 <= i < rest.len() && (#[trigger] rest[i]).0 == key;
            assert(entries[i + 1] == rest[i]);
        }
        assert forall|other: Seq<char>| other != key implies #[trigger] lookup(out, other)
            == lookup(entries, other) by {
            assert(lookup(kept, other) == lookup(rest, other));
            if entries[0].0 != key {
                assert(out == seq![entries[0]] + kept);
                assert(out[0] == entries[0]);
                assert(out.drop_first() == kept);
            }
        }
        if entries[0].0 == key {
            assert(out == kept);
            if distinct_keys(entries) {
                if has_key(rest, key) {
                    let i = choose|i: int| 0 <= i < rest.len() && (#[trigger] rest[i]).0 == key;
                    assert(entries[i + 1] == rest[i]);
                    assert(entries[0].0 != entries[i + 1].0);
                }
            }
        } else {
            assert(out == seq![entries[0]] + kept);
            assert(out[0] == entries[0]);
            assert forall|i: int| 0 <= i < out.len() implies entries.contains(#[trigger] out[i]) by {
                if i > 0 {
                    assert(out[i] == kept[i - 1]);
                }
            }
            assert(out.drop_first() == kept);
            if has_key(out, key) {
                let i = choose|i: int| 0 <= i < out.len() && (#[trigger] out[i]).0 == key;
                assert(kept[i - 1] == out[i]);
            }
            if distinct_keys(entries) {
                assert forall|a: int, b: int| 0 <= a < b < out.len() implies (#[trigger] out[a]).0
                    != (#[trigger] out[b]).0 by {
                    if a == 0 {
                        assert(out[b] == kept[b - 1]);
                        let k = choose|k: int| 0 <= k < rest.len() && rest[k] == kept[b - 1];
                        assert(entries[k + 1] == rest[k]);
                    } else {
                        assert(out[a] == kept[a - 1]);
                        assert(out[b] == kept[b - 1]);
                    }
                }
            }
            if !has_key(entries, key) {
                if has_key(rest, key) {
                    let i = choose|i: int| 0 <= i < rest.len() && (#[trigger] rest[i]).0 == key;
                    assert(entries[i + 1] == rest[i]);
                }
                assert(out == entries);
            }
            if has_key(entries, key) {
                let i = choose|i: int| 0 <= i < entries.len() && (#[trigger] entries[i]).0 == key;
                assert(rest[i - 1] == entries[i]);
            }
        }
    }
}

/// Reading a name and then dropping it leaves what dropping it alone does.
pub proof fn lemma_without_promoted(entries: Entries, key: Seq<char>)
    ensures
        without(promoted(entries, key), key) == without(entries, key),
        lookup(promoted(entries, key), key) == lookup(entries, key),
        promoted(entries, key).len() == entries.len() || !distinct_keys(entries),
        distinct_keys(entries) ==> distinct_keys(promoted(entries, key)),
{
    lemma_without(entries, key);
    lemma_lookup(entries, key);
    match lookup(entries, key) {
        Some(state) => {
            let kept = without(entries, key);
            let front = seq![(key, state)] + kept;
            assert(front.drop_first() == kept);
            lemma_without(kept, key);
            lemma_front_distinct(kept, key, state);
        },
        None => {},
    }
}

/// Putting an entry in front of entries under other names keeps names
/// distinct.
pub proof fn lemma_front_distinct(rest: Entries, key: Seq<char>, state: CircuitState)
    requires
        !has_key(rest, key),
    ensures
        distinct_keys(rest) ==> distinct_keys(seq![(key, state)] + rest),
        lookup(seq![(key, state)] + rest, key) == Some(state),
        forall|other: Seq<char>|
            other != key ==> #[trigger] lookup(seq![(key, state)] + rest, other) == lookup(
                rest,
                other,
            ),
{
    let all = seq![(key, state)] + rest;
    assert(all.drop_first() == rest);
    if distinct_keys(rest) {
        assert forall|a: int, b: int| 0 <= a < b < all.len() implies (#[trigger] all[a]).0 != (
        #[trigger] all[b]).0 by {
            assert(all[b] == rest[b - 1]);
            if a > 0 {
                assert(all[a] == rest[a - 1]);
            }
        }
    }
}

/// What `stored` does to a cache with distinct names that respects its
/// limit: both are kept, the stored state is found under its name, and
/// every other name keeps its state or, at the limit, is pushed out.
pub proof fn lemma_stored(entries: Entries, limit: nat, key: Seq<char>, state: CircuitState)
    requires
        distinct_keys(entries),
        entries.len() <= limit,
        limit >= 1,
    ensures
        distinct_keys(stored(entries, limit, key, state)),
        stored(entries, limit, key, state).len() <= limit,
        stored(entries, limit, key, state).len() >= 1,
        stored(entries, limit, key, state)[0] == (key, state),
        lookup(stored(entries, limit, key, state), key) == Some(state),
        forall|i: int|
            1 <= i < stored(entries, limit, key, state).len() ==> entries.contains(
                #[trigger] stored(entries, limit, key, state)[i],
            ),
        has_key(entries, key) ==> stored(entries, limit, key, state).len() == entries.len(),
        !has_key(entries, key) && entries.len() < limit ==> stored(entries, limit, key, state).len()
            == entries.len() + 1,
{
    lemma_lookup(entries, key);
    lemma_without(entries, key);
    let out = stored(entries, limit, key, state);
    if lookup(entries, key) is Some {
        let kept = without(entries, key);
        lemma_front_distinct(kept, key, state);
        assert forall|i: int| 1 <= i < out.len() implies entries.contains(#[trigger] out[i]) by {
            assert(out[i] == kept[i - 1]);
        }
    } else if entries.len() >= limit {
        let kept = entries.drop_last();
        assert(!has_key(kept, key)) by {
            if has_key(kept, key) {
                let i = choose|i: int| 0 <= i < kept.len() && (#[trigger] kept[i]).0 == key;
                assert(entries[i] == kept[i]);
            }
        }
        assert(distinct_keys(kept)) by {
            assert forall|a: int, b: int| 0 <= a < b < kept.len() implies (#[trigger] kept[a]).0
                != (#[trigger] kept[b]).0 by {
                assert(kept[a] == entries[a]);
                assert(kept[b] == entries[b]);
            }
        }
        lemma_front_distinct(kept, key, state);
        assert forall|i: int| 1 <= i < out.len() implies entries.contains(#[trigger] out[i]) by {
            assert(out[i] == kept[i - 1]);
            assert(kept[i - 1] == entries[i - 1]);
        }
    } else {
        lemma_front_distinct(entries, key, state);
        assert forall|i: int| 1 <= i < out.len() implies entries.contains(#[trigger] out[i]) by {
            assert(out[i] == entries[i - 1]);
        }
    }
}


/// Storing under a name that was just read gives what storing alone does.
pub proof fn lemma_stored_promoted(entries: Entries, limit: nat, key: Seq<char>, state: CircuitState)
    requires
        distinct_keys(entries),
    ensures
        stored(promoted(entries, key), limit, key, state) == stored(entries, limit, key, state),
{
    lemma_without_promoted(entries, key);
}

/// With distinct names, dropping the name of the entry at the seam of two
/// parts takes out exactly that entry.
pub proof fn lemma_without_seam(head: Entries, tail: Entries, key: Seq<char>)
    requires
        distinct_keys(head + tail),
        tail.len() > 0,
        tail[0].0 == key,
    ensures
        without(head + tail, key) == head + tail.drop_first(),
    decreases head.len(),
{
    let all = head + tail;
    if head.len() == 0 {
        assert(all == tail);
        let rest = tail.drop_first();
        assert(!has_key(rest, key)) by {
            if has_key(rest, key) {
                let i = choose|i: int| 0 <= i < rest.len() && (#[trigger] rest[i]).0 == key;
                assert(tail[i + 1] == rest[i]);
                assert(tail[0].0 != tail[i + 1].0);
            }
        }
        lemma_without(rest, key);
        assert(head + rest == rest);
    } else {
        assert(all[0] == head[0]);
        assert(all[head.len() as int] == tail[0]);
        assert(all[0].0 != all[head.len() as int].0);
        let shorter = head.drop_first();
        assert(all.drop_first() == shorter + tail);
        assert forall|a: int, b: int| 0 <= a < b < (shorter + tail).len() implies (#[trigger] (shorter
            + tail)[a]).0 != (#[trigger] (shorter + tail)[b]).0 by {
            assert((shorter + tail)[a] == all[a + 1]);
            assert((shorter + tail)[b] == all[b + 1]);
        }
        lemma_without_seam(shorter, tail, key);
        assert(seq![all[0]] + (shorter + tail.drop_first()) == head + tail.drop_first());
    }
}


/// Storing under one name leaves every other name with the state it had,
/// or pushes it out.
pub proof fn lemma_stored_other(
    entries: Entries,
    limit: nat,
    key: Seq<char>,
    state: CircuitState,
    other: Seq<char>,
)
    requires
        distinct_keys(entries),
        entries.len() <= limit,
        limit >= 1,
        other != key,
    ensures
        lookup(stored(entries, limit, key, state), other) is None || lookup(
            stored(entries, limit, key, state),
            other,
        ) == lookup(entries, other),
{
    let out = stored(entries, limit, key, state);
    lemma_stored(entries, limit, key, state);
    if lookup(out, other) is Some {
        lemma_lookup(out, other);
        let found = (other, lookup(out, other)->0);
        let i = choose|i: int| 0 <= i < out.len() && out[i] == found;
        assert(i >= 1);
        let k = choose|k: int| 0 <= k < entries.len() && entries[k] == out[i];
        lemma_lookup_at(entries, k);
    }
}

} // verus!
