use vstd::prelude::*;

use crate::text::same_text;

verus! {

/// A value that is filed under a key: a text that tells it from the others
/// in a collection.
pub trait Keyed {
    spec fn key(&self) -> Seq<char>;

    fn key_text(&self) -> (r: &str)
        ensures
            r@ == self.key(),
    ;
}

/// No two entries have the same key.
pub open spec fn distinct_ids<T: Keyed>(entries: Seq<T>) -> bool {
    forall|i: int, j: int|
        #![trigger entries[i], entries[j]]
        0 <= i < j < entries.len() ==> entries[i].key() != entries[j].key()
}

/// Whether one of the entries has the key `id`.
pub open spec fn holds<T: Keyed>(entries: Seq<T>, id: Seq<char>) -> bool {
    exists|i: int| 0 <= i < entries.len() && (#[trigger] entries[i]).key() == id
}

/// Where the entry of key `id` stands, if there is one.
pub open spec fn place_of<T: Keyed>(entries: Seq<T>, id: Seq<char>) -> int {
    choose|i: int| 0 <= i < entries.len() && (#[trigger] entries[i]).key() == id
}

/// The entry of key `id`, if there is one.
pub open spec fn held<T: Keyed>(entries: Seq<T>, id: Seq<char>) -> T {
    entries[place_of(entries, id)]
}

/// The entries without the one of key `id`.
pub open spec fn without<T: Keyed>(entries: Seq<T>, id: Seq<char>) -> Seq<T> {
    if holds(entries, id) {
        entries.remove(place_of(entries, id))
    } else {
        entries
    }
}

/// The entries with `entry` in the place of the one that has its key, or
/// at the end if there is none.
pub open spec fn with<T: Keyed>(entries: Seq<T>, entry: T) -> Seq<T> {
    if holds(entries, entry.key()) {
        entries.update(place_of(entries, entry.key()), entry)
    } else {
        entries.push(entry)
    }
}

/// The entries as a map from each key to its entry.
pub open spec fn by_key<T: Keyed>(entries: Seq<T>) -> Map<Seq<char>, T> {
    Map::new(|id: Seq<char>| holds(entries, id), |id: Seq<char>| held(entries, id))
}

/// Among distinct keys an entry is found where it stands.
pub proof fn lemma_place_of<T: Keyed>(entries: Seq<T>, i: int)
    requires
        distinct_ids(entries),
        0 <= i < entries.len(),
    ensures
        holds(entries, entries[i].key()),
        place_of(entries, entries[i].key()) == i,
        held(entries, entries[i].key()) == entries[i],
{
    let j = place_of(entries, entries[i].key());
    assert(0 <= j < entries.len() && entries[j].key() == entries[i].key());
    if j < i {
        assert(entries[j].key() != entries[i].key());
    } else if i < j {
        assert(entries[i].key() != entries[j].key());
    }
}

/// Taking an entry out leaves the keys distinct and takes out no other
/// entry.
pub proof fn lemma_without<T: Keyed>(entries: Seq<T>, id: Seq<char>)
    requires
        distinct_ids(entries),
    ensures
        distinct_ids(without(entries, id)),
        !holds(without(entries, id), id),
        forall|other: Seq<char>|
            other != id ==> (#[trigger] holds(without(entries, id), other) <==> holds(
                entries,
                other,
            )),
        forall|other: Seq<char>|
            other != id && holds(entries, other) ==> #[trigger] held(without(entries, id), other)
                == held(entries, other),
        by_key(without(entries, id)) == by_key(entries).remove(id),
{
    let after = without(entries, id);
    if holds(entries, id) {
        let p = place_of(entries, id);
        assert forall|i: int, j: int| 0 <= i < j < after.len() implies after[i].key()
            != after[j].key() by {
            let si = if i < p { i } else { i + 1 };
            let sj = if j < p { j } else { j + 1 };
            assert(after[i] == entries[si]);
            assert(after[j] == entries[sj]);
        }
        if holds(after, id) {
            let q = place_of(after, id);
            let sq = if q < p { q } else { q + 1 };
            assert(after[q] == entries[sq]);
            if sq < p {
                assert(entries[sq].key() != entries[p].key());
            } else {
                assert(entries[p].key() != entries[sq].key());
            }
        }
        assert forall|other: Seq<char>| other != id implies (#[trigger] holds(after, other)
            <==> holds(entries, other)) by {
            if holds(after, other) {
                let q = place_of(after, other);
                let sq = if q < p { q } else { q + 1 };
                assert(after[q] == entries[sq]);
            }
            if holds(entries, other) {
                let q = place_of(entries, other);
                let aq = if q < p { q } else { q - 1 };
                assert(after[aq] == entries[q]);
            }
        }
        assert forall|other: Seq<char>| other != id && holds(entries, other) implies #[trigger] held(
            after,
            other,
        ) == held(entries, other) by {
            let q = place_of(entries, other);
            let aq = if q < p { q } else { q - 1 };
            assert(after[aq] == entries[q]);
            lemma_place_of(after, aq);
        }
    }
    assert(by_key(after) =~= by_key(entries).remove(id));
}

/// Putting an entry in leaves the keys distinct, makes it the entry of its
/// key, and touches no other entry.
pub proof fn lemma_with<T: Keyed>(entries: Seq<T>, entry: T)
    requires
        distinct_ids(entries),
    ensures
        distinct_ids(with(entries, entry)),
        holds(with(entries, entry), entry.key()),
        held(with(entries, entry), entry.key()) == entry,
        forall|other: Seq<char>|
            other != entry.key() ==> (#[trigger] holds(with(entries, entry), other) <==> holds(
                entries,
                other,
            )),
        forall|other: Seq<char>|
            other != entry.key() && holds(entries, other) ==> #[trigger] held(
                with(entries, entry),
                other,
            ) == held(entries, other),
        by_key(with(entries, entry)) == by_key(entries).insert(entry.key(), entry),
{
    let after = with(entries, entry);
    let p = if holds(entries, entry.key()) {
        place_of(entries, entry.key())
    } else {
        entries.len() as int
    };
    assert(after[p] == entry);
    assert forall|i: int, j: int| 0 <= i < j < after.len() implies after[i].key()
        != after[j].key() by {
        if i != p && j != p {
            assert(after[i] == entries[i] && after[j] == entries[j]);
        } else if i == p {
            assert(after[j] == entries[j]);
            if holds(entries, entry.key()) {
                assert(entries[p].key() != entries[j].key());
            }
        } else {
            assert(after[i] == entries[i]);
            if holds(entries, entry.key()) {
                assert(entries[i].key() != entries[p].key());
            }
        }
    }
    lemma_place_of(after, p);
    assert forall|other: Seq<char>| other != entry.key() implies (#[trigger] holds(after, other)
        <==> holds(entries, other)) by {
        if holds(after, other) {
            let q = place_of(after, other);
            assert(after[q] == entries[q]);
        }
        if holds(entries, other) {
            let q = place_of(entries, other);
            assert(after[q] == entries[q]);
        }
    }
    assert forall|other: Seq<char>| other != entry.key() && holds(entries, other) implies #[trigger] held(
        after,
        other,
    ) == held(entries, other) by {
        let q = place_of(entries, other);
        assert(after[q] == entries[q]);
        lemma_place_of(after, q);
    }
    assert(by_key(after) =~= by_key(entries).insert(entry.key(), entry));
}

/// Where the first entry of key `id` stands in `entries`, if there is one.
/// Among distinct keys it is the only one.
pub fn position<T: Keyed>(entries: &Vec<T>, id: &str) -> (r: Option<usize>)
    ensures
        r is Some <==> holds(entries@, id@),
        r matches Some(i) ==> {
            &&& i < entries@.len()
            &&& entries@[i as int].key() == id@
            &&& forall|j: int| 0 <= j < i ==> (#[trigger] entries@[j]).key() != id@
            &&& distinct_ids(entries@) ==> i == place_of(entries@, id@)
        },
{
    let mut i: usize = 0;
    while i < entries.len()
        invariant
            i <= entries.len(),
            forall|j: int| 0 <= j < i ==> (#[trigger] entries@[j]).key() != id@,
        decreases entries.len() - i,
    {
        if same_text(entries[i].key_text(), id) {
            proof {
                if distinct_ids(entries@) {
                    lemma_place_of(entries@, i as int);
                }
            }
            return Some(i);
        }
        i += 1;
    }
    None
}

} // verus!
