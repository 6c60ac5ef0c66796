//! Registry entries, the mapping they stand for, and how that mapping follows
//! a change of the list.

use vstd::prelude::*;

verus! {

/// One registered session: the identifier the caller chose and the handle
/// the caller gave for it.
pub struct Entry<S> {
    pub id: String,
    pub session: S,
}

/// Whether no identifier occurs twice among `entries`.
pub open spec fn distinct_ids<S>(entries: Seq<Entry<S>>) -> bool {
    forall|i: int, j: int| 0 <= i < j < entries.len() ==> entries[i].id@ != entries[j].id@
}

/// Whether some entry carries `id`.
pub open spec fn holds_id<S>(entries: Seq<Entry<S>>, id: Seq<char>) -> bool {
    exists|i: int| 0 <= i < entries.len() && entries[i].id@ == id
}

/// An index at which `id` stands, where there is one.
pub open spec fn slot_of<S>(entries: Seq<Entry<S>>, id: Seq<char>) -> int {
    choose|i: int| 0 <= i < entries.len() && entries[i].id@ == id
}

/// How many entries carry `id`.
pub open spec fn count_id<S>(entries: Seq<Entry<S>>, id: Seq<char>) -> nat
    decreases entries.len(),
{
    if entries.len() == 0 {
        0
    } else {
        let earlier = count_id(entries.drop_last(), id);
        if entries.last().id@ == id {
            earlier + 1
        } else {
            earlier
        }
    }
}

/// The mapping from identifier to session that `entries` lists.
pub open spec fn as_map<S>(entries: Seq<Entry<S>>) -> Map<Seq<char>, S> {
    Map::new(
        |id: Seq<char>| holds_id(entries, id),
        |id: Seq<char>| entries[slot_of(entries, id)].session,
    )
}

/// With distinct identifiers, an entry's identifier leads back to its index.
pub proof fn lemma_slot<S>(entries: Seq<Entry<S>>, i: int)
    requires
        distinct_ids(entries),
        0 <= i < entries.len(),
    ensures
        holds_id(entries, entries[i].id@),
        slot_of(entries, entries[i].id@) == i,
        as_map(entries).contains_key(entries[i].id@),
        as_map(entries)[entries[i].id@] == entries[i].session,
{
    let id = entries[i].id@;
    assert(holds_id(entries, id));
    let j = slot_of(entries, id);
    assert(0 <= j < entries.len() && entries[j].id@ == id);
    if j != i {
        if j < i {
            assert(entries[j].id@ != entries[i].id@);
        } else {
            assert(entries[i].id@ != entries[j].id@);
        }
    }
}

/// Appending an entry under an unused identifier adds exactly that mapping.
pub proof fn lemma_push<S>(entries: Seq<Entry<S>>, entry: Entry<S>)
    requires
        distinct_ids(entries),
        !holds_id(entries, entry.id@),
    ensures
        distinct_ids(entries.push(entry)),
        as_map(entries.push(entry)) == as_map(entries).insert(entry.id@, entry.session),
{
    let grown = entries.push(entry);
    assert forall|i: int, j: int| 0 <= i < j < grown.len() implies grown[i].id@ != grown[j].id@ by {
        if j < entries.len() {
            assert(entries[i].id@ != entries[j].id@);
        } else {
            assert(grown[i] == entries[i]);
            if grown[i].id@ == entry.id@ {
                assert(holds_id(entries, entry.id@));
            }
        }
    }
    assert forall|id: Seq<char>| holds_id(grown, id) <==> (id == entry.id@ || holds_id(
        entries,
        id,
    )) by {
        if holds_id(grown, id) {
            let i = slot_of(grown, id);
            if i < entries.len() {
                assert(entries[i].id@ == id);
            }
        }
        if holds_id(entries, id) {
            let i = slot_of(entries, id);
            assert(grown[i].id@ == id);
        }
        if id == entry.id@ {
            assert(grown[entries.len() as int].id@ == id);
        }
    }
    assert forall|id: Seq<char>| holds_id(grown, id) implies #[trigger] as_map(grown)[id]
        == as_map(entries).insert(entry.id@, entry.session)[id] by {
        let i = slot_of(grown, id);
        lemma_slot(grown, i);
        if i < entries.len() {
            assert(grown[i] == entries[i]);
            lemma_slot(entries, i);
        }
    }
    assert(as_map(grown) =~= as_map(entries).insert(entry.id@, entry.session));
}

/// Taking the entry at `i` out removes exactly its mapping.
pub proof fn lemma_remove<S>(entries: Seq<Entry<S>>, i: int)
    requires
        distinct_ids(entries),
        0 <= i < entries.len(),
    ensures
        distinct_ids(entries.remove(i)),
        !holds_id(entries.remove(i), entries[i].id@),
        as_map(entries.remove(i)) == as_map(entries).remove(entries[i].id@),
{
    let rest = entries.remove(i);
    let gone = entries[i].id@;
    assert forall|a: int| 0 <= a < rest.len() implies #[trigger] rest[a] == entries[if a < i {
        a
    } else {
        a + 1
    }] by {}
    assert forall|a: int, b: int| 0 <= a < b < rest.len() implies rest[a].id@ != rest[b].id@ by {
        let a0 = if a < i { a } else { a + 1 };
        let b0 = if b < i { b } else { b + 1 };
        assert(rest[a] == entries[a0]);
        assert(rest[b] == entries[b0]);
        assert(entries[a0].id@ != entries[b0].id@);
    }
    assert forall|id: Seq<char>| holds_id(rest, id) <==> (id != gone && holds_id(entries, id)) by {
        if holds_id(rest, id) {
            let a = slot_of(rest, id);
            let a0 = if a < i { a } else { a + 1 };
            assert(rest[a] == entries[a0]);
            assert(entries[a0].id@ == id);
            if a0 < i {
                assert(entries[a0].id@ != entries[i].id@);
            } else {
                assert(entries[i].id@ != entries[a0].id@);
            }
        }
        if id != gone && holds_id(entries, id) {
            let a0 = slot_of(entries, id);
            let a = if a0 < i { a0 } else { a0 - 1 };
            assert(rest[a] == entries[a0]);
            assert(rest[a].id@ == id);
        }
    }
    assert forall|id: Seq<char>| holds_id(rest, id) implies #[trigger] as_map(rest)[id] == as_map(
        entries,
    )[id] by {
        let a = slot_of(rest, id);
        let a0 = if a < i { a } else { a + 1 };
        assert(rest[a] == entries[a0]);
        lemma_slot(rest, a);
        lemma_slot(entries, a0);
    }
    assert(as_map(rest) =~= as_map(entries).remove(gone));
}

/// Replacing the session at `i` changes exactly the mapping of its identifier.
pub proof fn lemma_update<S>(entries: Seq<Entry<S>>, i: int, session: S)
    requires
        distinct_ids(entries),
        0 <= i < entries.len(),
    ensures
        distinct_ids(entries.update(i, Entry { id: entries[i].id, session })),
        as_map(entries.update(i, Entry { id: entries[i].id, session })) == as_map(entries).insert(
            entries[i].id@,
            session,
        ),
{
    let changed = entries.update(i, Entry { id: entries[i].id, session });
    assert forall|a: int| 0 <= a < entries.len() implies #[trigger] changed[a].id@
        == entries[a].id@ by {}
    assert forall|a: int, b: int| 0 <= a < b < changed.len() implies changed[a].id@
        != changed[b].id@ by {
        assert(entries[a].id@ != entries[b].id@);
    }
    assert forall|id: Seq<char>| holds_id(changed, id) <==> holds_id(entries, id) by {
        if holds_id(changed, id) {
            let a = slot_of(changed, id);
            assert(entries[a].id@ == id);
        }
        if holds_id(entries, id) {
            let a = slot_of(entries, id);
            assert(changed[a].id@ == id);
        }
    }
    lemma_slot(entries, i);
    assert forall|id: Seq<char>| holds_id(changed, id) implies #[trigger] as_map(changed)[id]
        == as_map(entries).insert(entries[i].id@, session)[id] by {
        let a = slot_of(changed, id);
        lemma_slot(changed, a);
        lemma_slot(entries, a);
    }
    assert(as_map(changed) =~= as_map(entries).insert(entries[i].id@, session));
}


/// A list with distinct identifiers without its last entry: still distinct,
/// and the last identifier does not occur in it.
proof fn lemma_drop_last<S>(entries: Seq<Entry<S>>)
    requires
        distinct_ids(entries),
        entries.len() > 0,
    ensures
        distinct_ids(entries.drop_last()),
        !holds_id(entries.drop_last(), entries.last().id@),
        entries.drop_last().push(entries.last()) == entries,
{
    let front = entries.drop_last();
    assert forall|i: int, j: int| 0 <= i < j < front.len() implies front[i].id@ != front[j].id@ by {
        assert(entries[i].id@ != entries[j].id@);
    }
    if holds_id(front, entries.last().id@) {
        let i = slot_of(front, entries.last().id@);
        assert(entries[i].id@ != entries[entries.len() - 1].id@);
    }
    assert(front.push(entries.last()) =~= entries);
}

/// With distinct identifiers, an identifier is carried once or not at all.
pub proof fn lemma_count<S>(entries: Seq<Entry<S>>, id: Seq<char>)
    requires
        distinct_ids(entries),
    ensures
        count_id(entries, id) == if holds_id(entries, id) {
            1nat
        } else {
            0nat
        },
    decreases entries.len(),
{
    if entries.len() > 0 {
        let front = entries.drop_last();
        lemma_drop_last(entries);
        lemma_count(front, id);
        if entries.last().id@ == id {
            assert(entries[entries.len() - 1].id@ == id);
        } else if holds_id(front, id) {
            let i = slot_of(front, id);
            assert(entries[i].id@ == id);
        } else if holds_id(entries, id) {
            let i = slot_of(entries, id);
            assert(front[i].id@ == id);
        }
    }
}

/// With distinct identifiers, the mapping has as many keys as the list has entries.
pub proof fn lemma_size<S>(entries: Seq<Entry<S>>)
    requires
        distinct_ids(entries),
    ensures
        as_map(entries).dom().finite(),
        as_map(entries).dom().len() == entries.len(),
    decreases entries.len(),
{
    if entries.len() == 0 {
        assert(as_map(entries).dom() =~= Set::<Seq<char>>::empty());
    } else {
        let front = entries.drop_last();
        lemma_drop_last(entries);
        lemma_size(front);
        lemma_push(front, entries.last());
        assert(as_map(entries).dom() =~= as_map(front).dom().insert(entries.last().id@));
    }
}

} // verus!
