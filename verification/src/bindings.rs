//! Name-to-value bindings kept as a list in which a later entry for a name
//! hides the earlier ones. This is the model behind the label table and the
//! local variables of a frame.

use vstd::prelude::*;

verus! {

/// The value of the last entry for `name`, if there is one.
pub open spec fn lookup<V>(entries: Seq<(Seq<char>, V)>, name: Seq<char>) -> Option<V>
    decreases entries.len(),
{
    if entries.len() == 0 {
        None
    } else if entries.last().0 == name {
        Some(entries.last().1)
    } else {
        lookup(entries.drop_last(), name)
    }
}

/// The mapping that a list of entries stands for.
pub open spec fn as_map<V>(entries: Seq<(Seq<char>, V)>) -> Map<Seq<char>, V> {
    Map::new(
        |name: Seq<char>| lookup(entries, name) is Some,
        |name: Seq<char>| lookup(entries, name)->0,
    )
}

/// The empty list stands for the empty mapping.
pub proof fn lemma_empty<V>()
    ensures
        as_map(Seq::<(Seq<char>, V)>::empty()) == Map::<Seq<char>, V>::empty(),
{
    assert(as_map(Seq::<(Seq<char>, V)>::empty()) =~= Map::<Seq<char>, V>::empty());
}

/// One more entry at the end is an insertion.
pub proof fn lemma_push<V>(entries: Seq<(Seq<char>, V)>, name: Seq<char>, value: V)
    ensures
        as_map(entries.push((name, value))) == as_map(entries).insert(name, value),
{
    let longer = entries.push((name, value));
    assert(longer.drop_last() =~= entries);
    assert(as_map(longer) =~= as_map(entries).insert(name, value));
}

/// `lookup` finds the entry at `i` when no later entry has its name.
pub proof fn lemma_lookup_at<V>(entries: Seq<(Seq<char>, V)>, i: int)
    requires
        0 <= i < entries.len(),
        forall|j: int| i < j < entries.len() ==> entries[j].0 != entries[i].0,
    ensures
        lookup(entries, entries[i].0) == Some(entries[i].1),
    decreases entries.len(),
{
    if i < entries.len() - 1 {
        lemma_lookup_at(entries.drop_last(), i);
    }
}

/// `lookup` finds nothing when no entry has the name.
pub proof fn lemma_lookup_absent<V>(entries: Seq<(Seq<char>, V)>, name: Seq<char>)
    requires
        forall|j: int| 0 <= j < entries.len() ==> entries[j].0 != name,
    ensures
        lookup(entries, name) is None,
    decreases entries.len(),
{
    if entries.len() > 0 {
        lemma_lookup_absent(entries.drop_last(), name);
    }
}

/// Replacing the value of the last entry for a name is an insertion.
pub proof fn lemma_replace<V>(entries: Seq<(Seq<char>, V)>, i: int, value: V)
    requires
        0 <= i < entries.len(),
        forall|j: int| i < j < entries.len() ==> entries[j].0 != entries[i].0,
    ensures
        as_map(entries.update(i, (entries[i].0, value))) == as_map(entries).insert(
            entries[i].0,
            value,
        ),
{
    let name = entries[i].0;
    let changed = entries.update(i, (name, value));
    assert forall|other: Seq<char>| lookup(changed, other) == (if other == name {
        Some(value)
    } else {
        lookup(entries, other)
    }) by {
        lemma_replace_lookup(entries, i, value, other);
    }
    assert(as_map(changed) =~= as_map(entries).insert(name, value));
}

proof fn lemma_replace_lookup<V>(
    entries: Seq<(Seq<char>, V)>,
    i: int,
    value: V,
    other: Seq<char>,
)
    requires
        0 <= i < entries.len(),
        forall|j: int| i < j < entries.len() ==> entries[j].0 != entries[i].0,
    ensures
        lookup(entries.update(i, (entries[i].0, value)), other) == (if other == entries[i].0 {
            Some(value)
        } else {
            lookup(entries, other)
        }),
    decreases entries.len(),
{
    let changed = entries.update(i, (entries[i].0, value));
    if i == entries.len() - 1 {
        assert(changed.drop_last() =~= entries.drop_last());
    } else {
        assert(changed.drop_last() =~= entries.drop_last().update(i, (entries[i].0, value)));
        lemma_replace_lookup(entries.drop_last(), i, value, other);
    }
}

} // verus!
