use vstd::prelude::*;

verus! {

/// No key occurs twice among the entries of a table.
pub open spec fn keys_distinct<T>(entries: Seq<(String, T)>) -> bool {
    forall|i: int, j: int|
        0 <= i < j < entries.len() ==> (#[trigger] entries[i]).0@ != (#[trigger] entries[j]).0@
}

/// The place of the first entry, from `from` on, that has the key.
pub open spec fn position_of<T>(entries: Seq<(String, T)>, key: Seq<char>, from: int) -> Option<
    int,
>
    decreases entries.len() - from,
{
    if from < 0 || from >= entries.len() {
        None
    } else if entries[from].0@ == key {
        Some(from)
    } else {
        position_of(entries, key, from + 1)
    }
}

/// The table with a value put under a key: in the place of the entry that
/// has the key, and behind the others where none has it.
pub open spec fn put_in<T>(entries: Seq<(String, T)>, key: String, value: T) -> Seq<(String, T)> {
    match position_of(entries, key@, 0) {
        Some(place) => entries.update(place, (key, value)),
        None => entries.push((key, value)),
    }
}

/// What [`position_of`] finds is the first entry with the key; where it
/// finds nothing, no entry has the key.
pub proof fn lemma_position_of<T>(entries: Seq<(String, T)>, key: Seq<char>, from: int)
    requires
        0 <= from,
    ensures
        match position_of(entries, key, from) {
            Some(place) => {
                &&& from <= place < entries.len()
                &&& entries[place].0@ == key
                &&& forall|i: int| from <= i < place ==> (#[trigger] entries[i]).0@ != key
            },
            None => forall|i: int| from <= i < entries.len() ==> (#[trigger] entries[i]).0@ != key,
        },
    decreases entries.len() - from,
{
    if from < entries.len() && entries[from].0@ != key {
        lemma_position_of(entries, key, from + 1);
    }
}

/// In a table without a key twice, the entry that has a key is the one
/// that is found for it.
pub proof fn lemma_distinct_key_is_found<T>(entries: Seq<(String, T)>, place: int)
    requires
        keys_distinct(entries),
        0 <= place < entries.len(),
    ensures
        position_of(entries, entries[place].0@, 0) == Some(place),
{
    lemma_position_of(entries, entries[place].0@, 0);
}

/// Putting a value under a key leaves no key twice where none was.
pub proof fn lemma_put_keeps_distinct<T>(entries: Seq<(String, T)>, key: String, value: T)
    requires
        keys_distinct(entries),
    ensures
        keys_distinct(put_in(entries, key, value)),
        position_of(put_in(entries, key, value), key@, 0) is Some,
{
    lemma_position_of(entries, key@, 0);
    let after = put_in(entries, key, value);
    match position_of(entries, key@, 0) {
        Some(place) => {
            assert(after[place].0@ == key@);
        },
        None => {
            assert(after[entries.len() as int].0@ == key@);
        },
    }
    lemma_position_of(after, key@, 0);
}

/// Puts a value under a key: an entry that has the key is replaced, and
/// the table gets a new entry where none has it.
pub fn put<T>(entries: &mut Vec<(String, T)>, key: String, value: T)
    ensures
        final(entries)@ == put_in(old(entries)@, key, value),
        keys_distinct(old(entries)@) ==> keys_distinct(final(entries)@),
{
    proof {
        if keys_distinct(entries@) {
            lemma_put_keeps_distinct(entries@, key, value);
        }
    }
    let mut index: usize = 0;
    while index < entries.len()
        invariant
            0 <= index <= entries.len(),
            *entries == *old(entries),
            position_of(entries@, key@, 0) == position_of(entries@, key@, index as int),
        decreases entries.len() - index,
    {
        if entries[index].0 == key {
            entries.set(index, (key, value));
            return ;
        }
        index += 1;
    }
    entries.push((key, value));
}

} // verus!
