//! Collections: what is put in is found, what is taken out is not, and the rest stays.

use crate::collections::{
    flagged, lemma_with, lemma_without, lookup, with, without, IdMap, StringMap, StringSet,
};
use crate::text::{lemma_text_order, text_less};
use vstd::prelude::*;

verus! {

/// A value that was put under a name is found there, and under every other name what was found before.
pub proof fn law_inserted_value_is_found<V>(
    map: &mut StringMap<V>,
    key: String,
    value: V,
    name: &str,
    before: Option<&V>,
    after: Option<&V>,
)
    requires
        call_ensures(StringMap::<V>::insert, (map, key, value), ()),
        call_ensures(StringMap::<V>::get, (&*old(map), name), before),
        call_ensures(StringMap::<V>::get, (&*final(map), name), after),
    ensures
        name@ == key@ ==> after is Some && *after->0 == value,
        name@ != key@ ==> (after is Some <==> before is Some) && (after is Some ==> *after->0 == *before->0),
{
}

/// A value that was taken away is given back and found no more, and the others stay.
pub proof fn law_removed_value_is_gone<V>(
    map: &mut StringMap<V>,
    key: &str,
    removed: Option<V>,
    name: &str,
    before: Option<&V>,
    after: Option<&V>,
)
    requires
        call_ensures(StringMap::<V>::remove, (map, key), removed),
        call_ensures(StringMap::<V>::get, (&*old(map), name), before),
        call_ensures(StringMap::<V>::get, (&*final(map), name), after),
    ensures
        name@ == key@ ==> after is None && (removed is Some <==> before is Some) && (removed is Some
            ==> removed->0 == *before->0),
        name@ != key@ ==> (after is Some <==> before is Some) && (after is Some ==> *after->0 == *before->0),
{
}

/// A map contains a name exactly if a value is found there, and a new one contains none.
pub proof fn law_contained_is_what_is_found<V>(
    map: &StringMap<V>,
    name: &str,
    found: bool,
    value: Option<&V>,
    fresh: StringMap<V>,
    in_fresh: bool,
)
    requires
        call_ensures(StringMap::<V>::contains, (map, name), found),
        call_ensures(StringMap::<V>::get, (map, name), value),
        call_ensures(StringMap::<V>::new, (), fresh),
        call_ensures(StringMap::<V>::contains, (&fresh, name), in_fresh),
    ensures
        found <==> value is Some,
        !in_fresh,
{
}

/// A set contains what was put in, no more what was taken out, and nothing once it was cleared.
pub proof fn law_set_contains_its_members(
    set: &mut StringSet,
    key: String,
    name: &str,
    before: bool,
    after: bool,
    then: &mut StringSet,
    gone: &str,
    removed: bool,
    at_last: bool,
    cleared: &mut StringSet,
    in_cleared: bool,
)
    requires
        call_ensures(StringSet::insert, (set, key), ()),
        call_ensures(StringSet::contains, (&*old(set), name), before),
        call_ensures(StringSet::contains, (&*final(set), name), after),
        *old(then) == *final(set),
        call_ensures(StringSet::remove, (then, gone), removed),
        call_ensures(StringSet::contains, (&*final(then), name), at_last),
        call_ensures(StringSet::clear, (cleared,), ()),
        call_ensures(StringSet::contains, (&*final(cleared), name), in_cleared),
    ensures
        after <==> before || name@ == key@,
        at_last <==> after && name@ != gone@,
        name@ == gone@ ==> removed == after,
        !in_cleared,
{
}

/// An entry that was put under a number is found there, and under every other what was found before.
pub proof fn law_entry_is_found_by_its_number<V>(
    map: &mut IdMap<V>,
    id: u64,
    value: V,
    other: u64,
    before: Option<&V>,
    after: Option<&V>,
)
    requires
        call_ensures(IdMap::<V>::insert, (map, id, value), ()),
        call_ensures(IdMap::<V>::get, (&*old(map), other), before),
        call_ensures(IdMap::<V>::get, (&*final(map), other), after),
    ensures
        other == id ==> after is Some && *after->0 == value,
        other != id ==> (after is Some <==> before is Some) && (after is Some ==> *after->0 == *before->0),
{
    lemma_with(old(map)@, id, value, other);
}

/// An entry that was taken away is given back and found no more, and the others stay.
pub proof fn law_removed_entry_is_gone<V>(
    map: &mut IdMap<V>,
    id: u64,
    removed: Option<V>,
    other: u64,
    before: Option<&V>,
    after: Option<&V>,
)
    requires
        call_ensures(IdMap::<V>::remove, (map, id), removed),
        call_ensures(IdMap::<V>::get, (&*old(map), other), before),
        call_ensures(IdMap::<V>::get, (&*final(map), other), after),
    ensures
        other == id ==> after is None && (removed is Some <==> before is Some) && (removed is Some
            ==> removed->0 == *before->0),
        other != id ==> (after is Some <==> before is Some) && (after is Some ==> *after->0 == *before->0),
{
    lemma_without(old(map)@, id, other);
}

/// The entry of a number is the last one that carries it.
pub proof fn law_last_entry_of_a_number_counts<V>(entries: Seq<(u64, V)>, id: u64, at: int)
    requires
        0 <= at < entries.len(),
        entries[at].0 == id,
        forall|i: int| at < i < entries.len() ==> (#[trigger] entries[i]).0 != id,
    ensures
        lookup(entries, id) == Some(entries[at].1),
    decreases entries.len(),
{
    if at < entries.len() - 1 {
        let rest = entries.drop_last();
        assert(entries[entries.len() - 1].0 != id);
        assert(forall|i: int| 0 <= i < rest.len() ==> rest[i] == #[trigger] entries[i]);
        law_last_entry_of_a_number_counts(rest, id, at);
    }
}

/// A number that no entry carries is not found.
pub proof fn law_unknown_number_is_not_found<V>(entries: Seq<(u64, V)>, id: u64)
    requires
        forall|i: int| 0 <= i < entries.len() ==> (#[trigger] entries[i]).0 != id,
    ensures
        lookup(entries, id) is None,
        without(entries, id) == entries,
        with(entries, id, arbitrary()) == entries.push((id, arbitrary())),
    decreases entries.len(),
{
    if entries.len() > 0 {
        let rest = entries.drop_last();
        assert(forall|i: int| 0 <= i < rest.len() ==> rest[i] == #[trigger] entries[i]);
        law_unknown_number_is_not_found(rest, id);
        assert(entries[entries.len() - 1].0 != id);
        assert(rest.push(entries.last()) =~= entries);
    }
}

/// Taking a number away keeps every entry with another number, in order.
pub proof fn law_others_keep_their_order<V>(entries: Seq<(u64, V)>, id: u64)
    ensures
        without(entries, id) == entries.filter(|entry: (u64, V)| entry.0 != id),
    decreases entries.len(),
{
    reveal(Seq::filter);
    if entries.len() > 0 {
        law_others_keep_their_order(entries.drop_last(), id);
    }
}

/// Of flagged items those stay whose flag is set, in order.
pub proof fn law_first_flag_decides_on_the_first_item<A>(items: Seq<A>, flags: Seq<bool>)
    requires
        items.len() > 0,
        flags.len() == items.len(),
    ensures
        flags[0] ==> flagged(items, flags) == seq![items[0]] + flagged(items.skip(1), flags.skip(1)),
        !flags[0] ==> flagged(items, flags) == flagged(items.skip(1), flags.skip(1)),
        flagged(items, flags).len() <= items.len(),
    decreases items.len(),
{
    assert(items.drop_first() =~= items.skip(1));
    assert(flags.drop_first() =~= flags.skip(1));
    if items.len() > 1 {
        law_first_flag_decides_on_the_first_item(items.skip(1), flags.skip(1));
    } else {
        assert(items.skip(1) =~= Seq::<A>::empty());
    }
}

/// The entries of a map are in the order of their names, and each is found by its name.
pub proof fn law_entries_stand_in_order<V>(
    map: &StringMap<V>,
    i: usize,
    first: &String,
    value: &V,
    j: usize,
    second: &String,
    name: &str,
    found: Option<&V>,
    n: usize,
    empty: bool,
)
    requires
        map.wf(),
        i < j < map.keys().len(),
        call_ensures(StringMap::<V>::key_at, (map, i), first),
        call_ensures(StringMap::<V>::value_at, (map, i), value),
        call_ensures(StringMap::<V>::key_at, (map, j), second),
        name@ == first@,
        call_ensures(StringMap::<V>::get, (map, name), found),
        call_ensures(StringMap::<V>::len, (map,), n),
        call_ensures(StringMap::<V>::is_empty, (map,), empty),
    ensures
        text_less(first@, second@),
        found is Some,
        *found->0 == *value,
        n == map.keys().len(),
        !empty,
{
    let keys = map.keys();
    assert(keys[i as int] == first@);
    assert(keys.contains(first@));
    let k = keys.index_of(first@);
    assert(0 <= k < keys.len() && keys[k] == first@);
    if k < i {
        assert(text_less(keys[k], keys[i as int]));
        lemma_text_order(first@, first@, first@);
    } else if i < k {
        assert(text_less(keys[i as int], keys[k]));
        lemma_text_order(first@, first@, first@);
    }
}

/// The entries of a numbered map are those that were put in.
pub proof fn law_numbered_entries_are_read_as_they_stand<V>(
    map: &IdMap<V>,
    i: usize,
    id: u64,
    value: &V,
    n: usize,
    kept: &mut IdMap<V>,
    flags: &Vec<bool>,
)
    requires
        i < map@.len(),
        call_ensures(IdMap::<V>::id_at, (map, i), id),
        call_ensures(IdMap::<V>::value_at, (map, i), value),
        call_ensures(IdMap::<V>::len, (map,), n),
        call_ensures(IdMap::<V>::retain_flagged, (kept, flags), ()),
    ensures
        map@[i as int] == (id, *value),
        n == map@.len(),
        final(kept)@ == flagged(old(kept)@, flags@),
{
}

/// The items of a set stand in order, each once.
pub proof fn law_items_stand_in_order(
    items: &StringSet,
    i: usize,
    first: &String,
    j: usize,
    second: &String,
)
    requires
        items.wf(),
        i < j < items.items().len(),
        call_ensures(StringSet::item_at, (items, i), first),
        call_ensures(StringSet::item_at, (items, j), second),
    ensures
        text_less(first@, second@),
        first@ != second@,
{
    items.lemma_sorted();
    let all = items.items();
    assert(text_less(all[i as int], all[j as int]));
    lemma_text_order(first@, second@, second@);
}

} // verus!
