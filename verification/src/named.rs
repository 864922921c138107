//! Items under names.

use crate::lists;
use crate::text;
use vstd::prelude::*;

verus! {

/// The position, from `from` on, of the entry with a name.
pub open spec fn position<V>(entries: Seq<(Seq<char>, V)>, name: Seq<char>, from: int) -> Option<int>
    decreases entries.len() - from,
{
    if from < 0 || from >= entries.len() {
        None
    } else if entries[from].0 == name {
        Some(from)
    } else {
        position(entries, name, from + 1)
    }
}

/// The items by their names.
pub open spec fn by_name<V>(entries: Seq<(Seq<char>, V)>) -> Map<Seq<char>, V> {
    Map::new(
        |name: Seq<char>| position(entries, name, 0) is Some,
        |name: Seq<char>| entries[position(entries, name, 0)->0].1,
    )
}

proof fn lemma_position<V>(entries: Seq<(Seq<char>, V)>, name: Seq<char>, from: int)
    requires
        0 <= from,
    ensures
        match position(entries, name, from) {
            Some(i) => from <= i < entries.len() && entries[i].0 == name && forall|j: int|
                from <= j < i ==> (#[trigger] entries[j]).0 != name,
            None => forall|j: int| from <= j < entries.len() ==> (#[trigger] entries[j]).0 != name,
        },
    decreases entries.len() - from,
{
    if from < entries.len() && entries[from].0 != name {
        lemma_position(entries, name, from + 1);
    }
}

proof fn lemma_put<V>(
    before: Seq<(Seq<char>, V)>,
    after: Seq<(Seq<char>, V)>,
    name: Seq<char>,
    item: V,
)
    requires
        match position(before, name, 0) {
            Some(i) => after == before.update(i, (name, item)),
            None => after == before.push((name, item)),
        },
    ensures
        by_name(after) == by_name(before).insert(name, item),
{
    assert forall|other: Seq<char>|
        (#[trigger] by_name(after).contains_key(other) == by_name(before).insert(
            name,
            item,
        ).contains_key(other)) && (by_name(after).contains_key(other) ==> by_name(after)[other]
            == by_name(before).insert(name, item)[other]) by {
        lemma_position(before, other, 0);
        lemma_position(after, other, 0);
        lemma_position(before, name, 0);
        let n = before.len() as int;
        match position(before, name, 0) {
            Some(i) => {
                assert(after[i] == (name, item));
                assert(forall|j: int| 0 <= j < n && j != i ==> after[j] == before[j]);
            },
            None => {
                assert(after[n] == (name, item));
                assert(forall|j: int| 0 <= j < n ==> after[j] == before[j]);
            },
        }
        if let Some(k) = position(before, other, 0) {
            assert(after[k].0 == other);
        }
        if let Some(k) = position(after, other, 0) {
            if k < n {
                assert(before[k].0 == other);
            }
        }
    }
    assert(by_name(after) =~= by_name(before).insert(name, item));
}

/// Where the item under a name stands, if there is one.
pub fn find<T: DeepView>(entries: &Vec<(String, T)>, name: &str) -> (r: Option<usize>)
    ensures
        match r {
            Some(i) => i < entries@.len() && by_name(entries.deep_view()).contains_key(name@)
                && by_name(entries.deep_view())[name@] == entries@[i as int].1.deep_view()
                && position(entries.deep_view(), name@, 0) == Some(i as int),
            None => !by_name(entries.deep_view()).contains_key(name@) && position(
                entries.deep_view(),
                name@,
                0,
            ) is None,
        },
{
    let ghost all = entries.deep_view();
    let mut i: usize = 0;
    while i < entries.len()
        invariant
            i <= entries@.len(),
            all == entries.deep_view(),
            position(all, name@, 0) == position(all, name@, i as int),
        decreases entries@.len() - i,
    {
        assert(all[i as int] == entries@[i as int].deep_view());
        if text::same(entries[i].0.as_str(), name) {
            return Some(i);
        }
        i += 1;
    }
    None
}

/// Puts an item under a name, in place of one that was there.
pub fn put<T: DeepView>(entries: &mut Vec<(String, T)>, name: &str, item: T)
    ensures
        by_name(final(entries).deep_view()) == by_name(old(entries).deep_view()).insert(
            name@,
            item.deep_view(),
        ),
{
    let ghost before = entries.deep_view();
    let entry = (name.to_owned(), item);
    match find(entries, name) {
        Some(i) => {
            entries.set(i, entry);
            assert(entries.deep_view() =~= before.update(i as int, entry.deep_view()));
        },
        None => {
            lists::push_item(entries, entry);
        },
    }
    proof {
        lemma_put(before, entries.deep_view(), name@, item.deep_view());
    }
}

} // verus!
