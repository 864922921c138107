//! Items under numbers, kept in the order of the numbers.

use vstd::prelude::*;

verus! {

/// Where the entry with a number stands, or would stand, among entries from `from` on.
pub open spec fn place<V>(entries: Seq<(u64, V)>, number: u64, from: int) -> int
    decreases entries.len() - from,
{
    if from < 0 || from >= entries.len() || entries[from].0 >= number {
        from
    } else {
        place(entries, number, from + 1)
    }
}

/// Whether there is an entry with a number.
pub open spec fn holds_number<V>(entries: Seq<(u64, V)>, number: u64) -> bool {
    place(entries, number, 0) < entries.len() && entries[place(entries, number, 0)].0 == number
}

/// The item under a number.
pub open spec fn item_of<V>(entries: Seq<(u64, V)>, number: u64) -> V {
    entries[place(entries, number, 0)].1
}

/// The entries with an item put under a number, in place of one that was there.
pub open spec fn with_item<V>(entries: Seq<(u64, V)>, number: u64, item: V) -> Seq<(u64, V)> {
    if holds_number(entries, number) {
        entries.update(place(entries, number, 0), (number, item))
    } else {
        entries.insert(place(entries, number, 0), (number, item))
    }
}

/// The entries without the one with a number.
pub open spec fn without<V>(entries: Seq<(u64, V)>, number: u64) -> Seq<(u64, V)> {
    if holds_number(entries, number) {
        entries.remove(place(entries, number, 0))
    } else {
        entries
    }
}

/// Whether each number stands once, and the numbers go up.
pub open spec fn ordered<V>(entries: Seq<(u64, V)>) -> bool {
    forall|i: int, j: int|
        0 <= i < j < entries.len() ==> (#[trigger] entries[i]).0 < (#[trigger] entries[j]).0
}

/// Whether there is an entry, wherever it stands.
pub open spec fn lists<V>(entries: Seq<(u64, V)>, number: u64, item: V) -> bool {
    exists|i: int| 0 <= i < entries.len() && #[trigger] entries[i] == (number, item)
}

pub proof fn lemma_place<V>(entries: Seq<(u64, V)>, number: u64, from: int)
    requires
        0 <= from <= entries.len(),
    ensures
        from <= place(entries, number, from) <= entries.len(),
        forall|i: int|
            from <= i < place(entries, number, from) ==> (#[trigger] entries[i]).0 < number,
        place(entries, number, from) < entries.len() ==> entries[place(entries, number, from)].0
            >= number,
    decreases entries.len() - from,
{
    if from < entries.len() && entries[from].0 < number {
        lemma_place(entries, number, from + 1);
    }
}

/// Putting an item under a number keeps the numbers in order, the item is found there, and nothing
/// changes under other numbers.
pub proof fn law_put<V>(entries: Seq<(u64, V)>, number: u64, item: V)
    requires
        ordered(entries),
    ensures
        ordered(with_item(entries, number, item)),
        holds_number(with_item(entries, number, item), number),
        item_of(with_item(entries, number, item), number) == item,
        forall|other: u64, v: V|
            other != number ==> (#[trigger] lists(with_item(entries, number, item), other, v)
                == lists(entries, other, v)),
{
    let at = place(entries, number, 0);
    lemma_place(entries, number, 0);
    let put = with_item(entries, number, item);
    lemma_place(put, number, 0);
    let found = holds_number(entries, number);
    assert(put[at] == (number, item));
    assert(forall|i: int| 0 <= i < at ==> put[i] == entries[i]);
    assert(forall|i: int|
        at < i < put.len() ==> put[i] == entries[if found {
            i
        } else {
            i - 1
        }]);
    assert(place(put, number, 0) == at) by {
        let k = place(put, number, 0);
        if k < at {
            assert(put[k] == entries[k]);
        }
    }
    assert forall|other: u64, v: V| other != number implies (#[trigger] lists(put, other, v)
        == lists(entries, other, v)) by {
        if lists(put, other, v) {
            let i = choose|i: int| 0 <= i < put.len() && #[trigger] put[i] == (other, v);
            assert(entries[if found || i < at {
                i
            } else {
                i - 1
            }] == (other, v));
        }
        if lists(entries, other, v) {
            let i = choose|i: int| 0 <= i < entries.len() && #[trigger] entries[i] == (other, v);
            assert(put[if found || i < at {
                i
            } else {
                i + 1
            }] == (other, v));
        }
    }
}

/// Taking the item under a number out keeps the numbers in order, leaves none there, and changes
/// nothing under other numbers.
pub proof fn law_taken<V>(entries: Seq<(u64, V)>, number: u64)
    requires
        ordered(entries),
    ensures
        ordered(without(entries, number)),
        !holds_number(without(entries, number), number),
        forall|other: u64, v: V|
            other != number ==> (#[trigger] lists(without(entries, number), other, v) == lists(
                entries,
                other,
                v,
            )),
{
    let at = place(entries, number, 0);
    lemma_place(entries, number, 0);
    let taken = without(entries, number);
    lemma_place(taken, number, 0);
    if holds_number(entries, number) {
        assert(forall|i: int| 0 <= i < at ==> taken[i] == entries[i]);
        assert(forall|i: int| at <= i < taken.len() ==> taken[i] == entries[i + 1]);
        assert forall|other: u64, v: V| other != number implies (#[trigger] lists(
            taken,
            other,
            v,
        ) == lists(entries, other, v)) by {
            if lists(taken, other, v) {
                let i = choose|i: int| 0 <= i < taken.len() && #[trigger] taken[i] == (other, v);
                assert(entries[if i < at {
                    i
                } else {
                    i + 1
                }] == (other, v));
            }
            if lists(entries, other, v) {
                let i = choose|i: int|
                    0 <= i < entries.len() && #[trigger] entries[i] == (other, v);
                assert(taken[if i < at {
                    i
                } else {
                    i - 1
                }] == (other, v));
            }
        }
    }
}

/// Where the entries stand after an item was put.
pub proof fn lemma_put_entries<V>(entries: Seq<(u64, V)>, number: u64, item: V)
    ensures
        ({
            let at = place(entries, number, 0);
            let put = with_item(entries, number, item);
            &&& 0 <= at < put.len()
            &&& put[at] == (number, item)
            &&& put.len() == entries.len() + if holds_number(entries, number) {
                0int
            } else {
                1
            }
            &&& forall|i: int|
                0 <= i < put.len() && i != at ==> #[trigger] put[i] == entries[if holds_number(
                    entries,
                    number,
                ) || i < at {
                    i
                } else {
                    i - 1
                }]
        }),
{
    lemma_place(entries, number, 0);
}

/// Where the entries stand after an item was taken.
pub proof fn lemma_taken_entries<V>(entries: Seq<(u64, V)>, number: u64)
    requires
        holds_number(entries, number),
    ensures
        ({
            let at = place(entries, number, 0);
            let taken = without(entries, number);
            &&& 0 <= at < entries.len()
            &&& taken.len() == entries.len() - 1
            &&& forall|i: int|
                0 <= i < taken.len() ==> #[trigger] taken[i] == entries[if i < at {
                    i
                } else {
                    i + 1
                }]
        }),
{
    lemma_place(entries, number, 0);
}

/// The place of a number among entries, and whether it is taken.
pub fn find<T: DeepView>(entries: &Vec<(u64, T)>, number: u64) -> (r: (usize, bool))
    ensures
        r.0 == place(entries.deep_view(), number, 0),
        r.0 <= entries@.len(),
        r.1 == holds_number(entries.deep_view(), number),
{
    let ghost all = entries.deep_view();
    let mut at: usize = 0;
    while at < entries.len() && entries[at].0 < number
        invariant
            at <= entries@.len(),
            all == entries.deep_view(),
            place(all, number, 0) == place(all, number, at as int),
        decreases entries@.len() - at,
    {
        assert(all[at as int] == entries@[at as int].deep_view());
        at += 1;
    }
    proof {
        if at < entries@.len() {
            assert(all[at as int] == entries@[at as int].deep_view());
        }
    }
    let found = at < entries.len() && entries[at].0 == number;
    (at, found)
}

/// Puts an item under a number, in place of one that was there.
pub fn put_item<T: DeepView>(entries: &mut Vec<(u64, T)>, number: u64, item: T)
    ensures
        final(entries).deep_view() == with_item(
            old(entries).deep_view(),
            number,
            item.deep_view(),
        ),
{
    let ghost before = entries.deep_view();
    let (at, found) = find(entries, number);
    if found {
        entries.set(at, (number, item));
        assert(entries.deep_view() =~= before.update(at as int, (number, item.deep_view())));
    } else {
        entries.insert(at, (number, item));
        assert(entries.deep_view() =~= before.insert(at as int, (number, item.deep_view())));
    }
}

/// Takes the item under a number out, if there is one.
pub fn take_item<T: DeepView>(entries: &mut Vec<(u64, T)>, number: u64) -> (r: Option<T>)
    ensures
        final(entries).deep_view() == without(old(entries).deep_view(), number),
        match r {
            Some(item) => holds_number(old(entries).deep_view(), number) && item.deep_view() == item_of(
                old(entries).deep_view(),
                number,
            ),
            None => !holds_number(old(entries).deep_view(), number),
        },
{
    let ghost before = entries.deep_view();
    let (at, found) = find(entries, number);
    if found {
        let entry = entries.remove(at);
        assert(before[at as int] == entry.deep_view());
        assert(entries.deep_view() =~= before.remove(at as int));
        Some(entry.1)
    } else {
        None
    }
}

} // verus!
