//! Lists with the newest first, where items of the same age keep their order.

use vstd::prelude::*;

verus! {

/// A list, newest first, with one more item: behind every item that is at least as new.
pub open spec fn insert_newest<T>(sorted: Seq<T>, item: T, age: spec_fn(T) -> int) -> Seq<T>
    decreases sorted.len(),
{
    if sorted.len() == 0 || age(sorted.last()) >= age(item) {
        sorted.push(item)
    } else {
        insert_newest(sorted.drop_last(), item, age).push(sorted.last())
    }
}

/// The items, newest first.
pub open spec fn sort_newest<T>(items: Seq<T>, age: spec_fn(T) -> int) -> Seq<T>
    decreases items.len(),
{
    if items.len() == 0 {
        Seq::empty()
    } else {
        insert_newest(sort_newest(items.drop_last(), age), items.last(), age)
    }
}

/// Whether a list has its newest items first.
pub open spec fn is_newest_first<T>(items: Seq<T>, age: spec_fn(T) -> int) -> bool {
    forall|i: int, j: int|
        0 <= i < j < items.len() ==> age(#[trigger] items[i]) >= age(#[trigger] items[j])
}

/// Where an item is inserted: behind the last item that is at least as new.
pub proof fn lemma_insert_place<T>(sorted: Seq<T>, item: T, age: spec_fn(T) -> int, place: int)
    requires
        0 <= place <= sorted.len(),
        place == 0 || age(sorted[place - 1]) >= age(item),
        forall|i: int| place <= i < sorted.len() ==> age(#[trigger] sorted[i]) < age(item),
    ensures
        insert_newest(sorted, item, age) == sorted.insert(place, item),
    decreases sorted.len(),
{
    if place == sorted.len() {
        assert(sorted.insert(place, item) == sorted.push(item));
    } else {
        let first = sorted.drop_last();
        assert(age(sorted[sorted.len() - 1]) < age(item));
        assert forall|i: int| place <= i < first.len() implies age(#[trigger] first[i]) < age(
            item,
        ) by {
            assert(first[i] == sorted[i]);
        }
        lemma_insert_place(first, item, age, place);
        assert(first.insert(place, item).push(sorted.last()) == sorted.insert(place, item));
    }
}

proof fn lemma_insert_newest<T>(sorted: Seq<T>, item: T, age: spec_fn(T) -> int)
    requires
        is_newest_first(sorted, age),
    ensures
        is_newest_first(insert_newest(sorted, item, age), age),
        insert_newest(sorted, item, age).to_multiset() == sorted.to_multiset().insert(item),
        insert_newest(sorted, item, age).len() == sorted.len() + 1,
        forall|i: int|
            0 <= i <= sorted.len() ==> (#[trigger] insert_newest(sorted, item, age)[i]) == item
                || sorted.contains(insert_newest(sorted, item, age)[i]),
    decreases sorted.len(),
{
    broadcast use vstd::seq_lib::group_to_multiset_ensures;

    let inserted = insert_newest(sorted, item, age);
    if sorted.len() == 0 || age(sorted.last()) >= age(item) {
        assert forall|i: int, j: int| 0 <= i < j < inserted.len() implies age(
            #[trigger] inserted[i],
        ) >= age(#[trigger] inserted[j]) by {
            if j == sorted.len() {
                if i < sorted.len() - 1 {
                    assert(age(sorted[i]) >= age(sorted[sorted.len() - 1]));
                }
            } else {
                assert(inserted[i] == sorted[i] && inserted[j] == sorted[j]);
            }
        }
        assert forall|i: int| 0 <= i <= sorted.len() implies (#[trigger] inserted[i]) == item
            || sorted.contains(inserted[i]) by {
            if i < sorted.len() {
                assert(sorted[i] == inserted[i]);
            }
        }
    } else {
        let first = sorted.drop_last();
        assert forall|i: int, j: int| 0 <= i < j < first.len() implies age(#[trigger] first[i])
            >= age(#[trigger] first[j]) by {
            assert(first[i] == sorted[i] && first[j] == sorted[j]);
        }
        lemma_insert_newest(first, item, age);
        let rest = insert_newest(first, item, age);
        assert(inserted == rest.push(sorted.last()));
        assert(first.push(sorted.last()) == sorted);
        assert forall|i: int, j: int| 0 <= i < j < inserted.len() implies age(
            #[trigger] inserted[i],
        ) >= age(#[trigger] inserted[j]) by {
            if j == rest.len() {
                assert(inserted[i] == rest[i]);
                if rest[i] != item {
                    let at = choose|at: int| 0 <= at < first.len() && first[at] == rest[i];
                    assert(sorted[at] == rest[i]);
                    assert(age(sorted[at]) >= age(sorted[sorted.len() - 1]));
                }
            } else {
                assert(inserted[i] == rest[i] && inserted[j] == rest[j]);
            }
        }
        assert forall|i: int| 0 <= i <= sorted.len() implies (#[trigger] inserted[i]) == item
            || sorted.contains(inserted[i]) by {
            if i < rest.len() {
                assert(inserted[i] == rest[i]);
                if rest[i] != item {
                    let at = choose|at: int| 0 <= at < first.len() && first[at] == rest[i];
                    assert(sorted[at] == rest[i]);
                }
            } else {
                assert(sorted[sorted.len() - 1] == inserted[i]);
            }
        }
        assert(inserted.to_multiset() =~= sorted.to_multiset().insert(item));
    }
}

/// Sorting keeps every item and puts the newest first.
pub proof fn sorting_keeps_items_and_puts_newest_first<T>(items: Seq<T>, age: spec_fn(T) -> int)
    ensures
        is_newest_first(sort_newest(items, age), age),
        sort_newest(items, age).to_multiset() == items.to_multiset(),
        sort_newest(items, age).len() == items.len(),
    decreases items.len(),
{
    broadcast use vstd::seq_lib::group_to_multiset_ensures;

    if items.len() > 0 {
        sorting_keeps_items_and_puts_newest_first(items.drop_last(), age);
        lemma_insert_newest(sort_newest(items.drop_last(), age), items.last(), age);
        assert(items.drop_last().push(items.last()) == items);
    }
}

/// The items of an age, in their order.
pub open spec fn of_age<T>(items: Seq<T>, age: spec_fn(T) -> int, wanted: int) -> Seq<T>
    decreases items.len(),
{
    if items.len() == 0 {
        Seq::empty()
    } else if age(items.last()) == wanted {
        of_age(items.drop_last(), age, wanted).push(items.last())
    } else {
        of_age(items.drop_last(), age, wanted)
    }
}

proof fn lemma_inserted_of_age<T>(
    sorted: Seq<T>,
    item: T,
    age: spec_fn(T) -> int,
    wanted: int,
)
    ensures
        of_age(insert_newest(sorted, item, age), age, wanted) == (if age(item) == wanted {
            of_age(sorted, age, wanted).push(item)
        } else {
            of_age(sorted, age, wanted)
        }),
    decreases sorted.len(),
{
    let inserted = insert_newest(sorted, item, age);
    if sorted.len() == 0 || age(sorted.last()) >= age(item) {
        assert(inserted.drop_last() == sorted);
    } else {
        lemma_inserted_of_age(sorted.drop_last(), item, age, wanted);
        assert(inserted.drop_last() == insert_newest(sorted.drop_last(), item, age));
    }
}

/// Items of the same age keep their order when they are sorted.
pub proof fn equal_items_keep_their_order<T>(items: Seq<T>, age: spec_fn(T) -> int, wanted: int)
    ensures
        of_age(sort_newest(items, age), age, wanted) == of_age(items, age, wanted),
    decreases items.len(),
{
    if items.len() > 0 {
        equal_items_keep_their_order(items.drop_last(), age, wanted);
        lemma_inserted_of_age(sort_newest(items.drop_last(), age), items.last(), age, wanted);
    }
}

} // verus!
