use vstd::prelude::*;

use crate::table::Replicate;

verus! {

/// What choosing one more key adds to the chosen ones.
pub proof fn filter_step<A>(keys: Seq<A>, i: int, chosen: spec_fn(A) -> bool)
    requires
        0 <= i < keys.len(),
    ensures
        keys.take(i + 1).filter(chosen) == if chosen(keys[i]) {
            keys.take(i).filter(chosen).push(keys[i])
        } else {
            keys.take(i).filter(chosen)
        },
{
    reveal(Seq::filter);
    assert(keys.take(i + 1).drop_last() =~= keys.take(i));
}

/// Choosing from no keys gives none; choosing from all is choosing from the sequence.
pub proof fn filter_ends<A>(keys: Seq<A>, chosen: spec_fn(A) -> bool)
    ensures
        keys.take(0).filter(chosen) == Seq::<A>::empty(),
        keys.take(keys.len() as int) == keys,
{
    reveal(Seq::filter);
    assert(keys.take(0).filter(chosen) =~= Seq::<A>::empty());
    assert(keys.take(keys.len() as int) =~= keys);
}

/// The first key that meets a condition.
pub open spec fn first_where<A>(keys: Seq<A>, met: spec_fn(A) -> bool) -> Option<A>
    decreases keys.len(),
{
    if keys.len() == 0 {
        None
    } else if met(keys[0]) {
        Some(keys[0])
    } else {
        first_where(keys.drop_first(), met)
    }
}

/// The last key that meets a condition.
pub open spec fn last_where<A>(keys: Seq<A>, met: spec_fn(A) -> bool) -> Option<A>
    decreases keys.len(),
{
    if keys.len() == 0 {
        None
    } else if met(keys.last()) {
        Some(keys.last())
    } else {
        last_where(keys.drop_last(), met)
    }
}

/// Skipping a key that does not meet the condition does not change the first that does.
pub proof fn first_where_step<A>(keys: Seq<A>, i: int, met: spec_fn(A) -> bool)
    requires
        0 <= i < keys.len(),
    ensures
        first_where(keys.skip(i), met) == if met(keys[i]) {
            Some(keys[i])
        } else {
            first_where(keys.skip(i + 1), met)
        },
{
    assert(keys.skip(i).drop_first() =~= keys.skip(i + 1));
}

pub proof fn first_where_ends<A>(keys: Seq<A>, met: spec_fn(A) -> bool)
    ensures
        keys.skip(0) == keys,
        first_where(keys.skip(keys.len() as int), met) is None,
{
    assert(keys.skip(0) =~= keys);
}

pub proof fn last_where_step<A>(keys: Seq<A>, i: int, met: spec_fn(A) -> bool)
    requires
        0 <= i < keys.len(),
    ensures
        last_where(keys.take(i + 1), met) == if met(keys[i]) {
            Some(keys[i])
        } else {
            last_where(keys.take(i), met)
        },
{
    assert(keys.take(i + 1).drop_last() =~= keys.take(i));
}

pub proof fn last_where_ends<A>(keys: Seq<A>, met: spec_fn(A) -> bool)
    ensures
        keys.take(keys.len() as int) == keys,
        last_where(keys.take(0), met) is None,
{
    assert(keys.take(keys.len() as int) =~= keys);
}

/// A key that was found meets the condition and is one of the keys.
pub proof fn first_where_found<A>(keys: Seq<A>, met: spec_fn(A) -> bool)
    ensures
        first_where(keys, met) matches Some(key) ==> met(key) && keys.contains(key),
        first_where(keys, met) is None ==> forall|i: int|
            0 <= i < keys.len() ==> !met(#[trigger] keys[i]),
    decreases keys.len(),
{
    if keys.len() > 0 && !met(keys[0]) {
        let rest = keys.drop_first();
        first_where_found(rest, met);
        if first_where(rest, met) is Some {
            let i = choose|i: int| 0 <= i < rest.len() && rest[i] == first_where(rest, met).unwrap();
            assert(keys[i + 1] == first_where(rest, met).unwrap());
        } else {
            assert forall|i: int| 0 <= i < keys.len() implies !met(#[trigger] keys[i]) by {
                if i > 0 {
                    assert(keys[i] == rest[i - 1]);
                }
            }
        }
    }
}

pub proof fn last_where_found<A>(keys: Seq<A>, met: spec_fn(A) -> bool)
    ensures
        last_where(keys, met) matches Some(key) ==> met(key) && keys.contains(key),
        last_where(keys, met) is None ==> forall|i: int|
            0 <= i < keys.len() ==> !met(#[trigger] keys[i]),
    decreases keys.len(),
{
    if keys.len() > 0 && !met(keys.last()) {
        let rest = keys.drop_last();
        last_where_found(rest, met);
        if last_where(rest, met) is Some {
            let i = choose|i: int| 0 <= i < rest.len() && rest[i] == last_where(rest, met).unwrap();
            assert(keys[i] == last_where(rest, met).unwrap());
        } else {
            assert forall|i: int| 0 <= i < keys.len() implies !met(#[trigger] keys[i]) by {
                if i < keys.len() - 1 {
                    assert(keys[i] == rest[i]);
                }
            }
        }
    }
}

/// Values that can be put in order.
pub trait Ranked: Replicate {
    /// Whether the first value comes before the second.
    spec fn precedes(a: Self::V, b: Self::V) -> bool;

    fn comes_before(&self, other: &Self) -> (r: bool)
        ensures
            r == Self::precedes(self.deep_view(), other.deep_view()),
    ;
}

/// Where a value belongs: behind everything that it does not come before.
pub open spec fn place<T: Ranked>(items: Seq<T::V>, item: T::V) -> int
    decreases items.len(),
{
    if items.len() == 0 {
        0
    } else if T::precedes(item, items.last()) {
        place::<T>(items.drop_last(), item)
    } else {
        items.len() as int
    }
}

/// The values in order. Values that neither precede each other stay as they were.
pub open spec fn arranged<T: Ranked>(items: Seq<T::V>) -> Seq<T::V>
    decreases items.len(),
{
    if items.len() == 0 {
        Seq::empty()
    } else {
        let earlier = arranged::<T>(items.drop_last());
        earlier.insert(place::<T>(earlier, items.last()), items.last())
    }
}

pub proof fn place_bounds<T: Ranked>(items: Seq<T::V>, item: T::V)
    ensures
        0 <= place::<T>(items, item) <= items.len(),
        place::<T>(items, item) > 0 ==> !T::precedes(item, items[place::<T>(items, item) - 1]),
        forall|i: int| place::<T>(items, item) <= i < items.len() ==> T::precedes(item, items[i]),
    decreases items.len(),
{
    if items.len() > 0 && T::precedes(item, items.last()) {
        place_bounds::<T>(items.drop_last(), item);
        let at = place::<T>(items, item);
        if at > 0 {
            assert(items.drop_last()[at - 1] == items[at - 1]);
        }
        assert forall|i: int| at <= i < items.len() implies T::precedes(item, items[i]) by {
            if i < items.len() - 1 {
                assert(items.drop_last()[i] == items[i]);
            }
        }
    }
}

/// Putting values in order neither adds nor drops any.
pub proof fn arranged_keeps_items<T: Ranked>(items: Seq<T::V>)
    ensures
        arranged::<T>(items).len() == items.len(),
        arranged::<T>(items).to_multiset() == items.to_multiset(),
    decreases items.len(),
{
    broadcast use vstd::seq_lib::group_to_multiset_ensures;

    if items.len() == 0 {
        assert(arranged::<T>(items) =~= items);
    } else {
        let earlier = arranged::<T>(items.drop_last());
        arranged_keeps_items::<T>(items.drop_last());
        place_bounds::<T>(earlier, items.last());
        let at = place::<T>(earlier, items.last());
        assert(arranged::<T>(items) =~= earlier.insert(at, items.last()));
        assert(items =~= items.drop_last().push(items.last()));
        assert(earlier.insert(at, items.last()).to_multiset() =~= earlier.to_multiset().insert(
            items.last(),
        ));
        assert(items.to_multiset() =~= items.drop_last().to_multiset().insert(items.last()));
    }
}

/// Puts values in order.
pub fn arrange<T: Ranked>(items: &Vec<T>) -> (r: Vec<T>)
    ensures
        r.deep_view() == arranged::<T>(items.deep_view()),
        r@.len() == items@.len(),
{
    let ghost all = items.deep_view();
    let mut out: Vec<T> = Vec::new();
    let mut i: usize = 0;
    assert(all.take(0) =~= Seq::empty());
    assert(out.deep_view() =~= Seq::<T::V>::empty());
    while i < items.len()
        invariant
            i <= items@.len(),
            all == items.deep_view(),
            out.deep_view() == arranged::<T>(all.take(i as int)),
            out@.len() == i,
        decreases items@.len() - i,
    {
        let ghost earlier = out.deep_view();
        let ghost item = items@[i as int].deep_view();
        let mut at: usize = out.len();
        assert(earlier.take(at as int) =~= earlier);
        while at > 0 && items[i].comes_before(&out[at - 1])
            invariant
                at <= out@.len(),
                i < items@.len(),
                earlier == out.deep_view(),
                item == items@[i as int].deep_view(),
                place::<T>(earlier, item) == place::<T>(earlier.take(at as int), item),
            decreases at,
        {
            assert(earlier.take(at as int).drop_last() =~= earlier.take(at as int - 1));
            assert(earlier.take(at as int).last() == out@[at as int - 1].deep_view());
            at = at - 1;
        }
        proof {
            if at > 0 {
                assert(earlier.take(at as int).last() == out@[at as int - 1].deep_view());
            }
        }
        let copy = items[i].replicate();
        out.insert(at, copy);
        proof {
            assert(all.take(i as int + 1).drop_last() =~= all.take(i as int));
            assert(all.take(i as int + 1).last() == item);
            assert(out.deep_view() =~= earlier.insert(at as int, item));
        }
        i = i + 1;
    }
    assert(all.take(items@.len() as int) =~= all);
    out
}

impl Ranked for u128 {
    open spec fn precedes(a: u128, b: u128) -> bool {
        a < b
    }

    fn comes_before(&self, other: &u128) -> (r: bool) {
        *self < *other
    }
}

impl Ranked for u64 {
    open spec fn precedes(a: u64, b: u64) -> bool {
        a < b
    }

    fn comes_before(&self, other: &u64) -> (r: bool) {
        *self < *other
    }
}

/// Numbers that have been put in order ascend.
pub proof fn arranged_numbers_ascend(items: Seq<u64>)
    ensures
        forall|i: int, j: int|
            #![trigger arranged::<u64>(items)[i], arranged::<u64>(items)[j]]
            0 <= i < j < items.len() ==> arranged::<u64>(items)[i] <= arranged::<u64>(items)[j],
        arranged::<u64>(items).len() == items.len(),
    decreases items.len(),
{
    if items.len() > 0 {
        let earlier = arranged::<u64>(items.drop_last());
        arranged_numbers_ascend(items.drop_last());
        let item = items.last();
        let at = place::<u64>(earlier, item);
        place_bounds::<u64>(earlier, item);
        let all = earlier.insert(at, item);
        assert forall|i: int, j: int|
            #![trigger all[i], all[j]]
            0 <= i < j < all.len() implies all[i] <= all[j] by {
            if i < at {
                assert(all[i] == earlier[i]);
                if j == at && i < at - 1 {
                    assert(earlier[i] <= earlier[at - 1]);
                } else if j > at {
                    assert(all[j] == earlier[j - 1]);
                } else if j < at {
                    assert(all[j] == earlier[j]);
                }
            } else if i == at {
                assert(all[j] == earlier[j - 1]);
            } else {
                assert(all[i] == earlier[i - 1] && all[j] == earlier[j - 1]);
            }
        }
    }
}

/// Whether a list of numbers holds a number.
pub fn contains_id(ids: &Vec<u64>, id: u64) -> (r: bool)
    ensures
        r == ids@.contains(id),
{
    let mut i: usize = 0;
    while i < ids.len()
        invariant
            i <= ids@.len(),
            forall|j: int| 0 <= j < i ==> ids@[j] != id,
        decreases ids@.len() - i,
    {
        if ids[i] == id {
            assert(ids@[i as int] == id);
            return true;
        }
        i = i + 1;
    }
    false
}

/// Whether two lists of numbers are the same.
pub fn same_ids(a: &Vec<u64>, b: &Vec<u64>) -> (r: bool)
    ensures
        r == (a@ == b@),
{
    if a.len() != b.len() {
        return false;
    }
    let mut i: usize = 0;
    while i < a.len()
        invariant
            a@.len() == b@.len(),
            i <= a@.len(),
            forall|j: int| 0 <= j < i ==> a@[j] == b@[j],
        decreases a@.len() - i,
    {
        if a[i] != b[i] {
            return false;
        }
        i = i + 1;
    }
    assert(a@ =~= b@);
    true
}

/// What has been chosen is among the keys and meets the condition.
pub proof fn filtered_are_members<A>(keys: Seq<A>, chosen: spec_fn(A) -> bool)
    ensures
        forall|i: int|
            0 <= i < keys.filter(chosen).len() ==> keys.contains(#[trigger] keys.filter(chosen)[i])
                && chosen(keys.filter(chosen)[i]),
        keys.filter(chosen).len() <= keys.len(),
    decreases keys.len(),
{
    reveal(Seq::filter);
    if keys.len() > 0 {
        let rest = keys.drop_last();
        filtered_are_members(rest, chosen);
        let kept = keys.filter(chosen);
        assert forall|i: int| 0 <= i < kept.len() implies keys.contains(#[trigger] kept[i]) && chosen(
            kept[i],
        ) by {
            if i < rest.filter(chosen).len() {
                assert(kept[i] == rest.filter(chosen)[i]);
                let j = choose|j: int| 0 <= j < rest.len() && rest[j] == kept[i];
                assert(keys[j] == kept[i]);
            } else {
                assert(keys[keys.len() - 1] == kept[i]);
            }
        }
    }
}

/// A filter keeps exactly what it chooses, and nothing twice that was there once.
pub proof fn filtered_are_chosen<A>(items: Seq<A>, chosen: spec_fn(A) -> bool)
    ensures
        forall|item: A| #[trigger]
            items.filter(chosen).contains(item) <==> items.contains(item) && chosen(item),
        items.no_duplicates() ==> items.filter(chosen).no_duplicates(),
    decreases items.len(),
{
    reveal(Seq::filter);
    let kept = items.filter(chosen);
    if items.len() > 0 {
        let rest = items.drop_last();
        let last = items.last();
        let earlier = rest.filter(chosen);
        filtered_are_chosen(rest, chosen);
        assert forall|item: A| #[trigger] kept.contains(item) <==> items.contains(item) && chosen(
            item,
        ) by {
            if kept.contains(item) {
                let k = choose|k: int| 0 <= k < kept.len() && kept[k] == item;
                if k < earlier.len() {
                    assert(earlier[k] == item);
                    assert(earlier.contains(item));
                    let m = choose|m: int| 0 <= m < rest.len() && rest[m] == item;
                    assert(items[m] == item);
                } else {
                    assert(items[items.len() - 1] == item);
                }
            }
            if items.contains(item) && chosen(item) {
                let m = choose|m: int| 0 <= m < items.len() && items[m] == item;
                if m < rest.len() {
                    assert(rest[m] == item);
                    assert(earlier.contains(item));
                    let k = choose|k: int| 0 <= k < earlier.len() && earlier[k] == item;
                    assert(kept[k] == item);
                } else {
                    assert(kept[kept.len() - 1] == item);
                }
            }
        }
        if items.no_duplicates() {
            assert(rest.no_duplicates()) by {
                assert forall|a: int, b: int|
                    0 <= a < rest.len() && 0 <= b < rest.len() && a != b implies rest[a]
                    != rest[b] by {
                    assert(items[a] != items[b]);
                }
            }
            assert(!rest.contains(last)) by {
                if rest.contains(last) {
                    let m = choose|m: int| 0 <= m < rest.len() && rest[m] == last;
                    assert(items[m] != items[items.len() - 1]);
                }
            }
            assert(!earlier.contains(last));
            assert forall|a: int, b: int|
                0 <= a < kept.len() && 0 <= b < kept.len() && a != b implies kept[a]
                != kept[b] by {
                if a < earlier.len() && b < earlier.len() {
                    assert(earlier[a] != earlier[b]);
                } else if a < earlier.len() {
                    assert(earlier.contains(earlier[a]));
                } else if b < earlier.len() {
                    assert(earlier.contains(earlier[b]));
                }
            }
        }
    } else {
        assert(kept =~= items);
    }
}

/// What holds of all values holds of them in order.
pub proof fn arranged_all<T: Ranked>(items: Seq<T::V>, met: spec_fn(T::V) -> bool)
    requires
        forall|i: int| 0 <= i < items.len() ==> met(#[trigger] items[i]),
    ensures
        arranged::<T>(items).len() == items.len(),
        forall|i: int| 0 <= i < items.len() ==> met(#[trigger] arranged::<T>(items)[i]),
    decreases items.len(),
{
    if items.len() > 0 {
        let rest = items.drop_last();
        arranged_all::<T>(rest, met);
        let earlier = arranged::<T>(rest);
        let at = place::<T>(earlier, items.last());
        place_bounds::<T>(earlier, items.last());
        let all = arranged::<T>(items);
        assert(met(items[items.len() - 1]));
        assert forall|i: int| 0 <= i < items.len() implies met(#[trigger] all[i]) by {
            if i < at {
                assert(all[i] == earlier[i]);
            } else if i > at {
                assert(all[i] == earlier[i - 1]);
            }
        }
    }
}

/// Values that have been put in order stand in it, where the order is one: no value stands behind one
/// that it comes before.
pub proof fn arranged_are_in_order<T: Ranked>(items: Seq<T::V>)
    requires
        forall|a: T::V, b: T::V| #[trigger] T::precedes(a, b) ==> !T::precedes(b, a),
        forall|a: T::V, b: T::V, c: T::V|
            #![trigger T::precedes(b, a), T::precedes(c, b)]
            !T::precedes(b, a) && !T::precedes(c, b) ==> !T::precedes(c, a),
    ensures
        arranged::<T>(items).len() == items.len(),
        forall|i: int, j: int|
            #![trigger arranged::<T>(items)[i], arranged::<T>(items)[j]]
            0 <= i < j < items.len() ==> !T::precedes(
                arranged::<T>(items)[j],
                arranged::<T>(items)[i],
            ),
    decreases items.len(),
{
    if items.len() > 0 {
        let earlier = arranged::<T>(items.drop_last());
        arranged_are_in_order::<T>(items.drop_last());
        let item = items.last();
        let at = place::<T>(earlier, item);
        place_bounds::<T>(earlier, item);
        let all = earlier.insert(at, item);
        assert forall|i: int, j: int|
            #![trigger all[i], all[j]]
            0 <= i < j < all.len() implies !T::precedes(all[j], all[i]) by {
            if i < at {
                assert(all[i] == earlier[i]);
                if j == at {
                    assert(!T::precedes(item, earlier[at - 1]));
                    if i < at - 1 {
                        assert(!T::precedes(earlier[at - 1], earlier[i]));
                    }
                } else if j > at {
                    assert(all[j] == earlier[j - 1]);
                } else {
                    assert(all[j] == earlier[j]);
                }
            } else if i == at {
                assert(all[j] == earlier[j - 1]);
                assert(T::precedes(item, earlier[j - 1]));
            } else {
                assert(all[i] == earlier[i - 1] && all[j] == earlier[j - 1]);
            }
        }
    }
}

/// Putting values in order does not change how many of them meet a condition.
pub proof fn arranged_keep_their_count<T: Ranked>(items: Seq<T::V>, met: spec_fn(T::V) -> bool)
    ensures
        arranged::<T>(items).filter(met).len() == items.filter(met).len(),
    decreases items.len(),
{
    reveal(Seq::filter);
    if items.len() > 0 {
        let earlier = arranged::<T>(items.drop_last());
        arranged_keep_their_count::<T>(items.drop_last(), met);
        let at = place::<T>(earlier, items.last());
        place_bounds::<T>(earlier, items.last());
        one_more_is_counted(earlier, at, items.last(), met);
    }
}

proof fn one_more_is_counted<A>(items: Seq<A>, at: int, item: A, met: spec_fn(A) -> bool)
    requires
        0 <= at <= items.len(),
    ensures
        items.insert(at, item).filter(met).len() == items.filter(met).len() + if met(item) {
            1int
        } else {
            0
        },
    decreases items.len(),
{
    reveal(Seq::filter);
    let all = items.insert(at, item);
    if at == items.len() {
        assert(all.drop_last() =~= items);
    } else {
        let rest = items.drop_last();
        one_more_is_counted(rest, at, item, met);
        assert(all.drop_last() =~= rest.insert(at, item));
        assert(all.last() == items.last());
    }
}

/// If the values between two places all meet a condition, at least so many values do.
pub proof fn ranges_are_counted<A>(items: Seq<A>, from: int, to: int, met: spec_fn(A) -> bool)
    requires
        0 <= from <= to <= items.len(),
        forall|i: int| from <= i < to ==> met(#[trigger] items[i]),
    ensures
        items.filter(met).len() >= to - from,
    decreases items.len(),
{
    reveal(Seq::filter);
    if items.len() > 0 {
        let rest = items.drop_last();
        let end = if to == items.len() && to > from {
            to - 1
        } else if to == items.len() {
            from
        } else {
            to
        };
        if from < items.len() {
            assert forall|i: int| from <= i < end implies met(#[trigger] rest[i]) by {
                assert(rest[i] == items[i]);
            }
            ranges_are_counted(rest, from, if end < from { from } else { end }, met);
            if to == items.len() && to > from {
                assert(met(items[items.len() - 1]));
            }
        }
    }
}

} // verus!
