use vstd::prelude::*;

use crate::sequence::{
    filter_ends, filter_step, first_where, first_where_ends, first_where_found, first_where_step,
};
use crate::table::{ordered, Replicate, Table, TableKey};

verus! {

/// The values of a table that meet a condition, in the order of their keys.
pub open spec fn values_where<K: TableKey, W>(
    table: Map<K::V, W>,
    met: spec_fn(W) -> bool,
) -> Seq<W> {
    ordered::<K>(table.dom()).filter(|key: K::V| met(table[key])).map_values(
        |key: K::V| table[key],
    )
}

/// The first value of a table that meets a condition.
pub open spec fn value_where<K: TableKey, W>(
    table: Map<K::V, W>,
    met: spec_fn(W) -> bool,
) -> Option<W> {
    match first_where(ordered::<K>(table.dom()), |key: K::V| met(table[key])) {
        Some(key) => Some(table[key]),
        None => None,
    }
}

/// Collects the values of a table that meet a condition.
pub fn collect_where<K: TableKey, V: Replicate, F: Fn(&V) -> bool>(
    table: &Table<K, V>,
    Ghost(met): Ghost<spec_fn(V::V) -> bool>,
    test: F,
) -> (r: Vec<V>)
    requires
        forall|value: &V| test.requires((value,)),
        forall|value: &V, b: bool| test.ensures((value,), b) ==> b == met(value.deep_view()),
    ensures
        r.deep_view() == values_where::<K, V::V>(table@, met),
        r@.len() == r.deep_view().len(),
{
    let ghost keys = table.keys();
    let ghost chosen = |key: K::V| met(table@[key]);
    let ghost value = |key: K::V| table@[key];
    let mut out: Vec<V> = Vec::new();
    let mut i: usize = 0;
    proof {
        filter_ends(keys, chosen);
        assert(out.deep_view() =~= keys.take(0).filter(chosen).map_values(value));
    }
    while i < table.len()
        invariant
            forall|value: &V| test.requires((value,)),
            forall|value: &V, b: bool| test.ensures((value,), b) ==> b == met(value.deep_view()),
            i <= keys.len(),
            keys == table.keys(),
            chosen == (|key: K::V| met(table@[key])),
            value == (|key: K::V| table@[key]),
            out.deep_view() == keys.take(i as int).filter(chosen).map_values(value),
        decreases keys.len() - i,
    {
        proof {
            filter_step(keys, i as int, chosen);
        }
        let ghost before = out.deep_view();
        let item = table.value_at(i);
        if test(item) {
            out.push(item.replicate());
            assert(out.deep_view() =~= before.push(table@[keys[i as int]]));
            assert(out.deep_view() =~= keys.take(i + 1).filter(chosen).map_values(value));
        }
        i = i + 1;
    }
    proof {
        filter_ends(keys, chosen);
        assert(values_where::<K, V::V>(table@, met) =~= keys.filter(chosen).map_values(value));
    }
    out
}

/// Finds the first value of a table that meets a condition.
pub fn find_where<K: TableKey, V: Replicate, F: Fn(&V) -> bool>(
    table: &Table<K, V>,
    Ghost(met): Ghost<spec_fn(V::V) -> bool>,
    test: F,
) -> (r: Option<&V>)
    requires
        forall|value: &V| test.requires((value,)),
        forall|value: &V, b: bool| test.ensures((value,), b) ==> b == met(value.deep_view()),
    ensures
        match value_where::<K, V::V>(table@, met) {
            Some(value) => r matches Some(found) && found.deep_view() == value,
            None => r is None,
        },
{
    let ghost keys = table.keys();
    let ghost wanted = |key: K::V| met(table@[key]);
    let mut i: usize = 0;
    proof {
        first_where_ends(keys, wanted);
    }
    while i < table.len()
        invariant
            forall|value: &V| test.requires((value,)),
            forall|value: &V, b: bool| test.ensures((value,), b) ==> b == met(value.deep_view()),
            i <= keys.len(),
            keys == table.keys(),
            wanted == (|key: K::V| met(table@[key])),
            first_where(keys, wanted) == first_where(keys.skip(i as int), wanted),
        decreases keys.len() - i,
    {
        proof {
            first_where_step(keys, i as int, wanted);
        }
        let item = table.value_at(i);
        if test(item) {
            return Some(item);
        }
        i = i + 1;
    }
    proof {
        first_where_ends(keys, wanted);
    }
    None
}

/// What is found meets the condition, and where nothing is found nothing meets it.
pub proof fn value_where_found<K: TableKey, W>(table: Map<K::V, W>, met: spec_fn(W) -> bool)
    requires
        crate::table::orders::<K>(ordered::<K>(table.dom()), table.dom()),
    ensures
        value_where::<K, W>(table, met) matches Some(value) ==> met(value),
        value_where::<K, W>(table, met) is None ==> forall|key: K::V| #[trigger]
            table.contains_key(key) ==> !met(table[key]),
{
    let keys = ordered::<K>(table.dom());
    first_where_found(keys, |key: K::V| met(table[key]));
    if value_where::<K, W>(table, met) is None {
        assert forall|key: K::V| #[trigger] table.contains_key(key) implies !met(table[key]) by {
            assert(keys.contains(key));
            let i = choose|i: int| 0 <= i < keys.len() && keys[i] == key;
            assert(!met(table[keys[i]]));
        }
    }
}

/// The items of a sequence that meet a condition, and how they are collected.
pub fn keep_where<V: Replicate, F: Fn(&V) -> bool>(
    items: &Vec<V>,
    Ghost(met): Ghost<spec_fn(V::V) -> bool>,
    test: F,
) -> (r: Vec<V>)
    requires
        forall|value: &V| test.requires((value,)),
        forall|value: &V, b: bool| test.ensures((value,), b) ==> b == met(value.deep_view()),
    ensures
        r.deep_view() == items.deep_view().filter(met),
        r@.len() == r.deep_view().len(),
{
    let ghost all = items.deep_view();
    let mut out: Vec<V> = Vec::new();
    let mut i: usize = 0;
    proof {
        filter_ends(all, met);
        assert(out.deep_view() =~= all.take(0).filter(met));
    }
    while i < items.len()
        invariant
            forall|value: &V| test.requires((value,)),
            forall|value: &V, b: bool| test.ensures((value,), b) ==> b == met(value.deep_view()),
            i <= all.len(),
            all == items.deep_view(),
            all.len() == items@.len(),
            out.deep_view() == all.take(i as int).filter(met),
        decreases all.len() - i,
    {
        proof {
            filter_step(all, i as int, met);
        }
        let ghost before = out.deep_view();
        let item = &items[i];
        if test(item) {
            out.push(item.replicate());
            assert(out.deep_view() =~= before.push(all[i as int]));
        }
        i = i + 1;
    }
    proof {
        filter_ends(all, met);
    }
    out
}

/// How many values of a table meet a condition.
pub fn count_where<K: TableKey, V: Replicate, F: Fn(&V) -> bool>(
    table: &Table<K, V>,
    Ghost(met): Ghost<spec_fn(V::V) -> bool>,
    test: F,
) -> (r: usize)
    requires
        forall|value: &V| test.requires((value,)),
        forall|value: &V, b: bool| test.ensures((value,), b) ==> b == met(value.deep_view()),
    ensures
        r == values_where::<K, V::V>(table@, met).len(),
{
    let ghost keys = table.keys();
    let ghost chosen = |key: K::V| met(table@[key]);
    let mut count: usize = 0;
    let mut i: usize = 0;
    proof {
        filter_ends(keys, chosen);
    }
    while i < table.len()
        invariant
            forall|value: &V| test.requires((value,)),
            forall|value: &V, b: bool| test.ensures((value,), b) ==> b == met(value.deep_view()),
            i <= keys.len(),
            keys == table.keys(),
            chosen == (|key: K::V| met(table@[key])),
            count == keys.take(i as int).filter(chosen).len(),
            count <= i,
        decreases keys.len() - i,
    {
        proof {
            filter_step(keys, i as int, chosen);
        }
        if test(table.value_at(i)) {
            count = count + 1;
        }
        i = i + 1;
    }
    proof {
        filter_ends(keys, chosen);
    }
    count
}

/// The entries of a table whose values meet a condition.
pub open spec fn entries_where<A, W>(table: Map<A, W>, met: spec_fn(W) -> bool) -> Map<A, W> {
    Map::new(|key: A| table.contains_key(key) && met(table[key]), |key: A| table[key])
}

/// Copies the entries of a table whose values meet a condition.
pub fn retain_where<K: TableKey, V: Replicate, F: Fn(&V) -> bool>(
    table: &Table<K, V>,
    Ghost(met): Ghost<spec_fn(V::V) -> bool>,
    test: F,
) -> (r: Table<K, V>)
    requires
        forall|value: &V| test.requires((value,)),
        forall|value: &V, b: bool| test.ensures((value,), b) ==> b == met(value.deep_view()),
    ensures
        r@ == entries_where(table@, met),
{
    let ghost keys = table.keys();
    let mut out: Table<K, V> = Table::new();
    let mut i: usize = 0;
    while i < table.len()
        invariant
            forall|value: &V| test.requires((value,)),
            forall|value: &V, b: bool| test.ensures((value,), b) ==> b == met(value.deep_view()),
            i <= keys.len(),
            keys == table.keys(),
            forall|key: K::V| #[trigger]
                out@.contains_key(key) <==> (exists|j: int|
                    0 <= j < i && keys[j] == key) && met(table@[key]),
            forall|key: K::V| #[trigger] out@.contains_key(key) ==> out@[key] == table@[key],
        decreases keys.len() - i,
    {
        let item = table.value_at(i);
        if test(item) {
            out.insert(table.key_at(i).replicate(), item.replicate());
        }
        i = i + 1;
    }
    proof {
        let wanted = entries_where(table@, met);
        assert forall|key: K::V| #[trigger] out@.contains_key(key) <==> wanted.contains_key(
            key,
        ) by {
            if wanted.contains_key(key) {
                assert(keys.contains(key));
                let j = choose|j: int| 0 <= j < keys.len() && keys[j] == key;
                assert(0 <= j < i && keys[j] == key);
            }
            if out@.contains_key(key) {
                let j = choose|j: int| 0 <= j < i && keys[j] == key;
                assert(table@.contains_key(keys[j]));
            }
        }
        assert(out@ =~= wanted);
    }
    out
}

/// A table with each value changed by its key.
pub open spec fn entries_changed<A, W>(table: Map<A, W>, change: spec_fn(A, W) -> W) -> Map<A, W> {
    Map::new(|key: A| table.contains_key(key), |key: A| change(key, table[key]))
}

/// Changes each value of a table by its key.
pub fn change_all<K: TableKey, V: Replicate, F: Fn(&K, &V) -> V>(
    table: &Table<K, V>,
    Ghost(change): Ghost<spec_fn(K::V, V::V) -> V::V>,
    apply: F,
) -> (r: Table<K, V>)
    requires
        forall|key: &K, value: &V| apply.requires((key, value)),
        forall|key: &K, value: &V, next: V|
            apply.ensures((key, value), next) ==> next.deep_view() == change(
                key.deep_view(),
                value.deep_view(),
            ),
    ensures
        r@ == entries_changed(table@, change),
{
    let ghost keys = table.keys();
    let mut out: Table<K, V> = Table::new();
    let mut i: usize = 0;
    while i < table.len()
        invariant
            forall|key: &K, value: &V| apply.requires((key, value)),
            forall|key: &K, value: &V, next: V|
                apply.ensures((key, value), next) ==> next.deep_view() == change(
                    key.deep_view(),
                    value.deep_view(),
                ),
            i <= keys.len(),
            keys == table.keys(),
            forall|key: K::V| #[trigger]
                out@.contains_key(key) <==> (exists|j: int| 0 <= j < i && keys[j] == key),
            forall|key: K::V| #[trigger]
                out@.contains_key(key) ==> out@[key] == change(key, table@[key]),
        decreases keys.len() - i,
    {
        let key = table.key_at(i);
        let next = apply(key, table.value_at(i));
        out.insert(key.replicate(), next);
        i = i + 1;
    }
    proof {
        let wanted = entries_changed(table@, change);
        assert forall|key: K::V| #[trigger] out@.contains_key(key) <==> wanted.contains_key(
            key,
        ) by {
            if wanted.contains_key(key) {
                assert(keys.contains(key));
                let j = choose|j: int| 0 <= j < keys.len() && keys[j] == key;
                assert(0 <= j < i && keys[j] == key);
            }
            if out@.contains_key(key) {
                let j = choose|j: int| 0 <= j < i && keys[j] == key;
                assert(table@.contains_key(keys[j]));
            }
        }
        assert(out@ =~= wanted);
    }
    out
}

proof fn filter_of_insert<A>(
    keys: Seq<A>,
    at: int,
    key: A,
    before: spec_fn(A) -> bool,
    after: spec_fn(A) -> bool,
)
    requires
        0 <= at <= keys.len(),
        forall|i: int| 0 <= i < keys.len() ==> before(#[trigger] keys[i]) == after(keys[i]),
    ensures
        keys.filter(after) == keys.filter(before),
        keys.insert(at, key).filter(after).len() == keys.filter(before).len() + if after(key) {
            1int
        } else {
            0
        },
    decreases keys.len(),
{
    reveal(Seq::filter);
    let all = keys.insert(at, key);
    if keys.len() > 0 {
        let rest = keys.drop_last();
        assert forall|i: int| 0 <= i < rest.len() implies before(#[trigger] rest[i]) == after(
            rest[i],
        ) by {
            assert(rest[i] == keys[i]);
        }
        assert(before(keys[keys.len() - 1]) == after(keys[keys.len() - 1]));
        if at < keys.len() {
            filter_of_insert(rest, at, key, before, after);
            assert(all.drop_last() =~= rest.insert(at, key));
            assert(all.last() == keys.last());
        } else {
            filter_of_insert(rest, 0, key, before, after);
        }
    }
    if at == keys.len() {
        assert(all.drop_last() =~= keys);
        assert(all.last() == key);
    }
}

/// A further value of a table is one more that meets a condition if it meets it, and none if it does
/// not; of an empty table none does.
pub proof fn values_of_one_more<K: TableKey, W>(
    table: Map<K::V, W>,
    key: K::V,
    value: W,
    met: spec_fn(W) -> bool,
)
    requires
        table.dom().finite(),
        !table.contains_key(key),
    ensures
        values_where::<K, W>(table.insert(key, value), met).len() == values_where::<K, W>(
            table,
            met,
        ).len() + if met(value) {
            1int
        } else {
            0
        },
        values_where::<K, W>(Map::<K::V, W>::empty(), met).len() == 0,
{
    let keys = ordered::<K>(table.dom());
    let more = table.insert(key, value);
    crate::table::ordered_lists_all::<K>(table.dom());
    let at = crate::table::ordered_takes_in::<K>(table.dom(), key);
    assert(more.dom() =~= table.dom().insert(key));
    let before = |key: K::V| met(table[key]);
    let after = |key: K::V| met(more[key]);
    assert forall|i: int| 0 <= i < keys.len() implies before(#[trigger] keys[i]) == after(
        keys[i],
    ) by {
        assert(keys.contains(keys[i]));
        assert(table.dom().contains(keys[i]));
    }
    filter_of_insert(keys, at, key, before, after);
    let none = Map::<K::V, W>::empty();
    assert(none.dom() =~= Set::<K::V>::empty());
    crate::table::ordered_lists_all::<K>(none.dom());
    reveal(Seq::filter);
}

} // verus!
