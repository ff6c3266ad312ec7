use vstd::prelude::*;

use crate::text::{
    bytes_lt_irreflexive, bytes_lt_total, bytes_lt_transitive, encode_utf8_injective, text_less,
    text_lt, text_same,
};

verus! {

/// A type whose values can be copied in full.
pub trait Replicate: DeepView + Sized {
    fn replicate(&self) -> (r: Self)
        ensures
            r.deep_view() == self.deep_view(),
    ;
}

/// A key type with a total order on its values.
pub trait TableKey: Replicate {
    spec fn key_lt(a: Self::V, b: Self::V) -> bool;

    proof fn key_lt_irreflexive(a: Self::V)
        ensures
            !Self::key_lt(a, a),
    ;

    proof fn key_lt_transitive(a: Self::V, b: Self::V, c: Self::V)
        requires
            Self::key_lt(a, b),
            Self::key_lt(b, c),
        ensures
            Self::key_lt(a, c),
    ;

    proof fn key_lt_total(a: Self::V, b: Self::V)
        ensures
            a == b || Self::key_lt(a, b) || Self::key_lt(b, a),
    ;

    fn less(&self, other: &Self) -> (r: bool)
        ensures
            r == Self::key_lt(self.deep_view(), other.deep_view()),
    ;
}

impl Replicate for u64 {
    fn replicate(&self) -> (r: u64) {
        *self
    }
}

impl TableKey for u64 {
    open spec fn key_lt(a: u64, b: u64) -> bool {
        a < b
    }

    proof fn key_lt_irreflexive(a: u64) {
    }

    proof fn key_lt_transitive(a: u64, b: u64, c: u64) {
    }

    proof fn key_lt_total(a: u64, b: u64) {
    }

    fn less(&self, other: &u64) -> (r: bool) {
        *self < *other
    }
}

impl Replicate for u128 {
    fn replicate(&self) -> (r: u128) {
        *self
    }
}

impl Replicate for String {
    fn replicate(&self) -> (r: String) {
        self.clone()
    }
}

impl TableKey for String {
    open spec fn key_lt(a: Seq<char>, b: Seq<char>) -> bool {
        text_lt(a, b)
    }

    proof fn key_lt_irreflexive(a: Seq<char>) {
        bytes_lt_irreflexive(vstd::utf8::encode_utf8(a));
    }

    proof fn key_lt_transitive(a: Seq<char>, b: Seq<char>, c: Seq<char>) {
        bytes_lt_transitive(
            vstd::utf8::encode_utf8(a),
            vstd::utf8::encode_utf8(b),
            vstd::utf8::encode_utf8(c),
        );
    }

    proof fn key_lt_total(a: Seq<char>, b: Seq<char>) {
        bytes_lt_total(vstd::utf8::encode_utf8(a), vstd::utf8::encode_utf8(b));
        if vstd::utf8::encode_utf8(a) == vstd::utf8::encode_utf8(b) {
            encode_utf8_injective(a, b);
        }
    }

    fn less(&self, other: &String) -> (r: bool) {
        text_less(self.as_str(), other.as_str())
    }
}

impl<T: Replicate> Replicate for Vec<T> {
    fn replicate(&self) -> (r: Vec<T>) {
        let mut copy: Vec<T> = Vec::new();
        let mut i: usize = 0;
        while i < self.len()
            invariant
                i <= self@.len(),
                copy@.len() == i,
                forall|j: int| 0 <= j < i ==> (#[trigger] copy@[j]).deep_view() == self@[j].deep_view(),
            decreases self@.len() - i,
        {
            copy.push(self[i].replicate());
            i = i + 1;
        }
        assert(copy.deep_view() =~= self.deep_view());
        copy
    }
}

impl<T: Replicate> Replicate for Option<T> {
    fn replicate(&self) -> (r: Option<T>) {
        match self {
            Some(value) => Some(value.replicate()),
            None => None,
        }
    }
}

/// Whether a sequence of keys is strictly ascending.
pub open spec fn ascending<K: TableKey>(keys: Seq<K::V>) -> bool {
    forall|i: int, j: int|
        #![trigger keys[i], keys[j]]
        0 <= i < j < keys.len() ==> K::key_lt(keys[i], keys[j])
}

/// Whether a sequence holds exactly the keys of a set, in ascending order.
pub open spec fn orders<K: TableKey>(keys: Seq<K::V>, of: Set<K::V>) -> bool {
    &&& ascending::<K>(keys)
    &&& forall|k: K::V| #[trigger] of.contains(k) <==> keys.contains(k)
}

/// The keys of a set in ascending order.
pub open spec fn ordered<K: TableKey>(of: Set<K::V>) -> Seq<K::V> {
    choose|keys: Seq<K::V>| orders::<K>(keys, of)
}

/// There is only one ascending sequence of the same keys.
pub proof fn orders_unique<K: TableKey>(a: Seq<K::V>, b: Seq<K::V>)
    requires
        ascending::<K>(a),
        ascending::<K>(b),
        forall|k: K::V| #[trigger] a.contains(k) <==> b.contains(k),
    ensures
        a == b,
    decreases a.len(),
{
    if a.len() == 0 {
        if b.len() > 0 {
            assert(b.contains(b[0]));
            assert(a.contains(b[0]));
        }
        assert(a =~= b);
    } else {
        assert(a.contains(a[0]));
        assert(b.contains(a[0]));
        let at = choose|i: int| 0 <= i < b.len() && b[i] == a[0];
        assert(b.contains(b[0]));
        assert(a.contains(b[0]));
        let bt = choose|i: int| 0 <= i < a.len() && a[i] == b[0];
        if a[0] != b[0] {
            assert(at > 0 && bt > 0);
            assert(K::key_lt(b[0], b[at]));
            assert(K::key_lt(a[0], a[bt]));
            K::key_lt_transitive(a[0], b[0], a[0]);
            K::key_lt_irreflexive(a[0]);
        }
        let a2 = a.drop_first();
        let b2 = b.drop_first();
        assert forall|k: K::V| #[trigger] a2.contains(k) <==> b2.contains(k) by {
            if a2.contains(k) {
                let i = choose|i: int| 0 <= i < a2.len() && a2[i] == k;
                assert(a[i + 1] == k);
                assert(a.contains(k));
                assert(b.contains(k));
                let j = choose|j: int| 0 <= j < b.len() && b[j] == k;
                if j == 0 {
                    assert(K::key_lt(a[0], a[i + 1]));
                    K::key_lt_irreflexive(k);
                }
                assert(b2[j - 1] == k);
            }
            if b2.contains(k) {
                let i = choose|i: int| 0 <= i < b2.len() && b2[i] == k;
                assert(b[i + 1] == k);
                assert(b.contains(k));
                assert(a.contains(k));
                let j = choose|j: int| 0 <= j < a.len() && a[j] == k;
                if j == 0 {
                    assert(K::key_lt(b[0], b[i + 1]));
                    K::key_lt_irreflexive(k);
                }
                assert(a2[j - 1] == k);
            }
        }
        assert forall|i: int, j: int|
            #![trigger a2[i], a2[j]]
            0 <= i < j < a2.len() implies K::key_lt(a2[i], a2[j]) by {
            assert(a[i + 1] == a2[i] && a[j + 1] == a2[j]);
        }
        assert forall|i: int, j: int|
            #![trigger b2[i], b2[j]]
            0 <= i < j < b2.len() implies K::key_lt(b2[i], b2[j]) by {
            assert(b[i + 1] == b2[i] && b[j + 1] == b2[j]);
        }
        orders_unique::<K>(a2, b2);
        assert(a =~= seq![a[0]] + a2);
        assert(b =~= seq![b[0]] + b2);
    }
}

/// How many keys at the front lie below a key.
spec fn keys_below<K: TableKey>(keys: Seq<K::V>, key: K::V) -> int
    decreases keys.len(),
{
    if keys.len() == 0 || !K::key_lt(keys[0], key) {
        0
    } else {
        1 + keys_below::<K>(keys.drop_first(), key)
    }
}

proof fn keys_below_bounds<K: TableKey>(keys: Seq<K::V>, key: K::V)
    requires
        ascending::<K>(keys),
    ensures
        0 <= keys_below::<K>(keys, key) <= keys.len(),
        forall|i: int|
            0 <= i < keys_below::<K>(keys, key) ==> K::key_lt(#[trigger] keys[i], key),
        forall|i: int|
            keys_below::<K>(keys, key) <= i < keys.len() ==> !K::key_lt(#[trigger] keys[i], key),
    decreases keys.len(),
{
    if keys.len() > 0 {
        if K::key_lt(keys[0], key) {
            let rest = keys.drop_first();
            assert forall|i: int, j: int|
                #![trigger rest[i], rest[j]]
                0 <= i < j < rest.len() implies K::key_lt(rest[i], rest[j]) by {
                assert(rest[i] == keys[i + 1] && rest[j] == keys[j + 1]);
            }
            keys_below_bounds::<K>(rest, key);
            assert forall|i: int| 0 <= i < keys_below::<K>(keys, key) implies K::key_lt(
                #[trigger] keys[i],
                key,
            ) by {
                if i > 0 {
                    assert(keys[i] == rest[i - 1]);
                }
            }
            assert forall|i: int|
                keys_below::<K>(keys, key) <= i < keys.len() implies !K::key_lt(
                #[trigger] keys[i],
                key,
            ) by {
                assert(keys[i] == rest[i - 1]);
            }
        } else {
            assert forall|i: int| 0 <= i < keys.len() implies !K::key_lt(
                #[trigger] keys[i],
                key,
            ) by {
                if i > 0 && K::key_lt(keys[i], key) {
                    K::key_lt_transitive(keys[0], keys[i], key);
                }
            }
        }
    }
}

proof fn ordering_found<K: TableKey>(of: Set<K::V>) -> (keys: Seq<K::V>)
    requires
        of.finite(),
    ensures
        orders::<K>(keys, of),
    decreases of.len(),
{
    if of.len() == 0 {
        assert(of =~= Set::<K::V>::empty());
        assert(orders::<K>(Seq::<K::V>::empty(), of));
        Seq::empty()
    } else {
        let key = of.choose();
        let keys = ordering_found::<K>(of.remove(key));
        let at = keys_below::<K>(keys, key);
        keys_below_bounds::<K>(keys, key);
        let all = keys.insert(at, key);
        assert(!of.remove(key).contains(key));
        assert forall|i: int, j: int|
            #![trigger all[i], all[j]]
            0 <= i < j < all.len() implies K::key_lt(all[i], all[j]) by {
            if j < at {
                assert(all[i] == keys[i] && all[j] == keys[j]);
            } else if i > at {
                assert(all[i] == keys[i - 1] && all[j] == keys[j - 1]);
            } else if i == at {
                assert(all[j] == keys[j - 1]);
                K::key_lt_total(keys[j - 1], key);
                if keys[j - 1] == key {
                    assert(keys.contains(key));
                }
            } else if j == at {
                assert(all[i] == keys[i]);
            } else {
                assert(all[i] == keys[i] && all[j] == keys[j - 1]);
            }
        }
        assert forall|k: K::V| #[trigger] of.contains(k) <==> all.contains(k) by {
            if of.contains(k) {
                if k == key {
                    assert(all[at] == k);
                } else {
                    assert(of.remove(key).contains(k));
                    let j = choose|j: int| 0 <= j < keys.len() && keys[j] == k;
                    if j < at {
                        assert(all[j] == k);
                    } else {
                        assert(all[j + 1] == k);
                    }
                }
            }
            if all.contains(k) {
                let j = choose|j: int| 0 <= j < all.len() && all[j] == k;
                if j < at {
                    assert(keys[j] == k);
                    assert(keys.contains(k));
                    assert(of.remove(key).contains(k));
                } else if j > at {
                    assert(keys[j - 1] == k);
                    assert(keys.contains(k));
                    assert(of.remove(key).contains(k));
                }
            }
        }
        all
    }
}

/// Every finite set of keys can be put in order, each key once.
pub proof fn ordered_lists_all<K: TableKey>(of: Set<K::V>)
    requires
        of.finite(),
    ensures
        orders::<K>(ordered::<K>(of), of),
        ordered::<K>(of).no_duplicates(),
        ordered::<K>(of).len() == of.len(),
{
    let keys = ordering_found::<K>(of);
    assert(orders::<K>(keys, of));
    let listed = ordered::<K>(of);
    assert forall|i: int, j: int| 0 <= i < j < listed.len() implies listed[i] != listed[j] by {
        K::key_lt_irreflexive(listed[i]);
    }
    assert(listed.no_duplicates());
    listed.unique_seq_to_set();
    assert(listed.to_set() =~= of);
}

/// A further key takes one place in the order of a set of keys, and the others stay as they were.
pub proof fn ordered_takes_in<K: TableKey>(of: Set<K::V>, key: K::V) -> (at: int)
    requires
        of.finite(),
        !of.contains(key),
    ensures
        0 <= at <= ordered::<K>(of).len(),
        ordered::<K>(of.insert(key)) == ordered::<K>(of).insert(at, key),
{
    let more = of.insert(key);
    let all = ordered::<K>(more);
    ordered_lists_all::<K>(of);
    ordered_lists_all::<K>(more);
    assert(more.contains(key));
    let at = choose|at: int| 0 <= at < all.len() && all[at] == key;
    let rest = all.remove(at);
    assert forall|i: int, j: int|
        #![trigger rest[i], rest[j]]
        0 <= i < j < rest.len() implies K::key_lt(rest[i], rest[j]) by {
        let first = if i < at {
            i
        } else {
            i + 1
        };
        let second = if j < at {
            j
        } else {
            j + 1
        };
        assert(rest[i] == all[first]);
        assert(rest[j] == all[second]);
    }
    assert forall|k: K::V| #[trigger] of.contains(k) <==> rest.contains(k) by {
        if of.contains(k) {
            assert(more.contains(k));
            let j = choose|j: int| 0 <= j < all.len() && all[j] == k;
            if j < at {
                assert(rest[j] == k);
            } else {
                assert(rest[j - 1] == k);
            }
        }
        if rest.contains(k) {
            let j = choose|j: int| 0 <= j < rest.len() && rest[j] == k;
            if j < at {
                assert(all[j] == k);
            } else {
                assert(all[j + 1] == k);
            }
            assert(all.contains(k));
            assert(more.contains(k));
            assert(k != key);
        }
    }
    assert(orders::<K>(rest, of));
    assert forall|k: K::V| #[trigger] rest.contains(k) <==> ordered::<K>(of).contains(k) by {
        assert(of.contains(k) <==> rest.contains(k));
    }
    orders_unique::<K>(rest, ordered::<K>(of));
    assert(all =~= rest.insert(at, key));
    at
}

/// A map kept in ascending order of its keys.
#[derive(Debug)]
pub struct Table<K: TableKey, V: DeepView> {
    keys: Vec<K>,
    values: Vec<V>,
}

impl<K: TableKey, V: DeepView> View for Table<K, V> {
    type V = Map<K::V, V::V>;

    closed spec fn view(&self) -> Map<K::V, V::V> {
        Map::new(
            |k: K::V| self.keys.deep_view().contains(k),
            |k: K::V| self.values@[self.keys.deep_view().index_of(k)].deep_view(),
        )
    }
}

impl<K: TableKey, V: DeepView> DeepView for Table<K, V> {
    type V = Map<K::V, V::V>;

    open spec fn deep_view(&self) -> Map<K::V, V::V> {
        self@
    }
}

impl<K: TableKey, V: DeepView> Table<K, V> {
    #[verifier::type_invariant]
    spec fn inv(self) -> bool {
        &&& self.keys@.len() == self.values@.len()
        &&& ascending::<K>(self.keys.deep_view())
    }

    /// The keys in ascending order.
    pub open spec fn keys(self) -> Seq<K::V> {
        ordered::<K>(self@.dom())
    }

    proof fn order_lemma(&self)
        requires
            self.inv(),
        ensures
            self.keys() == self.keys.deep_view(),
            self.keys().no_duplicates(),
            self@.dom().finite(),
            self@.dom().len() == self.keys@.len(),
            forall|i: int|
                #![trigger self.keys.deep_view()[i]]
                #![trigger self.values@[i]]
                0 <= i < self.keys@.len() ==> self@.contains_key(self.keys.deep_view()[i])
                    && self@[self.keys.deep_view()[i]] == self.values@[i].deep_view(),
    {
        let listed = self.keys.deep_view();
        assert(orders::<K>(listed, self@.dom()));
        assert(orders::<K>(self.keys(), self@.dom()));
        assert forall|k: K::V| #[trigger] self.keys().contains(k) <==> listed.contains(k) by {
            assert(self@.dom().contains(k) <==> listed.contains(k));
        }
        orders_unique::<K>(self.keys(), listed);
        assert forall|i: int, j: int| 0 <= i < j < listed.len() implies listed[i] != listed[j] by {
            K::key_lt_irreflexive(listed[i]);
        }
        assert(listed.no_duplicates());
        listed.unique_seq_to_set();
        assert(listed.to_set() =~= self@.dom());
        assert forall|i: int| 0 <= i < listed.len() implies #[trigger] self@.contains_key(listed[i])
            && self@[listed[i]] == self.values@[i].deep_view() by {
            assert(listed.contains(listed[i]));
            assert(listed.index_of(listed[i]) == i);
        }
    }

    pub fn new() -> (r: Table<K, V>)
        ensures
            r@ == Map::<K::V, V::V>::empty(),
    {
        let r = Table { keys: Vec::new(), values: Vec::new() };
        assert(r@ =~= Map::<K::V, V::V>::empty());
        r
    }

    /// The number of entries. The listed keys are all the keys, each once, in ascending order.
    pub fn len(&self) -> (r: usize)
        ensures
            r == self@.len(),
            r == self.keys().len(),
            self@.dom().finite(),
            self.keys().no_duplicates(),
            orders::<K>(self.keys(), self@.dom()),
            forall|k: K::V| #[trigger] self@.contains_key(k) <==> self.keys().contains(k),
            forall|i: int|
                0 <= i < self.keys().len() ==> self@.contains_key(#[trigger] self.keys()[i]),
    {
        proof {
            use_type_invariant(self);
            self.order_lemma();
        }
        self.keys.len()
    }

    pub fn is_empty(&self) -> (r: bool)
        ensures
            r == (self@.len() == 0),
            r == (self@ == Map::<K::V, V::V>::empty()),
    {
        let r = self.len() == 0;
        proof {
            use_type_invariant(self);
            self.order_lemma();
            if r {
                assert(self@ =~= Map::<K::V, V::V>::empty());
            } else {
                assert(self@.contains_key(self.keys.deep_view()[0]));
            }
        }
        r
    }

    /// The position of the first key that is not below `key`.
    fn position(&self, key: &K) -> (r: usize)
        ensures
            r <= self.keys@.len(),
            forall|i: int| 0 <= i < r ==> K::key_lt(self.keys.deep_view()[i], key.deep_view()),
            forall|i: int|
                r <= i < self.keys@.len() ==> !K::key_lt(self.keys.deep_view()[i], key.deep_view()),
    {
        proof {
            use_type_invariant(self);
        }
        let mut low: usize = 0;
        let mut high: usize = self.keys.len();
        while low < high
            invariant
                self.inv(),
                0 <= low <= high <= self.keys@.len(),
                forall|i: int| 0 <= i < low ==> K::key_lt(self.keys.deep_view()[i], key.deep_view()),
                forall|i: int|
                    high <= i < self.keys@.len() ==> !K::key_lt(
                        self.keys.deep_view()[i],
                        key.deep_view(),
                    ),
            decreases high - low,
        {
            let mid: usize = low + (high - low) / 2;
            let ghost listed = self.keys.deep_view();
            assert(listed[mid as int] == self.keys@[mid as int].deep_view());
            if self.keys[mid].less(key) {
                assert forall|i: int| 0 <= i < mid + 1 implies K::key_lt(listed[i], key.deep_view()) by {
                    if i < mid {
                        K::key_lt_transitive(listed[i], listed[mid as int], key.deep_view());
                    }
                }
                low = mid + 1;
            } else {
                assert forall|i: int| mid <= i < self.keys@.len() implies !K::key_lt(
                    listed[i],
                    key.deep_view(),
                ) by {
                    if i > mid && K::key_lt(listed[i], key.deep_view()) {
                        K::key_lt_transitive(listed[mid as int], listed[i], key.deep_view());
                    }
                }
                high = mid;
            }
        }
        low
    }

    /// Where `key` stands, if it is in the table.
    fn find(&self, key: &K) -> (r: Option<usize>)
        ensures
            match r {
                Some(i) => i < self.keys@.len() && self.keys.deep_view()[i as int]
                    == key.deep_view() && self@.contains_key(key.deep_view())
                    && self@[key.deep_view()] == self.values@[i as int].deep_view(),
                None => !self@.contains_key(key.deep_view()),
            },
    {
        let at = self.position(key);
        let ghost listed = self.keys.deep_view();
        proof {
            use_type_invariant(self);
            self.order_lemma();
        }
        if at < self.keys.len() && !key.less(&self.keys[at]) {
            proof {
                K::key_lt_total(listed[at as int], key.deep_view());
            }
            Some(at)
        } else {
            proof {
                if self@.contains_key(key.deep_view()) {
                    let i = choose|i: int| 0 <= i < listed.len() && listed[i] == key.deep_view();
                    K::key_lt_irreflexive(key.deep_view());
                    if i > at {
                        assert(K::key_lt(listed[at as int], listed[i]));
                    }
                }
            }
            None
        }
    }

    pub fn contains_key(&self, key: &K) -> (r: bool)
        ensures
            r == self@.contains_key(key.deep_view()),
    {
        self.find(key).is_some()
    }

    pub fn get(&self, key: &K) -> (r: Option<&V>)
        ensures
            match r {
                Some(value) => self@.contains_key(key.deep_view()) && value.deep_view()
                    == self@[key.deep_view()],
                None => !self@.contains_key(key.deep_view()),
            },
    {
        proof {
            use_type_invariant(self);
        }
        match self.find(key) {
            Some(i) => Some(&self.values[i]),
            None => None,
        }
    }

    pub fn key_at(&self, i: usize) -> (r: &K)
        requires
            i < self.keys().len(),
        ensures
            r.deep_view() == self.keys()[i as int],
            self@.contains_key(self.keys()[i as int]),
    {
        proof {
            use_type_invariant(self);
            self.order_lemma();
        }
        &self.keys[i]
    }

    pub fn value_at(&self, i: usize) -> (r: &V)
        requires
            i < self.keys().len(),
        ensures
            self@.contains_key(self.keys()[i as int]),
            r.deep_view() == self@[self.keys()[i as int]],
    {
        proof {
            use_type_invariant(self);
            self.order_lemma();
        }
        &self.values[i]
    }

    proof fn updated_lemma(before: &Table<K, V>, after: &Table<K, V>, i: int)
        requires
            before.inv(),
            after.inv(),
            0 <= i < before.keys@.len(),
            after.keys@ == before.keys@,
            after.values@ == before.values@.update(i, after.values@[i]),
        ensures
            after@ == before@.insert(before.keys.deep_view()[i], after.values@[i].deep_view()),
            after@.dom() == before@.dom(),
    {
        before.order_lemma();
        after.order_lemma();
        assert(after.keys.deep_view() =~= before.keys.deep_view());
        let listed = before.keys.deep_view();
        assert forall|k: K::V| #[trigger] after@.contains_key(k) implies after@[k]
            == before@.insert(listed[i], after.values@[i].deep_view())[k] by {
            let j = choose|j: int| 0 <= j < listed.len() && listed[j] == k;
            assert(after@[listed[j]] == after.values@[j].deep_view());
            assert(before@[listed[j]] == before.values@[j].deep_view());
        }
        assert(after@ =~= before@.insert(listed[i], after.values@[i].deep_view()));
        assert(after@.dom() =~= before@.dom());
    }

    /// Stores a value under a key; the value that stood there before is dropped.
    pub fn insert(&mut self, key: K, value: V)
        ensures
            final(self)@ == old(self)@.insert(key.deep_view(), value.deep_view()),
    {
        let ghost before = *self;
        proof {
            use_type_invariant(&*self);
            self.order_lemma();
        }
        match self.find(&key) {
            Some(i) => {
                *self.value_at_mut(i) = value;
            },
            None => {
                let at = self.position(&key);
                let ghost listed = before.keys.deep_view();
                let ghost k = key.deep_view();
                let ghost v = value.deep_view();
                let mut moved: Table<K, V> = Table::new();
                std::mem::swap(self, &mut moved);
                let mut keys = moved.keys;
                let mut values = moved.values;
                keys.insert(at, key);
                values.insert(at, value);
                proof {
                    let now = keys.deep_view();
                    assert(now =~= listed.insert(at as int, k));
                    assert(ascending::<K>(now)) by {
                        assert forall|i: int, j: int|
                            #![trigger now[i], now[j]]
                            0 <= i < j < now.len() implies K::key_lt(now[i], now[j]) by {
                            if j < at {
                                assert(now[i] == listed[i] && now[j] == listed[j]);
                            } else if i > at {
                                assert(now[i] == listed[i - 1] && now[j] == listed[j - 1]);
                            } else if i == at {
                                assert(now[j] == listed[j - 1]);
                                K::key_lt_total(listed[j - 1], k);
                                if listed[j - 1] == k {
                                    assert(listed.contains(k));
                                }
                            } else if j == at {
                                assert(now[i] == listed[i]);
                            } else {
                                assert(now[i] == listed[i] && now[j] == listed[j - 1]);
                            }
                        }
                    }
                }
                *self = Table { keys, values };
                proof {
                    let now = self.keys.deep_view();
                    self.order_lemma();
                    let target = before@.insert(k, v);
                    assert forall|x: K::V| #[trigger] self@.contains_key(x)
                        <==> target.contains_key(x) by {
                        if self@.contains_key(x) {
                            let j = choose|j: int| 0 <= j < now.len() && now[j] == x;
                            if j < at {
                                assert(listed[j] == x);
                            } else if j > at {
                                assert(listed[j - 1] == x);
                            }
                        }
                        if target.contains_key(x) {
                            if x == k {
                                assert(now[at as int] == k);
                            } else {
                                let j = choose|j: int| 0 <= j < listed.len() && listed[j] == x;
                                if j < at {
                                    assert(now[j] == x);
                                } else {
                                    assert(now[j + 1] == x);
                                }
                            }
                        }
                    }
                    assert forall|x: K::V| #[trigger] self@.contains_key(x) implies self@[x]
                        == target[x] by {
                        let j = choose|j: int| 0 <= j < now.len() && now[j] == x;
                        assert(self@[now[j]] == self.values@[j].deep_view());
                        if j < at {
                            assert(listed[j] == x);
                            assert(before@[listed[j]] == before.values@[j].deep_view());
                            assert(x != k);
                        } else if j > at {
                            assert(listed[j - 1] == x);
                            assert(before@[listed[j - 1]] == before.values@[j - 1].deep_view());
                            assert(x != k);
                        }
                    }
                    assert(self@ =~= target);
                }
            },
        }
    }

    /// Removes a key and hands back its value.
    pub fn remove(&mut self, key: &K) -> (r: Option<V>)
        ensures
            match r {
                Some(value) => old(self)@.contains_key(key.deep_view()) && value.deep_view()
                    == old(self)@[key.deep_view()] && final(self)@ == old(self)@.remove(
                    key.deep_view(),
                ),
                None => !old(self)@.contains_key(key.deep_view()) && final(self)@ == old(self)@,
            },
    {
        let ghost before = *self;
        proof {
            use_type_invariant(&*self);
            self.order_lemma();
        }
        match self.find(key) {
            Some(at) => {
                let ghost listed = before.keys.deep_view();
                let ghost k = key.deep_view();
                let mut moved: Table<K, V> = Table::new();
                std::mem::swap(self, &mut moved);
                let mut keys = moved.keys;
                let mut values = moved.values;
                keys.remove(at);
                let value = values.remove(at);
                proof {
                    let now = keys.deep_view();
                    assert(now =~= listed.remove(at as int));
                    assert forall|i: int, j: int|
                        #![trigger now[i], now[j]]
                        0 <= i < j < now.len() implies K::key_lt(now[i], now[j]) by {
                        let i2 = if i < at {
                            i
                        } else {
                            i + 1
                        };
                        let j2 = if j < at {
                            j
                        } else {
                            j + 1
                        };
                        assert(now[i] == listed[i2] && now[j] == listed[j2]);
                    }
                }
                *self = Table { keys, values };
                proof {
                    let now = self.keys.deep_view();
                    self.order_lemma();
                    let target = before@.remove(k);
                    assert forall|x: K::V| #[trigger] self@.contains_key(x)
                        <==> target.contains_key(x) by {
                        if self@.contains_key(x) {
                            let j = choose|j: int| 0 <= j < now.len() && now[j] == x;
                            let j2 = if j < at {
                                j
                            } else {
                                j + 1
                            };
                            assert(listed[j2] == x);
                        }
                        if target.contains_key(x) {
                            let j = choose|j: int| 0 <= j < listed.len() && listed[j] == x;
                            assert(j != at);
                            let j2 = if j < at {
                                j
                            } else {
                                j - 1
                            };
                            assert(now[j2] == x);
                        }
                    }
                    assert forall|x: K::V| #[trigger] self@.contains_key(x) implies self@[x]
                        == target[x] by {
                        let j = choose|j: int| 0 <= j < now.len() && now[j] == x;
                        let j2 = if j < at {
                            j
                        } else {
                            j + 1
                        };
                        assert(self@[now[j]] == self.values@[j].deep_view());
                        assert(before@[listed[j2]] == before.values@[j2].deep_view());
                    }
                    assert(self@ =~= target);
                }
                Some(value)
            },
            None => None,
        }
    }

    pub fn value_at_mut(&mut self, i: usize) -> (r: &mut V)
        requires
            i < old(self).keys().len(),
        ensures
            r.deep_view() == old(self)@[old(self).keys()[i as int]],
            final(self)@ == old(self)@.insert(
                old(self).keys()[i as int],
                final(r).deep_view(),
            ),
            final(self)@.dom() == old(self)@.dom(),
    {
        proof {
            use_type_invariant(&*self);
            self.order_lemma();
        }
        let ghost before = *self;
        let r = &mut self.values[i];
        proof {
            Self::updated_lemma(&before, &after_borrow(*self), i as int);
        }
        r
    }

    pub fn get_mut(&mut self, key: &K) -> (r: Option<&mut V>)
        ensures
            match r {
                Some(value) => {
                    &&& old(self)@.contains_key(key.deep_view())
                    &&& value.deep_view() == old(self)@[key.deep_view()]
                    &&& final(self)@ == old(self)@.insert(key.deep_view(), final(value).deep_view())
                    &&& final(self)@.dom() == old(self)@.dom()
                },
                None => !old(self)@.contains_key(key.deep_view()) && final(self)@ == old(self)@,
            },
    {
        proof {
            use_type_invariant(&*self);
            self.order_lemma();
        }
        match self.find(key) {
            Some(i) => Some(self.value_at_mut(i)),
            None => None,
        }
    }

    /// The value under a key, stored first if there was none.
    pub fn entry(&mut self, key: K, default: V) -> (r: &mut V)
        ensures
            r.deep_view() == if old(self)@.contains_key(key.deep_view()) {
                old(self)@[key.deep_view()]
            } else {
                default.deep_view()
            },
            final(self)@ == old(self)@.insert(key.deep_view(), final(r).deep_view()),
    {
        let ghost k = key.deep_view();
        let ghost before = self@;
        let copy = key.replicate();
        if !self.contains_key(&key) {
            self.insert(key, default);
        }
        let ghost middle = self@;
        proof {
            assert forall|v: V::V| #[trigger] middle.insert(k, v) == before.insert(k, v) by {
                assert(middle.insert(k, v) =~= before.insert(k, v));
            }
        }
        match self.find(&copy) {
            Some(i) => {
                proof {
                    use_type_invariant(&*self);
                    self.order_lemma();
                }
                self.value_at_mut(i)
            },
            None => {
                assert(false);
                self.value_at_mut(0)
            },
        }
    }
}

impl<K: TableKey, V: Replicate> Replicate for Table<K, V> {
    fn replicate(&self) -> (r: Table<K, V>) {
        proof {
            use_type_invariant(self);
        }
        let keys = self.keys.replicate();
        let values = self.values.replicate();
        assert(values.deep_view().len() == self.values.deep_view().len());
        assert(keys.deep_view().len() == self.keys.deep_view().len());
        let r = Table { keys, values };
        proof {
            r.order_lemma();
            self.order_lemma();
            assert forall|k: K::V| #[trigger] r@.contains_key(k) implies r@[k] == self@[k] by {
                let j = choose|j: int| 0 <= j < r.keys@.len() && r.keys.deep_view()[j] == k;
                assert(r@[r.keys.deep_view()[j]] == r.values@[j].deep_view());
                assert(self@[self.keys.deep_view()[j]] == self.values@[j].deep_view());
                assert(r.values.deep_view()[j] == self.values.deep_view()[j]);
            }
            assert(r@ =~= self@);
        }
        r
    }
}

/// Values that can be compared by their contents.
pub trait Same: DeepView {
    fn same(&self, other: &Self) -> (r: bool)
        ensures
            r == (self.deep_view() == other.deep_view()),
    ;
}

impl Same for u64 {
    fn same(&self, other: &u64) -> (r: bool) {
        *self == *other
    }
}

impl Same for u128 {
    fn same(&self, other: &u128) -> (r: bool) {
        *self == *other
    }
}

impl Same for String {
    fn same(&self, other: &String) -> (r: bool) {
        text_same(self.as_str(), other.as_str())
    }
}

impl<K: TableKey + Same, V: Same> Same for Table<K, V> {
    fn same(&self, other: &Table<K, V>) -> (r: bool) {
        let ghost mine = self.keys();
        let ghost theirs = other.keys();
        if self.len() != other.len() {
            return false;
        }
        let mut i: usize = 0;
        while i < self.len()
            invariant
                i <= mine.len(),
                mine == self.keys(),
                theirs == other.keys(),
                mine.len() == theirs.len(),
                forall|j: int|
                    0 <= j < i ==> mine[j] == theirs[j] && self@[mine[j]] == other@[mine[j]],
            decreases mine.len() - i,
        {
            if !self.key_at(i).same(other.key_at(i)) || !self.value_at(i).same(other.value_at(i)) {
                return false;
            }
            i = i + 1;
        }
        let ended = other.len();
        proof {
            assert(mine =~= theirs);
            assert forall|k: K::V| #[trigger] self@.contains_key(k) implies other@.contains_key(k)
                && self@[k] == other@[k] by {
                assert(mine.contains(k));
                let j = choose|j: int| 0 <= j < mine.len() && mine[j] == k;
                assert(theirs[j] == k);
            }
            assert forall|k: K::V| #[trigger] other@.contains_key(k) implies self@.contains_key(
                k,
            ) by {
                assert(theirs.contains(k));
                let j = choose|j: int| 0 <= j < theirs.len() && theirs[j] == k;
                assert(mine[j] == k);
            }
            assert(self@ =~= other@);
        }
        true
    }
}

} // verus!
