//! The construction operation: drain as many name/value pairs as a record has
//! fields, store them by name, and hand the values back in field order.
use vstd::prelude::*;
use std::collections::VecDeque;
use crate::named::{
    NamedField, latest, names_distinct, has_name, lemma_last_write_wins, lemma_present_iff_named,
    lemma_order_irrelevant,
};
use crate::store::ValueStore;

verus! {

/// The text of the one error that construction reports: the sequence ran out
/// before every field could be given a value.
pub open spec fn insufficient_message() -> Seq<char> {
    "The given iterator should contain enough values to fill the implementing structure"@
}

/// No two field names are equal.
pub open spec fn field_names_distinct(names: Seq<String>) -> bool {
    forall|i: int, j: int|
        0 <= i < names.len() && 0 <= j < names.len() && i != j ==> #[trigger] names[i]@
            != #[trigger] names[j]@
}

/// Every field name is carried by some item.
pub open spec fn covers<V>(names: Seq<String>, items: Seq<NamedField<V>>) -> bool {
    forall|i: int| 0 <= i < names.len() ==> has_name(items, #[trigger] names[i]@)
}

/// The values that the fields, in their declared order, get from `items`: for
/// each field, the value of the last item that carries its name.
pub open spec fn field_values<V>(names: Seq<String>, items: Seq<NamedField<V>>) -> Seq<V> {
    Seq::new(names.len(), |i: int| latest(items, names[i]@).unwrap())
}

/// Pulls exactly `field_names.len()` pairs from the front of `seed`, keeps them
/// by name (a later pair replaces an earlier one of the same name), and returns
/// the values in the order of `field_names`. When `seed` runs out first, the
/// whole of it has been pulled and the error text is returned.
pub fn create_values<V>(field_names: &Vec<String>, seed: &mut VecDeque<NamedField<V>>) -> (r:
    Result<Vec<V>, &'static str>)
    requires
        field_names_distinct(field_names@),
        old(seed)@.len() >= field_names@.len() ==> covers(
            field_names@,
            old(seed)@.take(field_names@.len() as int),
        ),
    ensures
        old(seed)@.len() < field_names@.len() ==> {
            &&& r is Err
            &&& r->Err_0@ == insufficient_message()
            &&& final(seed)@ == Seq::<NamedField<V>>::empty()
        },
        old(seed)@.len() >= field_names@.len() ==> {
            &&& r is Ok
            &&& r->Ok_0@ == field_values(
                field_names@,
                old(seed)@.take(field_names@.len() as int),
            )
            &&& final(seed)@ == old(seed)@.skip(field_names@.len() as int)
        },
{
    let n = field_names.len();
    let ghost start = seed@;
    let mut store: ValueStore<V> = ValueStore::with_capacity(n);
    let mut looper: usize = 0;
    while looper < n
        invariant
            looper <= n,
            n == field_names@.len(),
            looper <= start.len(),
            start == old(seed)@,
            seed@ == start.skip(looper as int),
            store.wf(),
            forall|k: Seq<char>| #[trigger] store.get(k) == latest(start.take(looper as int), k),
        decreases n - looper,
    {
        let next_value_pair = match seed.pop_front() {
            Some(next) => next,
            None => {
                proof {
                    assert(start.skip(looper as int).len() == 0);
                }
                return Err("The given iterator should contain enough values to fill the implementing structure");
            },
        };
        proof {
            assert(next_value_pair == start[looper as int]);
            let pulled = start.take(looper as int + 1);
            assert(pulled.drop_last() =~= start.take(looper as int));
            assert(pulled.last() == next_value_pair);
        }
        store.insert(next_value_pair.name, next_value_pair.wrapped_value);
        looper = looper + 1;
        proof {
            assert(seed@ =~= start.skip(looper as int));
        }
    }
    let ghost pulled = start.take(n as int);
    let mut values: Vec<V> = Vec::with_capacity(n);
    let mut i: usize = 0;
    while i < n
        invariant
            i <= n,
            n == field_names@.len(),
            field_names_distinct(field_names@),
            covers(field_names@, pulled),
            store.wf(),
            forall|k: Seq<char>|
                #[trigger] store.get(k) == if exists|j: int| 0 <= j < i && field_names@[j]@ == k {
                    None
                } else {
                    latest(pulled, k)
                },
            values@ == field_values(field_names@, pulled).take(i as int),
        decreases n - i,
    {
        let ghost k = field_names@[i as int]@;
        proof {
            lemma_present_iff_named(pulled, k);
            assert(!exists|j: int| 0 <= j < i && field_names@[j]@ == k);
            assert(store.get(k) == latest(pulled, k));
        }
        let found = store.remove(&field_names[i]);
        let value = found.unwrap();
        values.push(value);
        i = i + 1;
        proof {
            assert(values@ =~= field_values(field_names@, pulled).take(i as int));
            assert forall|k2: Seq<char>|
                #[trigger] store.get(k2) == if exists|j: int| 0 <= j < i && field_names@[j]@ == k2 {
                    None
                } else {
                    latest(pulled, k2)
                } by {
                if k2 == k {
                    assert(field_names@[i - 1]@ == k2);
                }
            }
        }
    }
    proof {
        assert(values@ =~= field_values(field_names@, pulled));
    }
    Ok(values)
}

/// Values are matched to fields by name: where item `j` is the last one named
/// as field `i`, that field gets item `j`'s value.
pub proof fn lemma_field_gets_last_named<V>(
    names: Seq<String>,
    items: Seq<NamedField<V>>,
    i: int,
    j: int,
)
    requires
        0 <= i < names.len(),
        0 <= j < items.len(),
        items[j].name@ == names[i]@,
        forall|l: int| j < l < items.len() ==> #[trigger] items[l].name@ != items[j].name@,
    ensures
        field_values(names, items)[i] == items[j].wrapped_value,
{
    lemma_last_write_wins(items, j);
}

/// With distinct names among the items, each field gets the value of the one
/// item that carries its name, as a direct assignment by name would give it.
pub proof fn lemma_field_gets_named_value<V>(
    names: Seq<String>,
    items: Seq<NamedField<V>>,
    i: int,
    j: int,
)
    requires
        names_distinct(items),
        0 <= i < names.len(),
        0 <= j < items.len(),
        items[j].name@ == names[i]@,
    ensures
        field_values(names, items)[i] == items[j].wrapped_value,
{
    lemma_field_gets_last_named(names, items, i, j);
}

/// The order of the items does not matter: any rearrangement of items with
/// distinct names gives every field the same value.
pub proof fn lemma_field_values_order_irrelevant<V>(
    names: Seq<String>,
    a: Seq<NamedField<V>>,
    b: Seq<NamedField<V>>,
)
    requires
        names_distinct(a),
        a.to_multiset() =~= b.to_multiset(),
    ensures
        field_values(names, a) == field_values(names, b),
{
    assert forall|i: int| 0 <= i < names.len() implies #[trigger] field_values(names, a)[i]
        == field_values(names, b)[i] by {
        lemma_order_irrelevant(a, b, names[i]@);
    }
    assert(field_values(names, a) =~= field_values(names, b));
}

} // verus!
