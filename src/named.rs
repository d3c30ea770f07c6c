//! Name/value pairs and what a sequence of them says about each name.
use vstd::prelude::*;

verus! {

/// One value of a sequence, tagged with the name of the field it is meant for.
pub struct NamedField<V> {
    pub name: String,
    pub wrapped_value: V,
}

impl<V> NamedField<V> {
    pub fn new(name: String, wrapped_value: V) -> (r: Self)
        ensures
            r.name@ == name@,
            r.wrapped_value == wrapped_value,
    {
        NamedField { name, wrapped_value }
    }
}

/// The value that a store filled from `items`, in order, holds under `k`: the
/// one of the last item named `k`, if any item has that name.
pub open spec fn latest<V>(items: Seq<NamedField<V>>, k: Seq<char>) -> Option<V>
    decreases items.len(),
{
    if items.len() == 0 {
        None
    } else if items.last().name@ == k {
        Some(items.last().wrapped_value)
    } else {
        latest(items.drop_last(), k)
    }
}

/// No two items carry the same name.
pub open spec fn names_distinct<V>(items: Seq<NamedField<V>>) -> bool {
    forall|i: int, j: int|
        0 <= i < items.len() && 0 <= j < items.len() && i != j
            ==> #[trigger] items[i].name@ != #[trigger] items[j].name@
}

/// Some item of `items` is named `k`.
pub open spec fn has_name<V>(items: Seq<NamedField<V>>, k: Seq<char>) -> bool {
    exists|i: int| 0 <= i < items.len() && #[trigger] items[i].name@ == k
}

/// Last write wins: where item `j` is the last one named as it is, a store
/// filled from `items` holds that item's value under its name.
pub proof fn lemma_last_write_wins<V>(items: Seq<NamedField<V>>, j: int)
    requires
        0 <= j < items.len(),
        forall|i: int| j < i < items.len() ==> #[trigger] items[i].name@ != items[j].name@,
    ensures
        latest(items, items[j].name@) == Some(items[j].wrapped_value),
    decreases items.len(),
{
    if j < items.len() - 1 {
        let prefix = items.drop_last();
        assert(items.last() == items[items.len() - 1]);
        assert forall|i: int| j < i < prefix.len() implies #[trigger] prefix[i].name@
            != prefix[j].name@ by {
            assert(prefix[i] == items[i]);
        }
        lemma_last_write_wins(prefix, j);
    }
}

/// A name that no item carries is absent from a store filled from `items`.
pub proof fn lemma_absent_name<V>(items: Seq<NamedField<V>>, k: Seq<char>)
    requires
        !has_name(items, k),
    ensures
        latest(items, k) is None,
    decreases items.len(),
{
    if items.len() > 0 {
        assert(items.last() == items[items.len() - 1]);
        let prefix = items.drop_last();
        assert forall|i: int| 0 <= i < prefix.len() implies #[trigger] prefix[i].name@ != k by {
            assert(prefix[i] == items[i]);
        }
        lemma_absent_name(prefix, k);
    }
}

/// A name is present in a store filled from `items` exactly when some item
/// carries it.
pub proof fn lemma_present_iff_named<V>(items: Seq<NamedField<V>>, k: Seq<char>)
    ensures
        latest(items, k) is Some <==> has_name(items, k),
    decreases items.len(),
{
    if items.len() > 0 {
        let prefix = items.drop_last();
        assert(items.last() == items[items.len() - 1]);
        lemma_present_iff_named(prefix, k);
        if has_name(prefix, k) {
            let i = choose|i: int| 0 <= i < prefix.len() && #[trigger] prefix[i].name@ == k;
            assert(items[i] == prefix[i]);
        }
        if has_name(items, k) && items.last().name@ != k {
            let i = choose|i: int| 0 <= i < items.len() && #[trigger] items[i].name@ == k;
            assert(prefix[i] == items[i]);
        }
    }
}

/// With distinct names, the store holds each item's value under its name.
pub proof fn lemma_distinct_lookup<V>(items: Seq<NamedField<V>>, j: int)
    requires
        names_distinct(items),
        0 <= j < items.len(),
    ensures
        latest(items, items[j].name@) == Some(items[j].wrapped_value),
{
    lemma_last_write_wins(items, j);
}

/// An item of `a` stands somewhere in any rearrangement `b` of `a`.
proof fn lemma_rearranged_index<V>(a: Seq<NamedField<V>>, b: Seq<NamedField<V>>, i: int) -> (j: int)
    requires
        a.to_multiset() =~= b.to_multiset(),
        0 <= i < a.len(),
    ensures
        0 <= j < b.len(),
        b[j] == a[i],
{
    broadcast use vstd::seq_lib::group_to_multiset_ensures;

    assert(a.contains(a[i]));
    assert(a.to_multiset().count(a[i]) > 0);
    assert(b.to_multiset().count(a[i]) > 0);
    assert(b.contains(a[i]));
    choose|j: int| 0 <= j < b.len() && b[j] == a[i]
}

/// Rearranging items with distinct names keeps the names distinct.
proof fn lemma_rearranged_distinct<V>(a: Seq<NamedField<V>>, b: Seq<NamedField<V>>)
    requires
        names_distinct(a),
        a.to_multiset() =~= b.to_multiset(),
    ensures
        names_distinct(b),
{
    assert forall|i: int, j: int| 0 <= i < a.len() && 0 <= j < a.len() && i != j implies a[i]
        != a[j] by {
        assert(a[i].name@ != a[j].name@);
    }
    assert(a.no_duplicates());
    a.lemma_multiset_has_no_duplicates();
    b.lemma_multiset_has_no_duplicates_conv();
    assert forall|i: int, j: int|
        0 <= i < b.len() && 0 <= j < b.len() && i != j implies #[trigger] b[i].name@
        != #[trigger] b[j].name@ by {
        let p = lemma_rearranged_index(b, a, i);
        let q = lemma_rearranged_index(b, a, j);
        assert(b[i] != b[j]);
        assert(p != q);
    }
}

/// Order does not matter: any rearrangement of the same items with distinct
/// names fills a store with the same value under every name.
pub proof fn lemma_order_irrelevant<V>(a: Seq<NamedField<V>>, b: Seq<NamedField<V>>, k: Seq<char>)
    requires
        names_distinct(a),
        a.to_multiset() =~= b.to_multiset(),
    ensures
        latest(a, k) == latest(b, k),
{
    lemma_rearranged_distinct(a, b);
    if has_name(a, k) {
        let i = choose|i: int| 0 <= i < a.len() && #[trigger] a[i].name@ == k;
        let j = lemma_rearranged_index(a, b, i);
        lemma_distinct_lookup(a, i);
        lemma_distinct_lookup(b, j);
    } else {
        lemma_absent_name(a, k);
        if has_name(b, k) {
            let j = choose|j: int| 0 <= j < b.len() && #[trigger] b[j].name@ == k;
            let i = lemma_rearranged_index(b, a, j);
            assert(a[i].name@ == k);
        }
        lemma_absent_name(b, k);
    }
}

} // verus!
