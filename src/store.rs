//! A store of values keyed by field name, where a later write under a name
//! replaces the earlier one.
use vstd::prelude::*;
use crate::named::{NamedField, latest, names_distinct, has_name, lemma_distinct_lookup, lemma_absent_name};

verus! {

/// Values keyed by name. Each name appears at most once among the entries.
///
/// The entries are kept in a `Vec` rather than a `HashMap<String, V>`: the
/// specifications that vstd gives a hash map with `String` keys prove nothing
/// about what a lookup returns, while a vector of distinct names can be
/// reasoned about fully.
pub struct ValueStore<V> {
    entries: Vec<NamedField<V>>,
}

/// Taking out an item keeps the names distinct.
proof fn lemma_remove_keeps_distinct<V>(s: Seq<NamedField<V>>, i: int)
    requires
        names_distinct(s),
        0 <= i < s.len(),
    ensures
        names_distinct(s.remove(i)),
{
    let m = s.remove(i);
    assert forall|a: int, b: int|
        0 <= a < m.len() && 0 <= b < m.len() && a != b implies #[trigger] m[a].name@
        != #[trigger] m[b].name@ by {
        let a2 = if a < i { a } else { a + 1 };
        let b2 = if b < i { b } else { b + 1 };
        assert(m[a] == s[a2]);
        assert(m[b] == s[b2]);
    }
}

/// Taking out an item with another name leaves what is held under `k`.
proof fn lemma_remove_other<V>(s: Seq<NamedField<V>>, i: int, k: Seq<char>)
    requires
        names_distinct(s),
        0 <= i < s.len(),
        s[i].name@ != k,
    ensures
        latest(s.remove(i), k) == latest(s, k),
{
    let m = s.remove(i);
    lemma_remove_keeps_distinct(s, i);
    if has_name(s, k) {
        let j = choose|j: int| 0 <= j < s.len() && #[trigger] s[j].name@ == k;
        let j2 = if j < i { j } else { j - 1 };
        assert(m[j2] == s[j]);
        lemma_distinct_lookup(s, j);
        lemma_distinct_lookup(m, j2);
    } else {
        lemma_absent_name(s, k);
        assert forall|a: int| 0 <= a < m.len() implies #[trigger] m[a].name@ != k by {
            let a2 = if a < i { a } else { a + 1 };
            assert(m[a] == s[a2]);
        }
        lemma_absent_name(m, k);
    }
}

impl<V> ValueStore<V> {
    /// Each name is held at most once.
    pub closed spec fn wf(&self) -> bool {
        names_distinct(self.entries@)
    }

    /// The value held under `k`, if any.
    pub closed spec fn get(&self, k: Seq<char>) -> Option<V> {
        latest(self.entries@, k)
    }

    /// An empty store with room for `capacity` names.
    pub fn with_capacity(capacity: usize) -> (r: Self)
        ensures
            r.wf(),
            forall|k: Seq<char>| (#[trigger] r.get(k)) is None,
    {
        ValueStore { entries: Vec::with_capacity(capacity) }
    }

    fn find(&self, name: &String) -> (r: Option<usize>)
        ensures
            match r {
                Some(i) => i < self.entries@.len() && self.entries@[i as int].name@ == name@,
                None => !has_name(self.entries@, name@),
            },
    {
        let mut i: usize = 0;
        while i < self.entries.len()
            invariant
                i <= self.entries@.len(),
                forall|j: int| 0 <= j < i ==> #[trigger] self.entries@[j].name@ != name@,
            decreases self.entries@.len() - i,
        {
            if self.entries[i].name == *name {
                return Some(i);
            }
            i = i + 1;
        }
        None
    }

    /// Holds `value` under `name`, replacing what was held there.
    pub fn insert(&mut self, name: String, value: V)
        requires
            old(self).wf(),
        ensures
            final(self).wf(),
            forall|k: Seq<char>|
                #[trigger] final(self).get(k) == if k == name@ {
                    Some(value)
                } else {
                    old(self).get(k)
                },
    {
        let ghost before = self.entries@;
        if let Some(i) = self.find(&name) {
            let _replaced = self.entries.remove(i);
            proof {
                assert forall|k: Seq<char>| k != name@ implies latest(self.entries@, k)
                    == latest(before, k) by {
                    lemma_remove_other(before, i as int, k);
                }
                lemma_remove_keeps_distinct(before, i as int);
            }
        }
        let ghost mid = self.entries@;
        proof {
            if has_name(mid, name@) {
                let j = choose|j: int| 0 <= j < mid.len() && #[trigger] mid[j].name@ == name@;
                lemma_distinct_lookup(mid, j);
                if has_name(before, name@) {
                    let i = choose|i: int| 0 <= i < before.len() && #[trigger] before[i].name@ == name@;
                    lemma_distinct_lookup(before, i);
                }
            }
        }
        let item = NamedField::new(name, value);
        self.entries.push(item);
        proof {
            assert(self.entries@.drop_last() =~= mid);
            assert forall|a: int, b: int|
                0 <= a < self.entries@.len() && 0 <= b < self.entries@.len() && a != b
                    implies #[trigger] self.entries@[a].name@ != #[trigger] self.entries@[b].name@ by {
                if a < mid.len() {
                    assert(self.entries@[a] == mid[a]);
                }
                if b < mid.len() {
                    assert(self.entries@[b] == mid[b]);
                }
            }
        }
    }

    /// Takes out what is held under `name`.
    pub fn remove(&mut self, name: &String) -> (r: Option<V>)
        requires
            old(self).wf(),
        ensures
            final(self).wf(),
            r == old(self).get(name@),
            forall|k: Seq<char>|
                #[trigger] final(self).get(k) == if k == name@ {
                    None
                } else {
                    old(self).get(k)
                },
    {
        let ghost before = self.entries@;
        match self.find(name) {
            Some(i) => {
                let item = self.entries.remove(i);
                proof {
                    lemma_distinct_lookup(before, i as int);
                    assert forall|k: Seq<char>| k != name@ implies latest(self.entries@, k)
                        == latest(before, k) by {
                        lemma_remove_other(before, i as int, k);
                    }
                    assert forall|a: int| 0 <= a < self.entries@.len()
                        implies #[trigger] self.entries@[a].name@ != name@ by {
                        let a2 = if a < i { a } else { a + 1 };
                        assert(self.entries@[a] == before[a2]);
                    }
                    lemma_absent_name(self.entries@, name@);
                    lemma_remove_keeps_distinct(before, i as int);
                }
                Some(item.wrapped_value)
            },
            None => {
                proof {
                    lemma_absent_name(before, name@);
                }
                None
            },
        }
    }
}

} // verus!
