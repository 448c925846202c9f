//! A map from names to values that remembers the order in which its names
//! were first inserted.

use vstd::prelude::*;
use vstd::string::*;
use crate::text::same_text;

verus! {

/// Whether no name occurs twice among `items`.
pub open spec fn distinct_names<T>(items: Seq<(Seq<char>, T)>) -> bool {
    forall|i: int, j: int| 0 <= i < j < items.len() ==> items[i].0 != items[j].0
}

/// Whether `name` is the name of one of `items`.
pub open spec fn has_name<T>(items: Seq<(Seq<char>, T)>, name: Seq<char>) -> bool {
    exists|i: int| 0 <= i < items.len() && #[trigger] items[i].0 == name
}

/// The place of the first item called `name`, if there is one.
pub open spec fn place_of<T>(items: Seq<(Seq<char>, T)>, name: Seq<char>) -> int {
    choose|i: int| 0 <= i < items.len() && #[trigger] items[i].0 == name
}

/// The items as a map from their names. Where a name occurs twice, which
/// cannot happen inside a [`NameMap`], one of its items is taken.
pub open spec fn items_map<T>(items: Seq<(Seq<char>, T)>) -> Map<Seq<char>, T> {
    Map::new(|name: Seq<char>| has_name(items, name), |name: Seq<char>| items[place_of(items, name)].1)
}

/// With distinct names, each item is what the map holds under its name.
pub proof fn lemma_items_map_at<T>(items: Seq<(Seq<char>, T)>, i: int)
    requires
        distinct_names(items),
        0 <= i < items.len(),
    ensures
        items_map(items).contains_key(items[i].0),
        items_map(items)[items[i].0] == items[i].1,
{
    let name = items[i].0;
    assert(has_name(items, name));
    let p = place_of(items, name);
    assert(p == i) by {
        if p < i {
            assert(items[p].0 != items[i].0);
        } else if i < p {
            assert(items[i].0 != items[p].0);
        }
    }
}

/// Appending an item under a new name inserts it into the map.
pub proof fn lemma_items_map_push<T>(items: Seq<(Seq<char>, T)>, name: Seq<char>, value: T)
    requires
        distinct_names(items),
        !has_name(items, name),
    ensures
        distinct_names(items.push((name, value))),
        items_map(items.push((name, value))) == items_map(items).insert(name, value),
{
    let grown = items.push((name, value));
    assert(distinct_names(grown)) by {
        assert forall|i: int, j: int| 0 <= i < j < grown.len() implies grown[i].0 != grown[j].0 by {
            if j == items.len() {
                assert(items[i].0 == grown[i].0);
            } else {
                assert(items[i].0 != items[j].0);
            }
        }
    }
    assert forall|k: Seq<char>| has_name(grown, k) <==> (k == name || has_name(items, k)) by {
        if has_name(grown, k) {
            let i = place_of(grown, k);
            if i < items.len() {
                assert(items[i].0 == k);
            }
        }
        if k == name {
            assert(grown[items.len() as int].0 == k);
        }
        if has_name(items, k) {
            let i = place_of(items, k);
            assert(grown[i].0 == k);
        }
    }
    assert forall|k: Seq<char>| has_name(grown, k) implies #[trigger] items_map(grown)[k]
        == items_map(items).insert(name, value)[k] by {
        let i = place_of(grown, k);
        lemma_items_map_at(grown, i);
        if i < items.len() {
            assert(items[i].0 == k);
            lemma_items_map_at(items, i);
        }
    }
    assert(items_map(grown) =~= items_map(items).insert(name, value));
}

/// Replacing the value of an item keeps the names and updates the map.
pub proof fn lemma_items_map_update<T>(items: Seq<(Seq<char>, T)>, i: int, value: T)
    requires
        distinct_names(items),
        0 <= i < items.len(),
    ensures
        distinct_names(items.update(i, (items[i].0, value))),
        items_map(items.update(i, (items[i].0, value))) == items_map(items).insert(
            items[i].0,
            value,
        ),
{
    let name = items[i].0;
    let changed = items.update(i, (name, value));
    assert forall|a: int, b: int| 0 <= a < b < changed.len() implies changed[a].0
        != changed[b].0 by {
        assert(items[a].0 != items[b].0);
    }
    assert forall|k: Seq<char>| has_name(changed, k) <==> has_name(items, k) by {
        if has_name(changed, k) {
            let p = place_of(changed, k);
            assert(items[p].0 == k);
        }
        if has_name(items, k) {
            let p = place_of(items, k);
            assert(changed[p].0 == k);
        }
    }
    assert(has_name(items, name));
    assert forall|k: Seq<char>| has_name(changed, k) implies #[trigger] items_map(changed)[k]
        == items_map(items).insert(name, value)[k] by {
        let p = place_of(changed, k);
        lemma_items_map_at(changed, p);
        if p != i {
            assert(items[p].0 == k);
            lemma_items_map_at(items, p);
            assert(items[p].0 != items[i].0) by {
                if p < i {
                    assert(items[p].0 != items[i].0);
                } else {
                    assert(items[i].0 != items[p].0);
                }
            }
        }
    }
    assert(items_map(changed) =~= items_map(items).insert(name, value));
}

/// The names among the first `n + 1` items are those among the first `n`,
/// and the name of item `n`.
pub proof fn lemma_has_name_step<T>(items: Seq<(Seq<char>, T)>, n: int, name: Seq<char>)
    requires
        0 <= n < items.len(),
    ensures
        has_name(items.subrange(0, n + 1), name) <==> (has_name(items.subrange(0, n), name)
            || items[n].0 == name),
{
    let short = items.subrange(0, n);
    let long = items.subrange(0, n + 1);
    if has_name(long, name) {
        let i = place_of(long, name);
        if i < n {
            assert(short[i].0 == name);
        }
    }
    if has_name(short, name) {
        let i = place_of(short, name);
        assert(long[i].0 == name);
    }
    if items[n].0 == name {
        assert(long[n].0 == name);
    }
}

/// A map from names to values of type `T`. No name occurs twice, and the
/// entries stay in the order in which their names were first inserted.
#[derive(Debug)]
pub struct NameMap<T> {
    entries: Vec<(String, T)>,
}

impl<T> View for NameMap<T> {
    type V = Map<Seq<char>, T>;

    open spec fn view(&self) -> Map<Seq<char>, T> {
        items_map(self.items())
    }
}

impl<T> NameMap<T> {
    /// The entries in order, each with its name as plain text.
    pub closed spec fn items(&self) -> Seq<(Seq<char>, T)> {
        self.entries@.map_values(|e: (String, T)| (e.0@, e.1))
    }

    /// No name occurs twice. Every map that this module hands out is well
    /// formed, and every method keeps it so.
    pub open spec fn wf(&self) -> bool {
        distinct_names(self.items())
    }

    /// An empty map.
    pub fn new() -> (r: Self)
        ensures
            r.wf(),
            r.items() == Seq::<(Seq<char>, T)>::empty(),
            r@ == Map::<Seq<char>, T>::empty(),
    {
        let r = NameMap { entries: Vec::new() };
        assert(r.items() =~= Seq::<(Seq<char>, T)>::empty());
        assert(r@ =~= Map::<Seq<char>, T>::empty());
        r
    }

    /// The number of entries.
    pub fn len(&self) -> (r: usize)
        ensures
            r == self.items().len(),
    {
        self.entries.len()
    }

    /// Whether there is no entry.
    pub fn is_empty(&self) -> (r: bool)
        ensures
            r == (self.items().len() == 0),
    {
        self.entries.len() == 0
    }

    /// The place of the entry called `name`.
    pub fn position(&self, name: &str) -> (r: Option<usize>)
        ensures
            match r {
                Some(i) => i < self.items().len() && self.items()[i as int].0 == name@,
                None => !has_name(self.items(), name@),
            },
    {
        let mut i: usize = 0;
        while i < self.entries.len()
            invariant
                i <= self.entries.len(),
                forall|j: int| 0 <= j < i ==> self.items()[j].0 != name@,
            decreases self.entries.len() - i,
        {
            if same_text(self.entries[i].0.as_str(), name) {
                return Some(i);
            }
            i += 1;
        }
        None
    }

    /// Whether there is an entry called `name`.
    pub fn contains_key(&self, name: &str) -> (r: bool)
        ensures
            r == self@.contains_key(name@),
    {
        self.position(name).is_some()
    }

    /// The value of the entry called `name`.
    pub fn get(&self, name: &str) -> (r: Option<&T>)
        requires
            self.wf(),
        ensures
            match r {
                Some(v) => self@.contains_key(name@) && *v == self@[name@],
                None => !self@.contains_key(name@),
            },
    {
        match self.position(name) {
            Some(i) => {
                proof {
                    lemma_items_map_at(self.items(), i as int);
                }
                Some(&self.entries[i].1)
            },
            None => None,
        }
    }

    /// The entry at place `i` in insertion order: `Some` for every place
    /// below `len()`.
    pub fn entry(&self, i: usize) -> (r: Option<(&String, &T)>)
        ensures
            match r {
                Some(e) => i < self.items().len() && e.0@ == self.items()[i as int].0 && *e.1
                    == self.items()[i as int].1,
                None => i >= self.items().len(),
            },
    {
        if i < self.entries.len() {
            Some((&self.entries[i].0, &self.entries[i].1))
        } else {
            None
        }
    }

    /// Sets the value of `name`. A name that is already there keeps its
    /// place and gets the new value; a new name goes to the end. Returns
    /// whether the name was already there.
    pub fn insert(&mut self, name: String, value: T) -> (r: bool)
        requires
            old(self).wf(),
        ensures
            final(self).wf(),
            r == has_name(old(self).items(), name@),
            r ==> exists|i: int|
                0 <= i < old(self).items().len() && old(self).items()[i].0 == name@
                    && final(self).items() == old(self).items().update(i, (name@, value)),
            !r ==> final(self).items() == old(self).items().push((name@, value)),
            final(self)@ == old(self)@.insert(name@, value),
    {
        let ghost before = self.items();
        match self.position(name.as_str()) {
            Some(i) => {
                proof {
                    lemma_items_map_update(before, i as int, value);
                }
                self.entries.set(i, (name, value));
                assert(self.items() =~= before.update(i as int, (name@, value)));
                true
            },
            None => {
                proof {
                    lemma_items_map_push(before, name@, value);
                }
                self.entries.push((name, value));
                assert(self.items() =~= before.push((name@, value)));
                false
            },
        }
    }
}

} // verus!
