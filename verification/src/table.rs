use crate::text::str_eq;
use vstd::prelude::*;

verus! {

/// A map from names to values, kept as a list of bindings.
///
/// The map that the list stands for is its view: a name is bound to the value
/// of the last binding that carries it.
pub struct NameTable<'s, V> {
    entries: Vec<(&'s str, V)>,
}

/// The map that a list of bindings stands for.
pub open spec fn bindings_map<V>(entries: Seq<(&str, V)>) -> Map<Seq<char>, V>
    decreases entries.len(),
{
    if entries.len() == 0 {
        Map::empty()
    } else {
        bindings_map(entries.drop_last()).insert(entries.last().0@, entries.last().1)
    }
}

/// Whether `i` is the place of the last binding of `name` in `entries`.
pub open spec fn is_last_binding<V>(entries: Seq<(&str, V)>, name: Seq<char>, i: int) -> bool {
    &&& 0 <= i < entries.len()
    &&& entries[i].0@ == name
    &&& forall|j: int| i < j < entries.len() ==> (#[trigger] entries[j]).0@ != name
}

/// A name that no binding carries is not in the map.
pub proof fn lemma_unbound<V>(entries: Seq<(&str, V)>, name: Seq<char>)
    requires
        forall|j: int| 0 <= j < entries.len() ==> (#[trigger] entries[j]).0@ != name,
    ensures
        !bindings_map(entries).contains_key(name),
    decreases entries.len(),
{
    if entries.len() > 0 {
        lemma_unbound(entries.drop_last(), name);
    }
}

/// The map binds a name to the value of its last binding.
pub proof fn lemma_last_binding<V>(entries: Seq<(&str, V)>, name: Seq<char>, i: int)
    requires
        is_last_binding(entries, name, i),
    ensures
        bindings_map(entries).contains_key(name),
        bindings_map(entries)[name] == entries[i].1,
    decreases entries.len(),
{
    if i < entries.len() - 1 {
        lemma_last_binding(entries.drop_last(), name, i);
    }
}

/// Replacing the last binding of a name is inserting into the map.
pub proof fn lemma_replace_last_binding<'s, V>(
    entries: Seq<(&'s str, V)>,
    name: &'s str,
    value: V,
    i: int,
)
    requires
        is_last_binding(entries, name@, i),
    ensures
        bindings_map(entries.update(i, (name, value))) == bindings_map(entries).insert(
            name@,
            value,
        ),
    decreases entries.len(),
{
    let updated = entries.update(i, (name, value));
    if i == entries.len() - 1 {
        assert(updated.drop_last() == entries.drop_last());
        assert(bindings_map(entries).insert(name@, value) == bindings_map(
            entries.drop_last(),
        ).insert(name@, value));
    } else {
        lemma_replace_last_binding(entries.drop_last(), name, value, i);
        assert(updated.drop_last() == entries.drop_last().update(i, (name, value)));
        let last = entries.last();
        assert(last.0@ != name@);
        assert(bindings_map(entries.drop_last()).insert(name@, value).insert(last.0@, last.1)
            == bindings_map(entries.drop_last()).insert(last.0@, last.1).insert(name@, value));
    }
}

impl<'s, V> View for NameTable<'s, V> {
    type V = Map<Seq<char>, V>;

    closed spec fn view(&self) -> Map<Seq<char>, V> {
        bindings_map(self.entries@)
    }
}

impl<'s, V> NameTable<'s, V> {
    /// A table that binds no name.
    pub fn new() -> (r: Self)
        ensures
            r@ == Map::<Seq<char>, V>::empty(),
    {
        NameTable { entries: Vec::new() }
    }

    /// The place of the last binding of `name`, if it has one.
    fn find(&self, name: &str) -> (r: Option<usize>)
        ensures
            match r {
                Some(i) => is_last_binding(self.entries@, name@, i as int),
                None => forall|j: int|
                    0 <= j < self.entries@.len() ==> (#[trigger] self.entries@[j]).0@ != name@,
            },
    {
        let mut i: usize = self.entries.len();
        while i > 0
            invariant
                i <= self.entries@.len(),
                forall|j: int|
                    i <= j < self.entries@.len() ==> (#[trigger] self.entries@[j]).0@ != name@,
            decreases i,
        {
            i -= 1;
            if str_eq(self.entries[i].0, name) {
                return Some(i);
            }
        }
        None
    }

    /// Binds `name` to `value`, in place of any value it was bound to.
    pub fn insert(&mut self, name: &'s str, value: V)
        ensures
            final(self)@ == old(self)@.insert(name@, value),
    {
        match self.find(name) {
            Some(i) => {
                proof {
                    lemma_replace_last_binding(self.entries@, name, value, i as int);
                }
                self.entries[i] = (name, value);
            },
            None => {
                assert(self.entries@.push((name, value)).drop_last() == self.entries@);
                self.entries.push((name, value));
            },
        }
    }

    /// The value that `name` is bound to, if it is bound.
    pub fn get(&self, name: &str) -> (r: Option<&V>)
        ensures
            match r {
                Some(v) => self@.contains_key(name@) && *v == self@[name@],
                None => !self@.contains_key(name@),
            },
    {
        match self.find(name) {
            Some(i) => {
                proof {
                    lemma_last_binding(self.entries@, name@, i as int);
                }
                Some(&self.entries[i].1)
            },
            None => {
                proof {
                    lemma_unbound(self.entries@, name@);
                }
                None
            },
        }
    }

    /// Whether `name` is bound.
    pub fn contains(&self, name: &str) -> (r: bool)
        ensures
            r == self@.contains_key(name@),
    {
        self.get(name).is_some()
    }
}

} // verus!
