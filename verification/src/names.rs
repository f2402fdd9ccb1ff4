//! A map from names to values.
use vstd::prelude::*;

verus! {

/// A map keyed by text.
#[derive(Debug)]
pub struct NameMap<V> {
    entries: Vec<(String, V)>,
}

/// The value of the last entry named `name`.
spec fn find<V>(entries: Seq<(String, V)>, name: Seq<char>) -> Option<V>
    decreases entries.len(),
{
    if entries.len() == 0 {
        None
    } else if entries.last().0@ == name {
        Some(entries.last().1)
    } else {
        find(entries.drop_last(), name)
    }
}

impl<V> View for NameMap<V> {
    type V = Map<Seq<char>, V>;

    closed spec fn view(&self) -> Map<Seq<char>, V> {
        Map::new(
            |name: Seq<char>| find(self.entries@, name) is Some,
            |name: Seq<char>| find(self.entries@, name)->0,
        )
    }
}

proof fn lemma_find_at<V>(entries: Seq<(String, V)>, i: int)
    requires
        0 <= i < entries.len(),
        forall|j: int| i < j < entries.len() ==> (#[trigger] entries[j]).0@ != entries[i].0@,
    ensures
        find(entries, entries[i].0@) == Some(entries[i].1),
    decreases entries.len(),
{
    if i < entries.len() - 1 {
        let rest = entries.drop_last();
        assert forall|j: int| i < j < rest.len() implies (#[trigger] rest[j]).0@ != rest[i].0@ by {
            assert(rest[j] == entries[j]);
        }
        lemma_find_at(rest, i);
    }
}

proof fn lemma_find_none<V>(entries: Seq<(String, V)>, name: Seq<char>)
    requires
        forall|j: int| 0 <= j < entries.len() ==> (#[trigger] entries[j]).0@ != name,
    ensures
        find(entries, name) is None,
    decreases entries.len(),
{
    if entries.len() > 0 {
        let rest = entries.drop_last();
        assert forall|j: int| 0 <= j < rest.len() implies (#[trigger] rest[j]).0@ != name by {
            assert(rest[j] == entries[j]);
        }
        lemma_find_none(rest, name);
    }
}

proof fn lemma_find_update<V>(
    entries: Seq<(String, V)>,
    i: int,
    entry: (String, V),
    name: Seq<char>,
)
    requires
        0 <= i < entries.len(),
        entry.0@ == entries[i].0@,
        name != entry.0@,
    ensures
        find(entries.update(i, entry), name) == find(entries, name),
    decreases entries.len(),
{
    if i < entries.len() - 1 {
        lemma_find_update(entries.drop_last(), i, entry, name);
        assert(entries.update(i, entry).drop_last() =~= entries.drop_last().update(i, entry));
    } else {
        assert(entries.update(i, entry).drop_last() =~= entries.drop_last());
    }
}

proof fn lemma_find_without<V>(entries: Seq<(String, V)>, i: int, name: Seq<char>)
    requires
        0 <= i < entries.len(),
        name != entries[i].0@,
    ensures
        find(entries.remove(i), name) == find(entries, name),
    decreases entries.len(),
{
    let rest = entries.remove(i);
    if i < entries.len() - 1 {
        assert(rest.last() == entries.last());
        assert(rest.drop_last() =~= entries.drop_last().remove(i));
        if entries.last().0@ != name {
            lemma_find_without(entries.drop_last(), i, name);
        }
    } else {
        assert(rest =~= entries.drop_last());
    }
}

impl<V> NameMap<V> {
    /// An empty map.
    pub fn new() -> (r: Self)
        ensures
            r@ == Map::<Seq<char>, V>::empty(),
    {
        let r = NameMap { entries: Vec::new() };
        assert(r@ =~= Map::<Seq<char>, V>::empty());
        r
    }

    /// The index of the last entry named `name`.
    fn position(&self, name: &str) -> (r: Option<usize>)
        ensures
            match r {
                Some(i) => {
                    &&& i < self.entries.len()
                    &&& self.entries[i as int].0@ == name@
                    &&& forall|j: int|
                        i < j < self.entries.len() ==> (#[trigger] self.entries[j]).0@ != name@
                },
                None => forall|j: int|
                    0 <= j < self.entries.len() ==> (#[trigger] self.entries[j]).0@ != name@,
            },
    {
        let mut i: usize = self.entries.len();
        while i > 0
            invariant
                i <= self.entries.len(),
                forall|j: int|
                    i <= j < self.entries.len() ==> (#[trigger] self.entries[j]).0@ != name@,
            decreases i,
        {
            i = i - 1;
            if *self.entries[i].0.as_str() == *name {
                return Some(i);
            }
        }
        None
    }

    /// The value under `name`.
    pub fn get(&self, name: &str) -> (r: Option<&V>)
        ensures
            match r {
                Some(v) => self@.contains_key(name@) && self@[name@] == *v,
                None => !self@.contains_key(name@),
            },
    {
        match self.position(name) {
            Some(i) => {
                proof {
                    lemma_find_at(self.entries@, i as int);
                }
                Some(&self.entries[i].1)
            },
            None => {
                proof {
                    lemma_find_none(self.entries@, name@);
                }
                None
            },
        }
    }

    /// Puts `value` under `name`, in place of what was there.
    pub fn insert(&mut self, name: String, value: V)
        ensures
            final(self)@ == old(self)@.insert(name@, value),
    {
        let ghost before = self.entries@;
        match self.position(name.as_str()) {
            Some(i) => {
                let ghost entry = (name, value);
                self.entries.set(i, (name, value));
                proof {
                    lemma_find_at(before, i as int);
                    assert forall|j: int| i < j < self.entries@.len() implies (
                    #[trigger] self.entries@[j]).0@ != entry.0@ by {
                        assert(self.entries@[j] == before[j]);
                    }
                    lemma_find_at(self.entries@, i as int);
                    assert forall|k: Seq<char>| k != name@ implies find(self.entries@, k) == find(
                        before,
                        k,
                    ) by {
                        lemma_find_update(before, i as int, entry, k);
                    }
                }
            },
            None => {
                self.entries.push((name, value));
                assert(self.entries@.drop_last() =~= before);
            },
        }
        assert(self@ =~= old(self)@.insert(name@, value));
    }

    /// Takes out what is under `name`.
    pub fn remove(&mut self, name: &str)
        ensures
            final(self)@ == old(self)@.remove(name@),
    {
        let ghost kept = self@.remove(name@);
        loop
            invariant_except_break
                self@.remove(name@) == kept,
            ensures
                self@ == kept,
            decreases self.entries@.len(),
        {
            let ghost before = self.entries@;
            let ghost was = self@;
            match self.position(name) {
                Some(i) => {
                    self.entries.remove(i);
                    proof {
                        assert forall|k: Seq<char>| k != name@ implies find(self.entries@, k)
                            == find(before, k) by {
                            lemma_find_without(before, i as int, k);
                        }
                        assert(self@.remove(name@) =~= was.remove(name@));
                    }
                },
                None => {
                    proof {
                        lemma_find_none(self.entries@, name@);
                        assert(self@.remove(name@) =~= self@);
                    }
                    break;
                },
            }
        }
    }
}

/// What is put under a name is found under it until it is taken away, and neither
/// touches what is under other names.
pub proof fn law_names_are_kept_apart<V>(
    m: &mut NameMap<V>,
    n: &mut NameMap<V>,
    put: NameMap<V>,
    left: NameMap<V>,
    name: String,
    gone: &str,
    value: V,
    asked: &str,
    before: Option<&V>,
    found: Option<&V>,
    had: Option<&V>,
    has: Option<&V>,
)
    requires
        call_ensures(NameMap::<V>::insert, (m, name, value), ()),
        put == *final(m),
        call_ensures(NameMap::<V>::get, (&*old(m), asked), before),
        call_ensures(NameMap::<V>::get, (&put, asked), found),
        call_ensures(NameMap::<V>::remove, (n, gone), ()),
        left == *final(n),
        call_ensures(NameMap::<V>::get, (&*old(n), asked), had),
        call_ensures(NameMap::<V>::get, (&left, asked), has),
    ensures
        asked@ == name@ ==> (found matches Some(v) && *v == value),
        asked@ != name@ ==> (found is Some <==> before is Some) && (found is Some ==> *found->0
            == *before->0),
        asked@ == gone@ ==> has is None,
        asked@ != gone@ ==> (has is Some <==> had is Some) && (has is Some ==> *has->0 == *had->0),
{
}

} // verus!
