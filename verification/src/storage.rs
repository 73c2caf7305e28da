//! An in-memory model of the flat storage directory: one entry per
//! identifier, viewed as a map from identifier to content. The service's
//! directory obeys the same narrow interface — put, get, delete — so the
//! pipeline's storage effects are stated against this map.

use vstd::prelude::*;

verus! {

/// The map that a sequence of named entries denotes; later entries shadow
/// earlier ones, though well-formed stores never hold a name twice.
pub open spec fn map_of(entries: Seq<(String, Vec<u8>)>) -> Map<Seq<char>, Seq<u8>>
    decreases entries.len(),
{
    if entries.len() == 0 {
        Map::empty()
    } else {
        map_of(entries.drop_last()).insert(entries.last().0@, entries.last().1@)
    }
}

/// No two entries carry the same name.
pub open spec fn names_unique(entries: Seq<(String, Vec<u8>)>) -> bool {
    forall|i: int, j: int|
        0 <= i < j < entries.len() ==> (#[trigger] entries[i]).0@ != (#[trigger] entries[j]).0@
}

/// A name is in the denoted map exactly when some entry carries it.
proof fn lemma_map_of_contains(entries: Seq<(String, Vec<u8>)>, name: Seq<char>)
    ensures
        map_of(entries).contains_key(name) <==> exists|i: int|
            0 <= i < entries.len() && (#[trigger] entries[i]).0@ == name,
    decreases entries.len(),
{
    if entries.len() > 0 {
        lemma_map_of_contains(entries.drop_last(), name);
        if entries.last().0@ == name {
            assert((entries[entries.len() - 1]).0@ == name);
        } else if map_of(entries).contains_key(name) {
            let i = choose|i: int|
                0 <= i < entries.len() - 1 && (#[trigger] entries.drop_last()[i]).0@ == name;
            assert((entries[i]).0@ == name);
        } else {
            assert forall|i: int|
                0 <= i < entries.len() && (#[trigger] entries[i]).0@ == name implies false by {
                if i < entries.len() - 1 {
                    assert((entries.drop_last()[i]).0@ == name);
                }
            }
        }
    }
}

/// Under unique names, the denoted map sends an entry's name to its bytes.
proof fn lemma_map_of_index(entries: Seq<(String, Vec<u8>)>, i: int)
    requires
        names_unique(entries),
        0 <= i < entries.len(),
    ensures
        map_of(entries).contains_key(entries[i].0@),
        map_of(entries)[entries[i].0@] == entries[i].1@,
    decreases entries.len(),
{
    lemma_map_of_contains(entries, entries[i].0@);
    if i < entries.len() - 1 {
        assert(entries.last().0@ != entries[i].0@);
        assert(entries.drop_last()[i] == entries[i]);
        lemma_map_of_index(entries.drop_last(), i);
    }
}

/// Removing an entry removes exactly its name from the denoted map.
proof fn lemma_map_of_remove(entries: Seq<(String, Vec<u8>)>, i: int)
    requires
        names_unique(entries),
        0 <= i < entries.len(),
    ensures
        map_of(entries.remove(i)) == map_of(entries).remove(entries[i].0@),
    decreases entries.len(),
{
    let name = entries[i].0@;
    if i == entries.len() - 1 {
        assert(entries.remove(i) =~= entries.drop_last());
        lemma_map_of_contains(entries.drop_last(), name);
        assert forall|j: int|
            0 <= j < entries.drop_last().len() implies (#[trigger] entries.drop_last()[j]).0@
            != name by {
            assert(entries[j] == entries.drop_last()[j]);
        }
        assert(!map_of(entries.drop_last()).contains_key(name));
        assert(map_of(entries.drop_last()).insert(name, entries[i].1@).remove(name) =~= map_of(
            entries.drop_last(),
        ));
    } else {
        let shorter = entries.drop_last();
        assert(entries.remove(i).drop_last() =~= shorter.remove(i));
        assert(entries.remove(i).last() == entries.last());
        lemma_map_of_remove(shorter, i);
        assert(shorter[i] == entries[i]);
        assert(map_of(entries.remove(i)) == map_of(shorter.remove(i)).insert(
            entries.last().0@,
            entries.last().1@,
        ));
        assert(entries.last().0@ != name);
        assert(map_of(shorter).remove(name).insert(entries.last().0@, entries.last().1@)
            =~= map_of(shorter).insert(entries.last().0@, entries.last().1@).remove(name));
    }
}

/// The in-memory store.
pub struct Storage {
    entries: Vec<(String, Vec<u8>)>,
}

impl View for Storage {
    type V = Map<Seq<char>, Seq<u8>>;

    closed spec fn view(&self) -> Map<Seq<char>, Seq<u8>> {
        map_of(self.entries@)
    }
}

impl Storage {
    /// A store never holds a name twice.
    pub closed spec fn wf(self) -> bool {
        names_unique(self.entries@)
    }

    /// An empty store.
    pub fn new() -> (r: Self)
        ensures
            r.wf(),
            r@ == Map::<Seq<char>, Seq<u8>>::empty(),
    {
        Storage { entries: Vec::new() }
    }

    /// The position of the entry carrying `name`, if one does.
    fn find(&self, name: &String) -> (r: Option<usize>)
        ensures
            (match r {
                Some(i) => i < self.entries@.len() && self.entries@[i as int].0@ == name@,
                None => forall|j: int|
                    0 <= j < self.entries@.len() ==> (#[trigger] self.entries@[j]).0@ != name@,
            }),
    {
        let n = self.entries.len();
        let mut i: usize = 0;
        while i < n
            invariant
                i <= n,
                n == self.entries@.len(),
                forall|j: int| 0 <= j < i ==> (#[trigger] self.entries@[j]).0@ != name@,
            decreases n - i,
        {
            if self.entries[i].0 == *name {
                return Some(i);
            }
            i += 1;
        }
        None
    }

    /// Whether a file is stored under `name`.
    pub fn contains(&self, name: &String) -> (r: bool)
        ensures
            r == self@.contains_key(name@),
    {
        proof {
            lemma_map_of_contains(self.entries@, name@);
        }
        match self.find(name) {
            Some(_) => true,
            None => false,
        }
    }

    /// The bytes stored under `name`, if any.
    pub fn get(&self, name: &String) -> (r: Option<&Vec<u8>>)
        requires
            self.wf(),
        ensures
            (match r {
                Some(bytes) => self@.contains_key(name@) && bytes@ == self@[name@],
                None => !self@.contains_key(name@),
            }),
    {
        proof {
            lemma_map_of_contains(self.entries@, name@);
        }
        match self.find(name) {
            Some(i) => {
                proof {
                    lemma_map_of_index(self.entries@, i as int);
                }
                Some(&self.entries[i].1)
            },
            None => None,
        }
    }

    /// Removes the file stored under `name`; reports whether one was there.
    pub fn delete(&mut self, name: &String) -> (r: bool)
        requires
            old(self).wf(),
        ensures
            final (self).wf(),
            r == old(self)@.contains_key(name@),
            final (self)@ == old(self)@.remove(name@),
    {
        proof {
            lemma_map_of_contains(self.entries@, name@);
        }
        match self.find(name) {
            Some(i) => {
                proof {
                    lemma_map_of_remove(self.entries@, i as int);
                    let removed = self.entries@.remove(i as int);
                    assert forall|a: int, b: int|
                        0 <= a < b < removed.len() implies (#[trigger] removed[a]).0@
                        != (#[trigger] removed[b]).0@ by {
                        let ea = if a < i { self.entries@[a] } else { self.entries@[a + 1] };
                        let eb = if b < i { self.entries@[b] } else { self.entries@[b + 1] };
                        assert(removed[a] == ea && removed[b] == eb);
                    }
                }
                self.entries.remove(i);
                true
            },
            None => {
                proof {
                    assert(old(self)@.remove(name@) =~= old(self)@);
                }
                false
            },
        }
    }

    /// Stores `bytes` under `name`, replacing what was there.
    pub fn put(&mut self, name: String, bytes: Vec<u8>)
        requires
            old(self).wf(),
        ensures
            final (self).wf(),
            final (self)@ == old(self)@.insert(name@, bytes@),
    {
        let ghost before = old(self)@;
        let existed = self.delete(&name);
        proof {
            lemma_map_of_contains(self.entries@, name@);
        }
        let ghost mid = self.entries@;
        self.entries.push((name, bytes));
        proof {
            assert(self.entries@.drop_last() =~= mid);
            assert(forall|j: int|
                0 <= j < mid.len() ==> (#[trigger] mid[j]).0@ != self.entries@.last().0@);
            assert(names_unique(self.entries@)) by {
                assert forall|a: int, b: int|
                    0 <= a < b < self.entries@.len() implies (#[trigger] self.entries@[a]).0@
                    != (#[trigger] self.entries@[b]).0@ by {
                    if b == self.entries@.len() - 1 {
                        assert(self.entries@[a] == mid[a]);
                    }
                }
            }
            assert(before.remove(self.entries@.last().0@).insert(
                self.entries@.last().0@,
                self.entries@.last().1@,
            ) =~= before.insert(self.entries@.last().0@, self.entries@.last().1@));
        }
    }
}

} // verus!
