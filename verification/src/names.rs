//! Small maps keyed by text.
use crate::text::same_text;
use vstd::prelude::*;

verus! {

/// A map from names to values, for a handful of names.
#[derive(Debug)]
pub struct NameMap<T> {
    entries: Vec<(String, T)>,
}

/// What stands behind a name in a list of entries; the first counts.
pub open spec fn entry_of<T>(entries: Seq<(String, T)>, name: Seq<char>) -> Option<T>
    decreases entries.len(),
{
    if entries.len() == 0 {
        None
    } else if entries[0].0@ == name {
        Some(entries[0].1)
    } else {
        entry_of(entries.drop_first(), name)
    }
}

/// No two entries have the same name.
pub open spec fn distinct_names<T>(entries: Seq<(String, T)>) -> bool {
    forall|i: int, j: int|
        0 <= i < j < entries.len() ==> (#[trigger] entries[i]).0@ != (#[trigger] entries[j]).0@
}

impl<T> NameMap<T> {
    /// What stands behind a name.
    pub closed spec fn at(&self, name: Seq<char>) -> Option<T> {
        entry_of(self.entries@, name)
    }

    /// No name occurs twice.
    #[verifier::type_invariant]
    pub closed spec fn wf(&self) -> bool {
        distinct_names(self.entries@)
    }

    /// No names.
    pub fn new() -> (r: NameMap<T>)
        ensures
            forall|name: Seq<char>| (#[trigger] r.at(name)) is None,
    {
        NameMap { entries: Vec::new() }
    }

    fn find(&self, name: &str) -> (r: Option<usize>)
        ensures
            match r {
                Some(i) => i < self.entries@.len() && self.entries@[i as int].0@ == name@
                    && self.at(name@) == Some(self.entries@[i as int].1),
                None => self.at(name@) is None && forall|k: int|
                    0 <= k < self.entries@.len() ==> (#[trigger] self.entries@[k]).0@ != name@,
            },
    {
        let ghost all = self.entries@;
        let mut i: usize = 0;
        assert(all.skip(0) =~= all);
        while i < self.entries.len()
            invariant
                i <= self.entries.len(),
                all == self.entries@,
                forall|k: int| 0 <= k < i ==> (#[trigger] all[k]).0@ != name@,
                self.at(name@) == entry_of(all.skip(i as int), name@),
            decreases self.entries.len() - i,
        {
            assert(all.skip(i as int)[0] == all[i as int]);
            if same_text(self.entries[i].0.as_str(), name) {
                return Some(i);
            }
            assert(all.skip(i as int).drop_first() =~= all.skip(i + 1));
            i = i + 1;
        }
        None
    }

    /// What stands behind a name.
    pub fn get(&self, name: &str) -> (r: Option<&T>)
        ensures
            match self.at(name@) {
                Some(value) => r == Some(&value),
                None => r is None,
            },
    {
        match self.find(name) {
            Some(i) => Some(&self.entries[i].1),
            None => None,
        }
    }

    /// Whether a name is there.
    pub fn contains(&self, name: &str) -> (r: bool)
        ensures
            r == (self.at(name@) is Some),
    {
        self.find(name).is_some()
    }

    /// The names, in the order in which they were put in.
    pub closed spec fn names(&self) -> Seq<Seq<char>> {
        Seq::new(self.entries@.len(), |i: int| self.entries@[i].0@)
    }

    /// The names are exactly those with a value.
    pub proof fn names_have_values(&self, name: Seq<char>)
        ensures
            self.names().contains(name) == (self.at(name) is Some),
    {
        if self.at(name) is None {
            absent_everywhere(self.entries@, name);
        } else {
            if !self.names().contains(name) {
                assert forall|k: int| 0 <= k < self.entries@.len() implies (
                #[trigger] self.entries@[k]).0@ != name by {
                    assert(self.names()[k] == self.entries@[k].0@);
                }
                absent_entry(self.entries@, name);
            }
        }
    }

    /// How many names there are.
    pub fn len(&self) -> (r: usize)
        ensures
            r == self.names().len(),
    {
        self.entries.len()
    }

    /// The name at a position and its value.
    pub fn entry(&self, i: usize) -> (r: (&str, &T))
        requires
            i < self.names().len(),
        ensures
            r.0@ == self.names()[i as int],
            self.at(r.0@) == Some(*r.1),
    {
        proof {
            use_type_invariant(self);
            entry_at_position(self.entries@, i as int);
        }
        (self.entries[i].0.as_str(), &self.entries[i].1)
    }

    /// Takes a name out.
    pub fn remove(&mut self, name: &str)
        ensures
            forall|other: Seq<char>|
                #[trigger] final(self).at(other) == if other == name@ {
                    None
                } else {
                    old(self).at(other)
                },
    {
        proof {
            use_type_invariant(&*self);
        }
        let ghost before = self.entries@;
        if let Some(i) = self.find(name) {
            proof {
                distinct_after_remove(before, i as int);
            }
            let mut entries: Vec<(String, T)> = Vec::new();
            std::mem::swap(&mut entries, &mut self.entries);
            let _removed: (String, T) = entries.remove(i);
            self.entries = entries;
            proof {
                assert forall|other: Seq<char>| #[trigger]
                    entry_of(self.entries@, other) == if other == name@ {
                        None
                    } else {
                        entry_of(before, other)
                    } by {
                    entry_after_remove(before, i as int, other);
                }
                assert forall|other: Seq<char>| #[trigger] self.at(other) == if other == name@ {
                    None
                } else {
                    old(self).at(other)
                } by {
                    assert(self.at(other) == entry_of(self.entries@, other));
                }
            }
        }
    }

    /// Puts a value behind a name, in place of what was there.
    pub fn insert(&mut self, name: &str, value: T)
        ensures
            forall|other: Seq<char>|
                #[trigger] final(self).at(other) == if other == name@ {
                    Some(value)
                } else {
                    old(self).at(other)
                },
    {
        self.remove(name);
        proof {
            use_type_invariant(&*self);
        }
        let ghost mid = *self;
        let ghost before = self.entries@;
        let entry: (String, T) = (name.to_owned(), value);
        proof {
            assert(mid.at(name@) is None);
            absent_everywhere(before, name@);
            assert forall|other: Seq<char>| #[trigger]
                entry_of(before.push(entry), other) == if other == name@ {
                    Some(value)
                } else {
                    mid.at(other)
                } by {
                entry_after_push(before, entry, other);
                assert(mid.at(other) == entry_of(before, other));
            }
            distinct_after_push(before, entry);
        }
        let mut entries: Vec<(String, T)> = Vec::new();
        std::mem::swap(&mut entries, &mut self.entries);
        entries.push(entry);
        self.entries = entries;
        proof {
            assert forall|other: Seq<char>| #[trigger] self.at(other) == if other == name@ {
                Some(value)
            } else {
                old(self).at(other)
            } by {
                assert(self.at(other) == entry_of(before.push(entry), other));
            }
        }
    }
}

proof fn distinct_after_push<T>(entries: Seq<(String, T)>, entry: (String, T))
    requires
        distinct_names(entries),
        forall|k: int| 0 <= k < entries.len() ==> (#[trigger] entries[k]).0@ != entry.0@,
    ensures
        distinct_names(entries.push(entry)),
{
    let out = entries.push(entry);
    assert forall|a: int, b: int| 0 <= a < b < out.len() implies (#[trigger] out[a]).0@ != (
    #[trigger] out[b]).0@ by {
        assert(out[a] == entries[a]);
        if b < entries.len() {
            assert(out[b] == entries[b]);
        }
    }
}

proof fn distinct_after_remove<T>(entries: Seq<(String, T)>, at: int)
    requires
        distinct_names(entries),
        0 <= at < entries.len(),
    ensures
        distinct_names(entries.remove(at)),
{
    let out = entries.remove(at);
    assert forall|a: int, b: int| 0 <= a < b < out.len() implies (#[trigger] out[a]).0@ != (
    #[trigger] out[b]).0@ by {
        let a0 = if a < at {
            a
        } else {
            a + 1
        };
        let b0 = if b < at {
            b
        } else {
            b + 1
        };
        assert(out[a] == entries[a0]);
        assert(out[b] == entries[b0]);
    }
}

proof fn entry_after_push<T>(entries: Seq<(String, T)>, entry: (String, T), name: Seq<char>)
    ensures
        entry_of(entries.push(entry), name) == match entry_of(entries, name) {
            Some(value) => Some(value),
            None => if entry.0@ == name {
                Some(entry.1)
            } else {
                None
            },
        },
    decreases entries.len(),
{
    reveal_with_fuel(entry_of, 2);
    if entries.len() == 0 {
        assert(entries.push(entry).drop_first() =~= Seq::empty());
    } else {
        assert(entries.push(entry).drop_first() =~= entries.drop_first().push(entry));
        entry_after_push(entries.drop_first(), entry, name);
    }
}

proof fn entry_after_remove<T>(entries: Seq<(String, T)>, at: int, name: Seq<char>)
    requires
        0 <= at < entries.len(),
        distinct_names(entries),
    ensures
        entry_of(entries.remove(at), name) == if name == entries[at].0@ {
            None
        } else {
            entry_of(entries, name)
        },
    decreases entries.len(),
{
    let rest = entries.drop_first();
    assert forall|i: int, j: int| 0 <= i < j < rest.len() implies (#[trigger] rest[i]).0@ != (
    #[trigger] rest[j]).0@ by {
        assert(rest[i] == entries[i + 1]);
        assert(rest[j] == entries[j + 1]);
    }
    if at == 0 {
        assert(entries.remove(0) =~= rest);
        if name == entries[0].0@ {
            absent_entry(rest, name);
        }
    } else {
        assert(entries.remove(at).drop_first() =~= rest.remove(at - 1));
        assert(entries.remove(at)[0] == entries[0]);
        entry_after_remove(rest, at - 1, name);
    }
}

proof fn entry_at_position<T>(entries: Seq<(String, T)>, at: int)
    requires
        0 <= at < entries.len(),
        distinct_names(entries),
    ensures
        entry_of(entries, entries[at].0@) == Some(entries[at].1),
    decreases entries.len(),
{
    if at > 0 {
        let rest = entries.drop_first();
        assert forall|i: int, j: int| 0 <= i < j < rest.len() implies (#[trigger] rest[i]).0@ != (
        #[trigger] rest[j]).0@ by {
            assert(rest[i] == entries[i + 1]);
            assert(rest[j] == entries[j + 1]);
        }
        entry_at_position(rest, at - 1);
        assert(entries[0].0@ != entries[at].0@);
        assert(rest[at - 1] == entries[at]);
    }
}

proof fn absent_entry<T>(entries: Seq<(String, T)>, name: Seq<char>)
    requires
        forall|k: int| 0 <= k < entries.len() ==> (#[trigger] entries[k]).0@ != name,
    ensures
        entry_of(entries, name) is None,
    decreases entries.len(),
{
    if entries.len() > 0 {
        let rest = entries.drop_first();
        assert forall|k: int| 0 <= k < rest.len() implies (#[trigger] rest[k]).0@ != name by {
            assert(rest[k] == entries[k + 1]);
        }
        absent_entry(rest, name);
    }
}

proof fn absent_everywhere<T>(entries: Seq<(String, T)>, name: Seq<char>)
    requires
        entry_of(entries, name) is None,
    ensures
        forall|k: int| 0 <= k < entries.len() ==> (#[trigger] entries[k]).0@ != name,
    decreases entries.len(),
{
    if entries.len() > 0 {
        let rest = entries.drop_first();
        absent_everywhere(rest, name);
        assert forall|k: int| 0 <= k < entries.len() implies (#[trigger] entries[k]).0@ != name by {
            if k > 0 {
                assert(entries[k] == rest[k - 1]);
            }
        }
    }
}

} // verus!
