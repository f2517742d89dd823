//! Bookkeeping over entities the hooks observe: per-address entries for
//! characters and buildings, and the name-keyed database of candidate object
//! addresses a heap scan recovers.
//!
//! Both registries keep insertion order, so listings are deterministic.

use vstd::prelude::*;

use crate::scan;
use crate::text;

verus! {

/// What the engine remembers about one observed entity: its display name
/// and the tick at which a hook last saw it.
pub struct EntityEntry {
    pub name: Vec<u8>,
    pub last_seen: u64,
}

/// Address-keyed registry of observed entities, in first-seen order.
pub struct EntityRegistry {
    pub entries: Vec<(usize, EntityEntry)>,
}

/// No address occurs twice.
pub open spec fn spec_keys_unique(s: Seq<(usize, EntityEntry)>) -> bool {
    forall|i: int, j: int| 0 <= i < j < s.len() ==> s[i].0 != s[j].0
}

/// Some entry carries this address.
pub open spec fn spec_has_key(s: Seq<(usize, EntityEntry)>, key: usize) -> bool {
    exists|i: int| 0 <= i < s.len() && s[i].0 == key
}

impl EntityRegistry {
    /// The registry's invariant: one entry per address.
    pub open spec fn wf(self) -> bool {
        spec_keys_unique(self.entries@)
    }

    /// An empty registry.
    pub fn new() -> (r: EntityRegistry)
        ensures
            r.wf(),
            r.entries@.len() == 0,
    {
        EntityRegistry { entries: Vec::new() }
    }

    /// Number of entries.
    pub fn len(&self) -> (r: usize)
        ensures
            r == self.entries@.len(),
    {
        self.entries.len()
    }

    /// The entry at position `i`, in first-seen order.
    pub fn get(&self, i: usize) -> (r: &(usize, EntityEntry))
        requires
            i < self.entries@.len(),
        ensures
            *r == self.entries@[i as int],
    {
        &self.entries[i]
    }

    /// Index of the entry for `key`, if one exists.
    fn find(&self, key: usize) -> (r: Option<usize>)
        ensures
            r matches Some(i) ==> i < self.entries@.len() && self.entries@[i as int].0 == key,
            r is None ==> !spec_has_key(self.entries@, key),
    {
        let n = self.entries.len();
        let mut i: usize = 0;
        while i < n
            invariant
                i <= n,
                n == self.entries@.len(),
                forall|j: int| 0 <= j < i ==> self.entries@[j].0 != key,
            decreases n - i,
        {
            if self.entries[i].0 == key {
                return Some(i);
            }
            i = i + 1;
        }
        None
    }

    /// Records one observation of the entity at `key`: a known address gets
    /// its last-seen tick refreshed and keeps its name; an unknown one is
    /// appended with `default_name`.
    pub fn touch(&mut self, key: usize, default_name: Vec<u8>, now: u64)
        requires
            old(self).wf(),
        ensures
            final(self).wf(),
            final(self).entries@.len() == old(self).entries@.len() + (
            if spec_has_key(old(self).entries@, key) {
                0int
            } else {
                1int
            }),
            spec_has_key(old(self).entries@, key) ==> exists|i: int|
                {
                    &&& 0 <= i < old(self).entries@.len()
                    &&& old(self).entries@[i].0 == key
                    &&& final(self).entries@[i].0 == key
                    &&& final(self).entries@[i].1.name@ == old(self).entries@[i].1.name@
                    &&& final(self).entries@[i].1.last_seen == now
                    &&& forall|j: int|
                        0 <= j < old(self).entries@.len() && j != i ==> final(self).entries@[j]
                            == old(self).entries@[j]
                },
            !spec_has_key(old(self).entries@, key) ==> {
                &&& forall|j: int|
                    0 <= j < old(self).entries@.len() ==> final(self).entries@[j] == old(
                        self,
                    ).entries@[j]
                &&& final(self).entries@.last().0 == key
                &&& final(self).entries@.last().1.name@ == default_name@
                &&& final(self).entries@.last().1.last_seen == now
            },
    {
        let found = self.find(key);
        match found {
            Some(i) => {
                let name = self.entries[i].1.name.clone();
                let ghost old_entries = self.entries@;
                proof {
                    assert(name@ =~= old_entries[i as int].1.name@);
                }
                self.entries.set(i, (key, EntityEntry { name, last_seen: now }));
                proof {
                    assert(old_entries[i as int].0 == key);
                    assert forall|a: int, b: int|
                        0 <= a < b < self.entries@.len() implies self.entries@[a].0
                        != self.entries@[b].0 by {
                        assert(old_entries[a].0 == self.entries@[a].0);
                        assert(old_entries[b].0 == self.entries@[b].0);
                    }
                }
            },
            None => {
                self.entries.push((key, EntityEntry { name: default_name, last_seen: now }));
                proof {
                    let ghost prev = old(self).entries@;
                    assert forall|a: int, b: int|
                        0 <= a < b < self.entries@.len() implies self.entries@[a].0
                        != self.entries@[b].0 by {
                        if b < prev.len() {
                            assert(prev[a].0 != prev[b].0);
                        } else {
                            assert(self.entries@[b].0 == key);
                            assert(!spec_has_key(prev, key));
                            assert(self.entries@[a].0 == prev[a].0);
                        }
                    }
                }
            },
        }
    }

    /// Indices of the entries whose name starts with `prefix`, ascending.
    /// An empty prefix selects every entry.
    pub fn matching_indices(&self, prefix: &Vec<u8>) -> (r: Vec<usize>)
        ensures
            scan::sorted_strict(r@),
            forall|x: int|
                0 <= x < r@.len() ==> r@[x] < self.entries@.len() && text::spec_is_prefix(
                    prefix@,
                    self.entries@[r@[x] as int].1.name@,
                ),
            forall|i: int|
                0 <= i < self.entries@.len() && text::spec_is_prefix(
                    prefix@,
                    #[trigger] self.entries@[i].1.name@,
                ) ==> r@.contains(i as usize),
    {
        let n = self.entries.len();
        let mut r: Vec<usize> = Vec::new();
        let mut i: usize = 0;
        while i < n
            invariant
                i <= n,
                n == self.entries@.len(),
                scan::sorted_strict(r@),
                forall|x: int|
                    0 <= x < r@.len() ==> r@[x] < i && text::spec_is_prefix(
                        prefix@,
                        self.entries@[r@[x] as int].1.name@,
                    ),
                forall|j: int|
                    0 <= j < i && text::spec_is_prefix(
                        prefix@,
                        #[trigger] self.entries@[j].1.name@,
                    ) ==> r@.contains(j as usize),
            decreases n - i,
        {
            let ghost pre = r@;
            let matched = text::starts_with_bytes(&self.entries[i].1.name, prefix);
            if matched {
                r.push(i);
            }
            proof {
                assert forall|j: int|
                    0 <= j < i + 1 && text::spec_is_prefix(
                        prefix@,
                        #[trigger] self.entries@[j].1.name@,
                    ) implies r@.contains(j as usize) by {
                    if j < i {
                        assert(pre.contains(j as usize));
                        let x = choose|x: int| 0 <= x < pre.len() && pre[x] == j as usize;
                        assert(r@[x] == j as usize);
                    } else {
                        assert(r@[r@.len() - 1] == i);
                    }
                }
            }
            i = i + 1;
        }
        r
    }
}

/// Name-keyed database of candidate object addresses, in insertion order.
pub struct DbRegistry {
    pub entries: Vec<(Vec<u8>, usize)>,
}

/// No name occurs twice.
pub open spec fn spec_names_unique(s: Seq<(Vec<u8>, usize)>) -> bool {
    forall|i: int, j: int| 0 <= i < j < s.len() ==> s[i].0@ != s[j].0@
}

/// Some entry carries this name.
pub open spec fn spec_has_name(s: Seq<(Vec<u8>, usize)>, name: Seq<u8>) -> bool {
    exists|i: int| 0 <= i < s.len() && s[i].0@ == name
}

impl DbRegistry {
    /// The database's invariant: one entry per name.
    pub open spec fn wf(self) -> bool {
        spec_names_unique(self.entries@)
    }

    /// An empty database.
    pub fn new() -> (r: DbRegistry)
        ensures
            r.wf(),
            r.entries@.len() == 0,
    {
        DbRegistry { entries: Vec::new() }
    }

    /// Number of entries.
    pub fn len(&self) -> (r: usize)
        ensures
            r == self.entries@.len(),
    {
        self.entries.len()
    }

    /// The entry at position `i`, in insertion order.
    pub fn get(&self, i: usize) -> (r: &(Vec<u8>, usize))
        requires
            i < self.entries@.len(),
        ensures
            *r == self.entries@[i as int],
    {
        &self.entries[i]
    }

    /// Index of the entry named `name`, if one exists.
    fn find(&self, name: &Vec<u8>) -> (r: Option<usize>)
        ensures
            r matches Some(i) ==> i < self.entries@.len() && self.entries@[i as int].0@ == name@,
            r is None ==> !spec_has_name(self.entries@, name@),
    {
        let n = self.entries.len();
        let mut i: usize = 0;
        while i < n
            invariant
                i <= n,
                n == self.entries@.len(),
                forall|j: int| 0 <= j < i ==> self.entries@[j].0@ != name@,
            decreases n - i,
        {
            if self.entries[i].0.len() == name.len() {
                let eq = crate::bytes::bytes_eq_at(&self.entries[i].0, 0, name);
                if eq {
                    proof {
                        assert(self.entries@[i as int].0@ =~= name@);
                    }
                    return Some(i);
                }
                proof {
                    if self.entries@[i as int].0@ == name@ {
                        assert(self.entries@[i as int].0@.subrange(0, name@.len() as int)
                            =~= name@);
                    }
                }
            }
            i = i + 1;
        }
        None
    }

    /// Records `address` under `name`: a known name has its address
    /// replaced, an unknown one is appended.
    pub fn insert(&mut self, name: Vec<u8>, address: usize)
        requires
            old(self).wf(),
        ensures
            final(self).wf(),
            final(self).entries@.len() == old(self).entries@.len() + (
            if spec_has_name(old(self).entries@, name@) {
                0int
            } else {
                1int
            }),
            spec_has_name(old(self).entries@, name@) ==> exists|i: int|
                {
                    &&& 0 <= i < old(self).entries@.len()
                    &&& old(self).entries@[i].0@ == name@
                    &&& final(self).entries@[i].0@ == name@
                    &&& final(self).entries@[i].1 == address
                    &&& forall|j: int|
                        0 <= j < old(self).entries@.len() && j != i ==> final(self).entries@[j]
                            == old(self).entries@[j]
                },
            !spec_has_name(old(self).entries@, name@) ==> {
                &&& forall|j: int|
                    0 <= j < old(self).entries@.len() ==> final(self).entries@[j] == old(
                        self,
                    ).entries@[j]
                &&& final(self).entries@.last().0@ == name@
                &&& final(self).entries@.last().1 == address
            },
    {
        let found = self.find(&name);
        match found {
            Some(i) => {
                let ghost old_entries = self.entries@;
                let existing = self.entries[i].0.clone();
                proof {
                    assert(existing@ =~= old_entries[i as int].0@);
                }
                self.entries.set(i, (existing, address));
                proof {
                    assert forall|a: int, b: int|
                        0 <= a < b < self.entries@.len() implies self.entries@[a].0@
                        != self.entries@[b].0@ by {
                        assert(old_entries[a].0@ == self.entries@[a].0@);
                        assert(old_entries[b].0@ == self.entries@[b].0@);
                    }
                    assert({
                        &&& 0 <= i < old_entries.len()
                        &&& old_entries[i as int].0@ == name@
                        &&& self.entries@[i as int].0@ == name@
                        &&& self.entries@[i as int].1 == address
                        &&& forall|j: int|
                            0 <= j < old_entries.len() && j != i ==> self.entries@[j]
                                == old_entries[j]
                    });
                }
            },
            None => {
                self.entries.push((name, address));
                proof {
                    let ghost prev = old(self).entries@;
                    assert forall|a: int, b: int|
                        0 <= a < b < self.entries@.len() implies self.entries@[a].0@
                        != self.entries@[b].0@ by {
                        if b < prev.len() {
                            assert(prev[a].0@ != prev[b].0@);
                        } else {
                            assert(self.entries@[b].0@ == name@);
                            assert(!spec_has_name(prev, name@));
                            assert(self.entries@[a].0@ == prev[a].0@);
                        }
                    }
                }
            },
        }
    }
}

/// Moves each scan hit back from the scanned field to the base of the object
/// holding it: the scan finds a known pointer stored `field_offset` bytes
/// into each candidate object.
pub fn candidate_object_addrs(results: &Vec<usize>, field_offset: usize) -> (r: Vec<usize>)
    requires
        forall|i: int| 0 <= i < results@.len() ==> #[trigger] results@[i] >= field_offset,
    ensures
        r@.len() == results@.len(),
        forall|i: int| 0 <= i < r@.len() ==> r@[i] == results@[i] - field_offset,
{
    let n = results.len();
    let mut r: Vec<usize> = Vec::new();
    let mut i: usize = 0;
    while i < n
        invariant
            i <= n,
            n == results@.len(),
            forall|j: int| 0 <= j < results@.len() ==> #[trigger] results@[j] >= field_offset,
            r@.len() == i,
            forall|j: int| 0 <= j < i ==> r@[j] == results@[j] - field_offset,
        decreases n - i,
    {
        r.push(results[i] - field_offset);
        i = i + 1;
    }
    r
}

} // verus!
