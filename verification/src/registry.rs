use vstd::prelude::*;
use vstd::map::*;

verus! {

/// One live webview: its generated identifier and the slot under which the
/// host toolkit keeps the actual window handle.
pub struct Entry {
    pub id: String,
    pub slot: usize,
}

/// Whether the identifiers in `s` are pairwise distinct.
pub open spec fn ids_distinct(s: Seq<Entry>) -> bool {
    forall|i: int, j: int|
        #![trigger s[i].id, s[j].id]
        0 <= i < j < s.len() ==> s[i].id@ != s[j].id@
}

/// The identifier-to-slot map that a sequence of entries denotes.
pub open spec fn map_of(s: Seq<Entry>) -> Map<Seq<char>, usize> {
    Map::new(
        |k: Seq<char>| exists|i: int| 0 <= i < s.len() && s[i].id@ == k,
        |k: Seq<char>| s[choose|i: int| 0 <= i < s.len() && s[i].id@ == k].slot,
    )
}

proof fn lemma_distinct_pair(s: Seq<Entry>, a: int, b: int)
    requires
        ids_distinct(s),
        0 <= a < s.len(),
        0 <= b < s.len(),
        a != b,
    ensures
        s[a].id@ != s[b].id@,
{
    if a < b {
        assert(s[a].id@ != s[b].id@);
    } else {
        assert(s[b].id@ != s[a].id@);
    }
}

/// With distinct identifiers, the entry at `i` is what the denoted map holds
/// under its identifier.
proof fn lemma_map_of_at(s: Seq<Entry>, i: int)
    requires
        ids_distinct(s),
        0 <= i < s.len(),
    ensures
        map_of(s).dom().contains(s[i].id@),
        map_of(s)[s[i].id@] == s[i].slot,
{
    let k = s[i].id@;
    assert(0 <= i < s.len() && s[i].id@ == k);
    let j = choose|i: int| 0 <= i < s.len() && s[i].id@ == k;
    if j != i {
        lemma_distinct_pair(s, i, j);
        assert(false);
    }
}

/// Pushing an entry with a fresh identifier inserts it into the denoted map.
proof fn lemma_map_of_push(s: Seq<Entry>, e: Entry)
    requires
        ids_distinct(s),
        forall|i: int| 0 <= i < s.len() ==> s[i].id@ != e.id@,
    ensures
        ids_distinct(s.push(e)),
        map_of(s.push(e)) =~= map_of(s).insert(e.id@, e.slot),
{
    let s2 = s.push(e);
    let n = s.len() as int;
    assert forall|a: int, b: int| 0 <= a < b < s2.len() implies s2[a].id@ != s2[b].id@ by {
        if b == n {
            assert(s2[a] == s[a]);
            assert(s2[b] == e);
        } else {
            assert(s2[a] == s[a]);
            assert(s2[b] == s[b]);
        }
    }
    assert_maps_equal!(map_of(s2), map_of(s).insert(e.id@, e.slot), k => {
        if map_of(s2).dom().contains(k) {
            let i2 = choose|i: int| 0 <= i < s2.len() && s2[i].id@ == k;
            lemma_map_of_at(s2, i2);
            if i2 == n {
                assert(s2[i2] == e);
                assert(k == e.id@);
            } else {
                assert(s2[i2] == s[i2]);
                lemma_map_of_at(s, i2);
            }
        }
        if map_of(s).insert(e.id@, e.slot).dom().contains(k) {
            if k == e.id@ {
                assert(s2[n] == e);
                assert(0 <= n < s2.len() && s2[n].id@ == k);
            } else {
                let i0 = choose|i: int| 0 <= i < s.len() && s[i].id@ == k;
                assert(s2[i0] == s[i0]);
                assert(0 <= i0 < s2.len() && s2[i0].id@ == k);
                lemma_map_of_at(s, i0);
                lemma_map_of_at(s2, i0);
            }
        }
    });
}

/// Removing the entry at `j` removes its identifier from the denoted map.
proof fn lemma_map_of_remove(s: Seq<Entry>, j: int)
    requires
        ids_distinct(s),
        0 <= j < s.len(),
    ensures
        ids_distinct(s.remove(j)),
        map_of(s.remove(j)) =~= map_of(s).remove(s[j].id@),
{
    let s2 = s.remove(j);
    s.remove_ensures(j);
    let k = s[j].id@;
    assert forall|a: int, b: int| 0 <= a < b < s2.len() implies s2[a].id@ != s2[b].id@ by {
        let a0: int = if a < j {
            a
        } else {
            a + 1
        };
        let b0: int = if b < j {
            b
        } else {
            b + 1
        };
        assert(s2[a] == s[a0]);
        assert(s2[b] == s[b0]);
        lemma_distinct_pair(s, a0, b0);
    }
    assert_maps_equal!(map_of(s2), map_of(s).remove(k), k2 => {
        if map_of(s2).dom().contains(k2) {
            let i2 = choose|i: int| 0 <= i < s2.len() && s2[i].id@ == k2;
            let i0: int = if i2 < j {
                i2
            } else {
                i2 + 1
            };
            assert(s2[i2] == s[i0]);
            lemma_distinct_pair(s, i0, j);
            lemma_map_of_at(s2, i2);
            lemma_map_of_at(s, i0);
        }
        if map_of(s).remove(k).dom().contains(k2) {
            let i0 = choose|i: int| 0 <= i < s.len() && s[i].id@ == k2;
            if i0 != j {
                lemma_distinct_pair(s, i0, j);
            }
            let i2: int = if i0 < j {
                i0
            } else {
                i0 - 1
            };
            assert(s2[i2] == s[i0]);
            assert(0 <= i2 < s2.len() && s2[i2].id@ == k2);
        }
    });
}

/// A registry of live webviews: generated string identifiers mapped to the
/// slots under which the host toolkit keeps the window handles.  Seen
/// abstractly (through `@`) it is a finite map from identifier to slot.
pub struct Registry {
    entries: Vec<Entry>,
}

impl View for Registry {
    type V = Map<Seq<char>, usize>;

    closed spec fn view(&self) -> Map<Seq<char>, usize> {
        map_of(self.entries@)
    }
}

impl Registry {
    /// The registry's invariant: no identifier occurs twice.
    pub closed spec fn wf(&self) -> bool {
        ids_distinct(self.entries@)
    }

    /// An empty registry.
    pub fn new() -> (r: Registry)
        ensures
            r.wf(),
            r@ == Map::<Seq<char>, usize>::empty(),
    {
        let r = Registry { entries: Vec::new() };
        proof {
            assert_maps_equal!(r@, Map::<Seq<char>, usize>::empty(), k => {});
        }
        r
    }

    /// The index of the entry for `id`, if one is present.
    fn find_index(&self, id: &String) -> (r: Option<usize>)
        ensures
            match r {
                Some(j) => j < self.entries@.len() && self.entries@[j as int].id@ == id@,
                None => forall|i: int|
                    0 <= i < self.entries@.len() ==> self.entries@[i].id@ != id@,
            },
    {
        let mut j: usize = 0;
        while j < self.entries.len()
            invariant
                j <= self.entries@.len(),
                forall|i: int| 0 <= i < j ==> self.entries@[i].id@ != id@,
            decreases self.entries@.len() - j,
        {
            if self.entries[j].id == *id {
                return Some(j);
            }
            j += 1;
        }
        None
    }

    /// Look up the slot registered under `id`.
    pub fn get(&self, id: &String) -> (r: Option<usize>)
        requires
            self.wf(),
        ensures
            self@.dom().contains(id@) ==> r == Some(self@[id@]),
            !self@.dom().contains(id@) ==> r is None,
    {
        match self.find_index(id) {
            Some(j) => {
                proof {
                    lemma_map_of_at(self.entries@, j as int);
                }
                Some(self.entries[j].slot)
            },
            None => {
                proof {
                    assert(!self@.dom().contains(id@));
                }
                None
            },
        }
    }

    /// Register `slot` under `id`.  An identifier that is already present is
    /// overwritten, exactly as a map insertion.
    pub fn insert(&mut self, id: String, slot: usize)
        requires
            old(self).wf(),
        ensures
            final(self).wf(),
            final(self)@ == old(self)@.insert(id@, slot),
    {
        let ghost s0 = self.entries@;
        match self.find_index(&id) {
            Some(j) => {
                proof {
                    lemma_map_of_remove(s0, j as int);
                    s0.remove_ensures(j as int);
                }
                self.entries.remove(j);
                let ghost s1 = self.entries@;
                let ghost e = Entry { id: id, slot: slot };
                proof {
                    assert forall|i: int| 0 <= i < s1.len() implies s1[i].id@ != id@ by {
                        let i0: int = if i < j {
                            i
                        } else {
                            i + 1
                        };
                        assert(s1[i] == s0[i0]);
                        if i0 != j {
                            lemma_distinct_pair(s0, i0, j as int);
                        }
                    }
                    lemma_map_of_push(s1, e);
                }
                self.entries.push(Entry { id, slot });
                proof {
                    assert(map_of(s0).remove(e.id@).insert(e.id@, e.slot) =~= map_of(s0).insert(
                        e.id@,
                        e.slot,
                    ));
                }
            },
            None => {
                let ghost e = Entry { id: id, slot: slot };
                proof {
                    lemma_map_of_push(s0, e);
                }
                self.entries.push(Entry { id, slot });
            },
        }
    }

    /// Remove the entry for `id`, handing back its slot, or `None` when no
    /// such entry is present.
    pub fn remove(&mut self, id: &String) -> (r: Option<usize>)
        requires
            old(self).wf(),
        ensures
            final(self).wf(),
            old(self)@.dom().contains(id@) ==> r == Some(old(self)@[id@]) && final(self)@ == old(
                self,
            )@.remove(id@),
            !old(self)@.dom().contains(id@) ==> r is None && final(self)@ == old(self)@,
    {
        let ghost s0 = self.entries@;
        match self.find_index(id) {
            Some(j) => {
                proof {
                    lemma_map_of_at(s0, j as int);
                    lemma_map_of_remove(s0, j as int);
                }
                let e = self.entries.remove(j);
                Some(e.slot)
            },
            None => {
                proof {
                    assert(!self@.dom().contains(id@));
                }
                None
            },
        }
    }
}

} // verus!
