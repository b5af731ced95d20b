use vstd::prelude::*;

verus! {

/// One decoded entry: the name it is stored under and its full payload.
#[derive(Debug)]
pub struct ArchiveEntry {
    pub name: String,
    pub data: Vec<u8>,
}

/// The mapping that results from inserting the pairs in order: of two pairs
/// with one name the later wins.
pub open spec fn table_of(items: Seq<(Seq<char>, Seq<u8>)>) -> Map<Seq<char>, Seq<u8>>
    decreases items.len(),
{
    if items.len() == 0 {
        Map::empty()
    } else {
        table_of(items.drop_last()).insert(items.last().0, items.last().1)
    }
}

/// Whether slot `i` of `entries` holds the name `key`.
pub open spec fn slot_holds(entries: Seq<ArchiveEntry>, i: int, key: Seq<char>) -> bool {
    0 <= i < entries.len() && entries[i].name@ == key
}

/// Whether no name stands in two slots.
pub open spec fn names_distinct(entries: Seq<ArchiveEntry>) -> bool {
    forall|i: int, j: int|
        0 <= i < j < entries.len() ==> (#[trigger] entries[i]).name@ != (#[trigger] entries[j]).name@
}

/// The names that stand in some slot.
pub open spec fn names_of(entries: Seq<ArchiveEntry>) -> Set<Seq<char>> {
    Set::new(|key: Seq<char>| exists|i: int| slot_holds(entries, i, key))
}

/// The mapping that the slots stand for.
pub open spec fn mapping_of(entries: Seq<ArchiveEntry>) -> Map<Seq<char>, Seq<u8>> {
    Map::new(
        |key: Seq<char>| exists|i: int| slot_holds(entries, i, key),
        |key: Seq<char>| entries[choose|i: int| slot_holds(entries, i, key)].data@,
    )
}

proof fn lemma_value_at(entries: Seq<ArchiveEntry>, i: int)
    requires
        names_distinct(entries),
        0 <= i < entries.len(),
    ensures
        mapping_of(entries).contains_key(entries[i].name@),
        mapping_of(entries)[entries[i].name@] == entries[i].data@,
{
    let key = entries[i].name@;
    assert(slot_holds(entries, i, key));
    let c = choose|c: int| slot_holds(entries, c, key);
    assert(slot_holds(entries, c, key));
    if c < i {
        assert(entries[c].name@ != entries[i].name@);
    }
    if i < c {
        assert(entries[i].name@ != entries[c].name@);
    }
}

proof fn lemma_names_count(entries: Seq<ArchiveEntry>)
    requires
        names_distinct(entries),
    ensures
        names_of(entries).finite(),
        names_of(entries).len() == entries.len(),
    decreases entries.len(),
{
    if entries.len() == 0 {
        assert(names_of(entries) =~= Set::empty());
    } else {
        let front = entries.drop_last();
        let last = entries.last();
        assert forall|i: int, j: int| 0 <= i < j < front.len() implies (#[trigger] front[i]).name@
            != (#[trigger] front[j]).name@ by {
            assert(front[i] == entries[i]);
            assert(front[j] == entries[j]);
        }
        lemma_names_count(front);
        assert forall|key: Seq<char>|
            names_of(entries).contains(key) <==> names_of(front).insert(last.name@).contains(
                key,
            ) by {
            if names_of(entries).contains(key) {
                let i = choose|i: int| slot_holds(entries, i, key);
                if i < front.len() {
                    assert(slot_holds(front, i, key));
                }
            }
            if names_of(front).contains(key) {
                let i = choose|i: int| slot_holds(front, i, key);
                assert(slot_holds(entries, i, key));
            }
            if key == last.name@ {
                assert(slot_holds(entries, entries.len() - 1, key));
            }
        }
        assert(names_of(entries) =~= names_of(front).insert(last.name@));
        if names_of(front).contains(last.name@) {
            let i = choose|i: int| slot_holds(front, i, last.name@);
            assert(entries[i].name@ != entries[entries.len() - 1].name@);
        }
    }
}

/// A mapping from entry names to payloads, each name held once.
pub struct EntryTable {
    entries: Vec<ArchiveEntry>,
}

impl EntryTable {
    /// No name is held twice.
    pub closed spec fn wf(&self) -> bool {
        names_distinct(self.entries@)
    }

    /// The mapping from names to payloads that the table stands for.
    pub closed spec fn view(&self) -> Map<Seq<char>, Seq<u8>> {
        mapping_of(self.entries@)
    }

    /// An empty table.
    pub fn new() -> (table: EntryTable)
        ensures
            table.wf(),
            table@ == Map::<Seq<char>, Seq<u8>>::empty(),
    {
        let table = EntryTable { entries: Vec::new() };
        assert(table@ =~= Map::<Seq<char>, Seq<u8>>::empty());
        table
    }

    fn position(&self, name: &String) -> (r: Option<usize>)
        ensures
            match r {
                Some(i) => slot_holds(self.entries@, i as int, name@),
                None => forall|i: int| !slot_holds(self.entries@, i, name@),
            },
    {
        let mut i: usize = 0;
        while i < self.entries.len()
            invariant
                i <= self.entries@.len(),
                forall|j: int| 0 <= j < i ==> !slot_holds(self.entries@, j, name@),
            decreases self.entries@.len() - i,
        {
            if self.entries[i].name == *name {
                return Some(i);
            }
            i += 1;
        }
        None
    }

    /// Puts `data` under `name`; a payload held under that name before is
    /// replaced.
    pub fn insert(&mut self, name: String, data: Vec<u8>)
        requires
            old(self).wf(),
        ensures
            final(self).wf(),
            final(self)@ == old(self)@.insert(name@, data@),
    {
        let ghost key = name@;
        let ghost payload = data@;
        let ghost before = self.entries@;
        let found = self.position(&name);
        let ghost at: int = match found {
            Some(i) => i as int,
            None => before.len() as int,
        };
        match found {
            Some(i) => {
                self.entries.set(i, ArchiveEntry { name, data });
            },
            None => {
                self.entries.push(ArchiveEntry { name, data });
            },
        }
        proof {
            let after = self.entries@;
            assert(after[at].name@ == key && after[at].data@ == payload);
            assert forall|i: int, j: int| 0 <= i < j < after.len() implies (#[trigger] after[i]).name@
                != (#[trigger] after[j]).name@ by {
                if i != at && j != at {
                    assert(before[i].name@ != before[j].name@);
                } else if found is Some {
                    assert(before[i].name@ != before[j].name@);
                } else if i == at {
                    assert(!slot_holds(before, j, key));
                } else {
                    assert(!slot_holds(before, i, key));
                }
            }
            let target = mapping_of(before).insert(key, payload);
            assert forall|k: Seq<char>| mapping_of(after).contains_key(k) <==> target.contains_key(
                k,
            ) by {
                if mapping_of(after).contains_key(k) {
                    let i = choose|i: int| slot_holds(after, i, k);
                    if i != at {
                        assert(slot_holds(before, i, k));
                    }
                }
                if mapping_of(before).contains_key(k) {
                    let i = choose|i: int| slot_holds(before, i, k);
                    if i != at {
                        assert(slot_holds(after, i, k));
                    } else {
                        assert(slot_holds(after, at, k));
                    }
                }
                if k == key {
                    assert(slot_holds(after, at, k));
                }
            }
            assert forall|k: Seq<char>| mapping_of(after).contains_key(k) implies mapping_of(
                after,
            )[k] == target[k] by {
                let i = choose|i: int| slot_holds(after, i, k);
                lemma_value_at(after, i);
                if i != at {
                    assert(slot_holds(before, i, k));
                    lemma_value_at(before, i);
                }
            }
            assert(mapping_of(after) =~= target);
        }
    }

    /// The payload held under `name`, if any.
    pub fn get(&self, name: &String) -> (r: Option<&Vec<u8>>)
        requires
            self.wf(),
        ensures
            r is Some <==> self@.contains_key(name@),
            r is Some ==> r->Some_0@ == self@[name@],
    {
        match self.position(name) {
            Some(i) => {
                proof {
                    lemma_value_at(self.entries@, i as int);
                }
                Some(&self.entries[i].data)
            },
            None => None,
        }
    }

    /// Whether a payload is held under `name`.
    pub fn contains_key(&self, name: &String) -> (r: bool)
        ensures
            r == self@.contains_key(name@),
    {
        self.position(name).is_some()
    }

    /// The number of names held.
    pub fn len(&self) -> (n: usize)
        requires
            self.wf(),
        ensures
            self@.dom().finite(),
            n == self@.dom().len(),
    {
        proof {
            lemma_names_count(self.entries@);
            assert(self@.dom() =~= names_of(self.entries@));
        }
        self.entries.len()
    }

    /// Hands the entries out, each name once.
    pub fn into_entries(self) -> (entries: Vec<ArchiveEntry>)
        requires
            self.wf(),
        ensures
            names_distinct(entries@),
            self@ == mapping_of(entries@),
            entries@.len() == self@.dom().len(),
    {
        proof {
            lemma_names_count(self.entries@);
            assert(self@.dom() =~= names_of(self.entries@));
        }
        self.entries
    }
}

} // verus!
