//! An ordered mapping from entry identifiers to byte offsets.

use crate::text::text_eq;
use vstd::prelude::*;

verus! {

/// One entry of an index as a plain value: the identifier and the offset.
pub type Entry = (Seq<char>, u64);

/// No identifier occurs twice.
pub open spec fn distinct_keys(entries: Seq<Entry>) -> bool {
    forall|i: int, j: int|
        0 <= i < j < entries.len() ==> (#[trigger] entries[i]).0 != (#[trigger] entries[j]).0
}

/// Whether an entry with identifier `key` is present.
pub open spec fn has_key(entries: Seq<Entry>, key: Seq<char>) -> bool {
    exists|i: int| 0 <= i < entries.len() && (#[trigger] entries[i]).0 == key
}

/// The ordinal of the entry with identifier `key`, where there is one.
pub open spec fn ordinal_of(entries: Seq<Entry>, key: Seq<char>) -> int {
    choose|i: int| 0 <= i < entries.len() && (#[trigger] entries[i]).0 == key
}

/// The offset recorded for `key`, if any.
pub open spec fn lookup(entries: Seq<Entry>, key: Seq<char>) -> Option<u64> {
    if has_key(entries, key) {
        Some(entries[ordinal_of(entries, key)].1)
    } else {
        None
    }
}

/// The entries after `key` has been given `offset`: an identifier already
/// present keeps its ordinal and takes the new offset, a new one goes last.
pub open spec fn inserted(entries: Seq<Entry>, key: Seq<char>, offset: u64) -> Seq<Entry> {
    if has_key(entries, key) {
        entries.update(ordinal_of(entries, key), (key, offset))
    } else {
        entries.push((key, offset))
    }
}

/// An index as a plain value: what kind of entry it lists, its entries in
/// ordinal order, and whether it has been filled from a document.
pub struct IndexView {
    pub kind: Seq<char>,
    pub entries: Seq<Entry>,
    pub initialized: bool,
}

/// An empty, uninitialised index for entries of kind `kind`.
pub open spec fn new_index(kind: Seq<char>) -> IndexView {
    IndexView { kind, entries: Seq::empty(), initialized: false }
}

/// An ordered mapping from identifier to byte offset. Entries keep the order
/// in which their identifiers were first inserted, so an entry can be reached
/// by its ordinal as well as by its identifier.
#[derive(Debug)]
pub struct OffsetIndex {
    name: String,
    offsets: Vec<(String, u64)>,
    init: bool,
}

impl View for OffsetIndex {
    type V = IndexView;

    open spec fn view(&self) -> IndexView {
        IndexView { kind: self.kind(), entries: self.entries(), initialized: self.initialized() }
    }
}

impl OffsetIndex {
    /// The entries in ordinal order.
    pub closed spec fn entries(&self) -> Seq<Entry> {
        Seq::new(self.offsets@.len(), |i: int| (self.offsets@[i].0@, self.offsets@[i].1))
    }

    /// No identifier occurs twice.
    pub closed spec fn wf(&self) -> bool {
        distinct_keys(self.entries())
    }

    /// What kind of entry the index lists.
    pub closed spec fn kind(&self) -> Seq<char> {
        self.name@
    }

    /// Whether the index has been filled from a document.
    pub closed spec fn initialized(&self) -> bool {
        self.init
    }

    /// An empty, uninitialised index for entries of kind `name`.
    pub fn new(name: String) -> (r: Self)
        ensures
            r.wf(),
            r@ == new_index(name@),
    {
        let r = OffsetIndex { name, offsets: Vec::new(), init: false };
        proof {
            assert(r.entries() =~= Seq::<Entry>::empty());
        }
        r
    }

    /// The number of entries.
    pub fn len(&self) -> (r: usize)
        ensures
            r == self.entries().len(),
    {
        self.offsets.len()
    }

    /// Whether the index has no entry.
    pub fn is_empty(&self) -> (r: bool)
        ensures
            r == (self.entries().len() == 0),
    {
        self.offsets.len() == 0
    }

    /// What kind of entry the index lists.
    pub fn name(&self) -> (r: &str)
        ensures
            r@ == self.kind(),
    {
        self.name.as_str()
    }

    /// Whether the index has been filled from a document.
    pub fn is_initialized(&self) -> (r: bool)
        ensures
            r == self.initialized(),
    {
        self.init
    }

    /// Marks the index as filled, or as not filled.
    pub fn set_initialized(&mut self, init: bool)
        ensures
            final(self).initialized() == init,
            final(self).kind() == old(self).kind(),
            final(self).entries() == old(self).entries(),
            final(self).wf() == old(self).wf(),
    {
        self.init = init;
    }

    /// The ordinal of the entry for `key`, if there is one.
    fn find(&self, key: &str) -> (r: Option<usize>)
        ensures
            match r {
                Some(i) => i < self.entries().len() && self.entries()[i as int].0 == key@,
                None => !has_key(self.entries(), key@),
            },
    {
        let mut i: usize = 0;
        while i < self.offsets.len()
            invariant
                i <= self.offsets@.len(),
                forall|j: int| 0 <= j < i ==> (#[trigger] self.entries()[j]).0 != key@,
            decreases self.offsets@.len() - i,
        {
            if text_eq(self.offsets[i].0.as_str(), key) {
                return Some(i);
            }
            i = i + 1;
        }
        None
    }

    /// Whether an entry for `key` is present.
    pub fn contains_key(&self, key: &str) -> (r: bool)
        ensures
            r == has_key(self.entries(), key@),
    {
        self.find(key).is_some()
    }

    /// The offset recorded for `key`, if any.
    pub fn get(&self, key: &str) -> (r: Option<u64>)
        requires
            self.wf(),
        ensures
            r == lookup(self.entries(), key@),
    {
        match self.find(key) {
            Some(i) => {
                proof {
                    lemma_ordinal_unique(self.entries(), i as int);
                }
                Some(self.offsets[i].1)
            },
            None => None,
        }
    }

    /// The identifier and offset of the entry with ordinal `index`, if there
    /// are that many entries.
    pub fn get_index(&self, index: usize) -> (r: Option<(&str, u64)>)
        ensures
            match r {
                Some(entry) => index < self.entries().len() && (entry.0@, entry.1)
                    == self.entries()[index as int],
                None => index >= self.entries().len(),
            },
    {
        if index < self.offsets.len() {
            Some((self.offsets[index].0.as_str(), self.offsets[index].1))
        } else {
            None
        }
    }

    /// Records `offset` for `key` and returns the offset recorded before, if
    /// any. A new identifier goes last; one already present keeps its ordinal.
    pub fn insert(&mut self, key: String, offset: u64) -> (r: Option<u64>)
        requires
            old(self).wf(),
        ensures
            final(self).wf(),
            final(self).entries() == inserted(old(self).entries(), key@, offset),
            r == lookup(old(self).entries(), key@),
            final(self).kind() == old(self).kind(),
            final(self).initialized() == old(self).initialized(),
    {
        let ghost before = self.entries();
        match self.find(key.as_str()) {
            Some(i) => {
                proof {
                    lemma_ordinal_unique(before, i as int);
                }
                let previous = self.offsets[i].1;
                self.offsets.set(i, (key, offset));
                proof {
                    assert(self.entries() =~= before.update(i as int, (key@, offset)));
                    lemma_inserted_keeps_keys_distinct(before, key@, offset);
                }
                Some(previous)
            },
            None => {
                self.offsets.push((key, offset));
                proof {
                    assert(self.entries() =~= before.push((key@, offset)));
                    lemma_inserted_keeps_keys_distinct(before, key@, offset);
                }
                None
            },
        }
    }
}

/// Among distinct identifiers, the entry at ordinal `i` is the one found for
/// its identifier.
pub proof fn lemma_ordinal_unique(entries: Seq<Entry>, i: int)
    requires
        distinct_keys(entries),
        0 <= i < entries.len(),
    ensures
        has_key(entries, entries[i].0),
        ordinal_of(entries, entries[i].0) == i,
        lookup(entries, entries[i].0) == Some(entries[i].1),
{
    let key = entries[i].0;
    assert(has_key(entries, key));
    let j = ordinal_of(entries, key);
    if j < i {
        assert(entries[j].0 != entries[i].0);
    } else if i < j {
        assert(entries[i].0 != entries[j].0);
    }
}

/// Inserting keeps identifiers distinct.
pub proof fn lemma_inserted_keeps_keys_distinct(entries: Seq<Entry>, key: Seq<char>, offset: u64)
    requires
        distinct_keys(entries),
    ensures
        distinct_keys(inserted(entries, key, offset)),
{
    let after = inserted(entries, key, offset);
    if has_key(entries, key) {
        let k = ordinal_of(entries, key);
        assert forall|i: int, j: int| 0 <= i < j < after.len() implies (#[trigger] after[i]).0 != (
        #[trigger] after[j]).0 by {
            assert(entries[i].0 != entries[j].0);
            assert(after[i].0 == entries[i].0);
            assert(after[j].0 == entries[j].0);
        }
    } else {
        assert forall|i: int, j: int| 0 <= i < j < after.len() implies (#[trigger] after[i]).0 != (
        #[trigger] after[j]).0 by {
            if j < entries.len() {
                assert(entries[i].0 != entries[j].0);
            } else {
                assert(after[i] == entries[i]);
            }
        }
    }
}

/// What was inserted is found again: after an insert the index gives the new
/// offset for the identifier.
pub proof fn lemma_lookup_after_insert(entries: Seq<Entry>, key: Seq<char>, offset: u64)
    requires
        distinct_keys(entries),
    ensures
        lookup(inserted(entries, key, offset), key) == Some(offset),
{
    let after = inserted(entries, key, offset);
    lemma_inserted_keeps_keys_distinct(entries, key, offset);
    if has_key(entries, key) {
        let k = ordinal_of(entries, key);
        assert(after[k] == (key, offset));
        lemma_ordinal_unique(after, k);
    } else {
        let k = entries.len() as int;
        assert(after[k] == (key, offset));
        lemma_ordinal_unique(after, k);
    }
}

/// An insert leaves the offsets of all other identifiers as they were.
pub proof fn lemma_lookup_other_after_insert(
    entries: Seq<Entry>,
    key: Seq<char>,
    offset: u64,
    other: Seq<char>,
)
    requires
        distinct_keys(entries),
        other != key,
    ensures
        lookup(inserted(entries, key, offset), other) == lookup(entries, other),
{
    let after = inserted(entries, key, offset);
    lemma_inserted_keeps_keys_distinct(entries, key, offset);
    if has_key(entries, other) {
        let k = ordinal_of(entries, other);
        assert(after[k] == entries[k]);
        lemma_ordinal_unique(entries, k);
        lemma_ordinal_unique(after, k);
    } else {
        if has_key(after, other) {
            let k = ordinal_of(after, other);
            if k < entries.len() {
                assert(entries[k].0 == other);
            }
            assert(false);
        }
    }
}

/// Ordinals follow insertion order: an insert moves no earlier entry, and a
/// new identifier takes the next free ordinal.
pub proof fn lemma_insert_keeps_ordinals(entries: Seq<Entry>, key: Seq<char>, offset: u64)
    requires
        distinct_keys(entries),
    ensures
        forall|i: int|
            0 <= i < entries.len() ==> (#[trigger] inserted(entries, key, offset)[i]).0
                == entries[i].0,
        !has_key(entries, key) ==> inserted(entries, key, offset).len() == entries.len() + 1
            && inserted(entries, key, offset)[entries.len() as int] == (key, offset),
        has_key(entries, key) ==> inserted(entries, key, offset).len() == entries.len(),
{
}

} // verus!
