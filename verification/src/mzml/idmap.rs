//! Dense numbers for string identifiers.

use crate::text::text_eq;
use vstd::prelude::*;

verus! {

/// No identifier occurs twice.
pub open spec fn distinct_ids(ids: Seq<Seq<char>>) -> bool {
    forall|i: int, j: int| 0 <= i < j < ids.len() ==> #[trigger] ids[i] != #[trigger] ids[j]
}

/// Whether `id` has a number.
pub open spec fn is_numbered(ids: Seq<Seq<char>>, id: Seq<char>) -> bool {
    exists|i: int| 0 <= i < ids.len() && #[trigger] ids[i] == id
}

/// The most identifiers a map numbers.
pub open spec fn id_capacity() -> int {
    u32::MAX as int
}

/// The identifiers after `id` has been asked for: one not seen before goes
/// last, as long as there is a number left for it.
pub open spec fn ids_after(ids: Seq<Seq<char>>, id: Seq<char>) -> Seq<Seq<char>> {
    if is_numbered(ids, id) || ids.len() >= id_capacity() {
        ids
    } else {
        ids.push(id)
    }
}

/// The number that asking for `id` gives: its position among the
/// identifiers, in the order in which they were first seen. Once all numbers
/// are taken an unseen identifier gets the largest one.
pub open spec fn number_of(ids: Seq<Seq<char>>, id: Seq<char>) -> u32 {
    if is_numbered(ids, id) {
        (choose|i: int| 0 <= i < ids.len() && #[trigger] ids[i] == id) as u32
    } else if ids.len() >= id_capacity() {
        u32::MAX
    } else {
        ids.len() as u32
    }
}

/// Numbers string identifiers densely from zero, in the order in which they
/// are first asked for, so that every part of a reader resolves a reference
/// to the same number.
#[derive(Debug)]
pub struct IncrementingIdMap {
    ids: Vec<String>,
}

impl IncrementingIdMap {
    /// The identifiers in the order of their numbers.
    pub closed spec fn ids(&self) -> Seq<Seq<char>> {
        Seq::new(self.ids@.len(), |i: int| self.ids@[i]@)
    }

    /// Every identifier has one number, and the numbers fit in 32 bits.
    pub closed spec fn wf(&self) -> bool {
        distinct_ids(self.ids()) && self.ids().len() <= id_capacity()
    }

    /// A map without identifiers.
    pub fn new() -> (r: Self)
        ensures
            r.wf(),
            r.ids() == Seq::<Seq<char>>::empty(),
    {
        let r = IncrementingIdMap { ids: Vec::new() };
        proof {
            assert(r.ids() =~= Seq::<Seq<char>>::empty());
        }
        r
    }

    /// The number of identifiers seen.
    pub fn len(&self) -> (r: usize)
        ensures
            r == self.ids().len(),
    {
        self.ids.len()
    }

    /// The number of `id`: the one it has, or the next free one, which it
    /// then keeps.
    pub fn get(&mut self, id: &str) -> (r: u32)
        requires
            old(self).wf(),
        ensures
            final(self).wf(),
            final(self).ids() == ids_after(old(self).ids(), id@),
            r == number_of(old(self).ids(), id@),
    {
        let ghost before = self.ids();
        let mut i: usize = 0;
        while i < self.ids.len()
            invariant
                i <= self.ids@.len(),
                self.wf(),
                self.ids() == before,
                forall|j: int| 0 <= j < i ==> #[trigger] self.ids()[j] != id@,
            decreases self.ids@.len() - i,
        {
            if text_eq(self.ids[i].as_str(), id) {
                proof {
                    assert(before[i as int] == id@);
                    assert(is_numbered(before, id@));
                    let k = choose|k: int| 0 <= k < before.len() && #[trigger] before[k] == id@;
                    if k < i {
                        assert(before[k] != before[i as int]);
                    } else if i < k {
                        assert(before[i as int] != before[k]);
                    }
                }
                return i as u32;
            }
            i = i + 1;
        }
        if self.ids.len() >= u32::MAX as usize {
            return u32::MAX;
        }
        let number = self.ids.len() as u32;
        self.ids.push(id.to_owned());
        proof {
            assert(self.ids() =~= before.push(id@));
            assert forall|a: int, b: int| 0 <= a < b < self.ids().len() implies #[trigger] self.ids()[a]
                != #[trigger] self.ids()[b] by {
                if b < before.len() {
                    assert(before[a] != before[b]);
                } else {
                    assert(self.ids()[a] == before[a]);
                }
            }
        }
        number
    }

    /// Takes over the identifiers of `other`, numbers included.
    pub fn copy_from(&mut self, other: &Self)
        ensures
            final(self).ids() == other.ids(),
            other.wf() ==> final(self).wf(),
    {
        let mut ids: Vec<String> = Vec::new();
        let mut i: usize = 0;
        while i < other.ids.len()
            invariant
                i <= other.ids@.len(),
                ids@.len() == i,
                forall|j: int| 0 <= j < i ==> (#[trigger] ids@[j])@ == other.ids@[j]@,
            decreases other.ids@.len() - i,
        {
            ids.push(other.ids[i].clone());
            i = i + 1;
        }
        self.ids = ids;
        proof {
            assert(self.ids() =~= other.ids());
        }
    }
}

/// Asking twice gives the same number: once an identifier has been asked
/// for, asking again changes nothing and returns the number it got.
pub proof fn lemma_number_is_stable(ids: Seq<Seq<char>>, id: Seq<char>)
    requires
        distinct_ids(ids),
        ids.len() < id_capacity(),
    ensures
        ids_after(ids_after(ids, id), id) == ids_after(ids, id),
        number_of(ids_after(ids, id), id) == number_of(ids, id),
{
    let after = ids_after(ids, id);
    if is_numbered(ids, id) {
    } else {
        assert(after[ids.len() as int] == id);
        assert(is_numbered(after, id));
        let k = choose|k: int| 0 <= k < after.len() && #[trigger] after[k] == id;
        if k < ids.len() {
            assert(ids[k] == id);
            assert(false);
        }
    }
}

/// Numbers are dense and follow first sight: a new identifier gets the count
/// of those seen before it, and no other identifier changes its number.
pub proof fn lemma_numbers_are_dense(ids: Seq<Seq<char>>, id: Seq<char>, other: Seq<char>)
    requires
        distinct_ids(ids),
        ids.len() < id_capacity(),
    ensures
        !is_numbered(ids, id) ==> number_of(ids, id) == ids.len(),
        is_numbered(ids, id) ==> number_of(ids, id) < ids.len(),
        is_numbered(ids, other) ==> number_of(ids_after(ids, id), other) == number_of(ids, other),
{
    let after = ids_after(ids, id);
    if is_numbered(ids, other) {
        let k = choose|k: int| 0 <= k < ids.len() && #[trigger] ids[k] == other;
        assert(after[k] == other);
        assert(is_numbered(after, other));
        let m = choose|m: int| 0 <= m < after.len() && #[trigger] after[m] == other;
        if m != k {
            if m < ids.len() {
                if m < k {
                    assert(ids[m] != ids[k]);
                } else {
                    assert(ids[k] != ids[m]);
                }
            } else {
                assert(after[m] == id);
                assert(is_numbered(ids, id));
            }
        }
    }
}

/// Different identifiers have different numbers.
pub proof fn lemma_numbers_are_distinct(ids: Seq<Seq<char>>, a: Seq<char>, b: Seq<char>)
    requires
        distinct_ids(ids),
        ids.len() <= id_capacity(),
        is_numbered(ids, a),
        is_numbered(ids, b),
        a != b,
    ensures
        number_of(ids, a) != number_of(ids, b),
{
}

} // verus!
