//! A set of section names.

use crate::aether::lines::texts;
use vstd::prelude::*;

verus! {

/// A set of names; each name occurs once.
pub struct SectionSet {
    pub ids: Vec<String>,
}

impl View for SectionSet {
    type V = Set<Seq<char>>;

    open spec fn view(&self) -> Set<Seq<char>> {
        texts(self.ids@).to_set()
    }
}

impl SectionSet {
    /// No name occurs twice.
    pub open spec fn wf(&self) -> bool {
        texts(self.ids@).no_duplicates()
    }

    /// The empty set.
    pub fn new() -> (r: SectionSet)
        ensures
            r.wf(),
            r@ == Set::<Seq<char>>::empty(),
    {
        let r = SectionSet { ids: Vec::new() };
        assert(r@ =~= Set::<Seq<char>>::empty());
        r
    }

    /// The number of names.
    pub fn len(&self) -> (n: usize)
        requires
            self.wf(),
        ensures
            n == self@.len(),
    {
        proof {
            texts(self.ids@).unique_seq_to_set();
        }
        self.ids.len()
    }

    /// The index of `id`, or the number of names if it is not there.
    fn find(&self, id: &String) -> (k: usize)
        ensures
            k <= self.ids@.len(),
            k < self.ids@.len() ==> self.ids@[k as int]@ == id@,
            k == self.ids@.len() ==> !self@.contains(id@),
    {
        let mut k: usize = 0;
        while k < self.ids.len()
            invariant
                k <= self.ids@.len(),
                forall|i: int| 0 <= i < k ==> (#[trigger] texts(self.ids@)[i]) != id@,
            decreases self.ids@.len() - k,
        {
            if self.ids[k] == *id {
                return k;
            }
            k = k + 1;
        }
        k
    }

    /// Whether `id` is in the set.
    pub fn contains(&self, id: &String) -> (b: bool)
        ensures
            b == self@.contains(id@),
    {
        let k: usize = self.find(id);
        if k < self.ids.len() {
            assert(texts(self.ids@)[k as int] == id@);
            true
        } else {
            false
        }
    }

    /// Adds `id`.
    pub fn insert(&mut self, id: String)
        requires
            old(self).wf(),
        ensures
            final(self).wf(),
            final(self)@ == old(self)@.insert(id@),
    {
        if self.contains(&id) {
            assert(self@.insert(id@) =~= self@);
            return;
        }
        let ghost before = texts(self.ids@);
        self.ids.push(id);
        assert(texts(self.ids@) =~= before.push(id@));
        proof {
            before.lemma_push_to_set_commute(id@);
        }
        assert forall|i: int, j: int|
            0 <= i < before.len() + 1 && 0 <= j < before.len() + 1 && i
                != j implies before.push(id@)[i] != before.push(id@)[j] by {
            if i == before.len() {
                assert(before.contains(before[j]));
            }
            if j == before.len() {
                assert(before.contains(before[i]));
            }
        }
    }

    /// Takes `id` out.
    pub fn remove(&mut self, id: &String)
        requires
            old(self).wf(),
        ensures
            final(self).wf(),
            final(self)@ == old(self)@.remove(id@),
    {
        let k: usize = self.find(id);
        let ghost before = texts(self.ids@);
        if k < self.ids.len() {
            self.ids.remove(k);
            let ghost after = texts(self.ids@);
            assert(after =~= before.remove(k as int));
            assert forall|x: Seq<char>|
                after.to_set().contains(x) <==> before.to_set().remove(id@).contains(x) by {
                if after.contains(x) {
                    let i = choose|i: int| 0 <= i < after.len() && after[i] == x;
                    let j = if i < k { i } else { i + 1 };
                    assert(before[j] == x);
                    assert(before[k as int] == id@);
                }
                if before.contains(x) && x != id@ {
                    let j = choose|j: int| 0 <= j < before.len() && before[j] == x;
                    let i = if j < k { j } else { j - 1 };
                    assert(before[k as int] == id@);
                    assert(after[i] == x);
                }
            }
            assert(after.to_set() =~= before.to_set().remove(id@));
        } else {
            assert(self@.remove(id@) =~= self@);
        }
    }
}

} // verus!
