use vstd::prelude::*;

use std::collections::BTreeSet;
use vstd::std_specs::btree::{increasing_seq, spec_btree_keys_iter};
use vstd::std_specs::cmp::OrdSpec;
use vstd::std_specs::iter::IteratorSpec;

verus! {

broadcast use vstd::std_specs::btree::group_btree_axioms, vstd::laws_cmp::group_laws_cmp;

/// The set of the indices `0 .. n`.
pub open spec fn index_range(n: nat) -> Set<usize> {
    Set::new(|i: usize| i < n)
}

/// A set of worker indices, kept in a `BTreeSet` so that the smallest index
/// comes first.
pub struct WorkerSet {
    ids: BTreeSet<usize>,
}

impl View for WorkerSet {
    type V = Set<usize>;

    closed spec fn view(&self) -> Set<usize> {
        self.ids@
    }
}

/// The smallest index in `ids`, if there is one: the first that its
/// increasing iterator yields.
fn first_of(ids: &BTreeSet<usize>) -> (first: Option<usize>)
    ensures
        first is None <==> ids@.is_empty(),
        first matches Some(f) ==> {
            &&& ids@.contains(f)
            &&& forall|y: usize| #[trigger] ids@.contains(y) ==> f <= y
        },
{
    let mut first: Option<usize> = None;
    for x in it: ids.iter()
        invariant_except_break
            first is None,
            it.index() == 0,
        ensures
            first matches Some(f) ==> it.seq().len() > 0 && f == *it.seq()[0],
            first is None ==> it.seq().len() == 0,
            it.seq() == spec_btree_keys_iter(ids).remaining(),
    {
        first = Some(*x);
        break;
    }
    proof {
        let keys = spec_btree_keys_iter(ids).remaining();
        assert(keys.unref().to_set() == ids@);
        match first {
            Some(f) => {
                assert(keys.unref()[0] == f);
                assert(keys.unref().contains(f));
                assert forall|y: usize| #[trigger] ids@.contains(y) implies f <= y by {
                    assert(keys.unref().to_set().contains(y));
                    let k = choose|k: int| 0 <= k < keys.unref().len() && keys.unref()[k] == y;
                    if k > 0 {
                        assert(increasing_seq(keys));
                        assert(*keys[k] == keys.unref()[k]);
                        assert(*keys[0] == keys.unref()[0]);
                        assert(OrdSpec::cmp_spec(&keys[0], &keys[k]) is Less);
                    }
                }
            },
            None => {
                assert(keys.unref() =~= Seq::<usize>::empty());
                assert(ids@ =~= Set::<usize>::empty());
            },
        }
    }
    first
}

impl WorkerSet {
    /// The set is finite and its size fits a `usize`.
    pub proof fn lemma_finite(&self)
        ensures
            self@.finite(),
            self@.len() <= usize::MAX,
    {
        let keys = spec_btree_keys_iter(&self.ids).remaining();
        assert(keys.unref().to_set() == self@);
        vstd::seq_lib::seq_to_set_is_finite(keys.unref());
        assert(self.ids.len() == self@.len());
    }

    /// The empty set.
    pub fn new() -> (s: WorkerSet)
        ensures
            s@ == Set::<usize>::empty(),
    {
        WorkerSet { ids: BTreeSet::new() }
    }

    /// The set of the indices `0 .. n`.
    pub fn from_range(n: usize) -> (s: WorkerSet)
        ensures
            s@ == index_range(n as nat),
    {
        let mut s = WorkerSet::new();
        let mut k: usize = 0;
        while k < n
            invariant
                k <= n,
                s@ == index_range(k as nat),
            decreases n - k,
        {
            s.insert(k);
            assert(s@ =~= index_range((k + 1) as nat));
            k = k + 1;
        }
        s
    }

    /// Number of indices in the set.
    pub fn len(&self) -> (n: usize)
        ensures
            n == self@.len(),
    {
        self.ids.len()
    }

    /// Whether the set holds no index.
    pub fn is_empty(&self) -> (b: bool)
        ensures
            b <==> self@.is_empty(),
    {
        self.ids.is_empty()
    }

    /// Whether `i` is in the set.
    pub fn contains(&self, i: usize) -> (b: bool)
        ensures
            b <==> self@.contains(i),
    {
        self.ids.contains(&i)
    }

    /// Adds `i`; nothing changes where it is there already.
    pub fn insert(&mut self, i: usize)
        ensures
            final(self)@ == old(self)@.insert(i),
    {
        self.ids.insert(i);
    }

    /// Removes `i`; tells whether it was there.
    pub fn remove(&mut self, i: usize) -> (was_there: bool)
        ensures
            final(self)@ == old(self)@.remove(i),
            was_there == old(self)@.contains(i),
    {
        self.ids.remove(&i)
    }

    /// Takes out the smallest index, if there is one.
    pub fn pop_first(&mut self) -> (first: Option<usize>)
        ensures
            old(self)@.is_empty() <==> first is None,
            first is None ==> final(self)@ == old(self)@,
            first matches Some(i) ==> {
                &&& old(self)@.contains(i)
                &&& forall|x: usize| #[trigger] old(self)@.contains(x) ==> i <= x
                &&& final(self)@ == old(self)@.remove(i)
            },
    {
        let first = first_of(&self.ids);
        if let Some(i) = first {
            self.ids.remove(&i);
        }
        first
    }
}

} // verus!
