//! A table keyed by thread ID. The hosted link keeps two of them: the
//! mailbox, where the reader leaves each thread's response until the
//! thread collects it, and the tracker of the memory each pending call
//! carries.
use std::collections::HashMap;
use vstd::prelude::*;

verus! {

broadcast use vstd::std_specs::hash::group_hash_axioms;

/// At most one entry per thread ID.
pub struct ThreadTable<V> {
    entries: HashMap<usize, V>,
}

impl<V> View for ThreadTable<V> {
    type V = Map<usize, V>;

    closed spec fn view(&self) -> Map<usize, V> {
        self.entries@
    }
}

impl<V> ThreadTable<V> {
    /// An empty table.
    pub fn new() -> (t: ThreadTable<V>)
        ensures
            t@ == Map::<usize, V>::empty(),
    {
        ThreadTable { entries: HashMap::new() }
    }

    /// Leaves `value` for thread `tid`, replacing and returning any entry
    /// the thread already had.
    pub fn insert(&mut self, tid: usize, value: V) -> (previous: Option<V>)
        ensures
            final(self)@ == old(self)@.insert(tid, value),
            previous == (if old(self)@.contains_key(tid) {
                Some(old(self)@[tid])
            } else {
                None
            }),
    {
        self.entries.insert(tid, value)
    }

    /// Collects and removes the entry of thread `tid`, if there is one.
    pub fn take(&mut self, tid: usize) -> (entry: Option<V>)
        ensures
            final(self)@ == old(self)@.remove(tid),
            entry == (if old(self)@.contains_key(tid) {
                Some(old(self)@[tid])
            } else {
                None
            }),
    {
        self.entries.remove(&tid)
    }

    /// Whether thread `tid` has an entry.
    pub fn contains(&self, tid: usize) -> (found: bool)
        ensures
            found <==> self@.contains_key(tid),
    {
        self.entries.contains_key(&tid)
    }
}

/// The outcome of collecting thread `tid`'s entry from a table.
pub open spec fn spec_take<V>(m: Map<usize, V>, tid: usize) -> (Map<usize, V>, Option<V>) {
    (m.remove(tid), if m.contains_key(tid) { Some(m[tid]) } else { None })
}

/// A thread collects exactly the entry left for it, and collecting it
/// leaves the table as it was before, whatever other threads hold.
pub proof fn lemma_take_after_insert<V>(m: Map<usize, V>, tid: usize, value: V)
    requires
        !m.contains_key(tid),
    ensures
        spec_take(m.insert(tid, value), tid) == (m, Some(value)),
{
    assert(m.insert(tid, value).remove(tid) =~= m);
}

/// Leaving or collecting an entry for one thread does not touch the entry
/// of any other thread.
pub proof fn lemma_other_threads_untouched<V>(m: Map<usize, V>, tid: usize, other: usize, value: V)
    requires
        tid != other,
    ensures
        m.insert(tid, value).contains_key(other) == m.contains_key(other),
        m.contains_key(other) ==> m.insert(tid, value)[other] == m[other],
        spec_take(m.insert(tid, value), other).1 == spec_take(m, other).1,
        spec_take(m, tid).0.contains_key(other) == m.contains_key(other),
        m.contains_key(other) ==> spec_take(m, tid).0[other] == m[other],
{
}

} // verus!
