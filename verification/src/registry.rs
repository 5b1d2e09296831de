//! The per-worker registry of in-flight executions.
//!
//! Every execution dispatched to a worker is registered here first, under a
//! fresh id that is never reused for the lifetime of the worker. The worker's
//! response path delivers the completion record for an id exactly once, and
//! the dispatching side reclaims the caller's accounting object exactly once,
//! after the completion has been delivered.

use vstd::prelude::*;
use crate::protocol::ExecOutput;

verus! {

/// What the registry holds for one execution: the caller's accounting object,
/// untouched until it is reclaimed, and the completion record once the
/// worker's response path has delivered it.
pub struct Registration<A> {
    pub accounting: A,
    pub output: Option<ExecOutput>,
}

struct Entry<A> {
    id: u64,
    reg: Registration<A>,
}

/// The registry of all executions currently running on one worker, keyed by
/// execution id.
pub struct ActiveExecutionStateRegistry<A> {
    next_id: u64,
    entries: Vec<Entry<A>>,
}

spec fn entries_table<A>(s: Seq<Entry<A>>) -> Map<u64, Registration<A>>
    decreases s.len(),
{
    if s.len() == 0 {
        Map::empty()
    } else {
        entries_table(s.drop_last()).insert(s.last().id, s.last().reg)
    }
}

spec fn distinct_ids<A>(s: Seq<Entry<A>>) -> bool {
    forall|i: int, j: int| 0 <= i < j < s.len() ==> s[i].id != s[j].id
}

/// Every registered id was generated before `next`.
pub open spec fn ids_below<A>(t: Map<u64, Registration<A>>, next: u64) -> bool {
    forall|id: u64| t.dom().contains(id) ==> id < next
}

/// The completion path may deliver for `id`: the execution is registered and
/// no completion was delivered yet.
pub open spec fn can_deliver<A>(t: Map<u64, Registration<A>>, id: u64) -> bool {
    t.dom().contains(id) && t[id].output is None
}

/// The table after the completion record `out` is delivered for `id`.
pub open spec fn table_after_deliver<A>(
    t: Map<u64, Registration<A>>,
    id: u64,
    out: ExecOutput,
) -> Map<u64, Registration<A>> {
    t.insert(id, Registration { accounting: t[id].accounting, output: Some(out) })
}

/// The dispatching side may reclaim `id`: the execution is registered and its
/// completion has been delivered.
pub open spec fn can_reclaim<A>(t: Map<u64, Registration<A>>, id: u64) -> bool {
    t.dom().contains(id) && t[id].output is Some
}

/// The table after `id` is reclaimed.
pub open spec fn table_after_reclaim<A>(
    t: Map<u64, Registration<A>>,
    id: u64,
) -> Map<u64, Registration<A>> {
    t.remove(id)
}

/// Law: each execution id is observed once. A fresh id is never one that is
/// already registered; once the completion path has delivered for an id, a
/// second delivery for it is refused; and once the dispatching side has
/// reclaimed an id, the id is gone — neither a second reclaim nor a late
/// delivery can find it.
pub proof fn lemma_execution_observed_once<A>(
    t: Map<u64, Registration<A>>,
    next: u64,
    id: u64,
    out: ExecOutput,
)
    ensures
        ids_below(t, next) ==> !t.dom().contains(next),
        can_deliver(t, id) ==> !can_deliver(table_after_deliver(t, id, out), id),
        !can_deliver(table_after_reclaim(t, id), id),
        !can_reclaim(table_after_reclaim(t, id), id),
{
}

proof fn lemma_table_entry<A>(s: Seq<Entry<A>>, i: int)
    requires
        distinct_ids(s),
        0 <= i < s.len(),
    ensures
        entries_table(s).dom().contains(s[i].id),
        entries_table(s)[s[i].id] == s[i].reg,
    decreases s.len(),
{
    if i < s.len() - 1 {
        lemma_table_entry(s.drop_last(), i);
    }
}

proof fn lemma_table_absent<A>(s: Seq<Entry<A>>, id: u64)
    requires
        forall|k: int| 0 <= k < s.len() ==> s[k].id != id,
    ensures
        !entries_table(s).dom().contains(id),
    decreases s.len(),
{
    if s.len() > 0 {
        lemma_table_absent(s.drop_last(), id);
    }
}

proof fn lemma_table_replace<A>(s: Seq<Entry<A>>, i: int, e: Entry<A>)
    requires
        distinct_ids(s),
        0 <= i < s.len(),
        s[i].id == e.id,
    ensures
        entries_table(s.update(i, e)) =~= entries_table(s).insert(e.id, e.reg),
    decreases s.len(),
{
    if i == s.len() - 1 {
        assert(s.update(i, e).drop_last() =~= s.drop_last());
    } else {
        assert(s.update(i, e).drop_last() =~= s.drop_last().update(i, e));
        lemma_table_replace(s.drop_last(), i, e);
    }
}

proof fn lemma_table_remove<A>(s: Seq<Entry<A>>, i: int)
    requires
        distinct_ids(s),
        0 <= i < s.len(),
    ensures
        entries_table(s.remove(i)) =~= entries_table(s).remove(s[i].id),
    decreases s.len(),
{
    if i == s.len() - 1 {
        assert(s.remove(i) =~= s.drop_last());
        lemma_table_absent(s.drop_last(), s[i].id);
        assert(entries_table(s.drop_last()).remove(s[i].id) =~= entries_table(s.drop_last()));
    } else {
        assert(s.remove(i).drop_last() =~= s.drop_last().remove(i));
        lemma_table_remove(s.drop_last(), i);
    }
}

impl<A> ActiveExecutionStateRegistry<A> {
    /// The registered executions, keyed by id.
    pub closed spec fn table(self) -> Map<u64, Registration<A>> {
        entries_table(self.entries@)
    }

    /// The id the next registration will receive.
    pub closed spec fn next(self) -> u64 {
        self.next_id
    }

    /// Ids are registered at most once each, and all of them were generated
    /// by this registry's id counter.
    pub closed spec fn wf(self) -> bool {
        distinct_ids(self.entries@) && forall|k: int|
            0 <= k < self.entries@.len() ==> self.entries@[k].id < self.next_id
    }

    /// An empty registry whose id generation starts at zero.
    pub fn new() -> (r: ActiveExecutionStateRegistry<A>)
        ensures
            r.wf(),
            r.table() == Map::<u64, Registration<A>>::empty(),
            r.next() == 0,
    {
        ActiveExecutionStateRegistry { next_id: 0, entries: Vec::new() }
    }

    spec fn id_positions_hold(self, id: u64, r: Option<usize>) -> bool {
        match r {
            Some(i) => i < self.entries@.len() && self.entries@[i as int].id == id,
            None => forall|k: int| 0 <= k < self.entries@.len() ==> self.entries@[k].id != id,
        }
    }

    fn find(&self, id: u64) -> (r: Option<usize>)
        ensures
            self.id_positions_hold(id, r),
    {
        let mut i: usize = 0;
        while i < self.entries.len()
            invariant
                i <= self.entries@.len(),
                forall|k: int| 0 <= k < i ==> self.entries@[k].id != id,
            decreases self.entries@.len() - i,
        {
            if self.entries[i].id == id {
                return Some(i);
            }
            i = i + 1;
        }
        None
    }

    /// Registers an execution: stores the caller's accounting object under a
    /// fresh id, generated monotonically and never reused for the lifetime of
    /// the worker.
    pub fn register_execution(&mut self, accounting: A) -> (id: u64)
        requires
            old(self).wf(),
            old(self).next() < u64::MAX,
        ensures
            final(self).wf(),
            id == old(self).next(),
            !old(self).table().dom().contains(id),
            final(self).table() == old(self).table().insert(
                id,
                Registration { accounting, output: None },
            ),
            final(self).next() == id + 1,
    {
        let id = self.next_id;
        self.next_id = self.next_id + 1;
        let ghost pre = self.entries@;
        self.entries.push(Entry { id, reg: Registration { accounting, output: None } });
        proof {
            lemma_table_absent(pre, id);
            assert(self.entries@.drop_last() =~= pre);
        }
        id
    }

    /// Whether the completion for `id` has been delivered and not yet
    /// reclaimed.
    pub fn is_completed(&self, id: u64) -> (b: bool)
        requires
            self.wf(),
        ensures
            b == can_reclaim(self.table(), id),
    {
        match self.find(id) {
            Some(i) => {
                proof {
                    lemma_table_entry(self.entries@, i as int);
                }
                self.entries[i].reg.output.is_some()
            },
            None => {
                proof {
                    lemma_table_absent(self.entries@, id);
                }
                false
            },
        }
    }

    /// The id the next registration will receive.
    pub fn next_id(&self) -> (n: u64)
        ensures
            n == self.next(),
    {
        self.next_id
    }

    /// Whether `id` is registered and still waiting for its completion.
    pub fn is_pending(&self, id: u64) -> (b: bool)
        requires
            self.wf(),
        ensures
            b == can_deliver(self.table(), id),
    {
        match self.find(id) {
            Some(i) => {
                proof {
                    lemma_table_entry(self.entries@, i as int);
                }
                self.entries[i].reg.output.is_none()
            },
            None => {
                proof {
                    lemma_table_absent(self.entries@, id);
                }
                false
            },
        }
    }

    /// The worker's response path delivers the completion record for `id`.
    /// Returns whether it was delivered: false when the id is unknown or its
    /// completion was already delivered, in which case nothing changes.
    pub fn complete_execution(&mut self, id: u64, output: ExecOutput) -> (delivered: bool)
        requires
            old(self).wf(),
        ensures
            final(self).wf(),
            final(self).next() == old(self).next(),
            delivered == can_deliver(old(self).table(), id),
            delivered ==> final(self).table() == table_after_deliver(
                old(self).table(),
                id,
                output,
            ),
            !delivered ==> *final(self) == *old(self),
    {
        let found = self.find(id);
        match found {
            Some(i) => {
                proof {
                    lemma_table_entry(self.entries@, i as int);
                }
                if self.entries[i].reg.output.is_some() {
                    return false;
                }
                let ghost pre = self.entries@;
                let mut e = self.entries.remove(i);
                e.reg.output = Some(output);
                let ghost e_snap = e;
                self.entries.insert(i, e);
                proof {
                    assert(self.entries@ =~= pre.update(i as int, e_snap));
                    lemma_table_replace(pre, i as int, e_snap);
                }
                true
            },
            None => {
                proof {
                    lemma_table_absent(self.entries@, id);
                }
                false
            },
        }
    }

    /// The dispatching side reclaims the accounting object of `id`, after it
    /// has observed the completion. Returns the registration — accounting
    /// object and completion record — and removes the entry; returns nothing,
    /// and changes nothing, when the id is unknown or its completion has not
    /// been delivered.
    pub fn unregister_execution(&mut self, id: u64) -> (r: Option<Registration<A>>)
        requires
            old(self).wf(),
        ensures
            final(self).wf(),
            final(self).next() == old(self).next(),
            r is Some == can_reclaim(old(self).table(), id),
            r matches Some(reg) ==> reg == old(self).table()[id] && final(self).table()
                == table_after_reclaim(old(self).table(), id),
            r is None ==> *final(self) == *old(self),
    {
        let found = self.find(id);
        match found {
            Some(i) => {
                proof {
                    lemma_table_entry(self.entries@, i as int);
                }
                if self.entries[i].reg.output.is_none() {
                    return None;
                }
                proof {
                    lemma_table_remove(self.entries@, i as int);
                }
                let e = self.entries.remove(i);
                Some(e.reg)
            },
            None => {
                proof {
                    lemma_table_absent(self.entries@, id);
                }
                None
            },
        }
    }
}

} // verus!
