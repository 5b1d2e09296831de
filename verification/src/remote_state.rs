//! Reference counts for remote execution states resident on one worker.
//!
//! A remote state is created by one upload and released by exactly one close
//! request, issued when its last owner lets go: the synchronization anchor
//! that supersedes it, the call that used it, or the destruction of the
//! owning context. The table tracks, per state id, how many owners remain.

use vstd::prelude::*;

verus! {

struct RefEntry {
    id: u64,
    refs: u64,
}

/// The remote states resident on one worker, with the number of owners each
/// still has. A state leaves the table exactly when its close request is
/// issued.
pub struct RemoteStateTable {
    entries: Vec<RefEntry>,
}

spec fn entries_refs(s: Seq<RefEntry>) -> Map<u64, u64>
    decreases s.len(),
{
    if s.len() == 0 {
        Map::empty()
    } else {
        entries_refs(s.drop_last()).insert(s.last().id, s.last().refs)
    }
}

spec fn distinct_ref_ids(s: Seq<RefEntry>) -> bool {
    forall|i: int, j: int| 0 <= i < j < s.len() ==> s[i].id != s[j].id
}

spec fn positive_refs(s: Seq<RefEntry>) -> bool {
    forall|i: int| 0 <= i < s.len() ==> s[i].refs >= 1
}

/// Whether dropping one reference of `id` closes the remote state: it does
/// exactly when that reference is the last one.
pub open spec fn release_closes(m: Map<u64, u64>, id: u64) -> bool {
    m[id] == 1
}

/// The reference counts after one reference of `id` is dropped.
pub open spec fn refs_after_release(m: Map<u64, u64>, id: u64) -> Map<u64, u64> {
    if m[id] == 1 {
        m.remove(id)
    } else {
        m.insert(id, (m[id] - 1) as u64)
    }
}

/// Law: one close per remote state. Dropping a reference closes the state
/// exactly when it was the last reference; the id then leaves the table, so
/// no further release — and hence no second close — is possible for it. A
/// release that does not close keeps the state resident with one owner
/// fewer.
pub proof fn lemma_state_closed_once(m: Map<u64, u64>, id: u64)
    requires
        m.dom().contains(id),
        m[id] >= 1,
    ensures
        release_closes(m, id) ==> !refs_after_release(m, id).dom().contains(id),
        !release_closes(m, id) ==> refs_after_release(m, id).dom().contains(id)
            && refs_after_release(m, id)[id] == m[id] - 1,
{
}

proof fn lemma_entries_refs_positive(s: Seq<RefEntry>, id: u64)
    requires
        positive_refs(s),
        entries_refs(s).dom().contains(id),
    ensures
        entries_refs(s)[id] >= 1,
    decreases s.len(),
{
    if s.len() > 0 && id != s.last().id {
        lemma_entries_refs_positive(s.drop_last(), id);
    }
}

proof fn lemma_refs_entry(s: Seq<RefEntry>, i: int)
    requires
        distinct_ref_ids(s),
        0 <= i < s.len(),
    ensures
        entries_refs(s).dom().contains(s[i].id),
        entries_refs(s)[s[i].id] == s[i].refs,
    decreases s.len(),
{
    if i < s.len() - 1 {
        lemma_refs_entry(s.drop_last(), i);
    }
}

proof fn lemma_refs_absent(s: Seq<RefEntry>, id: u64)
    requires
        forall|k: int| 0 <= k < s.len() ==> s[k].id != id,
    ensures
        !entries_refs(s).dom().contains(id),
    decreases s.len(),
{
    if s.len() > 0 {
        lemma_refs_absent(s.drop_last(), id);
    }
}

proof fn lemma_refs_replace(s: Seq<RefEntry>, i: int, e: RefEntry)
    requires
        distinct_ref_ids(s),
        0 <= i < s.len(),
        s[i].id == e.id,
    ensures
        entries_refs(s.update(i, e)) =~= entries_refs(s).insert(e.id, e.refs),
    decreases s.len(),
{
    if i == s.len() - 1 {
        assert(s.update(i, e).drop_last() =~= s.drop_last());
    } else {
        assert(s.update(i, e).drop_last() =~= s.drop_last().update(i, e));
        lemma_refs_replace(s.drop_last(), i, e);
    }
}

proof fn lemma_refs_remove(s: Seq<RefEntry>, i: int)
    requires
        distinct_ref_ids(s),
        0 <= i < s.len(),
    ensures
        entries_refs(s.remove(i)) =~= entries_refs(s).remove(s[i].id),
    decreases s.len(),
{
    if i == s.len() - 1 {
        assert(s.remove(i) =~= s.drop_last());
        lemma_refs_absent(s.drop_last(), s[i].id);
        assert(entries_refs(s.drop_last()).remove(s[i].id) =~= entries_refs(s.drop_last()));
    } else {
        assert(s.remove(i).drop_last() =~= s.drop_last().remove(i));
        lemma_refs_remove(s.drop_last(), i);
    }
}

impl RemoteStateTable {
    /// The resident remote states and their reference counts.
    pub closed spec fn refs(self) -> Map<u64, u64> {
        entries_refs(self.entries@)
    }

    /// Each id is tracked at most once, and every tracked state has at least
    /// one owner.
    pub closed spec fn wf(self) -> bool {
        distinct_ref_ids(self.entries@) && positive_refs(self.entries@)
    }

    /// Every resident remote state has at least one owner.
    pub proof fn lemma_refs_positive(&self)
        requires
            self.wf(),
        ensures
            forall|id: u64|
                self.refs().dom().contains(id) ==> #[trigger] self.refs()[id] >= 1,
    {
        assert forall|id: u64|
            self.refs().dom().contains(id) implies #[trigger] self.refs()[id] >= 1 by {
            lemma_entries_refs_positive(self.entries@, id);
        }
    }

    /// An empty table: no remote state is resident.
    pub fn new() -> (r: RemoteStateTable)
        ensures
            r.wf(),
            r.refs() == Map::<u64, u64>::empty(),
    {
        RemoteStateTable { entries: Vec::new() }
    }

    fn find(&self, id: u64) -> (r: Option<usize>)
        ensures
            match r {
                Some(i) => i < self.entries@.len() && self.entries@[i as int].id == id,
                None => forall|k: int| 0 <= k < self.entries@.len() ==> self.entries@[k].id != id,
            },
    {
        let mut i: usize = 0;
        while i < self.entries.len()
            invariant
                i <= self.entries@.len(),
                forall|k: int| 0 <= k < i ==> self.entries@[k].id != id,
            decreases self.entries@.len() - i,
        {
            if self.entries[i].id == id {
                return Some(i);
            }
            i = i + 1;
        }
        None
    }

    /// Whether the remote state `id` is resident.
    pub fn contains(&self, id: u64) -> (b: bool)
        requires
            self.wf(),
        ensures
            b == self.refs().dom().contains(id),
    {
        match self.find(id) {
            Some(i) => {
                proof {
                    lemma_refs_entry(self.entries@, i as int);
                }
                true
            },
            None => {
                proof {
                    lemma_refs_absent(self.entries@, id);
                }
                false
            },
        }
    }

    /// The number of owners of the remote state `id`; zero when it is not
    /// resident.
    pub fn ref_count(&self, id: u64) -> (n: u64)
        requires
            self.wf(),
        ensures
            self.refs().dom().contains(id) ==> n == self.refs()[id],
            !self.refs().dom().contains(id) ==> n == 0,
    {
        match self.find(id) {
            Some(i) => {
                proof {
                    lemma_refs_entry(self.entries@, i as int);
                }
                self.entries[i].refs
            },
            None => {
                proof {
                    lemma_refs_absent(self.entries@, id);
                }
                0
            },
        }
    }

    /// Tracks a freshly created remote state with one owner.
    pub fn open_ref(&mut self, id: u64)
        requires
            old(self).wf(),
            !old(self).refs().dom().contains(id),
        ensures
            final(self).wf(),
            final(self).refs() == old(self).refs().insert(id, 1u64),
    {
        proof {
            if exists|k: int|
                0 <= k < self.entries@.len() && #[trigger] self.entries@[k].id == id {
                let k = choose|k: int|
                    0 <= k < self.entries@.len() && #[trigger] self.entries@[k].id == id;
                lemma_refs_entry(self.entries@, k);
            }
        }
        let ghost pre = self.entries@;
        self.entries.push(RefEntry { id, refs: 1 });
        proof {
            assert(self.entries@.drop_last() =~= pre);
        }
    }

    /// Adds one owner to the resident remote state `id`.
    pub fn retain(&mut self, id: u64)
        requires
            old(self).wf(),
            old(self).refs().dom().contains(id),
            old(self).refs()[id] < u64::MAX,
        ensures
            final(self).wf(),
            final(self).refs() == old(self).refs().insert(id, (old(self).refs()[id] + 1) as u64),
    {
        let found = self.find(id);
        match found {
            Some(i) => {
                proof {
                    lemma_refs_entry(self.entries@, i as int);
                }
                let ghost pre = self.entries@;
                let mut e = self.entries.remove(i);
                e.refs = e.refs + 1;
                let ghost e_snap = e;
                self.entries.insert(i, e);
                proof {
                    assert(self.entries@ =~= pre.update(i as int, e_snap));
                    lemma_refs_replace(pre, i as int, e_snap);
                }
            },
            None => {
                proof {
                    lemma_refs_absent(self.entries@, id);
                    assert(false);
                }
            },
        }
    }

    /// Drops one owner of the resident remote state `id`. Returns whether
    /// that was the last owner: exactly then the state leaves the table and
    /// the caller must issue the single close request for it.
    pub fn release(&mut self, id: u64) -> (closed: bool)
        requires
            old(self).wf(),
            old(self).refs().dom().contains(id),
        ensures
            final(self).wf(),
            closed == release_closes(old(self).refs(), id),
            final(self).refs() == refs_after_release(old(self).refs(), id),
    {
        let found = self.find(id);
        match found {
            Some(i) => {
                proof {
                    lemma_refs_entry(self.entries@, i as int);
                }
                if self.entries[i].refs == 1 {
                    proof {
                        lemma_refs_remove(self.entries@, i as int);
                    }
                    self.entries.remove(i);
                    true
                } else {
                    let ghost pre = self.entries@;
                    let mut e = self.entries.remove(i);
                    e.refs = e.refs - 1;
                    let ghost e_snap = e;
                    self.entries.insert(i, e);
                    proof {
                        assert(self.entries@ =~= pre.update(i as int, e_snap));
                        lemma_refs_replace(pre, i as int, e_snap);
                    }
                    false
                }
            },
            None => {
                proof {
                    lemma_refs_absent(self.entries@, id);
                    assert(false);
                }
                false
            },
        }
    }
}

} // verus!
