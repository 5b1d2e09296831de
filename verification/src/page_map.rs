//! The authoritative paged memory image of a tenant.
//!
//! A memory is a logical array of pages; pages that were never written are
//! absent from the content store. The store also owns the memory's page
//! allocator, which is created by the first commit and whose creation must be
//! reported to the worker with the next delta upload.

use vstd::prelude::*;

verus! {

/// One page of a paged memory image: its index in the address space together
/// with its full content.
#[derive(Debug, Clone, PartialEq, Eq)]
pub struct Page {
    pub index: u64,
    pub bytes: Vec<u8>,
}

/// Whether a commit created the memory's page allocator. The worker needs the
/// allocator's serialized form exactly once, with the first delta upload after
/// the event.
#[derive(Debug, Clone, Copy, PartialEq, Eq, Structural)]
pub enum AllocatorEvent {
    Unchanged,
    Created,
}

/// The delta `d` applied to the page content `m`: every listed page replaces
/// the page at its index, later entries winning.
pub open spec fn apply_pages(m: Map<u64, Seq<u8>>, d: Seq<Page>) -> Map<u64, Seq<u8>>
    decreases d.len(),
{
    if d.len() == 0 {
        m
    } else {
        apply_pages(m, d.drop_last()).insert(d.last().index, d.last().bytes@)
    }
}

/// The page content described by a list of pages with distinct indices.
pub open spec fn pages_as_map(s: Seq<Page>) -> Map<u64, Seq<u8>> {
    apply_pages(Map::empty(), s)
}

/// No page index occurs twice in the list.
pub open spec fn distinct_indices(s: Seq<Page>) -> bool {
    forall|i: int, j: int| 0 <= i < j < s.len() ==> s[i].index != s[j].index
}

/// `ps` lists, in order, the content that `m` holds at the indices `idxs`.
pub open spec fn pages_match(m: Map<u64, Seq<u8>>, idxs: Seq<u64>, ps: Seq<Page>) -> bool {
    &&& ps.len() == idxs.len()
    &&& forall|i: int|
        0 <= i < idxs.len() ==> #[trigger] ps[i].index == idxs[i] && ps[i].bytes@ == m[idxs[i]]
}

/// Applying a delta reaches exactly the indices it lists: a page at any other
/// index keeps its content, and an index listed nowhere stays absent.
pub proof fn lemma_apply_pages_untouched(m: Map<u64, Seq<u8>>, d: Seq<Page>, x: u64)
    requires
        forall|k: int| 0 <= k < d.len() ==> d[k].index != x,
    ensures
        apply_pages(m, d).dom().contains(x) == m.dom().contains(x),
        m.dom().contains(x) ==> apply_pages(m, d)[x] == m[x],
    decreases d.len(),
{
    if d.len() > 0 {
        lemma_apply_pages_untouched(m, d.drop_last(), x);
    }
}

/// Every page listed in a delta with distinct indices ends up in the result.
pub proof fn lemma_apply_pages_entry(m: Map<u64, Seq<u8>>, d: Seq<Page>, i: int)
    requires
        distinct_indices(d),
        0 <= i < d.len(),
    ensures
        apply_pages(m, d).dom().contains(d[i].index),
        apply_pages(m, d)[d[i].index] == d[i].bytes@,
    decreases d.len(),
{
    if i == d.len() - 1 {
    } else {
        lemma_apply_pages_entry(m, d.drop_last(), i);
    }
}

/// Every index a delta lists — distinct or not — is present after it is
/// applied.
pub proof fn lemma_apply_pages_dom(m: Map<u64, Seq<u8>>, d: Seq<Page>, i: int)
    requires
        0 <= i < d.len(),
    ensures
        apply_pages(m, d).dom().contains(d[i].index),
    decreases d.len(),
{
    if i < d.len() - 1 {
        lemma_apply_pages_dom(m, d.drop_last(), i);
    }
}

/// The indices a delta lists, in its order.
pub open spec fn delta_indices(d: Seq<Page>) -> Seq<u64> {
    d.map_values(|p: Page| p.index)
}

/// Two deltas that list the same indices and contents apply identically.
proof fn lemma_apply_pages_congruent(m: Map<u64, Seq<u8>>, d1: Seq<Page>, d2: Seq<Page>)
    requires
        d1.len() == d2.len(),
        forall|i: int|
            0 <= i < d1.len() ==> #[trigger] d1[i].index == d2[i].index && d1[i].bytes@
                == d2[i].bytes@,
    ensures
        apply_pages(m, d1) == apply_pages(m, d2),
    decreases d1.len(),
{
    if d1.len() > 0 {
        lemma_apply_pages_congruent(m, d1.drop_last(), d2.drop_last());
    }
}

/// Replacing the entry that already carries an index is the same as inserting
/// that index into the applied map.
proof fn lemma_apply_pages_replace(m: Map<u64, Seq<u8>>, d: Seq<Page>, i: int, p: Page)
    requires
        distinct_indices(d),
        0 <= i < d.len(),
        d[i].index == p.index,
    ensures
        apply_pages(m, d.update(i, p)) =~= apply_pages(m, d).insert(p.index, p.bytes@),
    decreases d.len(),
{
    if i == d.len() - 1 {
        assert(d.update(i, p).drop_last() =~= d.drop_last());
    } else {
        assert(d.update(i, p).drop_last() =~= d.drop_last().update(i, p));
        lemma_apply_pages_replace(m, d.drop_last(), i, p);
    }
}

/// The page-level content store of one memory, addressed by page index, plus
/// the memory's page allocator.
pub struct PageMap {
    pages: Vec<Page>,
    allocator_present: bool,
}

impl View for PageMap {
    type V = Map<u64, Seq<u8>>;

    closed spec fn view(&self) -> Map<u64, Seq<u8>> {
        pages_as_map(self.pages@)
    }
}

impl PageMap {
    /// Pages are stored at most once each.
    pub closed spec fn wf(self) -> bool {
        distinct_indices(self.pages@)
    }

    /// Whether the memory's page allocator exists yet.
    pub closed spec fn allocator_present(self) -> bool {
        self.allocator_present
    }

    /// An empty memory content store, before any page was written and before
    /// the page allocator exists.
    pub fn new() -> (r: PageMap)
        ensures
            r.wf(),
            r@ == Map::<u64, Seq<u8>>::empty(),
            !r.allocator_present(),
    {
        PageMap { pages: Vec::new(), allocator_present: false }
    }

    /// The position of the page at `index`, if one is stored.
    fn find(&self, index: u64) -> (r: Option<usize>)
        ensures
            match r {
                Some(i) => i < self.pages@.len() && self.pages@[i as int].index == index,
                None => forall|k: int| 0 <= k < self.pages@.len() ==> self.pages@[k].index != index,
            },
    {
        let mut i: usize = 0;
        while i < self.pages.len()
            invariant
                i <= self.pages@.len(),
                forall|k: int| 0 <= k < i ==> self.pages@[k].index != index,
            decreases self.pages@.len() - i,
        {
            if self.pages[i].index == index {
                return Some(i);
            }
            i = i + 1;
        }
        None
    }

    /// The content of the page at `index`, if one was ever written.
    pub fn get_page(&self, index: u64) -> (r: Option<&Vec<u8>>)
        requires
            self.wf(),
        ensures
            match r {
                Some(b) => self@.dom().contains(index) && b@ == self@[index],
                None => !self@.dom().contains(index),
            },
    {
        match self.find(index) {
            Some(i) => {
                proof {
                    lemma_apply_pages_entry(Map::empty(), self.pages@, i as int);
                }
                Some(&self.pages[i].bytes)
            },
            None => {
                proof {
                    lemma_apply_pages_untouched(Map::empty(), self.pages@, index);
                }
                None
            },
        }
    }

    /// Writes one page, replacing any earlier content at the same index.
    pub fn set_page(&mut self, index: u64, bytes: Vec<u8>)
        requires
            old(self).wf(),
        ensures
            final(self).wf(),
            final(self)@ == old(self)@.insert(index, bytes@),
            final(self).allocator_present() == old(self).allocator_present(),
    {
        let ghost pre = self.pages@;
        match self.find(index) {
            Some(i) => {
                let ghost p = Page { index, bytes };
                self.pages.set(i, Page { index, bytes });
                proof {
                    lemma_apply_pages_replace(Map::empty(), pre, i as int, p);
                }
            },
            None => {
                self.pages.push(Page { index, bytes });
                proof {
                    assert(self.pages@.drop_last() =~= pre);
                }
            },
        }
    }

    /// Applies a reported page delta to the authoritative content, page by
    /// page and bit-exact, creating the page allocator if it did not exist
    /// yet. Returns the indices written, in the delta's order, and whether
    /// this commit created the allocator.
    pub fn update(&mut self, delta: &Vec<Page>) -> (r: (Vec<u64>, AllocatorEvent))
        requires
            old(self).wf(),
        ensures
            final(self).wf(),
            final(self)@ == apply_pages(old(self)@, delta@),
            r.0@.len() == delta@.len(),
            forall|i: int| 0 <= i < delta@.len() ==> r.0@[i] == delta@[i].index,
            final(self).allocator_present(),
            r.1 == (if old(self).allocator_present() {
                AllocatorEvent::Unchanged
            } else {
                AllocatorEvent::Created
            }),
    {
        let event = if self.allocator_present {
            AllocatorEvent::Unchanged
        } else {
            AllocatorEvent::Created
        };
        self.allocator_present = true;
        let mut changed: Vec<u64> = Vec::new();
        let mut k: usize = 0;
        while k < delta.len()
            invariant
                self.wf(),
                self.allocator_present(),
                k <= delta@.len(),
                self@ == apply_pages(old(self)@, delta@.take(k as int)),
                changed@.len() == k,
                forall|i: int| 0 <= i < k ==> changed@[i] == delta@[i].index,
            decreases delta@.len() - k,
        {
            let page = &delta[k];
            self.set_page(page.index, copy_bytes(&page.bytes));
            changed.push(page.index);
            k = k + 1;
            proof {
                assert(delta@.take(k as int).drop_last() =~= delta@.take(k as int - 1));
            }
        }
        proof {
            assert(delta@.take(delta@.len() as int) =~= delta@);
        }
        (changed, event)
    }

    /// The full content, serialized for a snapshot upload.
    pub fn serialize(&self) -> (r: Vec<Page>)
        requires
            self.wf(),
        ensures
            distinct_indices(r@),
            pages_as_map(r@) == self@,
    {
        let mut r: Vec<Page> = Vec::new();
        let mut k: usize = 0;
        while k < self.pages.len()
            invariant
                k <= self.pages@.len(),
                r@.len() == k,
                forall|i: int|
                    0 <= i < k ==> #[trigger] r@[i].index == self.pages@[i].index && r@[i].bytes@
                        == self.pages@[i].bytes@,
            decreases self.pages@.len() - k,
        {
            let page = &self.pages[k];
            r.push(Page { index: page.index, bytes: copy_bytes(&page.bytes) });
            k = k + 1;
        }
        proof {
            lemma_apply_pages_congruent(Map::empty(), r@, self.pages@);
        }
        r
    }

    /// The content of the listed pages, serialized for a delta upload.
    pub fn serialize_pages(&self, indices: &Vec<u64>) -> (r: Vec<Page>)
        requires
            self.wf(),
            forall|i: int| 0 <= i < indices@.len() ==> self@.dom().contains(#[trigger] indices@[i]),
        ensures
            pages_match(self@, indices@, r@),
    {
        let mut r: Vec<Page> = Vec::new();
        let mut k: usize = 0;
        while k < indices.len()
            invariant
                self.wf(),
                k <= indices@.len(),
                forall|i: int|
                    0 <= i < indices@.len() ==> self@.dom().contains(#[trigger] indices@[i]),
                r@.len() == k,
                forall|i: int|
                    0 <= i < k ==> #[trigger] r@[i].index == indices@[i] && r@[i].bytes@
                        == self@[indices@[i]],
            decreases indices@.len() - k,
        {
            let index = indices[k];
            match self.get_page(index) {
                Some(bytes) => {
                    r.push(Page { index, bytes: copy_bytes(bytes) });
                },
                None => {
                    proof {
                        assert(self@.dom().contains(indices@[k as int]));
                        assert(false);
                    }
                },
            }
            k = k + 1;
        }
        r
    }
}

/// A byte-for-byte copy of a page's content.
pub fn copy_bytes(src: &Vec<u8>) -> (r: Vec<u8>)
    ensures
        r@ == src@,
{
    let mut r: Vec<u8> = Vec::new();
    let mut i: usize = 0;
    while i < src.len()
        invariant
            i <= src@.len(),
            r@ == src@.take(i as int),
        decreases src@.len() - i,
    {
        r.push(src[i]);
        i = i + 1;
        proof {
            assert(src@.take(i as int).drop_last() =~= src@.take(i as int - 1));
        }
    }
    proof {
        assert(src@.take(src@.len() as int) =~= src@);
    }
    r
}

/// One logical memory of an execution context: its page content store and its
/// current size in pages.
pub struct Memory {
    pub page_map: PageMap,
    pub size: u64,
}

impl Memory {
    /// An empty memory of zero pages.
    pub fn new() -> (r: Memory)
        ensures
            r.page_map.wf(),
            r.page_map@ == Map::<u64, Seq<u8>>::empty(),
            !r.page_map.allocator_present(),
            r.size == 0,
    {
        Memory { page_map: PageMap::new(), size: 0 }
    }
}

} // verus!
