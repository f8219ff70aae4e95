//! Physical memory bookkeeping.
use vstd::prelude::*;
use crate::arch::PhysAddr;

verus! {

/// An error returned when an allocation fails because the system is out of memory.
#[derive(Debug, Clone, Copy, PartialEq, Eq, Structural)]
pub struct OutOfMemory;

/// The allocator of physical pages: a stack of free pages, of a fixed capacity.
///
/// The page that was freed last is the first one handed out.
pub struct MemoryAllocator {
    free_list: Vec<PhysAddr>,
    capacity: usize,
}

impl MemoryAllocator {
    /// The free pages, the next one to be handed out last.
    pub closed spec fn free_pages(&self) -> Seq<PhysAddr> {
        self.free_list@
    }

    /// The number of pages that the free list can hold.
    pub closed spec fn max_pages(&self) -> nat {
        self.capacity as nat
    }

    /// Whether the allocator is consistent: it holds no more pages than its capacity, all of
    /// them page-aligned.
    pub closed spec fn wf(&self) -> bool {
        &&& self.free_list@.len() <= self.capacity
        &&& forall|i: int| 0 <= i < self.free_list@.len() ==> #[trigger] self.free_list@[i] % 4096 == 0
    }

    /// Creates an allocator with no free page, that can hold up to `capacity` of them.
    pub fn empty(capacity: usize) -> (r: Self)
        ensures
            r.wf(),
            r.free_pages() == Seq::<PhysAddr>::empty(),
            r.max_pages() == capacity,
    {
        MemoryAllocator { free_list: Vec::new(), capacity }
    }

    /// Returns the number of free pages.
    pub fn free_count(&self) -> (r: usize)
        ensures
            r == self.free_pages().len(),
    {
        self.free_list.len()
    }

    /// Marks a page as available for allocation.
    ///
    /// The page must be page-aligned and the free list must not be full.
    pub fn assume_available(&mut self, page: PhysAddr)
        requires
            old(self).wf(),
            page % 4096 == 0,
            old(self).free_pages().len() < old(self).max_pages(),
        ensures
            final(self).wf(),
            final(self).free_pages() == old(self).free_pages().push(page),
            final(self).max_pages() == old(self).max_pages(),
    {
        self.free_list.push(page);
    }

    /// Allocates a page: the one that was made available last.
    pub fn allocate(&mut self) -> (r: Result<PhysAddr, OutOfMemory>)
        requires
            old(self).wf(),
        ensures
            final(self).wf(),
            final(self).max_pages() == old(self).max_pages(),
            old(self).free_pages().len() == 0 ==> r == Err::<PhysAddr, OutOfMemory>(OutOfMemory)
                && final(self).free_pages() == old(self).free_pages(),
            old(self).free_pages().len() > 0 ==> r == Ok::<PhysAddr, OutOfMemory>(
                old(self).free_pages().last(),
            ) && final(self).free_pages() == old(self).free_pages().drop_last(),
    {
        match self.free_list.pop() {
            Some(p) => Ok(p),
            None => Err(OutOfMemory),
        }
    }

    /// Gives back a page that was allocated.
    ///
    /// The page must be page-aligned and the free list must not be full.
    pub fn deallocate(&mut self, page: PhysAddr)
        requires
            old(self).wf(),
            page % 4096 == 0,
            old(self).free_pages().len() < old(self).max_pages(),
        ensures
            final(self).wf(),
            final(self).free_pages() == old(self).free_pages().push(page),
            final(self).max_pages() == old(self).max_pages(),
    {
        self.free_list.push(page);
    }
}

/// Allocating right after a deallocation gives back the deallocated page, and leaves the free
/// list as it was.
pub proof fn lemma_deallocate_then_allocate(free: Seq<PhysAddr>, page: PhysAddr)
    ensures
        free.push(page).len() > 0,
        free.push(page).last() == page,
        free.push(page).drop_last() == free,
{
    assert(free.push(page).drop_last() =~= free);
}

} // verus!
