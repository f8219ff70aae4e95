//! Page tables kept in ordinary memory, for address spaces that are built before they are
//! installed (and for testing).
use vstd::prelude::*;
use crate::address_space::AddressSpaceContext;
use crate::arch::PhysAddr;
use crate::memory::OutOfMemory;
use crate::paging::{lemma_storable, storable_address};

verus! {

/// A context whose pages live in a vector: page `k` stands for the physical address
/// `base + 4096 * k`. Pages are handed out in order, up to `capacity` pages, and never reused.
pub struct PageArena {
    /// The words of every page handed out so far, 512 per page.
    words: Vec<u64>,
    /// Whether each page handed out so far is still owned.
    live: Vec<bool>,
    /// The physical address of the first page.
    base: u64,
    /// The maximum number of pages.
    capacity: u64,
}

impl PageArena {
    /// The internal consistency of the arena, which every operation keeps.
    pub closed spec fn inv(self) -> bool {
        &&& self.words.len() == 512 * self.live.len()
        &&& self.live.len() <= self.capacity
        &&& self.base % 4096 == 0
        &&& self.base + self.capacity * 4096 <= 0x0010_0000_0000_0000
    }

    /// The index of the page at `page`, if the arena has handed it out.
    pub closed spec fn page_index(self, page: PhysAddr) -> Option<int> {
        if self.base <= page && (page - self.base) % 4096 == 0 && (page - self.base) / 4096
            < self.live.len() {
            Some((page - self.base) / 4096)
        } else {
            None
        }
    }

    /// The number of pages handed out so far.
    pub closed spec fn allocated(self) -> nat {
        self.live@.len()
    }

    /// The first physical address of the arena.
    pub closed spec fn base_address(self) -> u64 {
        self.base
    }

    /// The maximum number of pages of the arena.
    pub closed spec fn max_pages(self) -> u64 {
        self.capacity
    }

    /// Creates an empty arena whose pages start at `base`.
    pub fn new(base: PhysAddr, capacity: u64) -> (r: Self)
        requires
            base % 4096 == 0,
            base + capacity * 4096 <= 0x0010_0000_0000_0000,
        ensures
            r.inv(),
            r.owned() == Set::<PhysAddr>::empty(),
            r.allocated() == 0,
            r.base_address() == base,
            r.max_pages() == capacity,
    {
        let r = PageArena { words: Vec::new(), live: Vec::new(), base, capacity };
        proof {
            assert(r.owned() =~= Set::<PhysAddr>::empty());
        }
        r
    }

    /// Checks the internal consistency of the arena.
    fn check(&self) -> (r: bool)
        ensures
            r == self.inv(),
    {
        if self.live.len() as u64 > self.capacity || self.base % 4096 != 0 {
            return false;
        }
        if self.capacity > 0x0000_0100_0000_0000 {
            return false;
        }
        let limit = self.base as u128 + self.capacity as u128 * 4096;
        if limit > 0x0010_0000_0000_0000 {
            return false;
        }
        self.words.len() as u64 == 512 * (self.live.len() as u64)
    }

    /// Locates a page handed out by the arena.
    fn locate(&self, page: PhysAddr) -> (r: Option<usize>)
        requires
            self.inv(),
        ensures
            match r {
                Some(k) => self.page_index(page) == Some(k as int),
                None => self.page_index(page) is None,
            },
    {
        if page < self.base || (page - self.base) % 4096 != 0 {
            return None;
        }
        let k = (page - self.base) / 4096;
        if k < self.live.len() as u64 {
            Some(k as usize)
        } else {
            None
        }
    }
}

impl AddressSpaceContext for PageArena {
    closed spec fn word(&self, page: PhysAddr, index: int) -> u64 {
        match self.page_index(page) {
            Some(k) => if self.inv() && 0 <= index < 512 {
                self.words@[k * 512 + index]
            } else {
                0
            },
            None => 0,
        }
    }

    closed spec fn owned(&self) -> Set<PhysAddr> {
        Set::new(
            |p: PhysAddr|
                match self.page_index(p) {
                    Some(k) => self.inv() && self.live@[k],
                    None => false,
                },
        )
    }

    closed spec fn exhausted(&self) -> bool {
        !(self.inv() && self.live.len() < self.capacity)
    }

    /// Hands out the next page of the arena, at `base + 4096 * allocated`, while there is one.
    fn allocate_page(&mut self) -> (r: Result<PhysAddr, OutOfMemory>)
        ensures
            r is Ok <==> old(self).inv() && old(self).allocated() < old(self).max_pages(),
            match r {
                Ok(p) => {
                    &&& p == old(self).base_address() + 4096 * old(self).allocated()
                    &&& final(self).inv()
                    &&& final(self).allocated() == old(self).allocated() + 1
                    &&& final(self).base_address() == old(self).base_address()
                    &&& final(self).max_pages() == old(self).max_pages()
                    &&& forall|i: int| 0 <= i < 512 ==> #[trigger] final(self).word(p, i) == 0
                },
                Err(_) => *final(self) == *old(self),
            },
    {
        if !self.check() {
            return Err(OutOfMemory);
        }
        let n = self.live.len() as u64;
        if n >= self.capacity {
            return Err(OutOfMemory);
        }
        let ghost before = *self;
        let page = self.base + n * 4096;
        self.live.push(true);
        let mut i: usize = 0;
        while i < 512
            invariant
                0 <= i <= 512,
                self.words.len() == 512 * n + i,
                self.live.len() == n + 1,
                n == before.live.len(),
                before.words.len() == 512 * n,
                self.base == before.base,
                self.capacity == before.capacity,
                self.live@ == before.live@.push(true),
                forall|j: int| 0 <= j < 512 * n ==> self.words@[j] == before.words@[j],
                forall|j: int| 512 * n <= j < self.words.len() ==> self.words@[j] == 0,
            decreases 512 - i,
        {
            self.words.push(0);
            i = i + 1;
        }
        proof {
            assert(self.page_index(page) == Some(n as int));
            assert(before.page_index(page) is None);
            assert forall|q: PhysAddr, j: int| q != page implies #[trigger] self.word(q, j)
                == before.word(q, j) by {
                if self.page_index(q) is Some {
                    assert(before.page_index(q) is Some);
                }
            }
            assert(self.owned() =~= before.owned().insert(page));
            lemma_storable(page, 0);
            assert(self.inv());
            assert forall|i: int| 0 <= i < 512 implies #[trigger] self.word(page, i) == 0 by {
                assert(self.words@[n * 512 + i] == 0);
            }
        }
        Ok(page)
    }

    fn deallocate_page(&mut self, addr: PhysAddr) {
        let ghost before = *self;
        match self.locate(addr) {
            Some(k) => {
                self.live.set(k, false);
                proof {
                    assert(self.owned() =~= before.owned().remove(addr));
                }
            },
            None => {},
        }
    }

    fn read(&self, page: PhysAddr, index: usize) -> (r: u64) {
        if !self.check() {
            return 0;
        }
        match self.locate(page) {
            Some(k) => self.words[k * 512 + index],
            None => 0,
        }
    }

    fn write(&mut self, page: PhysAddr, index: usize, value: u64) {
        let ghost before = *self;
        match self.locate(page) {
            Some(k) => {
                self.words.set(k * 512 + index, value);
                proof {
                    assert forall|q: PhysAddr, i: int| !(q == page && i == index) implies #[trigger] self.word(
                        q,
                        i,
                    ) == before.word(q, i) by {
                        if let Some(k2) = self.page_index(q) {
                            if 0 <= i < 512 && k2 * 512 + i == k * 512 + index {
                                assert(k2 == k);
                            }
                        }
                    }
                    assert(self.owned() =~= before.owned());
                }
            },
            None => {},
        }
    }

    fn zero_page(&mut self, page: PhysAddr) {
        let ghost before = *self;
        let k = match self.locate(page) {
            Some(k) => k,
            None => {
                return;
            },
        };
        let mut i: usize = 0;
        while i < 512
            invariant
                0 <= i <= 512,
                self.page_index(page) == Some(k as int),
                k < self.live.len(),
                self.words.len() == before.words.len(),
                self.words.len() == 512 * self.live.len(),
                self.live == before.live,
                self.base == before.base,
                self.capacity == before.capacity,
                forall|j: int| k * 512 <= j < k * 512 + i ==> self.words@[j] == 0,
                forall|j: int|
                    0 <= j < self.words.len() && !(k * 512 <= j < k * 512 + i) ==> self.words@[j]
                        == before.words@[j],
            decreases 512 - i,
        {
            self.words.set(k * 512 + i, 0);
            i = i + 1;
        }
        proof {
            assert forall|q: PhysAddr, j: int| q != page implies #[trigger] self.word(q, j)
                == before.word(q, j) by {
                if let Some(k2) = self.page_index(q) {
                    if 0 <= j < 512 {
                        assert(k2 != k);
                        assert(!(k * 512 <= k2 * 512 + j < k * 512 + 512));
                    }
                }
            }
            assert(self.owned() =~= before.owned());
        }
    }
}

} // verus!
