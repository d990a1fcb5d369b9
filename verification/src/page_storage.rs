use vstd::prelude::*;

use crate::utils::{block_addr_wf, Block4KPtr, PageSource};

verus! {

/// Every address held by the cache is a well-formed block address.
pub open spec fn storage_wf(pages: Seq<u64>) -> bool {
    forall|i: int| 0 <= i < pages.len() ==> block_addr_wf(#[trigger] pages[i])
}

/// A cache of freed 4 KiB blocks, handed back in last-in, first-out order.
/// Single-owner: callers needing sharing synchronize externally.
pub struct PageStorage {
    free_pages: Vec<u64>,
}

impl View for PageStorage {
    type V = Seq<u64>;

    closed spec fn view(&self) -> Seq<u64> {
        self.free_pages@
    }
}

impl PageStorage {
    pub open spec fn wf(&self) -> bool {
        storage_wf(self@)
    }

    pub fn new() -> (r: PageStorage)
        ensures
            r@.len() == 0,
            r.wf(),
    {
        PageStorage { free_pages: Vec::new() }
    }

    /// Number of pages the cache currently holds: popping a page decrements
    /// it, so it counts blocks available right now, not all ever stored.
    pub fn available_page_count(&self) -> (r: usize)
        ensures
            r == self@.len(),
    {
        self.free_pages.len()
    }

    /// Deposits a freed block at the head of the cache.
    pub fn store_page(&mut self, page: Block4KPtr)
        requires
            old(self).wf(),
            page.wf(),
        ensures
            final(self).wf(),
            final(self)@ == old(self)@.push(page@),
    {
        self.free_pages.push(page.get_ptr());
    }

    /// Pops the most recently stored block; `None` when the cache is empty.
    pub fn try_get_page(&mut self) -> (r: Option<Block4KPtr>)
        requires
            old(self).wf(),
        ensures
            final(self).wf(),
            old(self)@.len() == 0 ==> r is None && final(self)@ == old(self)@,
            old(self)@.len() > 0 ==> (r matches Some(b) && b.wf() && b@ == old(self)@.last()
                && final(self)@ == old(self)@.drop_last()),
    {
        match self.free_pages.pop() {
            Some(addr) => Some(Block4KPtr::new(addr)),
            None => None,
        }
    }

    /// Consumes the cache and retires the blocks it still holds: they are
    /// never handed out again. Their bulk reservations stay with the process
    /// allocator, which reclaims them when the process ends.
    pub fn dispose_mem(self) {
    }
}

impl PageSource for PageStorage {
    open spec fn source_wf(&self) -> bool {
        self.wf()
    }

    /// Forwards `try_get_page`: pops the most recently stored block, `None`
    /// exactly when the cache is empty.
    fn try_get_free_page(&mut self) -> (r: Option<Block4KPtr>)
        ensures
            old(self)@.len() == 0 ==> r is None && final(self)@ == old(self)@,
            old(self)@.len() > 0 ==> (r matches Some(b) && b@ == old(self)@.last()
                && final(self)@ == old(self)@.drop_last()),
    {
        self.try_get_page()
    }
}

} // verus!
