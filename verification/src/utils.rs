use vstd::prelude::*;

verus! {

/// A power of two: nonzero, and clearing the lowest set bit leaves zero.
pub open spec fn is_pow2(a: u64) -> bool {
    a != 0 && a & ((a - 1) as u64) == 0
}

/// A well-formed block address: 4 KiB-aligned, nonzero, with a whole
/// 4 KiB block of room below the end of the user address space.
pub open spec fn block_addr_wf(addr: u64) -> bool {
    &&& addr % 4096 == 0
    &&& addr != 0
    &&& addr + 4096 <= 0x1_0000_0000_0000
}

/// Handle around the address of one exclusively owned 4 KiB-aligned block.
#[derive(Debug, Clone, Copy)]
pub struct Block4KPtr {
    addr: u64,
}

impl View for Block4KPtr {
    type V = u64;

    closed spec fn view(&self) -> u64 {
        self.addr
    }
}

impl Block4KPtr {
    pub open spec fn wf(&self) -> bool {
        block_addr_wf(self@)
    }

    pub fn new(addr: u64) -> (r: Block4KPtr)
        requires
            block_addr_wf(addr),
        ensures
            r@ == addr,
            r.wf(),
    {
        Block4KPtr { addr }
    }

    /// The block's address.
    pub fn get_ptr(&self) -> (r: u64)
        ensures
            r == self@,
    {
        self.addr
    }
}

/// Capability to hand out one fresh 4 KiB block; `None` means exhaustion.
pub trait PageSource {
    spec fn source_wf(&self) -> bool;

    fn try_get_free_page(&mut self) -> (r: Option<Block4KPtr>)
        requires
            old(self).source_wf(),
        ensures
            final(self).source_wf(),
            r matches Some(b) ==> b.wf();
}

/// Rounds an address down to the given power-of-two alignment.
pub fn align_backward(ptr: u64, alignment: u64) -> (r: u64)
    requires
        is_pow2(alignment),
    ensures
        r == ptr & !((alignment - 1) as u64),
{
    let mask = alignment - 1;
    ptr & !mask
}

} // verus!
