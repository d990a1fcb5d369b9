use vstd::prelude::*;

use crate::utils::{block_addr_wf, Block4KPtr, PageSource};
use vstd::arithmetic::div_mod::{lemma_mod_mod, lemma_mod_multiples_vanish};

verus! {

/// Bytes reserved per superpage request: a 2 MiB superpage plus 2 MiB of
/// slack, which guarantees a 2 MiB-aligned superpage inside the reservation.
pub const SUPERPAGE_RESERVE_LEN: usize = 0x400000;

#[derive(Debug, Clone, Copy, PartialEq, Eq, Structural)]
pub enum AllocationFailure {
    WouldRetry,
    NoMem,
}

/// A well-formed superpage base: 2 MiB-aligned, nonzero, entirely below the
/// end of the user address space.
pub open spec fn superpage_wf(base: u64) -> bool {
    &&& base % 0x200000 == 0
    &&& base != 0
    &&& base + 0x200000 <= 0x1_0000_0000_0000
}

/// Trusted edge to the process allocator. Relies on std's
/// `Vec::try_reserve_exact`: on success the vector exclusively owns `len`
/// fresh bytes of heap memory; on `Vec::as_ptr`, which returns that buffer's
/// address; and on `core::mem::forget`, which leaves the buffer allocated for
/// the rest of the process's life. On x86_64 Linux a heap address plus the
/// reservation length fits in 48 bits. Returns 0 when memory is refused.
#[verifier::external_body]
fn reserve_pages_raw(len: usize) -> (r: u64)
    requires
        1 <= len,
    ensures
        r != 0 ==> r + len <= 0x1_0000_0000_0000,
{
    let mut v: Vec<u8> = Vec::new();
    if v.try_reserve_exact(len).is_err() {
        return 0;
    }
    let addr = v.as_ptr() as usize;
    core::mem::forget(v);
    addr as u64
}

/// Reserves a fresh 2 MiB-aligned superpage, or reports memory exhaustion.
fn alloc_superpage() -> (r: Result<u64, AllocationFailure>)
    ensures
        r matches Ok(base) ==> superpage_wf(base),
        r matches Err(e) ==> e == AllocationFailure::NoMem,
{
    let raw = reserve_pages_raw(SUPERPAGE_RESERVE_LEN);
    if raw == 0 {
        return Err(AllocationFailure::NoMem);
    }
    let q = raw / 0x200000;
    let base = if raw % 0x200000 == 0 {
        raw
    } else {
        (q + 1) * 0x200000
    };
    Ok(base)
}

/// The bulk allocator: reserves 2 MiB superpages and hands them out as
/// 512 consecutive 4 KiB blocks. The `index` word encodes
/// `(cursor << 1) | locked`, where the cursor counts blocks already handed
/// out of the current superpage; cursor 512 with no superpage forces the
/// first caller onto the refill path.
pub struct RootAllocator {
    super_page: u64,
    index: u64,
}

impl RootAllocator {
    /// Base address of the current superpage; 0 before the first refill.
    pub closed spec fn base(&self) -> u64 {
        self.super_page
    }

    /// How many blocks of the current superpage have been handed out.
    pub closed spec fn cursor(&self) -> u64 {
        self.index / 2
    }

    /// The refill bit of the index word. With a single owner the lock is
    /// never observed held.
    pub closed spec fn locked(&self) -> bool {
        self.index % 2 == 1
    }

    pub open spec fn wf(&self) -> bool {
        &&& !self.locked()
        &&& self.cursor() <= 512
        &&& self.cursor() < 512 ==> superpage_wf(self.base())
    }

    pub fn new() -> (r: RootAllocator)
        ensures
            r.wf(),
            r.cursor() == 512,
            r.base() == 0,
    {
        // the index encodes (cursor << 1) | locked: cursor 512, unlocked
        RootAllocator { super_page: 0, index: 1024 }
    }

    /// Hands out the next unclaimed 4 KiB block of the current superpage,
    /// refilling from the OS when the superpage is exhausted. Never blocks.
    pub fn try_get_page_fast_bailout(&mut self) -> (r: Result<Block4KPtr, AllocationFailure>)
        requires
            old(self).wf(),
        ensures
            final(self).wf(),
            !(r matches Err(AllocationFailure::WouldRetry)),
            r matches Ok(b) ==> {
                &&& b.wf()
                &&& superpage_wf(final(self).base())
                &&& 1 <= final(self).cursor() <= 512
                &&& b@ == final(self).base() + 4096 * (final(self).cursor() - 1)
                &&& final(self).base() <= b@ && b@ + 4096 <= final(self).base() + 0x200000
                &&& (old(self).cursor() < 512 ==> final(self).base() == old(self).base()
                    && final(self).cursor() == old(self).cursor() + 1)
                &&& (old(self).cursor() >= 512 ==> final(self).cursor() == 1)
            },
            r matches Err(e) ==> {
                &&& e == AllocationFailure::NoMem
                &&& old(self).cursor() >= 512
                &&& final(self).base() == old(self).base() && final(self).cursor() == old(
                    self,
                ).cursor()
            },
    {
        let offset = self.index;
        if offset % 2 == 1 {
            // unreachable with a single owner; kept to mirror the encoding
            return Err(AllocationFailure::WouldRetry);
        }
        let i = offset / 2;
        if i < 512 {
            self.index = offset + 2;
            let base = self.super_page;
            proof {
                lemma_mod_mod(base as int, 4096, 512);
                lemma_mod_multiples_vanish(i as int, base as int, 4096);
                assert(4096 * (i as int) == (4096 * i) as int) by (nonlinear_arith)
                    requires
                        i < 512,
                ;
            }
            let addr = base + 4096 * i;
            return Ok(Block4KPtr::new(addr));
        }
        match alloc_superpage() {
            Ok(base) => {
                self.super_page = base;
                // cursor 1, unlocked: block 0 of the fresh superpage goes to
                // this caller
                self.index = 2;
                proof {
                    lemma_mod_mod(base as int, 4096, 512);
                }
                Ok(Block4KPtr::new(base))
            },
            Err(e) => Err(e),
        }
    }

    /// Loops over the fast path until it either yields a block or reports
    /// memory exhaustion. Success is owed whenever the current superpage
    /// still has blocks.
    pub fn try_get_page_wait_tolerable(&mut self) -> (r: Result<Block4KPtr, AllocationFailure>)
        requires
            old(self).wf(),
        ensures
            final(self).wf(),
            r matches Ok(b) ==> {
                &&& b.wf()
                &&& superpage_wf(final(self).base())
                &&& 1 <= final(self).cursor() <= 512
                &&& b@ == final(self).base() + 4096 * (final(self).cursor() - 1)
                &&& final(self).base() <= b@ && b@ + 4096 <= final(self).base() + 0x200000
                &&& (old(self).cursor() < 512 ==> final(self).base() == old(self).base()
                    && final(self).cursor() == old(self).cursor() + 1)
                &&& (old(self).cursor() >= 512 ==> final(self).cursor() == 1)
            },
            r matches Err(e) ==> {
                &&& e == AllocationFailure::NoMem
                &&& old(self).cursor() >= 512
                &&& final(self).base() == old(self).base() && final(self).cursor() == old(
                    self,
                ).cursor()
            },
    {
        loop
            invariant
                self.wf(),
                self.base() == old(self).base(),
                self.cursor() == old(self).cursor(),
            decreases 0int,
        {
            match self.try_get_page_fast_bailout() {
                Ok(mem) => {
                    return Ok(mem);
                },
                Err(err) => {
                    match err {
                        AllocationFailure::WouldRetry => {
                            continue ;
                        },
                        _ => {
                            return Err(err);
                        },
                    }
                },
            }
        }
    }

    /// Retires the unhanded-out tail of the current superpage: afterwards no
    /// block of it is ever handed out again. The bulk reservation itself
    /// stays with the process allocator (see `reserve_pages_raw`).
    pub fn destroy(&mut self)
        requires
            old(self).wf(),
        ensures
            final(self).wf(),
            final(self).cursor() == 512,
            final(self).base() == old(self).base(),
    {
        self.index = 1024;
    }
}

/// Law: two blocks carved at distinct cursor positions of one superpage
/// occupy disjoint 4 KiB address ranges.
pub proof fn lemma_blocks_disjoint(base: u64, i: u64, j: u64)
    requires
        i < 512,
        j < 512,
        i != j,
        base + 0x200000 <= 0x1_0000_0000_0000,
    ensures
        base + 4096 * i + 4096 <= base + 4096 * j || base + 4096 * j + 4096 <= base + 4096 * i,
{
}

impl PageSource for RootAllocator {
    open spec fn source_wf(&self) -> bool {
        self.wf()
    }

    /// Forwards `try_get_page_wait_tolerable`: `Some` exactly when that call
    /// returns `Ok`, with the same block; `None` only on memory exhaustion.
    fn try_get_free_page(&mut self) -> (r: Option<Block4KPtr>)
        ensures
            old(self).cursor() < 512 ==> r is Some,
            r matches Some(b) ==> {
                &&& b.wf()
                &&& superpage_wf(final(self).base())
                &&& 1 <= final(self).cursor() <= 512
                &&& b@ == final(self).base() + 4096 * (final(self).cursor() - 1)
            },
            r is None ==> old(self).cursor() >= 512 && final(self).base() == old(self).base()
                && final(self).cursor() == old(self).cursor(),
    {
        match self.try_get_page_wait_tolerable() {
            Ok(mem) => Some(mem),
            Err(_) => None,
        }
    }
}

} // verus!
