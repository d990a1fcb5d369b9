pub mod page_storage;
pub mod root_alloc;
pub mod slab_allocator;
pub mod utils;

pub use crate::page_storage::PageStorage;
pub use crate::root_alloc::{AllocationFailure, RootAllocator};
pub use crate::slab_allocator::{AllocFailure, OccupationMap, RawMemoryPtr, SlabAllocator};
pub use crate::utils::{Block4KPtr, PageSource};
