use tiered_alloc::RootAllocator;

#[test]
fn alloc_works() {
    // this will eat a lot of ram, fix it if not disposed properly
    const THREAD_COUNT: usize = 4096 * 4;
    let mut ralloc = RootAllocator::new();
    let mut seen = std::collections::HashSet::new();
    for _ in 0..THREAD_COUNT {
        let ptr = ralloc.try_get_page_wait_tolerable().unwrap();
        let addr = ptr.get_ptr();
        assert!(addr % 4096 == 0);
        assert!(seen.insert(addr), "threads got same memory region!!!");
    }
}

#[test]
fn destroy_retires_tail() {
    let mut root = RootAllocator::new();
    let first = root.try_get_page_wait_tolerable().unwrap();
    root.destroy();
    // the next request must refill onto a fresh superpage, not reuse the tail
    let next = root.try_get_page_wait_tolerable().unwrap();
    assert!(next.get_ptr() % 4096 == 0);
    assert_ne!(next.get_ptr(), first.get_ptr() + 4096);
}
