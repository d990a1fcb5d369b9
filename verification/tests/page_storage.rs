use tiered_alloc::{AllocFailure, PageStorage, RootAllocator, SlabAllocator};

#[test]
fn page_storage_lifo_roundtrip() {
    let mut root = RootAllocator::new();
    let mut store = PageStorage::new();
    assert_eq!(store.available_page_count(), 0);
    let a = root.try_get_page_wait_tolerable().unwrap();
    let b = root.try_get_page_wait_tolerable().unwrap();
    let (a_addr, b_addr) = (a.get_ptr(), b.get_ptr());
    store.store_page(a);
    store.store_page(b);
    assert_eq!(store.available_page_count(), 2);
    assert_eq!(store.try_get_page().unwrap().get_ptr(), b_addr);
    assert_eq!(store.try_get_page().unwrap().get_ptr(), a_addr);
    assert!(store.try_get_page().is_none());
    store.dispose_mem();
}

#[test]
fn smalloc_from_page_storage() {
    let mut root = RootAllocator::new();
    let mut store = PageStorage::new();
    let page = root.try_get_page_wait_tolerable().unwrap();
    store.store_page(page);
    let mut sal = SlabAllocator::new();

    let p = sal.smalloc(64, 64, &mut store).unwrap();
    assert!(p.get_ptr() % 64 == 0);
    assert_eq!(store.available_page_count(), 0);
    sal.release_memory(p);

    // the single page is whole again: a full-page span fits, then nothing more
    let q = sal.smalloc(4032, 1, &mut store).unwrap();
    match sal.smalloc(64, 1, &mut store) {
        Err(AllocFailure::NoMem) => (),
        _ => panic!(),
    }
    sal.release_memory(q);
    let r = sal.smalloc(4032, 1, &mut store).unwrap();
    assert!(r.get_ptr() % 64 == 0);
}
