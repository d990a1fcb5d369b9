use tiered_alloc::{AllocFailure, OccupationMap, RawMemoryPtr, RootAllocator, SlabAllocator};

#[test]
fn ocup_map_t() {
    let mut om = OccupationMap::from_bits(605069386);
    om.try_find_span(3, 64);
    assert!(om.load() == 605070282);

    let mut om = OccupationMap::from_bits(605069386);
    om.try_find_span(10, 64);
    assert!(om.load() == 1099042955338);

    let mut om = OccupationMap::from_bits(u64::MAX >> 1);
    match om.try_find_span(1, 64) {
        Some(_) => panic!(),
        None => (),
    }

    let mut om = OccupationMap::from_bits(0);
    match om.try_find_span(63, 64) {
        Some(_) => (),
        None => panic!(),
    }
    assert!(om.load() == u64::MAX >> 1);

    assert!(om.try_find_span(1, 64).is_none());
    assert!(om.try_find_span(1, 64).is_none());

    let mut om = OccupationMap::from_bits(1668);
    match om.try_find_span(2, 512) {
        Some(_) => (),
        None => panic!(),
    }
    assert!(om.load() == 99972);

    let mut om = OccupationMap::from_bits(7);
    match om.try_find_span(1, 512) {
        Some(_) => (),
        None => panic!(),
    }
    assert!(om.load() == 135);
}

#[test]
fn cyc() {
    let mut om = OccupationMap::new();
    let mut v = Vec::new();
    for _ in 0..63 {
        let k = om.try_find_span(1, 1).unwrap();
        v.push(k);
    }
    assert!(om.load() == u64::MAX >> 1);
    v.reverse();
    for item in v {
        om.release_span(1, item);
    }
    assert!(om.load() == 0);
}

#[test]
fn basic_alignment_test() {
    let mut raloc = RootAllocator::new();
    let mut mballoc = SlabAllocator::new();

    let smth = mballoc.smalloc(96, 256, &mut raloc);
    if let Ok(ptr) = smth {
        assert!(ptr.get_ptr() % 256 == 0);
        println!("{:?}", ptr);
    } else {
        panic!()
    }
    let smth = mballoc.smalloc(4096 - 64, 1, &mut raloc);
    if let Ok(ptr) = smth {
        assert!(ptr.get_ptr() % 1 == 0);
        println!("{:?}", ptr);
        mballoc.release_memory(ptr)
    } else {
        panic!()
    }
    let smth = mballoc.smalloc(4096 - 64 + 1, 1, &mut raloc);
    if let Err(AllocFailure::WontFit) = smth {
        ()
    } else {
        panic!()
    }
    let smth = mballoc.smalloc(4096 - 64, 1, &mut raloc);
    if let Ok(ptr) = smth {
        assert!(ptr.get_ptr() % 1 == 0);
        println!("{:?}", ptr);
        mballoc.release_memory(ptr)
    } else {
        panic!()
    }
}

#[test]
fn basic_uniqueness_test() {
    let mut ral = RootAllocator::new();
    let mut sal = SlabAllocator::new();

    const LIMIT: usize = 10;

    let mut m = Vec::new();
    m.reserve(LIMIT);

    for _ in 0..LIMIT {
        let smth = sal.smalloc(24, std::mem::align_of::<u64>(), &mut ral);
        match smth {
            Ok(ptr) => m.push(ptr.get_ptr()),
            Err(e) => panic!("{:?}", e),
        }
    }

    let mut k = Vec::new();

    for item in &m {
        for item2 in &k {
            if item == item2 {
                panic!("fk. collision")
            }
        }
        k.push(*item)
    }
}

#[test]
fn can_allocate_bounds() {
    assert!(SlabAllocator::can_allocate(4032, 1));
    assert!(!SlabAllocator::can_allocate(4033, 1));
    assert!(SlabAllocator::can_allocate(96, 256));
    assert!(!SlabAllocator::can_allocate(0, 4096));
    assert!(SlabAllocator::can_allocate(2048, 2048));
    assert!(!SlabAllocator::can_allocate(2049, 4096));
}

#[test]
fn null_ptr_roundtrip() {
    let p = RawMemoryPtr::null();
    assert!(p.is_null());
    assert_eq!(p.get_ptr(), 0);
}

#[test]
fn smalloc_no_mem_on_empty_source() {
    let mut store = tiered_alloc::PageStorage::new();
    let mut sal = SlabAllocator::new();
    match sal.smalloc(128, 1, &mut store) {
        Err(AllocFailure::NoMem) => (),
        _ => panic!(),
    }
}
