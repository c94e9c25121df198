use minimal_plugin::instance::{
    on_load, on_unload, plugin_alloc, plugin_dealloc, Instance, Lifecycle, ADDRESS_LIMIT,
};

#[test]
fn new_instance_is_empty_and_unloaded() {
    let inst = Instance::new();
    assert_eq!(inst.memory_size(), 0);
    assert_eq!(inst.lifecycle(), Lifecycle::Unloaded);
    assert!(inst.holds(0, 0));
    assert!(!inst.holds(0, 1));
}

#[test]
fn address_limit_is_the_largest_i32() {
    assert_eq!(ADDRESS_LIMIT, i32::MAX);
    assert_eq!(ADDRESS_LIMIT, 2147483647);
}

#[test]
fn plugin_alloc_hands_out_consecutive_regions() {
    let mut inst = Instance::new();
    assert_eq!(plugin_alloc(&mut inst, 10), 0);
    assert_eq!(inst.memory_size(), 10);
    assert_eq!(plugin_alloc(&mut inst, 1), 10);
    assert_eq!(inst.memory_size(), 11);
    assert_eq!(plugin_alloc(&mut inst, 300), 11);
    assert_eq!(inst.memory_size(), 311);
}

#[test]
fn plugin_alloc_keeps_what_memory_held() {
    let mut inst = Instance::new();
    let first = plugin_alloc(&mut inst, 4);
    inst.write(first, &[1, 2, 3, 4]);
    let second = plugin_alloc(&mut inst, 4);
    inst.write(second, &[5, 6, 7, 8]);
    let third = plugin_alloc(&mut inst, 1000);
    assert_eq!(inst.read(first, 4), vec![1, 2, 3, 4]);
    assert_eq!(inst.read(second, 4), vec![5, 6, 7, 8]);
    assert_eq!(third, 8);
}

#[test]
fn plugin_dealloc_changes_no_byte() {
    let mut inst = Instance::new();
    let first = plugin_alloc(&mut inst, 3);
    inst.write(first, b"abc");
    let second = plugin_alloc(&mut inst, 3);
    inst.write(second, b"def");
    plugin_dealloc(&mut inst, first, 3);
    assert_eq!(inst.memory_size(), 6);
    assert_eq!(inst.read(0, 6), b"abcdef".to_vec());
    plugin_dealloc(&mut inst, second, 3);
    assert_eq!(inst.read(0, 6), b"abcdef".to_vec());
}

#[test]
fn regions_do_not_overlap() {
    let mut inst = Instance::new();
    let sizes = [5, 0, 1, 64, 0, 7];
    let mut regions: Vec<(i32, i32)> = Vec::new();
    for size in sizes {
        let address = plugin_alloc(&mut inst, size);
        for (other, other_size) in &regions {
            assert!(other + other_size <= address || address + size <= *other);
        }
        regions.push((address, size));
    }
    for (address, size) in regions {
        plugin_dealloc(&mut inst, address, size);
    }
}

#[test]
fn empty_allocation_and_release_leave_the_allocator_intact() {
    let mut inst = Instance::new();
    let kept = plugin_alloc(&mut inst, 4);
    inst.write(kept, &[9, 8, 7, 6]);
    let size_before = inst.memory_size();

    let empty = plugin_alloc(&mut inst, 0);
    assert_eq!(inst.memory_size(), size_before);
    plugin_dealloc(&mut inst, empty, 0);
    assert_eq!(inst.memory_size(), size_before);
    assert_eq!(inst.read(kept, 4), vec![9, 8, 7, 6]);

    let next = plugin_alloc(&mut inst, 8);
    assert_eq!(next, size_before);
    inst.write(next, &[1; 8]);
    assert_eq!(inst.read(kept, 4), vec![9, 8, 7, 6]);
    assert_eq!(inst.read(next, 8), vec![1; 8]);
    plugin_dealloc(&mut inst, next, 8);
    plugin_dealloc(&mut inst, kept, 4);
}

#[test]
fn empty_allocation_on_a_fresh_instance() {
    let mut inst = Instance::new();
    let empty = plugin_alloc(&mut inst, 0);
    assert_eq!(empty, 0);
    plugin_dealloc(&mut inst, empty, 0);
    assert_eq!(inst.memory_size(), 0);
    assert_eq!(plugin_alloc(&mut inst, 2), 0);
    assert_eq!(inst.memory_size(), 2);
}

#[test]
fn has_room_tells_whether_memory_can_grow() {
    let mut inst = Instance::new();
    assert!(inst.has_room(0));
    assert!(inst.has_room(1));
    assert!(inst.has_room(ADDRESS_LIMIT));
    assert!(!inst.has_room(-1));
    assert!(!inst.has_room(i32::MIN));
    plugin_alloc(&mut inst, 10);
    assert!(inst.has_room(ADDRESS_LIMIT - 10));
    assert!(!inst.has_room(ADDRESS_LIMIT - 9));
    assert!(!inst.has_room(ADDRESS_LIMIT));
}

#[test]
fn holds_tells_whether_a_range_lies_inside() {
    let mut inst = Instance::new();
    plugin_alloc(&mut inst, 10);
    assert!(inst.holds(0, 10));
    assert!(inst.holds(0, 0));
    assert!(inst.holds(10, 0));
    assert!(inst.holds(9, 1));
    assert!(inst.holds(3, 4));
    assert!(!inst.holds(0, 11));
    assert!(!inst.holds(10, 1));
    assert!(!inst.holds(11, 0));
    assert!(!inst.holds(-1, 1));
    assert!(!inst.holds(0, -1));
    assert!(!inst.holds(i32::MAX, i32::MAX));
    assert!(!inst.holds(i32::MIN, i32::MIN));
    assert!(!inst.holds(1, i32::MAX));
}

#[test]
fn write_changes_only_its_range() {
    let mut inst = Instance::new();
    let address = plugin_alloc(&mut inst, 8);
    inst.write(address, &[1, 2, 3, 4, 5, 6, 7, 8]);
    inst.write(address + 2, &[30, 40, 50]);
    assert_eq!(inst.read(address, 8), vec![1, 2, 30, 40, 50, 6, 7, 8]);
    inst.write(address + 8, &[]);
    inst.write(address, &[]);
    assert_eq!(inst.read(address, 8), vec![1, 2, 30, 40, 50, 6, 7, 8]);
    inst.write(address + 7, &[80]);
    assert_eq!(inst.read(address, 8), vec![1, 2, 30, 40, 50, 6, 7, 80]);
    assert_eq!(inst.memory_size(), 8);
}

#[test]
fn read_copies_a_range() {
    let mut inst = Instance::new();
    let address = plugin_alloc(&mut inst, 5);
    inst.write(address, b"hello");
    assert_eq!(inst.read(1, 3), b"ell".to_vec());
    assert_eq!(inst.read(0, 0), Vec::<u8>::new());
    assert_eq!(inst.read(5, 0), Vec::<u8>::new());
    assert_eq!(inst.read(4, 1), b"o".to_vec());
}

#[test]
fn lifecycle_goes_from_unloaded_to_loaded_and_back() {
    let mut inst = Instance::new();
    assert_eq!(inst.lifecycle(), Lifecycle::Unloaded);
    on_load(&mut inst);
    assert_eq!(inst.lifecycle(), Lifecycle::Loaded);
    on_unload(&mut inst);
    assert_eq!(inst.lifecycle(), Lifecycle::Unloaded);
}

#[test]
fn lifecycle_hooks_leave_memory_alone() {
    let mut inst = Instance::new();
    let address = plugin_alloc(&mut inst, 3);
    inst.write(address, b"xyz");
    on_load(&mut inst);
    assert_eq!(inst.memory_size(), 3);
    assert_eq!(inst.read(address, 3), b"xyz".to_vec());
    on_unload(&mut inst);
    assert_eq!(inst.memory_size(), 3);
    assert_eq!(inst.read(address, 3), b"xyz".to_vec());
    plugin_dealloc(&mut inst, address, 3);
}
