use ares::mem::heap::{self, Layout};

#[test]
fn heap_allocation() {
    let mut kernel_heap = heap::init(0x10_0000, heap::HEAP_SIZE);
    let before = heap::remaining_bytes(&kernel_heap);
    assert_eq!(before, heap::HEAP_SIZE);
    let layout = Layout::from_size_align(32, 8).unwrap();
    let addr = heap::allocate(&mut kernel_heap, layout).unwrap();
    assert_eq!(addr, 0x10_0000);
    assert_eq!(heap::remaining_bytes(&kernel_heap), before - 32);
    assert!(heap::deallocate(&mut kernel_heap, addr, layout));
    let after = heap::remaining_bytes(&kernel_heap);
    assert_eq!(after, before);
    assert_eq!(kernel_heap.list.regions.len(), 1);
}
