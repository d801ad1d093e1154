use bump_allocator::{AllocError, EarlyAllocator};

type Early = EarlyAllocator<0x100>;

fn region() -> Early {
    let mut a = Early::new();
    a.init(0x1000, 0x2000);
    a
}

#[test]
fn new_is_inert() {
    let a = Early::new();
    assert_eq!(a.start(), 0);
    assert_eq!(a.end(), 0);
    assert_eq!(a.b_pos(), 0);
    assert_eq!(a.p_pos(), 0);
    assert_eq!(a.count(), 0);
    assert_eq!(a.page_size(), 0x100);
}

#[test]
fn init_aligned_start() {
    let mut a = Early::new();
    a.init(0x1000, 0x2080);
    assert_eq!(a.start(), 0x1000);
    assert_eq!(a.end(), 0x3080);
    assert_eq!(a.b_pos(), 0x1000);
    assert_eq!(a.p_pos(), 0x1000 + (0x2080 / 0x100) * 0x100);
    assert_eq!(a.p_pos(), 0x3000);
    assert_eq!(a.count(), 0);
}

#[test]
fn init_unaligned_start_rounds_end_down() {
    let mut a = Early::new();
    a.init(0x1010, 0x2000);
    assert_eq!(a.end(), 0x3010);
    assert_eq!(a.b_pos(), 0x1010);
    assert_eq!(a.p_pos(), 0x3000);
}

#[test]
fn init_twice_rebases() {
    let mut a = region();
    assert_eq!(a.alloc_bytes(8, 8), Ok(0x1000));
    a.init(0x4000, 0x1000);
    assert_eq!(a.b_pos(), 0x4000);
    assert_eq!(a.p_pos(), 0x5000);
    assert_eq!(a.count(), 0);
}

#[test]
fn concrete_scenario() {
    let mut a = region();
    assert_eq!(a.b_pos(), 0x1000);
    assert_eq!(a.p_pos(), 0x3000);
    assert_eq!(a.count(), 0);
    assert_eq!(a.alloc_bytes(8, 8), Ok(0x1000));
    assert_eq!(a.b_pos(), 0x1008);
    assert_eq!(a.count(), 1);
    assert_eq!(a.alloc_pages(2, 0x100), Ok(0x2E00));
    assert_eq!(a.p_pos(), 0x2E00);
    a.dealloc(0x1000, 8);
    assert_eq!(a.count(), 0);
    assert_eq!(a.b_pos(), 0x1000);
    assert_eq!(a.available_bytes(), 0x1E00);
    assert_eq!(a.alloc_bytes(0x2000, 1), Err(AllocError::NoMemory));
    assert_eq!(a.b_pos(), 0x1000);
    assert_eq!(a.count(), 0);
}

#[test]
fn alloc_rounds_up_to_alignment() {
    let mut a = region();
    assert_eq!(a.alloc_bytes(1, 1), Ok(0x1000));
    assert_eq!(a.alloc_bytes(8, 16), Ok(0x1010));
    assert_eq!(a.b_pos(), 0x1018);
    assert_eq!(a.count(), 2);
}

#[test]
fn alloc_fills_gap_exactly() {
    let mut a = region();
    assert_eq!(a.alloc_bytes(0x2000, 1), Ok(0x1000));
    assert_eq!(a.available_bytes(), 0);
    assert_eq!(a.alloc_bytes(1, 1), Err(AllocError::NoMemory));
    assert_eq!(a.alloc_bytes(0, 1), Ok(0x3000));
}

#[test]
fn alloc_failure_leaves_state() {
    let mut a = region();
    assert_eq!(a.alloc_bytes(3, 1), Ok(0x1000));
    assert_eq!(a.alloc_bytes(0x1FF9, 8), Err(AllocError::NoMemory));
    assert_eq!(a.b_pos(), 0x1003);
    assert_eq!(a.count(), 1);
    assert_eq!(a.alloc_bytes(usize::MAX, 1), Err(AllocError::NoMemory));
    assert_eq!(a.b_pos(), 0x1003);
}

#[test]
fn byte_accounting_holds() {
    let mut a = region();
    assert_eq!(a.alloc_bytes(0x30, 8), Ok(0x1000));
    assert_eq!(a.alloc_pages(3, 0x100), Ok(0x2D00));
    assert_eq!(a.total_bytes(), 0x1D00);
    assert_eq!(a.used_bytes(), 0x30);
    assert_eq!(a.available_bytes(), 0x1CD0);
    assert_eq!(a.used_bytes() + a.available_bytes(), a.total_bytes());
    assert_eq!(a.available_bytes(), a.p_pos() - a.b_pos());
}

#[test]
fn page_queries() {
    let mut a = region();
    assert_eq!(a.alloc_bytes(0x180, 1), Ok(0x1000));
    assert_eq!(a.alloc_pages(4, 0x100), Ok(0x2C00));
    assert_eq!(a.total_pages(), (0x3000 - 0x1180) / 0x100);
    assert_eq!(a.used_pages(), 4);
    assert_eq!(a.available_pages(), (0x2C00 - 0x1180) / 0x100);
    assert_eq!(a.available_pages(), 0x1A);
}

#[test]
fn drain_in_any_order_resets_byte_cursor() {
    let mut a = region();
    assert_eq!(a.alloc_bytes(0x10, 8), Ok(0x1000));
    assert_eq!(a.alloc_bytes(0x10, 8), Ok(0x1010));
    assert_eq!(a.alloc_bytes(0x10, 8), Ok(0x1020));
    a.dealloc(0x1000, 0x10);
    assert_eq!(a.b_pos(), 0x1030);
    a.dealloc(0x1020, 0x10);
    assert_eq!(a.b_pos(), 0x1020);
    a.dealloc(0x1010, 0x10);
    assert_eq!(a.count(), 0);
    assert_eq!(a.b_pos(), 0x1000);
}

#[test]
fn freeing_last_block_retracts() {
    let mut a = region();
    assert_eq!(a.alloc_bytes(0x10, 8), Ok(0x1000));
    assert_eq!(a.alloc_bytes(0x20, 8), Ok(0x1010));
    a.dealloc(0x1010, 0x20);
    assert_eq!(a.b_pos(), 0x1010);
    assert_eq!(a.count(), 1);
}

#[test]
fn freeing_other_block_only_counts() {
    let mut a = region();
    assert_eq!(a.alloc_bytes(0x10, 8), Ok(0x1000));
    assert_eq!(a.alloc_bytes(0x20, 8), Ok(0x1010));
    a.dealloc(0x1000, 0x10);
    assert_eq!(a.b_pos(), 0x1030);
    assert_eq!(a.count(), 1);
}

#[test]
fn page_cursor_only_goes_down() {
    let mut a = region();
    let mut last = a.p_pos();
    for n in 0..4usize {
        let r = a.alloc_pages(n, 0x100);
        assert!(r.is_ok());
        assert!(a.p_pos() <= last);
        assert_eq!(a.p_pos() % 0x100, 0);
        last = a.p_pos();
    }
    assert_eq!(a.p_pos(), 0x3000 - 6 * 0x100);
    assert_eq!(a.alloc_bytes(0x10, 1), Ok(0x1000));
    a.dealloc(0x1000, 0x10);
    assert_eq!(a.p_pos(), last);
}

#[test]
fn alloc_pages_aligns_base_down() {
    let mut a = region();
    assert_eq!(a.alloc_pages(1, 0x1000), Ok(0x2000));
    assert_eq!(a.p_pos(), 0x2000);
    assert_eq!(a.alloc_pages(1, 0x10), Ok(0x1F00));
}

#[test]
fn alloc_pages_needs_gap_left_behind() {
    let mut a = region();
    assert_eq!(a.alloc_pages(17, 0x100), Err(AllocError::NoMemory));
    assert_eq!(a.p_pos(), 0x3000);
    assert_eq!(a.b_pos(), 0x1000);
    assert_eq!(a.alloc_pages(16, 0x100), Ok(0x2000));
    assert_eq!(a.p_pos(), 0x2000);
}

#[test]
fn alloc_pages_overflow_is_no_memory() {
    let mut a = region();
    assert_eq!(a.alloc_pages(usize::MAX, 0x100), Err(AllocError::NoMemory));
    assert_eq!(a.alloc_pages(0x31, 0x100), Err(AllocError::NoMemory));
    assert_eq!(a.p_pos(), 0x3000);
}

#[test]
fn unsupported_calls_change_nothing() {
    let mut a = region();
    assert_eq!(a.alloc_bytes(8, 8), Ok(0x1000));
    assert_eq!(a.alloc_pages(1, 0x100), Ok(0x2F00));
    assert_eq!(a.add_memory(0x8000, 0x1000), Err(AllocError::Unsupported));
    assert_eq!(a.dealloc_pages(0x2F00, 1), Err(AllocError::Unsupported));
    assert_eq!(a.start(), 0x1000);
    assert_eq!(a.end(), 0x3000);
    assert_eq!(a.b_pos(), 0x1008);
    assert_eq!(a.p_pos(), 0x2F00);
    assert_eq!(a.count(), 1);
}
