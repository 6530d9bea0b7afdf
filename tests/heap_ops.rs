use alloc_core::bounded::BoundedHeap;
use alloc_core::global::{Alloc, AllocErr, Global};
use alloc_core::layout::Layout;
use alloc_core::owned::{box_free, exchange_malloc, plan_placement, release_layout, settle, Placement};
use alloc_core::raw::{alloc_zeroed, allocate, dealloc, realloc};

fn layout(size: usize, align: usize) -> Layout {
    Layout::from_size_align(size, align).unwrap()
}

#[test]
fn allocate_then_dealloc_then_allocate_again() {
    let mut h = BoundedHeap::new(4096);
    let l = layout(64, 16);
    let p = allocate(&mut h, l);
    assert_ne!(p, 0);
    assert_eq!(p % 16, 0);
    dealloc(&mut h, p, l);
    let q = allocate(&mut h, layout(32, 16));
    assert_ne!(q, 0);
    assert_eq!(q % 16, 0);
    dealloc(&mut h, q, layout(32, 16));
}

#[test]
fn allocations_are_distinct_and_aligned() {
    let mut h = BoundedHeap::new(4096);
    let a = allocate(&mut h, layout(3, 1));
    let b = allocate(&mut h, layout(8, 8));
    let c = allocate(&mut h, layout(5, 32));
    assert!(a != 0 && b != 0 && c != 0);
    assert!(a != b && b != c && a != c);
    assert_eq!(b % 8, 0);
    assert_eq!(c % 32, 0);
    assert!(b >= a + 3);
    assert!(c >= b + 8);
}

#[test]
fn alloc_zeroed_reads_zero_everywhere() {
    let mut h = BoundedHeap::new(4096);
    let l = layout(100, 4);
    let p = alloc_zeroed(&mut h, l);
    assert_ne!(p, 0);
    for off in 0..100 {
        assert_eq!(h.read(p, off), 0);
    }
}

#[test]
fn realloc_keeps_written_pattern() {
    let mut h = BoundedHeap::new(4096);
    let l = layout(16, 8);
    let p = allocate(&mut h, l);
    assert_ne!(p, 0);
    for off in 0..16 {
        h.write(p, off, 0xA0 + off as u8);
    }
    let q = realloc(&mut h, p, l, 32);
    assert_ne!(q, 0);
    assert_eq!(q % 8, 0);
    for off in 0..16 {
        assert_eq!(h.read(q, off), 0xA0 + off as u8);
    }
    dealloc(&mut h, q, layout(32, 8));
}

#[test]
fn realloc_to_smaller_keeps_prefix() {
    let mut h = BoundedHeap::new(4096);
    let l = layout(8, 2);
    let p = allocate(&mut h, l);
    for off in 0..8 {
        h.write(p, off, off as u8 + 1);
    }
    let q = realloc(&mut h, p, l, 3);
    assert_ne!(q, 0);
    assert_eq!(h.read(q, 0), 1);
    assert_eq!(h.read(q, 1), 2);
    assert_eq!(h.read(q, 2), 3);
}

#[test]
fn realloc_failure_keeps_old_block() {
    let mut h = BoundedHeap::new(64);
    let l = layout(16, 8);
    let p = allocate(&mut h, l);
    assert_ne!(p, 0);
    h.write(p, 5, 77);
    let q = realloc(&mut h, p, l, 1000);
    assert_eq!(q, 0);
    assert_eq!(h.read(p, 5), 77);
    dealloc(&mut h, p, l);
}

#[test]
fn exhausted_heap_returns_null() {
    let mut h = BoundedHeap::new(40);
    assert_ne!(allocate(&mut h, layout(30, 1)), 0);
    assert_eq!(allocate(&mut h, layout(30, 1)), 0);
    assert_eq!(alloc_zeroed(&mut h, layout(30, 1)), 0);
}

#[test]
fn global_wraps_null_as_alloc_err() {
    let mut g = Global::new(BoundedHeap::new(0));
    assert_eq!(g.allocate(layout(8, 8)), Err(AllocErr));
    assert_eq!(g.alloc_zeroed(layout(8, 8)), Err(AllocErr));
    assert_eq!(g.heap().calls(), 2);
}

#[test]
fn global_forwards_to_raw_allocator() {
    let mut g = Global::new(BoundedHeap::new(4096));
    let l = layout(16, 8);
    let p = g.alloc_zeroed(l).unwrap();
    assert_ne!(p, 0);
    let q = g.realloc(p, l, 48).unwrap();
    assert_eq!(g.heap().read(q, 15), 0);
    g.dealloc(q, layout(48, 8));
    let r = g.allocate(l).unwrap();
    assert_eq!(r % 8, 0);
    let h = g.into_heap();
    assert_eq!(h.calls(), 4);
}

#[test]
fn zero_size_placement_is_sentinel_without_calls() {
    for align in [1usize, 2, 8, 4096] {
        let mut h = BoundedHeap::new(4096);
        assert_eq!(exchange_malloc(&mut h, 0, align), Ok(align));
        box_free(&mut h, align, 0, align);
        assert_eq!(h.calls(), 0);
    }
}

#[test]
fn placement_failure_escalates_with_requested_layout() {
    let mut h = BoundedHeap::new(0);
    let r = exchange_malloc(&mut h, 24, 8);
    assert_eq!(r, Err(layout(24, 8)));
    assert_eq!(h.calls(), 1);
}

#[test]
fn placement_then_release_uses_the_allocator_once_each() {
    let mut h = BoundedHeap::new(4096);
    let p = exchange_malloc(&mut h, 12, 4).unwrap();
    assert_ne!(p, 0);
    assert_eq!(p % 4, 0);
    assert_eq!(h.calls(), 1);
    box_free(&mut h, p, 12, 4);
    assert_eq!(h.calls(), 2);
}

#[test]
fn plan_placement_splits_zero_size() {
    assert_eq!(plan_placement(0, 16), Placement::Sentinel(16));
    assert_eq!(plan_placement(40, 8), Placement::Request(layout(40, 8)));
}

#[test]
fn settle_turns_null_into_escalation() {
    assert_eq!(settle(layout(8, 4), 0), Err(layout(8, 4)));
    assert_eq!(settle(layout(8, 4), 64), Ok(64));
}

#[test]
fn release_layout_skips_zero_size() {
    assert_eq!(release_layout(0, 32), None);
    assert_eq!(release_layout(5, 1), Some(layout(5, 1)));
}

#[test]
fn global_realloc_failure_keeps_block() {
    let mut g = Global::new(BoundedHeap::new(64));
    let l = layout(16, 8);
    let p = g.allocate(l).unwrap();
    assert_eq!(g.realloc(p, l, 4096), Err(AllocErr));
    assert_eq!(g.heap().read(p, 0), 0);
    g.dealloc(p, l);
}

#[test]
fn each_raw_function_calls_the_allocator_once() {
    let mut h = BoundedHeap::new(4096);
    let l = layout(16, 8);
    let p = allocate(&mut h, l);
    assert_eq!(h.calls(), 1);
    let z = alloc_zeroed(&mut h, l);
    assert_eq!(h.calls(), 2);
    let q = realloc(&mut h, p, l, 24);
    assert_eq!(h.calls(), 3);
    dealloc(&mut h, q, layout(24, 8));
    dealloc(&mut h, z, l);
    assert_eq!(h.calls(), 5);
}

#[test]
fn live_blocks_do_not_overlap() {
    let mut h = BoundedHeap::new(4096);
    let a = allocate(&mut h, layout(10, 1));
    let b = allocate(&mut h, layout(7, 4));
    let c = realloc(&mut h, a, layout(10, 1), 20);
    assert!(a + 10 <= b);
    assert!(b + 7 <= c);
    h.write(b, 6, 9);
    h.write(c, 0, 5);
    assert_eq!(h.read(b, 6), 9);
    assert_eq!(h.read(c, 0), 5);
}
