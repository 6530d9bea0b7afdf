use alloc_core::layout::{Layout, LayoutErr};

#[test]
fn layout_keeps_size_and_align() {
    let l = Layout::from_size_align(16, 8).unwrap();
    assert_eq!(l.size(), 16);
    assert_eq!(l.align(), 8);
}

#[test]
fn layout_rejects_align_three() {
    assert_eq!(Layout::from_size_align(8, 3), Err(LayoutErr));
}

#[test]
fn layout_rejects_align_zero() {
    assert_eq!(Layout::from_size_align(8, 0), Err(LayoutErr));
}

#[test]
fn layout_rejects_overflowing_rounded_size() {
    assert_eq!(Layout::from_size_align(usize::MAX, 2), Err(LayoutErr));
}

#[test]
fn layout_accepts_largest_sizes_that_fit() {
    assert!(Layout::from_size_align(usize::MAX, 1).is_ok());
    assert!(Layout::from_size_align(usize::MAX - 1, 2).is_ok());
    assert_eq!(Layout::from_size_align(usize::MAX - 6, 8), Err(LayoutErr));
    assert!(Layout::from_size_align(usize::MAX - 7, 8).is_ok());
}

#[test]
fn layout_accepts_zero_size_and_large_powers() {
    let l = Layout::from_size_align(0, 1 << 20).unwrap();
    assert_eq!(l.size(), 0);
    assert_eq!(l.align(), 1 << 20);
    assert_eq!(Layout::from_size_align(4, 6), Err(LayoutErr));
    assert_eq!(Layout::from_size_align(4, 12), Err(LayoutErr));
}

#[test]
fn layouts_equal_iff_fields_equal() {
    let a = Layout::from_size_align(32, 4).unwrap();
    let b = Layout::from_size_align(32, 4).unwrap();
    let c = Layout::from_size_align(32, 8).unwrap();
    let d = Layout::from_size_align(16, 4).unwrap();
    assert_eq!(a, b);
    assert_ne!(a, c);
    assert_ne!(a, d);
}

#[test]
fn unchecked_layout_matches_checked() {
    let a = Layout::from_size_align_unchecked(24, 8);
    assert_eq!(Layout::from_size_align(24, 8), Ok(a));
}
