use vstd::prelude::*;

use crate::heap::{added, sized, ticked, GlobalAlloc};
use crate::layout::{valid_layout, Layout};
use crate::raw;

verus! {

/// What placing a single-owner value takes: a sentinel address with no
/// allocation, or a request to the raw allocator.
#[derive(Clone, Copy, Debug, PartialEq, Eq, Structural)]
pub enum Placement {
    /// A zero-size value: the address is the alignment, never dereferenced.
    Sentinel(usize),
    /// A block of this layout must be allocated.
    Request(Layout),
}

/// Decides how to place a value of `size` bytes and alignment `align`.
pub fn plan_placement(size: usize, align: usize) -> (r: Placement)
    requires
        valid_layout(size as nat, align as nat),
    ensures
        size == 0 ==> r == Placement::Sentinel(align),
        size > 0 ==> (r matches Placement::Request(l) && l.size_spec() == size && l.align_spec()
            == align),
{
    if size == 0 {
        Placement::Sentinel(align)
    } else {
        Placement::Request(Layout::from_size_align_unchecked(size, align))
    }
}

/// Turns the raw allocator's answer `p` to a request for `layout` into the
/// placed address, or into the layout to escalate with where `p` is null.
pub fn settle(layout: Layout, p: usize) -> (r: Result<usize, Layout>)
    ensures
        p != 0 ==> r == Ok::<usize, Layout>(p),
        p == 0 ==> r == Err::<usize, Layout>(layout),
{
    if p != 0 {
        Ok(p)
    } else {
        Err(layout)
    }
}

/// The layout to release for a value of `size` bytes and alignment `align`:
/// none for a zero-size value, which owns no storage.
pub fn release_layout(size: usize, align: usize) -> (r: Option<Layout>)
    requires
        valid_layout(size as nat, align as nat),
    ensures
        size == 0 ==> r is None,
        size > 0 ==> (r matches Some(l) && l.size_spec() == size && l.align_spec() == align),
{
    if size == 0 {
        None
    } else {
        Some(Layout::from_size_align_unchecked(size, align))
    }
}

/// Places a single-owner value of `size` bytes and alignment `align`.
///
/// A zero-size value gets the sentinel address `align`, which is never
/// dereferenced, and the raw allocator is not touched. Otherwise the block
/// comes from the raw allocator; where it fails, the layout that was asked
/// for comes back as `Err`, for the caller to hand to the out-of-memory
/// escalation, which does not return.
pub fn exchange_malloc<H: GlobalAlloc>(heap: &mut H, size: usize, align: usize) -> (r: Result<usize, Layout>)
    requires
        old(heap).wf(),
        valid_layout(size as nat, align as nat),
    ensures
        final(heap).wf(),
        size == 0 ==> r == Ok::<usize, Layout>(align) && *final(heap) == *old(heap),
        size > 0 ==> sized(final(heap).blocks()),
        size > 0 ==> ticked(old(heap).call_count(), final(heap).call_count()),
        size > 0 && r is Err ==> final(heap).blocks() == old(heap).blocks(),
        size > 0 ==> match r {
            Ok(p) => final(heap).blocks().contains_key(p)
                && final(heap).blocks()[p].0.size_spec() == size
                && final(heap).blocks()[p].0.align_spec() == align
                && added(old(heap).blocks(), final(heap).blocks(), p, final(heap).blocks()[p].0, final(heap).blocks()[p].1),
            Err(l) => l.size_spec() == size && l.align_spec() == align,
        },
{
    match plan_placement(size, align) {
        Placement::Sentinel(s) => Ok(s),
        Placement::Request(layout) => {
            let p = raw::allocate(heap, layout);
            settle(layout, p)
        },
    }
}

/// Releases the storage of a single-owner value of `size` bytes and alignment
/// `align` placed at `p`. A zero-size value owns no storage: nothing is
/// released and the raw allocator is not touched.
pub fn box_free<H: GlobalAlloc>(heap: &mut H, p: usize, size: usize, align: usize)
    requires
        old(heap).wf(),
        valid_layout(size as nat, align as nat),
        size > 0 ==> old(heap).blocks().contains_key(p)
            && old(heap).blocks()[p].0.size_spec() == size
            && old(heap).blocks()[p].0.align_spec() == align,
    ensures
        final(heap).wf(),
        size == 0 ==> *final(heap) == *old(heap),
        size > 0 ==> sized(final(heap).blocks()),
        size > 0 ==> ticked(old(heap).call_count(), final(heap).call_count()),
        size > 0 ==> final(heap).blocks() == old(heap).blocks().remove(p),
{
    if let Some(layout) = release_layout(size, align) {
        proof {
            layout.lemma_eq(&heap.blocks()[p].0);
        }
        raw::dealloc(heap, p, layout);
    }
}

} // verus!
