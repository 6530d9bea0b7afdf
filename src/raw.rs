use vstd::prelude::*;

use crate::heap::{added, owns, resized, sized, ticked, zeros, GlobalAlloc};
use crate::layout::{valid_layout, Layout};

verus! {

/// Allocates a block of `layout` from the raw allocator; 0 (null) where it
/// cannot be satisfied.
pub fn allocate<H: GlobalAlloc>(heap: &mut H, layout: Layout) -> (p: usize)
    requires
        old(heap).wf(),
        layout.size_spec() > 0,
    ensures
        final(heap).wf(),
        sized(final(heap).blocks()),
        ticked(old(heap).call_count(), final(heap).call_count()),
        p == 0 ==> final(heap).blocks() == old(heap).blocks(),
        p != 0 ==> added(old(heap).blocks(), final(heap).blocks(), p, layout, final(heap).blocks()[p].1),
{
    heap.raw_alloc(layout)
}

/// Releases the block at `p`, which was allocated with a layout equal to
/// `layout`.
pub fn dealloc<H: GlobalAlloc>(heap: &mut H, p: usize, layout: Layout)
    requires
        old(heap).wf(),
        owns(old(heap).blocks(), p, layout),
    ensures
        final(heap).wf(),
        sized(final(heap).blocks()),
        ticked(old(heap).call_count(), final(heap).call_count()),
        final(heap).blocks() == old(heap).blocks().remove(p),
{
    heap.raw_dealloc(p, layout)
}

/// Resizes the block at `p` (allocated with `layout`) to `new_size` bytes,
/// keeping its contents up to the shorter length; 0 (null) on failure, with
/// the old block left in place.
pub fn realloc<H: GlobalAlloc>(heap: &mut H, p: usize, layout: Layout, new_size: usize) -> (q: usize)
    requires
        old(heap).wf(),
        owns(old(heap).blocks(), p, layout),
        new_size > 0,
        valid_layout(new_size as nat, layout.align_spec()),
    ensures
        final(heap).wf(),
        sized(final(heap).blocks()),
        ticked(old(heap).call_count(), final(heap).call_count()),
        q == 0 ==> final(heap).blocks() == old(heap).blocks(),
        q != 0 ==> resized(old(heap).blocks(), final(heap).blocks(), p, layout, new_size as nat, q),
{
    heap.raw_realloc(p, layout, new_size)
}

/// As `allocate`, with every byte of the block zero.
pub fn alloc_zeroed<H: GlobalAlloc>(heap: &mut H, layout: Layout) -> (p: usize)
    requires
        old(heap).wf(),
        layout.size_spec() > 0,
    ensures
        final(heap).wf(),
        sized(final(heap).blocks()),
        ticked(old(heap).call_count(), final(heap).call_count()),
        p == 0 ==> final(heap).blocks() == old(heap).blocks(),
        p != 0 ==> added(old(heap).blocks(), final(heap).blocks(), p, layout, zeros(layout.size_spec())),
{
    heap.raw_alloc_zeroed(layout)
}

/// Allocating a block and then releasing it with the same layout is
/// permitted, and leaves the live blocks as they were before.
pub proof fn lemma_alloc_then_dealloc(
    before: Map<usize, (Layout, Seq<u8>)>,
    after: Map<usize, (Layout, Seq<u8>)>,
    p: usize,
    layout: Layout,
    bytes: Seq<u8>,
)
    requires
        added(before, after, p, layout, bytes),
    ensures
        owns(after, p, layout),
        after.remove(p) == before,
{
    assert(after.remove(p) =~= before);
}

} // verus!
