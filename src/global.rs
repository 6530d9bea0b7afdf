use vstd::prelude::*;

use crate::heap::{added, owns, resized, sized, ticked, zeros, GlobalAlloc};
use crate::layout::{valid_layout, Layout};
use crate::raw;

verus! {

/// An allocation could not be satisfied. It carries nothing more.
#[derive(Clone, Copy, Debug, PartialEq, Eq, Structural)]
pub struct AllocErr;

/// The fallible allocator capability: the raw operations, with failure
/// reported as `Err(AllocErr)` rather than a null address.
pub trait Alloc {
    /// Each live block's address, mapped to its layout and contents.
    spec fn blocks(&self) -> Map<usize, (Layout, Seq<u8>)>;

    /// The allocator's own well-formedness, kept by every operation.
    spec fn wf(&self) -> bool;

    /// Allocates a block of `layout`, with unspecified contents.
    fn allocate(&mut self, layout: Layout) -> (r: Result<usize, AllocErr>)
        requires
            old(self).wf(),
            layout.size_spec() > 0,
        ensures
            final(self).wf(),
            sized(final(self).blocks()),
            r is Err ==> final(self).blocks() == old(self).blocks(),
            r matches Ok(p) ==> added(old(self).blocks(), final(self).blocks(), p, layout, final(self).blocks()[p].1),
    ;

    /// Releases the block at `p`, which was allocated with `layout`.
    fn dealloc(&mut self, p: usize, layout: Layout)
        requires
            old(self).wf(),
            owns(old(self).blocks(), p, layout),
        ensures
            final(self).wf(),
            sized(final(self).blocks()),
            final(self).blocks() == old(self).blocks().remove(p),
    ;

    /// Resizes the block at `p` to `new_size` bytes, keeping its contents up
    /// to the shorter length; on failure the old block stays.
    fn realloc(&mut self, p: usize, layout: Layout, new_size: usize) -> (r: Result<usize, AllocErr>)
        requires
            old(self).wf(),
            owns(old(self).blocks(), p, layout),
            new_size > 0,
            valid_layout(new_size as nat, layout.align_spec()),
        ensures
            final(self).wf(),
            sized(final(self).blocks()),
            r is Err ==> final(self).blocks() == old(self).blocks(),
            r matches Ok(q) ==> resized(old(self).blocks(), final(self).blocks(), p, layout, new_size as nat, q),
    ;

    /// Allocates a block of `layout` whose every byte is zero.
    fn alloc_zeroed(&mut self, layout: Layout) -> (r: Result<usize, AllocErr>)
        requires
            old(self).wf(),
            layout.size_spec() > 0,
        ensures
            final(self).wf(),
            sized(final(self).blocks()),
            r is Err ==> final(self).blocks() == old(self).blocks(),
            r matches Ok(p) ==> added(old(self).blocks(), final(self).blocks(), p, layout, zeros(layout.size_spec())),
    ;
}

/// The default allocator: it keeps no state of its own and forwards every
/// operation to the raw allocator it was configured with.
pub struct Global<H> {
    heap: H,
}

impl<H: GlobalAlloc> Global<H> {
    /// The raw allocator behind this one.
    pub closed spec fn heap_spec(&self) -> H {
        self.heap
    }

    /// A `Global` that forwards to `heap`.
    pub fn new(heap: H) -> (g: Global<H>)
        ensures
            g.heap_spec() == heap,
    {
        Global { heap }
    }

    /// The raw allocator behind this one.
    pub fn heap(&self) -> (h: &H)
        ensures
            *h == self.heap_spec(),
    {
        &self.heap
    }

    /// Gives back the raw allocator.
    pub fn into_heap(self) -> (h: H)
        ensures
            h == self.heap_spec(),
    {
        self.heap
    }
}

/// Turns a raw address into the capability's result: null is a failure.
fn non_null(p: usize) -> (r: Result<usize, AllocErr>)
    ensures
        p == 0 ==> r is Err,
        p != 0 ==> r == Ok::<usize, AllocErr>(p),
{
    if p == 0 {
        Err(AllocErr)
    } else {
        Ok(p)
    }
}

impl<H: GlobalAlloc> Alloc for Global<H> {
    open spec fn blocks(&self) -> Map<usize, (Layout, Seq<u8>)> {
        self.heap_spec().blocks()
    }

    open spec fn wf(&self) -> bool {
        self.heap_spec().wf()
    }

    fn allocate(&mut self, layout: Layout) -> (r: Result<usize, AllocErr>)
        ensures
            ticked(old(self).heap_spec().call_count(), final(self).heap_spec().call_count()),
    {
        non_null(raw::allocate(&mut self.heap, layout))
    }

    fn dealloc(&mut self, p: usize, layout: Layout)
        ensures
            ticked(old(self).heap_spec().call_count(), final(self).heap_spec().call_count()),
    {
        raw::dealloc(&mut self.heap, p, layout)
    }

    fn realloc(&mut self, p: usize, layout: Layout, new_size: usize) -> (r: Result<usize, AllocErr>)
        ensures
            ticked(old(self).heap_spec().call_count(), final(self).heap_spec().call_count()),
    {
        non_null(raw::realloc(&mut self.heap, p, layout, new_size))
    }

    fn alloc_zeroed(&mut self, layout: Layout) -> (r: Result<usize, AllocErr>)
        ensures
            ticked(old(self).heap_spec().call_count(), final(self).heap_spec().call_count()),
    {
        non_null(raw::alloc_zeroed(&mut self.heap, layout))
    }
}

} // verus!
