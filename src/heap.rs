use vstd::prelude::*;

use crate::layout::{valid_layout, Layout};

verus! {

/// `n` zero bytes.
pub open spec fn zeros(n: nat) -> Seq<u8> {
    Seq::new(n, |i: int| 0u8)
}

/// `after` is `before` with one new block of `layout` holding `bytes` at the
/// nonzero address `p`, aligned to the layout and free in `before`.
pub open spec fn added(
    before: Map<usize, (Layout, Seq<u8>)>,
    after: Map<usize, (Layout, Seq<u8>)>,
    p: usize,
    layout: Layout,
    bytes: Seq<u8>,
) -> bool {
    &&& p != 0
    &&& p as nat % layout.align_spec() == 0
    &&& !before.contains_key(p)
    &&& forall|a: usize| #[trigger]
        before.contains_key(a) ==> a + before[a].0.size_spec() <= p || p + layout.size_spec() <= a
    &&& bytes.len() == layout.size_spec()
    &&& after == before.insert(p, (layout, bytes))
}

/// Every live block's contents are as long as its layout's size.
pub open spec fn sized(blocks: Map<usize, (Layout, Seq<u8>)>) -> bool {
    forall|a: usize| #[trigger]
        blocks.contains_key(a) ==> blocks[a].1.len() == blocks[a].0.size_spec()
}

/// A call counter after exactly one more entry-point call, stopping at
/// `usize::MAX`.
pub open spec fn ticked(before: nat, after: nat) -> bool {
    after == if before < usize::MAX {
        before + 1
    } else {
        before
    }
}

/// `blocks` holds a live block at `p` allocated with `layout`.
pub open spec fn owns(blocks: Map<usize, (Layout, Seq<u8>)>, p: usize, layout: Layout) -> bool {
    blocks.contains_key(p) && blocks[p].0 == layout
}

/// The raw allocator behind this layer: four entry points that hand out and
/// take back blocks. An address of 0 is the null pointer, meaning failure.
///
/// `blocks` maps each live block's address to the layout it was allocated
/// with and its current contents; `call_count` counts the calls made to the
/// entry points.
pub trait GlobalAlloc {
    spec fn blocks(&self) -> Map<usize, (Layout, Seq<u8>)>;

    spec fn call_count(&self) -> nat;

    /// The allocator's own well-formedness, kept by every entry point.
    spec fn wf(&self) -> bool;

    /// Allocates a block of `layout`, with unspecified contents.
    fn raw_alloc(&mut self, layout: Layout) -> (p: usize)
        requires
            old(self).wf(),
            layout.size_spec() > 0,
        ensures
            final(self).wf(),
            sized(final(self).blocks()),
            ticked(old(self).call_count(), final(self).call_count()),
            p == 0 ==> final(self).blocks() == old(self).blocks(),
            p != 0 ==> added(old(self).blocks(), final(self).blocks(), p, layout, final(self).blocks()[p].1),
    ;

    /// Releases the block at `p`, which was allocated with `layout`.
    fn raw_dealloc(&mut self, p: usize, layout: Layout)
        requires
            old(self).wf(),
            owns(old(self).blocks(), p, layout),
        ensures
            final(self).wf(),
            sized(final(self).blocks()),
            ticked(old(self).call_count(), final(self).call_count()),
            final(self).blocks() == old(self).blocks().remove(p),
    ;

    /// Moves the block at `p`, allocated with `layout`, to a block of
    /// `new_size` bytes and the same alignment, keeping the shorter of the two
    /// lengths of its contents. On failure the old block stays.
    fn raw_realloc(&mut self, p: usize, layout: Layout, new_size: usize) -> (q: usize)
        requires
            old(self).wf(),
            owns(old(self).blocks(), p, layout),
            new_size > 0,
            valid_layout(new_size as nat, layout.align_spec()),
        ensures
            final(self).wf(),
            sized(final(self).blocks()),
            ticked(old(self).call_count(), final(self).call_count()),
            q == 0 ==> final(self).blocks() == old(self).blocks(),
            q != 0 ==> resized(old(self).blocks(), final(self).blocks(), p, layout, new_size as nat, q),
    ;

    /// Allocates a block of `layout` whose every byte is zero.
    fn raw_alloc_zeroed(&mut self, layout: Layout) -> (p: usize)
        requires
            old(self).wf(),
            layout.size_spec() > 0,
        ensures
            final(self).wf(),
            sized(final(self).blocks()),
            ticked(old(self).call_count(), final(self).call_count()),
            p == 0 ==> final(self).blocks() == old(self).blocks(),
            p != 0 ==> added(old(self).blocks(), final(self).blocks(), p, layout, zeros(layout.size_spec())),
    ;
}

/// `after` is `before` with the block at `p` (of `layout`) moved to `q`, now
/// `new_size` bytes long with the same alignment, its contents kept up to the
/// shorter length.
pub open spec fn resized(
    before: Map<usize, (Layout, Seq<u8>)>,
    after: Map<usize, (Layout, Seq<u8>)>,
    p: usize,
    layout: Layout,
    new_size: nat,
    q: usize,
) -> bool {
    let keep = if new_size < layout.size_spec() { new_size } else { layout.size_spec() };
    &&& after.contains_key(q)
    &&& after[q].0.size_spec() == new_size
    &&& after[q].0.align_spec() == layout.align_spec()
    &&& added(before.remove(p), after, q, after[q].0, after[q].1)
    &&& after[q].1.subrange(0, keep as int) == before[p].1.subrange(0, keep as int)
}

} // verus!
