use vstd::prelude::*;

use crate::heap::{sized, ticked, zeros, GlobalAlloc};
use crate::layout::{round_up, Layout};

verus! {

/// A raw allocator that serves blocks from a simulated address range
/// `[1, limit)`, never reuses an address, and counts the calls made to its
/// entry points. With a limit of 0 every request fails.
pub struct BoundedHeap {
    addrs: Vec<usize>,
    layouts: Vec<Layout>,
    live: Vec<bool>,
    contents: Vec<Vec<u8>>,
    next: usize,
    limit: usize,
    calls: usize,
    model: Ghost<Map<usize, (Layout, Seq<u8>)>>,
}

impl BoundedHeap {
    /// The lowest address not yet handed out.
    pub closed spec fn frontier(&self) -> nat {
        self.next as nat
    }

    /// A block of `size` bytes aligned to `align` still fits below the limit:
    /// it would start at the frontier rounded up to the alignment.
    pub open spec fn fits(&self, size: nat, align: nat) -> bool {
        round_up(self.frontier(), align) + size <= self.limit_spec()
    }

    /// The end of the address range.
    pub closed spec fn limit_spec(&self) -> nat {
        self.limit as nat
    }

    spec fn inv(&self) -> bool {
        let n = self.addrs.len();
        &&& self.layouts.len() == n
        &&& self.live.len() == n
        &&& self.contents.len() == n
        &&& self.next >= 1
        &&& forall|i: int| 0 <= i < n ==> 1 <= #[trigger] self.addrs[i] < self.next
        &&& forall|i: int|
            0 <= i < n && #[trigger] self.live[i] ==> self.addrs[i] + self.layouts[i].size_spec()
                <= self.next
        &&& forall|i: int, j: int| 0 <= i < j < n ==> self.addrs[i] < self.addrs[j]
        &&& forall|i: int|
            0 <= i < n && #[trigger] self.live[i] ==> self.model@.contains_key(self.addrs[i])
                && self.model@[self.addrs[i]] == (self.layouts[i], self.contents[i]@)
                && self.contents[i]@.len() == self.layouts[i].size_spec()
        &&& forall|a: usize| #[trigger]
            self.model@.contains_key(a) ==> exists|i: int|
                0 <= i < n && self.live[i] && #[trigger] self.addrs[i] == a
    }

    proof fn lemma_sized(&self)
        requires
            self.inv(),
        ensures
            sized(self.model@),
    {
        assert forall|a: usize| #[trigger] self.model@.contains_key(a) implies self.model@[a].1.len()
            == self.model@[a].0.size_spec() by {
            let k = choose|k: int| 0 <= k < self.addrs.len() && self.live[k] && self.addrs[k] == a;
        }
    }

    /// An empty heap whose blocks must end at or below `limit`.
    pub fn new(limit: usize) -> (h: BoundedHeap)
        ensures
            h.wf(),
            h.blocks() == Map::<usize, (Layout, Seq<u8>)>::empty(),
            h.call_count() == 0,
            h.limit_spec() == limit,
            h.frontier() == 1,
    {
        BoundedHeap {
            addrs: Vec::new(),
            layouts: Vec::new(),
            live: Vec::new(),
            contents: Vec::new(),
            next: 1,
            limit,
            calls: 0,
            model: Ghost(Map::empty()),
        }
    }

    /// The number of entry-point calls made so far.
    pub fn calls(&self) -> (r: usize)
        ensures
            r == self.call_count(),
    {
        self.calls
    }

    fn tick(&mut self)
        requires
            old(self).inv(),
        ensures
            final(self).inv(),
            final(self).model == old(self).model,
            final(self).limit == old(self).limit,
            final(self).next == old(self).next,
            final(self).call_count() == if old(self).calls < usize::MAX {
                old(self).call_count() + 1
            } else {
                old(self).call_count()
            },
    {
        if self.calls < usize::MAX {
            self.calls = self.calls + 1;
        }
    }

    /// The index of the live slot at address `p`.
    fn find(&self, p: usize) -> (i: usize)
        requires
            self.inv(),
            self.model@.contains_key(p),
        ensures
            i < self.addrs.len(),
            self.live[i as int],
            self.addrs[i as int] == p,
    {
        let mut i: usize = 0;
        while i < self.addrs.len()
            invariant
                self.inv(),
                self.model@.contains_key(p),
                i <= self.addrs.len(),
                forall|j: int| 0 <= j < i ==> !(self.live[j] && self.addrs[j] == p),
            decreases self.addrs.len() - i,
        {
            if self.live[i] && self.addrs[i] == p {
                return i;
            }
            i = i + 1;
        }
        proof {
            let k = choose|k: int| 0 <= k < self.addrs.len() && self.live[k] && self.addrs[k] == p;
            assert(!(self.live[k] && self.addrs[k] == p));
        }
        0
    }

    /// A free, aligned address for `layout` inside the range, or 0.
    fn fit(&self, layout: Layout) -> (p: usize)
        requires
            self.inv(),
        ensures
            (p != 0) == self.fits(layout.size_spec(), layout.align_spec()),
            p != 0 ==> p == round_up(self.next as nat, layout.align_spec()),
            p != 0 ==> p >= self.next && p as nat % layout.align_spec() == 0 && p as nat
                + layout.size_spec() <= self.limit,
    {
        let align = layout.align();
        let size = layout.size();
        let rem = self.next % align;
        let pad = if rem == 0 {
            0
        } else {
            align - rem
        };
        if pad > usize::MAX - self.next {
            return 0;
        }
        let p = self.next + pad;
        if p > self.limit || size > self.limit - p {
            return 0;
        }
        proof {
            let n = self.next as int;
            let a = align as int;
            vstd::arithmetic::div_mod::lemma_fundamental_div_mod(n, a);
            if rem == 0 {
                assert(p as int == a * (n / a));
                vstd::arithmetic::div_mod::lemma_mod_multiples_basic(n / a, a);
            } else {
                assert(p as int == a * (n / a + 1)) by (nonlinear_arith)
                    requires
                        p as int == n + (a - n % a),
                        n == a * (n / a) + n % a,
                ;
                vstd::arithmetic::div_mod::lemma_mod_multiples_basic(n / a + 1, a);
            }
        }
        p
    }

    /// Records a new live block at `p`.
    fn push_block(&mut self, p: usize, layout: Layout, bytes: Vec<u8>)
        requires
            old(self).inv(),
            p >= old(self).next,
            p as nat + layout.size_spec() <= old(self).limit,
            layout.size_spec() > 0,
            bytes@.len() == layout.size_spec(),
        ensures
            final(self).inv(),
            !old(self).model@.contains_key(p),
            forall|a: usize| #[trigger]
                old(self).model@.contains_key(a) ==> a + old(self).model@[a].0.size_spec() <= p,
            final(self).model@ == old(self).model@.insert(p, (layout, bytes@)),
            final(self).next == p + layout.size_spec(),
            final(self).limit == old(self).limit,
            final(self).calls == old(self).calls,
    {
        let ghost old_h = *self;
        let ghost bv = bytes@;
        proof {
            assert forall|a: usize| #[trigger] old_h.model@.contains_key(a) implies a
                + old_h.model@[a].0.size_spec() <= p by {
                let k = choose|k: int|
                    0 <= k < old_h.addrs.len() && old_h.live[k] && old_h.addrs[k] == a;
            }
            if old_h.model@.contains_key(p) {
                let k = choose|k: int|
                    0 <= k < old_h.addrs.len() && old_h.live[k] && old_h.addrs[k] == p;
                assert(old_h.addrs[k] < old_h.next);
            }
        }
        let size = layout.size();
        self.addrs.push(p);
        self.layouts.push(layout);
        self.live.push(true);
        self.contents.push(bytes);
        self.next = p + size;
        self.model = Ghost(old_h.model@.insert(p, (layout, bv)));
        proof {
            let n = old_h.addrs.len() as int;
            assert forall|i: int| 0 <= i < n + 1 && #[trigger] self.live[i] implies
                self.model@.contains_key(self.addrs[i]) && self.model@[self.addrs[i]] == (
                self.layouts[i],
                self.contents[i]@,
            ) by {
                if i < n {
                    assert(old_h.live[i]);
                    assert(old_h.addrs[i] < p);
                }
            }
            assert forall|a: usize| #[trigger] self.model@.contains_key(a) implies exists|i: int|
                0 <= i < n + 1 && self.live[i] && #[trigger] self.addrs[i] == a by {
                if a == p {
                    assert(self.addrs[n] == a);
                } else {
                    assert(old_h.model@.contains_key(a));
                    let k = choose|k: int|
                        0 <= k < old_h.addrs.len() && old_h.live[k] && old_h.addrs[k] == a;
                    assert(self.addrs[k] == a);
                }
            }
        }
    }

    /// Marks the live slot `i` as released.
    fn retire(&mut self, i: usize)
        requires
            old(self).inv(),
            i < old(self).addrs.len(),
            old(self).live[i as int],
        ensures
            final(self).inv(),
            final(self).model@ == old(self).model@.remove(old(self).addrs[i as int]),
            final(self).next == old(self).next,
            final(self).limit == old(self).limit,
            final(self).calls == old(self).calls,
    {
        let ghost old_h = *self;
        let ghost p = self.addrs[i as int];
        self.live.set(i, false);
        self.contents.set(i, Vec::new());
        self.model = Ghost(old_h.model@.remove(p));
        proof {
            let n = old_h.addrs.len() as int;
            assert forall|j: int| 0 <= j < n && #[trigger] self.live[j] implies
                self.model@.contains_key(self.addrs[j]) && self.model@[self.addrs[j]] == (
                self.layouts[j],
                self.contents[j]@,
            ) by {
                assert(old_h.live[j]);
                assert(j != i);
                assert(self.addrs[j] != p);
            }
            assert forall|a: usize| #[trigger] self.model@.contains_key(a) implies exists|j: int|
                0 <= j < n && self.live[j] && #[trigger] self.addrs[j] == a by {
                assert(old_h.model@.contains_key(a));
                let k = choose|k: int|
                    0 <= k < old_h.addrs.len() && old_h.live[k] && old_h.addrs[k] == a;
                assert(k != i);
                assert(self.addrs[k] == a);
            }
        }
    }
}

/// `n` zero bytes, built one by one.
fn zero_bytes(n: usize) -> (v: Vec<u8>)
    ensures
        v@ == zeros(n as nat),
{
    let mut v: Vec<u8> = Vec::new();
    let mut k: usize = 0;
    while k < n
        invariant
            k <= n,
            v@ == zeros(k as nat),
        decreases n - k,
    {
        v.push(0u8);
        k = k + 1;
        assert(v@ =~= zeros(k as nat));
    }
    v
}

impl BoundedHeap {
    /// The byte at `off` in the live block at `p`.
    pub fn read(&self, p: usize, off: usize) -> (r: u8)
        requires
            self.wf(),
            self.blocks().contains_key(p),
            off < self.blocks()[p].1.len(),
        ensures
            r == self.blocks()[p].1[off as int],
    {
        let i = self.find(p);
        self.contents[i][off]
    }

    /// Stores `b` at `off` in the live block at `p`.
    pub fn write(&mut self, p: usize, off: usize, b: u8)
        requires
            old(self).wf(),
            old(self).blocks().contains_key(p),
            off < old(self).blocks()[p].1.len(),
        ensures
            final(self).wf(),
            final(self).blocks() == old(self).blocks().insert(
                p,
                (old(self).blocks()[p].0, old(self).blocks()[p].1.update(off as int, b)),
            ),
            final(self).call_count() == old(self).call_count(),
            final(self).limit_spec() == old(self).limit_spec(),
            final(self).frontier() == old(self).frontier(),
    {
        let ghost old_h = *self;
        let i = self.find(p);
        self.contents.push(Vec::new());
        let mut v = self.contents.swap_remove(i);
        v.set(off, b);
        self.contents.set(i, v);
        self.model = Ghost(old_h.model@.insert(p, (old_h.model@[p].0, old_h.model@[p].1.update(off as int, b))));
        proof {
            assert(self.contents@ =~= old_h.contents@.update(i as int, v));
            let n = old_h.addrs.len() as int;
            assert forall|j: int| 0 <= j < n && #[trigger] self.live[j] implies
                self.model@.contains_key(self.addrs[j]) && self.model@[self.addrs[j]] == (
                self.layouts[j],
                self.contents[j]@,
            ) by {
                assert(old_h.live[j]);
                if j != i {
                    assert(self.addrs[j] != p);
                }
            }
            assert forall|a: usize| #[trigger] self.model@.contains_key(a) implies exists|j: int|
                0 <= j < n && self.live[j] && #[trigger] self.addrs[j] == a by {
                assert(old_h.model@.contains_key(a));
                let k = choose|k: int|
                    0 <= k < old_h.addrs.len() && old_h.live[k] && old_h.addrs[k] == a;
                assert(self.addrs[k] == a);
            }
        }
    }
}

impl GlobalAlloc for BoundedHeap {
    closed spec fn blocks(&self) -> Map<usize, (Layout, Seq<u8>)> {
        self.model@
    }

    closed spec fn call_count(&self) -> nat {
        self.calls as nat
    }

    closed spec fn wf(&self) -> bool {
        self.inv()
    }

    fn raw_alloc(&mut self, layout: Layout) -> (p: usize)
        ensures
            final(self).limit_spec() == old(self).limit_spec(),
            (p != 0) == old(self).fits(layout.size_spec(), layout.align_spec()),
            p != 0 ==> p == round_up(old(self).frontier(), layout.align_spec()),
            p != 0 ==> final(self).frontier() == p + layout.size_spec(),
            p == 0 ==> final(self).frontier() == old(self).frontier(),
    {
        self.tick();
        let p = self.fit(layout);
        if p == 0 {
            proof {
                self.lemma_sized();
            }
            return 0;
        }
        let bytes = zero_bytes(layout.size());
        self.push_block(p, layout, bytes);
        proof {
            self.lemma_sized();
        }
        p
    }

    fn raw_dealloc(&mut self, p: usize, layout: Layout)
        ensures
            final(self).limit_spec() == old(self).limit_spec(),
            final(self).frontier() == old(self).frontier(),
    {
        self.tick();
        let i = self.find(p);
        self.retire(i);
        proof {
            self.lemma_sized();
        }
    }

    fn raw_realloc(&mut self, p: usize, layout: Layout, new_size: usize) -> (q: usize)
        ensures
            final(self).limit_spec() == old(self).limit_spec(),
            (q != 0) == old(self).fits(new_size as nat, layout.align_spec()),
            q != 0 ==> q == round_up(old(self).frontier(), layout.align_spec()),
            q != 0 ==> final(self).frontier() == q + new_size as nat,
            q == 0 ==> final(self).frontier() == old(self).frontier(),
    {
        self.tick();
        let i = self.find(p);
        let new_layout = Layout::from_size_align_unchecked(new_size, layout.align());
        let q = self.fit(new_layout);
        if q == 0 {
            proof {
                self.lemma_sized();
            }
            return 0;
        }
        let old_len = layout.size();
        let ghost old_bytes = self.model@[p].1;
        assert(self.contents[i as int]@ == old_bytes);
        let mut bytes: Vec<u8> = Vec::new();
        let mut k: usize = 0;
        while k < new_size
            invariant
                self.inv(),
                i < self.addrs.len(),
                self.contents[i as int]@ == old_bytes,
                old_bytes.len() == old_len,
                k <= new_size,
                bytes@.len() == k,
                forall|j: int| 0 <= j < k && j < old_len ==> bytes@[j] == old_bytes[j],
            decreases new_size - k,
        {
            if k < old_len {
                bytes.push(self.contents[i][k]);
            } else {
                bytes.push(0u8);
            }
            k = k + 1;
        }
        let ghost new_bytes = bytes@;
        self.retire(i);
        self.push_block(q, new_layout, bytes);
        proof {
            self.lemma_sized();
            let keep = if (new_size as nat) < layout.size_spec() {
                new_size as nat
            } else {
                layout.size_spec()
            };
            assert(self.model@[q].1.subrange(0, keep as int) =~= old_bytes.subrange(0, keep as int));
        }
        q
    }

    fn raw_alloc_zeroed(&mut self, layout: Layout) -> (p: usize)
        ensures
            final(self).limit_spec() == old(self).limit_spec(),
            (p != 0) == old(self).fits(layout.size_spec(), layout.align_spec()),
            p != 0 ==> p == round_up(old(self).frontier(), layout.align_spec()),
            p != 0 ==> final(self).frontier() == p + layout.size_spec(),
            p == 0 ==> final(self).frontier() == old(self).frontier(),
    {
        self.tick();
        let p = self.fit(layout);
        if p == 0 {
            proof {
                self.lemma_sized();
            }
            return 0;
        }
        let bytes = zero_bytes(layout.size());
        self.push_block(p, layout, bytes);
        proof {
            self.lemma_sized();
        }
        p
    }
}

} // verus!
