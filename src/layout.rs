use vstd::prelude::*;

verus! {

/// `n` is a power of two (1, 2, 4, ...).
pub open spec fn is_pow2(n: nat) -> bool
    decreases n,
{
    if n == 0 {
        false
    } else if n == 1 {
        true
    } else {
        n % 2 == 0 && is_pow2(n / 2)
    }
}

/// `size` rounded up to the next multiple of `align`.
pub open spec fn round_up(size: nat, align: nat) -> nat
    recommends
        align > 0,
{
    if size % align == 0 {
        size
    } else {
        (size - size % align + align) as nat
    }
}

/// The pair is a valid layout: the alignment is a nonzero power of two and
/// the size leaves room below `usize::MAX` for rounding it up to the
/// alignment.
pub open spec fn valid_layout(size: nat, align: nat) -> bool {
    is_pow2(align) && size <= usize::MAX - (align - 1)
}

/// For a valid layout, the size rounded up to the alignment is still a
/// `usize`.
pub proof fn lemma_valid_layout_rounds(size: nat, align: nat)
    requires
        valid_layout(size, align),
    ensures
        round_up(size, align) <= usize::MAX,
{
    assert(align > 0);
}

/// The size and alignment of a memory request.
#[derive(Clone, Copy, Debug, PartialEq, Eq, Structural)]
pub struct Layout {
    size: usize,
    align: usize,
}

/// The size and alignment given to `Layout::from_size_align` do not form a
/// valid layout.
#[derive(Clone, Copy, Debug, PartialEq, Eq, Structural)]
pub struct LayoutErr;

impl Layout {
    /// The number of bytes requested, as a mathematical integer.
    pub closed spec fn size_spec(&self) -> nat {
        self.size as nat
    }

    /// The required alignment, as a mathematical integer.
    pub closed spec fn align_spec(&self) -> nat {
        self.align as nat
    }

    /// Every `Layout` value is valid: no public path builds another.
    #[verifier::type_invariant]
    spec fn inv(&self) -> bool {
        valid_layout(self.size as nat, self.align as nat)
    }

    /// The layout is valid.
    pub open spec fn wf(&self) -> bool {
        valid_layout(self.size_spec(), self.align_spec())
    }

    /// Two layouts are equal exactly when their sizes and alignments are.
    pub proof fn lemma_eq(&self, other: &Layout)
        ensures
            (*self == *other) <==> (self.size_spec() == other.size_spec()
                && self.align_spec() == other.align_spec()),
    {
    }

    /// Builds a layout from its two parts, or fails where they are invalid.
    pub fn from_size_align(size: usize, align: usize) -> (r: Result<Layout, LayoutErr>)
        ensures
            r is Ok <==> valid_layout(size as nat, align as nat),
            r matches Ok(l) ==> l.size_spec() == size && l.align_spec() == align && l.wf(),
    {
        if !check_pow2(align) {
            return Err(LayoutErr);
        }
        if size > usize::MAX - (align - 1) {
            return Err(LayoutErr);
        }
        Ok(Layout { size, align })
    }

    /// Builds a layout from two parts already known to be valid.
    pub fn from_size_align_unchecked(size: usize, align: usize) -> (r: Layout)
        requires
            valid_layout(size as nat, align as nat),
        ensures
            r.size_spec() == size,
            r.align_spec() == align,
            r.wf(),
    {
        Layout { size, align }
    }

    /// The number of bytes requested.
    pub fn size(&self) -> (r: usize)
        ensures
            r == self.size_spec(),
            self.wf(),
    {
        proof {
            use_type_invariant(self);
        }
        self.size
    }

    /// The required alignment in bytes.
    pub fn align(&self) -> (r: usize)
        ensures
            r == self.align_spec(),
            self.wf(),
    {
        proof {
            use_type_invariant(self);
        }
        self.align
    }
}

/// Decides whether `n` is a power of two by halving it.
fn check_pow2(n: usize) -> (r: bool)
    ensures
        r == is_pow2(n as nat),
{
    if n == 0 {
        return false;
    }
    let mut m: usize = n;
    while m > 1
        invariant
            m > 0,
            is_pow2(n as nat) == is_pow2(m as nat),
        decreases m,
    {
        if m % 2 != 0 {
            return false;
        }
        m = m / 2;
    }
    true
}

} // verus!
