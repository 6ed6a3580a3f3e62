//! The span of a table's allocation.
//!
//! A table of `n` buckets keeps `n` slots of `size` bytes each, padding up
//! to the alignment of the control bytes, `n` control bytes, and one more
//! group of control bytes.

use vstd::prelude::*;
use vstd::arithmetic::power2::is_pow2;
use vstd::arithmetic::div_mod::{
    lemma_fundamental_div_mod, lemma_mod_multiples_vanish, lemma_mod_pos_bound, lemma_mod_self_0,
};
use crate::Group;

verus! {

/// The least multiple of `align` that is not below `x`.
pub open spec fn round_up(x: nat, align: nat) -> nat
    recommends
        align > 0,
{
    if x % align == 0 {
        x
    } else {
        (x + align - x % align) as nat
    }
}

/// `round_up(x, align)` is a multiple of `align`, is not below `x`, and lies
/// less than `align` above it.
pub proof fn lemma_round_up_is_multiple(x: nat, align: nat)
    requires
        align > 0,
    ensures
        round_up(x, align) % align == 0,
        x <= round_up(x, align) < x + align,
{
    let a: int = align as int;
    let r: int = (x % align) as int;
    lemma_mod_pos_bound(x as int, a);
    lemma_fundamental_div_mod(x as int, a);
    let q: int = x as int / a;
    if r != 0 {
        assert(round_up(x, align) as int == a * q + a);
        lemma_mod_multiples_vanish(q, a, a);
        lemma_mod_self_0(a);
    }
}

/// No multiple of `align` lies between `x` and `round_up(x, align)`.
pub proof fn lemma_round_up_is_least(x: nat, align: nat, m: nat)
    requires
        align > 0,
        m % align == 0,
        x <= m,
    ensures
        round_up(x, align) <= m,
{
    let a: int = align as int;
    let r: int = (x % align) as int;
    lemma_mod_pos_bound(x as int, a);
    lemma_fundamental_div_mod(x as int, a);
    lemma_fundamental_div_mod(m as int, a);
    let q: int = x as int / a;
    let k: int = m as int / a;
    if r != 0 {
        assert(q < k) by (nonlinear_arith)
            requires
                a > 0,
                r > 0,
                a * q + r <= a * k,
        ;
        assert(a * k >= a * q + a) by (nonlinear_arith)
            requires
                a > 0,
                q < k,
        ;
    }
}

/// Size and alignment of a block of memory.
#[derive(Debug, Clone, Copy, PartialEq, Eq, Structural)]
pub struct Layout {
    /// Length of the block in bytes.
    pub size: usize,
    /// Alignment of the block's first byte, a power of two.
    pub align: usize,
}

impl Layout {
    /// The invariant of a layout: the alignment is a power of two.
    pub open spec fn well_formed(&self) -> bool {
        is_pow2(self.align as int)
    }
}

/// What the span of a table depends on besides its number of buckets.
#[derive(Debug, Clone, Copy, PartialEq, Eq, Structural)]
pub struct TableLayout {
    /// Size of one slot in bytes.
    pub size: usize,
    /// Alignment of the control bytes: a power of two, and at least
    /// [`Group::WIDTH`].
    pub ctrl_align: usize,
}

/// Whether `n` is a power of two.
pub fn is_power_of_two(n: usize) -> (r: bool)
    ensures
        r == is_pow2(n as int),
{
    proof {
        reveal(is_pow2);
    }
    if n == 0 {
        return false;
    }
    let mut m: usize = n;
    while m % 2 == 0
        invariant
            0 < m <= n,
            is_pow2(m as int) == is_pow2(n as int),
        decreases m,
    {
        proof {
            reveal(is_pow2);
        }
        m = m / 2;
    }
    proof {
        reveal(is_pow2);
    }
    m == 1
}

/// `round_up(x, align)`, or `None` where that does not fit in a `usize`.
pub fn round_up_to(x: usize, align: usize) -> (r: Option<usize>)
    requires
        align > 0,
    ensures
        match r {
            Some(v) => v == round_up(x as nat, align as nat),
            None => round_up(x as nat, align as nat) > usize::MAX,
        },
{
    let rem: usize = x % align;
    if rem == 0 {
        Some(x)
    } else {
        x.checked_add(align - rem)
    }
}

impl TableLayout {
    /// The invariant of a table layout.
    pub open spec fn well_formed(&self) -> bool {
        &&& is_pow2(self.ctrl_align as int)
        &&& self.ctrl_align >= Group::WIDTH
    }

    /// Offset of the first control byte in the allocation of a table of
    /// `buckets` buckets: the slots, padded to the control alignment.
    pub open spec fn ctrl_offset(&self, buckets: nat) -> nat {
        round_up(self.size as nat * buckets, self.ctrl_align as nat)
    }

    /// Length of the allocation of a table of `buckets` buckets.
    pub open spec fn span(&self, buckets: nat) -> nat {
        self.ctrl_offset(buckets) + buckets + Group::WIDTH as nat
    }

    /// The table layout for slots of the given layout: see
    /// [`TableLayout::new`].
    pub open spec fn spec_new(layout: Layout) -> TableLayout {
        TableLayout {
            size: layout.size,
            ctrl_align: if layout.align > Group::WIDTH {
                layout.align
            } else {
                Group::WIDTH
            },
        }
    }

    /// The table layout for slots of the given size and alignment. The
    /// control bytes are aligned to the slot's alignment or to the group
    /// width, whichever is larger.
    pub fn new(layout: Layout) -> (r: Self)
        ensures
            r == TableLayout::spec_new(layout),
            layout.well_formed() ==> r.well_formed(),
    {
        proof {
            lemma_group_width_is_pow2();
        }
        TableLayout {
            size: layout.size,
            ctrl_align: if layout.align > Group::WIDTH {
                layout.align
            } else {
                Group::WIDTH
            },
        }
    }

    /// Tests the invariant.
    pub fn is_well_formed(&self) -> (r: bool)
        ensures
            r == self.well_formed(),
    {
        is_power_of_two(self.ctrl_align) && self.ctrl_align >= Group::WIDTH
    }

    /// Layout of the allocation of a table of `buckets` buckets, and the
    /// offset of its first control byte. `None` where the length of the
    /// allocation does not fit in a `usize`.
    pub fn calculate_layout_for(&self, buckets: usize) -> (r: Option<(Layout, usize)>)
        requires
            self.well_formed(),
            is_pow2(buckets as int),
        ensures
            match r {
                Some((layout, ctrl_offset)) => {
                    &&& ctrl_offset == self.ctrl_offset(buckets as nat)
                    &&& layout.size == self.span(buckets as nat)
                    &&& layout.align == self.ctrl_align
                },
                None => self.span(buckets as nat) > usize::MAX,
            },
    {
        proof {
            lemma_round_up_is_multiple(self.size as nat * buckets as nat, self.ctrl_align as nat);
        }
        let slots: usize = match self.size.checked_mul(buckets) {
            Some(v) => v,
            None => {
                return None;
            },
        };
        let ctrl_offset: usize = match round_up_to(slots, self.ctrl_align) {
            Some(v) => v,
            None => {
                return None;
            },
        };
        let ctrl_end: usize = match ctrl_offset.checked_add(buckets) {
            Some(v) => v,
            None => {
                return None;
            },
        };
        let len: usize = match ctrl_end.checked_add(Group::WIDTH) {
            Some(v) => v,
            None => {
                return None;
            },
        };
        Some((Layout { size: len, align: self.ctrl_align }, ctrl_offset))
    }
}

/// The group width is a power of two.
pub proof fn lemma_group_width_is_pow2()
    ensures
        is_pow2(Group::WIDTH as int),
{
    reveal_with_fuel(is_pow2, 5);
}

} // verus!
