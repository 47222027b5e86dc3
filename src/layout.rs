//! Size, alignment and offset arithmetic for a header followed by a trailing
//! run of elements.
use vstd::prelude::*;
use vstd::arithmetic::div_mod::{
    lemma_fundamental_div_mod, lemma_mod_adds, lemma_mod_multiples_basic, lemma_mod_pos_bound,
};
use vstd::arithmetic::power2::is_pow2;

verus! {

/// The memory footprint of one component type.
#[derive(Clone, Copy, Debug, PartialEq, Eq, PartialOrd, Ord, Hash, Structural)]
pub struct ElementLayout {
    pub size: usize,
    pub align: usize,
}

/// The footprint of a whole record: a header, padding, and `count` elements.
#[derive(Clone, Copy, Debug, PartialEq, Eq, PartialOrd, Ord, Hash, Structural)]
pub struct CombinedLayout {
    pub total_size: usize,
    pub align: usize,
    pub elements_offset: usize,
}

impl ElementLayout {
    /// A layout is well formed when its alignment is a power of two.
    pub open spec fn wf(self) -> bool {
        is_pow2(self.align as int)
    }

    /// The layout of the type `V` as the compiler lays it out.
    pub fn of<V>() -> (r: ElementLayout)
        ensures
            r.size as nat == vstd::layout::size_of::<V>(),
            r.align as nat == vstd::layout::align_of::<V>(),
            r.wf(),
    {
        vstd::layout::layout_for_type_is_valid::<V>();
        ElementLayout { size: core::mem::size_of::<V>(), align: core::mem::align_of::<V>() }
    }
}

/// The smallest multiple of `align` that is at least `n` (for `align > 0`).
pub open spec fn round_up(n: int, align: int) -> int {
    if n % align == 0 {
        n
    } else {
        n + (align - n % align)
    }
}

/// Where the trailing elements start: the header size rounded up to the
/// element alignment.
pub open spec fn elements_offset_of(header: ElementLayout, element: ElementLayout) -> int {
    round_up(header.size as int, element.align as int)
}

/// The number of bytes a record of `count` elements occupies.
pub open spec fn total_size_of(header: ElementLayout, element: ElementLayout, count: int) -> int {
    elements_offset_of(header, element) + element.size * count
}

/// Whether a record of `count` elements can be addressed at all.
pub open spec fn fits(header: ElementLayout, element: ElementLayout, count: int) -> bool {
    total_size_of(header, element, count) <= usize::MAX
}

/// The layout of a record, or `None` when it occupies no bytes at all.
pub open spec fn combined_spec(header: ElementLayout, element: ElementLayout, count: int) -> Option<CombinedLayout> {
    if total_size_of(header, element, count) == 0 {
        None
    } else {
        Some(
            CombinedLayout {
                total_size: total_size_of(header, element, count) as usize,
                align: if header.align >= element.align { header.align } else { element.align },
                elements_offset: elements_offset_of(header, element) as usize,
            },
        )
    }
}

/// Rounds `n` up to the next multiple of `align`.
pub fn round_up_to(n: usize, align: usize) -> (r: usize)
    requires
        align > 0,
        round_up(n as int, align as int) <= usize::MAX,
    ensures
        r == round_up(n as int, align as int),
{
    let rem = n % align;
    if rem == 0 {
        n
    } else {
        n + (align - rem)
    }
}

/// Computes the layout of a header followed by `count` elements. A record
/// that occupies no bytes is reported as `None`.
pub fn compute(header: ElementLayout, element: ElementLayout, count: usize) -> (r: Option<CombinedLayout>)
    requires
        header.wf(),
        element.wf(),
        fits(header, element, count as int),
    ensures
        r == combined_spec(header, element, count as int),
{
    proof {
        lemma_pow2_positive(element.align as int);
        lemma_round_up_bounds(header.size as int, element.align as int);
        lemma_mul_nonneg(element.size as int, count as int);
    }
    let offset = round_up_to(header.size, element.align);
    let total = offset + element.size * count;
    if total == 0 {
        None
    } else {
        let align = if header.align >= element.align { header.align } else { element.align };
        Some(CombinedLayout { total_size: total, align, elements_offset: offset })
    }
}

/// A power of two is positive.
pub proof fn lemma_pow2_positive(n: int)
    requires
        is_pow2(n),
    ensures
        n > 0,
{
    reveal_with_fuel(is_pow2, 1);
}

proof fn lemma_mul_nonneg(a: int, b: int)
    requires
        a >= 0,
        b >= 0,
    ensures
        a * b >= 0,
{
    assert(a * b >= 0) by (nonlinear_arith)
        requires
            a >= 0,
            b >= 0,
    ;
}

/// `round_up(n, align)` is a multiple of `align`, at least `n`, and less than
/// `n + align`.
pub proof fn lemma_round_up_bounds(n: int, align: int)
    requires
        n >= 0,
        align > 0,
    ensures
        round_up(n, align) % align == 0,
        n <= round_up(n, align) < n + align,
{
    lemma_mod_pos_bound(n, align);
    if n % align != 0 {
        lemma_fundamental_div_mod(n, align);
        let q = n / align;
        assert(round_up(n, align) == (q + 1) * align) by (nonlinear_arith)
            requires
                n == align * q + n % align,
                round_up(n, align) == n + (align - n % align),
        ;
        lemma_mod_multiples_basic(q + 1, align);
    }
}

/// In every addressable record the elements start at a multiple of the
/// element alignment, no earlier than the end of the header and before
/// the next multiple past it, and the total size is exactly the element
/// offset plus the size of all elements. The record's alignment is the larger
/// of the two alignments.
pub proof fn lemma_layout_alignment(header: ElementLayout, element: ElementLayout, count: nat)
    requires
        header.wf(),
        element.wf(),
        fits(header, element, count as int),
    ensures
        combined_spec(header, element, count as int) matches Some(l) ==> {
            &&& l.elements_offset % element.align == 0
            &&& header.size <= l.elements_offset < header.size + element.align
            &&& l.total_size == l.elements_offset + element.size * count
            &&& l.align >= header.align && l.align >= element.align
            &&& (l.align == header.align || l.align == element.align)
        },
{
    lemma_pow2_positive(element.align as int);
    lemma_round_up_bounds(header.size as int, element.align as int);
    lemma_mul_nonneg(element.size as int, count as int);
}

/// A record occupies no bytes exactly when its header occupies none and its
/// elements together occupy none.
pub proof fn lemma_zero_size(header: ElementLayout, element: ElementLayout, count: nat)
    requires
        header.wf(),
        element.wf(),
        fits(header, element, count as int),
    ensures
        combined_spec(header, element, count as int) is None <==> (header.size == 0 && (element.size
            == 0 || count == 0)),
{
    lemma_pow2_positive(element.align as int);
    lemma_round_up_bounds(header.size as int, element.align as int);
    lemma_mul_nonneg(element.size as int, count as int);
    if element.size > 0 && count > 0 {
        assert(element.size as int * count as int > 0) by (nonlinear_arith)
            requires
                element.size > 0,
                count > 0,
        ;
    } else {
        assert(element.size as int * count as int == 0) by (nonlinear_arith)
            requires
                element.size == 0 || count == 0,
        ;
    }
    if header.size == 0 {
        lemma_mod_multiples_basic(0, element.align as int);
        assert(round_up(0, element.align as int) == 0);
    }
}

/// In a block that starts at an address aligned for the elements, rounding
/// the end of the header up to the element alignment lands exactly at the
/// block's address plus the elements' offset.
pub proof fn lemma_aligned_block_offset(raw: nat, header: ElementLayout, element: ElementLayout)
    requires
        element.wf(),
        raw as int % element.align as int == 0,
    ensures
        round_up(raw + header.size, element.align as int) == raw + elements_offset_of(header, element),
{
    let a = element.align as int;
    lemma_pow2_positive(a);
    lemma_mod_adds(raw as int, header.size as int, a);
    lemma_mod_pos_bound(header.size as int, a);
    lemma_mod_pos_bound(raw + header.size, a);
}

} // verus!
