//! A record made of one fixed-size header value followed by a variable-length
//! run of element values, held and released as a single owned value.
use vstd::prelude::*;

pub mod layout;

use crate::layout::{combined_spec, compute, fits, round_up, round_up_to, CombinedLayout, ElementLayout};

verus! {

/// The layout of the type `V`, as a spec value.
pub open spec fn layout_of<V>() -> ElementLayout {
    ElementLayout {
        size: vstd::layout::size_of::<V>() as usize,
        align: vstd::layout::align_of::<V>() as usize,
    }
}

/// A header value `single` followed by a trailing run of elements.
///
/// The record owns its header and every element. Dropping it drops the header
/// first, then the elements from first to last, each exactly once.
#[derive(Debug, PartialEq, Eq, PartialOrd, Ord, Hash)]
pub struct DynStruct<T, D> {
    single: T,
    many: Vec<D>,
    layout: Option<CombinedLayout>,
}

/// Why a slice could not be seen as a record.
#[derive(Clone, Copy, Debug, PartialEq, Eq, Structural)]
pub enum ViewError {
    /// The slice is empty, so it has no value to act as the header.
    Empty,
}

/// A borrowed record: a header and a trailing run of elements, both owned
/// elsewhere.
#[derive(Clone, Copy, Debug, PartialEq, Eq, Hash)]
pub struct DynStructRef<'a, T, D> {
    pub single: &'a T,
    pub many: &'a [D],
}

impl<T, D> DynStruct<T, D> {
    /// The header value.
    pub closed spec fn header(&self) -> T {
        self.single
    }

    /// The trailing elements, in order.
    pub closed spec fn tail(&self) -> Seq<D> {
        self.many@
    }

    /// The layout of the record's storage; `None` when it occupies no bytes.
    pub closed spec fn layout_spec(&self) -> Option<CombinedLayout> {
        self.layout
    }

    /// The stored layout is the one that the header type, the element type
    /// and the number of elements give.
    pub open spec fn wf(&self) -> bool {
        &&& layout_of::<T>().wf()
        &&& layout_of::<D>().wf()
        &&& layout_of::<T>().size as nat == vstd::layout::size_of::<T>()
        &&& layout_of::<D>().size as nat == vstd::layout::size_of::<D>()
        &&& fits(layout_of::<T>(), layout_of::<D>(), self.tail().len() as int)
        &&& self.layout_spec() == combined_spec(layout_of::<T>(), layout_of::<D>(), self.tail().len() as int)
    }

    /// Builds a record from a header and the elements that follow it, taking
    /// ownership of all of them. Nothing is dropped on the way.
    pub fn new(single: T, many: Vec<D>) -> (r: Box<Self>)
        requires
            fits(layout_of::<T>(), layout_of::<D>(), many@.len() as int),
        ensures
            r.header() == single,
            r.tail() == many@,
            r.wf(),
    {
        let header = ElementLayout::of::<T>();
        let element = ElementLayout::of::<D>();
        let layout = compute(header, element, many.len());
        Box::new(DynStruct { single, many, layout })
    }

    /// A record occupies no storage exactly when its header type is zero-sized
    /// and its elements are zero-sized or absent; its values are there all the
    /// same.
    pub proof fn lemma_zero_sized_record(&self)
        requires
            self.wf(),
        ensures
            self.layout_spec() is None <==> (vstd::layout::size_of::<T>() == 0 && (
            vstd::layout::size_of::<D>() == 0 || self.tail().len() == 0)),
    {
        layout::lemma_zero_size(layout_of::<T>(), layout_of::<D>(), self.tail().len());
    }

    /// The address of the header in a block that starts at `raw`.
    pub fn single_ptr(raw: usize) -> (r: usize)
        ensures
            r == raw,
    {
        raw
    }

    /// The address of the first element in a block that starts at `raw`: the
    /// end of the header, rounded up to the element alignment.
    pub fn many_ptr(raw: usize) -> (r: usize)
        requires
            raw + vstd::layout::size_of::<T>() <= usize::MAX,
            round_up(raw + vstd::layout::size_of::<T>(), vstd::layout::align_of::<D>() as int) <= usize::MAX,
        ensures
            r == round_up(raw + vstd::layout::size_of::<T>(), vstd::layout::align_of::<D>() as int),
    {
        let header = ElementLayout::of::<T>();
        let element = ElementLayout::of::<D>();
        proof {
            layout::lemma_pow2_positive(element.align as int);
        }
        round_up_to(raw + header.size, element.align)
    }

    /// The header value.
    pub fn single(&self) -> (r: &T)
        ensures
            *r == self.header(),
    {
        &self.single
    }

    /// The trailing elements.
    pub fn many(&self) -> (r: &[D])
        ensures
            r@ == self.tail(),
    {
        self.many.as_slice()
    }

    /// The number of trailing elements.
    pub fn len(&self) -> (r: usize)
        ensures
            r == self.tail().len(),
    {
        self.many.len()
    }

    /// The layout of the record's storage; `None` when it occupies no bytes.
    pub fn layout(&self) -> (r: Option<CombinedLayout>)
        ensures
            r == self.layout_spec(),
    {
        self.layout
    }

    /// Borrows the record as a header reference and an element slice.
    pub fn borrowed(&self) -> (r: DynStructRef<'_, T, D>)
        ensures
            *r.single == self.header(),
            r.many@ == self.tail(),
    {
        DynStructRef { single: &self.single, many: self.many.as_slice() }
    }
}

impl<T> DynStruct<T, T> {
    /// Sees a slice as a record whose header is the first value and whose
    /// elements are the rest. Nothing is copied or allocated.
    pub fn from_slice(values: &[T]) -> (r: Result<DynStructRef<'_, T, T>, ViewError>)
        ensures
            values@.len() == 0 <==> r is Err,
            r is Err ==> r->Err_0 == ViewError::Empty,
            r is Ok ==> *r->Ok_0.single == values@[0],
            r is Ok ==> r->Ok_0.many@ == values@.subrange(1, values@.len() as int),
    {
        if values.len() == 0 {
            Err(ViewError::Empty)
        } else {
            let single = vstd::slice::slice_index_get(values, 0);
            let many = vstd::slice::slice_subrange(values, 1, values.len());
            Ok(DynStructRef { single, many })
        }
    }
}

/// A run of `len` values of the zero-sized unit type; it occupies no bytes.
pub fn slice_with_len(len: usize) -> (r: Vec<()>)
    ensures
        r@.len() == len,
{
    let mut r: Vec<()> = Vec::new();
    let mut i: usize = 0;
    while i < len
        invariant
            i <= len,
            r@.len() == i,
        decreases len - i,
    {
        r.push(());
        i = i + 1;
    }
    r
}

} // verus!
