//! Validation of tensor descriptors.

use crate::dlpack::{DLDataType, DLTensor, K_DL_CPU};
use crate::dtype::AsDLDataType;
use crate::error::{
    error_view, outcome, Error, ErrorView, RUNTIME_ERROR, TYPE_ERROR, VALUE_ERROR,
};
use crate::text::{decimal, push_unsigned};
use vstd::layout::{align_of, layout_for_type_is_valid, size_of};
use vstd::prelude::*;
use vstd::slice::slice_subrange;

verus! {

//-----------------------------------------------------
// Products of dimensions
//-----------------------------------------------------
/// The product of `dims[lo]` up to, not including, `dims[hi]`.
pub open spec fn product(dims: Seq<i64>, lo: int, hi: int) -> int
    decreases hi - lo,
{
    if lo >= hi {
        1
    } else {
        dims[lo] * product(dims, lo + 1, hi)
    }
}

/// The number of elements of a tensor of these dimensions.
pub open spec fn element_count(dims: Seq<i64>) -> int {
    product(dims, 0, dims.len() as int)
}

/// Every dimension can be held as an element count.
pub open spec fn dimensions_valid(dims: Seq<i64>) -> bool {
    forall|i: int| 0 <= i < dims.len() ==> 0 <= #[trigger] dims[i] <= usize::MAX
}

pub open spec fn dimensions_non_negative(dims: Seq<i64>) -> bool {
    forall|i: int| 0 <= i < dims.len() ==> 0 <= #[trigger] dims[i]
}

pub open spec fn has_zero(dims: Seq<i64>) -> bool {
    exists|i: int| 0 <= i < dims.len() && #[trigger] dims[i] == 0
}

/// A product splits at any point of its range.
pub(crate) proof fn lemma_product_split(dims: Seq<i64>, lo: int, mid: int, hi: int)
    requires
        lo <= mid <= hi,
    ensures
        product(dims, lo, hi) == product(dims, lo, mid) * product(dims, mid, hi),
    decreases mid - lo,
{
    if lo < mid {
        lemma_product_split(dims, lo + 1, mid, hi);
        let (d, p, q) = (dims[lo] as int, product(dims, lo + 1, mid), product(dims, mid, hi));
        assert(d * (p * q) == (d * p) * q) by (nonlinear_arith);
    }
}

pub(crate) proof fn lemma_product_step(dims: Seq<i64>, lo: int, hi: int)
    requires
        0 <= lo <= hi < dims.len(),
    ensures
        product(dims, lo, hi + 1) == product(dims, lo, hi) * dims[hi],
{
    lemma_product_split(dims, lo, hi, hi + 1);
    assert(product(dims, hi + 1, hi + 1) == 1);
    assert(product(dims, hi, hi + 1) == dims[hi] * 1);
}

/// Where no dimension is zero, a product is positive.
pub(crate) proof fn lemma_product_positive(dims: Seq<i64>, lo: int, hi: int)
    requires
        0 <= lo,
        hi <= dims.len(),
        dimensions_non_negative(dims),
        !has_zero(dims),
    ensures
        product(dims, lo, hi) >= 1,
    decreases hi - lo,
{
    if lo < hi {
        lemma_product_positive(dims, lo + 1, hi);
        assert(dims[lo] >= 1);
        assert(dims[lo] * product(dims, lo + 1, hi) >= 1) by (nonlinear_arith)
            requires
                dims[lo] >= 1,
                product(dims, lo + 1, hi) >= 1,
        ;
    }
}

/// Where no dimension is zero, a wider range has no smaller product.
pub(crate) proof fn lemma_product_monotonic(dims: Seq<i64>, lo: int, from: int, to: int, hi: int)
    requires
        0 <= lo <= from <= to <= hi <= dims.len(),
        dimensions_non_negative(dims),
        !has_zero(dims),
    ensures
        product(dims, from, to) <= product(dims, lo, hi),
{
    lemma_product_split(dims, lo, from, hi);
    lemma_product_split(dims, from, to, hi);
    lemma_product_positive(dims, lo, from);
    lemma_product_positive(dims, from, to);
    lemma_product_positive(dims, to, hi);
    let (p, q, r) = (product(dims, lo, from), product(dims, from, to), product(dims, to, hi));
    assert(q <= p * (q * r)) by (nonlinear_arith)
        requires
            p >= 1,
            q >= 1,
            r >= 1,
    ;
}

/// A range that holds a zero dimension has product zero.
pub(crate) proof fn lemma_product_zero(dims: Seq<i64>, lo: int, hi: int, at: int)
    requires
        lo <= at < hi,
        dims[at] == 0,
    ensures
        product(dims, lo, hi) == 0,
{
    lemma_product_split(dims, lo, at, hi);
    assert(product(dims, at, hi) == 0);
}

//-----------------------------------------------------
// Descriptor validation
//-----------------------------------------------------
/// The entries of a slice on success.
pub open spec fn slice_outcome<T>(result: Result<&[T], Error>) -> Result<Seq<T>, ErrorView> {
    match result {
        Ok(slice) => Ok(slice@),
        Err(error) => Err(error@),
    }
}

pub open spec fn optional_slice_outcome<T>(result: Result<Option<&[T]>, Error>) -> Result<
    Option<Seq<T>>,
    ErrorView,
> {
    match result {
        Ok(Some(slice)) => Ok(Some(slice@)),
        Ok(None) => Ok(None),
        Err(error) => Err(error@),
    }
}

pub open spec fn value_error(message: Seq<char>) -> ErrorView {
    error_view(VALUE_ERROR, message)
}

/// The number of bytes that an element of this type occupies.
pub open spec fn item_bytes(dtype: DLDataType) -> int {
    (dtype.bits * dtype.lanes + 7) / 8
}

/// Whether explicit strides describe compact row-major storage.
///
/// Dimensions are read from the last to the first, and the first stride that
/// differs from the product of the later dimensions decides, unless that
/// product has outgrown a stride before. Singleton dimensions do not count.
pub open spec fn row_major(dims: Seq<i64>, strides: Seq<i64>) -> Result<bool, ErrorView> {
    if !dimensions_non_negative(dims) {
        Err(value_error("Tensor dimensions must be non-negative"@))
    } else if has_zero(dims) {
        Ok(true)
    } else if exists|i: int| stride_differs(dims, strides, i) {
        Ok(false)
    } else if element_count(dims) > i64::MAX {
        Err(value_error("Tensor strides exceed i64::MAX"@))
    } else {
        Ok(true)
    }
}

/// The stride of dimension `i` is not the compact one, and the compact one can
/// be held as a stride.
pub open spec fn stride_differs(dims: Seq<i64>, strides: Seq<i64>, i: int) -> bool {
    let compact = product(dims, i + 1, dims.len() as int);
    0 <= i < dims.len() && dims[i] != 1 && strides[i] != compact && compact <= i64::MAX
}

/// The index names an element of a tensor of these dimensions.
pub open spec fn in_bounds(index: Seq<int>, dims: Seq<i64>) -> bool {
    &&& index.len() == dims.len()
    &&& forall|i: int| 0 <= i < dims.len() ==> 0 <= #[trigger] index[i] < dims[i]
}

/// How far from the first element the one at `index` lies, in elements, going by
/// the first `n` strides.
pub open spec fn element_offset(index: Seq<int>, strides: Seq<i64>, n: int) -> int
    decreases n,
{
    if n <= 0 {
        0
    } else {
        element_offset(index, strides, n - 1) + index[n - 1] * strides[n - 1]
    }
}

/// How many elements come before the one at `index` when the last of the first
/// `n` indices runs fastest.
pub open spec fn row_major_place(index: Seq<int>, dims: Seq<i64>, n: int) -> int
    decreases n,
{
    if n <= 0 {
        0
    } else {
        row_major_place(index, dims, n - 1) * dims[n - 1] + index[n - 1]
    }
}

/// Some element has this place in row-major order.
pub open spec fn is_place_of_an_element(place: int, dims: Seq<i64>) -> bool {
    exists|index: Seq<int>| #[trigger]
        in_bounds(index, dims) && row_major_place(index, dims, dims.len() as int) == place
}

/// Every element lies where row-major order has it.
pub open spec fn lies_in_row_major_order(dims: Seq<i64>, strides: Seq<i64>) -> bool {
    forall|index: Seq<int>| #[trigger]
        in_bounds(index, dims) ==> element_offset(index, strides, dims.len() as int)
            == row_major_place(index, dims, dims.len() as int)
}

impl DLTensor {
    /// `told` is the truth on whether the elements lie in row-major order.
    ///
    /// With explicit strides and at least one element, that is a matter of where
    /// each element lies. It may be left open only where there are more elements
    /// than a stride can count. Without elements, any strides will do.
    pub open spec fn is_contiguity(&self, told: Result<bool, ErrorView>) -> bool {
        match (self.shape, self.strides) {
            (Some(shape), Some(strides)) => 0 < self.ndim <= isize::MAX as int / 8 ==> {
                let dims = shape@.take(self.ndim as int);
                let steps = strides@.take(self.ndim as int);
                &&& (forall|i: int| 0 <= i < dims.len() ==> #[trigger] dims[i] > 0) ==> {
                    &&& told matches Ok(contiguous) ==> contiguous == lies_in_row_major_order(
                        dims,
                        steps,
                    )
                    &&& element_count(dims) <= i64::MAX ==> told is Ok
                }
                &&& dimensions_non_negative(dims) && has_zero(dims) ==> told == Ok::<
                    bool,
                    ErrorView,
                >(true)
            },
            _ => true,
        }
    }
}

impl DLTensor {
    pub open spec fn ndim_outcome(&self) -> Result<usize, ErrorView> {
        if self.ndim < 0 {
            Err(value_error("Tensor ndim must be non-negative"@))
        } else if self.ndim > isize::MAX as int / 8 {
            Err(value_error("Tensor metadata exceeds Rust slice limits"@))
        } else {
            Ok(self.ndim as usize)
        }
    }

    pub open spec fn shape_outcome(&self) -> Result<Seq<i64>, ErrorView> {
        match self.ndim_outcome() {
            Err(error) => Err(error),
            Ok(ndim) => if ndim == 0 {
                Ok(Seq::empty())
            } else {
                match self.shape {
                    None => Err(value_error("non-scalar Tensor has null shape"@)),
                    Some(shape) => Ok(shape@.take(ndim as int)),
                }
            },
        }
    }

    pub open spec fn strides_outcome(&self) -> Result<Option<Seq<i64>>, ErrorView> {
        match self.ndim_outcome() {
            Err(error) => Err(error),
            Ok(ndim) => match self.strides {
                Some(strides) if ndim > 0 => Ok(Some(strides@.take(ndim as int))),
                _ => Ok(None),
            },
        }
    }

    pub open spec fn numel_outcome(&self) -> Result<usize, ErrorView> {
        match self.shape_outcome() {
            Err(error) => Err(error),
            Ok(dims) => if !dimensions_valid(dims) {
                Err(value_error("Tensor dimensions must be non-negative and fit usize"@))
            } else if element_count(dims) > usize::MAX {
                Err(value_error("Tensor element count exceeds usize::MAX"@))
            } else {
                Ok(element_count(dims) as usize)
            },
        }
    }

    pub open spec fn contiguous_outcome(&self) -> Result<bool, ErrorView> {
        match self.strides_outcome() {
            Err(error) => Err(error),
            Ok(None) => match self.numel_outcome() {
                Err(error) => Err(error),
                Ok(_) => Ok(true),
            },
            Ok(Some(strides)) => match self.shape_outcome() {
                Err(error) => Err(error),
                Ok(dims) => row_major(dims, strides),
            },
        }
    }

    /// The rank, where it can index slices of dimensions.
    pub fn checked_ndim(&self) -> (result: Result<usize, Error>)
        ensures
            outcome(result) == self.ndim_outcome(),
    {
        if self.ndim < 0 {
            return Err(Error::new(VALUE_ERROR, "Tensor ndim must be non-negative"));
        }
        let ndim: usize = self.ndim as usize;
        if ndim > isize::MAX as usize / 8 {
            return Err(Error::new(VALUE_ERROR, "Tensor metadata exceeds Rust slice limits"));
        }
        Ok(ndim)
    }

    /// The dimensions.
    pub fn checked_shape(&self) -> (result: Result<&[i64], Error>)
        requires
            self.well_formed(),
        ensures
            slice_outcome(result) == self.shape_outcome(),
    {
        let ndim: usize = match self.checked_ndim() {
            Ok(ndim) => ndim,
            Err(error) => return Err(error),
        };
        if ndim == 0 {
            let empty: &[i64] = &[];
            assert(empty@ =~= Seq::empty());
            return Ok(empty);
        }
        match &self.shape {
            None => Err(Error::new(VALUE_ERROR, "non-scalar Tensor has null shape")),
            Some(shape) => Ok(slice_subrange(shape.as_slice(), 0, ndim)),
        }
    }

    /// The explicit strides, if there are any.
    pub fn checked_strides(&self) -> (result: Result<Option<&[i64]>, Error>)
        requires
            self.well_formed(),
        ensures
            optional_slice_outcome(result) == self.strides_outcome(),
    {
        let ndim: usize = match self.checked_ndim() {
            Ok(ndim) => ndim,
            Err(error) => return Err(error),
        };
        match &self.strides {
            Some(strides) if ndim > 0 => Ok(Some(slice_subrange(strides.as_slice(), 0, ndim))),
            _ => Ok(None),
        }
    }

    /// The number of elements.
    pub fn checked_numel(&self) -> (result: Result<usize, Error>)
        requires
            self.well_formed(),
        ensures
            outcome(result) == self.numel_outcome(),
            self.is_numel(outcome(result)),
    {
        proof {
            law_numel_is_the_product_of_the_dimensions(self);
        }
        let shape: &[i64] = match self.checked_shape() {
            Ok(shape) => shape,
            Err(error) => return Err(error),
        };
        let mut has_zero_dimension = false;
        let mut index: usize = 0;
        while index < shape.len()
            invariant
                index <= shape@.len(),
                self.shape_outcome() == Ok::<Seq<i64>, ErrorView>(shape@),
                forall|i: int| 0 <= i < index ==> 0 <= #[trigger] shape@[i] <= usize::MAX,
                has_zero_dimension == has_zero(shape@.take(index as int)),
            decreases shape@.len() - index,
        {
            let dimension: i64 = shape[index];
            assert(shape@.take(index + 1)[index as int] == dimension);
            assert(shape@.take(index + 1).take(index as int) =~= shape@.take(index as int));
            if usize::try_from(dimension).is_err() {
                return Err(
                    Error::new(VALUE_ERROR, "Tensor dimensions must be non-negative and fit usize"),
                );
            }
            proof {
                let (short, long) = (shape@.take(index as int), shape@.take(index + 1));
                if has_zero(short) {
                    let i = choose|i: int| 0 <= i < short.len() && #[trigger] short[i] == 0;
                    assert(long[i] == 0);
                }
                if has_zero(long) {
                    let i = choose|i: int| 0 <= i < long.len() && #[trigger] long[i] == 0;
                    if i < index {
                        assert(short[i] == 0);
                    }
                }
            }
            has_zero_dimension = has_zero_dimension || dimension == 0;
            index = index + 1;
        }
        assert(shape@.take(shape@.len() as int) =~= shape@);
        if has_zero_dimension {
            proof {
                let at = choose|i: int| 0 <= i < shape@.len() && #[trigger] shape@[i] == 0;
                lemma_product_zero(shape@, 0, shape@.len() as int, at);
            }
            return Ok(0);
        }
        let mut numel: usize = 1;
        let mut index: usize = 0;
        while index < shape.len()
            invariant
                index <= shape@.len(),
                self.shape_outcome() == Ok::<Seq<i64>, ErrorView>(shape@),
                dimensions_valid(shape@),
                !has_zero(shape@),
                numel == product(shape@, 0, index as int),
            decreases shape@.len() - index,
        {
            proof {
                lemma_product_step(shape@, 0, index as int);
                lemma_product_monotonic(shape@, 0, 0, index + 1, shape@.len() as int);
            }
            let dimension: usize = shape[index] as usize;
            numel = match numel.checked_mul(dimension) {
                Some(next) => next,
                None => return Err(
                    Error::new(VALUE_ERROR, "Tensor element count exceeds usize::MAX"),
                ),
            };
            index = index + 1;
        }
        Ok(numel)
    }

    /// Whether the elements lie in compact row-major order.
    pub fn checked_contiguous(&self) -> (result: Result<bool, Error>)
        requires
            self.well_formed(),
        ensures
            outcome(result) == self.contiguous_outcome(),
            self.is_contiguity(outcome(result)),
    {
        proof {
            law_contiguous_tensors_lie_in_row_major_order(self);
        }
        let strides: &[i64] = match self.checked_strides() {
            Ok(Some(strides)) => strides,
            Ok(None) => {
                // A null strides pointer denotes compact row-major storage.
                return match self.checked_numel() {
                    Ok(_) => Ok(true),
                    Err(error) => Err(error),
                };
            },
            Err(error) => return Err(error),
        };
        let shape: &[i64] = match self.checked_shape() {
            Ok(shape) => shape,
            Err(error) => return Err(error),
        };
        let mut has_zero_dimension = false;
        let mut index: usize = 0;
        while index < shape.len()
            invariant
                index <= shape@.len(),
                self.contiguous_outcome() == row_major(shape@, strides@),
                self.is_contiguity(self.contiguous_outcome()),
                forall|i: int| 0 <= i < index ==> 0 <= #[trigger] shape@[i],
                has_zero_dimension == exists|i: int| 0 <= i < index && #[trigger] shape@[i] == 0,
            decreases shape@.len() - index,
        {
            let dimension: i64 = shape[index];
            if dimension < 0 {
                return Err(Error::new(VALUE_ERROR, "Tensor dimensions must be non-negative"));
            }
            has_zero_dimension = has_zero_dimension || dimension == 0;
            index = index + 1;
        }
        if has_zero_dimension {
            return Ok(true);
        }
        let mut expected_stride: i64 = 1;
        let mut index: usize = shape.len();
        while index > 0
            invariant
                index <= shape@.len() == strides@.len(),
                self.contiguous_outcome() == row_major(shape@, strides@),
                self.is_contiguity(self.contiguous_outcome()),
                dimensions_non_negative(shape@),
                !has_zero(shape@),
                expected_stride == product(shape@, index as int, shape@.len() as int),
                forall|i: int| index <= i < shape@.len() ==> !stride_differs(shape@, strides@, i),
            decreases index,
        {
            index = index - 1;
            let dimension: i64 = shape[index];
            let stride: i64 = strides[index];
            let ghost next = product(shape@, index as int, shape@.len() as int);
            proof {
                lemma_product_positive(shape@, index as int, shape@.len() as int);
            }
            assert(next == expected_stride * dimension) by (nonlinear_arith)
                requires
                    next == dimension * expected_stride,
            ;
            assert(dimension == 1 ==> next == expected_stride) by (nonlinear_arith)
                requires
                    next == dimension * expected_stride,
            ;
            if dimension != 1 {
                if stride != expected_stride {
                    assert(stride_differs(shape@, strides@, index as int));
                    return Ok(false);
                }
                expected_stride = match expected_stride.checked_mul(dimension) {
                    Some(next) => next,
                    None => {
                        proof {
                            lemma_no_difference_after_overflow(shape@, strides@, index as int);
                        }
                        return Err(Error::new(VALUE_ERROR, "Tensor strides exceed i64::MAX"));
                    },
                };
            }
        }
        Ok(true)
    }

    pub open spec fn data_outcome<T: AsDLDataType>(&self) -> Result<(usize, usize), ErrorView> {
        let size = size_of::<T>() as int;
        let expected = T::data_type();
        if self.dtype != expected {
            Err(error_view(TYPE_ERROR, data_type_mismatch(expected, self.dtype)))
        } else if self.device.device_type != K_DL_CPU {
            Err(error_view(RUNTIME_ERROR, "Tensor is not on CPU"@))
        } else {
            match self.contiguous_outcome() {
                Err(error) => Err(error),
                Ok(false) => Err(error_view(RUNTIME_ERROR, "Tensor is not contiguous"@)),
                Ok(true) => if size == 0 || size != item_bytes(self.dtype) {
                    Err(error_view(TYPE_ERROR, "Rust type size does not match the Tensor dtype"@))
                } else {
                    match self.numel_outcome() {
                        Err(error) => Err(error),
                        Ok(numel) => self.region_outcome(numel, numel * size, align_of::<T>()),
                    }
                },
            }
        }
    }

    /// The address of `byte_len` bytes that hold `numel` elements.
    pub open spec fn region_outcome(&self, numel: usize, byte_len: int, align: nat) -> Result<
        (usize, usize),
        ErrorView,
    > {
        if byte_len > usize::MAX {
            Err(value_error("Tensor byte size exceeds usize::MAX"@))
        } else if byte_len > isize::MAX {
            Err(value_error("Tensor byte size exceeds Rust slice limits"@))
        } else if byte_len == 0 {
            Ok((align as usize, 0))
        } else if self.data == 0 {
            Err(error_view(RUNTIME_ERROR, "non-empty Tensor has null data"@))
        } else if self.byte_offset > usize::MAX {
            Err(value_error("Tensor byte offset does not fit usize"@))
        } else if self.byte_offset + byte_len > usize::MAX {
            Err(value_error("Tensor byte offset plus size exceeds usize::MAX"@))
        } else if self.byte_offset + byte_len > isize::MAX {
            Err(value_error("Tensor byte offset plus size exceeds Rust allocation limits"@))
        } else if self.data + self.byte_offset > usize::MAX {
            Err(value_error("Tensor data address overflows usize"@))
        } else if (self.data + self.byte_offset) % (align as int) != 0 {
            Err(
                error_view(
                    RUNTIME_ERROR,
                    "Tensor data is not aligned for the requested Rust type"@,
                ),
            )
        } else {
            Ok(((self.data + self.byte_offset) as usize, numel))
        }
    }

    /// The address and count of the elements, viewed as values of type `T`,
    /// which take as many bytes in Rust as they do in the tensor.
    ///
    /// An empty tensor has a well aligned address that is never read.
    pub fn checked_data<T: AsDLDataType>(&self) -> (result: Result<(usize, usize), Error>)
        requires
            self.well_formed(),
        ensures
            outcome(result) == self.data_outcome::<T>(),
            self.is_view::<T>(outcome(result)),
    {
        layout_for_type_is_valid::<T>();
        proof {
            law_data_is_viewed_where_it_lies::<T>(self);
        }
        let expected: DLDataType = T::dl_data_type();
        let actual: DLDataType = self.dtype;
        if actual != expected {
            return Err(
                Error::from_message(TYPE_ERROR, format_data_type_mismatch(expected, actual)),
            );
        }
        if self.device.device_type != K_DL_CPU {
            return Err(Error::new(RUNTIME_ERROR, "Tensor is not on CPU"));
        }
        match self.checked_contiguous() {
            Err(error) => return Err(error),
            Ok(false) => return Err(Error::new(RUNTIME_ERROR, "Tensor is not contiguous")),
            Ok(true) => {},
        }
        let size: usize = core::mem::size_of::<T>();
        let align: usize = core::mem::align_of::<T>();
        if !(size > 0 && size == self.item_size()) {
            return Err(Error::new(TYPE_ERROR, "Rust type size does not match the Tensor dtype"));
        }
        let numel: usize = match self.checked_numel() {
            Ok(numel) => numel,
            Err(error) => return Err(error),
        };
        let byte_len: usize = match numel.checked_mul(size) {
            Some(byte_len) => byte_len,
            None => return Err(Error::new(VALUE_ERROR, "Tensor byte size exceeds usize::MAX")),
        };
        if byte_len > isize::MAX as usize {
            return Err(Error::new(VALUE_ERROR, "Tensor byte size exceeds Rust slice limits"));
        }
        if byte_len == 0 {
            return Ok((align, 0));
        }
        if self.data == 0 {
            return Err(Error::new(RUNTIME_ERROR, "non-empty Tensor has null data"));
        }
        if self.byte_offset > usize::MAX as u64 {
            return Err(Error::new(VALUE_ERROR, "Tensor byte offset does not fit usize"));
        }
        let byte_offset: usize = self.byte_offset as usize;
        let allocation_span: usize = match byte_offset.checked_add(byte_len) {
            Some(span) => span,
            None => return Err(
                Error::new(VALUE_ERROR, "Tensor byte offset plus size exceeds usize::MAX"),
            ),
        };
        if allocation_span > isize::MAX as usize {
            return Err(
                Error::new(
                    VALUE_ERROR,
                    "Tensor byte offset plus size exceeds Rust allocation limits",
                ),
            );
        }
        let address: usize = match self.data.checked_add(byte_offset) {
            Some(address) => address,
            None => return Err(Error::new(VALUE_ERROR, "Tensor data address overflows usize")),
        };
        if address % align != 0 {
            return Err(
                Error::new(
                    RUNTIME_ERROR,
                    "Tensor data is not aligned for the requested Rust type",
                ),
            );
        }
        Ok((address, numel))
    }
}

/// Once the product of the later dimensions has outgrown a stride, no earlier
/// dimension can decide, and the element count has outgrown it too.
proof fn lemma_no_difference_after_overflow(dims: Seq<i64>, strides: Seq<i64>, at: int)
    requires
        0 <= at < dims.len() == strides.len(),
        dimensions_non_negative(dims),
        !has_zero(dims),
        product(dims, at, dims.len() as int) > i64::MAX,
        strides[at] == product(dims, at + 1, dims.len() as int),
        forall|i: int| at < i < dims.len() ==> !stride_differs(dims, strides, i),
    ensures
        !exists|i: int| stride_differs(dims, strides, i),
        element_count(dims) > i64::MAX,
{
    let n = dims.len() as int;
    lemma_product_monotonic(dims, 0, at, n, n);
    assert forall|i: int| !stride_differs(dims, strides, i) by {
        if 0 <= i < at {
            lemma_product_monotonic(dims, i + 1, at, n, n);
        }
    }
}

//-----------------------------------------------------
// Row-major order
//-----------------------------------------------------
/// The sum of the first `k` indices, each times the product of the dimensions
/// from the next up to `n`.
spec fn weighted(index: Seq<int>, dims: Seq<i64>, k: int, n: int) -> int
    decreases k,
{
    if k <= 0 {
        0
    } else {
        weighted(index, dims, k - 1, n) + index[k - 1] * product(dims, k, n)
    }
}

proof fn lemma_weighted_step(index: Seq<int>, dims: Seq<i64>, k: int, n: int)
    requires
        0 <= k <= n < dims.len() == index.len(),
    ensures
        weighted(index, dims, k, n + 1) == weighted(index, dims, k, n) * dims[n],
    decreases k,
{
    if k > 0 {
        lemma_weighted_step(index, dims, k - 1, n);
        lemma_product_step(dims, k, n);
        let (w, x, p, d) = (
            weighted(index, dims, k - 1, n),
            index[k - 1],
            product(dims, k, n),
            dims[n] as int,
        );
        assert(w * d + x * (p * d) == (w + x * p) * d) by (nonlinear_arith);
    }
}

proof fn lemma_place_is_weighted(index: Seq<int>, dims: Seq<i64>, n: int)
    requires
        0 <= n <= dims.len() == index.len(),
    ensures
        row_major_place(index, dims, n) == weighted(index, dims, n, n),
    decreases n,
{
    if n > 0 {
        lemma_place_is_weighted(index, dims, n - 1);
        lemma_weighted_step(index, dims, n - 1, n - 1);
        assert(product(dims, n, n) == 1);
    }
}

/// Where each stride that matters is the product of the later dimensions, offsets
/// are places.
proof fn lemma_offset_is_weighted(index: Seq<int>, dims: Seq<i64>, strides: Seq<i64>, k: int)
    requires
        0 <= k <= dims.len() == strides.len(),
        in_bounds(index, dims),
        forall|i: int|
            0 <= i < dims.len() && dims[i] != 1 ==> #[trigger] strides[i] == product(
                dims,
                i + 1,
                dims.len() as int,
            ),
    ensures
        element_offset(index, strides, k) == weighted(index, dims, k, dims.len() as int),
    decreases k,
{
    if k > 0 {
        lemma_offset_is_weighted(index, dims, strides, k - 1);
        let (x, s, p) = (
            index[k - 1],
            strides[k - 1] as int,
            product(dims, k, dims.len() as int),
        );
        if dims[k - 1] == 1 {
            assert(x == 0);
            assert(x * s == 0 && x * p == 0) by (nonlinear_arith)
                requires
                    x == 0,
            ;
        }
    }
}

/// The index of the element that is one step along dimension `at`.
spec fn one_step(n: nat, at: int) -> Seq<int> {
    Seq::new(
        n,
        |i: int|
            if i == at {
                1int
            } else {
                0
            },
    )
}

proof fn lemma_one_step(dims: Seq<i64>, strides: Seq<i64>, at: int, k: int)
    requires
        0 <= at < dims.len() == strides.len(),
        0 <= k <= dims.len(),
    ensures
        element_offset(one_step(dims.len(), at), strides, k) == (if k > at {
            strides[at] as int
        } else {
            0
        }),
        weighted(one_step(dims.len(), at), dims, k, dims.len() as int) == (if k > at {
            product(dims, at + 1, dims.len() as int)
        } else {
            0
        }),
    decreases k,
{
    if k > 0 {
        lemma_one_step(dims, strides, at, k - 1);
        let x = one_step(dims.len(), at)[k - 1];
        let (s, p) = (strides[k - 1] as int, product(dims, k, dims.len() as int));
        assert(x * s == (if x == 1 {
            s
        } else {
            0
        }) && x * p == (if x == 1 {
            p
        } else {
            0
        })) by (nonlinear_arith)
            requires
                x == 0 || x == 1,
        ;
    }
}

/// Elements lie in row-major order exactly if every dimension other than one has
/// the product of the later dimensions as its stride.
pub proof fn law_row_major_order_is_a_matter_of_strides(dims: Seq<i64>, strides: Seq<i64>)
    requires
        dims.len() == strides.len(),
        forall|i: int| 0 <= i < dims.len() ==> #[trigger] dims[i] > 0,
    ensures
        lies_in_row_major_order(dims, strides) <==> forall|i: int|
            0 <= i < dims.len() && dims[i] != 1 ==> #[trigger] strides[i] == product(
                dims,
                i + 1,
                dims.len() as int,
            ),
{
    let n = dims.len() as int;
    if forall|i: int|
        0 <= i < n && dims[i] != 1 ==> #[trigger] strides[i] == product(dims, i + 1, n) {
        assert forall|index: Seq<int>| #[trigger] in_bounds(index, dims) implies element_offset(
            index,
            strides,
            n,
        ) == row_major_place(index, dims, n) by {
            lemma_offset_is_weighted(index, dims, strides, n);
            lemma_place_is_weighted(index, dims, n);
        }
    }
    if lies_in_row_major_order(dims, strides) {
        assert forall|i: int| 0 <= i < n && dims[i] != 1 implies #[trigger] strides[i] == product(
            dims,
            i + 1,
            n,
        ) by {
            let index = one_step(dims.len(), i);
            assert(dims[i] > 0);
            assert(in_bounds(index, dims));
            lemma_one_step(dims, strides, i, n);
            lemma_place_is_weighted(index, dims, n);
        }
    }
}

/// A tensor is found contiguous exactly if every element lies where row-major
/// order has it.
pub proof fn law_contiguous_tensors_lie_in_row_major_order(tensor: &DLTensor)
    requires
        tensor.well_formed(),
    ensures
        tensor.is_contiguity(tensor.contiguous_outcome()),
{
    if let (Some(shape), Some(strides)) = (tensor.shape, tensor.strides) {
        if 0 < tensor.ndim <= isize::MAX as int / 8 {
            let dims = shape@.take(tensor.ndim as int);
            let steps = strides@.take(tensor.ndim as int);
            let n = dims.len() as int;
            if forall|i: int| 0 <= i < dims.len() ==> #[trigger] dims[i] > 0 {
                assert(dimensions_non_negative(dims) && !has_zero(dims)) by {
                    assert(forall|i: int| 0 <= i < dims.len() ==> #[trigger] dims[i] > 0);
                }
                law_row_major_order_is_a_matter_of_strides(dims, steps);
                assert forall|i: int| 0 <= i < n && #[trigger] dims[i] > 0 implies product(
                    dims,
                    i + 1,
                    n,
                ) <= element_count(dims) by {
                    lemma_product_monotonic(dims, 0, i + 1, n, n);
                }
                if exists|i: int| stride_differs(dims, steps, i) {
                    let i = choose|i: int| stride_differs(dims, steps, i);
                    assert(steps[i] != product(dims, i + 1, n));
                } else if element_count(dims) <= i64::MAX {
                    assert forall|i: int| 0 <= i < n && dims[i] != 1 implies #[trigger] steps[i]
                        == product(dims, i + 1, n) by {
                        assert(!stride_differs(dims, steps, i));
                    }
                }
            }
        }
    }
}

/// The index of the element at `place` among those of the first `n` dimensions.
spec fn index_at(place: int, dims: Seq<i64>, n: int) -> Seq<int>
    decreases n,
{
    if n <= 0 {
        Seq::empty()
    } else {
        index_at(place / dims[n - 1] as int, dims, n - 1).push(place % dims[n - 1] as int)
    }
}

proof fn lemma_place_below(index: Seq<int>, dims: Seq<i64>, n: int)
    requires
        0 <= n <= dims.len(),
        in_bounds(index, dims),
    ensures
        0 <= row_major_place(index, dims, n) < product(dims, 0, n),
    decreases n,
{
    if n > 0 {
        lemma_place_below(index, dims, n - 1);
        lemma_product_step(dims, 0, n - 1);
        let (q, x, p, d) = (
            row_major_place(index, dims, n - 1),
            index[n - 1],
            product(dims, 0, n - 1),
            dims[n - 1] as int,
        );
        assert(0 <= q * d + x < p * d) by (nonlinear_arith)
            requires
                0 <= q < p,
                0 <= x < d,
        ;
    } else {
        assert(product(dims, 0, 0) == 1);
    }
}

proof fn lemma_places_differ(one: Seq<int>, other: Seq<int>, dims: Seq<i64>, n: int)
    requires
        0 <= n <= dims.len(),
        in_bounds(one, dims),
        in_bounds(other, dims),
        row_major_place(one, dims, n) == row_major_place(other, dims, n),
    ensures
        forall|i: int| 0 <= i < n ==> one[i] == other[i],
    decreases n,
{
    if n > 0 {
        let (p, q, x, y, d) = (
            row_major_place(one, dims, n - 1),
            row_major_place(other, dims, n - 1),
            one[n - 1],
            other[n - 1],
            dims[n - 1] as int,
        );
        assert(p == q && x == y) by (nonlinear_arith)
            requires
                p * d + x == q * d + y,
                0 <= x < d,
                0 <= y < d,
        ;
        lemma_places_differ(one, other, dims, n - 1);
    }
}

proof fn lemma_place_agrees(one: Seq<int>, other: Seq<int>, dims: Seq<i64>, n: int)
    requires
        forall|i: int| 0 <= i < n ==> one[i] == other[i],
    ensures
        row_major_place(one, dims, n) == row_major_place(other, dims, n),
    decreases n,
{
    if n > 0 {
        lemma_place_agrees(one, other, dims, n - 1);
    }
}

proof fn lemma_index_at(place: int, dims: Seq<i64>, n: int)
    requires
        0 <= n <= dims.len(),
        forall|i: int| 0 <= i < dims.len() ==> #[trigger] dims[i] > 0,
        0 <= place < product(dims, 0, n),
    ensures
        in_bounds(index_at(place, dims, n), dims.take(n)),
        row_major_place(index_at(place, dims, n), dims, n) == place,
    decreases n,
{
    if n > 0 {
        lemma_product_step(dims, 0, n - 1);
        let (p, d) = (product(dims, 0, n - 1), dims[n - 1] as int);
        let (q, r) = (place / d, place % d);
        assert(place == q * d + r && 0 <= r < d && 0 <= q < p) by (nonlinear_arith)
            requires
                0 <= place < p * d,
                d > 0,
                q == place / d,
                r == place % d,
        ;
        lemma_index_at(q, dims, n - 1);
        let shorter = index_at(q, dims, n - 1);
        let index = index_at(place, dims, n);
        assert(index == shorter.push(r));
        lemma_place_agrees(index, shorter, dims, n - 1);
        assert forall|i: int| 0 <= i < n implies 0 <= #[trigger] index[i] < dims.take(n)[i] by {
            if i < n - 1 {
                assert(0 <= shorter[i] < dims.take(n - 1)[i]);
            }
        }
    } else {
        assert(product(dims, 0, 0) == 1);
    }
}

/// There are as many elements as indices: row-major order numbers the indices in
/// bounds from nought up to the element count, each number once.
pub proof fn law_places_number_the_elements(dims: Seq<i64>)
    requires
        forall|i: int| 0 <= i < dims.len() ==> #[trigger] dims[i] > 0,
    ensures
        forall|index: Seq<int>| #[trigger]
            in_bounds(index, dims) ==> 0 <= row_major_place(index, dims, dims.len() as int)
                < element_count(dims),
        forall|one: Seq<int>, other: Seq<int>| #[trigger]
            in_bounds(one, dims) && #[trigger] in_bounds(other, dims) && row_major_place(
                one,
                dims,
                dims.len() as int,
            ) == row_major_place(other, dims, dims.len() as int) ==> one == other,
        forall|place: int|
            0 <= place < element_count(dims) ==> #[trigger] is_place_of_an_element(place, dims),
{
    let n = dims.len() as int;
    assert forall|index: Seq<int>| #[trigger] in_bounds(index, dims) implies 0 <= row_major_place(
        index,
        dims,
        n,
    ) < element_count(dims) by {
        lemma_place_below(index, dims, n);
    }
    assert forall|one: Seq<int>, other: Seq<int>| #[trigger]
        in_bounds(one, dims) && #[trigger] in_bounds(other, dims) && row_major_place(one, dims, n)
            == row_major_place(other, dims, n) implies one == other by {
        lemma_places_differ(one, other, dims, n);
        assert(one =~= other);
    }
    assert forall|place: int| 0 <= place < element_count(dims) implies #[trigger]
    is_place_of_an_element(place, dims) by {
        lemma_index_at(place, dims, n);
        assert(dims.take(n) =~= dims);
        let index = index_at(place, dims, n);
        assert(in_bounds(index, dims) && row_major_place(index, dims, n) == place);
    }
}

/// Data with explicit strides is viewed only where its elements lie in row-major
/// order, or there are none.
pub proof fn law_viewed_data_lies_in_row_major_order<T: AsDLDataType>(tensor: &DLTensor)
    requires
        tensor.well_formed(),
        tensor.data_outcome::<T>() is Ok,
    ensures
        match (tensor.shape, tensor.strides) {
            (Some(shape), Some(strides)) => {
                let dims = shape@.take(tensor.ndim as int);
                (forall|i: int| 0 <= i < dims.len() ==> #[trigger] dims[i] > 0)
                    ==> lies_in_row_major_order(dims, strides@.take(tensor.ndim as int))
            },
            _ => true,
        },
{
    law_contiguous_tensors_lie_in_row_major_order(tensor);
    if let (Some(shape), Some(strides)) = (tensor.shape, tensor.strides) {
        if tensor.ndim == 0 {
            let dims = shape@.take(0);
            assert forall|index: Seq<int>| #[trigger] in_bounds(index, dims) implies element_offset(
                index,
                strides@.take(0),
                0,
            ) == row_major_place(index, dims, 0) by {}
        }
    }
}

//-----------------------------------------------------
// Messages
//-----------------------------------------------------
pub open spec fn data_type_text(dtype: DLDataType) -> Seq<char> {
    "code="@ + decimal(dtype.code as int) + ", bits="@ + decimal(dtype.bits as int) + ", lanes="@
        + decimal(dtype.lanes as int)
}

pub open spec fn data_type_mismatch(expected: DLDataType, actual: DLDataType) -> Seq<char> {
    "Data type mismatch: expected "@ + data_type_text(expected) + "; got "@ + data_type_text(actual)
}

fn push_data_type(text: &mut String, dtype: DLDataType)
    ensures
        final(text)@ == old(text)@ + data_type_text(dtype),
{
    text.append("code=");
    push_unsigned(text, dtype.code as u64);
    text.append(", bits=");
    push_unsigned(text, dtype.bits as u64);
    text.append(", lanes=");
    push_unsigned(text, dtype.lanes as u64);
    assert(text@ =~= old(text)@ + data_type_text(dtype));
}

fn format_data_type_mismatch(expected: DLDataType, actual: DLDataType) -> (text: String)
    ensures
        text@ == data_type_mismatch(expected, actual),
{
    let mut text: String = "Data type mismatch: expected ".to_owned();
    push_data_type(&mut text, expected);
    text.append("; got ");
    push_data_type(&mut text, actual);
    text
}

//-----------------------------------------------------
// Sizes read from a descriptor
//-----------------------------------------------------
/// Element count and element size of a tensor descriptor.
pub trait DLTensorExt {
    spec fn dims(&self) -> Option<Seq<i64>>;

    spec fn element_type(&self) -> DLDataType;

    /// The number of elements, multiplied up from the first dimension.
    fn numel(&self) -> (count: usize)
        requires
            self.dims() matches Some(dims) && prefix_products_fit(dims),
        ensures
            self.dims() matches Some(dims) && count == element_count(dims),
    ;

    /// The number of bytes of an element, rounded up.
    fn item_size(&self) -> (size: usize)
        requires
            self.element_type().bits > 0,
            self.element_type().lanes > 0,
        ensures
            size == item_bytes(self.element_type()),
    ;
}

/// Dimensions are valid, and no leading run of them has a product that
/// exceeds an element count.
pub open spec fn prefix_products_fit(dims: Seq<i64>) -> bool {
    &&& dimensions_valid(dims)
    &&& forall|i: int| 0 <= i <= dims.len() ==> #[trigger] product(dims, 0, i) <= usize::MAX
}

impl DLTensorExt for DLTensor {
    open spec fn dims(&self) -> Option<Seq<i64>> {
        if self.ndim < 0 {
            None
        } else if self.ndim == 0 {
            Some(Seq::empty())
        } else {
            match self.shape {
                Some(shape) if self.ndim <= shape@.len() => Some(shape@.take(self.ndim as int)),
                _ => None,
            }
        }
    }

    open spec fn element_type(&self) -> DLDataType {
        self.dtype
    }

    fn numel(&self) -> usize {
        let ndim: usize = self.ndim as usize;
        let ghost dims = self.dims()->0;
        if ndim == 0 {
            return 1;
        }
        let mut numel: usize = 1;
        if let Some(shape) = &self.shape {
            let mut index: usize = 0;
            while index < ndim
                invariant
                    index <= ndim <= shape@.len(),
                    dims == shape@.take(ndim as int),
                    prefix_products_fit(dims),
                    numel == product(dims, 0, index as int),
                decreases ndim - index,
            {
                assert(dims[index as int] == shape@[index as int]);
                proof {
                    lemma_product_step(dims, 0, index as int);
                }
                let dimension: usize = shape[index] as usize;
                numel = numel * dimension;
                index = index + 1;
            }
        }
        numel
    }

    fn item_size(&self) -> usize {
        let (bits, lanes): (usize, usize) = (self.dtype.bits as usize, self.dtype.lanes as usize);
        assert(bits * lanes <= 255 * 65535) by (nonlinear_arith)
            requires
                bits <= 255,
                lanes <= 65535,
        ;
        (bits * lanes + 7) / 8
    }
}

//-----------------------------------------------------
// What a descriptor says
//-----------------------------------------------------
impl DLTensor {
    /// The rank is one that slices of dimensions can have, and the dimensions are
    /// there.
    pub open spec fn has_dims(&self) -> bool {
        &&& 0 <= self.ndim <= isize::MAX as int / 8
        &&& self.ndim > 0 ==> self.shape is Some
    }

    /// The dimensions: as many as the rank says.
    pub open spec fn leading_dims(&self) -> Seq<i64> {
        if self.ndim == 0 {
            Seq::empty()
        } else {
            self.shape->0@.take(self.ndim as int)
        }
    }

    /// `counted` is the number of elements, if that can be told.
    pub open spec fn is_numel(&self, counted: Result<usize, ErrorView>) -> bool {
        let dims = self.leading_dims();
        &&& counted is Ok <==> {
            &&& self.has_dims()
            &&& forall|i: int| 0 <= i < dims.len() ==> 0 <= #[trigger] dims[i] <= usize::MAX
            &&& element_count(dims) <= usize::MAX
        }
        &&& counted matches Ok(numel) ==> numel == element_count(dims)
        &&& counted matches Err(error) ==> error.kind == VALUE_ERROR
    }

    /// The elements lie where row-major order has them. Without strides, and without
    /// elements, they do.
    pub open spec fn is_row_major(&self) -> bool {
        let dims = self.leading_dims();
        ||| self.ndim == 0
        ||| self.strides is None
        ||| has_zero(dims)
        ||| lies_in_row_major_order(dims, self.strides->0@.take(self.ndim as int))
    }

    /// The elements can be viewed as values of type `T`: they are such values, they
    /// lie in row-major order in memory that can be read, and nothing about them is
    /// too large.
    pub open spec fn can_be_viewed<T: AsDLDataType>(&self) -> bool {
        let size = size_of::<T>() as int;
        let dims = self.leading_dims();
        let bytes = element_count(dims) * size;
        &&& self.dtype == T::data_type()
        &&& self.device.device_type == K_DL_CPU
        &&& self.is_numel(Ok(element_count(dims) as usize))
        &&& self.is_row_major()
        &&& size > 0
        &&& 8 * (size - 1) < self.dtype.bits * self.dtype.lanes <= 8 * size
        &&& bytes <= isize::MAX
        &&& bytes > 0 ==> {
            &&& self.data != 0
            &&& self.byte_offset + bytes <= isize::MAX
            &&& self.data + self.byte_offset <= usize::MAX
            &&& (self.data + self.byte_offset) % align_of::<T>() as int == 0
        }
    }

    /// `viewed` is where the elements begin and how many there are, if they can be
    /// viewed as values of type `T`.
    pub open spec fn is_view<T: AsDLDataType>(
        &self,
        viewed: Result<(usize, usize), ErrorView>,
    ) -> bool {
        let count = element_count(self.leading_dims());
        &&& viewed is Ok <==> self.can_be_viewed::<T>()
        &&& viewed matches Ok((start, numel)) ==> {
            &&& numel == count
            &&& count > 0 ==> start == self.data + self.byte_offset
            &&& count == 0 ==> start == align_of::<T>()
        }
        &&& self.dtype != T::data_type() ==> viewed is Err && viewed->Err_0.kind == TYPE_ERROR
        &&& self.dtype == T::data_type() && self.device.device_type != K_DL_CPU ==> viewed is Err
            && viewed->Err_0.kind == RUNTIME_ERROR
    }
}

/// The number of elements is told exactly if the dimensions are there, none of them
/// is negative, and their product can be held.
pub proof fn law_numel_is_the_product_of_the_dimensions(tensor: &DLTensor)
    ensures
        tensor.is_numel(tensor.numel_outcome()),
{
    let dims = tensor.leading_dims();
    if tensor.has_dims() {
        assert(tensor.shape_outcome() == Ok::<Seq<i64>, ErrorView>(dims));
        if dimensions_valid(dims) {
            lemma_product_non_negative(dims, 0);
        }
    }
}

proof fn lemma_product_non_negative(dims: Seq<i64>, lo: int)
    requires
        0 <= lo <= dims.len(),
        dimensions_valid(dims),
    ensures
        product(dims, lo, dims.len() as int) >= 0,
    decreases dims.len() - lo,
{
    if lo < dims.len() {
        lemma_product_non_negative(dims, lo + 1);
        assert(dims[lo] * product(dims, lo + 1, dims.len() as int) >= 0) by (nonlinear_arith)
            requires
                dims[lo] >= 0,
                product(dims, lo + 1, dims.len() as int) >= 0,
        ;
    }
}

/// The elements are viewed exactly if they can be, from where the data begins.
pub proof fn law_data_is_viewed_where_it_lies<T: AsDLDataType>(tensor: &DLTensor)
    requires
        tensor.well_formed(),
        align_of::<T>() <= usize::MAX,
    ensures
        tensor.is_view::<T>(tensor.data_outcome::<T>()),
{
    let dims = tensor.leading_dims();
    let size = size_of::<T>() as int;
    let count = element_count(dims);
    law_numel_is_the_product_of_the_dimensions(tensor);
    law_contiguous_tensors_lie_in_row_major_order(tensor);
    let bits = tensor.dtype.bits * tensor.dtype.lanes;
    assert(item_bytes(tensor.dtype) == (bits + 7) / 8);
    if tensor.numel_outcome() is Ok {
        lemma_product_non_negative(dims, 0);
        assert(count * size >= 0 && (count > 0 && size > 0 ==> count * size >= count) && (count == 0
            ==> count * size == 0)) by (nonlinear_arith)
            requires
                count >= 0,
                size >= 0,
        ;
        assert(tensor.contiguous_outcome() == Ok::<bool, ErrorView>(true) ==> tensor.is_row_major())
            by {
            law_contiguity_is_row_major_order(tensor);
        }
        assert(tensor.is_row_major() && count <= i64::MAX ==> tensor.contiguous_outcome() == Ok::<
            bool,
            ErrorView,
        >(true)) by {
            law_contiguity_is_row_major_order(tensor);
        }
    }
}

/// Where the elements can be counted, contiguity is row-major order. It may be left
/// open only where there are more elements than a stride can count.
pub proof fn law_contiguity_is_row_major_order(tensor: &DLTensor)
    requires
        tensor.well_formed(),
        tensor.numel_outcome() is Ok,
    ensures
        tensor.contiguous_outcome() == Ok::<bool, ErrorView>(true) ==> tensor.is_row_major(),
        tensor.is_row_major() && element_count(tensor.leading_dims()) <= i64::MAX
            ==> tensor.contiguous_outcome() == Ok::<bool, ErrorView>(true),
{
    let dims = tensor.leading_dims();
    law_contiguous_tensors_lie_in_row_major_order(tensor);
    law_numel_is_the_product_of_the_dimensions(tensor);
    if tensor.ndim > 0 && tensor.strides is Some {
        assert(dims == tensor.shape->0@.take(tensor.ndim as int));
        assert(dimensions_non_negative(dims));
        if !has_zero(dims) {
            assert forall|i: int| 0 <= i < dims.len() implies #[trigger] dims[i] > 0 by {}
        }
    }
}

/// The shape is the leading dimensions and the strides are the leading strides, as many
/// as the rank says, if the rank is in order and the dimensions are there.
pub proof fn law_metadata_has_the_rank_of_the_tensor(tensor: &DLTensor)
    requires
        tensor.well_formed(),
    ensures
        tensor.ndim_outcome() is Ok <==> 0 <= tensor.ndim <= isize::MAX as int / 8,
        tensor.ndim_outcome() matches Ok(ndim) ==> ndim == tensor.ndim,
        tensor.shape_outcome() is Ok <==> tensor.has_dims(),
        tensor.shape_outcome() matches Ok(dims) ==> {
            &&& dims.len() == tensor.ndim
            &&& forall|i: int| 0 <= i < dims.len() ==> #[trigger] dims[i] == tensor.shape->0@[i]
        },
        tensor.strides_outcome() is Ok <==> tensor.ndim_outcome() is Ok,
        tensor.strides_outcome() matches Ok(strides) ==> {
            &&& strides is None <==> tensor.ndim == 0 || tensor.strides is None
            &&& strides matches Some(strides) ==> {
                &&& strides.len() == tensor.ndim
                &&& forall|i: int|
                    0 <= i < strides.len() ==> #[trigger] strides[i] == tensor.strides->0@[i]
            }
        },
{
}

/// An element has room for all of its bits, and no byte to spare.
pub proof fn law_elements_are_rounded_up_to_bytes(dtype: DLDataType)
    ensures
        dtype.bits * dtype.lanes <= 8 * item_bytes(dtype) < dtype.bits * dtype.lanes + 8,
{
}

/// The dimensions that sizes are read from are as many as the rank says, in order.
pub proof fn law_dimensions_are_read_in_order(tensor: &DLTensor)
    requires
        tensor.well_formed(),
    ensures
        tensor.dims() is Some <==> tensor.ndim == 0 || tensor.ndim > 0 && tensor.shape is Some,
        tensor.dims() matches Some(dims) ==> {
            &&& dims.len() == tensor.ndim
            &&& forall|i: int| 0 <= i < dims.len() ==> #[trigger] dims[i] == tensor.shape->0@[i]
        },
{
}

/// Contiguity is told of valid dimensions only: they are there, and none of them is
/// negative. Without strides, valid dimensions whose elements can be counted are
/// contiguous.
pub proof fn law_contiguity_is_told_of_valid_dimensions(tensor: &DLTensor)
    requires
        tensor.well_formed(),
    ensures
        tensor.contiguous_outcome() is Ok ==> tensor.has_dims() && forall|i: int|
            0 <= i < tensor.ndim ==> #[trigger] tensor.leading_dims()[i] >= 0,
        tensor.ndim == 0 || tensor.strides is None ==> (tensor.numel_outcome() is Ok
            <==> tensor.contiguous_outcome() == Ok::<bool, ErrorView>(true)),
        tensor.ndim == 0 || tensor.strides is None ==> tensor.contiguous_outcome() != Ok::<
            bool,
            ErrorView,
        >(false),
        tensor.contiguous_outcome() matches Err(error) ==> error.kind == VALUE_ERROR,
{
    law_numel_is_the_product_of_the_dimensions(tensor);
    let dims = tensor.leading_dims();
    if tensor.contiguous_outcome() is Ok {
        assert(tensor.shape_outcome() == Ok::<Seq<i64>, ErrorView>(dims));
        assert(dimensions_non_negative(dims));
        assert forall|i: int| 0 <= i < tensor.ndim implies #[trigger] dims[i] >= 0 by {}
    }
}

} // verus!
