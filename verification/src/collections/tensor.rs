//! Reference counted tensors.

use crate::address_map::{layout_fits, Layout};
use crate::collections::descriptor::{
    dimensions_valid, element_count, has_zero, item_bytes,
    law_contiguity_is_row_major_order, law_row_major_order_is_a_matter_of_strides,
    lemma_product_monotonic, lemma_product_positive, lemma_product_zero,
    lies_in_row_major_order, prefix_products_fit, product, row_major, stride_differs,
    DLTensorExt,
};
use crate::dlpack::{DLDataType, DLDevice, DLTensor, K_DL_CPU};
use crate::dtype::{
    decode_slice, encode, encode_slice, lemma_encode_injective, lemma_encode_len, AsDLDataType,
};
use crate::error::{
    error_view, Error, ErrorView, RUNTIME_ERROR, TYPE_ERROR, VALUE_ERROR,
};
use crate::host_memory::{overwritten, HostMemory};
use crate::any::TVMFFIAny;
use crate::object::arc::{acquired, allocation, drop_effect, fresh_header, ObjectArc};
use crate::object::deleter::Deleted;
use crate::object::heap::{extended_layout, ObjectHeap, ObjectStore, StoredObject};
use crate::object::refs::{
    held_object, hold_object, lemma_instance_of, object_exists, share_held, ObjectRefAny,
    ObjectRefByType, ObjectRefCore,
};
use crate::object::unsafe_::ObjectDeleter;
use crate::object::{Object, ObjectCore, ObjectCoreWithExtraItems};
use crate::type_index::K_TVM_FFI_TENSOR;
use crate::type_table::{is_instance_of, TypeTable};
use crate::type_traits::{type_key, type_key_of, AnyCompatible};
use vstd::layout::{align_of, size_of};
use vstd::prelude::*;

verus! {

//-----------------------------------------------------
// NDAllocator
//-----------------------------------------------------
/// The number of bytes that the elements of a tensor occupy.
pub open spec fn data_bytes(prototype: &DLTensor) -> int {
    element_count(prototype.dims()->0) * item_bytes(prototype.dtype)
}

/// Allocators of tensor data.
///
/// Bookkeeping must not rely on the descriptor, which native code may change.
pub trait NDAllocator: Sized {
    spec fn minimum_align() -> usize;

    /// Data for the prototype can be allocated.
    spec fn can_alloc(&self, memory: &HostMemory, prototype: &DLTensor) -> bool;

    /// What an allocation changes and returns.
    spec fn allocated(
        before: (Self, HostMemory),
        after: (Self, HostMemory),
        prototype: &DLTensor,
        data: usize,
    ) -> bool;

    /// What the allocator owns is in memory.
    spec fn can_free(&self, memory: &HostMemory) -> bool;

    /// What giving up the allocation changes.
    spec fn freed(before: (Self, HostMemory), after: (Self, HostMemory)) -> bool;

    /// The minimum alignment of the data that the allocator hands out.
    fn min_align() -> (align: usize)
        ensures
            align == Self::minimum_align(),
    ;

    /// Allocates data for the given descriptor.
    fn alloc_data(&mut self, memory: &mut HostMemory, prototype: &DLTensor) -> (data: usize)
        requires
            old(memory).well_formed(),
            old(self).can_alloc(old(memory), prototype),
        ensures
            final(memory).well_formed(),
            Self::allocated(
                (*old(self), *old(memory)),
                (*final(self), *final(memory)),
                prototype,
                data,
            ),
            data_bytes(prototype) > 0 ==> data != 0,
            final(self).can_free(final(memory)),
    ;

    /// Frees the data of the given descriptor.
    fn free_data(&mut self, memory: &mut HostMemory, tensor: &DLTensor)
        requires
            old(memory).well_formed(),
            old(self).can_free(old(memory)),
        ensures
            final(memory).well_formed(),
            Self::freed((*old(self), *old(memory)), (*final(self), *final(memory))),
            final(self).can_free(final(memory)),
    ;

    /// Frees what the allocator still owns at the end of its life.
    fn destroy(&mut self, memory: &mut HostMemory)
        requires
            old(memory).well_formed(),
            old(self).can_free(old(memory)),
        ensures
            final(memory).well_formed(),
            Self::freed((*old(self), *old(memory)), (*final(self), *final(memory))),
            final(self).can_free(final(memory)),
    ;
}

/// A block of host memory and the layout it was allocated with.
#[derive(Clone, Copy, PartialEq, Eq, Structural, Debug)]
pub struct CPUAllocation {
    pub address: usize,
    pub layout: Layout,
}

/// Allocates tensor data in host memory.
#[derive(Debug)]
pub struct CPUNDAlloc {
    pub allocation: Option<CPUAllocation>,
}

pub const CPU_MIN_ALIGN: usize = 64;

/// The layout of `size` bytes of tensor data in host memory.
pub open spec fn cpu_layout(size: int) -> Layout {
    Layout { size: size as usize, align: CPU_MIN_ALIGN }
}

impl Default for CPUNDAlloc {
    fn default() -> (alloc: CPUNDAlloc)
        ensures
            alloc.allocation is None,
    {
        CPUNDAlloc { allocation: None }
    }
}

impl CPUNDAlloc {
    /// Gives back the exact block and layout recorded at allocation.
    fn release(&mut self, memory: &mut HostMemory)
        requires
            old(memory).well_formed(),
            old(self).can_free(old(memory)),
        ensures
            final(memory).well_formed(),
            Self::freed((*old(self), *old(memory)), (*final(self), *final(memory))),
    {
        if let Some(allocation) = self.allocation {
            self.allocation = None;
            memory.dealloc(allocation.address, allocation.layout);
        }
    }
}

impl NDAllocator for CPUNDAlloc {
    open spec fn minimum_align() -> usize {
        CPU_MIN_ALIGN
    }

    open spec fn can_alloc(&self, memory: &HostMemory, prototype: &DLTensor) -> bool {
        let size = data_bytes(prototype);
        &&& self.allocation is None
        &&& prototype.dims() matches Some(dims) && prefix_products_fit(dims)
        &&& prototype.dtype.bits > 0
        &&& prototype.dtype.lanes > 0
        &&& layout_fits(size, CPU_MIN_ALIGN as int)
        &&& size > 0 ==> memory.has_room(cpu_layout(size))
    }

    open spec fn allocated(
        before: (Self, HostMemory),
        after: (Self, HostMemory),
        prototype: &DLTensor,
        data: usize,
    ) -> bool {
        let size = data_bytes(prototype);
        let (memory, memory_after) = (before.1, after.1);
        if size == 0 {
            // No block is needed, and the address is never read.
            data == 1 && after.0 == before.0 && memory_after == memory
        } else {
            let layout = cpu_layout(size);
            &&& data != 0
            &&& data % CPU_MIN_ALIGN == 0
            &&& !memory@.dom().contains(data)
            &&& after.0.allocation == Some(CPUAllocation { address: data, layout })
            &&& memory_after@ == memory@.insert(data, Seq::new(size as nat, |i: int| 0u8))
            &&& memory_after.layouts() == memory.layouts().insert(data, layout)
        }
    }

    open spec fn can_free(&self, memory: &HostMemory) -> bool {
        self.allocation matches Some(allocation) ==> {
            &&& memory.layouts().dom().contains(allocation.address)
            &&& memory.layouts()[allocation.address] == allocation.layout
        }
    }

    open spec fn freed(before: (Self, HostMemory), after: (Self, HostMemory)) -> bool {
        &&& after.0.allocation is None
        &&& match before.0.allocation {
            Some(allocation) => {
                &&& after.1@ == before.1@.remove(allocation.address)
                &&& after.1.layouts() == before.1.layouts().remove(allocation.address)
            },
            None => after.1 == before.1,
        }
    }

    fn min_align() -> usize {
        CPU_MIN_ALIGN
    }

    fn alloc_data(&mut self, memory: &mut HostMemory, prototype: &DLTensor) -> usize {
        let numel: usize = prototype.numel();
        let item_size: usize = prototype.item_size();
        let size: usize = numel * item_size;
        if size == 0 {
            return 1;
        }
        let layout: Layout = match Layout::from_size_align(size, CPU_MIN_ALIGN) {
            Some(layout) => layout,
            None => return vstd::pervasive::unreached(),
        };
        let address: usize = memory.alloc_zeroed(layout);
        self.allocation = Some(CPUAllocation { address, layout });
        address
    }

    fn free_data(&mut self, memory: &mut HostMemory, tensor: &DLTensor) {
        self.release(memory);
    }

    fn destroy(&mut self, memory: &mut HostMemory) {
        self.release(memory);
    }
}

/// Host memory for a tensor is new, aligned, all zero, and exactly as large as all of
/// its elements. What was there before stays as it is.
pub proof fn law_data_has_room_for_every_element(
    before: (CPUNDAlloc, HostMemory),
    after: (CPUNDAlloc, HostMemory),
    prototype: &DLTensor,
    data: usize,
)
    requires
        CPUNDAlloc::allocated(before, after, prototype, data),
        data_bytes(prototype) > 0,
    ensures
        data as int % CPU_MIN_ALIGN as int == 0,
        !before.1@.dom().contains(data),
        after.1@.dom().contains(data),
        after.1@[data].len() == element_count(prototype.dims()->0) * item_bytes(prototype.dtype),
        forall|i: int| 0 <= i < after.1@[data].len() ==> #[trigger] after.1@[data][i] == 0,
        forall|other: usize| #[trigger]
            before.1@.dom().contains(other) ==> after.1@.dom().contains(other) && after.1@[other]
                == before.1@[other],
        CPUNDAlloc::minimum_align() == CPU_MIN_ALIGN,
{
}

/// Freeing gives back exactly the block that was allocated, and freeing again does
/// nothing.
pub proof fn law_data_is_freed_once(
    before: (CPUNDAlloc, HostMemory),
    freed: (CPUNDAlloc, HostMemory),
    again: (CPUNDAlloc, HostMemory),
)
    requires
        CPUNDAlloc::freed(before, freed),
        CPUNDAlloc::freed(freed, again),
    ensures
        again.1@ == freed.1@,
        again.1.layouts() == freed.1.layouts(),
        before.0.allocation is None ==> freed.1@ == before.1@,
        before.0.allocation matches Some(allocation) ==> {
            &&& !freed.1@.dom().contains(allocation.address)
            &&& forall|other: usize|
                other != allocation.address && #[trigger] before.1@.dom().contains(other)
                    ==> freed.1@.dom().contains(other) && freed.1@[other] == before.1@[other]
        },
{
}

//-----------------------------------------------------
// Tensor objects
//-----------------------------------------------------
/// The payload of a tensor, as every tensor has it.
#[derive(Debug)]
pub struct TensorObj {
    pub object: Object,
    pub dltensor: DLTensor,
}

impl ObjectCore for TensorObj {
    open spec fn key() -> Seq<char> {
        "ffi.Tensor"@
    }

    open spec fn depth() -> i32 {
        1
    }

    open spec fn is_final() -> bool {
        false
    }

    open spec fn index_is_static() -> bool {
        true
    }

    open spec fn index() -> i32 {
        K_TVM_FFI_TENSOR
    }

    fn type_key() -> &'static str {
        "ffi.Tensor"
    }

    fn type_depth() -> i32 {
        1
    }

    fn type_final() -> bool {
        false
    }

    fn type_index_static() -> bool {
        true
    }

    fn type_index() -> i32 {
        K_TVM_FFI_TENSOR
    }
}

/// The payload of a tensor whose data an allocator owns.
pub struct TensorObjFromNDAlloc<TNDAlloc> {
    pub base: TensorObj,
    pub alloc: TNDAlloc,
}

impl<TNDAlloc> ObjectCore for TensorObjFromNDAlloc<TNDAlloc> {
    open spec fn key() -> Seq<char> {
        TensorObj::key()
    }

    open spec fn depth() -> i32 {
        TensorObj::depth()
    }

    open spec fn is_final() -> bool {
        TensorObj::is_final()
    }

    open spec fn index_is_static() -> bool {
        TensorObj::index_is_static()
    }

    open spec fn index() -> i32 {
        TensorObj::index()
    }

    fn type_key() -> &'static str {
        TensorObj::type_key()
    }

    fn type_depth() -> i32 {
        TensorObj::type_depth()
    }

    fn type_final() -> bool {
        TensorObj::type_final()
    }

    fn type_index_static() -> bool {
        TensorObj::type_index_static()
    }

    fn type_index() -> i32 {
        TensorObj::type_index()
    }
}

impl<TNDAlloc> ObjectCoreWithExtraItems for TensorObjFromNDAlloc<TNDAlloc> {
    /// The dimensions, then the strides.
    type ExtraItem = i64;

    open spec fn countable(&self) -> bool {
        self.base.dltensor.ndim >= 0
    }

    open spec fn item_count(&self) -> usize {
        (self.base.dltensor.ndim * 2) as usize
    }

    fn extra_items_count(this: &Self) -> usize {
        this.base.dltensor.ndim as usize * 2
    }
}

/// Destroying the payload frees the data, and then whatever else the allocator
/// owns.
pub open spec fn payload_dropped<A: NDAllocator>(
    payload: TensorObjFromNDAlloc<A>,
    before: HostMemory,
    after: HostMemory,
) -> bool {
    if payload.base.dltensor.data == 0 {
        exists|alloc: A| A::freed((payload.alloc, before), (alloc, after))
    } else {
        exists|freed: (A, HostMemory), alloc: A|
            #![trigger A::freed((payload.alloc, before), freed), A::freed(freed, (alloc, after))]
            A::freed((payload.alloc, before), freed) && A::freed(freed, (alloc, after))
    }
}

impl<TNDAlloc: NDAllocator> TensorObjFromNDAlloc<TNDAlloc> {
    /// Destroys the payload.
    pub fn drop_payload(this: Self, memory: &mut HostMemory)
        requires
            old(memory).well_formed(),
            this.alloc.can_free(old(memory)),
        ensures
            final(memory).well_formed(),
            payload_dropped(this, *old(memory), *final(memory)),
    {
        let TensorObjFromNDAlloc { base, mut alloc } = this;
        if base.dltensor.data != 0 {
            alloc.free_data(memory, &base.dltensor);
        }
        alloc.destroy(memory);
    }
}

/// The payloads of the tensors whose data allocators of one type own.
pub type TensorStore<A> = ObjectStore<TensorObjFromNDAlloc<A>, i64>;

/// A shared handle to a tensor.
pub struct Tensor {
    pub data: ObjectArc<TensorObj>,
}

impl ObjectRefCore for Tensor {
    type ContainerType = TensorObj;

    open spec fn address(&self) -> usize {
        self.data.ptr
    }

    fn data(this: &Self) -> &ObjectArc<Self::ContainerType> {
        &this.data
    }

    fn into_data(this: Self) -> ObjectArc<Self::ContainerType> {
        this.data
    }

    fn from_data(data: ObjectArc<Self::ContainerType>) -> Self {
        Tensor { data }
    }
}

impl AnyCompatible for Tensor {
    open spec fn exact() -> bool {
        TensorObj::is_final() && TensorObj::index_is_static()
    }

    open spec fn exact_index() -> i32 {
        TensorObj::index()
    }

    open spec fn name_of_type() -> Seq<char> {
        TensorObj::key()
    }

    open spec fn holdable(&self, heap: &ObjectHeap) -> bool {
        object_exists(self.data.ptr, heap)
    }

    open spec fn held(&self, heap: &ObjectHeap) -> TVMFFIAny {
        held_object(self.data.ptr, heap)
    }

    open spec fn strict(data: TVMFFIAny, types: &TypeTable) -> bool {
        types.instance_of(data.type_index, TensorObj::index())
    }

    open spec fn castable(data: TVMFFIAny, types: &TypeTable) -> bool {
        types.instance_of(data.type_index, TensorObj::index())
    }

    open spec fn copyable(data: TVMFFIAny, heap: &ObjectHeap) -> bool {
        data.v_obj != 0 && heap.shareable(data.v_obj)
    }

    open spec fn copied(data: TVMFFIAny, before: &ObjectHeap, after: &ObjectHeap) -> bool {
        acquired(before, after, data.v_obj)
    }

    open spec fn is_value_of(&self, data: TVMFFIAny) -> bool {
        self.data.ptr == data.v_obj
    }

    open spec fn mismatch(data: TVMFFIAny, types: &TypeTable) -> Seq<char> {
        type_key_of(types, data.type_index)
    }

    fn match_any_exact() -> bool {
        TensorObj::type_final() && TensorObj::type_index_static()
    }

    fn match_any_exact_type_index() -> i32 {
        TensorObj::type_index()
    }

    fn type_str() -> String {
        TensorObj::type_key().to_owned()
    }

    fn copy_to_any_view(src: &Self, heap: &ObjectHeap) -> TVMFFIAny {
        hold_object(ObjectArc::as_raw(&src.data), heap)
    }

    fn move_to_any(src: Self, heap: &ObjectHeap) -> TVMFFIAny {
        hold_object(ObjectArc::into_raw(src.data), heap)
    }

    fn check_any_strict(data: &TVMFFIAny, types: &TypeTable) -> bool {
        is_instance_of::<TensorObj>(types, data.type_index)
    }

    fn copy_from_any_view_after_check(data: &TVMFFIAny, heap: &mut ObjectHeap) -> Self {
        // The view does not own the object.
        share_held(data, heap);
        Tensor { data: ObjectArc::from_raw(data.v_obj) }
    }

    fn move_from_any_after_check(data: TVMFFIAny) -> Self {
        Tensor { data: ObjectArc::from_raw(data.v_obj) }
    }

    fn can_cast_from_any_view(data: &TVMFFIAny, types: &TypeTable) -> bool {
        is_instance_of::<TensorObj>(types, data.type_index)
    }

    fn try_cast_from_any_view(
        data: &TVMFFIAny,
        types: &TypeTable,
        heap: &mut ObjectHeap,
    ) -> Result<Self, ()> {
        if is_instance_of::<TensorObj>(types, data.type_index) {
            Ok(Self::copy_from_any_view_after_check(data, heap))
        } else {
            Err(())
        }
    }

    fn get_mismatch_type_info(data: &TVMFFIAny, types: &TypeTable) -> String {
        type_key(types, data.type_index)
    }
}

impl ObjectRefAny for Tensor {
    proof fn held_as_object(&self, heap: &ObjectHeap) {
    }

    proof fn taken_as_object(&self, data: TVMFFIAny) {
    }

    proof fn copied_as_object(data: TVMFFIAny, before: &ObjectHeap, after: &ObjectHeap) {
    }
}

impl ObjectRefByType for Tensor {
    proof fn decided_by_type(data: TVMFFIAny, types: &TypeTable) {
        lemma_instance_of(data.type_index, TensorObj::index(), types);
    }
}

//-----------------------------------------------------
// Strides
//-----------------------------------------------------
/// The stride of dimension `i` in compact row-major order.
///
/// Where the product of the later dimensions cannot be held, the stride is
/// zero; only tensors without elements have such dimensions.
pub open spec fn compact_stride(dims: Seq<i64>, i: int) -> int
    decreases dims.len() - i,
{
    if i + 1 >= dims.len() {
        1
    } else {
        let next = compact_stride(dims, i + 1) * dims[i + 1];
        if next <= i64::MAX {
            next
        } else {
            0
        }
    }
}

pub open spec fn compact_strides(dims: Seq<i64>) -> Seq<i64> {
    Seq::new(dims.len(), |i: int| compact_stride(dims, i) as i64)
}

proof fn lemma_compact_stride_bounds(dims: Seq<i64>, i: int)
    requires
        -1 <= i < dims.len(),
        dimensions_valid(dims),
    ensures
        0 <= compact_stride(dims, i) <= i64::MAX,
    decreases dims.len() - i,
{
    if i + 1 < dims.len() {
        lemma_compact_stride_bounds(dims, i + 1);
        assert(compact_stride(dims, i + 1) * dims[i + 1] >= 0) by (nonlinear_arith)
            requires
                compact_stride(dims, i + 1) >= 0,
                dims[i + 1] >= 0,
        ;
    }
}

/// In a tensor with elements, the stride of a dimension is the product of the
/// later dimensions.
pub proof fn law_compact_stride_is_product(dims: Seq<i64>, i: int)
    requires
        -1 <= i < dims.len(),
        dimensions_valid(dims),
        !has_zero(dims),
        element_count(dims) <= i64::MAX,
    ensures
        compact_stride(dims, i) == product(dims, i + 1, dims.len() as int),
    decreases dims.len() - i,
{
    let n = dims.len() as int;
    if i + 1 < n {
        law_compact_stride_is_product(dims, i + 1);
        lemma_product_monotonic(dims, 0, i + 1, n, n);
        let (d, p) = (dims[i + 1] as int, product(dims, i + 2, n));
        assert(p * d == d * p) by (nonlinear_arith);
    }
}

/// A tensor can be made of these dimensions and this element type.
pub open spec fn constructible(dims: Seq<i64>, dtype: DLDataType) -> bool {
    &&& dims.len() <= i32::MAX
    &&& dtype.bits > 0
    &&& dtype.lanes > 0
    &&& dimensions_valid(dims)
    &&& !has_zero(dims) ==> element_count(dims) <= i64::MAX
    &&& element_count(dims) <= usize::MAX
    &&& element_count(dims) * item_bytes(dtype) <= usize::MAX
}

/// Compact strides describe compact row-major storage.
pub proof fn law_compact_strides_are_row_major(dims: Seq<i64>, dtype: DLDataType)
    requires
        constructible(dims, dtype),
    ensures
        row_major(dims, compact_strides(dims)) == Ok::<bool, ErrorView>(true),
{
    if !has_zero(dims) {
        assert forall|i: int| !stride_differs(dims, compact_strides(dims), i) by {
            if 0 <= i < dims.len() {
                law_compact_stride_is_product(dims, i);
                lemma_compact_stride_bounds(dims, i);
            }
        }
    }
}

/// The elements of a new tensor lie in row-major order.
pub proof fn law_compact_strides_follow_row_major_order(dims: Seq<i64>, dtype: DLDataType)
    requires
        constructible(dims, dtype),
        forall|i: int| 0 <= i < dims.len() ==> #[trigger] dims[i] > 0,
    ensures
        lies_in_row_major_order(dims, compact_strides(dims)),
{
    assert(!has_zero(dims)) by {
        assert(forall|i: int| 0 <= i < dims.len() ==> #[trigger] dims[i] > 0);
    }
    law_row_major_order_is_a_matter_of_strides(dims, compact_strides(dims));
    assert forall|i: int| 0 <= i < dims.len() && dims[i] != 1 implies #[trigger] compact_strides(
        dims,
    )[i] == product(dims, i + 1, dims.len() as int) by {
        law_compact_stride_is_product(dims, i);
        lemma_compact_stride_bounds(dims, i);
    }
}

/// With elements or without, the last stride is one, and the stride of any other
/// dimension is that of the next times the next dimension, unless that is too large
/// to be held.
pub proof fn law_compact_strides_grow_by_dimensions(dims: Seq<i64>)
    requires
        dimensions_valid(dims),
    ensures
        compact_strides(dims).len() == dims.len(),
        dims.len() > 0 ==> compact_strides(dims).last() == 1,
        forall|i: int|
            0 <= i < dims.len() - 1 ==> {
                let next = compact_strides(dims)[i + 1] * dims[i + 1];
                &&& next <= i64::MAX ==> #[trigger] compact_strides(dims)[i] == next
                &&& next > i64::MAX ==> compact_strides(dims)[i] == 0
            },
{
    assert forall|i: int| 0 <= i < dims.len() - 1 implies {
        let next = compact_strides(dims)[i + 1] * dims[i + 1];
        &&& next <= i64::MAX ==> #[trigger] compact_strides(dims)[i] == next
        &&& next > i64::MAX ==> compact_strides(dims)[i] == 0
    } by {
        lemma_compact_stride_bounds(dims, i);
        lemma_compact_stride_bounds(dims, i + 1);
    }
}

/// The descriptor of a new tensor, before its data is allocated.
pub open spec fn is_prototype(
    tensor: &DLTensor,
    dims: Seq<i64>,
    dtype: DLDataType,
    device: DLDevice,
) -> bool {
    &&& tensor.data == 0
    &&& describes(tensor, dims, dtype, device)
}

/// The descriptor is that of a compact tensor.
pub open spec fn describes(
    tensor: &DLTensor,
    dims: Seq<i64>,
    dtype: DLDataType,
    device: DLDevice,
) -> bool {
    &&& tensor.device == device
    &&& tensor.ndim == dims.len()
    &&& tensor.dtype == dtype
    &&& tensor.shape matches Some(shape) && shape@ == dims
    &&& tensor.strides matches Some(strides) && strides@ == compact_strides(dims)
    &&& tensor.byte_offset == 0
}

/// What validation finds in the descriptor of a compact tensor.
pub proof fn law_compact_descriptor_is_valid(
    tensor: &DLTensor,
    dims: Seq<i64>,
    dtype: DLDataType,
    device: DLDevice,
)
    requires
        constructible(dims, dtype),
        dims.len() <= isize::MAX as int / 8,
        describes(tensor, dims, dtype, device),
    ensures
        tensor.well_formed(),
        tensor.ndim_outcome() == Ok::<usize, ErrorView>(dims.len() as usize),
        tensor.shape_outcome() == Ok::<Seq<i64>, ErrorView>(dims),
        tensor.numel_outcome() == Ok::<usize, ErrorView>(element_count(dims) as usize),
        tensor.contiguous_outcome() == Ok::<bool, ErrorView>(true),
        tensor.dims() == Some(dims),
{
    assert(dims.take(dims.len() as int) =~= dims);
    assert(compact_strides(dims).take(dims.len() as int) =~= compact_strides(dims));
    law_compact_strides_are_row_major(dims, dtype);
    if dims.len() == 0 {
        assert(dims =~= Seq::empty());
    }
}

/// The compact strides of dimensions.
fn row_major_strides(shape: &[i64]) -> (strides: Vec<i64>)
    requires
        dimensions_valid(shape@),
        !has_zero(shape@) ==> element_count(shape@) <= i64::MAX,
    ensures
        strides@ == compact_strides(shape@),
{
    let mut strides: Vec<i64> = vec![0i64; shape.len()];
    let mut stride: i64 = 1;
    let mut index: usize = shape.len();
    while index > 0
        invariant
            index <= shape@.len() == strides@.len(),
            dimensions_valid(shape@),
            stride == compact_stride(shape@, index - 1),
            forall|i: int|
                index <= i < shape@.len() ==> #[trigger] strides@[i] == compact_stride(shape@, i),
        decreases index,
    {
        index = index - 1;
        proof {
            lemma_compact_stride_bounds(shape@, index as int);
            lemma_compact_stride_bounds(shape@, index - 1);
            assert(stride * shape@[index as int] >= 0) by (nonlinear_arith)
                requires
                    stride >= 0,
                    shape@[index as int] >= 0,
            ;
        }
        strides.set(index, stride);
        stride = match stride.checked_mul(shape[index]) {
            Some(next) => next,
            // Tensors without elements do not constrain their strides.
            None => 0,
        };
    }
    assert(strides@ =~= compact_strides(shape@));
    strides
}

impl Tensor {
    /// The descriptor of the tensor.
    pub open spec fn descriptor<A>(&self, store: &TensorStore<A>) -> DLTensor {
        store.payload(self.data.ptr).base.dltensor
    }

    /// The handle leads to a tensor whose metadata can be read.
    pub open spec fn valid<A>(&self, store: &TensorStore<A>) -> bool {
        &&& self.data.ptr != 0
        &&& store.well_formed()
        &&& store.holds(self.data.ptr)
        &&& self.descriptor(store).well_formed()
    }

    fn dltensor<'a, A>(&self, store: &'a TensorStore<A>) -> (tensor: &'a DLTensor)
        requires
            self.valid(store),
        ensures
            *tensor == self.descriptor(store),
    {
        &ObjectArc::deref(&self.data, store).base.dltensor
    }

    /// Creates a tensor whose data the given allocator provides.
    pub fn from_nd_alloc<TNDAlloc: NDAllocator>(
        heap: &mut ObjectHeap,
        store: &mut TensorStore<TNDAlloc>,
        memory: &mut HostMemory,
        alloc: TNDAlloc,
        shape: &[i64],
        dtype: DLDataType,
        device: DLDevice,
    ) -> (tensor: Self)
        requires
            old(heap).well_formed(),
            old(store).well_formed(),
            old(store).linked(old(heap)),
            old(memory).well_formed(),
            constructible(shape@, dtype),
            forall|prototype: DLTensor|
                is_prototype(&prototype, shape@, dtype, device) ==> #[trigger] alloc.can_alloc(
                    old(memory),
                    &prototype,
                ),
            tensor_fits::<TNDAlloc>(old(heap), shape@.len()),
        ensures
            final(memory).well_formed(),
            final(store).linked(final(heap)),
            tensor.valid(final(store)),
            final(heap).alive(tensor.data.ptr),
            final(store).owns_extended(final(heap), tensor.data.ptr),
            ({
                let payload = final(store).payload(tensor.data.ptr);
                &&& describes(&payload.base.dltensor, shape@, dtype, device)
                &&& tensor_allocated(
                    (old(heap), final(heap)),
                    (old(store), final(store)),
                    tensor.data.ptr,
                    payload,
                    shape@,
                )
                &&& data_provided(
                    (alloc, *old(memory)),
                    (payload.alloc, *final(memory)),
                    payload.base.dltensor,
                    shape@,
                )
                &&& payload.alloc.can_free(final(memory))
                &&& element_count(shape@) * item_bytes(dtype) > 0 ==> payload.base.dltensor.data
                    != 0
            }),
    {
        let ghost given = alloc;
        let mut alloc = alloc;
        let ndim: i32 = shape.len() as i32;
        let strides: Vec<i64> = row_major_strides(shape);
        let mut items: Vec<i64> = Vec::new();
        items.extend_from_slice(shape);
        items.extend_from_slice(strides.as_slice());
        let mut dims: Vec<i64> = Vec::new();
        dims.extend_from_slice(shape);
        assert(dims@ =~= shape@);
        let prototype = DLTensor {
            data: 0,
            device,
            ndim,
            dtype,
            shape: Some(dims),
            strides: Some(strides),
            byte_offset: 0,
        };
        let ghost initial = prototype;
        assert(is_prototype(&initial, shape@, dtype, device));
        assert(initial.dims() == Some(shape@)) by {
            assert(shape@.take(shape@.len() as int) =~= shape@);
            if shape@.len() == 0 {
                assert(shape@ =~= Seq::empty());
            }
        }
        let data: usize = alloc.alloc_data(memory, &prototype);
        let dltensor = DLTensor { data, ..prototype };
        let base = TensorObj { object: Object::new(), dltensor };
        let payload = TensorObjFromNDAlloc { base, alloc };
        let arc: ObjectArc<TensorObjFromNDAlloc<TNDAlloc>> = ObjectArc::allocate_extended(
            heap,
            store,
            payload,
        );
        let ptr: usize = ObjectArc::into_raw(arc);
        store.write_extra_items(ptr, items);
        proof {
            let items_count = (shape@.len() * 2) as usize;
            assert(payload.item_count() == items_count);
            assert(items@ =~= shape@ + compact_strides(shape@));
            assert(store@.dom() =~= old(store)@.dom().insert(ptr));
            assert(describes(&dltensor, shape@, dtype, device));
            assert(fresh_header::<TensorObj>(ObjectDeleter::NewWithExtraItems) == fresh_header::<
                TensorObjFromNDAlloc<TNDAlloc>,
            >(ObjectDeleter::NewWithExtraItems));
            assert(tensor_allocated(
                (old(heap), heap),
                (old(store), store),
                ptr,
                payload,
                shape@,
            ));
            assert(TNDAlloc::allocated(
                (given, *old(memory)),
                (payload.alloc, *memory),
                &initial,
                data,
            ));
            assert(is_prototype(&initial, shape@, dltensor.dtype, dltensor.device));
            assert(data_provided(
                (given, *old(memory)),
                (payload.alloc, *memory),
                dltensor,
                shape@,
            ));
        }
        Tensor { data: ObjectArc::from_raw(ptr) }
    }
}

/// The allocator provided the data of the tensor, for its descriptor without
/// data.
pub open spec fn data_provided<A: NDAllocator>(
    before: (A, HostMemory),
    after: (A, HostMemory),
    tensor: DLTensor,
    dims: Seq<i64>,
) -> bool {
    exists|prototype: DLTensor|
        {
            &&& #[trigger] is_prototype(&prototype, dims, tensor.dtype, tensor.device)
            &&& A::allocated(before, after, &prototype, tensor.data)
        }
}

/// There are addresses for a tensor object of this rank.
pub open spec fn tensor_fits<A>(heap: &ObjectHeap, ndim: nat) -> bool {
    let items = (ndim * 2) as usize;
    &&& crate::object::heap::extended_fits::<TensorObjFromNDAlloc<A>, i64>(items)
    &&& heap.has_room(extended_layout::<TensorObjFromNDAlloc<A>, i64>(items))
}

/// A tensor object was allocated, followed by its dimensions and strides.
pub open spec fn tensor_allocated<A>(
    heap: (&ObjectHeap, &ObjectHeap),
    store: (&TensorStore<A>, &TensorStore<A>),
    address: usize,
    payload: TensorObjFromNDAlloc<A>,
    dims: Seq<i64>,
) -> bool {
    let (heap, heap_after) = heap;
    let (store, store_after) = store;
    let layout = extended_layout::<TensorObjFromNDAlloc<A>, i64>((dims.len() * 2) as usize);
    &&& heap_after.well_formed()
    &&& address != 0
    &&& !heap.headers().dom().contains(address)
    &&& heap_after.headers() == heap.headers().insert(
        address,
        fresh_header::<TensorObj>(ObjectDeleter::NewWithExtraItems),
    )
    &&& heap_after.layouts() == heap.layouts().insert(address, layout)
    &&& heap_after.pending() == heap.pending()
    &&& heap_after.room() >= heap.room() - layout.size - layout.align - 1
    &&& store_after@.dom() == store@.dom().insert(address)
    &&& forall|a: usize| #[trigger]
        store@.dom().contains(a) && a != address ==> store_after@[a] == store@[a]
    &&& store_after@[address] matches StoredObject::Live { payload: p, extra_items: Some(items) }
        && p == payload && items@ == dims + compact_strides(dims)
}

//-----------------------------------------------------
// Access
//-----------------------------------------------------
/// The region holds values of type `T`, all in one block.
pub open spec fn region_holds<T: AsDLDataType>(
    memory: &HostMemory,
    start: usize,
    count: usize,
) -> bool {
    let len = count * T::size();
    &&& memory.accessible(start, len)
    &&& exists|values: Seq<T>|
        values.len() == count && #[trigger] encode(values) == memory.bytes_at(start, len)
}

impl Tensor {
    /// The address of the data.
    pub fn data_ptr<A>(&self, store: &TensorStore<A>) -> (address: usize)
        requires
            self.valid(store),
        ensures
            address == self.descriptor(store).data,
    {
        self.dltensor(store).data
    }

    /// The address of the data.
    pub fn data_ptr_mut<A>(&mut self, store: &TensorStore<A>) -> (address: usize)
        requires
            old(self).valid(store),
        ensures
            address == old(self).descriptor(store).data,
            *final(self) == *old(self),
    {
        self.dltensor(store).data
    }

    /// Whether the elements lie in compact row-major order.
    pub fn is_contiguous<A>(&self, store: &TensorStore<A>) -> (contiguous: bool)
        requires
            self.valid(store),
        ensures
            contiguous == (self.descriptor(store).contiguous_outcome() == Ok::<bool, ErrorView>(
                true,
            )),
            self.descriptor(store).numel_outcome() is Ok ==> {
                &&& contiguous ==> self.descriptor(store).is_row_major()
                &&& element_count(self.descriptor(store).leading_dims()) <= i64::MAX
                    ==> contiguous == self.descriptor(store).is_row_major()
            },
    {
        proof {
            if self.descriptor(store).numel_outcome() is Ok {
                law_contiguity_is_row_major_order(&self.descriptor(store));
            }
        }
        match self.dltensor(store).checked_contiguous() {
            Ok(contiguous) => contiguous,
            Err(_) => false,
        }
    }

    /// The elements, read as values of type `T`.
    pub fn data_as_slice_unchecked<T: AsDLDataType, A>(
        &self,
        store: &TensorStore<A>,
        memory: &HostMemory,
    ) -> (result: Result<Vec<T>, Error>)
        requires
            self.valid(store),
            memory.well_formed(),
            self.descriptor(store).data_outcome::<T>() matches Ok((start, count)) ==> region_holds::<
                T,
            >(memory, start, count),
        ensures
            match self.descriptor(store).data_outcome::<T>() {
                Ok((start, count)) => {
                    &&& result matches Ok(values)
                    &&& values@.len() == count
                    &&& encode(values@) == memory.bytes_at(start, count * T::size())
                    &&& forall|expected: Seq<T>|
                        expected.len() == count && #[trigger] encode(expected) == encode(values@)
                            ==> expected == values@
                },
                Err(error) => result matches Err(e) && e@ == error,
            },
    {
        let (start, count): (usize, usize) = match self.dltensor(store).checked_data::<T>() {
            Ok(region) => region,
            Err(error) => return Err(error),
        };
        proof {
            T::size_of_an_element();
            assert forall|a: Seq<T>, b: Seq<T>|
                a.len() == b.len() && #[trigger] encode(a) == #[trigger] encode(b) implies a
                == b by {
                lemma_encode_injective(a, b);
            }
        }
        if count == 0 {
            let values: Vec<T> = Vec::new();
            assert(0 * T::size() == 0);
            assert(values@ =~= Seq::empty());
            return Ok(values);
        }
        let size: usize = T::byte_size();
        assert(count * size > 0) by (nonlinear_arith)
            requires
                count > 0,
                size > 0,
        ;
        let bytes: &[u8] = memory.read(start, count * size);
        Ok(decode_slice(bytes, count))
    }

    /// Overwrites the elements, as many as there are, with the given values.
    pub fn data_as_slice_mut_unchecked<T: AsDLDataType, A>(
        &mut self,
        store: &TensorStore<A>,
        memory: &mut HostMemory,
        values: &[T],
    ) -> (result: Result<(), Error>)
        requires
            old(self).valid(store),
            old(memory).well_formed(),
            old(self).descriptor(store).data_outcome::<T>() matches Ok((start, count)) ==> {
                &&& old(memory).accessible(start, count * T::size())
                &&& values@.len() == count
            },
        ensures
            *final(self) == *old(self),
            final(memory).well_formed(),
            final(memory).layouts() == old(memory).layouts(),
            final(memory).room() == old(memory).room(),
            match old(self).descriptor(store).data_outcome::<T>() {
                Ok((start, count)) => {
                    let len = count * T::size();
                    &&& result is Ok
                    &&& encode(values@).len() == len
                    &&& final(memory)@ == old(memory).written(start, encode(values@))
                    &&& final(memory).accessible(start, len)
                    &&& final(memory).bytes_at(start, len) == encode(values@)
                },
                Err(error) => {
                    &&& result matches Err(e) && e@ == error
                    &&& *final(memory) == *old(memory)
                },
            },
    {
        let (start, count): (usize, usize) = match self.dltensor(store).checked_data::<T>() {
            Ok(region) => region,
            Err(error) => return Err(error),
        };
        proof {
            T::size_of_an_element();
            lemma_encode_len(values@);
        }
        if count == 0 {
            assert(0 * T::size() == 0);
            assert(encode(values@) =~= Seq::empty());
            return Ok(());
        }
        let size: usize = T::byte_size();
        assert(count * size > 0) by (nonlinear_arith)
            requires
                count > 0,
                size > 0,
        ;
        let bytes: Vec<u8> = encode_slice(values);
        memory.write(start, bytes.as_slice());
        Ok(())
    }

    pub fn shape<'a, A>(&self, store: &'a TensorStore<A>) -> (dims: &'a [i64])
        requires
            self.valid(store),
            self.descriptor(store).shape_outcome() is Ok,
        ensures
            self.descriptor(store).shape_outcome() == Ok::<Seq<i64>, ErrorView>(dims@),
    {
        match self.dltensor(store).checked_shape() {
            Ok(dims) => dims,
            Err(_) => vstd::pervasive::unreached(),
        }
    }

    pub fn ndim<A>(&self, store: &TensorStore<A>) -> (ndim: usize)
        requires
            self.valid(store),
            self.descriptor(store).ndim_outcome() is Ok,
        ensures
            self.descriptor(store).ndim_outcome() == Ok::<usize, ErrorView>(ndim),
    {
        match self.dltensor(store).checked_ndim() {
            Ok(ndim) => ndim,
            Err(_) => vstd::pervasive::unreached(),
        }
    }

    pub fn numel<A>(&self, store: &TensorStore<A>) -> (numel: usize)
        requires
            self.valid(store),
            self.descriptor(store).numel_outcome() is Ok,
        ensures
            self.descriptor(store).numel_outcome() == Ok::<usize, ErrorView>(numel),
    {
        match self.dltensor(store).checked_numel() {
            Ok(numel) => numel,
            Err(_) => vstd::pervasive::unreached(),
        }
    }

    /// The explicit strides; none if there are none.
    pub fn strides<'a, A>(&self, store: &'a TensorStore<A>) -> (strides: &'a [i64])
        requires
            self.valid(store),
            self.descriptor(store).strides_outcome() is Ok,
        ensures
            match self.descriptor(store).strides_outcome() {
                Ok(Some(expected)) => strides@ == expected,
                _ => strides@.len() == 0,
            },
    {
        match self.dltensor(store).checked_strides() {
            Ok(Some(strides)) => strides,
            Ok(None) => {
                let empty: &[i64] = &[];
                empty
            },
            Err(_) => vstd::pervasive::unreached(),
        }
    }

    pub fn dtype<A>(&self, store: &TensorStore<A>) -> (dtype: DLDataType)
        requires
            self.valid(store),
        ensures
            dtype == self.descriptor(store).dtype,
    {
        self.dltensor(store).dtype
    }

    pub fn device<A>(&self, store: &TensorStore<A>) -> (device: DLDevice)
        requires
            self.valid(store),
        ensures
            device == self.descriptor(store).device,
    {
        self.dltensor(store).device
    }

    /// Gives up the reference, and frees the data with the last one.
    pub fn drop<A: NDAllocator>(
        self,
        heap: &mut ObjectHeap,
        store: &mut TensorStore<A>,
        memory: &mut HostMemory,
    )
        requires
            old(heap).well_formed(),
            old(store).well_formed(),
            old(memory).well_formed(),
            self.data.ptr != 0 ==> {
                &&& old(heap).alive(self.data.ptr)
                &&& old(store).owns_extended(old(heap), self.data.ptr)
                &&& old(store).payload(self.data.ptr).alloc.can_free(old(memory))
            },
        ensures
            final(memory).well_formed(),
            exists|deleted: Deleted<TensorObjFromNDAlloc<A>>|
                {
                    &&& #[trigger] drop_effect(
                        (old(heap), final(heap)),
                        (old(store), final(store)),
                        self.data.ptr,
                        old(store).payload(self.data.ptr).item_count(),
                        deleted,
                    )
                    &&& match deleted.payload {
                        Some(payload) => payload_dropped(payload, *old(memory), *final(memory)),
                        None => *final(memory) == *old(memory),
                    }
                },
    {
        let ghost ptr = self.data.ptr;
        let deleted = ObjectArc::drop_with_extra_items(self.data, heap, store);
        let ghost effect = deleted;
        match deleted.payload {
            Some(payload) => TensorObjFromNDAlloc::drop_payload(payload, memory),
            None => {},
        }
        assert(drop_effect(
            (old(heap), heap),
            (old(store), store),
            ptr,
            old(store).payload(ptr).item_count(),
            effect,
        ));
    }
}

//-----------------------------------------------------
// Tensors from slices
//-----------------------------------------------------
/// A tensor of these dimensions and this element type fits in host memory.
pub open spec fn cpu_constructible<T: AsDLDataType>(
    heap: &ObjectHeap,
    memory: &HostMemory,
    dims: Seq<i64>,
) -> bool {
    let size = element_count(dims) * item_bytes(T::data_type());
    &&& constructible(dims, T::data_type())
    &&& dims.len() <= isize::MAX as int / 8
    &&& prefix_products_fit(dims)
    &&& layout_fits(size, CPU_MIN_ALIGN as int)
    &&& size > 0 ==> memory.has_room(cpu_layout(size))
    &&& tensor_fits::<CPUNDAlloc>(heap, dims.len())
}

/// Objects, payloads and memory blocks are the same.
pub open spec fn nothing_changed<A>(
    heap: (&ObjectHeap, &ObjectHeap),
    store: (&TensorStore<A>, &TensorStore<A>),
    memory: (&HostMemory, &HostMemory),
) -> bool {
    &&& heap.1.headers() == heap.0.headers()
    &&& heap.1.layouts() == heap.0.layouts()
    &&& heap.1.pending() == heap.0.pending()
    &&& store.1@ == store.0@
    &&& memory.1@ == memory.0@
    &&& memory.1.layouts() == memory.0.layouts()
}

pub open spec fn cpu_device() -> DLDevice {
    DLDevice { device_type: K_DL_CPU, device_id: 0 }
}

/// Giving up the only reference to a tensor that was just made in host memory
/// leaves everything as it was.
pub proof fn law_drop_undoes_construction(
    heap: (&ObjectHeap, &ObjectHeap, &ObjectHeap),
    store: (&TensorStore<CPUNDAlloc>, &TensorStore<CPUNDAlloc>, &TensorStore<CPUNDAlloc>),
    memory: (&HostMemory, &HostMemory, &HostMemory),
    ptr: usize,
    dims: Seq<i64>,
    deleted: Deleted<TensorObjFromNDAlloc<CPUNDAlloc>>,
)
    requires
        heap.0.well_formed(),
        memory.0.well_formed(),
        store.0.linked(heap.0),
        tensor_allocated(
            (heap.0, heap.1),
            (store.0, store.1),
            ptr,
            store.1.payload(ptr),
            dims,
        ),
        data_provided(
            (CPUNDAlloc { allocation: None }, *memory.0),
            (store.1.payload(ptr).alloc, *memory.1),
            store.1.payload(ptr).base.dltensor,
            dims,
        ),
        drop_effect(
            (heap.1, heap.2),
            (store.1, store.2),
            ptr,
            store.1.payload(ptr).item_count(),
            deleted,
        ),
        deleted.payload matches Some(payload) ==> payload_dropped(payload, *memory.1, *memory.2),
    ensures
        nothing_changed((heap.0, heap.2), (store.0, store.2), (memory.0, memory.2)),
{
    heap.0.lemma_null();
    assert(heap.2.headers() =~= heap.0.headers());
    assert(heap.2.layouts() =~= heap.0.layouts());
    assert(store.2@ =~= store.0@);
    let data = store.1.payload(ptr).base.dltensor.data;
    memory.0.lemma_domains();
    assert(memory.0@.insert(data, memory.1@[data]).remove(data) =~= memory.0@.remove(data));
    assert(memory.0.layouts().insert(data, memory.1.layouts()[data]).remove(data)
        =~= memory.0.layouts().remove(data));
    if !memory.0@.dom().contains(data) {
        assert(memory.0@.remove(data) =~= memory.0@);
        assert(memory.0.layouts().remove(data) =~= memory.0.layouts());
    }
}

/// A value of type `T` takes as many bytes in Rust as it does in a tensor.
pub open spec fn size_matches<T: AsDLDataType>() -> bool {
    &&& size_of::<T>() > 0
    &&& size_of::<T>() == item_bytes(T::data_type())
}

/// What validation finds in the descriptor of a new tensor in host memory.
proof fn lemma_fresh_region<T: AsDLDataType>(
    tensor: &DLTensor,
    dims: Seq<i64>,
    memory: &HostMemory,
)
    requires
        constructible(dims, T::data_type()),
        dims.len() <= isize::MAX as int / 8,
        describes(tensor, dims, T::data_type(), cpu_device()),
        layout_fits(element_count(dims) * item_bytes(T::data_type()), CPU_MIN_ALIGN as int),
        element_count(dims) * item_bytes(T::data_type()) > 0 ==> {
            &&& tensor.data != 0
            &&& tensor.data % CPU_MIN_ALIGN == 0
            &&& memory@.dom().contains(tensor.data)
            &&& memory@[tensor.data].len() == element_count(dims) * item_bytes(T::data_type())
        },
        align_of::<T>() > 0,
    ensures
        !size_matches::<T>() ==> tensor.data_outcome::<T>() == Err::<(usize, usize), ErrorView>(
            error_view(TYPE_ERROR, "Rust type size does not match the Tensor dtype"@),
        ),
        size_matches::<T>() ==> match tensor.data_outcome::<T>() {
            Ok((start, count)) => {
                &&& count == element_count(dims)
                &&& memory.accessible(start, count * T::size())
                &&& count > 0 ==> start == tensor.data
            },
            Err(error) => {
                &&& error == error_view(
                    RUNTIME_ERROR,
                    "Tensor data is not aligned for the requested Rust type"@,
                )
                &&& element_count(dims) > 0
                &&& CPU_MIN_ALIGN as int % align_of::<T>() as int != 0
            },
        },
{
    law_compact_descriptor_is_valid(tensor, dims, T::data_type(), cpu_device());
    let (count, size, align) = (
        element_count(dims),
        T::size() as int,
        align_of::<T>() as int,
    );
    T::size_of_an_element();
    if size_matches::<T>() {
        lemma_element_count_non_negative(dims);
        if count > 0 {
            assert(count * size > 0) by (nonlinear_arith)
                requires
                    count > 0,
                    size > 0,
            ;
            assert(memory.covers(tensor.data, tensor.data, count * size));
            if CPU_MIN_ALIGN as int % align == 0 {
                let data = tensor.data as int;
                assert(data % align == 0) by (nonlinear_arith)
                    requires
                        align > 0,
                        64int % align == 0,
                        data % 64 == 0,
                {
                    assert(data == 64 * (data / 64));
                    assert(64 == align * (64int / align));
                    let k = (64int / align) * (data / 64);
                    assert(data == align * k);
                    vstd::arithmetic::div_mod::lemma_mod_multiples_basic(k, align);
                }
            }
        } else {
            assert(count * size == 0) by (nonlinear_arith)
                requires
                    count == 0,
            ;
        }
    }
}

proof fn lemma_element_count_non_negative(dims: Seq<i64>)
    requires
        dimensions_valid(dims),
    ensures
        element_count(dims) >= 0,
{
    if has_zero(dims) {
        let at = choose|i: int| 0 <= i < dims.len() && #[trigger] dims[i] == 0;
        lemma_product_zero(dims, 0, dims.len() as int, at);
    } else {
        lemma_product_positive(dims, 0, dims.len() as int);
    }
}

/// The allocator owns a new block at `data` that holds `bytes`, and nothing else
/// differs. Where there are no bytes, it owns nothing, and the address is never
/// read.
pub open spec fn bytes_stored(
    memory: (&HostMemory, &HostMemory),
    alloc: CPUNDAlloc,
    data: usize,
    bytes: Seq<u8>,
) -> bool {
    let (memory, memory_after) = memory;
    if bytes.len() == 0 {
        &&& data == 1
        &&& alloc.allocation is None
        &&& memory_after@ == memory@
        &&& memory_after.layouts() == memory.layouts()
    } else {
        let layout = cpu_layout(bytes.len() as int);
        &&& data != 0
        &&& data % CPU_MIN_ALIGN == 0
        &&& !memory@.dom().contains(data)
        &&& alloc.allocation == Some(CPUAllocation { address: data, layout })
        &&& memory_after@ == memory@.insert(data, bytes)
        &&& memory_after.layouts() == memory.layouts().insert(data, layout)
    }
}

/// Dropping the last handle to a tensor that was made of values frees its data,
/// and leaves everything as it was.
pub proof fn law_drop_frees_the_values(
    heap: (&ObjectHeap, &ObjectHeap, &ObjectHeap),
    store: (&TensorStore<CPUNDAlloc>, &TensorStore<CPUNDAlloc>, &TensorStore<CPUNDAlloc>),
    memory: (&HostMemory, &HostMemory, &HostMemory),
    ptr: usize,
    dims: Seq<i64>,
    bytes: Seq<u8>,
    deleted: Deleted<TensorObjFromNDAlloc<CPUNDAlloc>>,
)
    requires
        heap.0.well_formed(),
        store.0.linked(heap.0),
        memory.0.well_formed(),
        tensor_allocated(
            (heap.0, heap.1),
            (store.0, store.1),
            ptr,
            store.1.payload(ptr),
            dims,
        ),
        bytes_stored(
            (memory.0, memory.1),
            store.1.payload(ptr).alloc,
            store.1.payload(ptr).base.dltensor.data,
            bytes,
        ),
        drop_effect(
            (heap.1, heap.2),
            (store.1, store.2),
            ptr,
            store.1.payload(ptr).item_count(),
            deleted,
        ),
        deleted.payload matches Some(payload) ==> payload_dropped(payload, *memory.1, *memory.2),
    ensures
        nothing_changed((heap.0, heap.2), (store.0, store.2), (memory.0, memory.2)),
{
    heap.0.lemma_null();
    assert(heap.2.headers() =~= heap.0.headers());
    assert(heap.2.layouts() =~= heap.0.layouts());
    assert(store.2@ =~= store.0@);
    let data = store.1.payload(ptr).base.dltensor.data;
    memory.0.lemma_domains();
    assert(memory.0@.insert(data, bytes).remove(data) =~= memory.0@.remove(data));
    assert(memory.0.layouts().insert(data, memory.1.layouts()[data]).remove(data)
        =~= memory.0.layouts().remove(data));
    if !memory.0@.dom().contains(data) {
        assert(memory.0@.remove(data) =~= memory.0@);
        assert(memory.0.layouts().remove(data) =~= memory.0.layouts());
    }
}

/// Reading a region gives back the values that were written to it.
pub proof fn law_read_returns_what_was_written<T: AsDLDataType>(
    memory: &HostMemory,
    start: usize,
    written: Seq<T>,
    read: Seq<T>,
)
    requires
        written.len() <= usize::MAX,
        memory.accessible(start, (written.len() * T::size()) as int),
        memory.bytes_at(start, (written.len() * T::size()) as int) == encode(written),
        read.len() == written.len(),
        encode(read) == memory.bytes_at(start, (written.len() * T::size()) as int),
    ensures
        region_holds::<T>(memory, start, written.len() as usize),
        read == written,
{
    lemma_encode_injective(read, written);
    assert(encode(written) == memory.bytes_at(start, (written.len() * T::size()) as int));
}

impl Tensor {
    /// Creates a tensor in host memory that holds the given values.
    pub fn from_slice<T: AsDLDataType>(
        heap: &mut ObjectHeap,
        store: &mut TensorStore<CPUNDAlloc>,
        memory: &mut HostMemory,
        slice: &[T],
        shape: &[i64],
    ) -> (result: Result<Self, Error>)
        requires
            old(heap).well_formed(),
            old(store).well_formed(),
            old(store).linked(old(heap)),
            old(memory).well_formed(),
            cpu_constructible::<T>(old(heap), old(memory), shape@),
        ensures
            final(heap).well_formed(),
            final(store).well_formed(),
            final(store).linked(final(heap)),
            final(memory).well_formed(),
            slice@.len() != element_count(shape@) ==> (result matches Err(e) && e@ == error_view(
                VALUE_ERROR,
                "Slice length mismatch"@,
            )),
            slice@.len() == element_count(shape@) && !size_matches::<T>() ==> (result matches Err(
                e,
            ) && e@ == error_view(
                TYPE_ERROR,
                "Rust type size does not match the Tensor dtype"@,
            )),
            slice@.len() == element_count(shape@) && size_matches::<T>() ==> match result {
                Ok(_) => true,
                Err(e) => {
                    &&& e@ == error_view(
                        RUNTIME_ERROR,
                        "Tensor data is not aligned for the requested Rust type"@,
                    )
                    &&& slice@.len() > 0
                    &&& CPU_MIN_ALIGN as int % align_of::<T>() as int != 0
                },
            },
            match result {
                Ok(tensor) => {
                    let payload = final(store).payload(tensor.data.ptr);
                    let dltensor = payload.base.dltensor;
                    &&& tensor.valid(final(store))
                    &&& final(heap).alive(tensor.data.ptr)
                    &&& final(store).owns_extended(final(heap), tensor.data.ptr)
                    &&& tensor_allocated(
                        (old(heap), final(heap)),
                        (old(store), final(store)),
                        tensor.data.ptr,
                        payload,
                        shape@,
                    )
                    &&& describes(&dltensor, shape@, T::data_type(), cpu_device())
                    &&& payload.alloc.can_free(final(memory))
                    &&& bytes_stored(
                        (old(memory), final(memory)),
                        payload.alloc,
                        dltensor.data,
                        encode(slice@),
                    )
                    &&& dltensor.data_outcome::<T>() matches Ok((start, count)) && count
                        == slice@.len() && final(memory).accessible(start, count * T::size())
                        && final(memory).bytes_at(start, count * T::size()) == encode(slice@)
                },
                Err(_) => nothing_changed(
                    (old(heap), final(heap)),
                    (old(store), final(store)),
                    (old(memory), final(memory)),
                ),
            },
    {
        let dtype: DLDataType = T::dl_data_type();
        let device: DLDevice = DLDevice::new(K_DL_CPU, 0);
        let alloc: CPUNDAlloc = CPUNDAlloc { allocation: None };
        proof {
            assert forall|prototype: DLTensor|
                is_prototype(&prototype, shape@, dtype, device) implies #[trigger] alloc.can_alloc(
                old(memory),
                &prototype,
            ) by {
                law_compact_descriptor_is_valid(&prototype, shape@, dtype, device);
            }
        }
        vstd::layout::layout_for_type_is_valid::<T>();
        let mut tensor = Tensor::from_nd_alloc(heap, store, memory, alloc, shape, dtype, device);
        let ghost ptr = tensor.data.ptr;
        let ghost made_heap = *heap;
        let ghost made_store = *store;
        let ghost made_memory = *memory;
        let ghost payload = store.payload(ptr);
        let ghost dltensor = payload.base.dltensor;
        proof {
            T::size_of_an_element();
            law_compact_descriptor_is_valid(&dltensor, shape@, dtype, device);
            let prototype = choose|prototype: DLTensor|
                {
                    &&& #[trigger] is_prototype(&prototype, shape@, dtype, device)
                    &&& CPUNDAlloc::allocated(
                        (alloc, *old(memory)),
                        (payload.alloc, *memory),
                        &prototype,
                        dltensor.data,
                    )
                };
            law_compact_descriptor_is_valid(&prototype, shape@, dtype, device);
            lemma_fresh_region::<T>(&dltensor, shape@, memory);
            lemma_element_count_non_negative(shape@);
        }
        if tensor.numel(store) != slice.len() {
            tensor.drop(heap, store, memory);
            proof {
                let deleted = choose|deleted: Deleted<TensorObjFromNDAlloc<CPUNDAlloc>>|
                    {
                        &&& #[trigger] drop_effect(
                            (&made_heap, heap),
                            (&made_store, store),
                            ptr,
                            made_store.payload(ptr).item_count(),
                            deleted,
                        )
                        &&& match deleted.payload {
                            Some(payload) => payload_dropped(payload, made_memory, *memory),
                            None => *memory == made_memory,
                        }
                    };
                law_drop_undoes_construction(
                    (old(heap), &made_heap, heap),
                    (old(store), &made_store, store),
                    (old(memory), &made_memory, memory),
                    ptr,
                    shape@,
                    deleted,
                );
            }
            return Err(Error::new(VALUE_ERROR, "Slice length mismatch"));
        }
        match tensor.data_as_slice_mut_unchecked::<T, CPUNDAlloc>(store, memory, slice) {
            Ok(()) => {
                proof {
                    let len = (slice@.len() * T::size()) as int;
                    if slice@.len() > 0 {
                        let block = made_memory.block_of(dltensor.data, len);
                        assert(len > 0) by (nonlinear_arith)
                            requires
                                slice@.len() > 0,
                                T::size() > 0,
                                len == slice@.len() * T::size(),
                        ;
                        assert(made_memory.covers(dltensor.data, dltensor.data, len));
                        made_memory.lemma_one_block(block, dltensor.data, dltensor.data, len);
                    }
                    assert(slice@.len() == 0 ==> len == 0) by (nonlinear_arith)
                        requires
                            len == slice@.len() * T::size(),
                    ;
                    assert(encode(slice@).len() == len);
                    if len > 0 {
                        let zeros = made_memory@[dltensor.data];
                        assert(overwritten(zeros, 0, encode(slice@)) =~= encode(slice@));
                        assert(memory@ =~= old(memory)@.insert(dltensor.data, encode(slice@)));
                    }
                    assert(tensor.valid(store));
                    assert(memory.bytes_at(dltensor.data_outcome::<T>()->Ok_0.0, len) == encode(
                        slice@,
                    ));
                }
                Ok(tensor)
            },
            Err(error) => {
                tensor.drop(heap, store, memory);
                proof {
                    let deleted = choose|deleted: Deleted<TensorObjFromNDAlloc<CPUNDAlloc>>|
                        {
                            &&& #[trigger] drop_effect(
                                (&made_heap, heap),
                                (&made_store, store),
                                ptr,
                                made_store.payload(ptr).item_count(),
                                deleted,
                            )
                            &&& match deleted.payload {
                                Some(payload) => payload_dropped(payload, made_memory, *memory),
                                None => *memory == made_memory,
                            }
                        };
                    law_drop_undoes_construction(
                        (old(heap), &made_heap, heap),
                        (old(store), &made_store, store),
                        (old(memory), &made_memory, memory),
                        ptr,
                        shape@,
                        deleted,
                    );
                }
                Err(error)
            },
        }
    }
}

} // verus!
