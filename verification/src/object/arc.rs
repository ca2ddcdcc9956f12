//! Shared ownership of objects.

use crate::address_map::Layout;
use crate::object::deleter::{
    object_deleter_for_new, object_deleter_for_new_with_extra_items, Deleted,
};
use crate::object::heap::{
    extended_fits, extended_layout, layout_of, layout_with_items, payload_layout, ObjectHeap,
    ObjectStore, StoredObject,
};
use crate::object::unsafe_::{
    combined, dec_ref, inc_ref, law_release_counts_down,
    law_release_undoes_acquire, released, strong, strong_count, weak,
    weak_count, ObjectDeleter, TVMFFIObject, COMBINED_REF_COUNT_BOTH_ONE, DELETER_FLAG_BOTH,
    DELETER_FLAG_STRONG,
};
use crate::object::{ObjectCore, ObjectCoreWithExtraItems};
use core::marker::PhantomData;
use vstd::layout::{align_of, size_of};
use vstd::prelude::*;

verus! {

/// A shared handle to an object, or null.
///
/// Cloning and dropping null are no-ops. `T` is the type as which the object is
/// seen; its payload may be of a subtype.
pub struct ObjectArc<T: ObjectCore> {
    pub ptr: usize,
    pub phantom: PhantomData<T>,
}

/// The header of an object that was just allocated.
pub open spec fn fresh_header<T: ObjectCore>(deleter: ObjectDeleter) -> TVMFFIObject {
    TVMFFIObject {
        combined_ref_count: COMBINED_REF_COUNT_BOTH_ONE,
        type_index: T::index(),
        deleter: Some(deleter),
    }
}

/// What the allocation of an object at `address` changes.
pub open spec fn allocation<T, U>(
    heap: (&ObjectHeap, &ObjectHeap),
    store: (&ObjectStore<T, U>, &ObjectStore<T, U>),
    address: usize,
    data: T,
    header: TVMFFIObject,
    layout: Layout,
) -> bool {
    let (heap, heap_after) = heap;
    let (store, store_after) = store;
    &&& heap_after.well_formed()
    &&& store_after.well_formed()
    &&& address != 0
    &&& address % layout.align == 0
    &&& !heap.headers().dom().contains(address)
    &&& heap_after.headers() == heap.headers().insert(address, header)
    &&& heap_after.layouts() == heap.layouts().insert(address, layout)
    &&& heap_after.pending() == heap.pending()
    &&& heap_after.room() >= heap.room() - layout.size - layout.align - 1
    &&& store_after@ == store@.insert(
        address,
        StoredObject::Live { payload: data, extra_items: None },
    )
}

/// What dropping a handle changes and returns.
pub open spec fn drop_effect<P, U>(
    heap: (&ObjectHeap, &ObjectHeap),
    store: (&ObjectStore<P, U>, &ObjectStore<P, U>),
    ptr: usize,
    retired: usize,
    deleted: Deleted<P>,
) -> bool {
    let (heap, heap_after) = heap;
    let (store, store_after) = store;
    let header = heap.headers()[ptr];
    let count = header.combined_ref_count;
    &&& heap_after.well_formed()
    &&& store_after.well_formed()
    &&& heap_after.pending() == heap.pending()
    &&& heap_after.room() == heap.room()
    &&& if ptr == 0 {
        // Null owns nothing.
        &&& heap_after.headers() == heap.headers()
        &&& heap_after.layouts() == heap.layouts()
        &&& store_after@ == store@
        &&& deleted == Deleted::<P>::nothing()
    } else if strong(count) == 1 && weak(count) == 1 {
        // The last reference takes the payload and the memory with it.
        &&& heap_after.headers() == heap.headers().remove(ptr)
        &&& heap_after.layouts() == heap.layouts().remove(ptr)
        &&& store_after@ == store@.remove(ptr)
        &&& deleted == (Deleted {
            payload: Some(store.payload(ptr)),
            memory: Some(heap.layouts()[ptr]),
        })
    } else {
        &&& heap_after.headers() == heap.headers().insert(
            ptr,
            TVMFFIObject { combined_ref_count: released(count), ..header },
        )
        &&& heap_after.layouts() == heap.layouts()
        &&& if strong(count) == 1 {
            // Weak references keep the memory.
            &&& store_after@ == store@.insert(
                ptr,
                StoredObject::Retired { extra_items_count: retired },
            )
            &&& deleted == (Deleted { payload: Some(store.payload(ptr)), memory: None })
        } else {
            &&& store_after@ == store@
            &&& deleted == Deleted::<P>::nothing()
        }
    }
}

impl<T: ObjectCore> ObjectArc<T> {
    /// Whether two handles point to the same allocation.
    pub fn ptr_eq<O: ObjectCore>(this: &Self, other: &ObjectArc<O>) -> (same: bool)
        ensures
            same == (this.ptr == other.ptr),
    {
        this.ptr == other.ptr
    }

    /// Moves a value into a new object.
    pub fn new<U>(
        heap: &mut ObjectHeap,
        store: &mut ObjectStore<T, U>,
        data: T,
    ) -> (arc: Self)
        requires
            old(heap).well_formed(),
            old(store).well_formed(),
            old(store).linked(old(heap)),
            old(heap).has_room(payload_layout::<T>()),
        ensures
            allocation(
                (old(heap), final(heap)),
                (old(store), final(store)),
                arc.ptr,
                data,
                fresh_header::<T>(ObjectDeleter::New),
                payload_layout::<T>(),
            ),
            final(store).linked(final(heap)),
            final(store).owns(final(heap), arc.ptr),
            final(heap).alive(arc.ptr),
    {
        let layout: Layout = layout_of::<T>();
        let ptr: usize = heap.allocate(
            layout,
            TVMFFIObject {
                combined_ref_count: COMBINED_REF_COUNT_BOTH_ONE,
                type_index: T::type_index(),
                deleter: Some(ObjectDeleter::New),
            },
        );
        store.insert(ptr, data);
        ObjectArc { ptr, phantom: PhantomData }
    }

    /// Moves a value into a new object that is followed by its extra items.
    ///
    /// The extra items are yet to be written.
    pub fn new_with_extra_items<U>(
        heap: &mut ObjectHeap,
        store: &mut ObjectStore<T, U>,
        data: T,
    ) -> (arc: Self) where T: ObjectCoreWithExtraItems<ExtraItem = U>
        requires
            old(heap).well_formed(),
            old(store).well_formed(),
            old(store).linked(old(heap)),
            align_of::<T>() % align_of::<U>() == 0,
            size_of::<T>() % align_of::<U>() == 0,
            data.countable(),
            extended_fits::<T, U>(data.item_count()),
            old(heap).has_room(extended_layout::<T, U>(data.item_count())),
        ensures
            allocation(
                (old(heap), final(heap)),
                (old(store), final(store)),
                arc.ptr,
                data,
                fresh_header::<T>(ObjectDeleter::NewWithExtraItems),
                extended_layout::<T, U>(data.item_count()),
            ),
            final(store).linked(final(heap)),
            final(store).owns_extended(final(heap), arc.ptr),
            final(heap).alive(arc.ptr),
    {
        Self::allocate_extended(heap, store, data)
    }

    /// Moves a value into a new object, whatever the alignment of its items.
    pub(crate) fn allocate_extended<U>(
        heap: &mut ObjectHeap,
        store: &mut ObjectStore<T, U>,
        data: T,
    ) -> (arc: Self) where T: ObjectCoreWithExtraItems<ExtraItem = U>
        requires
            old(heap).well_formed(),
            old(store).well_formed(),
            old(store).linked(old(heap)),
            data.countable(),
            extended_fits::<T, U>(data.item_count()),
            old(heap).has_room(extended_layout::<T, U>(data.item_count())),
        ensures
            allocation(
                (old(heap), final(heap)),
                (old(store), final(store)),
                arc.ptr,
                data,
                fresh_header::<T>(ObjectDeleter::NewWithExtraItems),
                extended_layout::<T, U>(data.item_count()),
            ),
            final(store).linked(final(heap)),
            final(store).owns_extended(final(heap), arc.ptr),
            final(heap).alive(arc.ptr),
    {
        let extra_items_count: usize = T::extra_items_count(&data);
        match layout_with_items::<T, U>(extra_items_count) {
            Some(layout) => {
                let ptr: usize = heap.allocate(
                    layout,
                    TVMFFIObject {
                        combined_ref_count: COMBINED_REF_COUNT_BOTH_ONE,
                        type_index: T::type_index(),
                        deleter: Some(ObjectDeleter::NewWithExtraItems),
                    },
                );
                store.insert(ptr, data);
                ObjectArc { ptr, phantom: PhantomData }
            },
            None => vstd::pervasive::unreached(),
        }
    }

    /// Takes over the reference that a raw pointer owns.
    pub fn from_raw(ptr: usize) -> (arc: Self)
        ensures
            arc.ptr == ptr,
    {
        ObjectArc { ptr, phantom: PhantomData }
    }

    /// Gives the reference away as a raw pointer.
    pub fn into_raw(this: Self) -> (ptr: usize)
        ensures
            ptr == this.ptr,
    {
        this.ptr
    }

    /// The raw pointer, which owns nothing.
    pub fn as_raw(this: &Self) -> (ptr: usize)
        ensures
            ptr == this.ptr,
    {
        this.ptr
    }

    /// The raw pointer, which owns nothing.
    pub fn as_raw_mut(this: &mut Self) -> (ptr: usize)
        ensures
            ptr == old(this).ptr,
            *final(this) == *old(this),
    {
        this.ptr
    }

    pub fn is_null(this: &Self) -> (null: bool)
        ensures
            null == (this.ptr == 0),
    {
        this.ptr == 0
    }

    /// The number of strong references to the object.
    pub fn strong_count(this: &Self, heap: &ObjectHeap) -> (count: usize)
        requires
            heap.well_formed(),
            this.ptr != 0 ==> heap.headers().dom().contains(this.ptr),
        ensures
            count == (if this.ptr == 0 {
                0
            } else {
                strong(heap.headers()[this.ptr].combined_ref_count)
            }),
    {
        if this.ptr == 0 {
            return 0;
        }
        match heap.header(this.ptr) {
            Some(header) => strong_count(&header),
            None => 0,
        }
    }

    /// The number of weak references to the object.
    pub fn weak_count(this: &Self, heap: &ObjectHeap) -> (count: usize)
        requires
            heap.well_formed(),
            this.ptr != 0 ==> heap.headers().dom().contains(this.ptr),
        ensures
            count == (if this.ptr == 0 {
                0
            } else {
                weak(heap.headers()[this.ptr].combined_ref_count)
            }),
    {
        if this.ptr == 0 {
            return 0;
        }
        match heap.header(this.ptr) {
            Some(header) => weak_count(&header),
            None => 0,
        }
    }

    /// The payload of the object.
    pub fn deref<'a, P, U>(this: &Self, store: &'a ObjectStore<P, U>) -> (payload: &'a P)
        requires
            this.ptr != 0,
            store.well_formed(),
            store.holds(this.ptr),
        ensures
            *payload == store.payload(this.ptr),
    {
        store.get(this.ptr)
    }

    /// Takes one more reference to the object.
    pub fn clone(this: &Self, heap: &mut ObjectHeap) -> (arc: Self)
        requires
            old(heap).well_formed(),
            this.ptr != 0 ==> old(heap).shareable(this.ptr),
        ensures
            arc.ptr == this.ptr,
            acquired(old(heap), final(heap), this.ptr),
    {
        if this.ptr != 0 {
            if let Some(mut header) = heap.header(this.ptr) {
                inc_ref(&mut header);
                heap.set_header(this.ptr, header);
            }
        }
        ObjectArc { ptr: this.ptr, phantom: PhantomData }
    }

    /// Gives up the reference to an object without extra items.
    ///
    /// The payload is handed out for destruction when the last strong reference
    /// goes.
    pub fn drop<P, U>(
        this: Self,
        heap: &mut ObjectHeap,
        store: &mut ObjectStore<P, U>,
    ) -> (deleted: Deleted<P>)
        requires
            old(heap).well_formed(),
            old(store).well_formed(),
            this.ptr != 0 ==> old(heap).alive(this.ptr) && old(store).owns(old(heap), this.ptr),
        ensures
            drop_effect((old(heap), final(heap)), (old(store), final(store)), this.ptr, 0, deleted),
    {
        if this.ptr == 0 {
            return Deleted { payload: None, memory: None };
        }
        match heap.header(this.ptr) {
            Some(mut header) => {
                let calls = dec_ref(&mut header);
                heap.set_header(this.ptr, header);
                if calls.len() == 0 {
                    return Deleted { payload: None, memory: None };
                }
                let deleted = object_deleter_for_new(heap, store, this.ptr, calls[0]);
                proof {
                    lemma_after_call(
                        old(heap).headers(),
                        this.ptr,
                        header,
                        old(heap).headers()[this.ptr].combined_ref_count,
                    );
                }
                deleted
            },
            None => vstd::pervasive::unreached(),
        }
    }

    /// Gives up the reference to an object with extra items.
    pub fn drop_with_extra_items<P, U>(
        this: Self,
        heap: &mut ObjectHeap,
        store: &mut ObjectStore<P, U>,
    ) -> (deleted: Deleted<P>) where P: ObjectCoreWithExtraItems<ExtraItem = U>
        requires
            old(heap).well_formed(),
            old(store).well_formed(),
            this.ptr != 0 ==> old(heap).alive(this.ptr) && old(store).owns_extended(
                old(heap),
                this.ptr,
            ),
        ensures
            drop_effect(
                (old(heap), final(heap)),
                (old(store), final(store)),
                this.ptr,
                old(store).payload(this.ptr).item_count(),
                deleted,
            ),
    {
        if this.ptr == 0 {
            return Deleted { payload: None, memory: None };
        }
        match heap.header(this.ptr) {
            Some(mut header) => {
                let calls = dec_ref(&mut header);
                heap.set_header(this.ptr, header);
                if calls.len() == 0 {
                    return Deleted { payload: None, memory: None };
                }
                let deleted = object_deleter_for_new_with_extra_items(
                    heap,
                    store,
                    this.ptr,
                    calls[0],
                );
                proof {
                    lemma_after_call(
                        old(heap).headers(),
                        this.ptr,
                        header,
                        old(heap).headers()[this.ptr].combined_ref_count,
                    );
                }
                deleted
            },
            None => vstd::pervasive::unreached(),
        }
    }
}

/// One more strong reference to the object at `ptr` is counted; null counts
/// nothing.
pub open spec fn acquired(before: &ObjectHeap, after: &ObjectHeap, ptr: usize) -> bool {
    let header = before.headers()[ptr];
    let count = header.combined_ref_count;
    &&& after.well_formed()
    &&& after.layouts() == before.layouts()
    &&& after.pending() == before.pending()
    &&& after.room() == before.room()
    &&& after.headers() == (if ptr == 0 {
        before.headers()
    } else {
        before.headers().insert(
            ptr,
            TVMFFIObject {
                combined_ref_count: combined(strong(count) + 1, weak(count)),
                ..header
            },
        )
    })
}

/// Dropping a handle right after it was cloned leaves everything as it was.
pub proof fn law_drop_undoes_clone<P, U>(
    heap: &ObjectHeap,
    shared: &ObjectHeap,
    after: &ObjectHeap,
    store: (&ObjectStore<P, U>, &ObjectStore<P, U>),
    ptr: usize,
    retired: usize,
    deleted: Deleted<P>,
)
    requires
        ptr != 0 ==> heap.shareable(ptr),
        acquired(heap, shared, ptr),
        drop_effect((shared, after), store, ptr, retired, deleted),
    ensures
        after.headers() == heap.headers(),
        after.layouts() == heap.layouts(),
        store.1@ == store.0@,
        deleted == Deleted::<P>::nothing(),
{
    if ptr != 0 {
        law_release_undoes_acquire(heap.headers()[ptr].combined_ref_count);
        assert(after.headers() =~= heap.headers());
    }
}

proof fn lemma_after_call(
    headers: Map<usize, TVMFFIObject>,
    ptr: usize,
    header: TVMFFIObject,
    count: u64,
)
    ensures
        headers.insert(ptr, header).remove(ptr) == headers.remove(ptr),
        seq![DELETER_FLAG_BOTH][0] == DELETER_FLAG_BOTH,
        seq![DELETER_FLAG_STRONG][0] == DELETER_FLAG_STRONG,
{
    assert(headers.insert(ptr, header).remove(ptr) =~= headers.remove(ptr));
}

/// Taking a reference adds one to the strong count of that object, and changes
/// nothing else.
pub proof fn law_sharing_counts_up(before: &ObjectHeap, after: &ObjectHeap, ptr: usize)
    requires
        acquired(before, after, ptr),
        ptr != 0 ==> before.shareable(ptr),
    ensures
        forall|other: usize|
            other != ptr && #[trigger] before.headers().dom().contains(other)
                ==> after.headers().dom().contains(other) && after.headers()[other]
                == before.headers()[other],
        ptr == 0 ==> after.headers() == before.headers(),
        ptr != 0 ==> {
            let (header, taken) = (before.headers()[ptr], after.headers()[ptr]);
            &&& strong(taken.combined_ref_count) == strong(header.combined_ref_count) + 1
            &&& weak(taken.combined_ref_count) == weak(header.combined_ref_count)
            &&& taken.type_index == header.type_index
            &&& taken.deleter == header.deleter
        },
{
    if ptr != 0 {
        crate::object::unsafe_::lemma_counts(before.headers()[ptr].combined_ref_count);
    }
}

/// Dropping a handle hands the payload out exactly if it was the last strong reference,
/// and the memory exactly if no weak reference is left either. Every other object, its
/// payload and its count stay as they are.
pub proof fn law_drop_deletes_with_the_last_reference<P, U>(
    heap: (&ObjectHeap, &ObjectHeap),
    store: (&ObjectStore<P, U>, &ObjectStore<P, U>),
    ptr: usize,
    retired: usize,
    deleted: Deleted<P>,
)
    requires
        drop_effect(heap, store, ptr, retired, deleted),
        ptr != 0 ==> heap.0.alive(ptr),
    ensures
        ({
            let count = heap.0.headers()[ptr].combined_ref_count;
            &&& deleted.payload is Some <==> ptr != 0 && strong(count) == 1
            &&& deleted.payload is Some ==> deleted.payload == Some(store.0.payload(ptr))
            &&& deleted.memory is Some <==> ptr != 0 && strong(count) == 1 && weak(count) == 1
            &&& deleted.memory is Some ==> deleted.memory == Some(heap.0.layouts()[ptr])
            &&& deleted.memory is Some ==> !heap.1.headers().dom().contains(ptr)
            &&& ptr != 0 && deleted.memory is None ==> strong(
                heap.1.headers()[ptr].combined_ref_count,
            ) == strong(count) - 1
        }),
        forall|other: usize|
            other != ptr && #[trigger] heap.0.headers().dom().contains(other)
                ==> heap.1.headers().dom().contains(other) && heap.1.headers()[other]
                == heap.0.headers()[other],
        forall|other: usize|
            other != ptr && #[trigger] store.0@.dom().contains(other) ==> store.1@.dom().contains(
                other,
            ) && store.1@[other] == store.0@[other],
{
    if ptr != 0 {
        law_release_counts_down(heap.0.headers()[ptr].combined_ref_count);
    }
}

/// A new object has one strong reference, is of its own type, and holds what it was
/// given. Every other object stays as it is.
pub proof fn law_new_object_is_owned_once<T: ObjectCore, U>(
    heap: (&ObjectHeap, &ObjectHeap),
    store: (&ObjectStore<T, U>, &ObjectStore<T, U>),
    address: usize,
    data: T,
    deleter: ObjectDeleter,
    layout: Layout,
)
    requires
        allocation(heap, store, address, data, fresh_header::<T>(deleter), layout),
    ensures
        address != 0,
        address as int % layout.align as int == 0,
        strong(heap.1.headers()[address].combined_ref_count) == 1,
        weak(heap.1.headers()[address].combined_ref_count) == 1,
        heap.1.headers()[address].type_index == T::index(),
        heap.1.layouts()[address] == layout,
        store.1.payload(address) == data,
        forall|other: usize| #[trigger]
            heap.0.headers().dom().contains(other) ==> other != address
                && heap.1.headers().dom().contains(other) && heap.1.headers()[other]
                == heap.0.headers()[other],
        forall|other: usize|
            other != address && #[trigger] store.0@.dom().contains(other)
                ==> store.1@.dom().contains(other) && store.1@[other] == store.0@[other],
{
}

} // verus!
