//! Destruction of objects, in one go or in two phases.

use crate::address_map::Layout;
use crate::object::heap::{
    layout_of, layout_with_items, payload_layout, ObjectHeap, ObjectStore,
    StoredObject,
};
use crate::object::unsafe_::{DELETER_FLAG_BOTH, DELETER_FLAG_STRONG, DELETER_FLAG_WEAK};
use crate::object::ObjectCoreWithExtraItems;
use vstd::prelude::*;

verus! {

/// What a deleter call took away: the payload, the memory, or both.
pub struct Deleted<P> {
    pub payload: Option<P>,
    pub memory: Option<Layout>,
}

impl<P> Deleted<P> {
    pub open spec fn nothing() -> Deleted<P> {
        Deleted { payload: None, memory: None }
    }
}

pub open spec fn destroys_payload(flags: i32) -> bool {
    flags == DELETER_FLAG_STRONG || flags == DELETER_FLAG_BOTH
}

pub open spec fn releases_memory(flags: i32) -> bool {
    flags == DELETER_FLAG_WEAK || flags == DELETER_FLAG_BOTH
}

/// The state of an object fits the deleter call that is made on it.
pub open spec fn deletable<P, U>(
    heap: &ObjectHeap,
    store: &ObjectStore<P, U>,
    address: usize,
    flags: i32,
) -> bool {
    &&& heap.headers().dom().contains(address)
    &&& store@.dom().contains(address)
    &&& destroys_payload(flags) || releases_memory(flags)
    &&& destroys_payload(flags) <==> store@[address] is Live
}

/// What a deleter call on the object at `address` changes and returns.
pub open spec fn deletion<P, U>(
    heap: (&ObjectHeap, &ObjectHeap),
    store: (&ObjectStore<P, U>, &ObjectStore<P, U>),
    address: usize,
    flags: i32,
    retired: usize,
    deleted: Deleted<P>,
) -> bool {
    let (heap, heap_after) = heap;
    let (store, store_after) = store;
    &&& heap_after.well_formed()
    &&& store_after.well_formed()
    &&& heap_after.pending() == heap.pending()
    &&& heap_after.room() == heap.room()
    &&& deleted.payload == (if destroys_payload(flags) {
        Some(store.payload(address))
    } else {
        None
    })
    &&& if releases_memory(flags) {
        &&& deleted.memory == Some(heap.layouts()[address])
        &&& heap_after.headers() == heap.headers().remove(address)
        &&& heap_after.layouts() == heap.layouts().remove(address)
        &&& store_after@ == store@.remove(address)
    } else {
        &&& deleted.memory is None
        &&& heap_after.headers() == heap.headers()
        &&& heap_after.layouts() == heap.layouts()
        &&& store_after@ == store@.insert(
            address,
            StoredObject::Retired { extra_items_count: retired },
        )
    }
}

/// Deleter of objects without extra items.
pub fn object_deleter_for_new<P, U>(
    heap: &mut ObjectHeap,
    store: &mut ObjectStore<P, U>,
    address: usize,
    flags: i32,
) -> (deleted: Deleted<P>)
    requires
        old(heap).well_formed(),
        old(store).well_formed(),
        deletable(old(heap), old(store), address, flags),
        old(heap).layouts()[address] == payload_layout::<P>(),
    ensures
        deletion(
            (old(heap), final(heap)),
            (old(store), final(store)),
            address,
            flags,
            0,
            deleted,
        ),
{
    assert(1i32 & 1i32 == 1i32 && 2i32 & 1i32 == 0i32 && 3i32 & 1i32 == 1i32) by (bit_vector);
    assert(1i32 & 2i32 == 0i32 && 2i32 & 2i32 == 2i32 && 3i32 & 2i32 == 2i32) by (bit_vector);
    let mut deleted: Deleted<P> = Deleted { payload: None, memory: None };
    if flags & DELETER_FLAG_STRONG != 0 {
        deleted.payload = Some(store.retire(address, 0));
    }
    if flags & DELETER_FLAG_WEAK != 0 {
        let layout: Layout = layout_of::<P>();
        heap.deallocate(address, layout);
        store.forget(address);
        deleted.memory = Some(layout);
        assert(store@ =~= old(store)@.remove(address));
    }
    deleted
}

/// Deleter of objects with extra items.
///
/// The memory is released under the layout that follows from the number of
/// extra items. Where it outlives the payload, that number is kept for it.
pub fn object_deleter_for_new_with_extra_items<P, U>(
    heap: &mut ObjectHeap,
    store: &mut ObjectStore<P, U>,
    address: usize,
    flags: i32,
) -> (deleted: Deleted<P>) where P: ObjectCoreWithExtraItems<ExtraItem = U>
    requires
        old(heap).well_formed(),
        old(store).well_formed(),
        deletable(old(heap), old(store), address, flags),
        old(store)@[address] is Live ==> old(store).payload(address).countable(),
        old(store).sized(
            old(heap),
            address,
            match old(store)@[address] {
                StoredObject::Live { payload, .. } => payload.item_count(),
                StoredObject::Retired { extra_items_count } => extra_items_count,
            },
        ),
    ensures
        deletion(
            (old(heap), final(heap)),
            (old(store), final(store)),
            address,
            flags,
            old(store).payload(address).item_count(),
            deleted,
        ),
{
    assert(1i32 & 1i32 == 1i32 && 2i32 & 1i32 == 0i32 && 3i32 & 1i32 == 1i32) by (bit_vector);
    assert(1i32 & 2i32 == 0i32 && 2i32 & 2i32 == 2i32 && 3i32 & 2i32 == 2i32) by (bit_vector);
    let mut deleted: Deleted<P> = Deleted { payload: None, memory: None };
    if flags & DELETER_FLAG_STRONG != 0 {
        let extra_items_count: usize = P::extra_items_count(store.get(address));
        deleted.payload = Some(store.retire(address, extra_items_count));
    }
    if flags & DELETER_FLAG_WEAK != 0 {
        let extra_items_count: usize = store.retired(address);
        vstd::layout::layout_for_type_is_valid::<P>();
        if let Some(layout) = layout_with_items::<P, U>(extra_items_count) {
            heap.deallocate(address, layout);
            store.forget(address);
            deleted.memory = Some(layout);
            assert(store@ =~= old(store)@.remove(address));
        }
    }
    deleted
}

/// Destroying the payload first and releasing the memory later comes to the same as
/// doing both at once.
pub proof fn law_two_phases_come_to_one<P, U>(
    heap: (&ObjectHeap, &ObjectHeap, &ObjectHeap),
    store: (&ObjectStore<P, U>, &ObjectStore<P, U>, &ObjectStore<P, U>),
    at_once: (&ObjectHeap, &ObjectStore<P, U>),
    address: usize,
    retired: (usize, usize, usize),
    deleted: (Deleted<P>, Deleted<P>, Deleted<P>),
)
    requires
        deletion(
            (heap.0, heap.1),
            (store.0, store.1),
            address,
            DELETER_FLAG_STRONG,
            retired.0,
            deleted.0,
        ),
        deletion(
            (heap.1, heap.2),
            (store.1, store.2),
            address,
            DELETER_FLAG_WEAK,
            retired.1,
            deleted.1,
        ),
        deletion(
            (heap.0, at_once.0),
            (store.0, at_once.1),
            address,
            DELETER_FLAG_BOTH,
            retired.2,
            deleted.2,
        ),
    ensures
        heap.2.headers() == at_once.0.headers(),
        heap.2.layouts() == at_once.0.layouts(),
        store.2@ == at_once.1@,
        deleted.2.payload == deleted.0.payload,
        deleted.2.memory == deleted.1.memory,
        deleted.0.payload == Some(store.0.payload(address)),
        deleted.0.memory is None,
        deleted.1.payload is None,
        deleted.1.memory == Some(heap.0.layouts()[address]),
{
    assert(store.2@ =~= at_once.1@);
}

/// A deleter call concerns its own object and no other.
pub proof fn law_deletion_spares_other_objects<P, U>(
    heap: (&ObjectHeap, &ObjectHeap),
    store: (&ObjectStore<P, U>, &ObjectStore<P, U>),
    address: usize,
    flags: i32,
    retired: usize,
    deleted: Deleted<P>,
    other: usize,
)
    requires
        deletion(heap, store, address, flags, retired, deleted),
        other != address,
    ensures
        heap.1.headers().dom().contains(other) == heap.0.headers().dom().contains(other),
        heap.0.headers().dom().contains(other) ==> heap.1.headers()[other]
            == heap.0.headers()[other],
        store.1@.dom().contains(other) == store.0@.dom().contains(other),
        store.0@.dom().contains(other) ==> store.1@[other] == store.0@[other],
{
}

} // verus!
