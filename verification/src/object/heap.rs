//! Where objects live: their headers, and their payloads by type.

use crate::address_map::{AddressMap, AddressSpace, Layout};
use crate::object::unsafe_::{
    dec_ref, deleter_calls, law_release_counts_down, owned, released, strong, weak, ObjectDeleter,
    TVMFFIObject, DELETER_FLAG_BOTH, DELETER_FLAG_STRONG,
};
use crate::object::ObjectCoreWithExtraItems;
use vstd::layout::{align_of, layout_for_type_is_valid, size_of};
use vstd::prelude::*;

verus! {

/// The headers of all objects, of whatever type.
pub struct ObjectHeap {
    space: AddressSpace,
    headers: AddressMap<TVMFFIObject>,
    pending: Vec<(usize, i32)>,
}

impl ObjectHeap {
    /// The header at each address.
    pub closed spec fn headers(&self) -> Map<usize, TVMFFIObject> {
        self.headers@
    }

    /// The layout that each object was allocated with.
    pub closed spec fn layouts(&self) -> Map<usize, Layout> {
        self.space@
    }

    /// Deleter calls that are yet to be made: the object and the flags.
    pub closed spec fn pending(&self) -> Seq<(usize, i32)> {
        self.pending@
    }

    /// The number of addresses that have not been handed out.
    pub closed spec fn room(&self) -> int {
        self.space.room()
    }

    pub open spec fn has_room(&self, layout: Layout) -> bool {
        layout.size + layout.align <= self.room()
    }

    pub closed spec fn well_formed(&self) -> bool {
        &&& self.space.well_formed()
        &&& self.headers.well_formed()
        &&& self.headers@.dom() == self.space@.dom()
        &&& !self.headers@.dom().contains(0)
    }

    /// A strong reference to the object at this address exists.
    pub open spec fn alive(&self, address: usize) -> bool {
        &&& self.headers().dom().contains(address)
        &&& owned(self.headers()[address].combined_ref_count)
    }

    /// One more strong reference to the object can be counted.
    pub open spec fn shareable(&self, address: usize) -> bool {
        &&& self.alive(address)
        &&& strong(self.headers()[address].combined_ref_count) < u32::MAX
    }

    /// Nothing but the header at `address` differs, which is now `header`.
    pub open spec fn updated(
        &self,
        before: &ObjectHeap,
        address: usize,
        header: TVMFFIObject,
    ) -> bool {
        &&& self.well_formed()
        &&& self.headers() == before.headers().insert(address, header)
        &&& self.layouts() == before.layouts()
        &&& self.pending() == before.pending()
        &&& self.room() == before.room()
    }

    pub proof fn lemma_null(&self)
        requires
            self.well_formed(),
        ensures
            !self.headers().dom().contains(0),
            self.headers().dom() == self.layouts().dom(),
    {
    }

    pub fn new() -> (heap: ObjectHeap)
        ensures
            heap.well_formed(),
            heap.headers() == Map::<usize, TVMFFIObject>::empty(),
            heap.pending() == Seq::<(usize, i32)>::empty(),
            heap.room() == usize::MAX - 1,
    {
        ObjectHeap { space: AddressSpace::new(), headers: AddressMap::new(), pending: Vec::new() }
    }

    /// Whether there are addresses left for an object of this layout.
    pub fn can_allocate(&self, layout: Layout) -> (room: bool)
        ensures
            room == self.has_room(layout),
    {
        self.space.can_allocate(layout)
    }

    /// Allocates an object with the given header.
    pub fn allocate(&mut self, layout: Layout, header: TVMFFIObject) -> (address: usize)
        requires
            old(self).well_formed(),
            layout.fits(),
            old(self).has_room(layout),
        ensures
            final(self).well_formed(),
            address != 0,
            address % layout.align == 0,
            address + layout.size <= usize::MAX,
            !old(self).headers().dom().contains(address),
            final(self).headers() == old(self).headers().insert(address, header),
            final(self).layouts() == old(self).layouts().insert(address, layout),
            final(self).pending() == old(self).pending(),
            final(self).room() >= old(self).room() - layout.size - layout.align - 1,
    {
        let address: usize = self.space.allocate(layout);
        self.headers.insert(address, header);
        assert(self.headers@.dom() =~= self.space@.dom());
        address
    }

    /// Releases an object's memory, under the layout that it was allocated with.
    pub fn deallocate(&mut self, address: usize, layout: Layout)
        requires
            old(self).well_formed(),
            old(self).headers().dom().contains(address),
            old(self).layouts()[address] == layout,
        ensures
            final(self).well_formed(),
            final(self).headers() == old(self).headers().remove(address),
            final(self).layouts() == old(self).layouts().remove(address),
            final(self).pending() == old(self).pending(),
            final(self).room() == old(self).room(),
    {
        self.space.deallocate(address, layout);
        let _ = self.headers.remove(address);
        assert(self.headers@.dom() =~= self.space@.dom());
    }

    /// The header at an address.
    pub fn header(&self, address: usize) -> (header: Option<TVMFFIObject>)
        requires
            self.well_formed(),
        ensures
            match header {
                Some(header) => self.headers().dom().contains(address) && header
                    == self.headers()[address],
                None => !self.headers().dom().contains(address),
            },
    {
        match self.headers.get(address) {
            Some(header) => Some(*header),
            None => None,
        }
    }

    /// Overwrites the header at an address.
    pub fn set_header(&mut self, address: usize, header: TVMFFIObject)
        requires
            old(self).well_formed(),
            old(self).headers().dom().contains(address),
        ensures
            final(self).updated(old(self), address, header),
    {
        let _ = self.headers.replace(address, header);
        assert(self.headers@.dom() =~= self.space@.dom());
    }
}

/// One strong reference to the object at `address` was given up, and the
/// deleter calls that this entails are pending; null counts nothing.
pub open spec fn given_up(before: &ObjectHeap, after: &ObjectHeap, address: usize) -> bool {
    let header = before.headers()[address];
    let count = header.combined_ref_count;
    &&& after.well_formed()
    &&& after.layouts() == before.layouts()
    &&& after.room() == before.room()
    &&& if address == 0 {
        &&& after.headers() == before.headers()
        &&& after.pending() == before.pending()
    } else {
        &&& after.headers() == before.headers().insert(
            address,
            TVMFFIObject { combined_ref_count: released(count), ..header },
        )
        &&& after.pending() == before.pending() + (if header.deleter is None {
            Seq::empty()
        } else {
            deleter_calls(count)
        }).map_values(|flags: i32| (address, flags))
    }
}

impl ObjectHeap {
    /// Gives up a strong reference to an object of unknown type.
    ///
    /// The deleter calls that this entails are left for whoever holds the
    /// payload.
    pub fn release(&mut self, address: usize)
        requires
            old(self).well_formed(),
            address != 0 ==> old(self).alive(address),
        ensures
            given_up(old(self), final(self), address),
    {
        if address == 0 {
            return;
        }
        if let Some(mut header) = self.header(address) {
            let calls: Vec<i32> = dec_ref(&mut header);
            self.set_header(address, header);
            let ghost before = self.pending@;
            let ghost headers = self.headers;
            let ghost space = self.space;
            let mut i: usize = 0;
            while i < calls.len()
                invariant
                    i <= calls@.len(),
                    self.headers == headers,
                    self.space == space,
                    self.pending@ == before + calls@.take(i as int).map_values(
                        |flags: i32| (address, flags),
                    ),
                decreases calls@.len() - i,
            {
                self.pending.push((address, calls[i]));
                i = i + 1;
                assert(self.pending@ =~= before + calls@.take(i as int).map_values(
                    |flags: i32| (address, flags),
                ));
            }
            assert(calls@.take(i as int) =~= calls@);
        }
    }

    /// Takes the earliest pending deleter call out.
    pub fn next_pending(&mut self) -> (call: Option<(usize, i32)>)
        requires
            old(self).well_formed(),
        ensures
            final(self).well_formed(),
            final(self).headers() == old(self).headers(),
            final(self).layouts() == old(self).layouts(),
            final(self).room() == old(self).room(),
            match call {
                Some(call) => old(self).pending() == seq![call] + final(self).pending(),
                None => old(self).pending().len() == 0 && final(self).pending() == old(
                    self,
                ).pending(),
            },
    {
        if self.pending.len() == 0 {
            return None;
        }
        let call: (usize, i32) = self.pending.remove(0);
        assert(old(self).pending() =~= seq![call] + self.pending());
        Some(call)
    }
}

/// An object of payload type `P` with extra items of type `U`.
pub enum StoredObject<P, U> {
    /// The payload exists. The extra items are `None` until they are written.
    Live { payload: P, extra_items: Option<Vec<U>> },
    /// The payload is gone, and weak references remain.
    Retired { extra_items_count: usize },
}

/// The payloads of the objects of one type.
pub struct ObjectStore<P, U> {
    objects: AddressMap<StoredObject<P, U>>,
}

impl<P, U> View for ObjectStore<P, U> {
    type V = Map<usize, StoredObject<P, U>>;

    closed spec fn view(&self) -> Map<usize, StoredObject<P, U>> {
        self.objects@
    }
}

/// The layout of a payload without extra items.
pub open spec fn payload_layout<P>() -> Layout {
    Layout { size: size_of::<P>() as usize, align: align_of::<P>() as usize }
}

/// The size of a payload that `count` extra items follow.
pub open spec fn extended_size<P, U>(count: int) -> int {
    size_of::<P>() + count * size_of::<U>()
}

/// The layout of a payload that `count` extra items follow.
pub open spec fn extended_layout<P, U>(count: usize) -> Layout {
    Layout { size: extended_size::<P, U>(count as int) as usize, align: align_of::<P>() as usize }
}

/// A payload that `count` extra items follow can be allocated.
pub open spec fn extended_fits<P, U>(count: usize) -> bool {
    extended_size::<P, U>(count as int) <= isize::MAX - isize::MAX as int % align_of::<P>() as int
}

impl<P, U> ObjectStore<P, U> {
    pub closed spec fn well_formed(&self) -> bool {
        self.objects.well_formed()
    }

    pub open spec fn holds(&self, address: usize) -> bool {
        self@.dom().contains(address) && self@[address] is Live
    }

    pub open spec fn payload(&self, address: usize) -> P {
        self@[address]->payload
    }

    /// The object at `address` was allocated here, without extra items.
    pub open spec fn owns(&self, heap: &ObjectHeap, address: usize) -> bool {
        &&& self.holds(address)
        &&& heap.headers()[address].deleter == Some(ObjectDeleter::New)
        &&& heap.layouts()[address] == payload_layout::<P>()
    }

    /// Every object here has a header.
    pub open spec fn linked(&self, heap: &ObjectHeap) -> bool {
        self@.dom().subset_of(heap.headers().dom())
    }

    pub fn new() -> (store: ObjectStore<P, U>)
        ensures
            store.well_formed(),
            store@ == Map::<usize, StoredObject<P, U>>::empty(),
    {
        ObjectStore { objects: AddressMap::new() }
    }

    /// The payload of an object.
    pub fn get(&self, address: usize) -> (payload: &P)
        requires
            self.well_formed(),
            self.holds(address),
        ensures
            *payload == self.payload(address),
    {
        match self.objects.get(address) {
            Some(StoredObject::Live { payload, .. }) => payload,
            _ => vstd::pervasive::unreached(),
        }
    }

    /// Overwrites the payload of an object.
    pub fn set(&mut self, address: usize, payload: P) -> (previous: P)
        requires
            old(self).well_formed(),
            old(self).holds(address),
        ensures
            final(self).well_formed(),
            final(self)@ == old(self)@.insert(
                address,
                StoredObject::Live { payload, extra_items: old(self)@[address]->extra_items },
            ),
            previous == old(self).payload(address),
    {
        match self.objects.remove(address) {
            Some(StoredObject::Live { payload: previous, extra_items }) => {
                let ghost without = self.objects@;
                self.objects.insert(address, StoredObject::Live { payload, extra_items });
                assert(self@ =~= old(self)@.insert(
                    address,
                    StoredObject::Live { payload, extra_items },
                ));
                previous
            },
            _ => vstd::pervasive::unreached(),
        }
    }

    pub(crate) fn insert(&mut self, address: usize, payload: P)
        requires
            old(self).well_formed(),
            !old(self)@.dom().contains(address),
        ensures
            final(self).well_formed(),
            final(self)@ == old(self)@.insert(
                address,
                StoredObject::Live { payload, extra_items: None },
            ),
    {
        self.objects.insert(address, StoredObject::Live { payload, extra_items: None });
    }

    /// Takes the payload out, and notes how many extra items followed it.
    pub(crate) fn retire(&mut self, address: usize, extra_items_count: usize) -> (payload: P)
        requires
            old(self).well_formed(),
            old(self).holds(address),
        ensures
            final(self).well_formed(),
            final(self)@ == old(self)@.insert(
                address,
                StoredObject::Retired { extra_items_count },
            ),
            payload == old(self).payload(address),
    {
        match self.objects.replace(address, StoredObject::Retired { extra_items_count }) {
            StoredObject::Live { payload, .. } => payload,
            _ => vstd::pervasive::unreached(),
        }
    }

    /// The number of extra items noted for an object whose payload is gone.
    pub(crate) fn retired(&self, address: usize) -> (count: usize)
        requires
            self.well_formed(),
            self@.dom().contains(address),
            self@[address] is Retired,
        ensures
            count == self@[address]->extra_items_count,
    {
        match self.objects.get(address) {
            Some(StoredObject::Retired { extra_items_count }) => *extra_items_count,
            _ => vstd::pervasive::unreached(),
        }
    }

    pub(crate) fn forget(&mut self, address: usize)
        requires
            old(self).well_formed(),
        ensures
            final(self).well_formed(),
            final(self)@ == old(self)@.remove(address),
    {
        let _ = self.objects.remove(address);
    }
}

impl<P: ObjectCoreWithExtraItems<ExtraItem = U>, U> ObjectStore<P, U> {
    /// The object at `address` was allocated here, with extra items.
    pub open spec fn owns_extended(&self, heap: &ObjectHeap, address: usize) -> bool {
        &&& self.holds(address)
        &&& heap.headers()[address].deleter == Some(ObjectDeleter::NewWithExtraItems)
        &&& self.payload(address).countable()
        &&& self.sized(heap, address, self.payload(address).item_count())
    }

    /// The object at `address` has the layout of one that `count` items follow.
    pub open spec fn sized(&self, heap: &ObjectHeap, address: usize, count: usize) -> bool {
        &&& extended_size::<P, U>(count as int) <= usize::MAX
        &&& heap.layouts()[address] == extended_layout::<P, U>(count)
        &&& heap.layouts()[address].fits()
    }

    /// Writes the extra items of an object.
    pub fn write_extra_items(&mut self, address: usize, items: Vec<U>)
        requires
            old(self).well_formed(),
            old(self).holds(address),
            items@.len() == old(self).payload(address).item_count(),
        ensures
            final(self).well_formed(),
            final(self)@ == old(self)@.insert(
                address,
                StoredObject::Live {
                    payload: old(self).payload(address),
                    extra_items: Some(items),
                },
            ),
    {
        match self.objects.remove(address) {
            Some(StoredObject::Live { payload, .. }) => {
                self.objects.insert(
                    address,
                    StoredObject::Live { payload, extra_items: Some(items) },
                );
                assert(self@ =~= old(self)@.insert(
                    address,
                    StoredObject::Live { payload, extra_items: Some(items) },
                ));
            },
            _ => vstd::pervasive::unreached(),
        }
    }

    /// The extra items of an object, once they are written.
    pub fn extra_items(&self, address: usize) -> (items: &[U])
        requires
            self.well_formed(),
            self.holds(address),
            self@[address]->extra_items is Some,
        ensures
            items@ == self@[address]->extra_items->0@,
    {
        match self.objects.get(address) {
            Some(StoredObject::Live { extra_items: Some(items), .. }) => items.as_slice(),
            _ => vstd::pervasive::unreached(),
        }
    }
}

/// The layout of a payload of type `P`.
pub fn layout_of<P>() -> (layout: Layout)
    ensures
        layout == payload_layout::<P>(),
        layout.fits(),
{
    layout_for_type_is_valid::<P>();
    Layout { size: core::mem::size_of::<P>(), align: core::mem::align_of::<P>() }
}

/// The layout of a payload of type `P` that `count` items of type `U` follow.
pub fn layout_with_items<P, U>(count: usize) -> (layout: Option<Layout>)
    ensures
        match layout {
            Some(layout) => {
                &&& extended_size::<P, U>(count as int) <= usize::MAX
                &&& layout == extended_layout::<P, U>(count)
                &&& layout.fits()
            },
            None => !extended_fits::<P, U>(count),
        },
{
    layout_for_type_is_valid::<P>();
    let size: usize = core::mem::size_of::<P>();
    let item_size: usize = core::mem::size_of::<U>();
    let items_size: usize = match count.checked_mul(item_size) {
        Some(items_size) => items_size,
        None => return None,
    };
    match size.checked_add(items_size) {
        Some(total) => Layout::from_size_align(total, core::mem::align_of::<P>()),
        None => None,
    }
}

/// Giving up a reference takes one from the strong count of that object and touches no
/// other. The deleter is called for exactly if it was the last.
pub proof fn law_giving_up_counts_down(before: &ObjectHeap, after: &ObjectHeap, address: usize)
    requires
        given_up(before, after, address),
        address != 0 ==> before.alive(address),
    ensures
        forall|other: usize|
            other != address && #[trigger] before.headers().dom().contains(other)
                ==> after.headers().dom().contains(other) && after.headers()[other]
                == before.headers()[other],
        address == 0 ==> after.headers() == before.headers() && after.pending()
            == before.pending(),
        address != 0 ==> {
            let (header, left) = (before.headers()[address], after.headers()[address]);
            let count = header.combined_ref_count;
            &&& strong(left.combined_ref_count) == strong(count) - 1
            &&& left.type_index == header.type_index
            &&& left.deleter == header.deleter
            &&& strong(count) > 1 || header.deleter is None ==> after.pending() == before.pending()
            &&& strong(count) == 1 && header.deleter is Some ==> after.pending()
                == before.pending().push(
                (
                    address,
                    if weak(count) == 1 {
                        DELETER_FLAG_BOTH
                    } else {
                        DELETER_FLAG_STRONG
                    },
                ),
            )
        },
{
    if address != 0 {
        let count = before.headers()[address].combined_ref_count;
        law_release_counts_down(count);
        assert(after.pending() =~= if strong(count) > 1 || before.headers()[address].deleter
            is None {
            before.pending()
        } else {
            before.pending().push((address, deleter_calls(count)[0]))
        });
    }
}

/// Without extra items there is room for the payload alone, and every further item
/// takes its own size, behind the payload.
pub proof fn law_items_follow_the_payload<P, U>(count: usize)
    requires
        count < usize::MAX,
        extended_size::<P, U>(count + 1) <= usize::MAX,
    ensures
        extended_layout::<P, U>(0) == payload_layout::<P>(),
        extended_layout::<P, U>((count + 1) as usize).size == extended_layout::<P, U>(count).size
            + size_of::<U>(),
        extended_layout::<P, U>(count).align == payload_layout::<P>().align,
{
    let (n, size) = (count as int, size_of::<U>() as int);
    assert((n + 1) * size == n * size + size && 0 * size == 0 && n * size >= 0) by (nonlinear_arith)
        requires
            n >= 0,
            size >= 0,
    ;
}

} // verus!
