use std::sync::atomic::{AtomicU32, Ordering};
use std::sync::Arc;

use tvm_ffi::address_map::Layout;
use tvm_ffi::any::{Any, AnyView, TVMFFIAny};
use tvm_ffi::object::arc::ObjectArc;
use tvm_ffi::object::deleter::object_deleter_for_new_with_extra_items;
use tvm_ffi::object::heap::{layout_with_items, ObjectHeap, ObjectStore};
use tvm_ffi::object::refs::{ObjectRef, ObjectRefCore, ObjectRefIdentity};
use tvm_ffi::object::unsafe_::{
    dec_ref, inc_ref, strong_count, weak_count, ObjectDeleter, TVMFFIObject,
    COMBINED_REF_COUNT_BOTH_ONE, COMBINED_REF_COUNT_WEAK_ONE, DELETER_FLAG_BOTH,
    DELETER_FLAG_STRONG, DELETER_FLAG_WEAK,
};
use tvm_ffi::object::{Object, ObjectCore, ObjectCoreWithExtraItems};
use tvm_ffi::type_index::K_TVM_FFI_NONE;
use tvm_ffi::type_table::TypeTable;
use tvm_ffi::type_traits::AnyCompatible;

struct DropCounter(Arc<AtomicU32>);

impl Drop for DropCounter {
    fn drop(&mut self) {
        self.0.fetch_add(1, Ordering::Relaxed);
    }
}

struct TestIntObj {
    #[allow(dead_code)]
    object: Object,
    pub value: i64,
    // counter for recording the number of times the object is deleted
    _delete_counter: DropCounter,
    pub extra_item_count: u64,
}

impl TestIntObj {
    pub fn new(value: i64, delete_counter: Arc<AtomicU32>, extra_item_count: u64) -> Self {
        Self {
            object: Object::new(),
            value,
            _delete_counter: DropCounter(delete_counter),
            extra_item_count,
        }
    }
}

impl ObjectCore for TestIntObj {
    fn type_key() -> &'static str {
        Object::type_key()
    }

    fn type_depth() -> i32 {
        Object::type_depth()
    }

    fn type_final() -> bool {
        Object::type_final()
    }

    fn type_index_static() -> bool {
        Object::type_index_static()
    }

    fn type_index() -> i32 {
        Object::type_index()
    }
}

impl ObjectCoreWithExtraItems for TestIntObj {
    type ExtraItem = u64;

    fn extra_items_count(this: &Self) -> usize {
        this.extra_item_count as usize
    }
}

type Store = ObjectStore<TestIntObj, u64>;

#[test]
fn test_object_arc() {
    let mut heap = ObjectHeap::new();
    let mut store = Store::new();
    let delete_counter = Arc::new(AtomicU32::new(0));
    let obj_arc = ObjectArc::new(
        &mut heap,
        &mut store,
        TestIntObj::new(11, delete_counter.clone(), 0),
    );
    assert_eq!(ObjectArc::deref(&obj_arc, &store).value, 11);
    assert_eq!(ObjectArc::strong_count(&obj_arc, &heap), 1);
    assert_eq!(ObjectArc::weak_count(&obj_arc, &heap), 1);

    let ref1 = ObjectArc::clone(&obj_arc, &mut heap);
    assert_eq!(ObjectArc::strong_count(&obj_arc, &heap), 2);
    assert_eq!(ObjectArc::weak_count(&obj_arc, &heap), 1);

    let ref2 = ObjectArc::clone(&obj_arc, &mut heap);
    assert_eq!(ObjectArc::strong_count(&obj_arc, &heap), 3);
    assert_eq!(ObjectArc::weak_count(&obj_arc, &heap), 1);
    assert_eq!(ObjectArc::deref(&ref1, &store).value, 11);
    // drop obj_arc
    drop(ObjectArc::drop(obj_arc, &mut heap, &mut store));
    assert_eq!(ObjectArc::strong_count(&ref1, &heap), 2);
    assert_eq!(ObjectArc::weak_count(&ref1, &heap), 1);
    assert_eq!(delete_counter.load(Ordering::Relaxed), 0);
    // drop ref1
    drop(ObjectArc::drop(ref1, &mut heap, &mut store));
    assert_eq!(ObjectArc::strong_count(&ref2, &heap), 1);
    assert_eq!(ObjectArc::weak_count(&ref2, &heap), 1);
    assert_eq!(delete_counter.load(Ordering::Relaxed), 0);
    // drop ref2
    drop(ObjectArc::drop(ref2, &mut heap, &mut store));
    assert_eq!(delete_counter.load(Ordering::Relaxed), 1);
}

#[test]
fn test_object_arc_with_extra_items() {
    let mut heap = ObjectHeap::new();
    let mut store = Store::new();
    let delete_counter = Arc::new(AtomicU32::new(0));
    let mut obj_arc = ObjectArc::new_with_extra_items(
        &mut heap,
        &mut store,
        TestIntObj::new(12, delete_counter.clone(), 10),
    );
    assert_eq!(ObjectArc::deref(&obj_arc, &store).value, 12);
    assert_eq!(ObjectArc::strong_count(&obj_arc, &heap), 1);
    assert_eq!(ObjectArc::weak_count(&obj_arc, &heap), 1);
    assert_eq!(delete_counter.load(Ordering::Relaxed), 0);
    let address = ObjectArc::as_raw_mut(&mut obj_arc);
    assert_eq!(
        TestIntObj::extra_items_count(ObjectArc::deref(&obj_arc, &store)),
        10
    );
    store.write_extra_items(address, (0_u64..10).collect());
    assert_eq!(store.extra_items(address).len(), 10);
    assert_eq!(
        store.extra_items(address),
        (0_u64..10).collect::<Vec<_>>()
    );
    let deleted = ObjectArc::drop_with_extra_items(obj_arc, &mut heap, &mut store);
    // The items follow the object, and go with it.
    assert_eq!(
        deleted.memory,
        Some(Layout {
            size: std::mem::size_of::<TestIntObj>() + 80,
            align: std::mem::align_of::<TestIntObj>(),
        })
    );
    drop(deleted);
    assert_eq!(delete_counter.load(Ordering::Relaxed), 1);
}

#[test]
fn test_extra_item_allocation_survives_two_phase_weak_destruction() {
    let mut heap = ObjectHeap::new();
    let mut store = Store::new();
    let delete_counter = Arc::new(AtomicU32::new(0));
    let object = ObjectArc::new_with_extra_items(
        &mut heap,
        &mut store,
        TestIntObj::new(12, delete_counter.clone(), 2),
    );
    let address = ObjectArc::as_raw(&object);
    store.write_extra_items(address, vec![0, 1]);

    // Native code makes a weak reference.
    let mut header = heap.header(address).unwrap();
    header.combined_ref_count += COMBINED_REF_COUNT_WEAK_ONE;
    heap.set_header(address, header);
    assert_eq!(ObjectArc::strong_count(&object, &heap), 1);
    assert_eq!(ObjectArc::weak_count(&object, &heap), 2);

    let deleted = ObjectArc::drop_with_extra_items(object, &mut heap, &mut store);
    assert!(deleted.payload.is_some());
    assert_eq!(deleted.memory, None);
    drop(deleted);
    assert_eq!(delete_counter.load(Ordering::Relaxed), 1);
    // The weak reference has expired, and is the only one left.
    let header = heap.header(address).unwrap();
    assert_eq!(strong_count(&header), 0);
    assert_eq!(weak_count(&header), 1);

    // Native code releases it.
    let deleted = object_deleter_for_new_with_extra_items(
        &mut heap,
        &mut store,
        address,
        DELETER_FLAG_WEAK,
    );
    assert!(deleted.payload.is_none());
    assert_eq!(
        deleted.memory,
        layout_with_items::<TestIntObj, u64>(2)
    );
    assert!(heap.header(address).is_none());
    assert_eq!(delete_counter.load(Ordering::Relaxed), 1);
}

#[test]
fn test_object_arc_from_raw() {
    let mut heap = ObjectHeap::new();
    let mut store = Store::new();
    let delete_counter = Arc::new(AtomicU32::new(0));
    let obj_arc = ObjectArc::new(
        &mut heap,
        &mut store,
        TestIntObj::new(11, delete_counter.clone(), 0),
    );
    let raw_ptr = ObjectArc::into_raw(obj_arc);
    let obj_arc2 = ObjectArc::<TestIntObj>::from_raw(raw_ptr);
    assert_eq!(ObjectArc::deref(&obj_arc2, &store).value, 11);
    assert_eq!(ObjectArc::strong_count(&obj_arc2, &heap), 1);
    assert_eq!(ObjectArc::weak_count(&obj_arc2, &heap), 1);
    assert_eq!(delete_counter.load(Ordering::Relaxed), 0);
    // drop obj_arc2
    drop(ObjectArc::drop(obj_arc2, &mut heap, &mut store));
    assert_eq!(delete_counter.load(Ordering::Relaxed), 1);
}

#[test]
fn test_object_arc_nullable_representation() {
    let mut heap = ObjectHeap::new();
    let mut store = Store::new();
    assert_eq!(
        std::mem::size_of::<ObjectArc<TestIntObj>>(),
        std::mem::size_of::<usize>()
    );

    let null_arc = ObjectArc::<TestIntObj>::from_raw(0);
    assert!(ObjectArc::is_null(&null_arc));
    assert_eq!(ObjectArc::strong_count(&null_arc, &heap), 0);
    assert_eq!(ObjectArc::weak_count(&null_arc, &heap), 0);
    let null_clone = ObjectArc::clone(&null_arc, &mut heap);
    assert!(ObjectArc::is_null(&null_clone));
    let deleted = ObjectArc::drop(null_arc, &mut heap, &mut store);
    assert!(deleted.payload.is_none() && deleted.memory.is_none());
    let deleted = ObjectArc::drop(null_clone, &mut heap, &mut store);
    assert!(deleted.payload.is_none() && deleted.memory.is_none());

    let types = TypeTable {
        types: Vec::new(),
        columns: Vec::new(),
    };
    let null_ref = ObjectRef::from_data(ObjectArc::<Object>::from_raw(0));
    assert!(null_ref.is_null());
    assert!(!null_ref.is_defined());
    let null_view = AnyView {
        data: ObjectRef::copy_to_any_view(&null_ref, &heap),
    };
    let null_any = Any {
        data: ObjectRef::move_to_any(null_ref.share(&mut heap), &heap),
    };
    assert_eq!(null_any.type_index(), K_TVM_FFI_NONE);
    assert!(
        ObjectRef::try_cast_from_any_view(&null_view.data, &types, &mut heap).is_err()
    );

    let mut objects: ObjectStore<Object, ()> = ObjectStore::new();
    let defined_ref =
        ObjectRef::from_data(ObjectArc::new(&mut heap, &mut objects, Object::new()));
    assert!(!defined_ref.is_null());
    assert!(defined_ref.is_defined());
    let shared = defined_ref.share(&mut heap);
    assert!(defined_ref.same_as(&shared));
    let other_ref = ObjectRef::from_data(ObjectArc::new(&mut heap, &mut objects, Object::new()));
    assert!(!defined_ref.same_as(&other_ref));
}

fn header(count: u64) -> TVMFFIObject {
    TVMFFIObject {
        combined_ref_count: count,
        type_index: 64,
        deleter: Some(ObjectDeleter::New),
    }
}

#[test]
fn releases_call_the_deleter_with_the_flags_of_their_phase() {
    let mut last = header(COMBINED_REF_COUNT_BOTH_ONE);
    assert_eq!(dec_ref(&mut last), vec![DELETER_FLAG_BOTH]);

    let mut weak_left = header(COMBINED_REF_COUNT_BOTH_ONE + COMBINED_REF_COUNT_WEAK_ONE);
    assert_eq!(dec_ref(&mut weak_left), vec![DELETER_FLAG_STRONG]);
    assert_eq!(weak_left.combined_ref_count, COMBINED_REF_COUNT_WEAK_ONE);

    let mut shared = header(COMBINED_REF_COUNT_BOTH_ONE);
    inc_ref(&mut shared);
    assert_eq!(strong_count(&shared), 2);
    assert_eq!(dec_ref(&mut shared), Vec::<i32>::new());
    assert_eq!(shared, header(COMBINED_REF_COUNT_BOTH_ONE));

    let mut undeletable = header(COMBINED_REF_COUNT_BOTH_ONE);
    undeletable.deleter = None;
    assert_eq!(dec_ref(&mut undeletable), Vec::<i32>::new());
}

#[test]
fn counts_saturate_their_halves_without_touching_each_other() {
    let mut full = header(u32::MAX as u64 - 1 | 5 << 32);
    inc_ref(&mut full);
    assert_eq!(full.combined_ref_count, u32::MAX as u64 | 5 << 32);
    assert_eq!(strong_count(&full), u32::MAX as usize);
    assert_eq!(weak_count(&full), 5);
}

#[test]
fn erased_releases_leave_the_deleter_calls_pending() {
    let mut heap = ObjectHeap::new();
    let mut store: ObjectStore<Object, ()> = ObjectStore::new();
    let object = ObjectRef::from_data(ObjectArc::new(&mut heap, &mut store, Object::new()));
    let address = object.data.ptr;
    let shared = object.share(&mut heap);
    heap.release(address);
    assert_eq!(heap.next_pending(), None);
    let any = Any {
        data: ObjectRef::move_to_any(shared, &heap),
    };
    assert_eq!(any.data, TVMFFIAny::from_object(64, address));
    any.drop(&mut heap);
    assert_eq!(heap.next_pending(), Some((address, DELETER_FLAG_BOTH)));
    assert_eq!(heap.next_pending(), None);
}

#[test]
fn layouts_that_overflow_are_refused() {
    assert!(layout_with_items::<TestIntObj, u64>(usize::MAX).is_none());
    assert!(layout_with_items::<TestIntObj, u64>(isize::MAX as usize / 8).is_none());
    assert_eq!(Layout::from_size_align(isize::MAX as usize, 64), None);
    assert_eq!(
        Layout::from_size_align(isize::MAX as usize - 63, 64),
        Some(Layout {
            size: isize::MAX as usize - 63,
            align: 64
        })
    );
}
