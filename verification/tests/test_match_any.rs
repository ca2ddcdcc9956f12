use std::any::TypeId;

use tvm_ffi::any::{AnyView, TVMFFIAny};
use tvm_ffi::collections::tensor::Tensor;
use tvm_ffi::extra::module::{Module, ModuleObj};
use tvm_ffi::match_any::{DenseDispatch, ExactDispatchPlan, PatternListMetadata, PatternListProbe};
use tvm_ffi::match_any_internal::{
    ArmId, LeafLookupTable, LeafPatternMetadata, LeafPatternProbe, PatternConversion,
    PatternConversionProbe,
};
use tvm_ffi::object::arc::ObjectArc;
use tvm_ffi::object::heap::{ObjectHeap, ObjectStore};
use tvm_ffi::object::refs::ObjectRefCore;
use tvm_ffi::type_index::{K_TVM_FFI_MODULE, K_TVM_FFI_STATIC_OBJECT_BEGIN};
use tvm_ffi::type_table::TypeTable;
use tvm_ffi::type_traits::AnyCompatible;

#[test]
fn dense_plan_uses_base_and_preserves_source_order() {
    let pattern_list_id = TypeId::of::<(i32, i64, f32)>();
    let plan = ExactDispatchPlan::build(pattern_list_id, &[73, 73, 75]);

    assert_eq!(plan.lookup(pattern_list_id, 73), Ok(Some(0)));
    assert_eq!(plan.lookup(pattern_list_id, 74), Ok(None));
    assert_eq!(plan.lookup(pattern_list_id, 75), Ok(Some(2)));
    assert_eq!(plan.lookup(pattern_list_id, 72), Ok(None));
}

#[test]
fn sparse_or_different_pattern_lists_use_ordered_dispatch() {
    let pattern_list_id = TypeId::of::<(i32, i64)>();
    let sparse = ExactDispatchPlan::build(pattern_list_id, &[73, 75]);
    let dense = ExactDispatchPlan::build(pattern_list_id, &[73, 74]);

    assert_eq!(sparse.lookup(pattern_list_id, 73), Err(()));
    assert_eq!(dense.lookup(TypeId::of::<(u8, u16)>(), 73), Err(()));
}

#[test]
fn metadata_only_accepts_exact_object_patterns() {
    type Exact = (Module, ());
    let exact = PatternListProbe::<Exact>::new();
    let mut type_indices = [0; 1];
    assert!(exact.pattern_list_id().is_some());
    exact.fill_exact_type_indices(&mut type_indices);
    assert!(type_indices[0] >= K_TVM_FFI_STATIC_OBJECT_BEGIN);

    type NonFinal = (Tensor, ());
    let non_final = PatternListProbe::<NonFinal>::new();
    assert!(non_final.pattern_list_id().is_none());
}

#[test]
fn a_pattern_list_is_identified_by_its_type() {
    type One = (Module, ());
    type Two = (Module, One);
    let one = PatternListProbe::<One>::new();
    let two = PatternListProbe::<Two>::new();
    assert_eq!(one.pattern_list_id(), Some(TypeId::of::<One>()));
    assert_eq!(two.pattern_list_id(), Some(TypeId::of::<Two>()));
    assert_eq!(
        LeafPatternProbe::<One>::new().leaf_pattern_list_id(),
        Some(TypeId::of::<One>())
    );

    let plan = ExactDispatchPlan::build(two.pattern_list_id().unwrap(), &[73, 73]);
    assert_eq!(plan.lookup(two.pattern_list_id().unwrap(), 73), Ok(Some(0)));
    assert_eq!(plan.lookup(one.pattern_list_id().unwrap(), 73), Err(()));
}

#[test]
fn lookup_table_maps_runtime_indices_to_local_arm_ids() {
    const ARM_0: ArmId = 0;
    const ARM_2: ArmId = 2;
    let pattern_list_id = TypeId::of::<(i32, i64, f32)>();
    let object_begin = K_TVM_FFI_STATIC_OBJECT_BEGIN;
    let table = LeafLookupTable::build(
        pattern_list_id,
        [object_begin, object_begin, object_begin + 2],
    );

    assert_eq!(table.lookup(pattern_list_id, object_begin), Ok(Some(ARM_0)));
    assert_eq!(table.lookup(pattern_list_id, object_begin + 1), Ok(None));
    assert_eq!(
        table.lookup(pattern_list_id, object_begin + 2),
        Ok(Some(ARM_2))
    );
    assert_eq!(
        table.lookup(TypeId::of::<(u8, u16)>(), object_begin),
        Err(())
    );
}

#[test]
fn metadata_only_accepts_exact_leaf_patterns() {
    type Leaf = (Module, ());
    let leaf = LeafPatternProbe::<Leaf>::new();
    let mut type_indices = [0; 1];
    assert!(leaf.leaf_pattern_list_id().is_some());
    leaf.fill_leaf_type_indices(&mut type_indices);
    assert!(type_indices[0] >= K_TVM_FFI_STATIC_OBJECT_BEGIN);

    type NonFinal = (Tensor, ());
    let non_final = LeafPatternProbe::<NonFinal>::new();
    assert!(non_final.leaf_pattern_list_id().is_none());

    struct NoAnyCompatibleMetadata;
    type Custom = (NoAnyCompatibleMetadata, ());
    let custom = LeafPatternProbe::<Custom>::new();
    assert!((&custom).leaf_pattern_list_id().is_none());
}

#[test]
fn types_without_an_exact_index_are_matched_in_order() {
    let scalar = PatternListProbe::<(i64, ())>::new();
    assert!(scalar.pattern_list_id().is_none());
    let scalar = LeafPatternProbe::<(i64, ())>::new();
    assert!(scalar.leaf_pattern_list_id().is_none());
    // One such pattern is enough.
    let mixed = PatternListProbe::<(Module, (i64, ()))>::new();
    assert!(mixed.pattern_list_id().is_none());
    let mut type_indices = [0; 2];
    mixed.fill_exact_type_indices(&mut type_indices);
    assert_eq!(type_indices[0], K_TVM_FFI_MODULE);
}

struct Parity(bool);

impl TryInto<Parity> for AnyView {
    type Error = ();

    fn try_into(self) -> Result<Parity, ()> {
        if self.data.v_obj == 0 {
            Ok(Parity(self.data.v_int64 % 2 == 1))
        } else {
            Err(())
        }
    }
}

#[test]
fn types_may_say_themselves_how_views_are_turned_into_them() {
    let types = TypeTable {
        types: Vec::new(),
        columns: Vec::new(),
    };
    let mut heap = ObjectHeap::new();
    let probe = PatternConversionProbe::<Parity>::new();
    let view = |data| AnyView { data };
    let seven = view(TVMFFIAny::from_int(1, 7));
    let object = view(TVMFFIAny::from_object(K_TVM_FFI_MODULE, 8));
    assert!((&probe).try_convert(seven, &types, &mut heap).unwrap().0);
    assert!((&probe).try_convert(object, &types, &mut heap).is_err());
}

#[test]
fn indices_below_the_object_range_are_never_dense() {
    assert!(DenseDispatch::build(&[]).is_none());
    assert!(DenseDispatch::build(&[63]).is_none());
    let repeated = DenseDispatch::build(&[75, 73, 73]).unwrap();
    let arms = [72, 73, 74, 75, 76].map(|index| repeated.lookup(index));
    assert_eq!(arms, [None, Some(1), None, Some(0), None]);
    let dense = DenseDispatch::build(&[64, 66, 65]).unwrap();
    assert_eq!(dense.lookup(66), Some(1));
    assert_eq!(dense.lookup(i32::MIN), None);
    assert_eq!(dense.lookup(i32::MAX), None);
}

#[test]
fn pattern_lists_report_every_type_index_in_order() {
    type Exact = (Module, (Module, ()));
    let probe = PatternListProbe::<Exact>::new();
    let mut type_indices = [0; 2];
    probe.fill_exact_type_indices(&mut type_indices);
    assert_eq!(type_indices, [K_TVM_FFI_MODULE, K_TVM_FFI_MODULE]);
    assert_eq!(probe.pattern_list_id(), Some(TypeId::of::<Exact>()));
    assert_ne!(
        probe.pattern_list_id(),
        PatternListProbe::<(Module, ())>::new().pattern_list_id()
    );

    // The fallback leaves the indices alone.
    struct Unknown;
    let unknown = PatternListProbe::<(Unknown, ())>::new();
    (&unknown).fill_exact_type_indices(&mut type_indices);
    assert_eq!(type_indices, [K_TVM_FFI_MODULE, K_TVM_FFI_MODULE]);
}

struct Even(i64);

impl TryFrom<AnyView> for Even {
    type Error = &'static str;

    fn try_from(view: AnyView) -> Result<Self, Self::Error> {
        if view.data.v_int64 % 2 == 0 {
            Ok(Even(view.data.v_int64))
        } else {
            Err("odd")
        }
    }
}

#[test]
fn typed_arms_convert_by_index_by_cast_or_by_their_own_rule() {
    let types = TypeTable {
        types: Vec::new(),
        columns: Vec::new(),
    };
    let mut heap = ObjectHeap::new();
    let mut modules: ObjectStore<ModuleObj, ()> = ObjectStore::new();
    let arc = ObjectArc::new(&mut heap, &mut modules, ModuleObj::new());
    let module = Module::from_data(arc);
    let view = AnyView {
        data: Module::copy_to_any_view(&module, &heap),
    };
    assert_eq!(view.type_index(), K_TVM_FFI_MODULE);

    let matched = PatternConversionProbe::<Module>::new().try_convert(view, &types, &mut heap);
    let matched = matched.ok().unwrap();
    assert_eq!(ObjectArc::strong_count(&module.data, &heap), 2);
    assert_eq!(matched.data.ptr, module.data.ptr);

    let number = AnyView {
        data: i64::copy_to_any_view(&7, &heap),
    };
    assert!(PatternConversionProbe::<Module>::new()
        .try_convert(number, &types, &mut heap)
        .is_err());
    assert_eq!(
        PatternConversionProbe::<i64>::new().try_convert(number, &types, &mut heap),
        Ok(7)
    );
    let probe = PatternConversionProbe::<Even>::new();
    assert!((&probe).try_convert(number, &types, &mut heap).is_err());
    let number = AnyView {
        data: i64::copy_to_any_view(&8, &heap),
    };
    let even: Result<Even, ()> = (&probe).try_convert(number, &types, &mut heap);
    assert_eq!(even.ok().unwrap().0, 8);
}
