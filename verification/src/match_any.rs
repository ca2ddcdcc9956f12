//! Direct dispatch on the type index of a matched value.

use crate::type_index::K_TVM_FFI_STATIC_OBJECT_BEGIN;
use crate::type_traits::AnyCompatible;
use core::any::TypeId;
use core::marker::PhantomData;
use vstd::prelude::*;

verus! {

/// Identifier of a Rust type.
#[verifier::external_type_specification]
#[verifier::external_body]
pub struct ExTypeId(TypeId);

/// Compares two type identifiers with `TypeId`'s `==`, which holds exactly when
/// they are the same identifier.
#[verifier::external_body]
fn same_type_id(a: &TypeId, b: &TypeId) -> (same: bool)
    ensures
        same == (*a == *b),
{
    *a == *b
}

/// `TypeId::of`. Nothing is claimed of the identifier that a type has.
pub assume_specification<T: ?Sized + 'static>[ TypeId::of::<T> ]() -> (id: TypeId);

/// `id` is an identifier that `TypeId::of` gives for `T`.
pub open spec fn identifies<T: 'static>(id: TypeId) -> bool {
    call_ensures(TypeId::of::<T>, (), id)
}

pub const MISSING_ARM: usize = usize::MAX;

/// The first arm for a type index.
pub open spec fn first_arm(type_indices: Seq<i32>, type_index: i32) -> Option<usize>
    decreases type_indices.len(),
{
    if type_indices.len() == 0 {
        None
    } else {
        match first_arm(type_indices.drop_last(), type_index) {
            Some(arm) => Some(arm),
            None => if type_indices.last() == type_index {
                Some((type_indices.len() - 1) as usize)
            } else {
                None
            },
        }
    }
}

/// No type index is smaller than `base`, and `base` is one of them.
pub open spec fn is_least(type_indices: Seq<i32>, base: i32) -> bool {
    &&& type_indices.contains(base)
    &&& forall|i: int| 0 <= i < type_indices.len() ==> base <= #[trigger] type_indices[i]
}

pub open spec fn is_greatest(type_indices: Seq<i32>, last: i32) -> bool {
    &&& type_indices.contains(last)
    &&& forall|i: int| 0 <= i < type_indices.len() ==> #[trigger] type_indices[i] <= last
}

/// All are indices of object types, and they span no more indices than there
/// are arms.
pub open spec fn is_dense(type_indices: Seq<i32>) -> bool {
    exists|base: i32, last: i32|
        {
            &&& #[trigger] is_least(type_indices, base)
            &&& #[trigger] is_greatest(type_indices, last)
            &&& base >= K_TVM_FFI_STATIC_OBJECT_BEGIN
            &&& last - base + 1 <= type_indices.len()
        }
}

proof fn lemma_bounds_unique(type_indices: Seq<i32>, base: i32, last: i32)
    requires
        is_least(type_indices, base),
        is_greatest(type_indices, last),
    ensures
        is_dense(type_indices) <==> base >= K_TVM_FFI_STATIC_OBJECT_BEGIN && last - base + 1
            <= type_indices.len(),
{
}

/// A table from type indices to arms.
pub struct DenseDispatch {
    base: i32,
    arm_by_offset: Vec<usize>,
}

impl DenseDispatch {
    /// The type index at which the table begins.
    pub closed spec fn base(&self) -> i32 {
        self.base
    }

    /// The arm for each type index from the base on, or `MISSING_ARM`.
    pub closed spec fn table(&self) -> Seq<usize> {
        self.arm_by_offset@
    }

    /// The arm for a type index.
    pub open spec fn arm(&self, type_index: i32) -> Option<usize> {
        let offset = type_index - self.base();
        if 0 <= offset < self.table().len() {
            table_entry(self.table()[offset])
        } else {
            None
        }
    }

    /// The table begins at the least of the type indices, ends at the greatest,
    /// and holds the first arm for each.
    pub open spec fn spans(&self, type_indices: Seq<i32>) -> bool {
        &&& is_least(type_indices, self.base())
        &&& exists|last: i32| #[trigger]
            is_greatest(type_indices, last) && self.table().len() == last - self.base() + 1
        &&& self.table().len() <= type_indices.len()
        &&& forall|type_index: i32| #[trigger]
            self.arm(type_index) == first_arm(type_indices, type_index)
    }

    /// Builds the table, if the type indices are dense.
    pub fn build(type_indices: &[i32]) -> (dispatch: Option<DenseDispatch>)
        ensures
            match dispatch {
                Some(dispatch) => is_dense(type_indices@) && dispatch.spans(type_indices@),
                None => !is_dense(type_indices@),
            },
    {
        if type_indices.len() == 0 {
            return None;
        }
        let mut base: i32 = type_indices[0];
        let mut last: i32 = type_indices[0];
        let mut index: usize = 1;
        assert(type_indices@.take(1)[0] == base);
        while index < type_indices.len()
            invariant
                1 <= index <= type_indices@.len(),
                is_least(type_indices@.take(index as int), base),
                is_greatest(type_indices@.take(index as int), last),
            decreases type_indices@.len() - index,
        {
            let type_index: i32 = type_indices[index];
            proof {
                lemma_bounds_push(type_indices@, index as int, base, last);
            }
            if type_index < base {
                base = type_index;
            }
            if type_index > last {
                last = type_index;
            }
            index = index + 1;
        }
        proof {
            assert(type_indices@.take(index as int) =~= type_indices@);
            lemma_bounds_unique(type_indices@, base, last);
        }
        if base < K_TVM_FFI_STATIC_OBJECT_BEGIN {
            return None;
        }
        // Sparse indices are cheaper to handle in order.
        let index_space: usize = (last as i64 - base as i64 + 1) as usize;
        if index_space > type_indices.len() {
            return None;
        }
        let mut arm_by_offset: Vec<usize> = vec![MISSING_ARM; index_space];
        let mut arm_id: usize = 0;
        while arm_id < type_indices.len()
            invariant
                arm_id <= type_indices@.len() <= usize::MAX,
                is_least(type_indices@, base),
                is_greatest(type_indices@, last),
                arm_by_offset@.len() == last - base + 1,
                forall|type_index: i32|
                    base <= type_index <= last ==> table_entry(
                        arm_by_offset@[type_index - base],
                    ) == #[trigger] first_arm(type_indices@.take(arm_id as int), type_index),
            decreases type_indices@.len() - arm_id,
        {
            let offset: usize = (type_indices[arm_id] as i64 - base as i64) as usize;
            let ghost before = arm_by_offset@;
            if arm_by_offset[offset] == MISSING_ARM {
                arm_by_offset.set(offset, arm_id);
            }
            proof {
                let (short, long) = (
                    type_indices@.take(arm_id as int),
                    type_indices@.take(arm_id + 1),
                );
                assert(long.drop_last() =~= short);
                assert forall|type_index: i32| base <= type_index <= last implies table_entry(
                    arm_by_offset@[type_index - base],
                ) == #[trigger] first_arm(long, type_index) by {
                    assert(table_entry(before[type_index - base]) == first_arm(short, type_index));
                }
            }
            arm_id = arm_id + 1;
        }
        let dispatch = DenseDispatch { base, arm_by_offset };
        proof {
            assert(type_indices@.take(arm_id as int) =~= type_indices@);
            assert forall|type_index: i32| #[trigger]
                dispatch.arm(type_index) == first_arm(type_indices@, type_index) by {
                if base <= type_index <= last {
                    assert(table_entry(arm_by_offset@[type_index - base]) == first_arm(
                        type_indices@,
                        type_index,
                    ));
                } else {
                    lemma_no_arm(type_indices@, type_index);
                }
            }
            assert(is_greatest(type_indices@, last));
        }
        Some(dispatch)
    }

    /// The arm for a type index.
    pub fn lookup(&self, type_index: i32) -> (arm: Option<usize>)
        ensures
            arm == self.arm(type_index),
    {
        let offset: i64 = type_index as i64 - self.base as i64;
        if offset < 0 || offset as u64 >= self.arm_by_offset.len() as u64 {
            return None;
        }
        let arm_id: usize = self.arm_by_offset[offset as usize];
        if arm_id != MISSING_ARM {
            Some(arm_id)
        } else {
            None
        }
    }
}

/// What an entry of the table stands for.
pub open spec fn table_entry(arm: usize) -> Option<usize> {
    if arm != MISSING_ARM {
        Some(arm)
    } else {
        None
    }
}

proof fn lemma_bounds_push(type_indices: Seq<i32>, count: int, base: i32, last: i32)
    requires
        0 < count < type_indices.len(),
        is_least(type_indices.take(count), base),
        is_greatest(type_indices.take(count), last),
    ensures
        is_least(
            type_indices.take(count + 1),
            if type_indices[count] < base {
                type_indices[count]
            } else {
                base
            },
        ),
        is_greatest(
            type_indices.take(count + 1),
            if type_indices[count] > last {
                type_indices[count]
            } else {
                last
            },
        ),
{
    let (short, long) = (type_indices.take(count), type_indices.take(count + 1));
    assert(long[count] == type_indices[count]);
    let i = choose|i: int| 0 <= i < short.len() && short[i] == base;
    assert(long[i] == base);
    let j = choose|j: int| 0 <= j < short.len() && short[j] == last;
    assert(long[j] == last);
    assert forall|k: int| 0 <= k < count implies long[k] == short[k] by {}
}

/// A type index that no arm has selects none.
proof fn lemma_no_arm(type_indices: Seq<i32>, type_index: i32)
    requires
        forall|i: int| 0 <= i < type_indices.len() ==> #[trigger] type_indices[i] != type_index,
    ensures
        first_arm(type_indices, type_index) is None,
    decreases type_indices.len(),
{
    if type_indices.len() > 0 {
        lemma_no_arm(type_indices.drop_last(), type_index);
    }
}

/// The arm that is selected is the first in source order that has the type
/// index; none is selected if no arm has it.
pub proof fn law_first_arm_in_source_order(type_indices: Seq<i32>, type_index: i32)
    requires
        type_indices.len() <= usize::MAX,
    ensures
        match first_arm(type_indices, type_index) {
            Some(arm) => {
                &&& arm < type_indices.len()
                &&& type_indices[arm as int] == type_index
                &&& forall|i: int| 0 <= i < arm ==> #[trigger] type_indices[i] != type_index
            },
            None => !type_indices.contains(type_index),
        },
    decreases type_indices.len(),
{
    if type_indices.len() > 0 {
        let rest = type_indices.drop_last();
        law_first_arm_in_source_order(rest, type_index);
        assert(forall|i: int| 0 <= i < rest.len() ==> #[trigger] type_indices[i] == rest[i]);
        if first_arm(rest, type_index) is None {
            assert forall|i: int| 0 <= i < rest.len() implies #[trigger] type_indices[i]
                != type_index by {
                assert(rest.contains(rest[i]));
            }
        }
    }
}

/// Direct dispatch plan of one list of patterns.
///
/// The identity of the list protects a plan that different instances of a
/// generic function share.
pub struct ExactDispatchPlan {
    pattern_list_id: TypeId,
    direct: Option<DenseDispatch>,
}

impl ExactDispatchPlan {
    /// What the plan says of a value of this type, matched against this list:
    /// an arm, no arm, or that the arms must be tried in order.
    pub closed spec fn decision(
        &self,
        pattern_list_id: TypeId,
        type_index: i32,
    ) -> Result<Option<usize>, ()> {
        match self.direct {
            Some(dispatch) if self.pattern_list_id == pattern_list_id => Ok(
                dispatch.arm(type_index),
            ),
            _ => Err(()),
        }
    }

    pub fn build(pattern_list_id: TypeId, type_indices: &[i32]) -> (plan: ExactDispatchPlan)
        ensures
            forall|id: TypeId, type_index: i32| #[trigger]
                plan.decision(id, type_index) == (if id == pattern_list_id && is_dense(
                    type_indices@,
                ) {
                    Ok::<Option<usize>, ()>(first_arm(type_indices@, type_index))
                } else {
                    Err(())
                }),
    {
        ExactDispatchPlan { pattern_list_id, direct: DenseDispatch::build(type_indices) }
    }

    pub fn lookup(&self, pattern_list_id: TypeId, type_index: i32) -> (decision: Result<
        Option<usize>,
        (),
    >)
        ensures
            decision == self.decision(pattern_list_id, type_index),
    {
        if !same_type_id(&self.pattern_list_id, &pattern_list_id) {
            return Err(());
        }
        match &self.direct {
            Some(dispatch) => Ok(dispatch.lookup(type_index)),
            None => Err(()),
        }
    }
}

//-----------------------------------------------------
// Pattern lists
//-----------------------------------------------------
/// A list of patterns, as a nest of pairs that ends in the unit type.
pub trait ObjectPatternList: 'static {
    spec fn exact() -> bool;

    spec fn indices() -> Seq<i32>;

    /// Whether the type index alone decides every pattern.
    fn all_exact() -> (exact: bool)
        ensures
            exact == Self::exact(),
    ;

    /// Writes the type indices of the patterns, in order.
    fn fill_exact_type_indices(out: &mut [i32])
        requires
            old(out)@.len() == Self::indices().len(),
        ensures
            final(out)@ == Self::indices(),
    ;
}

impl ObjectPatternList for () {
    open spec fn exact() -> bool {
        true
    }

    open spec fn indices() -> Seq<i32> {
        Seq::empty()
    }

    fn all_exact() -> bool {
        true
    }

    fn fill_exact_type_indices(out: &mut [i32]) {
        assert(out@ =~= Seq::empty());
    }
}

impl<Head: AnyCompatible + 'static, Tail: ObjectPatternList> ObjectPatternList for (Head, Tail) {
    open spec fn exact() -> bool {
        Head::exact() && Tail::exact()
    }

    open spec fn indices() -> Seq<i32> {
        seq![Head::exact_index()] + Tail::indices()
    }

    fn all_exact() -> bool {
        Head::match_any_exact() && Tail::all_exact()
    }

    fn fill_exact_type_indices(out: &mut [i32]) {
        let (head, tail) = out.split_at_mut(1);
        head[0] = Head::match_any_exact_type_index();
        Tail::fill_exact_type_indices(tail);
        assert(out@ =~= Self::indices());
    }
}

/// Probe for the metadata of a list of patterns.
pub struct PatternListProbe<T> {
    list: PhantomData<T>,
}

impl<T> PatternListProbe<T> {
    pub fn new() -> (probe: Self) {
        PatternListProbe { list: PhantomData }
    }
}

/// Metadata of a list of patterns. A list that has none falls back to matching
/// in order.
pub trait PatternListMetadata {
    spec fn has_metadata(&self) -> bool;

    /// `id` stands for this list of patterns.
    spec fn identified_by(&self, id: TypeId) -> bool;

    /// There is room for the type indices.
    spec fn accepts(&self, room: nat) -> bool;

    spec fn filled(&self, before: Seq<i32>) -> Seq<i32>;

    /// The identity of the list, if its patterns can be dispatched directly.
    fn pattern_list_id(&self) -> (id: Option<TypeId>)
        ensures
            id is Some <==> self.has_metadata(),
            id matches Some(id) ==> self.identified_by(id),
    ;

    /// Writes the type indices of the patterns.
    fn fill_exact_type_indices(&self, out: &mut [i32])
        requires
            self.accepts(old(out)@.len()),
        ensures
            final(out)@ == self.filled(old(out)@),
    ;
}

impl<T: ObjectPatternList> PatternListMetadata for PatternListProbe<T> {
    open spec fn has_metadata(&self) -> bool {
        T::exact()
    }

    open spec fn identified_by(&self, id: TypeId) -> bool {
        identifies::<T>(id)
    }

    open spec fn accepts(&self, room: nat) -> bool {
        room == T::indices().len()
    }

    open spec fn filled(&self, before: Seq<i32>) -> Seq<i32> {
        T::indices()
    }

    fn pattern_list_id(&self) -> Option<TypeId> {
        if T::all_exact() {
            let identify = TypeId::of::<T>;
            Some(identify())
        } else {
            None
        }
    }

    fn fill_exact_type_indices(&self, out: &mut [i32]) {
        T::fill_exact_type_indices(out);
    }
}

impl<T> PatternListMetadata for &PatternListProbe<T> {
    open spec fn has_metadata(&self) -> bool {
        false
    }

    open spec fn identified_by(&self, id: TypeId) -> bool {
        false
    }

    open spec fn accepts(&self, room: nat) -> bool {
        true
    }

    open spec fn filled(&self, before: Seq<i32>) -> Seq<i32> {
        before
    }

    fn pattern_list_id(&self) -> Option<TypeId> {
        None
    }

    fn fill_exact_type_indices(&self, out: &mut [i32]) {
    }
}

//-----------------------------------------------------
// Laws
//-----------------------------------------------------
proof fn lemma_bounds_exist(type_indices: Seq<i32>)
    requires
        type_indices.len() > 0,
    ensures
        exists|base: i32| is_least(type_indices, base),
        exists|last: i32| is_greatest(type_indices, last),
    decreases type_indices.len(),
{
    let (front, next) = (type_indices.drop_last(), type_indices.last());
    if front.len() == 0 {
        assert(type_indices[0] == next);
        assert(is_least(type_indices, next));
        assert(is_greatest(type_indices, next));
    } else {
        lemma_bounds_exist(front);
        let base = choose|base: i32| is_least(front, base);
        let last = choose|last: i32| is_greatest(front, last);
        let n = front.len() as int;
        assert(type_indices.take(n) =~= front);
        assert(type_indices.take(n + 1) =~= type_indices);
        lemma_bounds_push(type_indices, n, base, last);
    }
}

/// Type indices are dense exactly if they are indices of object types, at least one,
/// and no two of them are further apart than there are arms.
pub proof fn law_dense_indices_lie_close_together(type_indices: Seq<i32>)
    ensures
        is_dense(type_indices) <==> {
            &&& type_indices.len() > 0
            &&& forall|i: int|
                0 <= i < type_indices.len() ==> #[trigger] type_indices[i]
                    >= K_TVM_FFI_STATIC_OBJECT_BEGIN
            &&& forall|i: int, j: int|
                0 <= i < type_indices.len() && 0 <= j < type_indices.len()
                    ==> #[trigger] type_indices[i] - #[trigger] type_indices[j]
                    < type_indices.len()
        },
{
    if type_indices.len() > 0 {
        lemma_bounds_exist(type_indices);
        let base = choose|base: i32| is_least(type_indices, base);
        let last = choose|last: i32| is_greatest(type_indices, last);
        lemma_bounds_unique(type_indices, base, last);
        let i = choose|i: int| 0 <= i < type_indices.len() && type_indices[i] == last;
        let j = choose|j: int| 0 <= j < type_indices.len() && type_indices[j] == base;
        assert(type_indices[i] == last && type_indices[j] == base);
    }
}

/// The type indices of a list of patterns are those of its patterns, in order, and the
/// list is exact if all of them are.
pub proof fn law_patterns_are_listed_in_order<
    Head: AnyCompatible + 'static,
    Tail: ObjectPatternList,
>()
    ensures
        <(Head, Tail) as ObjectPatternList>::indices().len() == Tail::indices().len() + 1,
        <(Head, Tail) as ObjectPatternList>::indices()[0] == Head::exact_index(),
        forall|i: int|
            0 <= i < Tail::indices().len() ==> <(Head, Tail) as ObjectPatternList>::indices()[i + 1]
                == #[trigger] Tail::indices()[i],
        <(Head, Tail) as ObjectPatternList>::exact() <==> Head::exact() && Tail::exact(),
        <() as ObjectPatternList>::indices().len() == 0,
        <() as ObjectPatternList>::exact(),
{
}

} // verus!
