//! The table of registered types.

use crate::any::TVMFFIAny;
use crate::object::ObjectCore;
use crate::text::same_text;
use crate::type_index::K_TVM_FFI_STATIC_OBJECT_BEGIN;
use vstd::prelude::*;

verus! {

/// A reflected field of an object type.
pub struct FieldInfo {
    pub name: String,
    pub offset: i64,
    pub size: i64,
    pub alignment: i64,
    /// The address of the function that reads the field.
    pub getter: Option<usize>,
}

/// A reflected method of an object type.
pub struct MethodInfo {
    pub name: String,
    pub method: TVMFFIAny,
}

/// What the table holds on a registered type.
pub struct TypeInfo {
    pub type_index: i32,
    pub type_depth: i32,
    pub type_key: String,
    /// The type indices of the ancestors from the root down, with `None` for a
    /// null entry.
    pub ancestors: Vec<Option<i32>>,
    pub fields: Vec<FieldInfo>,
    pub methods: Vec<MethodInfo>,
    /// The size of an instance, where it is known.
    pub total_size: Option<i32>,
}

/// The values of one attribute, for a run of types.
pub struct TypeAttrColumn {
    pub name: String,
    pub begin_index: i32,
    pub data: Vec<TVMFFIAny>,
}

/// The table of registered types.
pub struct TypeTable {
    pub types: Vec<Option<TypeInfo>>,
    pub columns: Vec<TypeAttrColumn>,
}

impl TypeTable {
    /// The entry of a type.
    pub open spec fn info(&self, index: i32) -> Option<TypeInfo> {
        if 0 <= index < self.types@.len() {
            self.types@[index as int]
        } else {
            None
        }
    }

    /// Every type is entered under its index, with as many ancestors as it is
    /// deep.
    pub open spec fn well_formed(&self) -> bool {
        forall|index: i32|
            (#[trigger] self.info(index)) matches Some(info) ==> {
                &&& info.type_index == index
                &&& info.type_depth == info.ancestors@.len()
            }
    }

    /// The ancestors of a type, from the root down.
    pub open spec fn ancestors(&self, index: i32) -> Seq<Option<i32>> {
        self.info(index)->0.ancestors@
    }

    /// The object types form a tree under single inheritance, in which every
    /// type is entered after its ancestors.
    pub open spec fn is_tree(&self) -> bool {
        forall|index: i32, depth: int|
            #![trigger self.ancestors(index)[depth]]
            self.info(index) is Some && 0 <= depth < self.ancestors(index).len() ==> {
                let ancestor = self.ancestors(index)[depth];
                &&& ancestor is Some
                &&& K_TVM_FFI_STATIC_OBJECT_BEGIN <= ancestor->0 < index
                &&& self.info(ancestor->0) is Some
                &&& self.ancestors(ancestor->0) == self.ancestors(index).take(depth)
            }
    }

    /// An object of one type is an instance of another.
    ///
    /// If the target is an ancestor, it stands in the candidate's ancestors at
    /// the target's depth.
    pub open spec fn instance_of(&self, object: i32, target: i32) -> bool {
        ||| object == target
        ||| {
            &&& K_TVM_FFI_STATIC_OBJECT_BEGIN <= target < object
            &&& self.info(object) matches Some(object_info)
            && self.info(target) matches Some(target_info)
            && target_info.type_depth < object_info.type_depth
            && object_info.ancestors@[target_info.type_depth as int] == Some(target)
        }
    }

    /// The entry of a type, if it is registered.
    pub fn get(&self, index: i32) -> (info: Option<&TypeInfo>)
        ensures
            match info {
                Some(info) => self.info(index) == Some(*info),
                None => self.info(index) is None,
            },
    {
        if index < 0 || index as usize >= self.types.len() {
            return None;
        }
        match &self.types[index as usize] {
            Some(info) => Some(info),
            None => None,
        }
    }
}

/// Whether a runtime type index refers to the target or one of its subtypes.
pub fn is_instance_of_index(
    types: &TypeTable,
    object_type_index: i32,
    target_type_index: i32,
) -> (r: bool)
    requires
        types.well_formed(),
    ensures
        r == types.instance_of(object_type_index, target_type_index),
{
    if object_type_index == target_type_index {
        return true;
    }
    // Only object types take part in the hierarchy.
    if object_type_index < K_TVM_FFI_STATIC_OBJECT_BEGIN || target_type_index
        < K_TVM_FFI_STATIC_OBJECT_BEGIN {
        return false;
    }
    // A parent has a smaller index than its descendants.
    if object_type_index < target_type_index {
        return false;
    }
    match (types.get(object_type_index), types.get(target_type_index)) {
        (Some(object_info), Some(target_info)) => {
            assert(types.info(object_type_index) is Some);
            assert(types.info(target_type_index) is Some);
            let target_depth: i32 = target_info.type_depth;
            if object_info.type_depth <= target_depth {
                return false;
            }
            match object_info.ancestors[target_depth as usize] {
                Some(ancestor) => ancestor == target_type_index,
                None => false,
            }
        },
        _ => false,
    }
}

/// Whether a runtime type index refers to `Target` or one of its subtypes.
pub fn is_instance_of<Target: ObjectCore>(types: &TypeTable, object_type_index: i32) -> (r: bool)
    requires
        types.well_formed(),
    ensures
        r == types.instance_of(object_type_index, Target::index()),
{
    is_instance_of_index(types, object_type_index, Target::type_index())
}

//-----------------------------------------------------
// Methods and attributes
//-----------------------------------------------------
/// The first method of that name.
pub open spec fn first_method(methods: Seq<MethodInfo>, name: Seq<char>) -> Option<TVMFFIAny>
    decreases methods.len(),
{
    if methods.len() == 0 {
        None
    } else if methods[0].name@ == name {
        Some(methods[0].method)
    } else {
        first_method(methods.drop_first(), name)
    }
}

/// The first column of that name.
pub open spec fn first_column(columns: Seq<TypeAttrColumn>, name: Seq<char>) -> Option<
    TypeAttrColumn,
>
    decreases columns.len(),
{
    if columns.len() == 0 {
        None
    } else if columns[0].name@ == name {
        Some(columns[0])
    } else {
        first_column(columns.drop_first(), name)
    }
}

impl TypeTable {
    /// The attribute of a type, if there is a column for it that covers the type.
    pub open spec fn attribute(&self, name: Seq<char>, type_index: i32) -> Option<TVMFFIAny> {
        match first_column(self.columns@, name) {
            Some(column) if 0 <= type_index - column.begin_index < column.data@.len() => Some(
                column.data@[type_index - column.begin_index],
            ),
            _ => None,
        }
    }

    /// The attribute of a type.
    pub fn get_attribute(&self, name: &str, type_index: i32) -> (attribute: Option<TVMFFIAny>)
        ensures
            attribute == self.attribute(name@, type_index),
    {
        let mut index: usize = 0;
        assert(self.columns@.skip(0) =~= self.columns@);
        while index < self.columns.len()
            invariant
                index <= self.columns@.len(),
                first_column(self.columns@, name@) == first_column(
                    self.columns@.skip(index as int),
                    name@,
                ),
            decreases self.columns@.len() - index,
        {
            let column: &TypeAttrColumn = &self.columns[index];
            assert(self.columns@.skip(index as int)[0] == *column);
            assert(self.columns@.skip(index as int).drop_first() =~= self.columns@.skip(index + 1));
            if same_text(column.name.as_str(), name) {
                let offset: i64 = type_index as i64 - column.begin_index as i64;
                return if offset >= 0 && (offset as u64) < column.data.len() as u64 {
                    Some(column.data[offset as usize])
                } else {
                    None
                };
            }
            index = index + 1;
        }
        None
    }
}

/// The first method of that name.
pub fn find_method(methods: &Vec<MethodInfo>, name: &str) -> (method: Option<TVMFFIAny>)
    ensures
        method == first_method(methods@, name@),
{
    let mut index: usize = 0;
    assert(methods@.skip(0) =~= methods@);
    while index < methods.len()
        invariant
            index <= methods@.len(),
            first_method(methods@, name@) == first_method(methods@.skip(index as int), name@),
        decreases methods@.len() - index,
    {
        let method: &MethodInfo = &methods[index];
        assert(methods@.skip(index as int)[0] == *method);
        assert(methods@.skip(index as int).drop_first() =~= methods@.skip(index + 1));
        if same_text(method.name.as_str(), name) {
            return Some(method.method);
        }
        index = index + 1;
    }
    None
}

//-----------------------------------------------------
// Laws of the hierarchy
//-----------------------------------------------------
/// In a tree of types, the instances of a type are those of the type itself and
/// of the types that have it among their ancestors.
pub proof fn law_instance_of_is_ancestry(types: &TypeTable, object: i32, target: i32)
    requires
        types.well_formed(),
        types.is_tree(),
        types.info(object) is Some,
    ensures
        types.instance_of(object, target) <==> object == target || types.ancestors(object).contains(
            Some(target),
        ),
{
    let chain = types.ancestors(object);
    if chain.contains(Some(target)) {
        let depth = choose|depth: int| 0 <= depth < chain.len() && chain[depth] == Some(target);
        assert(types.ancestors(object)[depth] == Some(target));
        assert(types.info(target) is Some);
        assert(types.ancestors(target).len() == depth);
    }
    if types.instance_of(object, target) && object != target {
        let depth = types.info(target)->0.type_depth as int;
        assert(types.info(target) is Some);
        assert(chain[depth] == Some(target));
    }
}

/// Every type is an instance of itself.
pub proof fn law_instance_of_reflexive(types: &TypeTable, index: i32)
    ensures
        types.instance_of(index, index),
{
}

/// Instances of a subtype are instances of its supertypes.
pub proof fn law_instance_of_transitive(types: &TypeTable, a: i32, b: i32, c: i32)
    requires
        types.well_formed(),
        types.is_tree(),
        types.instance_of(a, b),
        types.instance_of(b, c),
    ensures
        types.instance_of(a, c),
{
    if a != b && b != c {
        law_instance_of_is_ancestry(types, a, b);
        law_instance_of_is_ancestry(types, b, c);
        let (above_a, above_b) = (types.ancestors(a), types.ancestors(b));
        let i = choose|i: int| 0 <= i < above_a.len() && above_a[i] == Some(b);
        let j = choose|j: int| 0 <= j < above_b.len() && above_b[j] == Some(c);
        assert(types.ancestors(a)[i] == Some(b));
        assert(above_b == above_a.take(i));
        assert(above_a[j] == Some(c));
        law_instance_of_is_ancestry(types, a, c);
    }
}

/// Two types that are instances of each other are the same.
pub proof fn law_instance_of_antisymmetric(types: &TypeTable, a: i32, b: i32)
    requires
        types.instance_of(a, b),
        types.instance_of(b, a),
    ensures
        a == b,
{
}

//-----------------------------------------------------
// Laws on methods and attributes
//-----------------------------------------------------
/// The method at `at` is the one that the name stands for.
pub open spec fn named_method(methods: Seq<MethodInfo>, name: Seq<char>, at: int) -> bool {
    &&& 0 <= at < methods.len()
    &&& methods[at].name@ == name
    &&& forall|i: int| 0 <= i < at ==> (#[trigger] methods[i]).name@ != name
}

/// A method is found by its name wherever it stands, and the first of that name where
/// there are several.
pub proof fn law_first_method_is_found(methods: Seq<MethodInfo>, name: Seq<char>)
    ensures
        forall|at: int| #[trigger]
            named_method(methods, name, at) ==> first_method(methods, name) == Some(
                methods[at].method,
            ),
        (forall|i: int| 0 <= i < methods.len() ==> (#[trigger] methods[i]).name@ != name)
            <==> first_method(methods, name) is None,
    decreases methods.len(),
{
    if methods.len() > 0 {
        let others = methods.drop_first();
        law_first_method_is_found(others, name);
        assert forall|at: int| #[trigger] named_method(methods, name, at) implies first_method(
            methods,
            name,
        ) == Some(methods[at].method) by {
            if at > 0 {
                assert(methods[0].name@ != name);
                assert forall|i: int| 0 <= i < at - 1 implies (#[trigger] others[i]).name@
                    != name by {
                    assert(methods[i + 1].name@ != name);
                }
                assert(named_method(others, name, at - 1));
            }
        }
        if forall|i: int| 0 <= i < methods.len() ==> (#[trigger] methods[i]).name@ != name {
            assert(methods[0].name@ != name);
            assert forall|i: int| 0 <= i < others.len() implies (#[trigger] others[i]).name@
                != name by {
                assert(methods[i + 1].name@ != name);
            }
        }
        if first_method(methods, name) is None {
            assert forall|i: int| 0 <= i < methods.len() implies (#[trigger] methods[i]).name@
                != name by {
                if i > 0 {
                    assert(others[i - 1].name@ != name);
                }
            }
        }
    }
}

/// The column at `at` is the one that the name stands for.
pub open spec fn named_column(columns: Seq<TypeAttrColumn>, name: Seq<char>, at: int) -> bool {
    &&& 0 <= at < columns.len()
    &&& columns[at].name@ == name
    &&& forall|i: int| 0 <= i < at ==> (#[trigger] columns[i]).name@ != name
}

proof fn lemma_first_column(columns: Seq<TypeAttrColumn>, name: Seq<char>)
    ensures
        forall|at: int| #[trigger]
            named_column(columns, name, at) ==> first_column(columns, name) == Some(columns[at]),
        (forall|i: int| 0 <= i < columns.len() ==> (#[trigger] columns[i]).name@ != name)
            ==> first_column(columns, name) is None,
    decreases columns.len(),
{
    if columns.len() > 0 {
        let others = columns.drop_first();
        lemma_first_column(others, name);
        assert forall|at: int| #[trigger] named_column(columns, name, at) implies first_column(
            columns,
            name,
        ) == Some(columns[at]) by {
            if at > 0 {
                assert(columns[0].name@ != name);
                assert forall|i: int| 0 <= i < at - 1 implies (#[trigger] others[i]).name@
                    != name by {
                    assert(columns[i + 1].name@ != name);
                }
                assert(named_column(others, name, at - 1));
            }
        }
        if forall|i: int| 0 <= i < columns.len() ==> (#[trigger] columns[i]).name@ != name {
            assert(columns[0].name@ != name);
            assert forall|i: int| 0 <= i < others.len() implies (#[trigger] others[i]).name@
                != name by {
                assert(columns[i + 1].name@ != name);
            }
        }
    }
}

/// Every type that a column covers has its own value of the attribute: that of type
/// `begin_index + i` stands at `i`. No other type has one.
pub proof fn law_attribute_is_found_at_its_type(
    types: &TypeTable,
    name: Seq<char>,
    at: int,
)
    requires
        named_column(types.columns@, name, at),
    ensures
        forall|type_index: i32|
            #![trigger types.attribute(name, type_index)]
            {
                let column = types.columns@[at];
                let i = type_index - column.begin_index;
                types.attribute(name, type_index) == if 0 <= i < column.data@.len() {
                    Some(column.data@[i])
                } else {
                    None
                }
            },
{
    lemma_first_column(types.columns@, name);
}

/// Without a column of that name no type has the attribute.
pub proof fn law_attribute_needs_its_column(types: &TypeTable, name: Seq<char>)
    requires
        forall|i: int|
            0 <= i < types.columns@.len() ==> (#[trigger] types.columns@[i]).name@ != name,
    ensures
        forall|type_index: i32| #[trigger] types.attribute(name, type_index) is None,
{
    lemma_first_column(types.columns@, name);
}

/// A type is found under its index, and under no other.
pub proof fn law_types_are_found_under_their_index(types: &TypeTable, index: i32)
    ensures
        0 <= index < types.types@.len() ==> types.info(index) == types.types@[index as int],
        index < 0 || index >= types.types@.len() ==> types.info(index) is None,
{
}

} // verus!
