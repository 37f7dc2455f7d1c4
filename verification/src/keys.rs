//! Lookup keys that keep a shader from declaring the same type, constant or
//! variable twice.
use crate::model::{BuiltIn, Word};
use crate::storage_class::StorageClass;
use vstd::prelude::*;

verus! {

/// Description of a SPIR-V type or constant, used as a lookup key to
/// avoid duplicate declarations.
#[derive(Debug)]
pub enum TypeKey {
    Void,
    Bool,
    UnsignedInteger { width: u32 },
    Float { width: u32 },
    Vector { component_type: Word, component_count: u32 },
    Struct { name: String, field_types: Vec<Word> },
    Matrix { column_type: Word, column_count: u32 },
    Pointer { storage_class: StorageClass, pointee_type: Word },
    Function { return_type: Word, parameter_types: Vec<Word> },
    ConstantU32 { integer_type: Word, value: u32 },
    ConstantF32 { float_type: Word, value: u32 },
}

/// Description of a variable operation, used as a lookup key to avoid duplicate
/// declarations.
#[derive(Debug)]
pub enum OpKey {
    Void,
    Function { return_type: Word, parameter_types: Vec<Word> },
    InputVar { variable_type: Word, location: u32 },
    OutputVar { variable_type: Word, location: u32 },
    BuiltInVar { variable_type: Word, built_in: BuiltIn, storage_class: StorageClass },
    UniformVar { variable_type: Word, set: u32, binding: u32 },
    GlobalVar {
        storage_class: StorageClass,
        variable_type: Word,
        bound_set: Option<u32>,
        bound_binding: Option<u32>,
        bound_location: Option<u32>,
    },
}

/// A [`TypeKey`] as plain values.
pub enum TypeKeyModel {
    Void,
    Bool,
    UnsignedInteger { width: u32 },
    Float { width: u32 },
    Vector { component_type: Word, component_count: u32 },
    Struct { name: Seq<char>, field_types: Seq<Word> },
    Matrix { column_type: Word, column_count: u32 },
    Pointer { storage_class: StorageClass, pointee_type: Word },
    Function { return_type: Word, parameter_types: Seq<Word> },
    ConstantU32 { integer_type: Word, value: u32 },
    ConstantF32 { float_type: Word, value: u32 },
}

/// An [`OpKey`] as plain values.
pub enum OpKeyModel {
    Void,
    Function { return_type: Word, parameter_types: Seq<Word> },
    InputVar { variable_type: Word, location: u32 },
    OutputVar { variable_type: Word, location: u32 },
    BuiltInVar { variable_type: Word, built_in: BuiltIn, storage_class: StorageClass },
    UniformVar { variable_type: Word, set: u32, binding: u32 },
    GlobalVar {
        storage_class: StorageClass,
        variable_type: Word,
        bound_set: Option<u32>,
        bound_binding: Option<u32>,
        bound_location: Option<u32>,
    },
}

impl View for TypeKey {
    type V = TypeKeyModel;

    open spec fn view(&self) -> TypeKeyModel {
        match self {
            TypeKey::Void => TypeKeyModel::Void,
            TypeKey::Bool => TypeKeyModel::Bool,
            TypeKey::UnsignedInteger { width } => TypeKeyModel::UnsignedInteger { width: *width },
            TypeKey::Float { width } => TypeKeyModel::Float { width: *width },
            TypeKey::Vector { component_type, component_count } => TypeKeyModel::Vector {
                component_type: *component_type,
                component_count: *component_count,
            },
            TypeKey::Struct { name, field_types } => TypeKeyModel::Struct {
                name: name@,
                field_types: field_types@,
            },
            TypeKey::Matrix { column_type, column_count } => TypeKeyModel::Matrix {
                column_type: *column_type,
                column_count: *column_count,
            },
            TypeKey::Pointer { storage_class, pointee_type } => TypeKeyModel::Pointer {
                storage_class: *storage_class,
                pointee_type: *pointee_type,
            },
            TypeKey::Function { return_type, parameter_types } => TypeKeyModel::Function {
                return_type: *return_type,
                parameter_types: parameter_types@,
            },
            TypeKey::ConstantU32 { integer_type, value } => TypeKeyModel::ConstantU32 {
                integer_type: *integer_type,
                value: *value,
            },
            TypeKey::ConstantF32 { float_type, value } => TypeKeyModel::ConstantF32 {
                float_type: *float_type,
                value: *value,
            },
        }
    }
}

impl View for OpKey {
    type V = OpKeyModel;

    open spec fn view(&self) -> OpKeyModel {
        match self {
            OpKey::Void => OpKeyModel::Void,
            OpKey::Function { return_type, parameter_types } => OpKeyModel::Function {
                return_type: *return_type,
                parameter_types: parameter_types@,
            },
            OpKey::InputVar { variable_type, location } => OpKeyModel::InputVar {
                variable_type: *variable_type,
                location: *location,
            },
            OpKey::OutputVar { variable_type, location } => OpKeyModel::OutputVar {
                variable_type: *variable_type,
                location: *location,
            },
            OpKey::BuiltInVar { variable_type, built_in, storage_class } => OpKeyModel::BuiltInVar {
                variable_type: *variable_type,
                built_in: *built_in,
                storage_class: *storage_class,
            },
            OpKey::UniformVar { variable_type, set, binding } => OpKeyModel::UniformVar {
                variable_type: *variable_type,
                set: *set,
                binding: *binding,
            },
            OpKey::GlobalVar { storage_class, variable_type, bound_set, bound_binding, bound_location } =>
                OpKeyModel::GlobalVar {
                storage_class: *storage_class,
                variable_type: *variable_type,
                bound_set: *bound_set,
                bound_binding: *bound_binding,
                bound_location: *bound_location,
            },
        }
    }
}

pub(crate) fn words_eq(a: &Vec<Word>, b: &Vec<Word>) -> (r: bool)
    ensures
        r == (a@ == b@),
{
    if a.len() != b.len() {
        return false;
    }
    let mut i: usize = 0;
    while i < a.len()
        invariant
            a@.len() == b@.len(),
            0 <= i <= a@.len(),
            forall|j: int| 0 <= j < i ==> a@[j] == b@[j],
        decreases a@.len() - i,
    {
        if a[i] != b[i] {
            return false;
        }
        i = i + 1;
    }
    assert(a@ =~= b@);
    true
}

fn option_eq(a: Option<u32>, b: Option<u32>) -> (r: bool)
    ensures
        r == (a == b),
{
    match (a, b) {
        (Some(x), Some(y)) => x == y,
        (None, None) => true,
        _ => false,
    }
}

impl TypeKey {
    /// Whether two keys describe the same declaration.
    pub fn same(&self, other: &TypeKey) -> (r: bool)
        ensures
            r == (self@ == other@),
    {
        match self {
            TypeKey::Void => matches!(other, TypeKey::Void),
            TypeKey::Bool => matches!(other, TypeKey::Bool),
            TypeKey::UnsignedInteger { width } => match other {
                TypeKey::UnsignedInteger { width: w } => *width == *w,
                _ => false,
            },
            TypeKey::Float { width } => match other {
                TypeKey::Float { width: w } => *width == *w,
                _ => false,
            },
            TypeKey::Vector { component_type, component_count } => match other {
                TypeKey::Vector { component_type: t, component_count: c } => *component_type == *t
                    && *component_count == *c,
                _ => false,
            },
            TypeKey::Struct { name, field_types } => match other {
                TypeKey::Struct { name: n, field_types: f } => *name == *n && words_eq(field_types, f),
                _ => false,
            },
            TypeKey::Matrix { column_type, column_count } => match other {
                TypeKey::Matrix { column_type: t, column_count: c } => *column_type == *t
                    && *column_count == *c,
                _ => false,
            },
            TypeKey::Pointer { storage_class, pointee_type } => match other {
                TypeKey::Pointer { storage_class: s, pointee_type: p } => *storage_class == *s
                    && *pointee_type == *p,
                _ => false,
            },
            TypeKey::Function { return_type, parameter_types } => match other {
                TypeKey::Function { return_type: t, parameter_types: p } => *return_type == *t
                    && words_eq(parameter_types, p),
                _ => false,
            },
            TypeKey::ConstantU32 { integer_type, value } => match other {
                TypeKey::ConstantU32 { integer_type: t, value: v } => *integer_type == *t && *value
                    == *v,
                _ => false,
            },
            TypeKey::ConstantF32 { float_type, value } => match other {
                TypeKey::ConstantF32 { float_type: t, value: v } => *float_type == *t && *value
                    == *v,
                _ => false,
            },
        }
    }
}

impl OpKey {
    /// Whether two keys describe the same declaration.
    pub fn same(&self, other: &OpKey) -> (r: bool)
        ensures
            r == (self@ == other@),
    {
        match self {
            OpKey::Void => matches!(other, OpKey::Void),
            OpKey::Function { return_type, parameter_types } => match other {
                OpKey::Function { return_type: t, parameter_types: p } => *return_type == *t
                    && words_eq(parameter_types, p),
                _ => false,
            },
            OpKey::InputVar { variable_type, location } => match other {
                OpKey::InputVar { variable_type: t, location: l } => *variable_type == *t
                    && *location == *l,
                _ => false,
            },
            OpKey::OutputVar { variable_type, location } => match other {
                OpKey::OutputVar { variable_type: t, location: l } => *variable_type == *t
                    && *location == *l,
                _ => false,
            },
            OpKey::BuiltInVar { variable_type, built_in, storage_class } => match other {
                OpKey::BuiltInVar { variable_type: t, built_in: b, storage_class: s } =>
                    *variable_type == *t && *built_in == *b && *storage_class == *s,
                _ => false,
            },
            OpKey::UniformVar { variable_type, set, binding } => match other {
                OpKey::UniformVar { variable_type: t, set: s, binding: b } => *variable_type == *t
                    && *set == *s && *binding == *b,
                _ => false,
            },
            OpKey::GlobalVar { storage_class, variable_type, bound_set, bound_binding, bound_location } => match other {
                OpKey::GlobalVar {
                    storage_class: sc,
                    variable_type: vt,
                    bound_set: s,
                    bound_binding: b,
                    bound_location: l,
                } => *storage_class == *sc && *variable_type == *vt && option_eq(*bound_set, *s)
                    && option_eq(*bound_binding, *b) && option_eq(*bound_location, *l),
                _ => false,
            },
        }
    }
}

} // verus!
