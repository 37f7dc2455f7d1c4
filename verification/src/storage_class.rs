//! Storage classes of pointers and variables.
use vstd::prelude::*;

verus! {

/// The storage classes that shaders of this library use.
#[derive(PartialEq, Eq, Structural, Clone, Copy, Debug)]
pub enum StorageClass {
    UniformConstant,
    Input,
    Uniform,
    Output,
    Workgroup,
    CrossWorkgroup,
    Private,
    Function,
    Generic,
    PushConstant,
    AtomicCounter,
    Image,
}

/// The SPIR-V enumerant of a storage class.
pub open spec fn storage_class_code(sc: StorageClass) -> u32 {
    match sc {
        StorageClass::UniformConstant => 0,
        StorageClass::Input => 1,
        StorageClass::Uniform => 2,
        StorageClass::Output => 3,
        StorageClass::Workgroup => 4,
        StorageClass::CrossWorkgroup => 5,
        StorageClass::Private => 6,
        StorageClass::Function => 7,
        StorageClass::Generic => 8,
        StorageClass::PushConstant => 9,
        StorageClass::AtomicCounter => 10,
        StorageClass::Image => 11,
    }
}

impl StorageClass {
    /// The SPIR-V enumerant of this storage class.
    pub fn code(self) -> (r: u32)
        ensures
            r == storage_class_code(self),
    {
        match self {
            StorageClass::UniformConstant => 0,
            StorageClass::Input => 1,
            StorageClass::Uniform => 2,
            StorageClass::Output => 3,
            StorageClass::Workgroup => 4,
            StorageClass::CrossWorkgroup => 5,
            StorageClass::Private => 6,
            StorageClass::Function => 7,
            StorageClass::Generic => 8,
            StorageClass::PushConstant => 9,
            StorageClass::AtomicCounter => 10,
            StorageClass::Image => 11,
        }
    }

    /// The storage class with the given SPIR-V enumerant; `None` for the
    /// enumerants outside the twelve classes above.
    pub fn from_code(code: u32) -> (r: Option<StorageClass>)
        ensures
            r matches Some(sc) ==> storage_class_code(sc) == code,
            r is None <==> code > 11,
    {
        match code {
            0 => Some(StorageClass::UniformConstant),
            1 => Some(StorageClass::Input),
            2 => Some(StorageClass::Uniform),
            3 => Some(StorageClass::Output),
            4 => Some(StorageClass::Workgroup),
            5 => Some(StorageClass::CrossWorkgroup),
            6 => Some(StorageClass::Private),
            7 => Some(StorageClass::Function),
            8 => Some(StorageClass::Generic),
            9 => Some(StorageClass::PushConstant),
            10 => Some(StorageClass::AtomicCounter),
            11 => Some(StorageClass::Image),
            _ => None,
        }
    }
}

/// Converting a storage class to its enumerant and back gives the storage class.
pub proof fn law_storage_class_code_round_trip(sc: StorageClass)
    ensures
        storage_class_code(sc) <= 11,
        forall|other: StorageClass|
            storage_class_code(other) == storage_class_code(sc) ==> other == sc,
{
}

} // verus!
