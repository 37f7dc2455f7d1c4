//! GLSL structs described member by member, for building their SPIR-V declarations.
use vstd::prelude::*;

verus! {

/// A GLSL struct: its name and its members in order.
#[derive(Debug)]
pub struct GlslStruct {
    pub name: String,
    pub members: Vec<GlslStructMember>,
}

/// A member of a GLSL struct.
#[derive(Debug)]
pub struct GlslStructMember {
    pub name: String,
    pub ty: GlslType,
}

/// The GLSL types a struct member can have.
#[derive(PartialEq, Eq, Structural, Clone, Copy, Hash, Debug)]
pub enum GlslType {
    Bool,
    Mat4,
    Vec2,
    Vec3,
    Vec4,
}

/// Types that describe themselves as a GLSL struct.
pub trait GlslStructInfo {
    fn glsl_struct() -> GlslStruct;
}

/// The size in bytes a member of type `t` takes in a struct's layout.
pub open spec fn glsl_type_size(t: GlslType) -> nat {
    match t {
        GlslType::Bool => 4,
        GlslType::Vec2 => 8,
        GlslType::Vec3 => 12,
        GlslType::Vec4 => 16,
        GlslType::Mat4 => 64,
    }
}

/// The offset of the member after the members `ms`: the sum of their sizes.
pub open spec fn glsl_offset(ms: Seq<GlslStructMember>) -> nat
    decreases ms.len(),
{
    if ms.len() == 0 {
        0
    } else {
        glsl_offset(ms.drop_last()) + glsl_type_size(ms.last().ty)
    }
}

} // verus!
