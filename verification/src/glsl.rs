//! GLSL structs as a derive describes them: static names, and each member's index.
pub use crate::glsl_struct::GlslType;
use vstd::prelude::*;

verus! {

/// A GLSL struct: its name and its members in order.
#[derive(PartialEq, Eq, Hash, Debug)]
pub struct GlslStruct {
    pub name: &'static str,
    pub members: Vec<GlslStructMember>,
}

/// A member of a GLSL struct, with its index among the members.
#[derive(PartialEq, Eq, Hash, Debug)]
pub struct GlslStructMember {
    pub name: &'static str,
    pub ty: GlslType,
    pub index: u32,
}

} // verus!
