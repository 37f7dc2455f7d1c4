//! What deriving a GLSL struct computes from a Rust struct: each field's SPIR-V type,
//! from the type named in its attribute, and its index.
use crate::types::{float_matrix, float_vector, mat4, vec2, vec3, vec4, Bool, Float, GlslStruct, GlslStructMember, SpirvType};
use std::rc::Rc;
use vstd::prelude::*;

verus! {

/// The GLSL attribute of a field: the name of its type, when given.
#[derive(Debug)]
pub struct GlslAttribute {
    pub ty: Option<String>,
}

/// An item of an attribute's list: its name, and the string it is set to where it is
/// a `name = "string"` pair.
#[derive(Debug)]
pub struct MetaItem {
    pub name: String,
    pub value: Option<String>,
}

/// The type named by the last `ty = "..."` item among `items`.
pub open spec fn named_type(items: Seq<MetaItem>) -> Option<Seq<char>>
    decreases items.len(),
{
    if items.len() == 0 {
        None
    } else if items.last().name@ == "ty"@ && items.last().value is Some {
        Some(items.last().value->0@)
    } else {
        named_type(items.drop_last())
    }
}

/// The GLSL attribute that a field's first attribute gives: where it is the list
/// `glsl(..)` (`list` is the name of the first attribute's list, if it is a list), the
/// type its last `ty = "..."` item names; no type otherwise.
pub fn glsl_attribute(list: Option<&str>, items: &Vec<MetaItem>) -> (r: GlslAttribute)
    ensures
        ({
            let t = if list matches Some(l) && l@ == "glsl"@ {
                named_type(items@)
            } else {
                None
            };
            match r.ty {
                Some(s) => t == Some(s@),
                None => t is None,
            }
        }),
{
    let mut out = GlslAttribute { ty: None };
    let is_glsl = match list {
        Some(l) => l.to_owned() == String::from_str("glsl"),
        None => false,
    };
    if !is_glsl {
        return out;
    }
    let mut i: usize = 0;
    let ty_name = String::from_str("ty");
    while i < items.len()
        invariant
            0 <= i <= items@.len(),
            ty_name@ == "ty"@,
            match out.ty {
                Some(s) => named_type(items@.take(i as int)) == Some(s@),
                None => named_type(items@.take(i as int)) is None,
            },
        decreases items@.len() - i,
    {
        assert(items@.take(i + 1).drop_last() =~= items@.take(i as int));
        if items[i].name == ty_name {
            if let Some(v) = &items[i].value {
                out.ty = Some(v.clone());
            }
        }
        i = i + 1;
    }
    assert(items@.take(i as int) =~= items@);
    out
}

/// The type that a GLSL type name stands for: `bool`, `float`, `mat4`, `vec2`, `vec3`
/// or `vec4`.
pub open spec fn glsl_type_named(name: Seq<char>) -> Option<SpirvType> {
    if name == "bool"@ {
        Some(SpirvType::Bool(Bool))
    } else if name == "float"@ {
        Some(SpirvType::Float(Float))
    } else if name == "mat4"@ {
        Some(float_matrix(4))
    } else if name == "vec2"@ {
        Some(float_vector(2))
    } else if name == "vec3"@ {
        Some(float_vector(3))
    } else if name == "vec4"@ {
        Some(float_vector(4))
    } else {
        None
    }
}

/// The type that a GLSL type name stands for, if it is one of those supported.
pub fn glsl_type_by_name(name: &str) -> (r: Option<SpirvType>)
    ensures
        r == glsl_type_named(name@),
{
    let n = name.to_owned();
    if n == String::from_str("bool") {
        Some(SpirvType::Bool(Bool))
    } else if n == String::from_str("float") {
        Some(SpirvType::Float(Float))
    } else if n == String::from_str("mat4") {
        Some(mat4())
    } else if n == String::from_str("vec2") {
        Some(vec2())
    } else if n == String::from_str("vec3") {
        Some(vec3())
    } else if n == String::from_str("vec4") {
        Some(vec4())
    } else {
        None
    }
}

/// The attribute names a supported type.
pub open spec fn attribute_supported(a: GlslAttribute) -> bool {
    a.ty matches Some(t) && glsl_type_named(t@) is Some
}

impl GlslAttribute {
    /// The type the attribute names, which must be given and supported.
    pub fn type_builder(&self) -> (r: SpirvType)
        requires
            attribute_supported(*self),
        ensures
            Some(r) == glsl_type_named(self.ty->0@),
    {
        match &self.ty {
            Some(t) => match glsl_type_by_name(t.as_str()) {
                Some(r) => r,
                None => SpirvType::NoType,
            },
            None => SpirvType::NoType,
        }
    }
}

/// A field of a struct to derive: its index, its name and its type.
#[derive(Debug)]
pub struct Field {
    pub index: u32,
    pub ident: String,
    pub ty: SpirvType,
}

/// The fields of a struct whose fields are named `idents` and carry `attributes`: each
/// with its position as index and the type its attribute names. At most 255 fields, all
/// of supported types.
pub fn glsl_fields(idents: &Vec<String>, attributes: &Vec<GlslAttribute>) -> (r: Vec<Field>)
    requires
        idents@.len() == attributes@.len(),
        idents@.len() <= 255,
        forall|i: int| 0 <= i < attributes@.len() ==> attribute_supported(#[trigger] attributes@[i]),
    ensures
        r@.len() == idents@.len(),
        forall|i: int|
            0 <= i < r@.len() ==> (#[trigger] r@[i]).index == i && r@[i].ident@ == idents@[i]@ && Some(r@[i].ty)
                == glsl_type_named(attributes@[i].ty->0@),
{
    let mut out: Vec<Field> = Vec::new();
    let mut i: usize = 0;
    while i < idents.len()
        invariant
            idents@.len() == attributes@.len(),
            idents@.len() <= 255,
            forall|k: int| 0 <= k < attributes@.len() ==> attribute_supported(#[trigger] attributes@[k]),
            0 <= i <= idents@.len(),
            out@.len() == i,
            forall|k: int|
                0 <= k < i ==> (#[trigger] out@[k]).index == k && out@[k].ident@ == idents@[k]@ && Some(out@[k].ty)
                    == glsl_type_named(attributes@[k].ty->0@),
        decreases idents@.len() - i,
    {
        let ty = attributes[i].type_builder();
        out.push(Field { index: i as u32, ident: idents[i].clone(), ty });
        i = i + 1;
    }
    out
}

/// The member a field stands for.
pub fn glsl_member(field: &Field) -> (r: GlslStructMember)
    ensures
        r.name@ == field.ident@,
        *r.ty == field.ty,
        r.index == field.index,
{
    GlslStructMember { name: field.ident.clone(), ty: Rc::new(field.ty.duplicate()), index: field.index }
}

/// The struct named `name` made of the fields, in order.
pub fn glsl_struct_of(name: &str, fields: &Vec<Field>) -> (r: GlslStruct)
    ensures
        r.name@ == name@,
        r.members@.len() == fields@.len(),
        forall|i: int|
            0 <= i < fields@.len() ==> (#[trigger] r.members@[i]).name@ == fields@[i].ident@ && *r.members@[i].ty
                == fields@[i].ty && r.members@[i].index == fields@[i].index,
{
    let mut members: Vec<GlslStructMember> = Vec::new();
    let mut i: usize = 0;
    while i < fields.len()
        invariant
            0 <= i <= fields@.len(),
            members@.len() == i,
            forall|k: int|
                0 <= k < i ==> (#[trigger] members@[k]).name@ == fields@[k].ident@ && *members@[k].ty == fields@[k].ty
                    && members@[k].index == fields@[k].index,
        decreases fields@.len() - i,
    {
        members.push(glsl_member(&fields[i]));
        i = i + 1;
    }
    GlslStruct { name: name.to_owned(), members }
}

} // verus!
