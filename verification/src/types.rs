//! Reflection of SPIR-V types: their byte widths, how they match, how they print.
use crate::dims::{MatrixDims, VectorDims};
use crate::errors::Error;
use crate::storage_class::StorageClass;
use std::rc::Rc;
use vstd::prelude::*;

verus! {

/// The 32-bit float type.
#[derive(PartialEq, Eq, Structural, Clone, Copy, Debug)]
pub struct Float;

/// The 32-bit unsigned integer type.
#[derive(PartialEq, Eq, Structural, Clone, Copy, Debug)]
pub struct UnsignedInteger;

/// The boolean type.
#[derive(PartialEq, Eq, Structural, Clone, Copy, Debug)]
pub struct Bool;

/// A vector of `component_count` components.
#[derive(Debug)]
pub struct Vector {
    pub component: Rc<SpirvType>,
    pub component_count: u32,
}

/// A matrix of `column_count` columns, each of type `column_type`.
#[derive(Debug)]
pub struct Matrix {
    pub column_type: Rc<SpirvType>,
    pub column_count: u32,
}

/// A pointer into the given storage class.
#[derive(Debug)]
pub struct Pointer {
    pub storage_class: StorageClass,
    pub pointee_type: Rc<SpirvType>,
}

/// A member of a GLSL struct.
#[derive(Debug)]
pub struct GlslStructMember {
    pub name: String,
    pub ty: Rc<SpirvType>,
    pub index: u32,
}

/// A member of the GLSL struct `S`.
#[derive(Debug)]
pub struct BoxedGlslStructMember<S> {
    pub name: &'static str,
    pub ty: Rc<SpirvType>,
    pub index: u32,
    pub struct_marker: std::marker::PhantomData<S>,
}

/// A GLSL struct, laid out member after member.
#[derive(Debug)]
pub struct GlslStruct {
    pub name: String,
    pub members: Vec<GlslStructMember>,
}

/// Reflects a type in SPIR-V.
#[derive(Debug)]
pub enum SpirvType {
    Bool(Bool),
    Float(Float),
    UnsignedInteger(UnsignedInteger),
    Vector(Vector),
    Matrix(Matrix),
    Pointer(Pointer),
    Struct(Rc<GlslStruct>),
    /// The type of operations that failed to type.
    NoType,
}

/// `m` is a matrix of `cols` columns, each a float vector of `rows` components.
pub open spec fn is_float_matrix(m: Matrix, cols: u32, rows: u32) -> bool {
    &&& m.column_count == cols
    &&& match *m.column_type {
        SpirvType::Vector(v) => v.component_count == rows && *v.component == SpirvType::Float(
            Float,
        ),
        _ => false,
    }
}

/// Width in bytes of a type.
pub open spec fn spec_width(t: SpirvType) -> nat
    decreases t,
{
    match t {
        SpirvType::Bool(_) => 4,
        SpirvType::Float(_) => 4,
        SpirvType::UnsignedInteger(_) => 4,
        SpirvType::Vector(v) => spec_width(*v.component) * (v.component_count as nat),
        SpirvType::Matrix(m) => spec_width(*m.column_type) * (m.column_count as nat),
        SpirvType::Pointer(_) => 4,
        SpirvType::Struct(s) => members_width(s.members@),
        SpirvType::NoType => 0,
    }
}

/// Sum of the widths of struct members.
pub open spec fn members_width(ms: Seq<GlslStructMember>) -> nat
    decreases ms,
{
    if ms.len() == 0 {
        0
    } else {
        members_width(ms.drop_last()) + spec_width(*ms.last().ty)
    }
}

/// The width of the type, and of each type it is made of, fits in 32 bits.
pub open spec fn width_fits(t: SpirvType) -> bool
    decreases t,
{
    &&& spec_width(t) <= u32::MAX
    &&& match t {
        SpirvType::Vector(v) => width_fits(*v.component),
        SpirvType::Matrix(m) => width_fits(*m.column_type),
        SpirvType::Struct(s) => members_fit(s.members@),
        _ => true,
    }
}

/// Each member's width fits in 32 bits.
pub open spec fn members_fit(ms: Seq<GlslStructMember>) -> bool
    decreases ms,
{
    if ms.len() == 0 {
        true
    } else {
        members_fit(ms.drop_last()) && width_fits(*ms.last().ty)
    }
}

/// Number of components, when the type is a vector (its row count as a matrix column).
pub open spec fn spec_row_count(t: SpirvType) -> Option<u32> {
    match t {
        SpirvType::Vector(v) => Some(v.component_count),
        _ => None,
    }
}

/// Dimensions of the type as a matrix: a matrix whose columns are vectors.
pub open spec fn spec_matrix_dims(t: SpirvType) -> Option<MatrixDims> {
    match t {
        SpirvType::Matrix(m) => match spec_row_count(*m.column_type) {
            Some(rows) => Some(MatrixDims { cols: m.column_count, rows }),
            None => None,
        },
        _ => None,
    }
}

/// Dimension of the type as a vector.
pub open spec fn spec_vector_dims(t: SpirvType) -> Option<VectorDims> {
    match t {
        SpirvType::Vector(v) => Some(VectorDims { count: v.component_count }),
        _ => None,
    }
}

/// Whether two types match: the same kind, with matching parts and the same sizes.
/// Pointers match on their pointee types, whatever their storage classes; structs match
/// on their names and members.
pub open spec fn spec_matches(a: SpirvType, b: SpirvType) -> bool
    decreases a,
{
    match (a, b) {
        (SpirvType::Bool(_), SpirvType::Bool(_)) => true,
        (SpirvType::Float(_), SpirvType::Float(_)) => true,
        (SpirvType::UnsignedInteger(_), SpirvType::UnsignedInteger(_)) => true,
        (SpirvType::Vector(x), SpirvType::Vector(y)) => spec_matches(*x.component, *y.component)
            && x.component_count == y.component_count,
        (SpirvType::Matrix(x), SpirvType::Matrix(y)) => spec_matches(*x.column_type, *y.column_type)
            && x.column_count == y.column_count,
        (SpirvType::Pointer(x), SpirvType::Pointer(y)) => spec_matches(*x.pointee_type, *y.pointee_type),
        (SpirvType::Struct(x), SpirvType::Struct(y)) => x.name@ == y.name@ && members_match(x.members@, y.members@),
        _ => false,
    }
}

/// Members match pairwise: same names, matching types, same indices.
pub open spec fn members_match(xs: Seq<GlslStructMember>, ys: Seq<GlslStructMember>) -> bool
    decreases xs,
{
    if xs.len() != ys.len() {
        false
    } else if xs.len() == 0 {
        true
    } else {
        &&& members_match(xs.drop_last(), ys.drop_last())
        &&& xs.last().name@ == ys.last().name@
        &&& spec_matches(*xs.last().ty, *ys.last().ty)
        &&& xs.last().index == ys.last().index
    }
}

/// The decimal digit `d` (for `d < 10`).
pub open spec fn digit_char(d: nat) -> char {
    if d == 0 { '0' }
    else if d == 1 { '1' }
    else if d == 2 { '2' }
    else if d == 3 { '3' }
    else if d == 4 { '4' }
    else if d == 5 { '5' }
    else if d == 6 { '6' }
    else if d == 7 { '7' }
    else if d == 8 { '8' }
    else { '9' }
}

/// The decimal notation of `n`, without leading zeros.
pub open spec fn decimal(n: nat) -> Seq<char>
    decreases n,
{
    if n < 10 {
        seq![digit_char(n)]
    } else {
        decimal(n / 10).push(digit_char(n % 10))
    }
}

/// How a type is printed in diagnostics.
pub open spec fn spec_display(t: SpirvType) -> Seq<char>
    decreases t,
{
    match t {
        SpirvType::Bool(_) => "bool"@,
        SpirvType::Float(_) => "float"@,
        SpirvType::UnsignedInteger(_) => "uint32_t"@,
        SpirvType::Vector(v) => "vec"@ + decimal(v.component_count as nat) + "["@ + spec_display(
            *v.component,
        ) + "]"@,
        SpirvType::Matrix(m) => "mat"@ + decimal(m.column_count as nat) + "["@ + spec_display(
            *m.column_type,
        ) + "]"@,
        SpirvType::Pointer(p) => "*"@ + spec_display(*p.pointee_type),
        SpirvType::Struct(s) => s.name@,
        SpirvType::NoType => "<no type>"@,
    }
}

pub proof fn lemma_members_width_step(ms: Seq<GlslStructMember>, i: int)
    requires
        0 <= i < ms.len(),
    ensures
        members_width(ms.take(i + 1)) == members_width(ms.take(i)) + spec_width(*ms[i].ty),
{
    assert(ms.take(i + 1).drop_last() =~= ms.take(i));
}

pub proof fn lemma_members_width_prefix(ms: Seq<GlslStructMember>, i: int)
    requires
        0 <= i <= ms.len(),
    ensures
        members_width(ms.take(i)) <= members_width(ms),
    decreases ms.len() - i,
{
    if i < ms.len() {
        lemma_members_width_step(ms, i);
        lemma_members_width_prefix(ms, i + 1);
    } else {
        assert(ms.take(i) =~= ms);
    }
}

pub proof fn lemma_members_fit_each(ms: Seq<GlslStructMember>, i: int)
    requires
        members_fit(ms),
        0 <= i < ms.len(),
    ensures
        width_fits(*ms[i].ty),
    decreases ms.len(),
{
    if i < ms.len() - 1 {
        lemma_members_fit_each(ms.drop_last(), i);
    }
}

fn append_digit(s: &mut String, d: u32)
    requires
        d < 10,
    ensures
        final(s)@ == old(s)@.push(digit_char(d as nat)),
{
    let digit = match d {
        0 => "0",
        1 => "1",
        2 => "2",
        3 => "3",
        4 => "4",
        5 => "5",
        6 => "6",
        7 => "7",
        8 => "8",
        _ => "9",
    };
    proof {
        reveal_strlit("0");
        reveal_strlit("1");
        reveal_strlit("2");
        reveal_strlit("3");
        reveal_strlit("4");
        reveal_strlit("5");
        reveal_strlit("6");
        reveal_strlit("7");
        reveal_strlit("8");
        reveal_strlit("9");
    }
    s.append(digit);
}

/// Appends the decimal notation of `n`.
fn append_decimal(s: &mut String, n: u32)
    ensures
        final(s)@ == old(s)@ + decimal(n as nat),
    decreases n,
{
    if n >= 10 {
        append_decimal(s, n / 10);
    }
    append_digit(s, n % 10);
    assert(final(s)@ =~= old(s)@ + decimal(n as nat));
}

impl SpirvType {
    /// Width in bytes of the type.
    pub fn width(&self) -> (r: u32)
        requires
            width_fits(*self),
        ensures
            r == spec_width(*self),
        decreases *self,
    {
        match self {
            SpirvType::Vector(v) => {
                let c = v.component.width();
                c * v.component_count
            },
            SpirvType::Matrix(m) => {
                let c = m.column_type.width();
                c * m.column_count
            },
            SpirvType::Struct(st) => {
                let mut total: u32 = 0;
                let mut i: usize = 0;
                while i < st.members.len()
                    invariant
                        width_fits(*self),
                        *self == SpirvType::Struct(*st),
                        0 <= i <= st.members@.len(),
                        total == members_width(st.members@.take(i as int)),
                    decreases st.members@.len() - i,
                {
                    proof {
                        lemma_members_fit_each(st.members@, i as int);
                        lemma_members_width_step(st.members@, i as int);
                        lemma_members_width_prefix(st.members@, i + 1);
                    }
                    assert(decreases_to!(*self => *st.members@[i as int].ty));
                    let w = st.members[i].ty.width();
                    total = total + w;
                    i = i + 1;
                }
                assert(st.members@.take(i as int) =~= st.members@);
                total
            },
            SpirvType::NoType => 0,
            _ => 4,
        }
    }

    /// Number of components, when the type is a vector.
    pub fn row_count(&self) -> (r: Option<u32>)
        ensures
            r == spec_row_count(*self),
    {
        match self {
            SpirvType::Vector(v) => Some(v.component_count),
            _ => None,
        }
    }

    /// Dimensions of the type as a matrix whose columns are vectors.
    pub fn as_matrix_dims(&self) -> (r: Option<MatrixDims>)
        ensures
            r == spec_matrix_dims(*self),
    {
        match self {
            SpirvType::Matrix(m) => match m.column_type.row_count() {
                Some(rows) => Some(MatrixDims::new(m.column_count, rows)),
                None => None,
            },
            _ => None,
        }
    }

    /// Dimension of the type as a vector.
    pub fn as_vector_dims(&self) -> (r: Option<VectorDims>)
        ensures
            r == spec_vector_dims(*self),
    {
        match self {
            SpirvType::Vector(v) => Some(VectorDims::new(v.component_count)),
            _ => None,
        }
    }

    /// The type as a vector.
    pub fn as_vector(&self) -> (r: Option<Vector>)
        ensures
            match *self {
                SpirvType::Vector(v) => r == Some(v),
                _ => r is None,
            },
    {
        match self {
            SpirvType::Vector(v) => Some(Vector { component: v.component.clone(), component_count: v.component_count }),
            _ => None,
        }
    }

    /// The type as a matrix.
    pub fn as_matrix(&self) -> (r: Option<Matrix>)
        ensures
            match *self {
                SpirvType::Matrix(m) => r == Some(m),
                _ => r is None,
            },
    {
        match self {
            SpirvType::Matrix(m) => Some(Matrix { column_type: m.column_type.clone(), column_count: m.column_count }),
            _ => None,
        }
    }

    /// The type as a pointer.
    pub fn as_pointer(&self) -> (r: Option<Pointer>)
        ensures
            match *self {
                SpirvType::Pointer(p) => r == Some(p),
                _ => r is None,
            },
    {
        match self {
            SpirvType::Pointer(p) => Some(Pointer { storage_class: p.storage_class, pointee_type: p.pointee_type.clone() }),
            _ => None,
        }
    }

    /// A copy of the type, sharing its parts.
    pub fn duplicate(&self) -> (r: SpirvType)
        ensures
            r == *self,
    {
        match self {
            SpirvType::Bool(_) => SpirvType::Bool(Bool),
            SpirvType::Float(_) => SpirvType::Float(Float),
            SpirvType::UnsignedInteger(_) => SpirvType::UnsignedInteger(UnsignedInteger),
            SpirvType::Vector(v) => SpirvType::Vector(Vector { component: v.component.clone(), component_count: v.component_count }),
            SpirvType::Matrix(m) => SpirvType::Matrix(Matrix { column_type: m.column_type.clone(), column_count: m.column_count }),
            SpirvType::Pointer(p) => SpirvType::Pointer(Pointer { storage_class: p.storage_class, pointee_type: p.pointee_type.clone() }),
            SpirvType::Struct(s) => SpirvType::Struct(s.clone()),
            SpirvType::NoType => SpirvType::NoType,
        }
    }

    /// Whether the type matches `other` (see [`spec_matches`]).
    pub fn matches(&self, other: &SpirvType) -> (r: bool)
        ensures
            r == spec_matches(*self, *other),
        decreases *self,
    {
        match self {
            SpirvType::Bool(_) => matches!(other, SpirvType::Bool(_)),
            SpirvType::Float(_) => matches!(other, SpirvType::Float(_)),
            SpirvType::UnsignedInteger(_) => matches!(other, SpirvType::UnsignedInteger(_)),
            SpirvType::Vector(x) => match other {
                SpirvType::Vector(y) => x.component.matches(&y.component) && x.component_count
                    == y.component_count,
                _ => false,
            },
            SpirvType::Matrix(x) => match other {
                SpirvType::Matrix(y) => x.column_type.matches(&y.column_type) && x.column_count
                    == y.column_count,
                _ => false,
            },
            SpirvType::Pointer(x) => match other {
                SpirvType::Pointer(y) => x.pointee_type.matches(&y.pointee_type),
                _ => false,
            },
            SpirvType::Struct(x) => match other {
                SpirvType::Struct(y) => struct_matches(x, y),
                _ => false,
            },
            SpirvType::NoType => false,
        }
    }

    /// How the type is printed in diagnostics.
    pub fn display(&self) -> (r: String)
        ensures
            r@ == spec_display(*self),
        decreases *self,
    {
        match self {
            SpirvType::Bool(_) => String::from_str("bool"),
            SpirvType::Float(_) => String::from_str("float"),
            SpirvType::UnsignedInteger(_) => String::from_str("uint32_t"),
            SpirvType::Vector(v) => {
                let mut s = String::from_str("vec");
                append_decimal(&mut s, v.component_count);
                s.append("[");
                let inner = v.component.display();
                s.append(inner.as_str());
                s.append("]");
                s
            },
            SpirvType::Matrix(m) => {
                let mut s = String::from_str("mat");
                append_decimal(&mut s, m.column_count);
                s.append("[");
                let inner = m.column_type.display();
                s.append(inner.as_str());
                s.append("]");
                s
            },
            SpirvType::Pointer(p) => {
                let mut s = String::from_str("*");
                let inner = p.pointee_type.display();
                s.append(inner.as_str());
                s
            },
            SpirvType::Struct(st) => st.name.clone(),
            SpirvType::NoType => String::from_str("<no type>"),
        }
    }
}

/// Whether two structs match: same name and pairwise matching members.
fn struct_matches(x: &Rc<GlslStruct>, y: &Rc<GlslStruct>) -> (r: bool)
    ensures
        r == (x.name@ == y.name@ && members_match(x.members@, y.members@)),
    decreases x.members@,
{
    if !(x.name == y.name) || x.members.len() != y.members.len() {
        return false;
    }
    let mut i: usize = 0;
    while i < x.members.len()
        invariant
            x.members@.len() == y.members@.len(),
            0 <= i <= x.members@.len(),
            members_match(x.members@.take(i as int), y.members@.take(i as int)),
        decreases x.members@.len() - i,
    {
        let a = &x.members[i];
        let b = &y.members[i];
        assert(decreases_to!(x.members@ => *x.members@[i as int].ty));
        let ok = a.name == b.name && a.ty.matches(&b.ty) && a.index == b.index;
        assert(x.members@.take(i + 1).drop_last() =~= x.members@.take(i as int));
        assert(y.members@.take(i + 1).drop_last() =~= y.members@.take(i as int));
        if !ok {
            proof { lemma_members_match_prefix(x.members@, y.members@, i + 1); }
            return false;
        }
        i = i + 1;
    }
    assert(x.members@.take(i as int) =~= x.members@);
    assert(y.members@.take(i as int) =~= y.members@);
    true
}

/// A prefix of matching member lists matches; where a pair of members differ, the
/// lists do not match.
proof fn lemma_members_match_prefix(xs: Seq<GlslStructMember>, ys: Seq<GlslStructMember>, i: int)
    requires
        xs.len() == ys.len(),
        0 < i <= xs.len(),
        !members_match(xs.take(i), ys.take(i)),
    ensures
        !members_match(xs, ys),
    decreases xs.len() - i,
{
    if i < xs.len() {
        assert(xs.take(i + 1).drop_last() =~= xs.take(i));
        assert(ys.take(i + 1).drop_last() =~= ys.take(i));
        lemma_members_match_prefix(xs, ys, i + 1);
    } else {
        assert(xs.take(i) =~= xs);
        assert(ys.take(i) =~= ys);
    }
}

impl GlslStructMember {
    /// Whether the member matches `other`: the same name, a matching type and the same
    /// index.
    pub fn matches(&self, other: &GlslStructMember) -> (r: bool)
        ensures
            r == (self.name@ == other.name@ && spec_matches(*self.ty, *other.ty) && self.index
                == other.index),
    {
        if !(self.name == other.name) {
            return false;
        }
        if !self.ty.matches(&other.ty) {
            return false;
        }
        self.index == other.index
    }
}

/// A struct member, as the derive of GLSL structs reflects it.
pub type StructMember = GlslStructMember;

/// A float vector of `count` components.
pub open spec fn float_vector(count: u32) -> SpirvType {
    SpirvType::Vector(Vector { component: Rc::new(SpirvType::Float(Float)), component_count: count })
}

/// A square float matrix of `n` columns of `n` components.
pub open spec fn float_matrix(n: u32) -> SpirvType {
    SpirvType::Matrix(Matrix { column_type: Rc::new(float_vector(n)), column_count: n })
}

/// The type `vec2`: two floats.
pub fn vec2() -> (r: SpirvType)
    ensures
        r == float_vector(2),
{
    SpirvType::Vector(Vector::new(SpirvType::Float(Float), 2))
}

/// The type `vec3`: three floats.
pub fn vec3() -> (r: SpirvType)
    ensures
        r == float_vector(3),
{
    SpirvType::Vector(Vector::new(SpirvType::Float(Float), 3))
}

/// The type `vec4`: four floats.
pub fn vec4() -> (r: SpirvType)
    ensures
        r == float_vector(4),
{
    SpirvType::Vector(Vector::new(SpirvType::Float(Float), 4))
}

/// The type `mat3`: three columns of `vec3`.
pub fn mat3() -> (r: SpirvType)
    ensures
        r == float_matrix(3),
{
    SpirvType::Matrix(Matrix::new(vec3(), 3))
}

/// The type `mat4`: four columns of `vec4`.
pub fn mat4() -> (r: SpirvType)
    ensures
        r == float_matrix(4),
{
    SpirvType::Matrix(Matrix::new(vec4(), 4))
}

impl Vector {
    pub fn new(component: SpirvType, component_count: u32) -> (r: Vector)
        ensures
            *r.component == component,
            r.component_count == component_count,
    {
        Vector { component: Rc::new(component), component_count }
    }
}

impl Matrix {
    pub fn new(column_type: SpirvType, column_count: u32) -> (r: Matrix)
        ensures
            *r.column_type == column_type,
            r.column_count == column_count,
    {
        Matrix { column_type: Rc::new(column_type), column_count }
    }
}

impl Pointer {
    pub fn new(storage_class: StorageClass, pointee_type: Rc<SpirvType>) -> (r: Pointer)
        ensures
            r.storage_class == storage_class,
            r.pointee_type == pointee_type,
    {
        Pointer { storage_class, pointee_type }
    }
}

} // verus!

