//! Operations of shader functions, typed as they are built: an operation built from
//! arguments of the wrong types becomes a bad operation, which fails when registered.
use crate::dims::{MatrixDims, VectorDims};
use crate::errors::{BuildError, Error};
use crate::keys::{OpKeyModel, TypeKeyModel};
use crate::shader::{
    has_no_type, lemma_extends_refl, lemma_extends_trans, lemma_grows_extends, lemma_grows_trans,
    lemma_lookup_op_extend_all, lemma_lookup_type_extend_all, lemma_type_id_extend, lookup_op, lookup_type,
    declared_sections, register_fits, same_shader, shader_extends, spec_type_id, Shader,
};
use crate::model::{BuiltIn, Decoration, Word};
use crate::storage_class::StorageClass;
use crate::types::{
    is_float_matrix, spec_display, spec_matches, spec_matrix_dims, spec_vector_dims, Float, GlslStructMember,
    Matrix, Pointer, SpirvType, Vector,
};
use crate::vars::{
    global_var_decorations, global_var_key, register_bound_var, register_global, var_decorations, var_emitted, var_key, BuiltInVar, GlobalVar, InputVar, OutputVar,
    UniformVar, VarBinding,
};
use std::rc::Rc;
use vstd::prelude::*;

verus! {

/// Accessing fields on structs.
#[derive(Debug)]
pub struct Access {
    pub base: Rc<Op>,
    pub storage_class: StorageClass,
    pub pointer_type: Pointer,
    pub accessed_type: Rc<SpirvType>,
    pub access_chain: Vec<u32>,
}

/// Loading the object a pointer points to.
#[derive(Debug)]
pub struct Load {
    /// Pointer type of the object being loaded.
    pub pointer: Pointer,
    /// Object being loaded.
    pub object: Rc<Op>,
}

/// Storing an object through a pointer.
#[derive(Debug)]
pub struct Store {
    pub dest: Rc<Op>,
    pub dest_type: Pointer,
    pub source: Rc<Op>,
}

/// The product of two matrices.
#[derive(Debug)]
pub struct MatrixTimesMatrixMul {
    pub op_type: Matrix,
    pub lhs: Rc<Op>,
    pub rhs: Rc<Op>,
}

/// The product of a matrix and a vector.
#[derive(Debug)]
pub struct MatrixTimesVectorMul {
    pub op_type: Vector,
    pub lhs: Rc<Op>,
    pub rhs: Rc<Op>,
}

/// The transpose of a matrix.
#[derive(Debug)]
pub struct Transpose {
    pub op_type: Matrix,
    pub matrix: Rc<Op>,
}

/// A vector of `size` components extended with constant components.
#[derive(Debug)]
pub struct ExpandVec {
    pub name: &'static str,
    pub result_type: Vector,
    pub source: Rc<Op>,
    pub size: u32,
    /// Bit patterns of the 32-bit float constants appended.
    pub constants: Vec<u32>,
}

/// An operation whose arguments have the wrong types.
#[derive(Debug)]
pub struct BadOp {
    pub op_name: &'static str,
    pub reason: &'static str,
    pub causes: Vec<Rc<Op>>,
}

/// A pair of operands.
#[derive(Debug)]
pub struct Mul<L, R> {
    pub lhs: L,
    pub rhs: R,
}

impl<L, R> Mul<L, R> {
    pub fn new(lhs: L, rhs: R) -> (r: Mul<L, R>)
        ensures
            r.lhs == lhs,
            r.rhs == rhs,
    {
        Mul { lhs, rhs }
    }
}

/// An operation of a shader function.
#[derive(Debug)]
pub enum Op {
    Global(GlobalVar),
    Input(InputVar),
    Output(OutputVar),
    Uniform(UniformVar),
    BuiltIn(BuiltInVar),
    Access(Access),
    Load(Load),
    Store(Store),
    MatrixTimesMatrix(MatrixTimesMatrixMul),
    MatrixTimesVector(MatrixTimesVectorMul),
    Transpose(Transpose),
    ExpandVec(ExpandVec),
    Bad(BadOp),
}

/// The type of an operation's result.
pub open spec fn spec_op_type(op: Op) -> SpirvType
    decreases op,
{
    match op {
        Op::Global(v) => SpirvType::Pointer(v.ty),
        Op::Input(v) => SpirvType::Pointer(v.pointer),
        Op::Output(v) => SpirvType::Pointer(v.ty),
        Op::Uniform(v) => SpirvType::Pointer(v.pointer),
        Op::BuiltIn(v) => SpirvType::Pointer(v.ty),
        Op::Access(a) => SpirvType::Pointer(a.pointer_type),
        Op::Load(l) => *l.pointer.pointee_type,
        Op::Store(s) => spec_op_type(*s.dest),
        Op::MatrixTimesMatrix(m) => SpirvType::Matrix(m.op_type),
        Op::MatrixTimesVector(m) => SpirvType::Vector(m.op_type),
        Op::Transpose(t) => SpirvType::Matrix(t.op_type),
        Op::ExpandVec(e) => SpirvType::Vector(e.result_type),
        Op::Bad(_) => SpirvType::NoType,
    }
}

/// The storage class of the memory an operation refers to, for variables and accesses.
pub open spec fn spec_storage_class(op: Op) -> Option<StorageClass> {
    match op {
        Op::Global(v) => Some(v.storage_class),
        Op::Input(_) => Some(StorageClass::Input),
        Op::Output(_) => Some(StorageClass::Output),
        Op::Uniform(_) => Some(StorageClass::Uniform),
        Op::BuiltIn(v) => Some(v.storage_class),
        Op::Access(a) => Some(a.storage_class),
        _ => None,
    }
}

/// `v` is a float vector of `count` components.
pub open spec fn is_float_vector(v: Vector, count: u32) -> bool {
    v.component_count == count && *v.component == SpirvType::Float(Float)
}

impl Op {
    /// The type of the operation's result.
    pub fn op_type(&self) -> (r: SpirvType)
        ensures
            r == spec_op_type(*self),
        decreases *self,
    {
        match self {
            Op::Global(v) => SpirvType::Pointer(Pointer::new(v.ty.storage_class, v.ty.pointee_type.clone())),
            Op::Input(v) => SpirvType::Pointer(Pointer::new(v.pointer.storage_class, v.pointer.pointee_type.clone())),
            Op::Output(v) => SpirvType::Pointer(Pointer::new(v.ty.storage_class, v.ty.pointee_type.clone())),
            Op::Uniform(v) => SpirvType::Pointer(Pointer::new(v.pointer.storage_class, v.pointer.pointee_type.clone())),
            Op::BuiltIn(v) => SpirvType::Pointer(Pointer::new(v.ty.storage_class, v.ty.pointee_type.clone())),
            Op::Access(a) => SpirvType::Pointer(Pointer::new(a.pointer_type.storage_class, a.pointer_type.pointee_type.clone())),
            Op::Load(l) => l.pointer.pointee_type.duplicate(),
            Op::Store(s) => s.dest.op_type(),
            Op::MatrixTimesMatrix(m) => SpirvType::Matrix(Matrix { column_type: m.op_type.column_type.clone(), column_count: m.op_type.column_count }),
            Op::MatrixTimesVector(m) => SpirvType::Vector(Vector { component: m.op_type.component.clone(), component_count: m.op_type.component_count }),
            Op::Transpose(t) => SpirvType::Matrix(Matrix { column_type: t.op_type.column_type.clone(), column_count: t.op_type.column_count }),
            Op::ExpandVec(e) => SpirvType::Vector(Vector { component: e.result_type.component.clone(), component_count: e.result_type.component_count }),
            Op::Bad(_) => SpirvType::NoType,
        }
    }

    /// The storage class of the memory the operation refers to.
    pub fn storage_class(&self) -> (r: Option<StorageClass>)
        ensures
            r == spec_storage_class(*self),
    {
        match self {
            Op::Global(v) => Some(v.storage_class),
            Op::Input(_) => Some(StorageClass::Input),
            Op::Output(_) => Some(StorageClass::Output),
            Op::Uniform(_) => Some(StorageClass::Uniform),
            Op::BuiltIn(v) => Some(v.storage_class),
            Op::Access(a) => Some(a.storage_class),
            _ => None,
        }
    }

    /// If this is an access operation, the base being accessed.
    pub fn base(&self) -> (r: Option<&Rc<Op>>)
        ensures
            match *self {
                Op::Access(a) => r == Some(&a.base),
                _ => r is None,
            },
    {
        match self {
            Op::Access(a) => Some(&a.base),
            _ => None,
        }
    }

    /// If this is an access operation, its chain of member indices.
    pub fn access_chain(&self) -> (r: Option<&Vec<u32>>)
        ensures
            match *self {
                Op::Access(a) => r == Some(&a.access_chain),
                _ => r is None,
            },
    {
        match self {
            Op::Access(a) => Some(&a.access_chain),
            _ => None,
        }
    }

    /// This operation as a bad operation, if it is one.
    pub fn as_bad_op(&self) -> (r: Option<&BadOp>)
        ensures
            match *self {
                Op::Bad(b) => r == Some(&b),
                _ => r is None,
            },
    {
        match self {
            Op::Bad(b) => Some(b),
            _ => None,
        }
    }
}

impl BadOp {
    pub fn new(op_name: &'static str, reason: &'static str, causes: Vec<Rc<Op>>) -> (r: BadOp)
        ensures
            r.op_name == op_name,
            r.reason == reason,
            r.causes == causes,
    {
        BadOp { op_name, reason, causes }
    }
}

/// A bad operation named `name`, for `reason`, caused by the operands `causes`.
pub open spec fn is_bad(op: Op, name: &'static str, reason: &'static str, causes: Seq<Rc<Op>>) -> bool {
    op matches Op::Bad(b) && b.op_name == name && b.reason == reason && b.causes@ == causes
}

/// Load the object that `object` points to; a bad operation unless `object` is a pointer.
pub fn load(object: Rc<Op>) -> (r: Rc<Op>)
    ensures
        match spec_op_type(*object) {
            SpirvType::Pointer(p) => *r == Op::Load(Load { pointer: p, object }),
            _ => is_bad(*r, "load", "expected pointer", seq![object]),
        },
{
    match object.op_type() {
        SpirvType::Pointer(pointer) => Rc::new(Op::Load(Load { pointer, object })),
        _ => {
            let ghost o = object;
            let mut causes: Vec<Rc<Op>> = Vec::new();
            causes.push(object);
            assert(causes@ =~= seq![o]);
            Rc::new(Op::Bad(BadOp::new("load", "expected pointer", causes)))
        },
    }
}

/// Store `source` through the pointer `dest`; a bad operation unless `dest` is a
/// pointer to a type that matches the type of `source`.
pub fn store(dest: Rc<Op>, source: Rc<Op>) -> (r: Rc<Op>)
    ensures
        match spec_op_type(*dest) {
            SpirvType::Pointer(p) => if spec_matches(*p.pointee_type, spec_op_type(*source)) {
                *r == Op::Store(Store { dest, dest_type: p, source })
            } else {
                is_bad(*r, "store", "argument type mismatch", seq![dest, source])
            },
            _ => is_bad(*r, "store", "argument type mismatch", seq![dest, source]),
        },
{
    if let SpirvType::Pointer(dest_type) = dest.op_type() {
        if dest_type.pointee_type.matches(&source.op_type()) {
            return Rc::new(Op::Store(Store { dest, dest_type, source }));
        }
    }
    Rc::new(Op::Bad(BadOp::new("store", "argument type mismatch", vec![dest, source])))
}

impl SpirvType {
    /// The type of the product of this matrix and the matrix `rhs`: `None` unless both
    /// are matrices of vectors, an error when their dimensions mismatch.
    pub fn matrix_times_matrix(&self, rhs: &SpirvType) -> (r: Result<Option<Matrix>, Error>)
        ensures
            match (spec_matrix_dims(*self), spec_matrix_dims(*rhs)) {
                (Some(a), Some(b)) => if a.cols == b.rows {
                    r matches Ok(Some(m)) && is_float_matrix(m, b.cols, a.rows)
                } else {
                    r matches Err(e) && e == Error::MatrixTimesMatrixMismatch(a, b)
                },
                _ => r matches Ok(None),
            },
    {
        match (self.as_matrix_dims(), rhs.as_matrix_dims()) {
            (Some(lhs_dims), Some(rhs_dims)) => match lhs_dims.matrix_mul_type(rhs_dims) {
                Ok(m) => Ok(Some(m)),
                Err(e) => Err(e),
            },
            _ => Ok(None),
        }
    }

    /// The type of the product of this matrix and the vector `rhs`: `None` unless this
    /// is a matrix of vectors and `rhs` a vector, an error when their dimensions mismatch.
    pub fn matrix_times_vector(&self, rhs: &SpirvType) -> (r: Result<Option<Vector>, Error>)
        ensures
            match (spec_matrix_dims(*self), spec_vector_dims(*rhs)) {
                (Some(a), Some(v)) => if a.cols == v.count {
                    r matches Ok(Some(x)) && is_float_vector(x, a.rows)
                } else {
                    r matches Err(e) && e == Error::MatrixTimesVectorMismatch(a, v)
                },
                _ => r matches Ok(None),
            },
    {
        match (self.as_matrix_dims(), rhs.as_vector_dims()) {
            (Some(lhs_dims), Some(rhs_dims)) => match lhs_dims.vector_mul_type(rhs_dims) {
                Ok(v) => Ok(Some(v)),
                Err(e) => Err(e),
            },
            _ => Ok(None),
        }
    }
}

/// The matrix-matrix product is defined for the two types.
pub open spec fn mat_mat_defined(l: SpirvType, r: SpirvType) -> bool {
    spec_matrix_dims(l) is Some && spec_matrix_dims(r) is Some
        && spec_matrix_dims(l)->0.cols == spec_matrix_dims(r)->0.rows
}

/// The matrix-vector product is defined for the two types.
pub open spec fn mat_vec_defined(l: SpirvType, r: SpirvType) -> bool {
    spec_matrix_dims(l) is Some && spec_vector_dims(r) is Some
        && spec_matrix_dims(l)->0.cols == spec_vector_dims(r)->0.count
}

/// Perform a multiply operation on the two arguments: a matrix-matrix product when
/// both are matrices of matching dimensions, otherwise a matrix-vector product when
/// the dimensions of the matrix and the vector match, otherwise a bad operation.
pub fn mul(lhs: Rc<Op>, rhs: Rc<Op>) -> (r: Rc<Op>)
    ensures
        ({
            let (l, t) = (spec_op_type(*lhs), spec_op_type(*rhs));
            if mat_mat_defined(l, t) {
                *r matches Op::MatrixTimesMatrix(m) && m.lhs == lhs && m.rhs == rhs && is_float_matrix(
                    m.op_type,
                    spec_matrix_dims(t)->0.cols,
                    spec_matrix_dims(l)->0.rows,
                )
            } else if mat_vec_defined(l, t) {
                *r matches Op::MatrixTimesVector(m) && m.lhs == lhs && m.rhs == rhs && is_float_vector(
                    m.op_type,
                    spec_matrix_dims(l)->0.rows,
                )
            } else {
                is_bad(*r, "mul", "argument type mismatch", seq![lhs, rhs])
            }
        }),
{
    let lhs_type = lhs.op_type();
    let rhs_type = rhs.op_type();
    if let Ok(Some(op_type)) = lhs_type.matrix_times_matrix(&rhs_type) {
        return Rc::new(Op::MatrixTimesMatrix(MatrixTimesMatrixMul { op_type, lhs, rhs }));
    }
    if let Ok(Some(op_type)) = lhs_type.matrix_times_vector(&rhs_type) {
        return Rc::new(Op::MatrixTimesVector(MatrixTimesVectorMul { op_type, lhs, rhs }));
    }
    Rc::new(Op::Bad(BadOp::new("mul", "argument type mismatch", vec![lhs, rhs])))
}

/// Reflects a transpose operation: defined for a matrix of vectors, whose transpose has
/// as many columns as it has rows and columns as long as its number of columns.
pub fn transpose(matrix: Rc<Op>) -> (r: Rc<Op>)
    ensures
        match spec_matrix_dims(spec_op_type(*matrix)) {
            Some(d) => *r matches Op::Transpose(t) && t.matrix == matrix && is_float_matrix(t.op_type, d.rows, d.cols),
            None => is_bad(*r, "transpose", "expected transposable matrix", seq![matrix]),
        },
{
    if let Some(dims) = matrix.op_type().as_matrix_dims() {
        if let Ok(op_type) = dims.transpose_type() {
            return Rc::new(Op::Transpose(Transpose { op_type, matrix }));
        }
    }
    let ghost m = matrix;
    let mut causes: Vec<Rc<Op>> = Vec::new();
    causes.push(matrix);
    assert(causes@ =~= seq![m]);
    Rc::new(Op::Bad(BadOp::new("transpose", "expected transposable matrix", causes)))
}

/// Extends a vector of `size` components with the constants `constants` (bit patterns of
/// 32-bit floats) into a float vector; an error unless `source` is a vector of `size`
/// components.
fn expand_vec(name: &'static str, source: Rc<Op>, size: u32, constants: Vec<u32>) -> (r: Result<Rc<Op>, Error>)
    requires
        size + constants@.len() <= u32::MAX,
    ensures
        match spec_op_type(*source) {
            SpirvType::Vector(v) if v.component_count == size => r matches Ok(op) && *op matches Op::ExpandVec(e)
                && e.name == name && e.source == source && e.size == size && e.constants@ == constants@
                && is_float_vector(e.result_type, (size + constants@.len()) as u32),
            _ => r matches Err(e) && e matches Error::VecMismatch(n, t) && n == name && t@ == crate::types::spec_display(spec_op_type(*source)),
        },
{
    let source_type = source.op_type();
    if let Some(vector) = source_type.as_vector() {
        if vector.component_count == size {
            let result_type = Vector::new(SpirvType::Float(Float), size + constants.len() as u32);
            return Ok(Rc::new(Op::ExpandVec(ExpandVec { name, result_type, source, size, constants })));
        }
    }
    Err(Error::VecMismatch(name, source_type.display()))
}

/// Extends a 2-component vector with the component `z` (a 32-bit float bit pattern).
pub fn vec2_to_vec3(source: Rc<Op>, z: u32) -> (r: Result<Rc<Op>, Error>)
    ensures
        match spec_op_type(*source) {
            SpirvType::Vector(v) if v.component_count == 2 => r matches Ok(op) && *op matches Op::ExpandVec(e)
                && e.source == source && e.size == 2 && e.constants@ == seq![z] && is_float_vector(e.result_type, 3),
            _ => r matches Err(e) && e matches Error::VecMismatch(n, t) && n == "vec2_to_vec3" && t@ == crate::types::spec_display(spec_op_type(*source)),
        },
{
    let mut constants: Vec<u32> = Vec::new();
    constants.push(z);
    expand_vec("vec2_to_vec3", source, 2, constants)
}

/// Extends a 2-component vector with the components `z` and `w` (32-bit float bit patterns).
pub fn vec2_to_vec4(source: Rc<Op>, z: u32, w: u32) -> (r: Result<Rc<Op>, Error>)
    ensures
        match spec_op_type(*source) {
            SpirvType::Vector(v) if v.component_count == 2 => r matches Ok(op) && *op matches Op::ExpandVec(e)
                && e.source == source && e.size == 2 && e.constants@ == seq![z, w] && is_float_vector(e.result_type, 4),
            _ => r matches Err(e) && e matches Error::VecMismatch(n, t) && n == "vec2_to_vec4" && t@ == crate::types::spec_display(spec_op_type(*source)),
        },
{
    let mut constants: Vec<u32> = Vec::new();
    constants.push(z);
    constants.push(w);
    expand_vec("vec2_to_vec4", source, 2, constants)
}

/// Extends a 3-component vector with the component `w` (a 32-bit float bit pattern).
pub fn vec3_to_vec4(source: Rc<Op>, w: u32) -> (r: Result<Rc<Op>, Error>)
    ensures
        match spec_op_type(*source) {
            SpirvType::Vector(v) if v.component_count == 3 => r matches Ok(op) && *op matches Op::ExpandVec(e)
                && e.source == source && e.size == 3 && e.constants@ == seq![w] && is_float_vector(e.result_type, 4),
            _ => r matches Err(e) && e matches Error::VecMismatch(n, t) && n == "vec3_to_vec4" && t@ == crate::types::spec_display(spec_op_type(*source)),
        },
{
    let mut constants: Vec<u32> = Vec::new();
    constants.push(w);
    expand_vec("vec3_to_vec4", source, 3, constants)
}

/// `a` accesses the struct member `member` of the memory `op` refers to: from the base
/// of `op` when `op` is itself an access, extending its chain with the member's index.
pub open spec fn is_member_access(a: Op, op: Rc<Op>, member: GlslStructMember) -> bool {
    &&& a matches Op::Access(acc)
    &&& acc.storage_class == spec_storage_class(*op)->0
    &&& acc.base == (match *op {
        Op::Access(b) => b.base,
        _ => op,
    })
    &&& acc.access_chain@ == (match *op {
        Op::Access(b) => b.access_chain@,
        _ => Seq::<u32>::empty(),
    }).push(member.index)
    &&& acc.accessed_type == member.ty
    &&& acc.pointer_type == (Pointer { storage_class: acc.storage_class, pointee_type: member.ty })
}

/// Access the struct member `member` of the memory `op` refers to; an error when `op`
/// refers to no memory.
pub fn access_member(op: &Rc<Op>, member: &GlslStructMember) -> (r: Result<Rc<Op>, Error>)
    ensures
        spec_storage_class(**op) is None <==> r is Err,
        r matches Err(e) ==> e == Error::NoStorageClass,
        r matches Ok(a) ==> is_member_access(*a, *op, *member),
{
    let storage_class = match op.storage_class() {
        Some(s) => s,
        None => return Err(Error::NoStorageClass),
    };
    let base = match op.base() {
        Some(b) => b.clone(),
        None => op.clone(),
    };
    let mut access_chain: Vec<u32> = Vec::new();
    if let Some(chain) = op.access_chain() {
        let mut i: usize = 0;
        while i < chain.len()
            invariant
                0 <= i <= chain@.len(),
                access_chain@ == chain@.take(i as int),
            decreases chain@.len() - i,
        {
            access_chain.push(chain[i]);
            i = i + 1;
            assert(access_chain@ =~= chain@.take(i as int));
        }
        assert(chain@.take(i as int) =~= chain@);
    }
    access_chain.push(member.index);
    Ok(Rc::new(Op::Access(Access {
        base,
        storage_class,
        pointer_type: Pointer::new(storage_class, member.ty.clone()),
        accessed_type: member.ty.clone(),
        access_chain,
    })))
}

/// The bad operations among `causes`, in order.
pub open spec fn bad_causes(causes: Seq<Rc<Op>>) -> Seq<BadOp>
    decreases causes.len(),
{
    if causes.len() == 0 {
        Seq::empty()
    } else {
        bad_causes(causes.drop_last()) + match *causes.last() {
            Op::Bad(b) => seq![b],
            _ => Seq::empty(),
        }
    }
}

/// The number of bad operations in `b` and, transitively, among its causes.
pub open spec fn bad_size(b: BadOp) -> nat
    decreases b,
{
    1 + causes_size(b.causes@)
}

/// The number of bad operations among `causes` and, transitively, their causes.
pub open spec fn causes_size(causes: Seq<Rc<Op>>) -> nat
    decreases causes,
{
    if causes.len() == 0 {
        0
    } else {
        causes_size(causes.drop_last()) + match *causes.last() {
            Op::Bad(b) => bad_size(b),
            _ => 0,
        }
    }
}

/// The number of bad operations in a queue and, transitively, their causes.
pub open spec fn queue_size(q: Seq<BadOp>) -> nat
    decreases q.len(),
{
    if q.len() == 0 {
        0
    } else {
        queue_size(q.drop_last()) + bad_size(q.last())
    }
}

pub proof fn lemma_queue_size_append(a: Seq<BadOp>, b: Seq<BadOp>)
    ensures
        queue_size(a + b) == queue_size(a) + queue_size(b),
    decreases b.len(),
{
    if b.len() == 0 {
        assert(a + b =~= a);
    } else {
        assert((a + b).drop_last() =~= a + b.drop_last());
        lemma_queue_size_append(a, b.drop_last());
    }
}

pub proof fn lemma_queue_size_first(q: Seq<BadOp>)
    requires
        q.len() > 0,
    ensures
        queue_size(q) == bad_size(q[0]) + queue_size(q.drop_first()),
{
    assert(q =~= seq![q[0]] + q.drop_first());
    lemma_queue_size_append(seq![q[0]], q.drop_first());
    lemma_queue_size_single(q[0]);
}

proof fn lemma_queue_size_single(b: BadOp)
    ensures
        queue_size(seq![b]) == bad_size(b),
{
    assert(seq![b].drop_last() =~= Seq::<BadOp>::empty());
    assert(queue_size(Seq::<BadOp>::empty()) == 0);
}

pub proof fn lemma_bad_causes_size(causes: Seq<Rc<Op>>)
    ensures
        queue_size(bad_causes(causes)) == causes_size(causes),
    decreases causes.len(),
{
    if causes.len() > 0 {
        lemma_bad_causes_size(causes.drop_last());
        let tail = match *causes.last() {
            Op::Bad(b) => seq![b],
            _ => Seq::<BadOp>::empty(),
        };
        assert(bad_causes(causes) == bad_causes(causes.drop_last()) + tail);
        lemma_queue_size_append(bad_causes(causes.drop_last()), tail);
        match *causes.last() {
            Op::Bad(b) => lemma_queue_size_single(b),
            _ => {
                assert(queue_size(tail) == 0);
            },
        }
    } else {
        assert(queue_size(Seq::<BadOp>::empty()) == 0);
    }
}

/// The bad operations reached by a breadth-first walk from the queue `q` through
/// the causes that are themselves bad, in the order they are visited.
pub open spec fn bad_walk(q: Seq<BadOp>) -> Seq<BadOp>
    decreases queue_size(q),
{
    if q.len() == 0 {
        Seq::empty()
    } else {
        proof {
            lemma_queue_size_first(q);
            lemma_queue_size_append(q.drop_first(), bad_causes(q[0].causes@));
            lemma_bad_causes_size(q[0].causes@);
        }
        seq![q[0]] + bad_walk(q.drop_first() + bad_causes(q[0].causes@))
    }
}

/// The root cause of a bad operation: the last bad operation the walk visits, that is
/// one of the deepest.
pub open spec fn root_cause(b: BadOp) -> BadOp {
    bad_walk(seq![b]).last()
}

/// `e` reports the bad operation `b`: the name and reason of its root cause, and how
/// the types of the root cause's operands print.
pub open spec fn is_bad_op_error(e: Error, b: BadOp) -> bool {
    let root = root_cause(b);
    e matches Error::BadOp { op, reason, arguments } && op == root.op_name && reason == root.reason
        && arguments@.map_values(|s: String| s@) == root.causes@.map_values(
        |c: Rc<Op>| spec_display(spec_op_type(*c)),
    )
}

proof fn lemma_bad_walk_nonempty(q: Seq<BadOp>)
    requires
        q.len() > 0,
    ensures
        bad_walk(q).len() > 0,
        bad_walk(q)[0] == q[0],
{
}

impl BadOp {
    /// The error this bad operation reports (see [`is_bad_op_error`]).
    pub fn report(&self) -> (e: Error)
        ensures
            is_bad_op_error(e, *self),
    {
        let mut queue: Vec<&BadOp> = Vec::new();
        queue.push(self);
        let mut head: usize = 0;
        let mut current: &BadOp = self;
        let ghost start = seq![*self];
        proof { lemma_bad_walk_nonempty(start); }
        assert(queue@.map_values(|x: &BadOp| *x) =~= start);
        while head < queue.len()
            invariant
                0 <= head <= queue@.len(),
                queue@.len() > 0,
                bad_walk(start) == queue@.map_values(|x: &BadOp| *x).take(head as int) + bad_walk(
                    queue@.map_values(|x: &BadOp| *x).skip(head as int),
                ),
                head > 0 ==> *current == *queue@[head - 1],
                head == 0 ==> *current == *self && *queue@[0] == *self,
            decreases queue_size(queue@.map_values(|x: &BadOp| *x).skip(head as int)),
        {
            let ghost q0 = queue@.map_values(|x: &BadOp| *x);
            let next = queue[head];
            let ghost children = bad_causes(next.causes@);
            let mut j: usize = 0;
            while j < next.causes.len()
                invariant
                    0 <= j <= next.causes@.len(),
                    queue@.map_values(|x: &BadOp| *x) == q0 + bad_causes(next.causes@.take(j as int)),
                    q0.len() > head,
                decreases next.causes@.len() - j,
            {
                assert(next.causes@.take(j + 1).drop_last() =~= next.causes@.take(j as int));
                assert(next.causes@.take(j + 1).last() == next.causes@[j as int]);
                let ghost before = queue@;
                if let Op::Bad(b) = &*next.causes[j] {
                    queue.push(b);
                    assert(queue@.map_values(|x: &BadOp| *x) =~= before.map_values(|x: &BadOp| *x).push(*b));
                } else {
                    assert(queue@.map_values(|x: &BadOp| *x) =~= before.map_values(|x: &BadOp| *x));
                }
                proof {
                    let qm = queue@.map_values(|x: &BadOp| *x);
                    assert(qm =~= q0 + bad_causes(next.causes@.take(j + 1)));
                }
                j = j + 1;
            }
            assert(next.causes@.take(j as int) =~= next.causes@);
            proof {
                let q1 = queue@.map_values(|x: &BadOp| *x);
                let rest = q0.skip(head as int);
                assert(rest[0] == *next);
                assert(q1.skip(head + 1) =~= rest.drop_first() + children);
                assert(q1.take(head + 1) =~= q0.take(head as int).push(*next));
                assert(bad_walk(rest) == seq![*next] + bad_walk(rest.drop_first() + children));
                assert(bad_walk(start) =~= q1.take(head + 1) + bad_walk(q1.skip(head + 1)));
                lemma_queue_size_first(rest);
                lemma_queue_size_append(rest.drop_first(), children);
                lemma_bad_causes_size(next.causes@);
            }
            proof {
                let q1 = queue@.map_values(|x: &BadOp| *x);
                assert(q1[head as int] == q0[head as int]);
                assert(q1[head as int] == *queue@[head as int]);
                assert(q0[head as int] == *next);
            }
            current = next;
            head = head + 1;
        }
        proof {
            let qm = queue@.map_values(|x: &BadOp| *x);
            assert(qm.skip(head as int) =~= Seq::<BadOp>::empty());
            assert(bad_walk(start) =~= qm.take(head as int));
        }
        let mut arguments: Vec<String> = Vec::new();
        let mut k: usize = 0;
        while k < current.causes.len()
            invariant
                0 <= k <= current.causes@.len(),
                arguments@.map_values(|s: String| s@) == current.causes@.take(k as int).map_values(
                    |c: Rc<Op>| spec_display(spec_op_type(*c)),
                ),
            decreases current.causes@.len() - k,
        {
            let d = current.causes[k].op_type().display();
            let ghost before = arguments@;
            arguments.push(d);
            assert(arguments@.map_values(|s: String| s@) =~= before.map_values(|s: String| s@).push(d@));
            assert(current.causes@.take(k + 1) =~= current.causes@.take(k as int).push(current.causes@[k as int]));
            proof {
                assert(arguments@.map_values(|s: String| s@) =~= current.causes@.take(k + 1).map_values(
                    |c: Rc<Op>| spec_display(spec_op_type(*c)),
                ));
            }
            k = k + 1;
        }
        assert(current.causes@.take(k as int) =~= current.causes@);
        Error::BadOp { op: current.op_name, reason: current.reason, arguments }
    }
}

/// Accessing members of structs that an operation refers to.
pub trait AccessTrait {
    fn access_member(&self, member: &GlslStructMember) -> Result<Rc<Op>, Error>;
}

impl AccessTrait for Rc<Op> {
    /// Access `member` of the struct this operation refers to; fails when the operation
    /// refers to no memory.
    fn access_member(&self, member: &GlslStructMember) -> (r: Result<Rc<Op>, Error>)
        ensures
            spec_storage_class(**self) is None <==> r is Err,
            r matches Err(e) ==> e == Error::NoStorageClass,
            r matches Ok(a) ==> is_member_access(*a, *self, *member),
    {
        access_member(self, member)
    }
}

/// Registered access: the base object, the type ids and the constant ids of the chain.
#[derive(Debug)]
pub struct RegisteredAccess {
    pub base: Rc<RegOp>,
    pub result_type: Word,
    pub pointer_type: Word,
    pub access_chain: Vec<Word>,
}

/// Expand a vector.
#[derive(Debug)]
pub struct VecExpand {
    /// The extract component type.
    pub component_type: Word,
    /// The type of the resulting object.
    pub result_type: Word,
    /// Source of the vector to expand.
    pub source: Box<RegOp>,
    /// Previous size of the vector.
    pub size: u32,
    /// Constant values to expand the vector with.
    pub constants: Vec<Word>,
}

/// Registered load: the id of the loaded type and the object to load from.
#[derive(Debug)]
pub struct RegisteredLoad {
    pub result_type: Word,
    pub object: Box<RegOp>,
}

/// Registered store: the id of the stored type, the destination and the source.
#[derive(Debug)]
pub struct RegisteredStore {
    pub result_type: Word,
    pub dest: Box<RegOp>,
    pub source: Box<RegOp>,
}

/// Registered matrix-times-matrix product: the id of the product's type and the operands.
#[derive(Debug)]
pub struct MatrixTimesMatrixRegMul {
    pub result_type: Word,
    pub lhs: Box<RegOp>,
    pub rhs: Box<RegOp>,
}

/// Registered matrix-times-vector product: the id of the product's type and the operands.
#[derive(Debug)]
pub struct MatrixTimesVectorRegMul {
    pub result_type: Word,
    pub lhs: Box<RegOp>,
    pub rhs: Box<RegOp>,
}

/// Registered transposition: the id of the transposed type and the matrix.
#[derive(Debug)]
pub struct RegTranspose {
    pub result_type: Word,
    pub matrix: Box<RegOp>,
}

/// An operation whose types, constants and variables are declared, ready to be emitted
/// into a function.
#[derive(Debug)]
pub enum RegOp {
    Var(Word),
    Access(RegisteredAccess),
    Load(RegisteredLoad),
    Store(RegisteredStore),
    MatrixTimesMatrix(MatrixTimesMatrixRegMul),
    MatrixTimesVector(MatrixTimesVectorRegMul),
    Transpose(RegTranspose),
    VecExpand(VecExpand),
}

/// The layouts of every type the operation registers can be computed in 32 bits.
pub open spec fn op_fits(op: Op) -> bool
    decreases op,
{
    match op {
        Op::Global(v) => register_fits(SpirvType::Pointer(v.ty)),
        Op::Input(v) => register_fits(SpirvType::Pointer(v.pointer)),
        Op::Output(v) => register_fits(SpirvType::Pointer(v.ty)),
        Op::Uniform(v) => register_fits(SpirvType::Pointer(v.pointer)),
        Op::BuiltIn(v) => register_fits(SpirvType::Pointer(v.ty)),
        Op::Access(a) => op_fits(*a.base) && register_fits(*a.accessed_type) && register_fits(
            SpirvType::Pointer(a.pointer_type),
        ),
        Op::Load(l) => register_fits(*l.pointer.pointee_type) && op_fits(*l.object),
        Op::Store(st) => register_fits(spec_op_type(*st.dest)) && op_fits(*st.dest) && op_fits(*st.source),
        Op::MatrixTimesMatrix(m) => register_fits(SpirvType::Matrix(m.op_type)) && op_fits(*m.lhs)
            && op_fits(*m.rhs),
        Op::MatrixTimesVector(m) => register_fits(SpirvType::Vector(m.op_type)) && op_fits(*m.lhs)
            && op_fits(*m.rhs),
        Op::Transpose(t) => register_fits(SpirvType::Matrix(t.op_type)) && op_fits(*t.matrix),
        Op::ExpandVec(e) => register_fits(*e.result_type.component) && register_fits(
            SpirvType::Vector(e.result_type),
        ) && op_fits(*e.source),
        Op::Bad(_) => true,
    }
}

/// Registering the operation fails: it contains a bad operation or the absent type.
pub open spec fn reg_fails(op: Op) -> bool
    decreases op,
{
    match op {
        Op::Global(v) => has_no_type(SpirvType::Pointer(v.ty)),
        Op::Input(v) => has_no_type(SpirvType::Pointer(v.pointer)),
        Op::Output(v) => has_no_type(SpirvType::Pointer(v.ty)),
        Op::Uniform(v) => has_no_type(SpirvType::Pointer(v.pointer)),
        Op::BuiltIn(v) => has_no_type(SpirvType::Pointer(v.ty)),
        Op::Access(a) => reg_fails(*a.base) || has_no_type(*a.accessed_type) || has_no_type(
            SpirvType::Pointer(a.pointer_type),
        ),
        Op::Load(l) => has_no_type(*l.pointer.pointee_type) || reg_fails(*l.object),
        Op::Store(st) => has_no_type(spec_op_type(*st.dest)) || reg_fails(*st.dest) || reg_fails(*st.source),
        Op::MatrixTimesMatrix(m) => has_no_type(SpirvType::Matrix(m.op_type)) || reg_fails(*m.lhs)
            || reg_fails(*m.rhs),
        Op::MatrixTimesVector(m) => has_no_type(SpirvType::Vector(m.op_type)) || reg_fails(*m.lhs)
            || reg_fails(*m.rhs),
        Op::Transpose(t) => has_no_type(SpirvType::Matrix(t.op_type)) || reg_fails(*t.matrix),
        Op::ExpandVec(e) => has_no_type(*e.result_type.component) || has_no_type(SpirvType::Vector(e.result_type))
            || reg_fails(*e.source),
        Op::Bad(_) => true,
    }
}

/// `e` is the error registering `op` fails with: the first failure met, operands and
/// types being registered in order.
pub open spec fn reg_error(op: Op, e: Error) -> bool
    decreases op,
{
    match op {
        Op::Access(a) => if reg_fails(*a.base) {
            reg_error(*a.base, e)
        } else {
            e == Error::NoType
        },
        Op::Load(l) => if has_no_type(*l.pointer.pointee_type) {
            e == Error::NoType
        } else {
            reg_error(*l.object, e)
        },
        Op::Store(st) => if has_no_type(spec_op_type(*st.dest)) {
            e == Error::NoType
        } else if reg_fails(*st.dest) {
            reg_error(*st.dest, e)
        } else {
            reg_error(*st.source, e)
        },
        Op::MatrixTimesMatrix(m) => if has_no_type(SpirvType::Matrix(m.op_type)) {
            e == Error::NoType
        } else if reg_fails(*m.lhs) {
            reg_error(*m.lhs, e)
        } else {
            reg_error(*m.rhs, e)
        },
        Op::MatrixTimesVector(m) => if has_no_type(SpirvType::Vector(m.op_type)) {
            e == Error::NoType
        } else if reg_fails(*m.lhs) {
            reg_error(*m.lhs, e)
        } else {
            reg_error(*m.rhs, e)
        },
        Op::Transpose(t) => if has_no_type(SpirvType::Matrix(t.op_type)) {
            e == Error::NoType
        } else {
            reg_error(*t.matrix, e)
        },
        Op::ExpandVec(x) => if has_no_type(*x.result_type.component) || has_no_type(SpirvType::Vector(x.result_type)) {
            e == Error::NoType
        } else {
            reg_error(*x.source, e)
        },
        Op::Bad(b) => is_bad_op_error(e, b),
        _ => e == Error::NoType,
    }
}

/// The registered operation has the shape of the operation.
pub open spec fn reg_shape(op: Op, reg: RegOp) -> bool
    decreases op,
{
    match op {
        Op::Access(a) => reg matches RegOp::Access(ra) && reg_shape(*a.base, *ra.base)
            && ra.access_chain@.len() == a.access_chain@.len(),
        Op::Load(l) => reg matches RegOp::Load(RegisteredLoad { object, .. }) && reg_shape(*l.object, *object),
        Op::Store(st) => reg matches RegOp::Store(RegisteredStore { dest, source, .. }) && reg_shape(*st.dest, *dest)
            && reg_shape(*st.source, *source),
        Op::MatrixTimesMatrix(m) => reg matches RegOp::MatrixTimesMatrix(MatrixTimesMatrixRegMul { lhs, rhs, .. }) && reg_shape(*m.lhs, *lhs)
            && reg_shape(*m.rhs, *rhs),
        Op::MatrixTimesVector(m) => reg matches RegOp::MatrixTimesVector(MatrixTimesVectorRegMul { lhs, rhs, .. }) && reg_shape(*m.lhs, *lhs)
            && reg_shape(*m.rhs, *rhs),
        Op::Transpose(t) => reg matches RegOp::Transpose(RegTranspose { matrix, .. }) && reg_shape(*t.matrix, *matrix),
        Op::ExpandVec(e) => reg matches RegOp::VecExpand(v) && reg_shape(*e.source, *v.source) && v.size == e.size
            && v.constants@.len() == e.constants@.len(),
        Op::Bad(_) => false,
        _ => reg is Var,
    }
}

/// The id of the 32-bit unsigned constant `value` among the cached types.
pub open spec fn u32_constant_id(types: Seq<(TypeKeyModel, Word)>, value: u32) -> Option<Word> {
    match lookup_type(types, TypeKeyModel::UnsignedInteger { width: 32 }) {
        Some(t) => lookup_type(types, TypeKeyModel::ConstantU32 { integer_type: t, value }),
        None => None,
    }
}

/// The id of the 32-bit float constant of bits `bits` among the cached types.
pub open spec fn f32_constant_id(types: Seq<(TypeKeyModel, Word)>, bits: u32) -> Option<Word> {
    match lookup_type(types, TypeKeyModel::Float { width: 32 }) {
        Some(t) => lookup_type(types, TypeKeyModel::ConstantF32 { float_type: t, value: bits }),
        None => None,
    }
}

/// The type a variable operation is declared with: a pointer to what it holds.
pub open spec fn var_pointer(op: Op) -> SpirvType {
    match op {
        Op::Global(v) => SpirvType::Pointer(v.ty),
        Op::Input(v) => SpirvType::Pointer(v.pointer),
        Op::Output(v) => SpirvType::Pointer(v.ty),
        Op::Uniform(v) => SpirvType::Pointer(v.pointer),
        Op::BuiltIn(v) => SpirvType::Pointer(v.ty),
        _ => SpirvType::NoType,
    }
}

/// The cache key of a variable operation whose pointer type has the id `vt`.
pub open spec fn var_op_key(op: Op, vt: Word) -> OpKeyModel {
    match op {
        Op::Global(v) => global_var_key(v.storage_class, vt, v.set, v.binding, v.location),
        Op::Input(v) => var_key(VarBinding::Input { location: v.location }, vt, StorageClass::Input),
        Op::Output(v) => var_key(VarBinding::Output { location: v.location }, vt, StorageClass::Output),
        Op::Uniform(v) => var_key(VarBinding::Uniform { set: v.set, binding: v.binding }, vt, StorageClass::Uniform),
        Op::BuiltIn(v) => var_key(VarBinding::BuiltIn { built_in: v.built_in }, vt, v.storage_class),
        _ => OpKeyModel::Void,
    }
}

/// The name, storage class and decorations a variable operation is declared with.
pub open spec fn var_declaration(op: Op) -> (Seq<char>, StorageClass, Seq<Decoration>) {
    match op {
        Op::Global(v) => (v.name@, v.storage_class, global_var_decorations(v.set, v.binding, v.location, v.built_in)),
        Op::Input(v) => (v.name@, StorageClass::Input, var_decorations(VarBinding::Input { location: v.location })),
        Op::Output(v) => (v.name@, StorageClass::Output, var_decorations(VarBinding::Output { location: v.location })),
        Op::Uniform(v) => (v.name@, StorageClass::Uniform, var_decorations(
            VarBinding::Uniform { set: v.set, binding: v.binding },
        )),
        Op::BuiltIn(v) => (v.name@, v.storage_class, var_decorations(VarBinding::BuiltIn { built_in: v.built_in })),
        _ => (Seq::empty(), StorageClass::Private, Seq::empty()),
    }
}

/// Registering the variable operation `op` from `before` gave `after` and `reg`: a
/// variable already cached for it is reused and nothing changes; otherwise the
/// variable is declared anew, named and decorated.
pub open spec fn var_registered(op: Op, before: Shader, after: Shader, reg: RegOp) -> bool {
    let (name, storage_class, ds) = var_declaration(op);
    &&& ({
        let vt = spec_type_id(before.types(), var_pointer(op));
        let cached = lookup_op(before.ops(), var_op_key(op, vt->0));
        vt is Some && cached is Some ==> reg == RegOp::Var(cached->0) && same_shader(after, before)
    })
    &&& ({
        let vt = spec_type_id(after.types(), var_pointer(op))->0;
        lookup_op(before.ops(), var_op_key(op, vt)) is None ==> (reg matches RegOp::Var(id) && (declared_sections(
            before.types(),
            after.types(),
            var_pointer(op),
        ) matches Some(ns) ==> var_emitted(before.spirv(), after.spirv(), ns, id, name, vt, storage_class, ds)))
    })
}

/// The id of the variable `op` among the caches, for a variable operation.
pub open spec fn var_id(op: Op, types: Seq<(TypeKeyModel, Word)>, ops: Seq<(OpKeyModel, Word)>) -> Option<Word> {
    match op {
        Op::Global(v) => match spec_type_id(types, SpirvType::Pointer(v.ty)) {
            Some(vt) => lookup_op(ops, global_var_key(v.storage_class, vt, v.set, v.binding, v.location)),
            None => None,
        },
        Op::Input(v) => match spec_type_id(types, SpirvType::Pointer(v.pointer)) {
            Some(vt) => lookup_op(ops, var_key(VarBinding::Input { location: v.location }, vt, StorageClass::Input)),
            None => None,
        },
        Op::Output(v) => match spec_type_id(types, SpirvType::Pointer(v.ty)) {
            Some(vt) => lookup_op(ops, var_key(VarBinding::Output { location: v.location }, vt, StorageClass::Output)),
            None => None,
        },
        Op::Uniform(v) => match spec_type_id(types, SpirvType::Pointer(v.pointer)) {
            Some(vt) => lookup_op(
                ops,
                var_key(VarBinding::Uniform { set: v.set, binding: v.binding }, vt, StorageClass::Uniform),
            ),
            None => None,
        },
        Op::BuiltIn(v) => match spec_type_id(types, SpirvType::Pointer(v.ty)) {
            Some(vt) => lookup_op(ops, var_key(VarBinding::BuiltIn { built_in: v.built_in }, vt, v.storage_class)),
            None => None,
        },
        _ => None,
    }
}

/// The registered operation holds the ids the caches give: of each variable, of each
/// result type, and of each constant of an access chain or a vector expansion.
pub open spec fn reg_ids(op: Op, reg: RegOp, types: Seq<(TypeKeyModel, Word)>, ops: Seq<(OpKeyModel, Word)>) -> bool
    decreases op,
{
    match op {
        Op::Access(a) => reg matches RegOp::Access(ra) && reg_ids(*a.base, *ra.base, types, ops) && Some(ra.result_type)
            == spec_type_id(types, *a.accessed_type) && Some(ra.pointer_type) == spec_type_id(
            types,
            SpirvType::Pointer(a.pointer_type),
        ) && ra.access_chain@.len() == a.access_chain@.len() && (forall|i: int|
            0 <= i < a.access_chain@.len() ==> Some(#[trigger] ra.access_chain@[i]) == u32_constant_id(
                types,
                a.access_chain@[i],
            )),
        Op::Load(l) => reg matches RegOp::Load(RegisteredLoad { result_type, object }) && Some(result_type) == spec_type_id(
            types,
            *l.pointer.pointee_type,
        ) && reg_ids(*l.object, *object, types, ops),
        Op::Store(st) => reg matches RegOp::Store(RegisteredStore { result_type, dest, source }) && Some(result_type)
            == spec_type_id(types, spec_op_type(*st.dest)) && reg_ids(*st.dest, *dest, types, ops) && reg_ids(
            *st.source,
            *source,
            types,
            ops,
        ),
        Op::MatrixTimesMatrix(m) => reg matches RegOp::MatrixTimesMatrix(MatrixTimesMatrixRegMul { result_type, lhs, rhs }) && Some(result_type)
            == spec_type_id(types, SpirvType::Matrix(m.op_type)) && reg_ids(*m.lhs, *lhs, types, ops) && reg_ids(
            *m.rhs,
            *rhs,
            types,
            ops,
        ),
        Op::MatrixTimesVector(m) => reg matches RegOp::MatrixTimesVector(MatrixTimesVectorRegMul { result_type, lhs, rhs }) && Some(result_type)
            == spec_type_id(types, SpirvType::Vector(m.op_type)) && reg_ids(*m.lhs, *lhs, types, ops) && reg_ids(
            *m.rhs,
            *rhs,
            types,
            ops,
        ),
        Op::Transpose(t) => reg matches RegOp::Transpose(RegTranspose { result_type, matrix }) && Some(result_type) == spec_type_id(
            types,
            SpirvType::Matrix(t.op_type),
        ) && reg_ids(*t.matrix, *matrix, types, ops),
        Op::ExpandVec(e) => reg matches RegOp::VecExpand(v) && Some(v.component_type) == spec_type_id(
            types,
            *e.result_type.component,
        ) && Some(v.result_type) == spec_type_id(types, SpirvType::Vector(e.result_type)) && reg_ids(
            *e.source,
            *v.source,
            types,
            ops,
        ) && v.size == e.size && v.constants@.len() == e.constants@.len() && (forall|i: int|
            0 <= i < e.constants@.len() ==> Some(#[trigger] v.constants@[i]) == f32_constant_id(types, e.constants@[i])),
        Op::Bad(_) => false,
        _ => reg matches RegOp::Var(id) && Some(id) == var_id(op, types, ops),
    }
}

/// The type behind a shared reference.
pub open spec fn deref_type(r: Rc<SpirvType>) -> SpirvType {
    *r
}

/// The base of a registered access.
pub open spec fn registered_base(ra: RegisteredAccess) -> RegOp {
    *ra.base
}

/// The operation behind a shared reference.
pub open spec fn deref_op(r: Rc<Op>) -> Op {
    *r
}

/// The registered operation in a box.
pub open spec fn deref_reg(b: Box<RegOp>) -> RegOp {
    *b
}

/// A registration that holds the ids the caches give has the shape of the operation.
pub proof fn lemma_ids_shape(op: Op, reg: RegOp, types: Seq<(TypeKeyModel, Word)>, ops: Seq<(OpKeyModel, Word)>)
    requires
        reg_ids(op, reg, types, ops),
    ensures
        reg_shape(op, reg),
    decreases op,
{
    match op {
        Op::Access(a) => lemma_ids_shape(deref_op(a.base), registered_base(reg->Access_0), types, ops),
        Op::Load(l) => lemma_ids_shape(deref_op(l.object), deref_reg(reg->Load_0.object), types, ops),
        Op::Store(st) => {
            lemma_ids_shape(deref_op(st.dest), deref_reg(reg->Store_0.dest), types, ops);
            lemma_ids_shape(deref_op(st.source), deref_reg(reg->Store_0.source), types, ops);
        },
        Op::MatrixTimesMatrix(m) => {
            lemma_ids_shape(deref_op(m.lhs), deref_reg(reg->MatrixTimesMatrix_0.lhs), types, ops);
            lemma_ids_shape(deref_op(m.rhs), deref_reg(reg->MatrixTimesMatrix_0.rhs), types, ops);
        },
        Op::MatrixTimesVector(m) => {
            lemma_ids_shape(deref_op(m.lhs), deref_reg(reg->MatrixTimesVector_0.lhs), types, ops);
            lemma_ids_shape(deref_op(m.rhs), deref_reg(reg->MatrixTimesVector_0.rhs), types, ops);
        },
        Op::Transpose(t) => lemma_ids_shape(deref_op(t.matrix), deref_reg(reg->Transpose_0.matrix), types, ops),
        Op::ExpandVec(e) => lemma_ids_shape(deref_op(e.source), deref_reg(reg->VecExpand_0.source), types, ops),
        _ => {},
    }
}

/// The ids a registration holds stay those the caches give as the caches grow.
pub proof fn lemma_reg_ids_extend(
    op: Op,
    reg: RegOp,
    t1: Seq<(TypeKeyModel, Word)>,
    o1: Seq<(OpKeyModel, Word)>,
    t2: Seq<(TypeKeyModel, Word)>,
    o2: Seq<(OpKeyModel, Word)>,
)
    requires
        reg_ids(op, reg, t1, o1),
        t1.is_prefix_of(t2),
        o1.is_prefix_of(o2),
    ensures
        reg_ids(op, reg, t2, o2),
    decreases op,
{
    lemma_lookup_type_extend_all(t1, t2);
    lemma_lookup_op_extend_all(o1, o2);
    match op {
        Op::Access(a) => {
            let ra = reg->Access_0;
            lemma_reg_ids_extend(deref_op(a.base), registered_base(ra), t1, o1, t2, o2);
            let at = deref_type(a.accessed_type);
            let pt = SpirvType::Pointer(a.pointer_type);
            lemma_type_id_extend(t1, t2, &at);
            lemma_type_id_extend(t1, t2, &pt);
        },
        Op::Load(l) => {
            let pt = deref_type(l.pointer.pointee_type);
            lemma_type_id_extend(t1, t2, &pt);
            lemma_reg_ids_extend(deref_op(l.object), deref_reg(reg->Load_0.object), t1, o1, t2, o2);
        },
        Op::Store(st) => {
            let dt = spec_op_type(deref_op(st.dest));
            lemma_type_id_extend(t1, t2, &dt);
            lemma_reg_ids_extend(deref_op(st.dest), deref_reg(reg->Store_0.dest), t1, o1, t2, o2);
            lemma_reg_ids_extend(deref_op(st.source), deref_reg(reg->Store_0.source), t1, o1, t2, o2);
        },
        Op::MatrixTimesMatrix(m) => {
            let t = SpirvType::Matrix(m.op_type);
            lemma_type_id_extend(t1, t2, &t);
            lemma_reg_ids_extend(deref_op(m.lhs), deref_reg(reg->MatrixTimesMatrix_0.lhs), t1, o1, t2, o2);
            lemma_reg_ids_extend(deref_op(m.rhs), deref_reg(reg->MatrixTimesMatrix_0.rhs), t1, o1, t2, o2);
        },
        Op::MatrixTimesVector(m) => {
            let t = SpirvType::Vector(m.op_type);
            lemma_type_id_extend(t1, t2, &t);
            lemma_reg_ids_extend(deref_op(m.lhs), deref_reg(reg->MatrixTimesVector_0.lhs), t1, o1, t2, o2);
            lemma_reg_ids_extend(deref_op(m.rhs), deref_reg(reg->MatrixTimesVector_0.rhs), t1, o1, t2, o2);
        },
        Op::Transpose(tr) => {
            let t = SpirvType::Matrix(tr.op_type);
            lemma_type_id_extend(t1, t2, &t);
            lemma_reg_ids_extend(deref_op(tr.matrix), deref_reg(reg->Transpose_0.matrix), t1, o1, t2, o2);
        },
        Op::ExpandVec(e) => {
            let ct = deref_type(e.result_type.component);
            let vt = SpirvType::Vector(e.result_type);
            lemma_type_id_extend(t1, t2, &ct);
            lemma_type_id_extend(t1, t2, &vt);
            lemma_reg_ids_extend(deref_op(e.source), deref_reg(reg->VecExpand_0.source), t1, o1, t2, o2);
        },
        Op::Global(v) => {
            let t = SpirvType::Pointer(v.ty);
            lemma_type_id_extend(t1, t2, &t);
        },
        Op::Input(v) => {
            let t = SpirvType::Pointer(v.pointer);
            lemma_type_id_extend(t1, t2, &t);
        },
        Op::Output(v) => {
            let t = SpirvType::Pointer(v.ty);
            lemma_type_id_extend(t1, t2, &t);
        },
        Op::Uniform(v) => {
            let t = SpirvType::Pointer(v.pointer);
            lemma_type_id_extend(t1, t2, &t);
        },
        Op::BuiltIn(v) => {
            let t = SpirvType::Pointer(v.ty);
            lemma_type_id_extend(t1, t2, &t);
        },
        Op::Bad(_) => {},
    }
}

/// The first of two possible errors.
pub open spec fn first_error(a: Option<Error>, b: Option<Error>) -> Option<Error> {
    if a is Some { a } else { b }
}

/// The error emitting `reg` fails with, if any: an operand that yields no object (a
/// store), or no block being under construction when an instruction is appended.
/// Variables emit nothing.
pub open spec fn emit_error(reg: RegOp, in_block: bool) -> Option<Error>
    decreases reg,
{
    let detached = if in_block { None } else { Some(Error::Builder(BuildError::DetachedInstruction)) };
    match reg {
        RegOp::Var(_) => None,
        RegOp::Access(a) => first_error(emit_error(*a.base, in_block), first_error(
            if *a.base is Store { Some(Error::NoBase) } else { None },
            detached,
        )),
        RegOp::Load(RegisteredLoad { object, .. }) => first_error(emit_error(*object, in_block), first_error(
            if *object is Store { Some(Error::NoOp) } else { None },
            detached,
        )),
        RegOp::Store(RegisteredStore { dest, source, .. }) => first_error(emit_error(*dest, in_block), first_error(
            if *dest is Store { Some(Error::NoOp) } else { None },
            first_error(emit_error(*source, in_block), first_error(
                if *source is Store { Some(Error::NoObjectId) } else { None },
                detached,
            )),
        )),
        RegOp::MatrixTimesMatrix(MatrixTimesMatrixRegMul { lhs, rhs, .. }) => first_error(emit_error(*lhs, in_block), first_error(
            if *lhs is Store { Some(Error::NoObjectId) } else { None },
            first_error(emit_error(*rhs, in_block), first_error(
                if *rhs is Store { Some(Error::NoObjectId) } else { None },
                detached,
            )),
        )),
        RegOp::MatrixTimesVector(MatrixTimesVectorRegMul { lhs, rhs, .. }) => first_error(emit_error(*lhs, in_block), first_error(
            if *lhs is Store { Some(Error::NoObjectId) } else { None },
            first_error(emit_error(*rhs, in_block), first_error(
                if *rhs is Store { Some(Error::NoObjectId) } else { None },
                detached,
            )),
        )),
        RegOp::Transpose(RegTranspose { matrix, .. }) => first_error(emit_error(*matrix, in_block), first_error(
            if *matrix is Store { Some(Error::NoOp) } else { None },
            detached,
        )),
        RegOp::VecExpand(v) => first_error(emit_error(*v.source, in_block), first_error(
            if *v.source is Store { Some(Error::NoOp) } else { None },
            detached,
        )),
    }
}

fn pointer_type(p: &Pointer) -> (r: SpirvType)
    ensures
        r == SpirvType::Pointer(*p),
{
    SpirvType::Pointer(Pointer::new(p.storage_class, p.pointee_type.clone()))
}

impl Op {
    /// Registers the operation: declares the types, constants and variables it uses,
    /// operands first, and gives the operation ready to be emitted. Fails on the first
    /// bad operation or absent type met.
    pub fn register_op(&self, shader: &mut Shader) -> (r: Result<RegOp, Error>)
        requires
            old(shader).wf(),
            op_fits(*self),
        ensures
            final(shader).wf(),
            shader_extends(*old(shader), *final(shader)),
            r is Err <==> reg_fails(*self),
            r matches Err(e) ==> reg_error(*self, e),
            r matches Ok(reg) ==> reg_shape(*self, reg),
            r matches Ok(reg) ==> reg_ids(*self, reg, final(shader).types(), final(shader).ops()),
            r matches Ok(reg) ==> ((*self is Global || *self is Input || *self is Output || *self is Uniform
                || *self is BuiltIn) ==> var_registered(*self, *old(shader), *final(shader), reg)),
            *self is Bad ==> *final(shader) == *old(shader),
        decreases *self,
    {
        let ghost s0 = *shader;
        match self {
            Op::Global(v) => {
                let t = pointer_type(&v.ty);
                match register_global(shader, &v.name, v.storage_class, &t, v.set, v.binding, v.location, v.built_in) {
                    Ok(id) => Ok(RegOp::Var(id)),
                    Err(e) => Err(e),
                }
            },
            Op::Input(v) => {
                let t = pointer_type(&v.pointer);
                match register_bound_var(shader, &v.name, StorageClass::Input, &t, VarBinding::Input { location: v.location }) {
                    Ok(id) => Ok(RegOp::Var(id)),
                    Err(e) => Err(e),
                }
            },
            Op::Output(v) => {
                let t = pointer_type(&v.ty);
                match register_bound_var(shader, &v.name, StorageClass::Output, &t, VarBinding::Output { location: v.location }) {
                    Ok(id) => Ok(RegOp::Var(id)),
                    Err(e) => Err(e),
                }
            },
            Op::Uniform(v) => {
                let t = pointer_type(&v.pointer);
                match register_bound_var(
                    shader,
                    &v.name,
                    StorageClass::Uniform,
                    &t,
                    VarBinding::Uniform { set: v.set, binding: v.binding },
                ) {
                    Ok(id) => Ok(RegOp::Var(id)),
                    Err(e) => Err(e),
                }
            },
            Op::BuiltIn(v) => {
                let t = pointer_type(&v.ty);
                match register_bound_var(shader, &v.name, v.storage_class, &t, VarBinding::BuiltIn { built_in: v.built_in }) {
                    Ok(id) => Ok(RegOp::Var(id)),
                    Err(e) => Err(e),
                }
            },
            Op::Access(a) => {
                let base = match a.base.register_op(shader) {
                    Ok(b) => b,
                    Err(e) => return Err(e),
                };
                let ghost s1 = *shader;
                let mut access_chain: Vec<Word> = Vec::new();
                let mut i: usize = 0;
                proof { lemma_extends_refl(*shader); }
                while i < a.access_chain.len()
                    invariant
                        shader.wf(),
                        s1.wf(),
                        shader_extends(s1, *shader),
                        0 <= i <= a.access_chain@.len(),
                        access_chain@.len() == i,
                        forall|j: int| 0 <= j < i ==> Some(#[trigger] access_chain@[j]) == u32_constant_id(
                            shader.types(),
                            a.access_chain@[j],
                        ),
                    decreases a.access_chain@.len() - i,
                {
                    let ghost s2 = *shader;
                    let c = shader.constant_u32(a.access_chain[i]);
                    proof {
                        lemma_grows_extends(s2, *shader);
                        lemma_extends_trans(s1, s2, *shader);
                        lemma_lookup_type_extend_all(s2.types(), shader.types());
                        assert forall|j: int| 0 <= j < i implies Some(#[trigger] access_chain@[j]) == u32_constant_id(
                            shader.types(),
                            a.access_chain@[j],
                        ) by {
                            let t = lookup_type(s2.types(), TypeKeyModel::UnsignedInteger { width: 32 });
                            assert(Some(access_chain@[j]) == u32_constant_id(s2.types(), a.access_chain@[j]));
                            assert(t is Some);
                            assert(lookup_type(s2.types(), TypeKeyModel::ConstantU32 { integer_type: t->0, value: a.access_chain@[j] }) is Some);
                        }
                    }
                    access_chain.push(c);
                    i = i + 1;
                }
                let ghost s3 = *shader;
                let result_type = match shader.register_type(&a.accessed_type) {
                    Ok(t) => t,
                    Err(e) => {
                        proof { lemma_grows_extends(s3, *shader); lemma_extends_trans(s0, s1, s3); lemma_extends_trans(s0, s3, *shader); }
                        return Err(e);
                    },
                };
                let ghost s4 = *shader;
                let pt = pointer_type(&a.pointer_type);
                let pointer_type = match shader.register_type(&pt) {
                    Ok(t) => t,
                    Err(e) => {
                        proof {
                            lemma_grows_extends(s3, s4); lemma_grows_extends(s4, *shader);
                            lemma_extends_trans(s0, s1, s3); lemma_extends_trans(s0, s3, s4); lemma_extends_trans(s0, s4, *shader);
                        }
                        return Err(e);
                    },
                };
                proof {
                    lemma_grows_extends(s3, s4); lemma_grows_extends(s4, *shader);
                    lemma_extends_trans(s0, s1, s3); lemma_extends_trans(s0, s3, s4); lemma_extends_trans(s0, s4, *shader);
                    lemma_extends_trans(s1, s3, *shader);
                    lemma_extends_trans(s3, s4, *shader);
                    lemma_reg_ids_extend(deref_op(a.base), base, s1.types(), s1.ops(), shader.types(), shader.ops());
                    let at = deref_type(a.accessed_type);
                    lemma_type_id_extend(s4.types(), shader.types(), &at);
                    lemma_lookup_type_extend_all(s3.types(), shader.types());
                    assert forall|j: int| 0 <= j < a.access_chain@.len() implies Some(#[trigger] access_chain@[j])
                        == u32_constant_id(shader.types(), a.access_chain@[j]) by {
                        let t = lookup_type(s3.types(), TypeKeyModel::UnsignedInteger { width: 32 });
                        assert(Some(access_chain@[j]) == u32_constant_id(s3.types(), a.access_chain@[j]));
                        assert(t is Some);
                        assert(lookup_type(s3.types(), TypeKeyModel::ConstantU32 { integer_type: t->0, value: a.access_chain@[j] }) is Some);
                    }
                }
                Ok(RegOp::Access(RegisteredAccess { base: Rc::new(base), result_type, pointer_type, access_chain }))
            },
            Op::Load(l) => {
                let result_type = match shader.register_type(&l.pointer.pointee_type) {
                    Ok(t) => t,
                    Err(e) => {
                        proof { lemma_grows_extends(s0, *shader); }
                        return Err(e);
                    },
                };
                let ghost s1 = *shader;
                proof { lemma_grows_extends(s0, s1); }
                let object = match l.object.register_op(shader) {
                    Ok(o) => o,
                    Err(e) => {
                        proof { lemma_extends_trans(s0, s1, *shader); }
                        return Err(e);
                    },
                };
                proof {
                    lemma_extends_trans(s0, s1, *shader);
                    let pt = deref_type(l.pointer.pointee_type);
                    lemma_type_id_extend(s1.types(), shader.types(), &pt);
                }
                Ok(RegOp::Load(RegisteredLoad { result_type, object: Box::new(object) }))
            },
            Op::Store(st) => {
                let dt = st.dest.op_type();
                let result_type = match shader.register_type(&dt) {
                    Ok(t) => t,
                    Err(e) => {
                        proof { lemma_grows_extends(s0, *shader); }
                        return Err(e);
                    },
                };
                let ghost s1 = *shader;
                proof { lemma_grows_extends(s0, s1); }
                let dest = match st.dest.register_op(shader) {
                    Ok(o) => o,
                    Err(e) => {
                        proof { lemma_extends_trans(s0, s1, *shader); }
                        return Err(e);
                    },
                };
                let ghost s2 = *shader;
                proof { lemma_extends_trans(s0, s1, s2); }
                let source = match st.source.register_op(shader) {
                    Ok(o) => o,
                    Err(e) => {
                        proof { lemma_extends_trans(s0, s2, *shader); }
                        return Err(e);
                    },
                };
                proof {
                    lemma_extends_trans(s0, s2, *shader);
                    lemma_extends_trans(s1, s2, *shader);
                    lemma_type_id_extend(s1.types(), shader.types(), &dt);
                    lemma_reg_ids_extend(deref_op(st.dest), dest, s2.types(), s2.ops(), shader.types(), shader.ops());
                }
                Ok(RegOp::Store(RegisteredStore { result_type, dest: Box::new(dest), source: Box::new(source) }))
            },
            Op::MatrixTimesMatrix(m) => {
                let t = SpirvType::Matrix(Matrix { column_type: m.op_type.column_type.clone(), column_count: m.op_type.column_count });
                let result_type = match shader.register_type(&t) {
                    Ok(x) => x,
                    Err(e) => {
                        proof { lemma_grows_extends(s0, *shader); }
                        return Err(e);
                    },
                };
                let ghost s1 = *shader;
                proof { lemma_grows_extends(s0, s1); }
                let lhs = match m.lhs.register_op(shader) {
                    Ok(o) => o,
                    Err(e) => {
                        proof { lemma_extends_trans(s0, s1, *shader); }
                        return Err(e);
                    },
                };
                let ghost s2 = *shader;
                proof { lemma_extends_trans(s0, s1, s2); }
                let rhs = match m.rhs.register_op(shader) {
                    Ok(o) => o,
                    Err(e) => {
                        proof { lemma_extends_trans(s0, s2, *shader); }
                        return Err(e);
                    },
                };
                proof {
                    lemma_extends_trans(s0, s2, *shader);
                    lemma_extends_trans(s1, s2, *shader);
                    lemma_type_id_extend(s1.types(), shader.types(), &t);
                    lemma_reg_ids_extend(deref_op(m.lhs), lhs, s2.types(), s2.ops(), shader.types(), shader.ops());
                }
                Ok(RegOp::MatrixTimesMatrix(MatrixTimesMatrixRegMul { result_type, lhs: Box::new(lhs), rhs: Box::new(rhs) }))
            },
            Op::MatrixTimesVector(m) => {
                let t = SpirvType::Vector(Vector { component: m.op_type.component.clone(), component_count: m.op_type.component_count });
                let result_type = match shader.register_type(&t) {
                    Ok(x) => x,
                    Err(e) => {
                        proof { lemma_grows_extends(s0, *shader); }
                        return Err(e);
                    },
                };
                let ghost s1 = *shader;
                proof { lemma_grows_extends(s0, s1); }
                let lhs = match m.lhs.register_op(shader) {
                    Ok(o) => o,
                    Err(e) => {
                        proof { lemma_extends_trans(s0, s1, *shader); }
                        return Err(e);
                    },
                };
                let ghost s2 = *shader;
                proof { lemma_extends_trans(s0, s1, s2); }
                let rhs = match m.rhs.register_op(shader) {
                    Ok(o) => o,
                    Err(e) => {
                        proof { lemma_extends_trans(s0, s2, *shader); }
                        return Err(e);
                    },
                };
                proof {
                    lemma_extends_trans(s0, s2, *shader);
                    lemma_extends_trans(s1, s2, *shader);
                    lemma_type_id_extend(s1.types(), shader.types(), &t);
                    lemma_reg_ids_extend(deref_op(m.lhs), lhs, s2.types(), s2.ops(), shader.types(), shader.ops());
                }
                Ok(RegOp::MatrixTimesVector(MatrixTimesVectorRegMul { result_type, lhs: Box::new(lhs), rhs: Box::new(rhs) }))
            },
            Op::Transpose(tr) => {
                let t = SpirvType::Matrix(Matrix { column_type: tr.op_type.column_type.clone(), column_count: tr.op_type.column_count });
                let result_type = match shader.register_type(&t) {
                    Ok(x) => x,
                    Err(e) => {
                        proof { lemma_grows_extends(s0, *shader); }
                        return Err(e);
                    },
                };
                let ghost s1 = *shader;
                proof { lemma_grows_extends(s0, s1); }
                let matrix = match tr.matrix.register_op(shader) {
                    Ok(o) => o,
                    Err(e) => {
                        proof { lemma_extends_trans(s0, s1, *shader); }
                        return Err(e);
                    },
                };
                proof {
                    lemma_extends_trans(s0, s1, *shader);
                    lemma_type_id_extend(s1.types(), shader.types(), &t);
                }
                Ok(RegOp::Transpose(RegTranspose { result_type, matrix: Box::new(matrix) }))
            },
            Op::ExpandVec(e) => {
                let component_type = match shader.register_type(&e.result_type.component) {
                    Ok(x) => x,
                    Err(err) => {
                        proof { lemma_grows_extends(s0, *shader); }
                        return Err(err);
                    },
                };
                let ghost s1 = *shader;
                let vt = SpirvType::Vector(Vector { component: e.result_type.component.clone(), component_count: e.result_type.component_count });
                let result_type = match shader.register_type(&vt) {
                    Ok(x) => x,
                    Err(err) => {
                        proof { lemma_grows_trans(s0, s1, *shader); lemma_grows_extends(s0, *shader); }
                        return Err(err);
                    },
                };
                let ghost s2 = *shader;
                proof { lemma_grows_trans(s0, s1, s2); lemma_grows_extends(s0, s2); }
                let source = match e.source.register_op(shader) {
                    Ok(o) => o,
                    Err(err) => {
                        proof { lemma_extends_trans(s0, s2, *shader); }
                        return Err(err);
                    },
                };
                let ghost s3 = *shader;
                proof { lemma_extends_trans(s0, s2, s3); lemma_extends_refl(s3); }
                let mut constants: Vec<Word> = Vec::new();
                let mut i: usize = 0;
                while i < e.constants.len()
                    invariant
                        shader.wf(),
                        s0.wf(),
                        s3.wf(),
                        shader_extends(s0, *shader),
                        shader_extends(s3, *shader),
                        0 <= i <= e.constants@.len(),
                        constants@.len() == i,
                        forall|j: int| 0 <= j < i ==> Some(#[trigger] constants@[j]) == f32_constant_id(
                            shader.types(),
                            e.constants@[j],
                        ),
                    decreases e.constants@.len() - i,
                {
                    let ghost s4 = *shader;
                    let c = shader.constant_f32(e.constants[i]);
                    proof {
                        lemma_grows_extends(s4, *shader);
                        lemma_extends_trans(s0, s4, *shader);
                        lemma_extends_trans(s3, s4, *shader);
                        lemma_lookup_type_extend_all(s4.types(), shader.types());
                        assert forall|j: int| 0 <= j < i implies Some(#[trigger] constants@[j]) == f32_constant_id(
                            shader.types(),
                            e.constants@[j],
                        ) by {
                            let t = lookup_type(s4.types(), TypeKeyModel::Float { width: 32 });
                            assert(Some(constants@[j]) == f32_constant_id(s4.types(), e.constants@[j]));
                            assert(t is Some);
                            assert(lookup_type(s4.types(), TypeKeyModel::ConstantF32 { float_type: t->0, value: e.constants@[j] }) is Some);
                        }
                    }
                    constants.push(c);
                    i = i + 1;
                }
                proof {
                    let ct = deref_type(e.result_type.component);
                    lemma_extends_trans(s1, s2, s3);
                    lemma_extends_trans(s1, s3, *shader);
                    lemma_extends_trans(s2, s3, *shader);
                    lemma_type_id_extend(s1.types(), shader.types(), &ct);
                    lemma_type_id_extend(s2.types(), shader.types(), &vt);
                    lemma_reg_ids_extend(deref_op(e.source), source, s3.types(), s3.ops(), shader.types(), shader.ops());
                }
                Ok(RegOp::VecExpand(VecExpand { component_type, result_type, source: Box::new(source), size: e.size, constants }))
            },
            Op::Bad(b) => {
                proof { lemma_extends_refl(s0); }
                Err(b.report())
            },
        }
    }
}


} // verus!
