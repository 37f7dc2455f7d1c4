//! Emitting registered operations into the block under construction.
use crate::builder::block_appended;
use crate::errors::{BuildError, Error};
use crate::model::{Inst, Word};
use crate::ops::{
    emit_error, first_error, reg_shape, MatrixTimesMatrixRegMul, MatrixTimesVectorRegMul, Op, RegOp,
    RegTranspose, RegisteredAccess, RegisteredLoad, RegisteredStore, VecExpand,
};
use crate::shader::Shader;
use std::rc::Rc;
use vstd::prelude::*;

verus! {

/// How many instructions emitting `reg` appends to the block.
pub open spec fn emit_count(reg: RegOp) -> nat
    decreases reg,
{
    match reg {
        RegOp::Var(_) => 0,
        RegOp::Access(a) => emit_count(*a.base) + 1,
        RegOp::Load(RegisteredLoad { object, .. }) => emit_count(*object) + 1,
        RegOp::Store(RegisteredStore { dest, source, .. }) => emit_count(*dest) + emit_count(*source) + 1,
        RegOp::MatrixTimesMatrix(MatrixTimesMatrixRegMul { lhs, rhs, .. }) => emit_count(*lhs) + emit_count(*rhs) + 1,
        RegOp::MatrixTimesVector(MatrixTimesVectorRegMul { lhs, rhs, .. }) => emit_count(*lhs) + emit_count(*rhs) + 1,
        RegOp::Transpose(RegTranspose { matrix, .. }) => emit_count(*matrix) + 1,
        RegOp::VecExpand(v) => emit_count(*v.source) + (v.size as nat) + 1,
    }
}

/// The object `reg` yields once emitted from index `start` of `block`: a variable
/// yields itself, a store yields nothing, anything else the result of its last
/// instruction.
pub open spec fn emitted_value(reg: RegOp, block: Seq<Inst>, start: int) -> Option<Word> {
    match reg {
        RegOp::Var(id) => Some(id),
        RegOp::Store(RegisteredStore { .. }) => None,
        _ => Some(block[start + emit_count(reg) - 1].result_id()),
    }
}

/// The ids of the `n` instructions of `block` from index `start`.
pub open spec fn result_ids(block: Seq<Inst>, start: int, n: nat) -> Seq<Word> {
    Seq::new(n, |i: int| block[start + i].result_id())
}

/// From index `start`, `block` holds the emission of `reg`: its operands' emissions in
/// order, then its own instructions, each taking its operands' objects.
pub open spec fn emitted(reg: RegOp, block: Seq<Inst>, start: int) -> bool
    decreases reg,
{
    let end = start + emit_count(reg);
    &&& 0 <= start
    &&& end <= block.len()
    &&& match reg {
        RegOp::Var(_) => true,
        RegOp::Access(a) => {
            &&& emitted(*a.base, block, start)
            &&& block[end - 1] matches Inst::AccessChain { result_type, base, indexes, .. }
            &&& result_type == a.pointer_type
            &&& emitted_value(*a.base, block, start) == Some(base)
            &&& indexes == a.access_chain@
        },
        RegOp::Load(RegisteredLoad { result_type: rt, object }) => {
            &&& emitted(*object, block, start)
            &&& block[end - 1] matches Inst::Load { result_type, pointer, .. }
            &&& result_type == rt
            &&& emitted_value(*object, block, start) == Some(pointer)
        },
        RegOp::Store(RegisteredStore { dest, source, .. }) => {
            let mid = start + emit_count(*dest);
            &&& emitted(*dest, block, start)
            &&& emitted(*source, block, mid)
            &&& block[end - 1] matches Inst::Store { pointer, object }
            &&& emitted_value(*dest, block, start) == Some(pointer)
            &&& emitted_value(*source, block, mid) == Some(object)
        },
        RegOp::MatrixTimesMatrix(MatrixTimesMatrixRegMul { result_type: rt, lhs, rhs }) => {
            let mid = start + emit_count(*lhs);
            &&& emitted(*lhs, block, start)
            &&& emitted(*rhs, block, mid)
            &&& block[end - 1] matches Inst::MatrixTimesMatrix { result_type, left, right, .. }
            &&& result_type == rt
            &&& emitted_value(*lhs, block, start) == Some(left)
            &&& emitted_value(*rhs, block, mid) == Some(right)
        },
        RegOp::MatrixTimesVector(MatrixTimesVectorRegMul { result_type: rt, lhs, rhs }) => {
            let mid = start + emit_count(*lhs);
            &&& emitted(*lhs, block, start)
            &&& emitted(*rhs, block, mid)
            &&& block[end - 1] matches Inst::MatrixTimesVector { result_type, matrix, vector, .. }
            &&& result_type == rt
            &&& emitted_value(*lhs, block, start) == Some(matrix)
            &&& emitted_value(*rhs, block, mid) == Some(vector)
        },
        RegOp::Transpose(RegTranspose { result_type: rt, matrix: m }) => {
            &&& emitted(*m, block, start)
            &&& block[end - 1] matches Inst::Transpose { result_type, matrix, .. }
            &&& result_type == rt
            &&& emitted_value(*m, block, start) == Some(matrix)
        },
        RegOp::VecExpand(v) => {
            let s = start + emit_count(*v.source);
            &&& emitted(*v.source, block, start)
            &&& emitted_value(*v.source, block, start) is Some
            &&& forall|i: int|
                0 <= i < v.size ==> (#[trigger] block[s + i] matches Inst::CompositeExtract {
                    result_type,
                    composite,
                    literals,
                    ..
                } && result_type == v.component_type && Some(composite) == emitted_value(
                    *v.source,
                    block,
                    start,
                ) && literals == seq![i as u32])
            &&& block[end - 1] matches Inst::CompositeConstruct { result_type, constituents, .. }
            &&& result_type == v.result_type
            &&& constituents == result_ids(block, s, v.size as nat) + v.constants@
        },
    }
}

/// How many instructions emitting a registration of `op` appends to the block.
pub open spec fn op_emit_count(op: Op) -> nat
    decreases op,
{
    match op {
        Op::Access(a) => op_emit_count(*a.base) + 1,
        Op::Load(l) => op_emit_count(*l.object) + 1,
        Op::Store(st) => op_emit_count(*st.dest) + op_emit_count(*st.source) + 1,
        Op::MatrixTimesMatrix(m) => op_emit_count(*m.lhs) + op_emit_count(*m.rhs) + 1,
        Op::MatrixTimesVector(m) => op_emit_count(*m.lhs) + op_emit_count(*m.rhs) + 1,
        Op::Transpose(t) => op_emit_count(*t.matrix) + 1,
        Op::ExpandVec(e) => op_emit_count(*e.source) + (e.size as nat) + 1,
        _ => 0,
    }
}

/// The error emitting a registration of `op` fails with, if any, where `in_block` tells
/// whether a block is under construction: an operand that yields no object, or no
/// block to append an instruction to.
pub open spec fn op_emit_error(op: Op, in_block: bool) -> Option<Error>
    decreases op,
{
    let detached = if in_block { None } else { Some(Error::Builder(BuildError::DetachedInstruction)) };
    match op {
        Op::Access(a) => first_error(op_emit_error(*a.base, in_block), first_error(
            if *a.base is Store { Some(Error::NoBase) } else { None },
            detached,
        )),
        Op::Load(l) => first_error(op_emit_error(*l.object, in_block), first_error(
            if *l.object is Store { Some(Error::NoOp) } else { None },
            detached,
        )),
        Op::Store(st) => first_error(op_emit_error(*st.dest, in_block), first_error(
            if *st.dest is Store { Some(Error::NoOp) } else { None },
            first_error(op_emit_error(*st.source, in_block), first_error(
                if *st.source is Store { Some(Error::NoObjectId) } else { None },
                detached,
            )),
        )),
        Op::MatrixTimesMatrix(m) => first_error(op_emit_error(*m.lhs, in_block), first_error(
            if *m.lhs is Store { Some(Error::NoObjectId) } else { None },
            first_error(op_emit_error(*m.rhs, in_block), first_error(
                if *m.rhs is Store { Some(Error::NoObjectId) } else { None },
                detached,
            )),
        )),
        Op::MatrixTimesVector(m) => first_error(op_emit_error(*m.lhs, in_block), first_error(
            if *m.lhs is Store { Some(Error::NoObjectId) } else { None },
            first_error(op_emit_error(*m.rhs, in_block), first_error(
                if *m.rhs is Store { Some(Error::NoObjectId) } else { None },
                detached,
            )),
        )),
        Op::Transpose(t) => first_error(op_emit_error(*t.matrix, in_block), first_error(
            if *t.matrix is Store { Some(Error::NoOp) } else { None },
            detached,
        )),
        Op::ExpandVec(e) => first_error(op_emit_error(*e.source, in_block), first_error(
            if *e.source is Store { Some(Error::NoOp) } else { None },
            detached,
        )),
        _ => None,
    }
}

/// The operation behind a shared reference.
pub open spec fn rc_op(r: Rc<Op>) -> Op {
    *r
}

/// The registered operation in a box.
pub open spec fn box_reg(b: Box<RegOp>) -> RegOp {
    *b
}

/// A registration of `op` has the size and, inside a block, the errors that `op`
/// itself determines.
pub proof fn lemma_shape_emission(op: Op, reg: RegOp, in_block: bool)
    requires
        reg_shape(op, reg),
    ensures
        emit_count(reg) == op_emit_count(op),
        emit_error(reg, in_block) == op_emit_error(op, in_block),
        reg is Store <==> op is Store,
    decreases op,
{
    match op {
        Op::Access(a) => {
            let ra = reg->Access_0;
            lemma_shape_emission(rc_op(a.base), access_base(ra), in_block);
        },
        Op::Load(l) => {
            lemma_shape_emission(rc_op(l.object), box_reg(reg->Load_0.object), in_block);
        },
        Op::Store(st) => {
            lemma_shape_emission(rc_op(st.dest), box_reg(reg->Store_0.dest), in_block);
            lemma_shape_emission(rc_op(st.source), box_reg(reg->Store_0.source), in_block);
        },
        Op::MatrixTimesMatrix(m) => {
            lemma_shape_emission(rc_op(m.lhs), box_reg(reg->MatrixTimesMatrix_0.lhs), in_block);
            lemma_shape_emission(rc_op(m.rhs), box_reg(reg->MatrixTimesMatrix_0.rhs), in_block);
        },
        Op::MatrixTimesVector(m) => {
            lemma_shape_emission(rc_op(m.lhs), box_reg(reg->MatrixTimesVector_0.lhs), in_block);
            lemma_shape_emission(rc_op(m.rhs), box_reg(reg->MatrixTimesVector_0.rhs), in_block);
        },
        Op::Transpose(t) => {
            lemma_shape_emission(rc_op(t.matrix), box_reg(reg->Transpose_0.matrix), in_block);
        },
        Op::ExpandVec(e) => {
            lemma_shape_emission(rc_op(e.source), box_reg(reg->VecExpand_0.source), in_block);
        },
        _ => {},
    }
}

/// The base of a registered access.
pub open spec fn access_base(a: RegisteredAccess) -> RegOp {
    *a.base
}

/// An emission stays one when more instructions are appended after it.
pub proof fn lemma_emitted_prefix(reg: RegOp, a: Seq<Inst>, b: Seq<Inst>, start: int)
    requires
        emitted(reg, a, start),
        a.is_prefix_of(b),
    ensures
        emitted(reg, b, start),
        emitted_value(reg, b, start) == emitted_value(reg, a, start),
    decreases reg,
{
    match reg {
        RegOp::Var(_) => {},
        RegOp::Access(x) => {
            lemma_emitted_prefix(access_base(x), a, b, start);
        },
        RegOp::Load(RegisteredLoad { object, .. }) => {
            lemma_emitted_prefix(*object, a, b, start);
        },
        RegOp::Store(RegisteredStore { dest, source, .. }) => {
            lemma_emitted_prefix(*dest, a, b, start);
            lemma_emitted_prefix(*source, a, b, start + emit_count(*dest));
        },
        RegOp::MatrixTimesMatrix(MatrixTimesMatrixRegMul { lhs, rhs, .. }) => {
            lemma_emitted_prefix(*lhs, a, b, start);
            lemma_emitted_prefix(*rhs, a, b, start + emit_count(*lhs));
        },
        RegOp::MatrixTimesVector(MatrixTimesVectorRegMul { lhs, rhs, .. }) => {
            lemma_emitted_prefix(*lhs, a, b, start);
            lemma_emitted_prefix(*rhs, a, b, start + emit_count(*lhs));
        },
        RegOp::Transpose(RegTranspose { matrix, .. }) => {
            lemma_emitted_prefix(*matrix, a, b, start);
        },
        RegOp::VecExpand(v) => {
            lemma_emitted_prefix(*v.source, a, b, start);
            let s = start + emit_count(*v.source);
            assert(result_ids(a, s, v.size as nat) =~= result_ids(b, s, v.size as nat));
            assert forall|i: int| 0 <= i < v.size implies #[trigger] b[s + i] == a[s + i] by {}
        },
    }
}

/// What emitting `reg` into the shader `before` leaves in the shader `after` when it
/// succeeds with `o`: the caches and everything outside the block are unchanged, and
/// the block grew by exactly the emission of `reg`, which yields `o`.
pub open spec fn emission(reg: RegOp, before: Shader, after: Shader, o: Option<Word>) -> bool {
    let start = before.spirv().block.len() as int;
    &&& before.spirv().block.is_prefix_of(after.spirv().block)
    &&& after.spirv().block.len() == start + emit_count(reg)
    &&& emitted(reg, after.spirv().block, start)
    &&& o == emitted_value(reg, after.spirv().block, start)
}

/// What any emission keeps, whether it succeeds or not.
pub open spec fn emission_frame(before: Shader, after: Shader) -> bool {
    &&& after.wf()
    &&& after.types() == before.types()
    &&& after.ops() == before.ops()
    &&& after.interfaces() == before.interfaces()
    &&& after.spirv().same_module_level(before.spirv())
    &&& after.spirv().selection == before.spirv().selection
    &&& after.spirv().functions == before.spirv().with_block(after.spirv().block).functions
    &&& before.spirv().block.is_prefix_of(after.spirv().block)
}

pub proof fn lemma_frame_trans(a: Shader, b: Shader, c: Shader)
    requires
        a.wf(),
        emission_frame(a, b),
        emission_frame(b, c),
    ensures
        emission_frame(a, c),
{
    a.spirv().lemma_with_block_twice(b.spirv().block, c.spirv().block);
    assert(a.spirv().block =~= c.spirv().block.subrange(0, a.spirv().block.len() as int));
}

pub proof fn lemma_appended(a: Shader, b: Shader, ok: bool, inst: Inst)
    requires
        a.wf(),
        b.wf(),
        b.types() == a.types(),
        b.ops() == a.ops(),
        b.interfaces() == a.interfaces(),
        block_appended(a.spirv(), b.spirv(), ok, inst),
    ensures
        emission_frame(a, b),
        ok ==> b.spirv().block == a.spirv().block.push(inst),
{
    a.spirv().lemma_with_own_block();
    assert(a.spirv().block =~= b.spirv().block.subrange(0, a.spirv().block.len() as int));
}

pub proof fn lemma_frame_refl(a: Shader)
    requires
        a.wf(),
    ensures
        emission_frame(a, a),
{
    a.spirv().lemma_with_own_block();
    assert(a.spirv().block =~= a.spirv().block.subrange(0, a.spirv().block.len() as int));
}

impl RegOp {
    /// Emits the operation into the block under construction, operands first, and gives
    /// the object it yields (`None` for a store). Fails when an operand yields no object,
    /// or when no block is being built.
    pub fn op_id(&self, shader: &mut Shader) -> (r: Result<Option<Word>, Error>)
        requires
            old(shader).wf(),
        ensures
            emission_frame(*old(shader), *final(shader)),
            r is Err <==> emit_error(*self, old(shader).spirv().in_block()) is Some,
            r matches Err(e) ==> emit_error(*self, old(shader).spirv().in_block()) == Some(e),
            r matches Ok(o) ==> emission(*self, *old(shader), *final(shader), o),
        decreases *self,
    {
        let ghost s0 = *shader;
        let ghost ib = shader.spirv().in_block();
        let ghost start = shader.spirv().block.len() as int;
        match self {
            RegOp::Var(id) => {
                proof {
                    lemma_frame_refl(s0);
                    assert(s0.spirv().block =~= s0.spirv().block.subrange(0, start));
                }
                Ok(Some(*id))
            },
            RegOp::Access(a) => {
                let base = match a.base.op_id(shader) {
                    Err(e) => return Err(e),
                    Ok(None) => return Err(Error::NoBase),
                    Ok(Some(b)) => b,
                };
                let ghost s1 = *shader;
                let r = shader.access_chain(a.pointer_type, base, &a.access_chain);
                proof {
                    lemma_appended(s1, *shader, r is Some, Inst::AccessChain {
                        id: r->0, result_type: a.pointer_type, base, indexes: a.access_chain@ });
                    lemma_frame_trans(s0, s1, *shader);
                }
                match r {
                    Some(id) => {
                        proof { lemma_emitted_prefix(access_base(*a), s1.spirv().block, shader.spirv().block, start); }
                        Ok(Some(id))
                    },
                    None => Err(Error::Builder(BuildError::DetachedInstruction)),
                }
            },
            RegOp::Load(RegisteredLoad { result_type, object }) => {
                let pointer = match object.op_id(shader) {
                    Err(e) => return Err(e),
                    Ok(None) => return Err(Error::NoOp),
                    Ok(Some(p)) => p,
                };
                let ghost s1 = *shader;
                let r = shader.load(*result_type, pointer);
                proof {
                    lemma_appended(s1, *shader, r is Some, Inst::Load { id: r->0, result_type: *result_type, pointer });
                    lemma_frame_trans(s0, s1, *shader);
                }
                match r {
                    Some(id) => {
                        proof { lemma_emitted_prefix(**object, s1.spirv().block, shader.spirv().block, start); }
                        Ok(Some(id))
                    },
                    None => Err(Error::Builder(BuildError::DetachedInstruction)),
                }
            },
            RegOp::Store(RegisteredStore { dest, source, .. }) => {
                let pointer = match dest.op_id(shader) {
                    Err(e) => return Err(e),
                    Ok(None) => return Err(Error::NoOp),
                    Ok(Some(p)) => p,
                };
                let ghost s1 = *shader;
                let object = match source.op_id(shader) {
                    Err(e) => {
                        proof { lemma_frame_trans(s0, s1, *shader); }
                        return Err(e);
                    },
                    Ok(None) => {
                        proof { lemma_frame_trans(s0, s1, *shader); }
                        return Err(Error::NoObjectId);
                    },
                    Ok(Some(o)) => o,
                };
                let ghost s2 = *shader;
                proof { lemma_frame_trans(s0, s1, s2); }
                let ok = shader.store(pointer, object);
                proof {
                    lemma_appended(s2, *shader, ok, Inst::Store { pointer, object });
                    lemma_frame_trans(s0, s2, *shader);
                }
                if ok {
                    proof {
                        lemma_frame_trans(s1, s2, *shader);
                        lemma_emitted_prefix(**dest, s1.spirv().block, shader.spirv().block, start);
                        lemma_emitted_prefix(**source, s2.spirv().block, shader.spirv().block, start + emit_count(**dest));
                    }
                    Ok(None)
                } else {
                    Err(Error::Builder(BuildError::DetachedInstruction))
                }
            },
            RegOp::MatrixTimesMatrix(MatrixTimesMatrixRegMul { result_type, lhs, rhs }) => {
                let left = match lhs.op_id(shader) {
                    Err(e) => return Err(e),
                    Ok(None) => return Err(Error::NoObjectId),
                    Ok(Some(p)) => p,
                };
                let ghost s1 = *shader;
                let right = match rhs.op_id(shader) {
                    Err(e) => {
                        proof { lemma_frame_trans(s0, s1, *shader); }
                        return Err(e);
                    },
                    Ok(None) => {
                        proof { lemma_frame_trans(s0, s1, *shader); }
                        return Err(Error::NoObjectId);
                    },
                    Ok(Some(o)) => o,
                };
                let ghost s2 = *shader;
                proof { lemma_frame_trans(s0, s1, s2); }
                let r = shader.matrix_times_matrix(*result_type, left, right);
                proof {
                    lemma_appended(s2, *shader, r is Some, Inst::MatrixTimesMatrix {
                        id: r->0, result_type: *result_type, left, right });
                    lemma_frame_trans(s0, s2, *shader);
                }
                match r {
                    Some(id) => {
                        proof {
                            lemma_frame_trans(s1, s2, *shader);
                            lemma_emitted_prefix(**lhs, s1.spirv().block, shader.spirv().block, start);
                            lemma_emitted_prefix(**rhs, s2.spirv().block, shader.spirv().block, start + emit_count(**lhs));
                        }
                        Ok(Some(id))
                    },
                    None => Err(Error::Builder(BuildError::DetachedInstruction)),
                }
            },
            RegOp::MatrixTimesVector(MatrixTimesVectorRegMul { result_type, lhs, rhs }) => {
                let matrix = match lhs.op_id(shader) {
                    Err(e) => return Err(e),
                    Ok(None) => return Err(Error::NoObjectId),
                    Ok(Some(p)) => p,
                };
                let ghost s1 = *shader;
                let vector = match rhs.op_id(shader) {
                    Err(e) => {
                        proof { lemma_frame_trans(s0, s1, *shader); }
                        return Err(e);
                    },
                    Ok(None) => {
                        proof { lemma_frame_trans(s0, s1, *shader); }
                        return Err(Error::NoObjectId);
                    },
                    Ok(Some(o)) => o,
                };
                let ghost s2 = *shader;
                proof { lemma_frame_trans(s0, s1, s2); }
                let r = shader.matrix_times_vector(*result_type, matrix, vector);
                proof {
                    lemma_appended(s2, *shader, r is Some, Inst::MatrixTimesVector {
                        id: r->0, result_type: *result_type, matrix, vector });
                    lemma_frame_trans(s0, s2, *shader);
                }
                match r {
                    Some(id) => {
                        proof {
                            lemma_frame_trans(s1, s2, *shader);
                            lemma_emitted_prefix(**lhs, s1.spirv().block, shader.spirv().block, start);
                            lemma_emitted_prefix(**rhs, s2.spirv().block, shader.spirv().block, start + emit_count(**lhs));
                        }
                        Ok(Some(id))
                    },
                    None => Err(Error::Builder(BuildError::DetachedInstruction)),
                }
            },
            RegOp::Transpose(RegTranspose { result_type, matrix }) => {
                let m = match matrix.op_id(shader) {
                    Err(e) => return Err(e),
                    Ok(None) => return Err(Error::NoOp),
                    Ok(Some(p)) => p,
                };
                let ghost s1 = *shader;
                let r = shader.transpose(*result_type, m);
                proof {
                    lemma_appended(s1, *shader, r is Some, Inst::Transpose { id: r->0, result_type: *result_type, matrix: m });
                    lemma_frame_trans(s0, s1, *shader);
                }
                match r {
                    Some(id) => {
                        proof { lemma_emitted_prefix(**matrix, s1.spirv().block, shader.spirv().block, start); }
                        Ok(Some(id))
                    },
                    None => Err(Error::Builder(BuildError::DetachedInstruction)),
                }
            },
            RegOp::VecExpand(v) => v.op_id(shader),
        }
    }
}

impl VecExpand {
    /// Emits the expansion: the source's components extracted one by one, then a vector
    /// built of them followed by the constants.
    fn op_id(&self, shader: &mut Shader) -> (r: Result<Option<Word>, Error>)
        requires
            old(shader).wf(),
        ensures
            emission_frame(*old(shader), *final(shader)),
            r is Err <==> emit_error(RegOp::VecExpand(*self), old(shader).spirv().in_block()) is Some,
            r matches Err(e) ==> emit_error(RegOp::VecExpand(*self), old(shader).spirv().in_block()) == Some(e),
            r matches Ok(o) ==> emission(RegOp::VecExpand(*self), *old(shader), *final(shader), o),
        decreases RegOp::VecExpand(*self), 0nat,
    {
        let ghost s0 = *shader;
        let ghost ib = shader.spirv().in_block();
        let ghost start = shader.spirv().block.len() as int;
        let composite = match self.source.op_id(shader) {
            Err(e) => return Err(e),
            Ok(None) => return Err(Error::NoOp),
            Ok(Some(c)) => c,
        };
        let ghost s1 = *shader;
        let ghost s = s1.spirv().block.len() as int;
        let mut constituents: Vec<Word> = Vec::new();
        let mut i: u32 = 0;
        proof { lemma_frame_refl(s1); }
        while i < self.size
            invariant
                s0 == *old(shader),
                emission_frame(s0, s1),
                emission_frame(s1, *shader),
                s0.spirv().in_block() == ib,
                emit_error(*self.source, ib) is None,
                !(*self.source is Store),
                s == s1.spirv().block.len(),
                i <= self.size,
                shader.spirv().block.len() == s + i,
                constituents@ == result_ids(shader.spirv().block, s, i as nat),
                forall|j: int|
                    0 <= j < i ==> (#[trigger] shader.spirv().block[s + j] matches Inst::CompositeExtract {
                        result_type,
                        composite: c,
                        literals,
                        ..
                    } && result_type == self.component_type && c == composite && literals == seq![j as u32]),
            decreases self.size - i,
        {
            let ghost s2 = *shader;
            let mut literals: Vec<u32> = Vec::new();
            literals.push(i);
            let r = shader.composite_extract(self.component_type, composite, &literals);
            proof {
                lemma_appended(s2, *shader, r is Some, Inst::CompositeExtract {
                    id: r->0, result_type: self.component_type, composite, literals: literals@ });
                lemma_frame_trans(s1, s2, *shader);
            }
            match r {
                Some(id) => {
                    constituents.push(id);
                    proof {
                        assert(constituents@ =~= result_ids(shader.spirv().block, s, (i + 1) as nat));
                    }
                    i = i + 1;
                },
                None => {
                    proof { lemma_frame_trans(s0, s1, *shader); }
                    return Err(Error::Builder(BuildError::DetachedInstruction));
                },
            }
        }
        let ghost ids = constituents@;
        let mut j: usize = 0;
        while j < self.constants.len()
            invariant
                j <= self.constants@.len(),
                constituents@ == ids + self.constants@.subrange(0, j as int),
            decreases self.constants@.len() - j,
        {
            constituents.push(self.constants[j]);
            proof {
                assert(constituents@ =~= ids + self.constants@.subrange(0, j + 1));
            }
            j = j + 1;
        }
        proof {
            assert(self.constants@.subrange(0, self.constants@.len() as int) =~= self.constants@);
        }
        let ghost s3 = *shader;
        let r = shader.composite_construct(self.result_type, &constituents);
        proof {
            lemma_appended(s3, *shader, r is Some, Inst::CompositeConstruct {
                id: r->0, result_type: self.result_type, constituents: constituents@ });
            lemma_frame_trans(s1, s3, *shader);
            lemma_frame_trans(s0, s1, *shader);
        }
        match r {
            Some(id) => {
                proof {
                    lemma_emitted_prefix(*self.source, s1.spirv().block, shader.spirv().block, start);
                    let b3 = s3.spirv().block;
                    let b = shader.spirv().block;
                    assert(result_ids(b3, s, self.size as nat) =~= result_ids(b, s, self.size as nat));
                    assert forall|k: int| 0 <= k < self.size implies #[trigger] b[s + k] == b3[s + k] by {}
                }
                Ok(Some(id))
            },
            None => Err(Error::Builder(BuildError::DetachedInstruction)),
        }
    }
}

} // verus!
