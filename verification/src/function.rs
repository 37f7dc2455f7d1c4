//! Functions of a shader: their operations, what they return, and their registration
//! into a shader as one function of one block.
use crate::emit::{
    emission, emission_frame, emit_count, emitted, emitted_value, lemma_emitted_prefix,
    lemma_frame_refl, lemma_frame_trans, lemma_shape_emission, rc_op, op_emit_count, op_emit_error,
};
use crate::errors::{BuildError, Error};
use crate::interface::{all_interfaces, describe_error, interface_from_ops, interface_of, lemma_no_error_all_interfaces};
use crate::keys::OpKey;
use crate::model::{BuilderModel, FunctionModel, Inst, Word};
use crate::keys::OpKeyModel;
use crate::keys::TypeKeyModel;
use crate::ops::{
    first_error, lemma_ids_shape, lemma_reg_ids_extend, op_fits, reg_error, reg_fails, reg_ids, reg_shape,
    spec_op_type, var_id, Op, RegOp,
};
use crate::shader::{
    has_no_type, lemma_extends_refl, lemma_extends_trans, lemma_grows_extends, lemma_grows_trans,
    lemma_lookup_op_extend, lemma_prefix_refl, lemma_prefix_trans, lemma_type_id_extend, lookup_op, register_fits, shader_extends,
    spec_execution_model, spec_type_id, Shader, ShaderKind,
};
use std::rc::Rc;
use vstd::prelude::*;

verus! {

/// A function of a shader: its name, its operations in order, and the operation whose
/// value it returns, if any.
#[derive(Debug)]
pub struct Function {
    pub name: String,
    pub ops: Vec<Rc<Op>>,
    pub return_op: Option<Rc<Op>>,
}

/// Builder of functions.
#[derive(Debug)]
pub struct FunctionBuilder {
    pub name: String,
    pub ops: Vec<Rc<Op>>,
}

impl FunctionBuilder {
    /// Create a new function builder.
    pub fn new(name: &str) -> (r: FunctionBuilder)
        ensures
            r.name@ == name@,
            r.ops@ == Seq::<Rc<Op>>::empty(),
    {
        FunctionBuilder { name: name.to_owned(), ops: Vec::new() }
    }

    /// Add an operation to this function builder.
    pub fn op(&mut self, op: Rc<Op>)
        ensures
            final(self).name == old(self).name,
            final(self).ops@ == old(self).ops@.push(op),
    {
        self.ops.push(op);
    }

    /// Create a function that returns void.
    ///
    /// All previously appended operations will be added to the created function.
    pub fn returns_void(self) -> (r: Function)
        ensures
            r.name == self.name,
            r.ops == self.ops,
            r.return_op is None,
    {
        Function { name: self.name, ops: self.ops, return_op: None }
    }

    /// Create a function that returns the value of the given operation.
    pub fn returns_value(self, return_op: Rc<Op>) -> (r: Function)
        ensures
            r.name == self.name,
            r.ops == self.ops,
            r.return_op == Some(return_op),
    {
        Function { name: self.name, ops: self.ops, return_op: Some(return_op) }
    }
}

/// Registering one of the operations fails.
pub open spec fn ops_fail(ops: Seq<Rc<Op>>) -> bool {
    exists|i: int| 0 <= i < ops.len() && reg_fails(*#[trigger] ops[i])
}

/// `e` is the error that registering the operations in order fails with: that of the
/// first one whose registration fails.
pub open spec fn ops_error(ops: Seq<Rc<Op>>, e: Error) -> bool {
    exists|i: int| 0 <= i < ops.len() && reg_fails(*#[trigger] ops[i]) && !ops_fail(ops.take(i)) && reg_error(*ops[i], e)
}

/// The layouts of every type each operation registers can be computed in 32 bits.
pub open spec fn ops_fit(ops: Seq<Rc<Op>>) -> bool {
    forall|i: int| 0 <= i < ops.len() ==> op_fits(*#[trigger] ops[i])
}

/// The first error met emitting registrations of the operations in order, if any.
pub open spec fn ops_emit_error(ops: Seq<Rc<Op>>) -> Option<Error>
    decreases ops.len(),
{
    if ops.len() == 0 {
        None
    } else {
        first_error(ops_emit_error(ops.drop_last()), op_emit_error(*ops.last(), true))
    }
}

/// How many instructions emitting registrations of the operations appends.
pub open spec fn ops_emit_count(ops: Seq<Rc<Op>>) -> nat
    decreases ops.len(),
{
    if ops.len() == 0 {
        0
    } else {
        ops_emit_count(ops.drop_last()) + op_emit_count(*ops.last())
    }
}

/// Registering the type of the returned value fails.
pub open spec fn return_type_fails(f: Function) -> bool {
    f.return_op matches Some(r) && has_no_type(spec_op_type(*r))
}

/// Emitting the returned value fails: registering or emitting it fails, or it yields
/// no object.
pub open spec fn return_fails(f: Function) -> bool {
    f.return_op matches Some(r) && (reg_fails(*r) || op_emit_error(*r, true) is Some || *r is Store)
}

/// `e` is the error emitting the returned value fails with.
pub open spec fn return_error(f: Function, e: Error) -> bool {
    f.return_op matches Some(r) && if reg_fails(*r) {
        reg_error(*r, e)
    } else if op_emit_error(*r, true) is Some {
        op_emit_error(*r, true) == Some(e)
    } else {
        e == Error::NoOp
    }
}

/// Registering `f` fails, where `nested` tells that a function is already being built.
pub open spec fn function_fails(f: Function, nested: bool) -> bool {
    ||| ops_fail(f.ops@)
    ||| return_type_fails(f)
    ||| nested
    ||| ops_emit_error(f.ops@) is Some
    ||| return_fails(f)
}

/// Registering `f` fails before its function is begun: registering its operations or
/// its returned type fails, or a function is being built already.
pub open spec fn fails_before_begin(f: Function, nested: bool) -> bool {
    ops_fail(f.ops@) || return_type_fails(f) || nested
}

/// From `before` to `after` no function was begun or ended and no entry point added:
/// the selection stays, and only the selected block may have changed.
pub open spec fn function_frame(before: BuilderModel, after: BuilderModel) -> bool {
    &&& after.selection == before.selection
    &&& after.functions == before.with_block(after.block).functions
    &&& after.entry_points == before.entry_points
}

proof fn lemma_function_frame_trans(a: BuilderModel, b: BuilderModel, c: BuilderModel)
    requires
        a.selection_valid(),
        function_frame(a, b),
        function_frame(b, c),
    ensures
        function_frame(a, c),
{
    a.lemma_with_block_twice(b.block, c.block);
    let ab = a.with_block(b.block);
    assert(ab.selection == b.selection && ab.functions == b.functions);
    assert(b.with_block(c.block).functions == ab.with_block(c.block).functions);
}

/// `e` is the error registering `f` fails with: the operations are registered, then
/// the returned type, then the function is begun, the operations emitted, and the
/// returned value registered and emitted.
pub open spec fn function_error(f: Function, nested: bool, e: Error) -> bool {
    if ops_fail(f.ops@) {
        ops_error(f.ops@, e)
    } else if return_type_fails(f) {
        e == Error::NoType
    } else if nested {
        e == Error::Builder(BuildError::NestedFunction)
    } else if ops_emit_error(f.ops@) is Some {
        ops_emit_error(f.ops@) == Some(e)
    } else {
        return_error(f, e)
    }
}

/// From index `start`, `block` holds an emission of a registration of `op` that holds
/// the ids the caches `types` and `cached` give.
pub open spec fn emits(
    op: Op,
    block: Seq<Inst>,
    start: int,
    types: Seq<(TypeKeyModel, Word)>,
    cached: Seq<(OpKeyModel, Word)>,
) -> bool {
    exists|reg: RegOp| reg_ids(op, reg, types, cached) && #[trigger] emitted(reg, block, start)
}

/// `body` is the block of `f`, with the ids the caches `types` and `cached` give: an
/// emission of each operation in order; then, for a
/// returned value, the variables its registration declares, an emission of it and an
/// OpReturnValue of its object, or else an OpReturn.
pub open spec fn function_body(
    f: Function,
    body: Seq<Inst>,
    types: Seq<(TypeKeyModel, Word)>,
    cached: Seq<(OpKeyModel, Word)>,
) -> bool {
    let ops = f.ops@;
    let n = ops_emit_count(ops) as int;
    &&& forall|i: int| 0 <= i < ops.len() ==> emits(*#[trigger] ops[i], body, ops_emit_count(ops.take(i)) as int, types, cached)
    &&& match f.return_op {
        None => body.len() == n + 1 && body[n] == Inst::Return,
        Some(r) => exists|reg: RegOp, start: int| {
            &&& n <= start
            &&& reg_ids(*r, reg, types, cached)
            &&& #[trigger] emitted(reg, body, start)
            &&& (forall|k: int| n <= k < start ==> #[trigger] body[k] is Variable)
            &&& body.len() == start + emit_count(reg) + 1
            &&& emitted_value(reg, body, start) is Some
            &&& body.last() == Inst::ReturnValue { value: emitted_value(reg, body, start)->0 }
        },
    }
}

/// The id of the type `f` returns, in the shader `s`.
pub open spec fn return_type_id(f: Function, s: Shader) -> Option<Word> {
    match f.return_op {
        None => lookup_op(s.ops(), OpKeyModel::Void),
        Some(r) => spec_type_id(s.types(), spec_op_type(*r)),
    }
}

/// `f` was registered from `before` to `after` as the function `id`: one function was
/// added, ended, of the type of functions returning its returned type, with one block,
/// its body.
pub open spec fn function_registered(f: Function, before: Shader, after: Shader, id: Word) -> bool {
    let n = before.spirv().functions.len() as int;
    let fns = after.spirv().functions;
    &&& fns.len() == n + 1
    &&& fns.take(n) == before.spirv().functions
    &&& after.spirv().selection == seq![None::<usize>, None::<usize>]
    &&& fns[n].ended
    &&& fns[n].blocks.len() == 1
    &&& function_body(f, fns[n].blocks[0], after.types(), after.ops())
    &&& fns[n].def matches Inst::Function { id: fid, return_type, function_type }
    &&& fid == id
    &&& return_type_id(f, after) == Some(return_type)
    &&& lookup_op(after.ops(), OpKeyModel::Function { return_type, parameter_types: Seq::empty() }) == Some(function_type)
}

proof fn lemma_ops_fail_step(ops: Seq<Rc<Op>>, i: int)
    requires
        0 <= i < ops.len(),
        !ops_fail(ops.take(i)),
        !reg_fails(*ops[i]),
    ensures
        !ops_fail(ops.take(i + 1)),
{
    assert forall|j: int| 0 <= j < i + 1 implies !reg_fails(*#[trigger] ops.take(i + 1)[j]) by {
        if j < i {
            assert(ops.take(i + 1)[j] == ops.take(i)[j]);
        }
    }
}

proof fn lemma_emit_error_extend(ops: Seq<Rc<Op>>, k: int)
    requires
        0 <= k <= ops.len(),
        ops_emit_error(ops.take(k)) is Some,
    ensures
        ops_emit_error(ops) == ops_emit_error(ops.take(k)),
    decreases ops.len() - k,
{
    if k < ops.len() {
        assert(ops.take(k + 1).drop_last() =~= ops.take(k));
        lemma_emit_error_extend(ops, k + 1);
    } else {
        assert(ops.take(k) =~= ops);
    }
}

/// Registers the operations in order; fails on the first whose registration fails.
fn register_ops(ops: &Vec<Rc<Op>>, shader: &mut Shader) -> (r: Result<Vec<RegOp>, Error>)
    requires
        old(shader).wf(),
        ops_fit(ops@),
    ensures
        final(shader).wf(),
        shader_extends(*old(shader), *final(shader)),
        r is Err <==> ops_fail(ops@),
        r matches Err(e) ==> ops_error(ops@, e),
        r matches Ok(regs) ==> regs@.len() == ops@.len() && forall|j: int|
            0 <= j < ops@.len() ==> reg_ids(*ops@[j], #[trigger] regs@[j], final(shader).types(), final(shader).ops()),
{
    let ghost s0 = *shader;
    let mut regs: Vec<RegOp> = Vec::new();
    let mut i: usize = 0;
    proof {
        lemma_extends_refl(s0);
        assert(ops@.take(0) =~= Seq::<Rc<Op>>::empty());
    }
    while i < ops.len()
        invariant
            s0 == *old(shader),
            s0.wf(),
            shader.wf(),
            shader_extends(s0, *shader),
            ops_fit(ops@),
            0 <= i <= ops@.len(),
            regs@.len() == i,
            forall|j: int| 0 <= j < i ==> reg_ids(*ops@[j], #[trigger] regs@[j], shader.types(), shader.ops()),
            !ops_fail(ops@.take(i as int)),
        decreases ops@.len() - i,
    {
        let ghost s1 = *shader;
        let reg = match ops[i].register_op(shader) {
            Ok(reg) => reg,
            Err(e) => {
                proof {
                    lemma_extends_trans(s0, s1, *shader);
                    assert(reg_fails(*ops@[i as int]));
                    assert(ops_fail(ops@));
                    assert(ops_error(ops@, e));
                }
                return Err(e);
            },
        };
        proof {
            lemma_extends_trans(s0, s1, *shader);
            lemma_ops_fail_step(ops@, i as int);
            assert forall|j: int| 0 <= j < i implies reg_ids(*ops@[j], #[trigger] regs@[j], shader.types(), shader.ops()) by {
                lemma_reg_ids_extend(rc_op(ops@[j]), regs@[j], s1.types(), s1.ops(), shader.types(), shader.ops());
            }
        }
        regs.push(reg);
        i = i + 1;
    }
    proof {
        assert(ops@.take(i as int) =~= ops@);
    }
    Ok(regs)
}

/// Emits the registered operations in order into the block under construction, which
/// is empty; fails on the first emission that fails.
#[verifier::rlimit(40)]
fn emit_ops(regs: &Vec<RegOp>, Ghost(ops): Ghost<Seq<Rc<Op>>>, shader: &mut Shader) -> (r: Result<(), Error>)
    requires
        old(shader).wf(),
        old(shader).spirv().in_block(),
        old(shader).spirv().block == Seq::<Inst>::empty(),
        regs@.len() == ops.len(),
        forall|k: int| 0 <= k < ops.len() ==> reg_ids(*ops[k], #[trigger] regs@[k], old(shader).types(), old(shader).ops()),
    ensures
        emission_frame(*old(shader), *final(shader)),
        r is Err <==> ops_emit_error(ops) is Some,
        r matches Err(e) ==> ops_emit_error(ops) == Some(e),
        r is Ok ==> final(shader).spirv().block.len() == ops_emit_count(ops) && forall|k: int|
            0 <= k < ops.len() ==> emits(*#[trigger] ops[k], final(shader).spirv().block, ops_emit_count(ops.take(k)) as int, final(shader).types(), final(shader).ops()),
{
    let ghost s5 = *shader;
    proof {
        lemma_frame_refl(s5);
        assert(ops.take(0) =~= Seq::<Rc<Op>>::empty());
    }
    let mut j: usize = 0;
    while j < regs.len()
        invariant
            s5 == *old(shader),
            shader.wf(),
            s5.wf(),
            s5.spirv().in_block(),
            emission_frame(s5, *shader),
            regs@.len() == ops.len(),
            forall|k: int| 0 <= k < ops.len() ==> reg_ids(*ops[k], #[trigger] regs@[k], s5.types(), s5.ops()),
            0 <= j <= ops.len(),
            ops_emit_error(ops.take(j as int)) is None,
            shader.spirv().block.len() == ops_emit_count(ops.take(j as int)),
            forall|k: int| 0 <= k < j ==> emits(*#[trigger] ops[k], shader.spirv().block, ops_emit_count(ops.take(k)) as int, s5.types(), s5.ops()),
        decreases ops.len() - j,
    {
        let ghost s6 = *shader;
        let ghost start = s6.spirv().block.len() as int;
        let res = regs[j].op_id(shader);
        proof {
            lemma_ids_shape(rc_op(ops[j as int]), regs@[j as int], s5.types(), s5.ops());
            lemma_shape_emission(rc_op(ops[j as int]), regs@[j as int], true);
            assert(ops.take(j + 1).drop_last() =~= ops.take(j as int));
            assert(ops.take(j + 1).last() == ops[j as int]);
            lemma_frame_trans(s5, s6, *shader);
        }
        match res {
            Ok(_) => {
                proof {
                    let b6 = s6.spirv().block;
                    let b = shader.spirv().block;
                    assert forall|k: int| 0 <= k < j + 1 implies emits(*#[trigger] ops[k], b, ops_emit_count(ops.take(k)) as int, s5.types(), s5.ops()) by {
                        if k < j {
                            let st = ops_emit_count(ops.take(k)) as int;
                            let reg = choose|reg: RegOp| reg_ids(*ops[k], reg, s5.types(), s5.ops()) && #[trigger] emitted(reg, b6, st);
                            lemma_emitted_prefix(reg, b6, b, st);
                        } else {
                            assert(emitted(regs@[j as int], b, start));
                        }
                    }
                }
            },
            Err(e) => {
                proof {
                    lemma_emit_error_extend(ops, j + 1);
                }
                return Err(e);
            },
        }
        j = j + 1;
    }
    proof {
        assert(ops.take(j as int) =~= ops);
    }
    Ok(())
}

/// The function being built is the last of `m`, after the functions `base`: it starts
/// with `def` and its one block, selected, holds `blk`.
pub open spec fn building(m: BuilderModel, base: Seq<FunctionModel>, def: Inst, blk: Seq<Inst>) -> bool {
    &&& m.selection.len() == 2
    &&& m.selection[0] matches Some(k) && k == base.len()
    &&& m.selection[1] == Some(0usize)
    &&& m.functions == base.push(FunctionModel { def, blocks: seq![blk], ended: false })
    &&& m.block == blk
}

proof fn lemma_building(m: BuilderModel, base: Seq<FunctionModel>, def: Inst, x: Seq<Inst>, y: Seq<Inst>)
    requires
        building(m, base, def, x),
    ensures
        building(m.with_block(y), base, def, y),
        m.in_block(),
{
    let n = base.len() as int;
    let f = FunctionModel { def, blocks: seq![x], ended: false };
    assert(m.functions[n] == f);
    assert(f.blocks.update(0, y) =~= seq![y]);
    assert(m.functions.update(n, FunctionModel { blocks: f.blocks.update(0, y), ..f }) =~= base.push(
        FunctionModel { def, blocks: seq![y], ended: false },
    ));
}

proof fn lemma_emits_prefix(
    ops: Seq<Rc<Op>>,
    a: Seq<Inst>,
    b: Seq<Inst>,
    t1: Seq<(TypeKeyModel, Word)>,
    o1: Seq<(OpKeyModel, Word)>,
    t2: Seq<(TypeKeyModel, Word)>,
    o2: Seq<(OpKeyModel, Word)>,
)
    requires
        a.is_prefix_of(b),
        t1.is_prefix_of(t2),
        o1.is_prefix_of(o2),
        forall|k: int| 0 <= k < ops.len() ==> emits(*#[trigger] ops[k], a, ops_emit_count(ops.take(k)) as int, t1, o1),
    ensures
        forall|k: int| 0 <= k < ops.len() ==> emits(*#[trigger] ops[k], b, ops_emit_count(ops.take(k)) as int, t2, o2),
{
    assert forall|k: int| 0 <= k < ops.len() implies emits(*#[trigger] ops[k], b, ops_emit_count(ops.take(k)) as int, t2, o2) by {
        let st = ops_emit_count(ops.take(k)) as int;
        let reg = choose|reg: RegOp| reg_ids(*ops[k], reg, t1, o1) && #[trigger] emitted(reg, a, st);
        lemma_emitted_prefix(reg, a, b, st);
        lemma_reg_ids_extend(rc_op(ops[k]), reg, t1, o1, t2, o2);
    }
}

proof fn lemma_value_body(
    f: Function,
    b7: Seq<Inst>,
    b8: Seq<Inst>,
    b9: Seq<Inst>,
    reg: RegOp,
    value: Word,
    t7: Seq<(TypeKeyModel, Word)>,
    o7: Seq<(OpKeyModel, Word)>,
    types: Seq<(TypeKeyModel, Word)>,
    cached: Seq<(OpKeyModel, Word)>,
)
    requires
        f.return_op matches Some(ro) && reg_ids(*ro, reg, types, cached),
        t7.is_prefix_of(types),
        o7.is_prefix_of(cached),
        b7.len() == ops_emit_count(f.ops@),
        forall|k: int| 0 <= k < f.ops@.len() ==> emits(*#[trigger] f.ops@[k], b7, ops_emit_count(f.ops@.take(k)) as int, t7, o7),
        b7.is_prefix_of(b8),
        forall|k: int| b7.len() <= k < b8.len() ==> #[trigger] b8[k] is Variable,
        b8.is_prefix_of(b9),
        b9.len() == b8.len() + emit_count(reg),
        emitted(reg, b9, b8.len() as int),
        emitted_value(reg, b9, b8.len() as int) == Some(value),
    ensures
        function_body(f, b9.push(Inst::ReturnValue { value }), types, cached),
{
    let body = b9.push(Inst::ReturnValue { value });
    let start = b8.len() as int;
    assert(b9.is_prefix_of(body)) by {
        assert(b9 =~= body.subrange(0, b9.len() as int));
    }
    lemma_emitted_prefix(reg, b9, body, start);
    assert(b7.is_prefix_of(body)) by {
        assert(b7 =~= body.subrange(0, b7.len() as int));
    }
    lemma_emits_prefix(f.ops@, b7, body, t7, o7, types, cached);
    assert forall|k: int| b7.len() <= k < start implies #[trigger] body[k] is Variable by {
        assert(body[k] == b9[k]);
        assert(b9[k] == b8[k]);
    }
    assert(emitted(reg, body, start));
}

proof fn lemma_void_body(f: Function, b7: Seq<Inst>, types: Seq<(TypeKeyModel, Word)>, cached: Seq<(OpKeyModel, Word)>)
    requires
        f.return_op is None,
        b7.len() == ops_emit_count(f.ops@),
        forall|k: int| 0 <= k < f.ops@.len() ==> emits(*#[trigger] f.ops@[k], b7, ops_emit_count(f.ops@.take(k)) as int, types, cached),
    ensures
        function_body(f, b7.push(Inst::Return), types, cached),
{
    let body = b7.push(Inst::Return);
    assert(b7.is_prefix_of(body)) by {
        assert(b7 =~= body.subrange(0, b7.len() as int));
    }
    lemma_prefix_refl(types);
    lemma_prefix_refl(cached);
    lemma_emits_prefix(f.ops@, b7, body, types, cached, types, cached);
}

/// What ending the body of `f` leaves from `before` to `after`: the caches and the
/// module only grew, the block is ended, and the function being built after the
/// functions `base`, which starts with `def`, has its one block, the body of `f`.
pub open spec fn body_ended(f: Function, before: Shader, after: Shader, base: Seq<FunctionModel>, def: Inst) -> bool {
    let m = after.spirv();
    let n = base.len() as int;
    &&& after.wf()
    &&& before.spirv().grows_to(m)
    &&& before.types().is_prefix_of(after.types())
    &&& before.ops().is_prefix_of(after.ops())
    &&& after.interfaces() == before.interfaces()
    &&& m.selection.len() == 2
    &&& m.selection[0] == before.spirv().selection[0]
    &&& m.selection[1] is None
    &&& m.functions.len() == n + 1
    &&& m.functions.take(n) == base
    &&& m.functions[n].def == def
    &&& !m.functions[n].ended
    &&& m.functions[n].blocks.len() == 1
    &&& function_body(f, m.functions[n].blocks[0], after.types(), after.ops())
}

/// The block under construction, the one block of the function being built, holds the
/// emission of the operations of `f`.
pub open spec fn ops_emitted(f: Function, s: Shader, base: Seq<FunctionModel>, def: Inst) -> bool {
    &&& s.wf()
    &&& building(s.spirv(), base, def, s.spirv().block)
    &&& s.spirv().block.len() == ops_emit_count(f.ops@)
    &&& forall|k: int| 0 <= k < f.ops@.len() ==> emits(*#[trigger] f.ops@[k], s.spirv().block, ops_emit_count(f.ops@.take(k)) as int, s.types(), s.ops())
}

/// Registers and emits the returned value `ro` and ends the block with its return.
#[verifier::rlimit(40)]
fn emit_value(ro: Rc<Op>, shader: &mut Shader, Ghost(f): Ghost<Function>, Ghost(base): Ghost<Seq<FunctionModel>>, Ghost(def): Ghost<Inst>) -> (r: Result<(), Error>)
    requires
        f.return_op == Some(ro),
        op_fits(*ro),
        ops_emitted(f, *old(shader), base, def),
    ensures
        final(shader).wf(),
        old(shader).spirv().grows_to(final(shader).spirv()),
        old(shader).types().is_prefix_of(final(shader).types()),
        old(shader).ops().is_prefix_of(final(shader).ops()),
        final(shader).interfaces() == old(shader).interfaces(),
        r is Err <==> return_fails(f),
        r matches Err(e) ==> return_error(f, e),
        r is Ok ==> body_ended(f, *old(shader), *final(shader), base, def),
{
    let ghost s7 = *shader;
    let ghost n = base.len() as int;
    proof {
        lemma_building(s7.spirv(), base, def, s7.spirv().block, s7.spirv().block);
    }
    let reg = match ro.register_op(shader) {
        Ok(reg) => reg,
        Err(e) => return Err(e),
    };
    let ghost s8 = *shader;
    proof {
        lemma_building(s7.spirv(), base, def, s7.spirv().block, s8.spirv().block);
    }
    let res = reg.op_id(shader);
    proof { lemma_shape_emission(rc_op(ro), reg, true); }
    let value = match res {
        Ok(Some(v)) => v,
        Ok(None) => return Err(Error::NoOp),
        Err(e) => return Err(e),
    };
    let ghost s9 = *shader;
    proof {
        lemma_building(s8.spirv(), base, def, s8.spirv().block, s9.spirv().block);
    }
    let ok = shader.ret_value(value);
    proof {
        assert(ok);
        let body = s9.spirv().block.push(Inst::ReturnValue { value });
        lemma_building(s9.spirv(), base, def, s9.spirv().block, body);
        lemma_prefix_trans(s7.spirv().block, s8.spirv().block, s9.spirv().block);
        lemma_value_body(f, s7.spirv().block, s8.spirv().block, s9.spirv().block, reg, value, s7.types(), s7.ops(), s8.types(), s8.ops());
        let m = shader.spirv();
        assert(m.functions == base.push(FunctionModel { def, blocks: seq![body], ended: false }));
        assert(m.functions.take(n) =~= base);
        lemma_prefix_trans(s7.types(), s8.types(), shader.types());
        lemma_prefix_trans(s7.ops(), s8.ops(), shader.ops());
    }
    Ok(())
}

/// Ends the block with a return of nothing.
fn emit_void(shader: &mut Shader, Ghost(f): Ghost<Function>, Ghost(base): Ghost<Seq<FunctionModel>>, Ghost(def): Ghost<Inst>)
    requires
        f.return_op is None,
        ops_emitted(f, *old(shader), base, def),
    ensures
        body_ended(f, *old(shader), *final(shader), base, def),
{
    let ghost s7 = *shader;
    let ghost n = base.len() as int;
    let ok = shader.ret();
    proof {
        lemma_building(s7.spirv(), base, def, s7.spirv().block, s7.spirv().block);
        assert(ok);
        let body = s7.spirv().block.push(Inst::Return);
        lemma_building(s7.spirv(), base, def, s7.spirv().block, body);
        lemma_void_body(f, s7.spirv().block, s7.types(), s7.ops());
        let m = shader.spirv();
        assert(m.functions == base.push(FunctionModel { def, blocks: seq![body], ended: false }));
        assert(m.functions.take(n) =~= base);
        lemma_prefix_refl(s7.types());
        lemma_prefix_refl(s7.ops());
    }
}

impl Function {
    /// Registers the function into the shader: registers its operations, then the type
    /// it returns and its function type; begins the function and its block; emits the
    /// operations; registers and emits the returned value and returns it (or returns
    /// nothing); and ends the function. Gives the function's id.
    pub fn register_function(self, shader: &mut Shader) -> (r: Result<Word, Error>)
        requires
            old(shader).wf(),
            ops_fit(self.ops@),
            self.return_op matches Some(ro) ==> op_fits(*ro) && register_fits(spec_op_type(*ro)),
        ensures
            final(shader).wf(),
            old(shader).spirv().grows_to(final(shader).spirv()),
            old(shader).types().is_prefix_of(final(shader).types()),
            old(shader).ops().is_prefix_of(final(shader).ops()),
            final(shader).interfaces() == old(shader).interfaces(),
            r is Err <==> function_fails(self, old(shader).spirv().in_function()),
            r matches Err(e) ==> function_error(self, old(shader).spirv().in_function(), e),
            r matches Ok(id) ==> function_registered(self, *old(shader), *final(shader), id),
            fails_before_begin(self, old(shader).spirv().in_function()) ==> function_frame(
                old(shader).spirv(),
                final(shader).spirv(),
            ),
    {
        let ghost f = self;
        let ghost s0 = *shader;
        let ghost nested = shader.spirv().in_function();
        let Function { name: _, ops, return_op } = self;
        let regs = match register_ops(&ops, shader) {
            Ok(regs) => regs,
            Err(e) => return Err(e),
        };
        let ghost s1 = *shader;
        let return_type = match &return_op {
            Some(ro) => {
                let t = ro.op_type();
                match shader.register_type(&t) {
                    Ok(w) => w,
                    Err(e) => {
                        proof { lemma_grows_extends(s1, *shader); lemma_extends_trans(s0, s1, *shader); }
                        return Err(e);
                    },
                }
            },
            None => shader.cached_op(OpKey::Void),
        };
        let ghost s2 = *shader;
        proof {
            lemma_grows_extends(s1, s2);
            lemma_extends_trans(s0, s1, s2);
        }
        let parameter_types: Vec<Word> = Vec::new();
        proof { assert(parameter_types@ =~= Seq::<Word>::empty()); }
        let function_type = shader.cached_op(OpKey::Function { return_type, parameter_types });
        let ghost s3 = *shader;
        proof {
            lemma_grows_extends(s2, s3);
            lemma_extends_trans(s0, s2, s3);
            assert(s3.spirv().in_function() == nested);
        }
        let id = match shader.begin_function(return_type, function_type) {
            Some(id) => id,
            None => return Err(Error::Builder(BuildError::NestedFunction)),
        };
        let ghost base = s0.spirv().functions;
        let ghost def = Inst::Function { id, return_type, function_type };
        proof {
            assert(s3.spirv().functions == base);
        }
        match shader.begin_block() {
            Some(_) => {},
            None => return Err(Error::Builder(BuildError::DetachedBlock)),
        }
        let ghost s5 = *shader;
        proof {
            lemma_extends_trans(s1, s2, s3);
            assert forall|k: int| 0 <= k < ops@.len() implies reg_ids(*ops@[k], #[trigger] regs@[k], s5.types(), s5.ops()) by {
                lemma_reg_ids_extend(rc_op(ops@[k]), regs@[k], s1.types(), s1.ops(), s5.types(), s5.ops());
            }
            assert(s5.spirv().functions =~= base.push(FunctionModel { def, blocks: seq![Seq::<Inst>::empty()], ended: false }));
            assert(building(s5.spirv(), base, def, Seq::<Inst>::empty()));
        }
        match emit_ops(&regs, Ghost(ops@), shader) {
            Ok(()) => {},
            Err(e) => return Err(e),
        }
        let ghost s7 = *shader;
        proof {
            lemma_building(s5.spirv(), base, def, Seq::<Inst>::empty(), s7.spirv().block);
        }
        proof {
            assert(ops_emitted(f, s7, base, def));
        }
        match return_op {
            Some(ro) => match emit_value(ro, shader, Ghost(f), Ghost(base), Ghost(def)) {
                Ok(()) => {},
                Err(e) => return Err(e),
            },
            None => emit_void(shader, Ghost(f), Ghost(base), Ghost(def)),
        }
        let ghost s10 = *shader;
        let ended = shader.end_function();
        proof {
            assert(ended);
            let fns = shader.spirv().functions;
            let nn = base.len() as int;
            assert(fns.take(nn) =~= s10.spirv().functions.take(nn));
            assert(fns[nn].blocks == s10.spirv().functions[nn].blocks);
            lemma_prefix_trans(s2.types(), s3.types(), shader.types());
            lemma_prefix_trans(s2.ops(), s3.ops(), shader.ops());
            match f.return_op {
                Some(ro) => {
                    let t = spec_op_type(rc_op(ro));
                    lemma_type_id_extend(s2.types(), shader.types(), &t);
                },
                None => {
                    lemma_lookup_op_extend(s2.ops(), shader.ops(), OpKeyModel::Void);
                },
            }
            lemma_lookup_op_extend(s3.ops(), shader.ops(), OpKeyModel::Function { return_type, parameter_types: Seq::empty() });
        }
        Ok(id)
    }
}

/// Emitting a registration of the interface operation `op` fails, or it yields no
/// object; `in_block` tells whether a block is under construction.
pub open spec fn interface_op_fails(op: Op, in_block: bool) -> bool {
    reg_fails(op) || op_emit_error(op, in_block) is Some || op is Store
}

/// `e` is the error registering and emitting the interface operation `op` fails with.
pub open spec fn interface_op_error(op: Op, in_block: bool, e: Error) -> bool {
    if reg_fails(op) {
        reg_error(op, e)
    } else if op_emit_error(op, in_block) is Some {
        op_emit_error(op, in_block) == Some(e)
    } else {
        e == Error::NoOp
    }
}

/// Registering and emitting one of the interface operations fails.
pub open spec fn interface_fails(ops: Seq<Rc<Op>>, in_block: bool) -> bool {
    exists|i: int| 0 <= i < ops.len() && interface_op_fails(*#[trigger] ops[i], in_block)
}

/// `e` is the error registering and emitting the interface operations in order fails
/// with: that of the first one that fails.
pub open spec fn interface_error(ops: Seq<Rc<Op>>, in_block: bool, e: Error) -> bool {
    exists|i: int|
        0 <= i < ops.len() && interface_op_fails(*#[trigger] ops[i], in_block) && !interface_fails(ops.take(i), in_block)
            && interface_op_error(*ops[i], in_block, e)
}

/// Adding the entry point fails, where `in_block` and `nested` tell whether a block and
/// a function are under construction.
pub open spec fn entry_point_fails(f: Function, ops: Seq<Rc<Op>>, in_block: bool, nested: bool) -> bool {
    ||| interface_fails(ops, in_block)
    ||| function_fails(f, nested)
    ||| describe_error(f.name@, ops) is Some
}

/// `e` is the error adding the entry point fails with: the interface operations are
/// registered and emitted, the function registered, then the interface described.
pub open spec fn entry_point_error(f: Function, ops: Seq<Rc<Op>>, in_block: bool, nested: bool, e: Error) -> bool {
    if interface_fails(ops, in_block) {
        interface_error(ops, in_block, e)
    } else if function_fails(f, nested) {
        function_error(f, nested, e)
    } else {
        describe_error(f.name@, ops) == Some(e)
    }
}

/// The frame of registering and emitting operations: the module-level sections and the
/// caches only grow, the selection stays, only the selected block changes, and the
/// interfaces stay.
pub open spec fn ops_frame(before: Shader, after: Shader) -> bool {
    &&& after.wf()
    &&& before.spirv().grows_to(after.spirv())
    &&& before.types().is_prefix_of(after.types())
    &&& before.ops().is_prefix_of(after.ops())
    &&& after.spirv().selection == before.spirv().selection
    &&& after.spirv().functions == before.spirv().with_block(after.spirv().block).functions
    &&& after.interfaces() == before.interfaces()
}

proof fn lemma_grows_to_trans(a: BuilderModel, b: BuilderModel, c: BuilderModel)
    requires
        a.grows_to(b),
        b.grows_to(c),
    ensures
        a.grows_to(c),
{
    lemma_prefix_trans(a.capabilities, b.capabilities, c.capabilities);
    lemma_prefix_trans(a.ext_inst_imports, b.ext_inst_imports, c.ext_inst_imports);
    lemma_prefix_trans(a.debug_names, b.debug_names, c.debug_names);
    lemma_prefix_trans(a.annotations, b.annotations, c.annotations);
    lemma_prefix_trans(a.globals, b.globals, c.globals);
}

proof fn lemma_ops_frame_trans(a: Shader, b: Shader, c: Shader)
    requires
        a.wf(),
        ops_frame(a, b),
        ops_frame(b, c),
    ensures
        ops_frame(a, c),
{
    a.spirv().lemma_with_block_twice(b.spirv().block, c.spirv().block);
    lemma_prefix_trans(a.types(), b.types(), c.types());
    lemma_prefix_trans(a.ops(), b.ops(), c.ops());
    lemma_prefix_trans(a.spirv().capabilities, b.spirv().capabilities, c.spirv().capabilities);
    lemma_prefix_trans(a.spirv().ext_inst_imports, b.spirv().ext_inst_imports, c.spirv().ext_inst_imports);
    lemma_prefix_trans(a.spirv().debug_names, b.spirv().debug_names, c.spirv().debug_names);
    lemma_prefix_trans(a.spirv().annotations, b.spirv().annotations, c.spirv().annotations);
    lemma_prefix_trans(a.spirv().globals, b.spirv().globals, c.spirv().globals);
}

proof fn lemma_ops_frame_refl(a: Shader)
    requires
        a.wf(),
    ensures
        ops_frame(a, a),
{
    a.spirv().lemma_with_own_block();
    lemma_extends_refl(a);
}

proof fn lemma_interface_fail_step(ops: Seq<Rc<Op>>, in_block: bool, i: int)
    requires
        0 <= i < ops.len(),
        !interface_fails(ops.take(i), in_block),
        !interface_op_fails(*ops[i], in_block),
    ensures
        !interface_fails(ops.take(i + 1), in_block),
{
    assert forall|j: int| 0 <= j < i + 1 implies !interface_op_fails(*#[trigger] ops.take(i + 1)[j], in_block) by {
        if j < i {
            assert(ops.take(i + 1)[j] == ops.take(i)[j]);
        }
    }
}

/// The operation is a variable.
pub open spec fn is_var(op: Op) -> bool {
    op is Global || op is Input || op is Output || op is Uniform || op is BuiltIn
}

/// Each word given for a variable of `ops` is the id the caches give the variable.
pub open spec fn var_words(ops: Seq<Rc<Op>>, words: Seq<Word>, types: Seq<(TypeKeyModel, Word)>, cached: Seq<(OpKeyModel, Word)>) -> bool {
    forall|i: int| 0 <= i < ops.len() && is_var(*#[trigger] ops[i]) ==> Some(words[i]) == var_id(*ops[i], types, cached)
}

proof fn lemma_var_words_extend(
    ops: Seq<Rc<Op>>,
    words: Seq<Word>,
    t1: Seq<(TypeKeyModel, Word)>,
    o1: Seq<(OpKeyModel, Word)>,
    t2: Seq<(TypeKeyModel, Word)>,
    o2: Seq<(OpKeyModel, Word)>,
)
    requires
        words.len() == ops.len(),
        var_words(ops, words, t1, o1),
        t1.is_prefix_of(t2),
        o1.is_prefix_of(o2),
    ensures
        var_words(ops, words, t2, o2),
{
    assert forall|i: int| 0 <= i < ops.len() && is_var(*#[trigger] ops[i]) implies Some(words[i]) == var_id(*ops[i], t2, o2) by {
        assert(reg_ids(*ops[i], RegOp::Var(words[i]), t1, o1));
        lemma_reg_ids_extend(rc_op(ops[i]), RegOp::Var(words[i]), t1, o1, t2, o2);
    }
}

/// Registers and emits the interface operations in order, giving the object of each.
fn register_interface(ops: &Vec<Rc<Op>>, shader: &mut Shader) -> (r: Result<Vec<Word>, Error>)
    requires
        old(shader).wf(),
        ops_fit(ops@),
    ensures
        ops_frame(*old(shader), *final(shader)),
        r is Err <==> interface_fails(ops@, old(shader).spirv().in_block()),
        r matches Err(e) ==> interface_error(ops@, old(shader).spirv().in_block(), e),
        r matches Ok(words) ==> words@.len() == ops@.len() && var_words(ops@, words@, final(shader).types(), final(shader).ops()),
{
    let ghost s0 = *shader;
    let ghost ib = shader.spirv().in_block();
    let mut words: Vec<Word> = Vec::new();
    let mut i: usize = 0;
    proof {
        lemma_ops_frame_refl(s0);
        assert(ops@.take(0) =~= Seq::<Rc<Op>>::empty());
    }
    while i < ops.len()
        invariant
            s0 == *old(shader),
            s0.wf(),
            ib == s0.spirv().in_block(),
            ops_frame(s0, *shader),
            ops_fit(ops@),
            0 <= i <= ops@.len(),
            words@.len() == i,
            !interface_fails(ops@.take(i as int), ib),
            var_words(ops@.take(i as int), words@, shader.types(), shader.ops()),
        decreases ops@.len() - i,
    {
        let ghost s1 = *shader;
        let reg = match ops[i].register_op(shader) {
            Ok(reg) => reg,
            Err(e) => {
                proof {
                    assert(interface_op_fails(*ops@[i as int], ib));
                    assert(interface_error(ops@, ib, e));
                    lemma_ops_frame_refl(s1);
                    lemma_ops_frame_trans(s0, s1, *shader);
                }
                return Err(e);
            },
        };
        let ghost s2 = *shader;
        proof {
            lemma_ops_frame_refl(s1);
            lemma_ops_frame_trans(s0, s1, s2);
        }
        let res = reg.op_id(shader);
        proof {
            lemma_shape_emission(rc_op(ops@[i as int]), reg, ib);
            lemma_ops_frame_refl(s2);
            lemma_ops_frame_trans(s0, s2, *shader);
        }
        let w = match res {
            Ok(Some(w)) => w,
            Ok(None) => {
                proof { assert(interface_error(ops@, ib, Error::NoOp)); }
                return Err(Error::NoOp);
            },
            Err(e) => {
                proof { assert(interface_error(ops@, ib, e)); }
                return Err(e);
            },
        };
        proof {
            lemma_interface_fail_step(ops@, ib, i as int);
            lemma_var_words_extend(ops@.take(i as int), words@, s1.types(), s1.ops(), shader.types(), shader.ops());
        }
        let ghost prev = words@;
        words.push(w);
        proof {
            let next = ops@.take(i + 1);
            assert forall|j: int| 0 <= j < next.len() && is_var(*#[trigger] next[j]) implies Some(words@[j]) == var_id(*next[j], shader.types(), shader.ops()) by {
                if j < i {
                    assert(next[j] == ops@.take(i as int)[j]);
                    assert(words@[j] == prev[j]);
                } else {
                    assert(next[j] == ops@[i as int]);
                }
            }
        }
        i = i + 1;
    }
    proof {
        assert(ops@.take(i as int) =~= ops@);
    }
    Ok(words)
}

impl Shader {
    /// Adds an entry point of kind `kind` running `function`, whose interface is made of
    /// the operations `interface`: registers and emits them, registers the function,
    /// declares the entry point, and records its interface.
    pub fn entry_point(&mut self, kind: ShaderKind, function: Function, interface: Vec<Rc<Op>>) -> (r: Result<(), Error>)
        requires
            old(self).wf(),
            ops_fit(interface@),
            ops_fit(function.ops@),
            function.return_op matches Some(ro) ==> op_fits(*ro) && register_fits(spec_op_type(*ro)),
        ensures
            final(self).wf(),
            old(self).spirv().grows_to(BuilderModel { entry_points: old(self).spirv().entry_points, ..final(self).spirv() }),
            old(self).spirv().entry_points.is_prefix_of(final(self).spirv().entry_points),
            final(self).spirv().entry_points.len() <= old(self).spirv().entry_points.len() + 1,
            old(self).types().is_prefix_of(final(self).types()),
            old(self).ops().is_prefix_of(final(self).ops()),
            r is Err <==> entry_point_fails(function, interface@, old(self).spirv().in_block(), old(self).spirv().in_function()),
            r matches Err(e) ==> entry_point_error(function, interface@, old(self).spirv().in_block(), old(self).spirv().in_function(), e),
            interface_fails(interface@, old(self).spirv().in_block()) || fails_before_begin(
                function,
                old(self).spirv().in_function(),
            ) ==> function_frame(old(self).spirv(), final(self).spirv()),
            r is Ok ==> ({
                let eps = final(self).spirv().entry_points;
                &&& eps.len() > 0
                &&& eps.drop_last() == old(self).spirv().entry_points
                &&& eps.last() matches Inst::EntryPoint { model, function: id, name, interface: words }
                &&& model == spec_execution_model(kind)
                &&& name == function.name@
                &&& words.len() == interface@.len()
                &&& all_interfaces(interface@)
                &&& var_words(interface@, words, final(self).types(), final(self).ops())
                &&& function_registered(function, *old(self), *final(self), id)
                &&& final(self).interfaces().len() == old(self).interfaces().len() + 1
                &&& final(self).interfaces().take(old(self).interfaces().len() as int) == old(self).interfaces()
                &&& interface_of(final(self).interfaces().last(), function.name@, kind, interface@)
            }),
    {
        let ghost s0 = *self;
        let ghost f = function;
        let words = match register_interface(&interface, self) {
            Ok(w) => w,
            Err(e) => return Err(e),
        };
        let ghost s1 = *self;
        let name = function.name.clone();
        let id = match function.register_function(self) {
            Ok(id) => id,
            Err(e) => {
                proof {
                    if fails_before_begin(f, s0.spirv().in_function()) {
                        lemma_function_frame_trans(s0.spirv(), s1.spirv(), self.spirv());
                    }
                }
                return Err(e);
            },
        };
        let ghost s2 = *self;
        proof {
            s0.spirv().lemma_with_own_block();
            lemma_prefix_trans(s0.types(), s1.types(), s2.types());
            lemma_prefix_trans(s0.ops(), s1.ops(), s2.ops());
            assert(function_registered(f, s0, s2, id));
            lemma_var_words_extend(interface@, words@, s1.types(), s1.ops(), s2.types(), s2.ops());
        }
        self.add_entry_point(kind.as_execution_model(), id, name.as_str(), &words);
        let si = match interface_from_ops(name, kind, &interface) {
            Ok(si) => si,
            Err(e) => return Err(e),
        };
        let ghost s3 = *self;
        self.push_interface(si);
        proof {
            lemma_no_error_all_interfaces(interface@);
            assert(s2.spirv().entry_points =~= s3.spirv().entry_points.subrange(0, s2.spirv().entry_points.len() as int));
            lemma_grows_to_trans(s0.spirv(), s1.spirv(), s2.spirv());
            assert(BuilderModel { entry_points: s0.spirv().entry_points, ..s3.spirv() } == s2.spirv());
            assert(self.interfaces().take(s0.interfaces().len() as int) =~= s0.interfaces());
        }
        Ok(())
    }
}

} // verus!
