//! A shader module under construction, which declares every type, constant and
//! variable once.
use crate::builder::{
    block_appended, block_ended, builder_begin_block, builder_begin_function, builder_capability,
    builder_composite_construct, builder_composite_extract, builder_constant_bit32,
    builder_decorate, builder_decorate_built_in, builder_end_function, builder_entry_point, builder_ext_inst_import,
    builder_id, builder_load, builder_matrix_times_matrix, builder_matrix_times_vector,
    builder_member_decorate, builder_member_name, builder_memory_model, builder_model,
    builder_module, spirv_module, builder_name, builder_new, builder_ret, builder_ret_value, builder_store,
    builder_access_chain, builder_transpose, builder_type_bool, builder_type_float,
    builder_type_function, builder_type_int, builder_type_matrix, builder_type_pointer,
    builder_type_struct_id, builder_type_vector, builder_type_void, builder_variable,
};
use crate::errors::Error;
use crate::interface::ShaderInterface;
use crate::keys::{OpKey, OpKeyModel, TypeKey, TypeKeyModel};
use crate::model::{
    dedup_declared, first_identical, AddressingModel, BuilderModel, Capability, Decoration,
    ExecutionModel, FunctionModel, Inst, MemoryModel, Word,
};
use crate::storage_class::StorageClass;
use crate::types::{
    lemma_members_fit_each, lemma_members_width_prefix, lemma_members_width_step, members_fit,
    members_width, spec_width, width_fits, GlslStruct, GlslStructMember, SpirvType,
};
use rspirv::dr::Module;
use std::rc::Rc;
use vstd::prelude::*;

verus! {

/// The kinds of shaders.
#[derive(PartialEq, Eq, Structural, Clone, Copy, Debug)]
pub enum ShaderKind {
    Vertex,
    Fragment,
}

impl ShaderKind {
    /// The execution model of entry points of this kind.
    pub fn as_execution_model(self) -> (r: ExecutionModel)
        ensures
            r == spec_execution_model(self),
    {
        match self {
            ShaderKind::Vertex => ExecutionModel::Vertex,
            ShaderKind::Fragment => ExecutionModel::Fragment,
        }
    }
}

/// The execution model of entry points of a kind.
pub open spec fn spec_execution_model(kind: ShaderKind) -> ExecutionModel {
    match kind {
        ShaderKind::Vertex => ExecutionModel::Vertex,
        ShaderKind::Fragment => ExecutionModel::Fragment,
    }
}

/// The id cached for `key`: the first entry with that key.
pub open spec fn lookup_type(cache: Seq<(TypeKeyModel, Word)>, key: TypeKeyModel) -> Option<Word>
    decreases cache.len(),
{
    if cache.len() == 0 {
        None
    } else {
        match lookup_type(cache.drop_last(), key) {
            Some(w) => Some(w),
            None => if cache.last().0 == key {
                Some(cache.last().1)
            } else {
                None
            },
        }
    }
}

/// The id cached for `key`: the first entry with that key.
pub open spec fn lookup_op(cache: Seq<(OpKeyModel, Word)>, key: OpKeyModel) -> Option<Word>
    decreases cache.len(),
{
    if cache.len() == 0 {
        None
    } else {
        match lookup_op(cache.drop_last(), key) {
            Some(w) => Some(w),
            None => if cache.last().0 == key {
                Some(cache.last().1)
            } else {
                None
            },
        }
    }
}

/// The declaration that a type or constant key stands for, with result id `id`
/// (`None` for variables, whose declarations are not tracked here).
pub open spec fn type_key_declaration(key: TypeKeyModel, id: Word) -> Option<Inst> {
    match key {
        TypeKeyModel::Void => Some(Inst::TypeVoid { id }),
        TypeKeyModel::Bool => Some(Inst::TypeBool { id }),
        TypeKeyModel::UnsignedInteger { width } => Some(Inst::TypeInt { id, width, signedness: 0 }),
        TypeKeyModel::Float { width } => Some(Inst::TypeFloat { id, width }),
        TypeKeyModel::Vector { component_type, component_count } => Some(
            Inst::TypeVector { id, component: component_type, count: component_count },
        ),
        TypeKeyModel::Struct { field_types, .. } => Some(
            Inst::TypeStruct { id, members: field_types },
        ),
        TypeKeyModel::Matrix { column_type, column_count } => Some(
            Inst::TypeMatrix { id, column: column_type, count: column_count },
        ),
        TypeKeyModel::Pointer { storage_class, pointee_type } => Some(
            Inst::TypePointer { id, storage_class, pointee: pointee_type },
        ),
        TypeKeyModel::Function { return_type, parameter_types } => Some(
            Inst::TypeFunction { id, return_type, parameters: parameter_types },
        ),
        TypeKeyModel::ConstantU32 { integer_type, value } => Some(
            Inst::Constant { id, result_type: integer_type, bits: value },
        ),
        TypeKeyModel::ConstantF32 { float_type, value } => Some(
            Inst::Constant { id, result_type: float_type, bits: value },
        ),
    }
}

/// The declaration that an op key stands for, with result id `id` (`None` for
/// variables, whose declarations are not tracked here).
pub open spec fn op_key_declaration(key: OpKeyModel, id: Word) -> Option<Inst> {
    match key {
        OpKeyModel::Void => Some(Inst::TypeVoid { id }),
        OpKeyModel::Function { return_type, parameter_types } => Some(
            Inst::TypeFunction { id, return_type, parameters: parameter_types },
        ),
        _ => None,
    }
}

/// Every cached type and constant is declared, with its cached id, in `globals`.
pub open spec fn cache_declared(
    globals: Seq<Inst>,
    types: Seq<(TypeKeyModel, Word)>,
    ops: Seq<(OpKeyModel, Word)>,
) -> bool {
    &&& forall|i: int|
        0 <= i < types.len() ==> (#[trigger] type_key_declaration(types[i].0, types[i].1) matches Some(
            d,
        ) ==> globals.contains(d))
    &&& forall|i: int|
        0 <= i < ops.len() ==> (#[trigger] op_key_declaration(ops[i].0, ops[i].1) matches Some(d)
            ==> globals.contains(d))
}

/// No key is cached twice.
pub open spec fn type_keys_distinct(cache: Seq<(TypeKeyModel, Word)>) -> bool {
    forall|i: int, j: int| 0 <= i < j < cache.len() ==> #[trigger] cache[i].0 != #[trigger] cache[j].0
}

/// No key is cached twice.
pub open spec fn op_keys_distinct(cache: Seq<(OpKeyModel, Word)>) -> bool {
    forall|i: int, j: int| 0 <= i < j < cache.len() ==> #[trigger] cache[i].0 != #[trigger] cache[j].0
}

/// A key that the cache does not give is under no entry.
proof fn lemma_lookup_type_absent(cache: Seq<(TypeKeyModel, Word)>, key: TypeKeyModel)
    requires
        lookup_type(cache, key) is None,
    ensures
        forall|i: int| 0 <= i < cache.len() ==> #[trigger] cache[i].0 != key,
    decreases cache.len(),
{
    if cache.len() > 0 {
        lemma_lookup_type_absent(cache.drop_last(), key);
        assert forall|i: int| 0 <= i < cache.len() implies #[trigger] cache[i].0 != key by {
            if i < cache.len() - 1 {
                assert(cache[i] == cache.drop_last()[i]);
            }
        }
    }
}

/// A key that the cache does not give is under no entry.
proof fn lemma_lookup_op_absent(cache: Seq<(OpKeyModel, Word)>, key: OpKeyModel)
    requires
        lookup_op(cache, key) is None,
    ensures
        forall|i: int| 0 <= i < cache.len() ==> #[trigger] cache[i].0 != key,
    decreases cache.len(),
{
    if cache.len() > 0 {
        lemma_lookup_op_absent(cache.drop_last(), key);
        assert forall|i: int| 0 <= i < cache.len() implies #[trigger] cache[i].0 != key by {
            if i < cache.len() - 1 {
                assert(cache[i] == cache.drop_last()[i]);
            }
        }
    }
}

/// A shader module under construction.
pub struct Shader {
    /// Internal builder
    builder: rspirv::dr::Builder,
    /// Cached types, constants and global variables, to only declare each once.
    type_cache: Vec<(TypeKey, Word)>,
    /// Cached variables and function types, to only declare each once.
    op_cache: Vec<(OpKey, Word)>,
    /// The interfaces of the entry points, in order.
    interfaces: Vec<ShaderInterface>,
}

/// `a` and `b` agree on the module and the caches.
pub open spec fn same_shader(a: Shader, b: Shader) -> bool {
    &&& a.spirv() == b.spirv()
    &&& a.types() == b.types()
    &&& a.ops() == b.ops()
    &&& a.interfaces() == b.interfaces()
}

/// From `a` to `b` the module only grew, the caches only grew, and the selection and
/// the block under construction stayed.
pub open spec fn shader_grows(a: Shader, b: Shader) -> bool {
    &&& a.spirv().grows_to(b.spirv())
    &&& a.spirv().selection == b.spirv().selection
    &&& a.spirv().functions == b.spirv().functions
    &&& a.spirv().block == b.spirv().block
    &&& a.types().is_prefix_of(b.types())
    &&& a.ops().is_prefix_of(b.ops())
    &&& a.interfaces() == b.interfaces()
}

impl Shader {
    /// The module under construction.
    pub closed spec fn spirv(&self) -> BuilderModel {
        builder_model(self.builder)
    }

    /// The type cache, as plain values.
    pub closed spec fn types(&self) -> Seq<(TypeKeyModel, Word)> {
        self.type_cache@.map_values(|e: (TypeKey, Word)| (e.0@, e.1))
    }

    /// The interfaces of the entry points, in order.
    pub closed spec fn interfaces(&self) -> Seq<ShaderInterface> {
        self.interfaces@
    }

    /// The op cache, as plain values.
    pub closed spec fn ops(&self) -> Seq<(OpKeyModel, Word)> {
        self.op_cache@.map_values(|e: (OpKey, Word)| (e.0@, e.1))
    }

    /// The shader is well formed: the builder's selection is sane, every cached type or
    /// constant is declared in the module, and no key is cached twice.
    pub open spec fn wf(&self) -> bool {
        &&& self.spirv().selection_valid()
        &&& cache_declared(self.spirv().globals, self.types(), self.ops())
        &&& type_keys_distinct(self.types())
        &&& op_keys_distinct(self.ops())
    }

    /// A new shader: one that declares the `Shader` capability, imports the
    /// "GLSL.std.450" instructions, and uses the logical addressing model with the
    /// GLSL450 memory model.
    pub fn new() -> (r: Shader)
        ensures
            r.wf(),
            r.spirv().capabilities == seq![Inst::Capability { capability: Capability::Shader }],
            r.spirv().ext_inst_imports.len() == 1,
            r.spirv().ext_inst_imports[0] matches Inst::ExtInstImport { name, .. } && name
                == "GLSL.std.450"@,
            r.spirv().memory_model == seq![
                Inst::MemoryModel { addressing: AddressingModel::Logical, memory: MemoryModel::Glsl450 },
            ],
            r.spirv().entry_points == Seq::<Inst>::empty(),
            r.spirv().debug_names == Seq::<Inst>::empty(),
            r.spirv().annotations == Seq::<Inst>::empty(),
            r.spirv().globals == Seq::<Inst>::empty(),
            r.spirv().functions == Seq::<FunctionModel>::empty(),
            r.spirv().selection == seq![None::<usize>, None::<usize>],
            r.spirv().block == Seq::<Inst>::empty(),
            r.types() == Seq::<(TypeKeyModel, Word)>::empty(),
            r.ops() == Seq::<(OpKeyModel, Word)>::empty(),
            r.interfaces() == Seq::<ShaderInterface>::empty(),
    {
        let mut builder = builder_new();
        builder_capability(&mut builder, Capability::Shader);
        builder_ext_inst_import(&mut builder, "GLSL.std.450");
        builder_memory_model(&mut builder, AddressingModel::Logical, MemoryModel::Glsl450);
        let r = Shader { builder, type_cache: Vec::new(), op_cache: Vec::new(), interfaces: Vec::new() };
        assert(r.types() =~= Seq::<(TypeKeyModel, Word)>::empty());
        assert(r.ops() =~= Seq::<(OpKeyModel, Word)>::empty());
        r
    }

    /// The id cached for `key`, if any.
    pub(crate) fn lookup_type(&self, key: &TypeKey) -> (r: Option<Word>)
        ensures
            r == lookup_type(self.types(), key@),
    {
        let mut i: usize = 0;
        while i < self.type_cache.len()
            invariant
                0 <= i <= self.type_cache@.len(),
                lookup_type(self.types().take(i as int), key@) is None,
            decreases self.type_cache@.len() - i,
        {
            assert(self.types().take(i + 1).drop_last() =~= self.types().take(i as int));
            if self.type_cache[i].0.same(key) {
                proof { lemma_lookup_type_prefix(self.types(), i + 1, key@); }
                return Some(self.type_cache[i].1);
            }
            i = i + 1;
        }
        assert(self.types().take(i as int) =~= self.types());
        None
    }

    /// The id cached for `key`, if any.
    pub(crate) fn lookup_op(&self, key: &OpKey) -> (r: Option<Word>)
        ensures
            r == lookup_op(self.ops(), key@),
    {
        let mut i: usize = 0;
        while i < self.op_cache.len()
            invariant
                0 <= i <= self.op_cache@.len(),
                lookup_op(self.ops().take(i as int), key@) is None,
            decreases self.op_cache@.len() - i,
        {
            assert(self.ops().take(i + 1).drop_last() =~= self.ops().take(i as int));
            if self.op_cache[i].0.same(key) {
                proof { lemma_lookup_op_prefix(self.ops(), i + 1, key@); }
                return Some(self.op_cache[i].1);
            }
            i = i + 1;
        }
        assert(self.ops().take(i as int) =~= self.ops());
        None
    }
}

/// A lookup that succeeds on a prefix of the cache gives the same id on the cache.
pub proof fn lemma_lookup_type_prefix(cache: Seq<(TypeKeyModel, Word)>, n: int, key: TypeKeyModel)
    requires
        0 <= n <= cache.len(),
        n > 0 ==> cache[n - 1].0 == key || lookup_type(cache.take(n), key) is Some,
        n == 0 ==> lookup_type(cache.take(n), key) is Some,
    ensures
        lookup_type(cache, key) == lookup_type(cache.take(n), key),
        lookup_type(cache, key) is Some,
    decreases cache.len() - n,
{
    if n > 0 && lookup_type(cache.take(n), key) is None {
        assert(cache.take(n).drop_last() =~= cache.take(n - 1));
    }
    assert(lookup_type(cache.take(n), key) is Some) by {
        if n > 0 && lookup_type(cache.take(n - 1), key) is None {
            assert(cache.take(n).drop_last() =~= cache.take(n - 1));
        }
    }
    if n < cache.len() {
        assert(cache.take(n + 1).drop_last() =~= cache.take(n));
        lemma_lookup_type_prefix(cache, n + 1, key);
    } else {
        assert(cache.take(n) =~= cache);
    }
}

/// A lookup that succeeds on a prefix of the cache gives the same id on the cache.
pub proof fn lemma_lookup_op_prefix(cache: Seq<(OpKeyModel, Word)>, n: int, key: OpKeyModel)
    requires
        0 <= n <= cache.len(),
        n > 0 ==> cache[n - 1].0 == key || lookup_op(cache.take(n), key) is Some,
        n == 0 ==> lookup_op(cache.take(n), key) is Some,
    ensures
        lookup_op(cache, key) == lookup_op(cache.take(n), key),
        lookup_op(cache, key) is Some,
    decreases cache.len() - n,
{
    if n > 0 && lookup_op(cache.take(n), key) is None {
        assert(cache.take(n).drop_last() =~= cache.take(n - 1));
    }
    assert(lookup_op(cache.take(n), key) is Some) by {
        if n > 0 && lookup_op(cache.take(n - 1), key) is None {
            assert(cache.take(n).drop_last() =~= cache.take(n - 1));
        }
    }
    if n < cache.len() {
        assert(cache.take(n + 1).drop_last() =~= cache.take(n));
        lemma_lookup_op_prefix(cache, n + 1, key);
    } else {
        assert(cache.take(n) =~= cache);
    }
}

/// Whether `key` is a key that [`Shader::cached_type`] declares by itself.
pub open spec fn is_simple_type_key(key: TypeKeyModel) -> bool {
    !(key is Struct)
}

/// Type declarations are equal when they agree on everything but possibly their ids,
/// and on their ids.
proof fn lemma_same_type_eq(a: Inst, b: Inst)
    requires
        a.same_type_as(b),
        a.result_id() == b.result_id(),
    ensures
        a == b,
{
    match b {
        Inst::TypeStruct { .. } => {
            assert(a is TypeStruct);
        },
        Inst::TypeFunction { .. } => {
            assert(a is TypeFunction);
        },
        _ => {},
    }
}

proof fn lemma_first_identical(globals: Seq<Inst>, ty: Inst)
    ensures
        first_identical(globals, ty) matches Some(i) ==> 0 <= i < globals.len()
            && globals[i].same_type_as(ty),
    decreases globals.len(),
{
    if globals.len() > 0 {
        lemma_first_identical(globals.drop_last(), ty);
    }
}

/// After declaring `ty` with deduplication, a declaration equal to `ty` (whose id is
/// the result) is in the module.
pub proof fn lemma_dedup_contains(before: Seq<Inst>, after: Seq<Inst>, ty: Inst, r: Word)
    requires
        dedup_declared(before, after, ty, r),
        ty.result_id() == r,
    ensures
        after.contains(ty),
        before.is_prefix_of(after),
{
    lemma_first_identical(before, ty);
    match first_identical(before, ty) {
        Some(i) => {
            lemma_same_type_eq(before[i], ty);
            assert(after[i] == ty);
        },
        None => {
            assert(after[before.len() as int] == ty);
        },
    }
    assert(before.is_prefix_of(after)) by {
        if first_identical(before, ty) is None {
            assert(after.take(before.len() as int) =~= before);
        } else {
            assert(after.take(before.len() as int) =~= before);
        }
    }
}

/// A lookup that succeeds on a cache keeps its result on any extension of the cache.
pub proof fn lemma_lookup_type_extend(a: Seq<(TypeKeyModel, Word)>, b: Seq<(TypeKeyModel, Word)>, key: TypeKeyModel)
    requires
        a.is_prefix_of(b),
        lookup_type(a, key) is Some,
    ensures
        lookup_type(b, key) == lookup_type(a, key),
    decreases b.len(),
{
    if b.len() > a.len() {
        assert(a.is_prefix_of(b.drop_last()));
        lemma_lookup_type_extend(a, b.drop_last(), key);
    } else {
        assert(a =~= b);
    }
}

/// A lookup that succeeds on a cache keeps its result on any extension of the cache.
pub proof fn lemma_lookup_op_extend(a: Seq<(OpKeyModel, Word)>, b: Seq<(OpKeyModel, Word)>, key: OpKeyModel)
    requires
        a.is_prefix_of(b),
        lookup_op(a, key) is Some,
    ensures
        lookup_op(b, key) == lookup_op(a, key),
    decreases b.len(),
{
    if b.len() > a.len() {
        assert(a.is_prefix_of(b.drop_last()));
        lemma_lookup_op_extend(a, b.drop_last(), key);
    } else {
        assert(a =~= b);
    }
}

/// Cached declarations stay declared as the module's global values grow.
proof fn lemma_cache_declared_grow(
    g1: Seq<Inst>,
    g2: Seq<Inst>,
    types: Seq<(TypeKeyModel, Word)>,
    ops: Seq<(OpKeyModel, Word)>,
)
    requires
        cache_declared(g1, types, ops),
        g1.is_prefix_of(g2),
    ensures
        cache_declared(g2, types, ops),
{
    assert forall|i: int| 0 <= i < types.len() implies (#[trigger] type_key_declaration(types[i].0, types[i].1) matches Some(d) ==> g2.contains(d)) by {
        if let Some(d) = type_key_declaration(types[i].0, types[i].1) {
            let j = choose|j: int| 0 <= j < g1.len() && g1[j] == d;
            assert(g2[j] == d);
        }
    }
    assert forall|i: int| 0 <= i < ops.len() implies (#[trigger] op_key_declaration(ops[i].0, ops[i].1) matches Some(d) ==> g2.contains(d)) by {
        if let Some(d) = op_key_declaration(ops[i].0, ops[i].1) {
            let j = choose|j: int| 0 <= j < g1.len() && g1[j] == d;
            assert(g2[j] == d);
        }
    }
}

/// The type contains the absent type somewhere.
pub open spec fn has_no_type(t: SpirvType) -> bool
    decreases t,
{
    match t {
        SpirvType::Vector(v) => has_no_type(*v.component),
        SpirvType::Matrix(m) => has_no_type(*m.column_type),
        SpirvType::Pointer(p) => has_no_type(*p.pointee_type),
        SpirvType::Struct(st) => members_have_no_type(st.members@),
        SpirvType::NoType => true,
        _ => false,
    }
}

/// Some member's type contains the absent type.
pub open spec fn members_have_no_type(ms: Seq<GlslStructMember>) -> bool
    decreases ms,
{
    if ms.len() == 0 {
        false
    } else {
        members_have_no_type(ms.drop_last()) || has_no_type(*ms.last().ty)
    }
}

/// The layout of every struct within the type can be computed in 32 bits: member
/// widths and offsets, and member indices, fit.
pub open spec fn register_fits(t: SpirvType) -> bool
    decreases t,
{
    match t {
        SpirvType::Vector(v) => register_fits(*v.component),
        SpirvType::Matrix(m) => register_fits(*m.column_type),
        SpirvType::Pointer(p) => register_fits(*p.pointee_type),
        SpirvType::Struct(st) => width_fits(t) && st.members@.len() <= u32::MAX
            && members_register_fit(st.members@),
        _ => true,
    }
}

/// Every member's layout can be computed in 32 bits.
pub open spec fn members_register_fit(ms: Seq<GlslStructMember>) -> bool
    decreases ms,
{
    if ms.len() == 0 {
        true
    } else {
        members_register_fit(ms.drop_last()) && register_fits(*ms.last().ty)
    }
}

/// The id under which the type is registered in the cache, if it is.
pub open spec fn spec_type_id(types: Seq<(TypeKeyModel, Word)>, t: SpirvType) -> Option<Word>
    decreases t,
{
    match t {
        SpirvType::Bool(_) => lookup_type(types, TypeKeyModel::Bool),
        SpirvType::Float(_) => lookup_type(types, TypeKeyModel::Float { width: 32 }),
        SpirvType::UnsignedInteger(_) => lookup_type(types, TypeKeyModel::UnsignedInteger { width: 32 }),
        SpirvType::Vector(v) => match spec_type_id(types, *v.component) {
            Some(c) => lookup_type(
                types,
                TypeKeyModel::Vector { component_type: c, component_count: v.component_count },
            ),
            None => None,
        },
        SpirvType::Matrix(m) => match spec_type_id(types, *m.column_type) {
            Some(c) => lookup_type(
                types,
                TypeKeyModel::Matrix { column_type: c, column_count: m.column_count },
            ),
            None => None,
        },
        SpirvType::Pointer(p) => match spec_type_id(types, *p.pointee_type) {
            Some(c) => lookup_type(
                types,
                TypeKeyModel::Pointer { storage_class: p.storage_class, pointee_type: c },
            ),
            None => None,
        },
        SpirvType::Struct(st) => match member_type_ids(types, st.members@) {
            Some(fs) => lookup_type(types, TypeKeyModel::Struct { name: st.name@, field_types: fs }),
            None => None,
        },
        SpirvType::NoType => None,
    }
}

/// The type is, or is made of, a struct.
pub open spec fn contains_struct(t: SpirvType) -> bool
    decreases t,
{
    match t {
        SpirvType::Vector(v) => contains_struct(*v.component),
        SpirvType::Matrix(m) => contains_struct(*m.column_type),
        SpirvType::Pointer(p) => contains_struct(*p.pointee_type),
        SpirvType::Struct(_) => true,
        _ => false,
    }
}

/// The type of some member is, or is made of, a struct.
pub open spec fn members_contain_struct(ms: Seq<GlslStructMember>) -> bool {
    exists|i: int| 0 <= i < ms.len() && contains_struct(*#[trigger] ms[i].ty)
}

/// No struct was cached from `a` to `b`.
pub open spec fn no_struct_added(a: Seq<(TypeKeyModel, Word)>, b: Seq<(TypeKeyModel, Word)>) -> bool {
    forall|i: int| a.len() <= i < b.len() ==> !(#[trigger] b[i].0 is Struct)
}

proof fn lemma_no_struct_added_trans(a: Seq<(TypeKeyModel, Word)>, b: Seq<(TypeKeyModel, Word)>, c: Seq<(TypeKeyModel, Word)>)
    requires
        a.is_prefix_of(b),
        b.is_prefix_of(c),
        no_struct_added(a, b),
        no_struct_added(b, c),
    ensures
        no_struct_added(a, c),
{
    assert forall|i: int| a.len() <= i < c.len() implies !(#[trigger] c[i].0 is Struct) by {
        if i < b.len() {
            assert(c[i] == b[i]);
        }
    }
}

/// Where no struct was cached, a struct key is looked up as before.
proof fn lemma_no_struct_added_lookup(a: Seq<(TypeKeyModel, Word)>, b: Seq<(TypeKeyModel, Word)>, key: TypeKeyModel)
    requires
        a.is_prefix_of(b),
        no_struct_added(a, b),
        key is Struct,
    ensures
        lookup_type(b, key) == lookup_type(a, key),
    decreases b.len(),
{
    if b.len() > a.len() {
        assert(a.is_prefix_of(b.drop_last())) by {
            assert forall|i: int| 0 <= i < a.len() implies a[i] == b.drop_last()[i] by {
                assert(b.drop_last()[i] == b[i]);
            }
        }
        assert(no_struct_added(a, b.drop_last())) by {
            assert forall|i: int| a.len() <= i < b.drop_last().len() implies !(#[trigger] b.drop_last()[i].0 is Struct) by {
                assert(b.drop_last()[i] == b[i]);
            }
        }
        lemma_no_struct_added_lookup(a, b.drop_last(), key);
        assert(!(b[b.len() - 1].0 is Struct));
    } else {
        assert(a =~= b);
    }
}

/// The ids under which the member types are registered, if they all are.
pub open spec fn member_type_ids(types: Seq<(TypeKeyModel, Word)>, ms: Seq<GlslStructMember>) -> Option<Seq<Word>>
    decreases ms,
{
    if ms.len() == 0 {
        Some(Seq::empty())
    } else {
        match (member_type_ids(types, ms.drop_last()), spec_type_id(types, *ms.last().ty)) {
            (Some(fs), Some(w)) => Some(fs.push(w)),
            _ => None,
        }
    }
}

/// The decorations that lay out member `i` of a struct at `offset`: its offset, and
/// for a matrix its column-major order and its column stride.
pub open spec fn member_layout(id: Word, i: u32, t: SpirvType, offset: nat) -> Seq<Inst> {
    seq![Inst::MemberDecorate { target: id, member: i, decoration: Decoration::Offset(offset as u32) }]
        + match t {
        SpirvType::Matrix(m) => seq![
            Inst::MemberDecorate { target: id, member: i, decoration: Decoration::ColMajor },
            Inst::MemberDecorate {
                target: id,
                member: i,
                decoration: Decoration::MatrixStride(spec_width(*m.column_type) as u32),
            },
        ],
        _ => Seq::empty(),
    }
}

/// The decorations that lay out the members of a struct: member `i` sits at the sum
/// of the widths of the members before it.
pub open spec fn struct_layout(id: Word, ms: Seq<GlslStructMember>) -> Seq<Inst>
    decreases ms.len(),
{
    if ms.len() == 0 {
        Seq::empty()
    } else {
        struct_layout(id, ms.drop_last()) + member_layout(
            id,
            (ms.len() - 1) as u32,
            *ms.last().ty,
            members_width(ms.drop_last()),
        )
    }
}

/// The member names of a struct, by position.
pub open spec fn member_names(id: Word, ms: Seq<GlslStructMember>) -> Seq<Inst>
    decreases ms.len(),
{
    if ms.len() == 0 {
        Seq::empty()
    } else {
        member_names(id, ms.drop_last()).push(
            Inst::MemberName { target: id, member: (ms.len() - 1) as u32, name: ms.last().name@ },
        )
    }
}

/// The debug names and the annotations that registering `t` adds, from the type cache
/// `old` before to `new` after, where they are stated: nothing for a type registered
/// before or made of no struct; through a pointer, what its pointee adds; for a struct
/// declared anew whose members are registered before or are no structs, its name and
/// member names, then its layout and the `Block` decoration. `None` for a struct with a
/// struct member that is registered with it.
pub open spec fn declared_sections(
    old: Seq<(TypeKeyModel, Word)>,
    new: Seq<(TypeKeyModel, Word)>,
    t: SpirvType,
) -> Option<(Seq<Inst>, Seq<Inst>)>
    decreases t,
{
    if spec_type_id(old, t) is Some || !contains_struct(t) {
        Some((Seq::empty(), Seq::empty()))
    } else {
        match t {
            SpirvType::Pointer(p) => declared_sections(old, new, *p.pointee_type),
            SpirvType::Struct(st) => if members_contain_struct(st.members@) && member_type_ids(old, st.members@)
                is None {
                None
            } else if lookup_type(
                old,
                TypeKeyModel::Struct { name: st.name@, field_types: member_type_ids(new, st.members@)->0 },
            ) is None {
                let w = spec_type_id(new, t)->0;
                Some(
                    (
                        seq![Inst::Name { target: w, name: st.name@ }] + member_names(w, st.members@),
                        struct_layout(w, st.members@).push(Inst::Decorate { target: w, decoration: Decoration::Block }),
                    ),
                )
            } else {
                Some((Seq::empty(), Seq::empty()))
            },
            _ => None,
        }
    }
}

/// Registering the type added the stated sections to the debug names and annotations.
pub open spec fn sections_added(
    before: Shader,
    after: Shader,
    t: SpirvType,
) -> bool {
    declared_sections(before.types(), after.types(), t) matches Some(ns) ==> after.spirv().debug_names
        == before.spirv().debug_names + ns.0 && after.spirv().annotations == before.spirv().annotations + ns.1
}

/// The stated sections of a registered type do not depend on later additions to the cache.
proof fn lemma_declared_sections_extend(
    old: Seq<(TypeKeyModel, Word)>,
    mid: Seq<(TypeKeyModel, Word)>,
    new: Seq<(TypeKeyModel, Word)>,
    t: &SpirvType,
)
    requires
        mid.is_prefix_of(new),
        spec_type_id(mid, *t) is Some,
    ensures
        declared_sections(old, mid, *t) == declared_sections(old, new, *t),
    decreases t,
{
    lemma_type_id_extend(mid, new, t);
    match t {
        SpirvType::Pointer(p) => {
            lemma_declared_sections_extend(old, mid, new, &*p.pointee_type);
        },
        SpirvType::Struct(st) => {
            lemma_member_ids_extend(mid, new, st.members@);
        },
        _ => {},
    }
}

/// Where the stated sections are empty and nothing was added to the debug names and
/// annotations, registering the type added what is stated.
proof fn lemma_sections_unchanged(a: Shader, b: Shader, t: SpirvType)
    requires
        b.spirv().debug_names == a.spirv().debug_names,
        b.spirv().annotations == a.spirv().annotations,
        declared_sections(a.types(), b.types(), t) matches Some(ns) ==> ns.0 == Seq::<Inst>::empty()
            && ns.1 == Seq::<Inst>::empty(),
    ensures
        sections_added(a, b, t),
{
    assert(a.spirv().debug_names + Seq::<Inst>::empty() =~= a.spirv().debug_names);
    assert(a.spirv().annotations + Seq::<Inst>::empty() =~= a.spirv().annotations);
}

/// Registering a type for which nothing is stated to be added added nothing.
proof fn lemma_sections_empty(a: Shader, b: Shader, t: &SpirvType)
    requires
        sections_added(a, b, *t),
        declared_sections(a.types(), b.types(), *t) == Some((Seq::<Inst>::empty(), Seq::<Inst>::empty())),
    ensures
        b.spirv().debug_names == a.spirv().debug_names,
        b.spirv().annotations == a.spirv().annotations,
{
    assert(a.spirv().debug_names + Seq::<Inst>::empty() =~= a.spirv().debug_names);
    assert(a.spirv().annotations + Seq::<Inst>::empty() =~= a.spirv().annotations);
}

/// Every lookup that succeeds on a cache keeps its result on any extension of the cache.
pub proof fn lemma_lookup_type_extend_all(a: Seq<(TypeKeyModel, Word)>, b: Seq<(TypeKeyModel, Word)>)
    requires
        a.is_prefix_of(b),
    ensures
        forall|k: TypeKeyModel| #[trigger] lookup_type(a, k) is Some ==> lookup_type(b, k) == lookup_type(a, k),
{
    assert forall|k: TypeKeyModel| #[trigger] lookup_type(a, k) is Some implies lookup_type(b, k) == lookup_type(a, k) by {
        lemma_lookup_type_extend(a, b, k);
    }
}

/// Every op lookup that succeeds on a cache keeps its result on any extension of it.
pub proof fn lemma_lookup_op_extend_all(a: Seq<(OpKeyModel, Word)>, b: Seq<(OpKeyModel, Word)>)
    requires
        a.is_prefix_of(b),
    ensures
        forall|k: OpKeyModel| #[trigger] lookup_op(a, k) is Some ==> lookup_op(b, k) == lookup_op(a, k),
{
    assert forall|k: OpKeyModel| #[trigger] lookup_op(a, k) is Some implies lookup_op(b, k) == lookup_op(a, k) by {
        lemma_lookup_op_extend(a, b, k);
    }
}

/// A type registered in a cache stays registered, under the same id, in any extension.
pub proof fn lemma_type_id_extend(a: Seq<(TypeKeyModel, Word)>, b: Seq<(TypeKeyModel, Word)>, t: &SpirvType)
    requires
        a.is_prefix_of(b),
        spec_type_id(a, *t) is Some,
    ensures
        spec_type_id(b, *t) == spec_type_id(a, *t),
    decreases t,
{
    lemma_lookup_type_extend_all(a, b);
    match t {
        SpirvType::Vector(v) => lemma_type_id_extend(a, b, &*v.component),
        SpirvType::Matrix(m) => lemma_type_id_extend(a, b, &*m.column_type),
        SpirvType::Pointer(p) => lemma_type_id_extend(a, b, &*p.pointee_type),
        SpirvType::Struct(st) => lemma_member_ids_extend(a, b, st.members@),
        _ => {},
    }
}

/// Registered member types stay registered, under the same ids, in any extension.
pub proof fn lemma_member_ids_extend(a: Seq<(TypeKeyModel, Word)>, b: Seq<(TypeKeyModel, Word)>, ms: Seq<GlslStructMember>)
    requires
        a.is_prefix_of(b),
        member_type_ids(a, ms) is Some,
    ensures
        member_type_ids(b, ms) == member_type_ids(a, ms),
    decreases ms,
{
    if ms.len() > 0 {
        lemma_member_ids_extend(a, b, ms.drop_last());
        lemma_type_id_extend(a, b, &*ms.last().ty);
    }
}

proof fn lemma_members_take_step(ms: Seq<GlslStructMember>, i: int)
    requires
        0 <= i < ms.len(),
    ensures
        ms.take(i + 1).drop_last() == ms.take(i),
        ms.take(i + 1).last() == ms[i],
        ms.take(i + 1).len() == i + 1,
{
    assert(ms.take(i + 1).drop_last() =~= ms.take(i));
}

proof fn lemma_members_have_no_type_prefix(ms: Seq<GlslStructMember>, i: int)
    requires
        0 <= i <= ms.len(),
        members_have_no_type(ms.take(i)),
    ensures
        members_have_no_type(ms),
    decreases ms.len() - i,
{
    if i < ms.len() {
        lemma_members_take_step(ms, i);
        lemma_members_have_no_type_prefix(ms, i + 1);
    } else {
        assert(ms.take(i) =~= ms);
    }
}

proof fn lemma_members_register_fit_each(ms: Seq<GlslStructMember>, i: int)
    requires
        members_register_fit(ms),
        0 <= i < ms.len(),
    ensures
        register_fits(*ms[i].ty),
    decreases ms.len(),
{
    if i < ms.len() - 1 {
        lemma_members_register_fit_each(ms.drop_last(), i);
    }
}

impl Shader {
    /// Caches `id` for `key`, which is not cached yet and whose declaration (if tracked)
    /// is in the module.
    pub(crate) fn insert_type(&mut self, key: TypeKey, id: Word)
        requires
            old(self).wf(),
            lookup_type(old(self).types(), key@) is None,
            type_key_declaration(key@, id) matches Some(d) ==> old(self).spirv().globals.contains(d),
        ensures
            final(self).wf(),
            final(self).spirv() == old(self).spirv(),
            final(self).types() == old(self).types().push((key@, id)),
            final(self).ops() == old(self).ops(),
            final(self).interfaces() == old(self).interfaces(),
            lookup_type(final(self).types(), key@) == Some(id),
    {
        let ghost k = key@;
        proof { lemma_lookup_type_absent(old(self).types(), k); }
        self.type_cache.push((key, id));
        assert(self.types() =~= old(self).types().push((k, id)));
        assert(self.types().drop_last() =~= old(self).types());
        assert forall|i: int| 0 <= i < self.types().len() implies (#[trigger] type_key_declaration(self.types()[i].0, self.types()[i].1) matches Some(d) ==> self.spirv().globals.contains(d)) by {
            if i < old(self).types().len() {
                assert(self.types()[i] == old(self).types()[i]);
            }
        }
    }

    /// Caches `id` for `key`, which is not cached yet and whose declaration (if tracked)
    /// is in the module.
    pub(crate) fn insert_op(&mut self, key: OpKey, id: Word)
        requires
            old(self).wf(),
            lookup_op(old(self).ops(), key@) is None,
            op_key_declaration(key@, id) matches Some(d) ==> old(self).spirv().globals.contains(d),
        ensures
            final(self).wf(),
            final(self).spirv() == old(self).spirv(),
            final(self).ops() == old(self).ops().push((key@, id)),
            final(self).interfaces() == old(self).interfaces(),
            final(self).types() == old(self).types(),
            lookup_op(final(self).ops(), key@) == Some(id),
    {
        let ghost k = key@;
        proof { lemma_lookup_op_absent(old(self).ops(), k); }
        self.op_cache.push((key, id));
        assert(self.ops() =~= old(self).ops().push((k, id)));
        assert(self.ops().drop_last() =~= old(self).ops());
        assert forall|i: int| 0 <= i < self.ops().len() implies (#[trigger] op_key_declaration(self.ops()[i].0, self.ops()[i].1) matches Some(d) ==> self.spirv().globals.contains(d)) by {
            if i < old(self).ops().len() {
                assert(self.ops()[i] == old(self).ops()[i]);
            }
        }
    }

    /// The id of the type or constant `key`, declaring it (with rspirv's deduplication
    /// of types) the first time it is asked for.
    #[verifier::rlimit(80)]
    pub(crate) fn cached_type(&mut self, key: TypeKey) -> (r: Word)
        requires
            old(self).wf(),
            is_simple_type_key(key@),
        ensures
            final(self).wf(),
            r == lookup_type(final(self).types(), key@)->0,
            lookup_type(final(self).types(), key@) is Some,
            lookup_type(old(self).types(), key@) matches Some(w) ==> r == w && same_shader(*final(self), *old(self)),
            lookup_type(old(self).types(), key@) is None ==> final(self).types() == old(self).types().push((key@, r)),
            final(self).ops() == old(self).ops(),
            final(self).interfaces() == old(self).interfaces(),
            shader_grows(*old(self), *final(self)),
            final(self).spirv() == (BuilderModel { globals: final(self).spirv().globals, ..old(self).spirv() }),
            no_struct_added(old(self).types(), final(self).types()),
    {
        if let Some(id) = self.lookup_type(&key) {
            return id;
        }
        let ghost before = self.spirv().globals;
        let id = match &key {
            TypeKey::Void => builder_type_void(&mut self.builder),
            TypeKey::Bool => builder_type_bool(&mut self.builder),
            TypeKey::UnsignedInteger { width } => builder_type_int(&mut self.builder, *width, 0),
            TypeKey::Float { width } => builder_type_float(&mut self.builder, *width),
            TypeKey::Vector { component_type, component_count } => builder_type_vector(
                &mut self.builder,
                *component_type,
                *component_count,
            ),
            TypeKey::Matrix { column_type, column_count } => builder_type_matrix(
                &mut self.builder,
                *column_type,
                *column_count,
            ),
            TypeKey::Pointer { storage_class, pointee_type } => builder_type_pointer(
                &mut self.builder,
                *storage_class,
                *pointee_type,
            ),
            TypeKey::Function { return_type, parameter_types } => builder_type_function(
                &mut self.builder,
                *return_type,
                parameter_types,
            ),
            TypeKey::ConstantU32 { integer_type, value } => builder_constant_bit32(
                &mut self.builder,
                *integer_type,
                *value,
            ),
            TypeKey::ConstantF32 { float_type, value } => builder_constant_bit32(
                &mut self.builder,
                *float_type,
                *value,
            ),
            TypeKey::Struct { .. } => 0,
        };
        proof {
            let d = type_key_declaration(key@, id)->0;
            if key@ is ConstantU32 || key@ is ConstantF32 {
                assert(self.spirv().globals == before.push(d));
                assert(self.spirv().globals[before.len() as int] == d);
                assert(before.is_prefix_of(self.spirv().globals)) by {
                    assert(self.spirv().globals.take(before.len() as int) =~= before);
                }
            } else {
                lemma_dedup_contains(before, self.spirv().globals, d, id);
            }
            lemma_cache_declared_grow(before, self.spirv().globals, self.types(), self.ops());
            assert(self.types() == old(self).types());
            assert(self.ops() == old(self).ops());
        }
        self.insert_type(key, id);
        id
    }
}

impl Shader {
    /// The id of a pointer type into `storage_class`, declaring it the first time.
    pub(crate) fn register_pointer_type(&mut self, storage_class: StorageClass, pointee_type: Word) -> (r: Word)
        requires
            old(self).wf(),
        ensures
            final(self).wf(),
            lookup_type(final(self).types(), TypeKeyModel::Pointer { storage_class, pointee_type }) == Some(r),
            lookup_type(old(self).types(), TypeKeyModel::Pointer { storage_class, pointee_type }) matches Some(w)
                ==> r == w && same_shader(*final(self), *old(self)),
            final(self).ops() == old(self).ops(),
            final(self).interfaces() == old(self).interfaces(),
            shader_grows(*old(self), *final(self)),
            final(self).spirv() == (BuilderModel { globals: final(self).spirv().globals, ..old(self).spirv() }),
            no_struct_added(old(self).types(), final(self).types()),
    {
        self.cached_type(TypeKey::Pointer { storage_class, pointee_type })
    }

    /// Registers a type: declares it, and every type it is made of, the first time it
    /// is asked for, and gives its id. A struct is declared with its name and member
    /// names, each member decorated with its offset (the sum of the widths of the members
    /// before it) and, for a matrix, its column-major layout and column stride; the struct
    /// is decorated as a block. The absent type cannot be registered.
    ///
    /// What the names and annotations gain is stated by [`declared_sections`], except
    /// for a struct with a struct member declared in the same call: telling that struct
    /// apart from one already cached needs the freshness of the builder's ids, which the
    /// builder's contracts leave unsaid.
    #[verifier::rlimit(80)]
    pub fn register_type(&mut self, ty: &SpirvType) -> (r: Result<Word, Error>)
        requires
            old(self).wf(),
            register_fits(*ty),
        ensures
            final(self).wf(),
            shader_grows(*old(self), *final(self)),
            final(self).ops() == old(self).ops(),
            final(self).interfaces() == old(self).interfaces(),
            r is Err <==> has_no_type(*ty),
            r matches Err(e) ==> e == Error::NoType,
            r matches Ok(w) ==> spec_type_id(final(self).types(), *ty) == Some(w),
            spec_type_id(old(self).types(), *ty) matches Some(w) ==> r matches Ok(x) && x == w
                && same_shader(*final(self), *old(self)),
            r is Ok ==> sections_added(*old(self), *final(self), *ty),
            !contains_struct(*ty) ==> no_struct_added(old(self).types(), final(self).types()),
        decreases *ty,
    {
        match ty {
            SpirvType::Bool(_) => {
                let id = self.cached_type(TypeKey::Bool);
                proof { lemma_sections_unchanged(*old(self), *self, *ty); }
                Ok(id)
            },
            SpirvType::Float(_) => {
                let id = self.cached_type(TypeKey::Float { width: 32 });
                proof { lemma_sections_unchanged(*old(self), *self, *ty); }
                Ok(id)
            },
            SpirvType::UnsignedInteger(_) => {
                let id = self.cached_type(TypeKey::UnsignedInteger { width: 32 });
                proof { lemma_sections_unchanged(*old(self), *self, *ty); }
                Ok(id)
            },
            SpirvType::Vector(v) => {
                let ghost s0 = *self;
                match self.register_type(&v.component) {
                    Err(e) => Err(e),
                    Ok(c) => {
                        let ghost s1 = *self;
                        let id = self.cached_type(
                            TypeKey::Vector { component_type: c, component_count: v.component_count },
                        );
                        proof {
                            lemma_type_id_extend(s1.types(), self.types(), &*v.component);
                            if !contains_struct(*ty) {
                                lemma_no_struct_added_trans(old(self).types(), s1.types(), self.types());
                            }
                            if !contains_struct(*ty) || spec_type_id(old(self).types(), *ty) is Some {
                                if spec_type_id(old(self).types(), *ty) is None {
                                    assert(!contains_struct(*v.component));
                                    lemma_sections_empty(*old(self), s1, &*v.component);
                                }
                                lemma_sections_unchanged(*old(self), *self, *ty);
                            }
                        }
                        Ok(id)
                    },
                }
            },
            SpirvType::Matrix(m) => {
                match self.register_type(&m.column_type) {
                    Err(e) => Err(e),
                    Ok(c) => {
                        let ghost s1 = *self;
                        let id = self.cached_type(
                            TypeKey::Matrix { column_type: c, column_count: m.column_count },
                        );
                        proof {
                            lemma_type_id_extend(s1.types(), self.types(), &*m.column_type);
                            if !contains_struct(*ty) {
                                lemma_no_struct_added_trans(old(self).types(), s1.types(), self.types());
                            }
                            if !contains_struct(*ty) || spec_type_id(old(self).types(), *ty) is Some {
                                if spec_type_id(old(self).types(), *ty) is None {
                                    assert(!contains_struct(*m.column_type));
                                    lemma_sections_empty(*old(self), s1, &*m.column_type);
                                }
                                lemma_sections_unchanged(*old(self), *self, *ty);
                            }
                        }
                        Ok(id)
                    },
                }
            },
            SpirvType::Pointer(p) => {
                match self.register_type(&p.pointee_type) {
                    Err(e) => Err(e),
                    Ok(c) => {
                        let ghost s1 = *self;
                        let id = self.register_pointer_type(p.storage_class, c);
                        proof {
                            lemma_type_id_extend(s1.types(), self.types(), &*p.pointee_type);
                            if !contains_struct(*ty) {
                                lemma_no_struct_added_trans(old(self).types(), s1.types(), self.types());
                            }
                            if spec_type_id(old(self).types(), *ty) is None {
                                lemma_declared_sections_extend(old(self).types(), s1.types(), self.types(), &*p.pointee_type);
                                assert(declared_sections(old(self).types(), self.types(), *ty) == declared_sections(
                                    old(self).types(),
                                    self.types(),
                                    *p.pointee_type,
                                ));
                            }
                        }
                        Ok(id)
                    },
                }
            },
            SpirvType::Struct(st) => self.register_struct(st, Ghost(*ty)),
            SpirvType::NoType => Err(Error::NoType),
        }
    }
}

/// A copy of a list of ids.
pub(crate) fn copy_words(v: &Vec<Word>) -> (r: Vec<Word>)
    ensures
        r@ == v@,
{
    let mut r: Vec<Word> = Vec::new();
    let mut i: usize = 0;
    while i < v.len()
        invariant
            0 <= i <= v@.len(),
            r@ == v@.take(i as int),
        decreases v@.len() - i,
    {
        r.push(v[i]);
        i = i + 1;
        assert(r@ =~= v@.take(i as int));
    }
    assert(v@.take(i as int) =~= v@);
    r
}

/// Registered member lists have each member registered, and each prefix.
proof fn lemma_member_ids_each(types: Seq<(TypeKeyModel, Word)>, ms: Seq<GlslStructMember>, i: int)
    requires
        member_type_ids(types, ms) is Some,
        0 <= i < ms.len(),
    ensures
        spec_type_id(types, *ms[i].ty) is Some,
        member_type_ids(types, ms.take(i)) is Some,
        member_type_ids(types, ms.take(i + 1)) == Some(member_type_ids(types, ms.take(i))->0.push(
            spec_type_id(types, *ms[i].ty)->0,
        )),
    decreases ms.len(),
{
    lemma_members_take_step(ms, i);
    if i < ms.len() - 1 {
        lemma_member_ids_each(types, ms.drop_last(), i);
        assert(ms.drop_last().take(i) =~= ms.take(i));
        assert(ms.drop_last().take(i + 1) =~= ms.take(i + 1));
    } else {
        assert(ms.take(i + 1) =~= ms);
    }
}

pub proof fn lemma_prefix_trans<A>(a: Seq<A>, b: Seq<A>, c: Seq<A>)
    requires
        a.is_prefix_of(b),
        b.is_prefix_of(c),
    ensures
        a.is_prefix_of(c),
{
    assert(a =~= c.subrange(0, a.len() as int)) by {
        assert forall|i: int| 0 <= i < a.len() implies a[i] == c[i] by {
            assert(a[i] == b[i]);
            assert(b[i] == c[i]);
        }
    }
}

pub proof fn lemma_grows_trans(a: Shader, b: Shader, c: Shader)
    requires
        shader_grows(a, b),
        shader_grows(b, c),
    ensures
        shader_grows(a, c),
{
    lemma_prefix_trans(a.spirv().capabilities, b.spirv().capabilities, c.spirv().capabilities);
    lemma_prefix_trans(a.spirv().ext_inst_imports, b.spirv().ext_inst_imports, c.spirv().ext_inst_imports);
    lemma_prefix_trans(a.spirv().debug_names, b.spirv().debug_names, c.spirv().debug_names);
    lemma_prefix_trans(a.spirv().annotations, b.spirv().annotations, c.spirv().annotations);
    lemma_prefix_trans(a.spirv().globals, b.spirv().globals, c.spirv().globals);
    lemma_prefix_trans(a.types(), b.types(), c.types());
    lemma_prefix_trans(a.ops(), b.ops(), c.ops());
}

pub proof fn lemma_grows_refl(a: Shader)
    ensures
        shader_grows(a, a),
{
    assert(a.spirv().capabilities.is_prefix_of(a.spirv().capabilities)) by {
        assert(a.spirv().capabilities =~= a.spirv().capabilities.subrange(0, a.spirv().capabilities.len() as int));
    }
    assert(a.spirv().ext_inst_imports =~= a.spirv().ext_inst_imports.subrange(0, a.spirv().ext_inst_imports.len() as int));
    assert(a.spirv().entry_points =~= a.spirv().entry_points.subrange(0, a.spirv().entry_points.len() as int));
    assert(a.spirv().debug_names =~= a.spirv().debug_names.subrange(0, a.spirv().debug_names.len() as int));
    assert(a.spirv().annotations =~= a.spirv().annotations.subrange(0, a.spirv().annotations.len() as int));
    assert(a.spirv().globals =~= a.spirv().globals.subrange(0, a.spirv().globals.len() as int));
    assert(a.types() =~= a.types().subrange(0, a.types().len() as int));
    assert(a.ops() =~= a.ops().subrange(0, a.ops().len() as int));
}

pub proof fn lemma_prefix_refl<A>(a: Seq<A>)
    ensures
        a.is_prefix_of(a),
{
    assert(a =~= a.subrange(0, a.len() as int));
}

pub proof fn lemma_prefix_push<A>(a: Seq<A>, x: A)
    ensures
        a.is_prefix_of(a.push(x)),
{
    assert(a =~= a.push(x).subrange(0, a.len() as int));
}

impl Shader {
    /// Registers the struct `ty` (see [`Shader::register_type`]).
    #[verifier::rlimit(100)]
    fn register_struct(&mut self, st: &Rc<GlslStruct>, Ghost(ty): Ghost<SpirvType>) -> (r: Result<Word, Error>)
        requires
            old(self).wf(),
            ty == SpirvType::Struct(*st),
            register_fits(ty),
        ensures
            final(self).wf(),
            shader_grows(*old(self), *final(self)),
            final(self).ops() == old(self).ops(),
            final(self).interfaces() == old(self).interfaces(),
            r is Err <==> has_no_type(ty),
            r matches Err(e) ==> e == Error::NoType,
            r matches Ok(w) ==> spec_type_id(final(self).types(), ty) == Some(w),
            spec_type_id(old(self).types(), ty) matches Some(w) ==> r matches Ok(x) && x == w
                && same_shader(*final(self), *old(self)),
            r is Ok ==> sections_added(*old(self), *final(self), ty),
        decreases **st,
    {
        let ghost s0 = *self;
        let ghost ms = st.members@;
        proof { lemma_grows_refl(*self); }
        let mut field_types: Vec<Word> = Vec::new();
        let mut i: usize = 0;
        assert(ms.take(0) =~= Seq::<GlslStructMember>::empty());
        while i < st.members.len()
            invariant
                self.wf(),
                s0 == *old(self),
                shader_grows(s0, *self),
                self.ops() == s0.ops(),
                ms == st.members@,
                ty == SpirvType::Struct(*st),
                register_fits(ty),
                0 <= i <= ms.len(),
                member_type_ids(self.types(), ms.take(i as int)) == Some(field_types@),
                !members_have_no_type(ms.take(i as int)),
                member_type_ids(s0.types(), ms) is Some ==> same_shader(*self, s0),
                !members_contain_struct(ms) ==> no_struct_added(s0.types(), self.types()),
                !members_contain_struct(ms) ==> self.spirv().debug_names == s0.spirv().debug_names
                    && self.spirv().annotations == s0.spirv().annotations,
            decreases ms.len() - i,
        {
            proof {
                lemma_members_register_fit_each(ms, i as int);
                lemma_members_take_step(ms, i as int);
            }
            assert(decreases_to!(**st => st.members));
            assert(decreases_to!(st.members => st.members@));
            assert(decreases_to!(st.members@ => st.members@[i as int]));
            assert(decreases_to!(st.members@[i as int] => *st.members@[i as int].ty));
            let ghost s1 = *self;
            match self.register_type(&st.members[i].ty) {
                Err(e) => {
                    proof {
                        lemma_members_have_no_type_prefix(ms, i + 1);
                        lemma_grows_trans(s0, s1, *self);
                        if member_type_ids(s0.types(), ms) is Some {
                            lemma_member_ids_each(s0.types(), ms, i as int);
                        }
                    }
                    return Err(e);
                },
                Ok(w) => {
                    proof {
                        lemma_member_ids_extend(s1.types(), self.types(), ms.take(i as int));
                        lemma_grows_trans(s0, s1, *self);
                        if !members_contain_struct(ms) {
                            assert(!contains_struct(*ms[i as int].ty));
                            lemma_no_struct_added_trans(s0.types(), s1.types(), self.types());
                            lemma_sections_empty(s1, *self, &*st.members@[i as int].ty);
                        }
                        if member_type_ids(s0.types(), ms) is Some {
                            lemma_member_ids_each(s0.types(), ms, i as int);
                        }
                    }
                    field_types.push(w);
                },
            }
            i = i + 1;
        }
        assert(ms.take(i as int) =~= ms);
        let ghost s2 = *self;
        let key = TypeKey::Struct { name: st.name.clone(), field_types: copy_words(&field_types) };
        if let Some(id) = self.lookup_type(&key) {
            proof {
                if !members_contain_struct(ms) {
                    lemma_no_struct_added_lookup(s0.types(), self.types(), key@);
                }
                if !members_contain_struct(ms) || member_type_ids(s0.types(), ms) is Some {
                    lemma_sections_unchanged(s0, *self, ty);
                }
            }
            return Ok(id);
        }
        assert(spec_type_id(s0.types(), ty) is None) by {
            if member_type_ids(s0.types(), ms) is Some {
                assert(same_shader(*self, s0));
            }
        }
        let ghost names0 = self.spirv().debug_names;
        let ghost annotations0 = self.spirv().annotations;
        let ghost globals0 = self.spirv().globals;
        let fresh = builder_id(&mut self.builder);
        let id = builder_type_struct_id(&mut self.builder, fresh, &field_types);
        builder_name(&mut self.builder, id, st.name.as_str());
        let ghost globals1 = self.spirv().globals;
        proof {
            lemma_prefix_push(globals0, Inst::TypeStruct { id, members: field_types@ });
            lemma_cache_declared_grow(globals0, globals1, self.types(), self.ops());
            assert(globals1[globals0.len() as int] == Inst::TypeStruct { id, members: field_types@ });
        }
        let mut offset: u32 = 0;
        let mut j: usize = 0;
        proof {
            lemma_members_width_prefix(ms, 0);
            assert(names0 + seq![Inst::Name { target: id, name: st.name@ }] + member_names(id, ms.take(0)) =~= self.spirv().debug_names);
            assert(annotations0 + struct_layout(id, ms.take(0)) =~= self.spirv().annotations);
        }
        while j < st.members.len()
            invariant
                ms == st.members@,
                ty == SpirvType::Struct(*st),
                register_fits(ty),
                0 <= j <= ms.len(),
                offset == members_width(ms.take(j as int)),
                self.spirv().debug_names == names0 + seq![Inst::Name { target: id, name: st.name@ }]
                    + member_names(id, ms.take(j as int)),
                self.spirv().annotations == annotations0 + struct_layout(id, ms.take(j as int)),
                self.spirv().globals == globals1,
                self.spirv().capabilities == s2.spirv().capabilities,
                self.spirv().ext_inst_imports == s2.spirv().ext_inst_imports,
                self.spirv().memory_model == s2.spirv().memory_model,
                self.spirv().entry_points == s2.spirv().entry_points,
                self.spirv().selection == s2.spirv().selection,
                self.spirv().functions == s2.spirv().functions,
                self.spirv().block == s2.spirv().block,
                self.interfaces() == s2.interfaces(),
                self.types() == s2.types(),
                self.ops() == s2.ops(),
            decreases ms.len() - j,
        {
            proof {
                lemma_members_take_step(ms, j as int);
                lemma_members_fit_each(ms, j as int);
                lemma_members_width_step(ms, j as int);
                lemma_members_width_prefix(ms, j + 1);
            }
            let m = &st.members[j];
            builder_member_name(&mut self.builder, id, j as u32, m.name.as_str());
            builder_member_decorate(&mut self.builder, id, j as u32, Decoration::Offset(offset));
            let w = m.ty.width();
            offset = offset + w;
            match &*m.ty {
                SpirvType::Matrix(mt) => {
                    builder_member_decorate(&mut self.builder, id, j as u32, Decoration::ColMajor);
                    let stride = mt.column_type.width();
                    builder_member_decorate(&mut self.builder, id, j as u32, Decoration::MatrixStride(stride));
                },
                _ => {},
            }
            proof {
                assert(self.spirv().debug_names =~= names0 + seq![Inst::Name { target: id, name: st.name@ }]
                    + member_names(id, ms.take(j + 1)));
                assert(self.spirv().annotations =~= annotations0 + struct_layout(id, ms.take(j + 1)));
            }
            j = j + 1;
        }
        assert(ms.take(j as int) =~= ms);
        builder_decorate(&mut self.builder, id, Decoration::Block);
        proof {
            assert(self.spirv().annotations =~= annotations0 + struct_layout(id, ms).push(
                Inst::Decorate { target: id, decoration: Decoration::Block },
            ));
            assert(self.spirv().debug_names =~= names0 + seq![Inst::Name { target: id, name: st.name@ }] + member_names(id, ms));
        }
        let ghost s3 = *self;
        self.insert_type(key, id);
        proof {
            lemma_prefix_push(s3.types(), (key@, id));
            lemma_member_ids_extend(s3.types(), self.types(), ms);
            lemma_prefix_push(names0, Inst::Name { target: id, name: st.name@ });
            assert(names0.is_prefix_of(self.spirv().debug_names)) by {
                assert(names0 =~= self.spirv().debug_names.subrange(0, names0.len() as int));
            }
            assert(annotations0.is_prefix_of(self.spirv().annotations)) by {
                assert(annotations0 =~= self.spirv().annotations.subrange(0, annotations0.len() as int));
            }
            assert(shader_grows(s2, *self));
            lemma_grows_trans(s0, s2, *self);
            assert(self.spirv().debug_names =~= names0 + (seq![Inst::Name { target: id, name: st.name@ }]
                + member_names(id, ms)));
            assert(spec_type_id(self.types(), ty) == Some(id));
            if !members_contain_struct(ms) || member_type_ids(s0.types(), ms) is Some {
                if !members_contain_struct(ms) {
                    lemma_no_struct_added_lookup(s0.types(), s2.types(), key@);
                }
                assert(names0 == s0.spirv().debug_names);
                assert(annotations0 == s0.spirv().annotations);
                assert(member_type_ids(self.types(), ms) == Some(field_types@));
                assert(lookup_type(s0.types(), key@) is None);
                assert(declared_sections(s0.types(), self.types(), ty) == Some(
                    (
                        seq![Inst::Name { target: id, name: st.name@ }] + member_names(id, ms),
                        struct_layout(id, ms).push(Inst::Decorate { target: id, decoration: Decoration::Block }),
                    ),
                ));
            }
        }
        Ok(id)
    }
}

impl Shader {
    /// The id of the void type or of a function type, declaring it the first time.
    pub(crate) fn cached_op(&mut self, key: OpKey) -> (r: Word)
        requires
            old(self).wf(),
            key@ is Void || key@ is Function,
        ensures
            final(self).wf(),
            lookup_op(final(self).ops(), key@) == Some(r),
            lookup_op(old(self).ops(), key@) matches Some(w) ==> r == w && same_shader(*final(self), *old(self)),
            final(self).types() == old(self).types(),
            shader_grows(*old(self), *final(self)),
            final(self).spirv() == (BuilderModel { globals: final(self).spirv().globals, ..old(self).spirv() }),
    {
        proof { lemma_grows_refl(*self); }
        if let Some(id) = self.lookup_op(&key) {
            return id;
        }
        let ghost before = self.spirv().globals;
        let id = match &key {
            OpKey::Function { return_type, parameter_types } => builder_type_function(
                &mut self.builder,
                *return_type,
                parameter_types,
            ),
            _ => builder_type_void(&mut self.builder),
        };
        proof {
            let d = op_key_declaration(key@, id)->0;
            lemma_dedup_contains(before, self.spirv().globals, d, id);
            lemma_cache_declared_grow(before, self.spirv().globals, self.types(), self.ops());
        }
        let ghost s1 = *self;
        self.insert_op(key, id);
        proof { lemma_prefix_push(s1.ops(), (key@, id)); }
        id
    }

    /// The id of the 32-bit unsigned constant `value`, declaring it the first time.
    pub(crate) fn constant_u32(&mut self, value: u32) -> (r: Word)
        requires
            old(self).wf(),
        ensures
            final(self).wf(),
            shader_grows(*old(self), *final(self)),
            final(self).ops() == old(self).ops(),
            final(self).interfaces() == old(self).interfaces(),
            ({
                let t = lookup_type(final(self).types(), TypeKeyModel::UnsignedInteger { width: 32 });
                t is Some && lookup_type(final(self).types(), TypeKeyModel::ConstantU32 { integer_type: t->0, value }) == Some(r)
            }),
            final(self).spirv() == (BuilderModel { globals: final(self).spirv().globals, ..old(self).spirv() }),
    {
        let ghost s0 = *self;
        let integer_type = self.cached_type(TypeKey::UnsignedInteger { width: 32 });
        let ghost s1 = *self;
        let r = self.cached_type(TypeKey::ConstantU32 { integer_type, value });
        proof {
            lemma_grows_trans(s0, s1, *self);
            lemma_lookup_type_extend(s1.types(), self.types(), TypeKeyModel::UnsignedInteger { width: 32 });
        }
        r
    }

    /// The id of the 32-bit float constant whose bit pattern is `bits`, declaring it the
    /// first time.
    pub(crate) fn constant_f32(&mut self, bits: u32) -> (r: Word)
        requires
            old(self).wf(),
        ensures
            final(self).wf(),
            shader_grows(*old(self), *final(self)),
            final(self).ops() == old(self).ops(),
            final(self).interfaces() == old(self).interfaces(),
            ({
                let t = lookup_type(final(self).types(), TypeKeyModel::Float { width: 32 });
                t is Some && lookup_type(final(self).types(), TypeKeyModel::ConstantF32 { float_type: t->0, value: bits }) == Some(r)
            }),
            final(self).spirv() == (BuilderModel { globals: final(self).spirv().globals, ..old(self).spirv() }),
    {
        let ghost s0 = *self;
        let float_type = self.cached_type(TypeKey::Float { width: 32 });
        let ghost s1 = *self;
        let r = self.cached_type(TypeKey::ConstantF32 { float_type, value: bits });
        proof {
            lemma_grows_trans(s0, s1, *self);
            lemma_lookup_type_extend(s1.types(), self.types(), TypeKeyModel::Float { width: 32 });
        }
        r
    }

    /// Names `id`.
    pub(crate) fn name(&mut self, id: Word, name: &str)
        requires
            old(self).wf(),
        ensures
            final(self).wf(),
            final(self).spirv() == (BuilderModel {
                debug_names: old(self).spirv().debug_names.push(Inst::Name { target: id, name: name@ }),
                ..old(self).spirv()
            }),
            final(self).types() == old(self).types(),
            final(self).ops() == old(self).ops(),
            final(self).interfaces() == old(self).interfaces(),
    {
        builder_name(&mut self.builder, id, name);
    }

    /// Names member `index` of the struct `id`.
    pub(crate) fn member_name(&mut self, id: Word, index: u32, name: &str)
        requires
            old(self).wf(),
        ensures
            final(self).wf(),
            final(self).spirv() == (BuilderModel {
                debug_names: old(self).spirv().debug_names.push(
                    Inst::MemberName { target: id, member: index, name: name@ },
                ),
                ..old(self).spirv()
            }),
            final(self).types() == old(self).types(),
            final(self).ops() == old(self).ops(),
            final(self).interfaces() == old(self).interfaces(),
    {
        builder_member_name(&mut self.builder, id, index, name);
    }

    /// Decorates `id`.
    pub(crate) fn decorate(&mut self, id: Word, decoration: Decoration)
        requires
            old(self).wf(),
        ensures
            final(self).wf(),
            final(self).spirv() == (BuilderModel {
                annotations: old(self).spirv().annotations.push(Inst::Decorate { target: id, decoration }),
                ..old(self).spirv()
            }),
            final(self).types() == old(self).types(),
            final(self).ops() == old(self).ops(),
            final(self).interfaces() == old(self).interfaces(),
    {
        match decoration {
            Decoration::BuiltIn(x) => builder_decorate_built_in(&mut self.builder, id, x),
            _ => builder_decorate(&mut self.builder, id, decoration),
        }
    }

    /// Declares a variable of type `result_type` in `storage_class`: in the block under
    /// construction if there is one, among the global values otherwise.
    pub(crate) fn variable(&mut self, result_type: Word, storage_class: StorageClass) -> (r: Word)
        requires
            old(self).wf(),
        ensures
            final(self).wf(),
            ({
                let before = old(self).spirv();
                let var = Inst::Variable { id: r, result_type, storage_class };
                if before.in_block() {
                    final(self).spirv() == before.with_block(before.block.push(var))
                } else {
                    final(self).spirv() == (BuilderModel { globals: before.globals.push(var), ..before })
                }
            }),
            final(self).types() == old(self).types(),
            final(self).ops() == old(self).ops(),
            final(self).interfaces() == old(self).interfaces(),
    {
        let ghost before = self.spirv().globals;
        let r = builder_variable(&mut self.builder, result_type, storage_class);
        proof {
            if !old(self).spirv().in_block() {
                lemma_prefix_push(before, Inst::Variable { id: r, result_type, storage_class });
                lemma_cache_declared_grow(before, self.spirv().globals, self.types(), self.ops());
            }
        }
        r
    }

    /// Caches the variable `id` under `key`, which is not cached yet.
    pub(crate) fn cache_op_variable(&mut self, key: OpKey, id: Word)
        requires
            old(self).wf(),
            !(key@ is Void) && !(key@ is Function),
            lookup_op(old(self).ops(), key@) is None,
        ensures
            final(self).wf(),
            final(self).spirv() == old(self).spirv(),
            final(self).ops() == old(self).ops().push((key@, id)),
            final(self).interfaces() == old(self).interfaces(),
            final(self).types() == old(self).types(),
            lookup_op(final(self).ops(), key@) == Some(id),
    {
        self.insert_op(key, id);
    }
}

impl Shader {
    /// Begins a function returning `return_type`, of type `function_type`; `None` when a
    /// function is already being built.
    pub(crate) fn begin_function(&mut self, return_type: Word, function_type: Word) -> (r: Option<Word>)
        requires
            old(self).wf(),
        ensures
            final(self).wf(),
            r is None <==> old(self).spirv().in_function(),
            r is None ==> final(self).spirv() == old(self).spirv(),
            r is Some ==> ({
                let before = old(self).spirv();
                let after = final(self).spirv();
                &&& after == (BuilderModel {
                    functions: before.functions.push(FunctionModel {
                        def: Inst::Function { id: r->0, return_type, function_type },
                        blocks: Seq::empty(),
                        ended: false,
                    }),
                    selection: after.selection,
                    block: Seq::empty(),
                    ..before
                })
                &&& after.selection.len() == 2
                &&& after.selection[0] matches Some(k) && k == before.functions.len()
                &&& after.selection[1] is None
            }),
            final(self).types() == old(self).types(),
            final(self).ops() == old(self).ops(),
            final(self).interfaces() == old(self).interfaces(),
    {
        builder_begin_function(&mut self.builder, return_type, function_type)
    }

    /// Begins a block in the function under construction; `None` when no function is
    /// being built or a block already is.
    pub(crate) fn begin_block(&mut self) -> (r: Option<Word>)
        requires
            old(self).wf(),
        ensures
            final(self).wf(),
            r is None <==> !old(self).spirv().in_function() || old(self).spirv().selection[1] is Some,
            r is None ==> final(self).spirv() == old(self).spirv(),
            r is Some ==> ({
                let before = old(self).spirv();
                let after = final(self).spirv();
                let f = before.selection[0]->0 as int;
                &&& after == (BuilderModel {
                    functions: before.functions.update(
                        f,
                        FunctionModel { blocks: before.functions[f].blocks.push(Seq::empty()), ..before.functions[f] },
                    ),
                    selection: after.selection,
                    block: Seq::empty(),
                    ..before
                })
                &&& after.selection.len() == 2
                &&& after.selection[0] == before.selection[0]
                &&& after.selection[1] matches Some(k) && k == before.functions[f].blocks.len()
            }),
            final(self).types() == old(self).types(),
            final(self).ops() == old(self).ops(),
            final(self).interfaces() == old(self).interfaces(),
    {
        builder_begin_block(&mut self.builder)
    }

    /// Ends the block under construction with a return; `false` when no block is.
    pub(crate) fn ret(&mut self) -> (r: bool)
        requires
            old(self).wf(),
        ensures
            final(self).wf(),
            block_ended(old(self).spirv(), final(self).spirv(), r, Inst::Return),
            final(self).types() == old(self).types(),
            final(self).ops() == old(self).ops(),
            final(self).interfaces() == old(self).interfaces(),
    {
        builder_ret(&mut self.builder)
    }

    /// Ends the block under construction returning `value`; `false` when no block is.
    pub(crate) fn ret_value(&mut self, value: Word) -> (r: bool)
        requires
            old(self).wf(),
        ensures
            final(self).wf(),
            block_ended(old(self).spirv(), final(self).spirv(), r, Inst::ReturnValue { value }),
            final(self).types() == old(self).types(),
            final(self).ops() == old(self).ops(),
            final(self).interfaces() == old(self).interfaces(),
    {
        builder_ret_value(&mut self.builder, value)
    }

    /// Ends the function under construction, in which no block is open; `false` when no
    /// function is being built.
    pub(crate) fn end_function(&mut self) -> (r: bool)
        requires
            old(self).wf(),
            old(self).spirv().selection[1] is None,
        ensures
            final(self).wf(),
            r <==> old(self).spirv().in_function(),
            r ==> ({
                let before = old(self).spirv();
                let f = before.selection[0]->0 as int;
                final(self).spirv() == (BuilderModel {
                    functions: before.functions.update(f, FunctionModel { ended: true, ..before.functions[f] }),
                    selection: seq![None, None],
                    ..before
                })
            }),
            !r ==> final(self).spirv() == old(self).spirv(),
            final(self).types() == old(self).types(),
            final(self).ops() == old(self).ops(),
            final(self).interfaces() == old(self).interfaces(),
    {
        builder_end_function(&mut self.builder)
    }

    /// Appends an OpAccessChain to the block under construction.
    pub(crate) fn access_chain(&mut self, result_type: Word, base: Word, indexes: &Vec<Word>) -> (r: Option<Word>)
        requires
            old(self).wf(),
        ensures
            final(self).wf(),
            block_appended(old(self).spirv(), final(self).spirv(), r is Some,
                Inst::AccessChain { id: r->0, result_type, base, indexes: indexes@ }),
            final(self).types() == old(self).types(),
            final(self).ops() == old(self).ops(),
            final(self).interfaces() == old(self).interfaces(),
    {
        builder_access_chain(&mut self.builder, result_type, base, indexes)
    }

    /// Appends an OpLoad to the block under construction.
    pub(crate) fn load(&mut self, result_type: Word, pointer: Word) -> (r: Option<Word>)
        requires
            old(self).wf(),
        ensures
            final(self).wf(),
            block_appended(old(self).spirv(), final(self).spirv(), r is Some,
                Inst::Load { id: r->0, result_type, pointer }),
            final(self).types() == old(self).types(),
            final(self).ops() == old(self).ops(),
            final(self).interfaces() == old(self).interfaces(),
    {
        builder_load(&mut self.builder, result_type, pointer)
    }

    /// Appends an OpStore to the block under construction.
    pub(crate) fn store(&mut self, pointer: Word, object: Word) -> (r: bool)
        requires
            old(self).wf(),
        ensures
            final(self).wf(),
            block_appended(old(self).spirv(), final(self).spirv(), r, Inst::Store { pointer, object }),
            final(self).types() == old(self).types(),
            final(self).ops() == old(self).ops(),
            final(self).interfaces() == old(self).interfaces(),
    {
        builder_store(&mut self.builder, pointer, object)
    }

    /// Appends an OpMatrixTimesMatrix to the block under construction.
    pub(crate) fn matrix_times_matrix(&mut self, result_type: Word, left: Word, right: Word) -> (r: Option<Word>)
        requires
            old(self).wf(),
        ensures
            final(self).wf(),
            block_appended(old(self).spirv(), final(self).spirv(), r is Some,
                Inst::MatrixTimesMatrix { id: r->0, result_type, left, right }),
            final(self).types() == old(self).types(),
            final(self).ops() == old(self).ops(),
            final(self).interfaces() == old(self).interfaces(),
    {
        builder_matrix_times_matrix(&mut self.builder, result_type, left, right)
    }

    /// Appends an OpMatrixTimesVector to the block under construction.
    pub(crate) fn matrix_times_vector(&mut self, result_type: Word, matrix: Word, vector: Word) -> (r: Option<Word>)
        requires
            old(self).wf(),
        ensures
            final(self).wf(),
            block_appended(old(self).spirv(), final(self).spirv(), r is Some,
                Inst::MatrixTimesVector { id: r->0, result_type, matrix, vector }),
            final(self).types() == old(self).types(),
            final(self).ops() == old(self).ops(),
            final(self).interfaces() == old(self).interfaces(),
    {
        builder_matrix_times_vector(&mut self.builder, result_type, matrix, vector)
    }

    /// Appends an OpTranspose to the block under construction.
    pub(crate) fn transpose(&mut self, result_type: Word, matrix: Word) -> (r: Option<Word>)
        requires
            old(self).wf(),
        ensures
            final(self).wf(),
            block_appended(old(self).spirv(), final(self).spirv(), r is Some,
                Inst::Transpose { id: r->0, result_type, matrix }),
            final(self).types() == old(self).types(),
            final(self).ops() == old(self).ops(),
            final(self).interfaces() == old(self).interfaces(),
    {
        builder_transpose(&mut self.builder, result_type, matrix)
    }

    /// Appends an OpCompositeExtract to the block under construction.
    pub(crate) fn composite_extract(&mut self, result_type: Word, composite: Word, indexes: &Vec<u32>) -> (r: Option<Word>)
        requires
            old(self).wf(),
        ensures
            final(self).wf(),
            block_appended(old(self).spirv(), final(self).spirv(), r is Some,
                Inst::CompositeExtract { id: r->0, result_type, composite, literals: indexes@ }),
            final(self).types() == old(self).types(),
            final(self).ops() == old(self).ops(),
            final(self).interfaces() == old(self).interfaces(),
    {
        builder_composite_extract(&mut self.builder, result_type, composite, indexes)
    }

    /// Appends an OpCompositeConstruct to the block under construction.
    pub(crate) fn composite_construct(&mut self, result_type: Word, constituents: &Vec<Word>) -> (r: Option<Word>)
        requires
            old(self).wf(),
        ensures
            final(self).wf(),
            block_appended(old(self).spirv(), final(self).spirv(), r is Some,
                Inst::CompositeConstruct { id: r->0, result_type, constituents: constituents@ }),
            final(self).types() == old(self).types(),
            final(self).ops() == old(self).ops(),
            final(self).interfaces() == old(self).interfaces(),
    {
        builder_composite_construct(&mut self.builder, result_type, constituents)
    }

    /// Declares an entry point.
    pub(crate) fn add_entry_point(&mut self, model: ExecutionModel, function: Word, name: &str, interface: &Vec<Word>)
        requires
            old(self).wf(),
        ensures
            final(self).wf(),
            final(self).spirv() == (BuilderModel {
                entry_points: old(self).spirv().entry_points.push(
                    Inst::EntryPoint { model, function, name: name@, interface: interface@ },
                ),
                ..old(self).spirv()
            }),
            final(self).types() == old(self).types(),
            final(self).ops() == old(self).ops(),
            final(self).interfaces() == old(self).interfaces(),
    {
        builder_entry_point(&mut self.builder, model, function, name, interface);
    }

    /// Records the interface of an entry point.
    pub(crate) fn push_interface(&mut self, si: ShaderInterface)
        ensures
            final(self).spirv() == old(self).spirv(),
            final(self).types() == old(self).types(),
            final(self).ops() == old(self).ops(),
            final(self).interfaces() == old(self).interfaces().push(si),
    {
        self.interfaces.push(si);
    }

    /// The interfaces of the entry points, in order.
    pub fn entry_point_interfaces(&self) -> (r: &Vec<ShaderInterface>)
        ensures
            r@ == self.interfaces(),
    {
        &self.interfaces
    }

    /// The module built so far, for assembly.
    pub fn module(self) -> (r: Module)
        ensures
            spirv_module(r) == self.spirv().sections(),
    {
        builder_module(self.builder)
    }
}

/// From `a` to `b` the module only grew, the block under construction only by variable
/// declarations, the caches only grew, and the selection stayed.
pub open spec fn shader_extends(a: Shader, b: Shader) -> bool {
    &&& a.spirv().grows_to(b.spirv())
    &&& a.spirv().selection == b.spirv().selection
    &&& b.spirv().functions == a.spirv().with_block(b.spirv().block).functions
    &&& a.spirv().block.is_prefix_of(b.spirv().block)
    &&& forall|k: int| a.spirv().block.len() <= k < b.spirv().block.len() ==> #[trigger] b.spirv().block[k] is Variable
    &&& a.types().is_prefix_of(b.types())
    &&& a.ops().is_prefix_of(b.ops())
    &&& a.interfaces() == b.interfaces()
}

pub proof fn lemma_grows_extends(a: Shader, b: Shader)
    requires
        a.wf(),
        shader_grows(a, b),
    ensures
        shader_extends(a, b),
{
    a.spirv().lemma_with_own_block();
    assert(a.spirv().block =~= b.spirv().block.subrange(0, a.spirv().block.len() as int));
}

pub proof fn lemma_extends_trans(a: Shader, b: Shader, c: Shader)
    requires
        a.wf(),
        shader_extends(a, b),
        shader_extends(b, c),
    ensures
        shader_extends(a, c),
{
    a.spirv().lemma_with_block_twice(b.spirv().block, c.spirv().block);
    lemma_prefix_trans(a.spirv().capabilities, b.spirv().capabilities, c.spirv().capabilities);
    lemma_prefix_trans(a.spirv().ext_inst_imports, b.spirv().ext_inst_imports, c.spirv().ext_inst_imports);
    lemma_prefix_trans(a.spirv().debug_names, b.spirv().debug_names, c.spirv().debug_names);
    lemma_prefix_trans(a.spirv().annotations, b.spirv().annotations, c.spirv().annotations);
    lemma_prefix_trans(a.spirv().globals, b.spirv().globals, c.spirv().globals);
    lemma_prefix_trans(a.spirv().block, b.spirv().block, c.spirv().block);
    assert forall|k: int| a.spirv().block.len() <= k < c.spirv().block.len() implies #[trigger] c.spirv().block[k] is Variable by {
        if k < b.spirv().block.len() {
            assert(c.spirv().block[k] == b.spirv().block[k]);
        }
    }
    lemma_prefix_trans(a.types(), b.types(), c.types());
    lemma_prefix_trans(a.ops(), b.ops(), c.ops());
}

pub proof fn lemma_extends_refl(a: Shader)
    requires
        a.wf(),
    ensures
        shader_extends(a, a),
{
    lemma_grows_refl(a);
    lemma_grows_extends(a, a);
}

} // verus!
