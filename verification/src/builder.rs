//! The calls into rspirv's module builder, with what each does to the module.
//!
//! The builder is held opaque. What it holds is named section by section
//! (`spirv_*` below) as sequences of [`Inst`]; each wrapper states, from the
//! builder's source, how the call changes those sections and what it returns.
//!
//! A call that declares or emits an instruction with a new result id takes that id
//! from the builder's id counter, a private field of the builder that no call reads
//! out. Which id it is, and that it differs from the ids taken before, is left
//! unsaid: the contracts name the id the call returns and place it in the
//! instruction they append.
use crate::model::{
    dedup_declared, selected_block, FunctionModel, AddressingModel, BuilderModel, ModuleModel, BuiltIn, Capability, Decoration, ExecutionModel,
    Inst, MemoryModel, Word,
};
use crate::storage_class::StorageClass;
use rspirv::dr::{Builder, Module, Operand};
use rspirv::spirv;
use vstd::prelude::*;

verus! {

#[verifier::external_type_specification]
#[verifier::external_body]
pub struct ExBuilder(rspirv::dr::Builder);

#[verifier::external_type_specification]
#[verifier::external_body]
pub struct ExModule(rspirv::dr::Module);

/// The OpCapability instructions the builder holds.
pub uninterp spec fn spirv_capabilities(b: Builder) -> Seq<Inst>;

/// The OpExtInstImport instructions the builder holds.
pub uninterp spec fn spirv_ext_inst_imports(b: Builder) -> Seq<Inst>;

/// The OpMemoryModel instruction the builder holds (empty or one element).
pub uninterp spec fn spirv_memory_model(b: Builder) -> Seq<Inst>;

/// The OpEntryPoint instructions the builder holds.
pub uninterp spec fn spirv_entry_points(b: Builder) -> Seq<Inst>;

/// The debug names (OpName, OpMemberName) the builder holds.
pub uninterp spec fn spirv_debug_names(b: Builder) -> Seq<Inst>;

/// The annotations (OpDecorate, OpMemberDecorate) the builder holds.
pub uninterp spec fn spirv_annotations(b: Builder) -> Seq<Inst>;

/// The types, constants and global variables the builder holds, in order.
pub uninterp spec fn spirv_globals(b: Builder) -> Seq<Inst>;

/// The builder's selection: the selected function and the selected block
/// (two elements).
pub uninterp spec fn spirv_selection(b: Builder) -> Seq<Option<usize>>;

/// The functions the builder holds: each one's OpFunction, the instructions of each of
/// its blocks (their labels left out) and whether it has been ended.
pub uninterp spec fn spirv_functions(b: Builder) -> Seq<FunctionModel>;

/// Everything the library knows of a builder.
pub open spec fn builder_model(b: Builder) -> BuilderModel {
    BuilderModel {
        capabilities: spirv_capabilities(b),
        ext_inst_imports: spirv_ext_inst_imports(b),
        memory_model: spirv_memory_model(b),
        entry_points: spirv_entry_points(b),
        debug_names: spirv_debug_names(b),
        annotations: spirv_annotations(b),
        globals: spirv_globals(b),
        functions: spirv_functions(b),
        selection: spirv_selection(b),
        block: selected_block(spirv_functions(b), spirv_selection(b)),
    }
}

/// `Builder::new`: a builder whose module is empty and that has nothing selected.
#[verifier::external_body]
pub(crate) fn builder_new() -> (b: Builder)
    ensures
        spirv_capabilities(b) == Seq::<Inst>::empty(),
        spirv_ext_inst_imports(b) == Seq::<Inst>::empty(),
        spirv_memory_model(b) == Seq::<Inst>::empty(),
        spirv_entry_points(b) == Seq::<Inst>::empty(),
        spirv_debug_names(b) == Seq::<Inst>::empty(),
        spirv_annotations(b) == Seq::<Inst>::empty(),
        spirv_globals(b) == Seq::<Inst>::empty(),
        spirv_selection(b) == seq![None::<usize>, None::<usize>],
        spirv_functions(b) == Seq::<FunctionModel>::empty(),
        builder_model(b) == BuilderModel::empty(),
{
    Builder::new()
}

/// `Builder::capability`: appends an OpCapability.
#[verifier::external_body]
pub(crate) fn builder_capability(b: &mut Builder, capability: Capability)
    ensures
        builder_model(*final(b)) == (BuilderModel {
            capabilities: builder_model(*old(b)).capabilities.push(
                Inst::Capability { capability },
            ),
            ..builder_model(*old(b))
        }),
{
    match capability {
        Capability::Shader => b.capability(spirv::Capability::Shader),
    }
}

/// `Builder::ext_inst_import`: appends an OpExtInstImport and returns its result id.
#[verifier::external_body]
pub(crate) fn builder_ext_inst_import(b: &mut Builder, name: &str) -> (r: Word)
    ensures
        builder_model(*final(b)) == (BuilderModel {
            ext_inst_imports: builder_model(*old(b)).ext_inst_imports.push(
                Inst::ExtInstImport { id: r, name: name@ },
            ),
            ..builder_model(*old(b))
        }),
{
    b.ext_inst_import(name)
}

/// `Builder::memory_model`: sets the OpMemoryModel.
#[verifier::external_body]
pub(crate) fn builder_memory_model(
    b: &mut Builder,
    addressing: AddressingModel,
    memory: MemoryModel,
)
    ensures
        builder_model(*final(b)) == (BuilderModel {
            memory_model: seq![Inst::MemoryModel { addressing, memory }],
            ..builder_model(*old(b))
        }),
{
    match (addressing, memory) {
        (AddressingModel::Logical, MemoryModel::Glsl450) => b.memory_model(
            spirv::AddressingModel::Logical,
            spirv::MemoryModel::GLSL450,
        ),
    }
}

/// `Builder::id`: takes the next unused id; the module does not change.
/// Which id that is (the builder's counter) is left unsaid.
#[verifier::external_body]
pub(crate) fn builder_id(b: &mut Builder) -> (r: Word)
    ensures
        builder_model(*final(b)) == builder_model(*old(b)),
{
    b.id()
}

/// `Builder::type_void`: declares OpTypeVoid, or reuses an identical declaration.
#[verifier::external_body]
pub(crate) fn builder_type_void(b: &mut Builder) -> (r: Word)
    ensures
        builder_model(*final(b)) == (BuilderModel {
            globals: builder_model(*final(b)).globals,
            ..builder_model(*old(b))
        }),
        dedup_declared(spirv_globals(*old(b)), spirv_globals(*final(b)), Inst::TypeVoid { id: r }, r),
{
    b.type_void()
}

/// `Builder::type_bool`: declares OpTypeBool, or reuses an identical declaration.
#[verifier::external_body]
pub(crate) fn builder_type_bool(b: &mut Builder) -> (r: Word)
    ensures
        builder_model(*final(b)) == (BuilderModel {
            globals: builder_model(*final(b)).globals,
            ..builder_model(*old(b))
        }),
        dedup_declared(spirv_globals(*old(b)), spirv_globals(*final(b)), Inst::TypeBool { id: r }, r),
{
    b.type_bool()
}

/// `Builder::type_int`: declares OpTypeInt, or reuses an identical declaration.
#[verifier::external_body]
pub(crate) fn builder_type_int(b: &mut Builder, width: u32, signedness: u32) -> (r: Word)
    ensures
        builder_model(*final(b)) == (BuilderModel {
            globals: builder_model(*final(b)).globals,
            ..builder_model(*old(b))
        }),
        dedup_declared(
            spirv_globals(*old(b)),
            spirv_globals(*final(b)),
            Inst::TypeInt { id: r, width, signedness },
            r,
        ),
{
    b.type_int(width, signedness)
}

/// `Builder::type_float` (no encoding operand): declares OpTypeFloat, or reuses an
/// identical declaration.
#[verifier::external_body]
pub(crate) fn builder_type_float(b: &mut Builder, width: u32) -> (r: Word)
    ensures
        builder_model(*final(b)) == (BuilderModel {
            globals: builder_model(*final(b)).globals,
            ..builder_model(*old(b))
        }),
        dedup_declared(
            spirv_globals(*old(b)),
            spirv_globals(*final(b)),
            Inst::TypeFloat { id: r, width },
            r,
        ),
{
    b.type_float(width, None)
}

/// `Builder::type_vector`: declares OpTypeVector, or reuses an identical declaration.
#[verifier::external_body]
pub(crate) fn builder_type_vector(b: &mut Builder, component: Word, count: u32) -> (r: Word)
    ensures
        builder_model(*final(b)) == (BuilderModel {
            globals: builder_model(*final(b)).globals,
            ..builder_model(*old(b))
        }),
        dedup_declared(
            spirv_globals(*old(b)),
            spirv_globals(*final(b)),
            Inst::TypeVector { id: r, component, count },
            r,
        ),
{
    b.type_vector(component, count)
}

/// `Builder::type_matrix`: declares OpTypeMatrix, or reuses an identical declaration.
#[verifier::external_body]
pub(crate) fn builder_type_matrix(b: &mut Builder, column: Word, count: u32) -> (r: Word)
    ensures
        builder_model(*final(b)) == (BuilderModel {
            globals: builder_model(*final(b)).globals,
            ..builder_model(*old(b))
        }),
        dedup_declared(
            spirv_globals(*old(b)),
            spirv_globals(*final(b)),
            Inst::TypeMatrix { id: r, column, count },
            r,
        ),
{
    b.type_matrix(column, count)
}

/// `Builder::type_array`: declares OpTypeArray, or reuses an identical declaration.
#[verifier::external_body]
pub(crate) fn builder_type_array(b: &mut Builder, element: Word, length: Word) -> (r: Word)
    ensures
        builder_model(*final(b)) == (BuilderModel {
            globals: builder_model(*final(b)).globals,
            ..builder_model(*old(b))
        }),
        dedup_declared(
            spirv_globals(*old(b)),
            spirv_globals(*final(b)),
            Inst::TypeArray { id: r, element, length },
            r,
        ),
{
    b.type_array(element, length)
}

/// `Builder::type_struct`: declares OpTypeStruct with the given members, or gives the
/// id of the first identical type already declared.
#[verifier::external_body]
pub(crate) fn builder_type_struct(b: &mut Builder, members: &Vec<Word>) -> (r: Word)
    ensures
        builder_model(*final(b)) == (BuilderModel {
            globals: builder_model(*final(b)).globals,
            ..builder_model(*old(b))
        }),
        dedup_declared(
            spirv_globals(*old(b)),
            spirv_globals(*final(b)),
            Inst::TypeStruct { id: r, members: members@ },
            r,
        ),
{
    b.type_struct(members.iter().copied())
}

/// `Builder::type_struct_id` with an explicit result id: always appends the
/// OpTypeStruct with that id.
#[verifier::external_body]
pub(crate) fn builder_type_struct_id(b: &mut Builder, id: Word, members: &Vec<Word>) -> (r: Word)
    ensures
        r == id,
        builder_model(*final(b)) == (BuilderModel {
            globals: builder_model(*old(b)).globals.push(Inst::TypeStruct { id, members: members@ }),
            ..builder_model(*old(b))
        }),
{
    b.type_struct_id(Some(id), members.iter().copied())
}

/// `Builder::type_pointer` without a result id: declares OpTypePointer, or reuses an
/// identical declaration.
#[verifier::external_body]
pub(crate) fn builder_type_pointer(
    b: &mut Builder,
    storage_class: StorageClass,
    pointee: Word,
) -> (r: Word)
    ensures
        builder_model(*final(b)) == (BuilderModel {
            globals: builder_model(*final(b)).globals,
            ..builder_model(*old(b))
        }),
        dedup_declared(
            spirv_globals(*old(b)),
            spirv_globals(*final(b)),
            Inst::TypePointer { id: r, storage_class, pointee },
            r,
        ),
{
    let sc = match storage_class {
        StorageClass::UniformConstant => spirv::StorageClass::UniformConstant,
        StorageClass::Input => spirv::StorageClass::Input,
        StorageClass::Uniform => spirv::StorageClass::Uniform,
        StorageClass::Output => spirv::StorageClass::Output,
        StorageClass::Workgroup => spirv::StorageClass::Workgroup,
        StorageClass::CrossWorkgroup => spirv::StorageClass::CrossWorkgroup,
        StorageClass::Private => spirv::StorageClass::Private,
        StorageClass::Function => spirv::StorageClass::Function,
        StorageClass::Generic => spirv::StorageClass::Generic,
        StorageClass::PushConstant => spirv::StorageClass::PushConstant,
        StorageClass::AtomicCounter => spirv::StorageClass::AtomicCounter,
        StorageClass::Image => spirv::StorageClass::Image,
    };
    b.type_pointer(None, sc, pointee)
}

/// `Builder::type_function`: declares OpTypeFunction, or reuses an identical declaration.
#[verifier::external_body]
pub(crate) fn builder_type_function(
    b: &mut Builder,
    return_type: Word,
    parameters: &Vec<Word>,
) -> (r: Word)
    ensures
        builder_model(*final(b)) == (BuilderModel {
            globals: builder_model(*final(b)).globals,
            ..builder_model(*old(b))
        }),
        dedup_declared(
            spirv_globals(*old(b)),
            spirv_globals(*final(b)),
            Inst::TypeFunction { id: r, return_type, parameters: parameters@ },
            r,
        ),
{
    b.type_function(return_type, parameters.iter().copied())
}

/// `Builder::constant_bit32`: appends an OpConstant with the given bit pattern.
#[verifier::external_body]
pub(crate) fn builder_constant_bit32(b: &mut Builder, result_type: Word, bits: u32) -> (r: Word)
    ensures
        builder_model(*final(b)) == (BuilderModel {
            globals: builder_model(*old(b)).globals.push(
                Inst::Constant { id: r, result_type, bits },
            ),
            ..builder_model(*old(b))
        }),
{
    b.constant_bit32(result_type, bits)
}

/// `Builder::variable` without initializer: appends an OpVariable to the selected
/// block when one is being built, otherwise to the module's global values.
#[verifier::external_body]
pub(crate) fn builder_variable(b: &mut Builder, result_type: Word, storage_class: StorageClass) -> (r: Word)
    requires
        builder_model(*old(b)).selection_valid(),
    ensures
        ({
            let before = builder_model(*old(b));
            let var = Inst::Variable { id: r, result_type, storage_class };
            if before.in_block() {
                builder_model(*final(b)) == before.with_block(before.block.push(var))
            } else {
                builder_model(*final(b)) == (BuilderModel { globals: before.globals.push(var), ..before })
            }
        }),
{
    let sc = match storage_class {
        StorageClass::UniformConstant => spirv::StorageClass::UniformConstant,
        StorageClass::Input => spirv::StorageClass::Input,
        StorageClass::Uniform => spirv::StorageClass::Uniform,
        StorageClass::Output => spirv::StorageClass::Output,
        StorageClass::Workgroup => spirv::StorageClass::Workgroup,
        StorageClass::CrossWorkgroup => spirv::StorageClass::CrossWorkgroup,
        StorageClass::Private => spirv::StorageClass::Private,
        StorageClass::Function => spirv::StorageClass::Function,
        StorageClass::Generic => spirv::StorageClass::Generic,
        StorageClass::PushConstant => spirv::StorageClass::PushConstant,
        StorageClass::AtomicCounter => spirv::StorageClass::AtomicCounter,
        StorageClass::Image => spirv::StorageClass::Image,
    };
    b.variable(result_type, None, sc, None)
}

/// `Builder::name`: appends an OpName.
#[verifier::external_body]
pub(crate) fn builder_name(b: &mut Builder, target: Word, name: &str)
    ensures
        builder_model(*final(b)) == (BuilderModel {
            debug_names: builder_model(*old(b)).debug_names.push(Inst::Name { target, name: name@ }),
            ..builder_model(*old(b))
        }),
{
    b.name(target, name)
}

/// `Builder::member_name`: appends an OpMemberName.
#[verifier::external_body]
pub(crate) fn builder_member_name(b: &mut Builder, target: Word, member: u32, name: &str)
    ensures
        builder_model(*final(b)) == (BuilderModel {
            debug_names: builder_model(*old(b)).debug_names.push(
                Inst::MemberName { target, member, name: name@ },
            ),
            ..builder_model(*old(b))
        }),
{
    b.member_name(target, member, name)
}

/// `Builder::decorate`: appends an OpDecorate; its literal operand, where the
/// decoration has one, is the decoration's value.
#[verifier::external_body]
pub(crate) fn builder_decorate(b: &mut Builder, target: Word, decoration: Decoration)
    requires
        !(decoration is BuiltIn),
    ensures
        builder_model(*final(b)) == (BuilderModel {
            annotations: builder_model(*old(b)).annotations.push(
                Inst::Decorate { target, decoration },
            ),
            ..builder_model(*old(b))
        }),
{
    let (d, value) = match decoration {
        Decoration::Block => (spirv::Decoration::Block, None),
        Decoration::ColMajor => (spirv::Decoration::ColMajor, None),
        Decoration::MatrixStride(v) => (spirv::Decoration::MatrixStride, Some(v)),
        Decoration::Location(v) => (spirv::Decoration::Location, Some(v)),
        Decoration::Binding(v) => (spirv::Decoration::Binding, Some(v)),
        Decoration::DescriptorSet(v) => (spirv::Decoration::DescriptorSet, Some(v)),
        Decoration::Offset(v) => (spirv::Decoration::Offset, Some(v)),
        Decoration::BuiltIn(_) => (spirv::Decoration::BuiltIn, None),
    };
    b.decorate(target, d, value.map(Operand::LiteralBit32))
}

/// `Builder::decorate` with the BuiltIn decoration: appends an OpDecorate whose operand
/// is the built-in.
#[verifier::external_body]
pub(crate) fn builder_decorate_built_in(b: &mut Builder, target: Word, built_in: BuiltIn)
    ensures
        builder_model(*final(b)) == (BuilderModel {
            annotations: builder_model(*old(b)).annotations.push(
                Inst::Decorate { target, decoration: Decoration::BuiltIn(built_in) },
            ),
            ..builder_model(*old(b))
        }),
{
    let x = match built_in {
        BuiltIn::Position => spirv::BuiltIn::Position,
        BuiltIn::PointSize => spirv::BuiltIn::PointSize,
        BuiltIn::ClipDistance => spirv::BuiltIn::ClipDistance,
        BuiltIn::CullDistance => spirv::BuiltIn::CullDistance,
    };
    b.decorate(target, spirv::Decoration::BuiltIn, [Operand::BuiltIn(x)])
}

/// `Builder::member_decorate`: appends an OpMemberDecorate; its literal operand, where
/// the decoration has one, is the decoration's value.
#[verifier::external_body]
pub(crate) fn builder_member_decorate(
    b: &mut Builder,
    target: Word,
    member: u32,
    decoration: Decoration,
)
    requires
        !(decoration is BuiltIn),
    ensures
        builder_model(*final(b)) == (BuilderModel {
            annotations: builder_model(*old(b)).annotations.push(
                Inst::MemberDecorate { target, member, decoration },
            ),
            ..builder_model(*old(b))
        }),
{
    let (d, value) = match decoration {
        Decoration::Block => (spirv::Decoration::Block, None),
        Decoration::ColMajor => (spirv::Decoration::ColMajor, None),
        Decoration::MatrixStride(v) => (spirv::Decoration::MatrixStride, Some(v)),
        Decoration::Location(v) => (spirv::Decoration::Location, Some(v)),
        Decoration::Binding(v) => (spirv::Decoration::Binding, Some(v)),
        Decoration::DescriptorSet(v) => (spirv::Decoration::DescriptorSet, Some(v)),
        Decoration::Offset(v) => (spirv::Decoration::Offset, Some(v)),
        Decoration::BuiltIn(_) => (spirv::Decoration::BuiltIn, None),
    };
    b.member_decorate(target, member, d, value.map(Operand::LiteralBit32))
}

/// `Builder::member_decorate` with the BuiltIn decoration: appends an OpMemberDecorate
/// whose operand is the built-in.
#[verifier::external_body]
pub(crate) fn builder_member_decorate_built_in(b: &mut Builder, target: Word, member: u32, built_in: BuiltIn)
    ensures
        builder_model(*final(b)) == (BuilderModel {
            annotations: builder_model(*old(b)).annotations.push(
                Inst::MemberDecorate { target, member, decoration: Decoration::BuiltIn(built_in) },
            ),
            ..builder_model(*old(b))
        }),
{
    let x = match built_in {
        BuiltIn::Position => spirv::BuiltIn::Position,
        BuiltIn::PointSize => spirv::BuiltIn::PointSize,
        BuiltIn::ClipDistance => spirv::BuiltIn::ClipDistance,
        BuiltIn::CullDistance => spirv::BuiltIn::CullDistance,
    };
    b.member_decorate(target, member, spirv::Decoration::BuiltIn, [Operand::BuiltIn(x)])
}

/// `Builder::entry_point`: appends an OpEntryPoint.
#[verifier::external_body]
pub(crate) fn builder_entry_point(
    b: &mut Builder,
    model: ExecutionModel,
    function: Word,
    name: &str,
    interface: &Vec<Word>,
)
    ensures
        builder_model(*final(b)) == (BuilderModel {
            entry_points: builder_model(*old(b)).entry_points.push(
                Inst::EntryPoint { model, function, name: name@, interface: interface@ },
            ),
            ..builder_model(*old(b))
        }),
{
    let model = match model {
        ExecutionModel::Vertex => spirv::ExecutionModel::Vertex,
        ExecutionModel::Fragment => spirv::ExecutionModel::Fragment,
    };
    b.entry_point(model, function, name, interface.as_slice())
}

/// `Builder::begin_function` (no function control, no given id), called with a valid
/// selection: fails when a function is already being built; otherwise adds the new
/// function, with no block, and selects it. Nothing else changes.
#[verifier::external_body]
pub(crate) fn builder_begin_function(b: &mut Builder, return_type: Word, function_type: Word) -> (r:
    Option<Word>)
    requires
        builder_model(*old(b)).selection_valid(),
    ensures
        r is None <==> builder_model(*old(b)).in_function(),
        r is None ==> builder_model(*final(b)) == builder_model(*old(b)),
        r is Some ==> ({
            let before = builder_model(*old(b));
            let after = builder_model(*final(b));
            &&& after == (BuilderModel {
                functions: before.functions.push(FunctionModel {
                    def: Inst::Function { id: r->0, return_type, function_type },
                    blocks: Seq::empty(),
                    ended: false,
                }),
                selection: after.selection,
                block: Seq::empty(),
                ..before
            })
            &&& after.selection.len() == 2
            &&& after.selection[0] matches Some(k) && k == before.functions.len()
            &&& after.selection[1] is None
        }),
{
    b.begin_function(return_type, None, spirv::FunctionControl::NONE, function_type).ok()
}

/// `Builder::begin_block` (no given label id): fails when no function is being built or a block
/// already is; otherwise adds a new, empty block to the selected function and selects it.
#[verifier::external_body]
pub(crate) fn builder_begin_block(b: &mut Builder) -> (r: Option<Word>)
    requires
        builder_model(*old(b)).selection_valid(),
    ensures
        r is None <==> !builder_model(*old(b)).in_function() || spirv_selection(*old(b))[1] is Some,
        r is None ==> builder_model(*final(b)) == builder_model(*old(b)),
        r is Some ==> ({
            let before = builder_model(*old(b));
            let after = builder_model(*final(b));
            let f = before.selection[0]->0 as int;
            &&& after == (BuilderModel {
                functions: before.functions.update(
                    f,
                    FunctionModel { blocks: before.functions[f].blocks.push(Seq::empty()), ..before.functions[f] },
                ),
                selection: after.selection,
                block: Seq::empty(),
                ..before
            })
            &&& after.selection.len() == 2
            &&& after.selection[0] == before.selection[0]
            &&& after.selection[1] matches Some(k) && k == before.functions[f].blocks.len()
        }),
{
    b.begin_block(None).ok()
}

/// The effect of appending `inst` to the selected block, which fails (changing nothing
/// but the id counter) when no block is being built.
pub open spec fn block_appended(before: BuilderModel, after: BuilderModel, ok: bool, inst: Inst) -> bool {
    &&& ok <==> before.in_block()
    &&& ok ==> after == before.with_block(before.block.push(inst))
    &&& !ok ==> after == before
}

/// `Builder::access_chain`: appends an OpAccessChain to the selected block.
#[verifier::external_body]
pub(crate) fn builder_access_chain(
    b: &mut Builder,
    result_type: Word,
    base: Word,
    indexes: &Vec<Word>,
) -> (r: Option<Word>)
    requires
        builder_model(*old(b)).selection_valid(),
    ensures
        block_appended(builder_model(*old(b)), builder_model(*final(b)), r is Some,
            Inst::AccessChain { id: r->0, result_type, base, indexes: indexes@ }),
{
    b.access_chain(result_type, None, base, indexes.iter().copied()).ok()
}

/// `Builder::load` (no memory access): appends an OpLoad to the selected block.
#[verifier::external_body]
pub(crate) fn builder_load(b: &mut Builder, result_type: Word, pointer: Word) -> (r: Option<Word>)
    requires
        builder_model(*old(b)).selection_valid(),
    ensures
        block_appended(builder_model(*old(b)), builder_model(*final(b)), r is Some,
            Inst::Load { id: r->0, result_type, pointer }),
{
    b.load(result_type, None, pointer, None, Vec::<Operand>::new()).ok()
}

/// `Builder::store` (no memory access): appends an OpStore to the selected block.
#[verifier::external_body]
pub(crate) fn builder_store(b: &mut Builder, pointer: Word, object: Word) -> (r: bool)
    requires
        builder_model(*old(b)).selection_valid(),
    ensures
        block_appended(builder_model(*old(b)), builder_model(*final(b)), r,
            Inst::Store { pointer, object }),
{
    b.store(pointer, object, None, Vec::<Operand>::new()).is_ok()
}

/// `Builder::matrix_times_matrix`: appends an OpMatrixTimesMatrix to the selected block.
#[verifier::external_body]
pub(crate) fn builder_matrix_times_matrix(
    b: &mut Builder,
    result_type: Word,
    left: Word,
    right: Word,
) -> (r: Option<Word>)
    requires
        builder_model(*old(b)).selection_valid(),
    ensures
        block_appended(builder_model(*old(b)), builder_model(*final(b)), r is Some,
            Inst::MatrixTimesMatrix { id: r->0, result_type, left, right }),
{
    b.matrix_times_matrix(result_type, None, left, right).ok()
}

/// `Builder::matrix_times_vector`: appends an OpMatrixTimesVector to the selected block.
#[verifier::external_body]
pub(crate) fn builder_matrix_times_vector(
    b: &mut Builder,
    result_type: Word,
    matrix: Word,
    vector: Word,
) -> (r: Option<Word>)
    requires
        builder_model(*old(b)).selection_valid(),
    ensures
        block_appended(builder_model(*old(b)), builder_model(*final(b)), r is Some,
            Inst::MatrixTimesVector { id: r->0, result_type, matrix, vector }),
{
    b.matrix_times_vector(result_type, None, matrix, vector).ok()
}

/// `Builder::transpose`: appends an OpTranspose to the selected block.
#[verifier::external_body]
pub(crate) fn builder_transpose(b: &mut Builder, result_type: Word, matrix: Word) -> (r: Option<Word>)
    requires
        builder_model(*old(b)).selection_valid(),
    ensures
        block_appended(builder_model(*old(b)), builder_model(*final(b)), r is Some,
            Inst::Transpose { id: r->0, result_type, matrix }),
{
    b.transpose(result_type, None, matrix).ok()
}

/// `Builder::composite_extract`: appends an OpCompositeExtract to the selected block.
#[verifier::external_body]
pub(crate) fn builder_composite_extract(
    b: &mut Builder,
    result_type: Word,
    composite: Word,
    indexes: &Vec<u32>,
) -> (r: Option<Word>)
    requires
        builder_model(*old(b)).selection_valid(),
    ensures
        block_appended(builder_model(*old(b)), builder_model(*final(b)), r is Some,
            Inst::CompositeExtract { id: r->0, result_type, composite, literals: indexes@ }),
{
    b.composite_extract(result_type, None, composite, indexes.iter().copied()).ok()
}

/// `Builder::composite_construct`: appends an OpCompositeConstruct to the selected block.
#[verifier::external_body]
pub(crate) fn builder_composite_construct(
    b: &mut Builder,
    result_type: Word,
    constituents: &Vec<Word>,
) -> (r: Option<Word>)
    requires
        builder_model(*old(b)).selection_valid(),
    ensures
        block_appended(builder_model(*old(b)), builder_model(*final(b)), r is Some,
            Inst::CompositeConstruct { id: r->0, result_type, constituents: constituents@ }),
{
    b.composite_construct(result_type, None, constituents.iter().copied()).ok()
}

/// The effect of the block terminator `term`: with a block being built, `term` ends
/// it and the block is deselected; without one the call fails and changes nothing.
pub open spec fn block_ended(before: BuilderModel, after: BuilderModel, ok: bool, term: Inst) -> bool {
    &&& ok <==> before.in_block()
    &&& ok ==> after == (BuilderModel {
        selection: seq![before.selection[0], None],
        block: Seq::empty(),
        ..before.with_block(before.block.push(term))
    })
    &&& !ok ==> after == before
}

/// `Builder::ret`: ends the selected block with OpReturn.
#[verifier::external_body]
pub(crate) fn builder_ret(b: &mut Builder) -> (r: bool)
    requires
        builder_model(*old(b)).selection_valid(),
    ensures
        block_ended(builder_model(*old(b)), builder_model(*final(b)), r, Inst::Return),
{
    b.ret().is_ok()
}

/// `Builder::ret_value`: ends the selected block with OpReturnValue.
#[verifier::external_body]
pub(crate) fn builder_ret_value(b: &mut Builder, value: Word) -> (r: bool)
    requires
        builder_model(*old(b)).selection_valid(),
    ensures
        block_ended(builder_model(*old(b)), builder_model(*final(b)), r, Inst::ReturnValue { value }),
{
    b.ret_value(value).is_ok()
}

/// `Builder::end_function`, called while no block is selected: marks the selected
/// function ended and deselects it; fails when no function is being built.
#[verifier::external_body]
pub(crate) fn builder_end_function(b: &mut Builder) -> (r: bool)
    requires
        builder_model(*old(b)).selection_valid(),
        spirv_selection(*old(b))[1] is None,
    ensures
        r <==> builder_model(*old(b)).in_function(),
        r ==> ({
            let before = builder_model(*old(b));
            let f = before.selection[0]->0 as int;
            builder_model(*final(b)) == (BuilderModel {
                functions: before.functions.update(f, FunctionModel { ended: true, ..before.functions[f] }),
                selection: seq![None, None],
                ..before
            })
        }),
        !r ==> builder_model(*final(b)) == builder_model(*old(b)),
{
    b.end_function().is_ok()
}

/// What a module holds, section by section.
pub uninterp spec fn spirv_module(m: Module) -> ModuleModel;

/// `Builder::module`: the module built so far, its sections those of the builder (the
/// call only sets the header's id bound, which the model does not hold).
#[verifier::external_body]
pub(crate) fn builder_module(b: Builder) -> (r: Module)
    ensures
        spirv_module(r) == builder_model(b).sections(),
{
    b.module()
}

} // verus!
