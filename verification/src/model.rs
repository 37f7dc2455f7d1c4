//! The plain-value model of the SPIR-V instructions this library emits.
//!
//! A module under construction is described section by section as sequences
//! of [`Inst`]; enumerants are the library's own enums, each carrying the
//! numeric code that the SPIR-V specification assigns to it.
use crate::storage_class::StorageClass;
use vstd::prelude::*;

verus! {

/// The SPIR-V result-id type.
pub type Word = u32;

/// Built-in variables that this library decorates.
#[derive(PartialEq, Eq, Structural, Clone, Copy, Debug)]
pub enum BuiltIn {
    Position,
    PointSize,
    ClipDistance,
    CullDistance,
}

impl BuiltIn {
    /// The SPIR-V enumerant of the built-in.
    pub open spec fn spec_code(self) -> u32 {
        match self {
            BuiltIn::Position => 0,
            BuiltIn::PointSize => 1,
            BuiltIn::ClipDistance => 3,
            BuiltIn::CullDistance => 4,
        }
    }
}

/// Decorations, with their literal operands.
#[derive(PartialEq, Eq, Structural, Clone, Copy, Debug)]
pub enum Decoration {
    Block,
    ColMajor,
    MatrixStride(u32),
    BuiltIn(BuiltIn),
    Location(u32),
    Binding(u32),
    DescriptorSet(u32),
    Offset(u32),
}

/// Capabilities declared by the shaders of this library.
#[derive(PartialEq, Eq, Structural, Clone, Copy, Debug)]
pub enum Capability {
    Shader,
}

/// Addressing models.
#[derive(PartialEq, Eq, Structural, Clone, Copy, Debug)]
pub enum AddressingModel {
    Logical,
}

/// Memory models.
#[derive(PartialEq, Eq, Structural, Clone, Copy, Debug)]
pub enum MemoryModel {
    Glsl450,
}

/// Execution models of entry points.
#[derive(PartialEq, Eq, Structural, Clone, Copy, Debug)]
pub enum ExecutionModel {
    Vertex,
    Fragment,
}

impl ExecutionModel {
    /// The SPIR-V enumerant of the execution model.
    pub open spec fn spec_code(self) -> u32 {
        match self {
            ExecutionModel::Vertex => 0,
            ExecutionModel::Fragment => 4,
        }
    }
}

/// One instruction of a module, as plain values.
///
/// `Other` stands for any instruction this library never emits.
pub enum Inst {
    Capability { capability: Capability },
    ExtInstImport { id: Word, name: Seq<char> },
    MemoryModel { addressing: AddressingModel, memory: MemoryModel },
    EntryPoint { model: ExecutionModel, function: Word, name: Seq<char>, interface: Seq<Word> },
    Name { target: Word, name: Seq<char> },
    MemberName { target: Word, member: u32, name: Seq<char> },
    Decorate { target: Word, decoration: Decoration },
    MemberDecorate { target: Word, member: u32, decoration: Decoration },
    TypeVoid { id: Word },
    TypeBool { id: Word },
    TypeInt { id: Word, width: u32, signedness: u32 },
    TypeFloat { id: Word, width: u32 },
    TypeVector { id: Word, component: Word, count: u32 },
    TypeMatrix { id: Word, column: Word, count: u32 },
    TypeArray { id: Word, element: Word, length: Word },
    TypeStruct { id: Word, members: Seq<Word> },
    TypePointer { id: Word, storage_class: StorageClass, pointee: Word },
    TypeFunction { id: Word, return_type: Word, parameters: Seq<Word> },
    Constant { id: Word, result_type: Word, bits: u32 },
    Variable { id: Word, result_type: Word, storage_class: StorageClass },
    AccessChain { id: Word, result_type: Word, base: Word, indexes: Seq<Word> },
    Load { id: Word, result_type: Word, pointer: Word },
    Store { pointer: Word, object: Word },
    MatrixTimesMatrix { id: Word, result_type: Word, left: Word, right: Word },
    MatrixTimesVector { id: Word, result_type: Word, matrix: Word, vector: Word },
    Transpose { id: Word, result_type: Word, matrix: Word },
    CompositeExtract { id: Word, result_type: Word, composite: Word, literals: Seq<u32> },
    CompositeConstruct { id: Word, result_type: Word, constituents: Seq<Word> },
    /// The start of a function (with no function control).
    Function { id: Word, return_type: Word, function_type: Word },
    Return,
    ReturnValue { value: Word },
    Other,
}

impl Inst {
    /// Whether the instruction declares a type.
    pub open spec fn is_type(self) -> bool {
        ||| self is TypeVoid
        ||| self is TypeBool
        ||| self is TypeInt
        ||| self is TypeFloat
        ||| self is TypeVector
        ||| self is TypeMatrix
        ||| self is TypeArray
        ||| self is TypeStruct
        ||| self is TypePointer
        ||| self is TypeFunction
    }

    /// The result id of a declaration (0 for instructions without one).
    pub open spec fn result_id(self) -> Word {
        match self {
            Inst::ExtInstImport { id, .. } => id,
            Inst::TypeVoid { id } => id,
            Inst::TypeBool { id } => id,
            Inst::TypeInt { id, .. } => id,
            Inst::TypeFloat { id, .. } => id,
            Inst::TypeVector { id, .. } => id,
            Inst::TypeMatrix { id, .. } => id,
            Inst::TypeArray { id, .. } => id,
            Inst::TypeStruct { id, .. } => id,
            Inst::TypePointer { id, .. } => id,
            Inst::TypeFunction { id, .. } => id,
            Inst::Constant { id, .. } => id,
            Inst::Variable { id, .. } => id,
            Inst::AccessChain { id, .. } => id,
            Inst::Load { id, .. } => id,
            Inst::MatrixTimesMatrix { id, .. } => id,
            Inst::MatrixTimesVector { id, .. } => id,
            Inst::Transpose { id, .. } => id,
            Inst::CompositeExtract { id, .. } => id,
            Inst::CompositeConstruct { id, .. } => id,
            Inst::Function { id, .. } => id,
            _ => 0,
        }
    }

    /// The instruction with its result id replaced by 0.
    pub open spec fn without_id(self) -> Inst {
        match self {
            Inst::TypeVoid { .. } => Inst::TypeVoid { id: 0 },
            Inst::TypeBool { .. } => Inst::TypeBool { id: 0 },
            Inst::TypeInt { width, signedness, .. } => Inst::TypeInt { id: 0, width, signedness },
            Inst::TypeFloat { width, .. } => Inst::TypeFloat { id: 0, width },
            Inst::TypeVector { component, count, .. } => Inst::TypeVector {
                id: 0,
                component,
                count,
            },
            Inst::TypeMatrix { column, count, .. } => Inst::TypeMatrix { id: 0, column, count },
            Inst::TypeArray { element, length, .. } => Inst::TypeArray { id: 0, element, length },
            Inst::TypeStruct { members, .. } => Inst::TypeStruct { id: 0, members },
            Inst::TypePointer { storage_class, pointee, .. } => Inst::TypePointer {
                id: 0,
                storage_class,
                pointee,
            },
            Inst::TypeFunction { return_type, parameters, .. } => Inst::TypeFunction {
                id: 0,
                return_type,
                parameters,
            },
            _ => self,
        }
    }

    /// Same opcode and operands as the type declaration `ty`, whatever the result ids.
    pub open spec fn same_type_as(self, ty: Inst) -> bool {
        ty.is_type() && self.without_id() == ty.without_id()
    }
}

/// Index of the first declaration in `globals` identical to the type `ty`, if any.
pub open spec fn first_identical(globals: Seq<Inst>, ty: Inst) -> Option<int>
    decreases globals.len(),
{
    if globals.len() == 0 {
        None
    } else {
        match first_identical(globals.drop_last(), ty) {
            Some(i) => Some(i),
            None => if globals.last().same_type_as(ty) {
                Some(globals.len() - 1)
            } else {
                None
            },
        }
    }
}

/// The effect of declaring the type `ty` (whose result id is `r`) with deduplication:
/// an identical earlier declaration is reused, otherwise `ty` is appended.
pub open spec fn dedup_declared(before: Seq<Inst>, after: Seq<Inst>, ty: Inst, r: Word) -> bool {
    match first_identical(before, ty) {
        Some(i) => r == before[i].result_id() && after == before,
        None => after == before.push(ty) && ty.result_id() == r,
    }
}

/// A function of a module under construction: its definition, the instructions of
/// each of its blocks (labels left out), and whether it has been ended.
pub struct FunctionModel {
    pub def: Inst,
    pub blocks: Seq<Seq<Inst>>,
    pub ended: bool,
}

/// The instructions of the block that `selection` selects among `functions` (empty
/// when none is selected).
pub open spec fn selected_block(functions: Seq<FunctionModel>, selection: Seq<Option<usize>>) -> Seq<Inst> {
    if selection.len() == 2 && selection[0] is Some && selection[1] is Some && selection[0]->0
        < functions.len() && selection[1]->0 < functions[selection[0]->0 as int].blocks.len() {
        functions[selection[0]->0 as int].blocks[selection[1]->0 as int]
    } else {
        Seq::empty()
    }
}

/// The sections of a module under construction, as plain values.
pub struct BuilderModel {
    pub capabilities: Seq<Inst>,
    pub ext_inst_imports: Seq<Inst>,
    pub memory_model: Seq<Inst>,
    pub entry_points: Seq<Inst>,
    pub debug_names: Seq<Inst>,
    pub annotations: Seq<Inst>,
    pub globals: Seq<Inst>,
    /// The functions, in order.
    pub functions: Seq<FunctionModel>,
    /// The selected function and the selected block.
    pub selection: Seq<Option<usize>>,
    /// The instructions of the block under construction (empty when none is).
    pub block: Seq<Inst>,
}

/// The sections of a finished module, as plain values.
pub struct ModuleModel {
    pub capabilities: Seq<Inst>,
    pub ext_inst_imports: Seq<Inst>,
    pub memory_model: Seq<Inst>,
    pub entry_points: Seq<Inst>,
    pub debug_names: Seq<Inst>,
    pub annotations: Seq<Inst>,
    pub globals: Seq<Inst>,
    pub functions: Seq<FunctionModel>,
}

impl BuilderModel {
    /// A fresh module: every section empty, nothing selected.
    pub open spec fn empty() -> BuilderModel {
        BuilderModel {
            capabilities: Seq::empty(),
            ext_inst_imports: Seq::empty(),
            memory_model: Seq::empty(),
            entry_points: Seq::empty(),
            debug_names: Seq::empty(),
            annotations: Seq::empty(),
            globals: Seq::empty(),
            functions: Seq::empty(),
            selection: seq![None, None],
            block: Seq::empty(),
        }
    }

    /// The sections of the module, without what is under construction.
    pub open spec fn sections(self) -> ModuleModel {
        ModuleModel {
            capabilities: self.capabilities,
            ext_inst_imports: self.ext_inst_imports,
            memory_model: self.memory_model,
            entry_points: self.entry_points,
            debug_names: self.debug_names,
            annotations: self.annotations,
            globals: self.globals,
            functions: self.functions,
        }
    }

    /// A function is being built.
    pub open spec fn in_function(self) -> bool {
        self.selection.len() == 2 && self.selection[0] is Some
    }

    /// A block of a function is being built.
    pub open spec fn in_block(self) -> bool {
        self.selection.len() == 2 && self.selection[0] is Some && self.selection[1] is Some
    }

    /// The selection is in range: a selected block belongs to a selected function, and
    /// both indices point into the module.
    pub open spec fn selection_valid(self) -> bool {
        &&& self.selection.len() == 2
        &&& (self.selection[1] is Some ==> self.selection[0] is Some)
        &&& (self.selection[0] is Some ==> self.selection[0]->0 < self.functions.len())
        &&& (self.selection[0] is Some && self.selection[1] is Some ==> self.selection[1]->0
            < self.functions[self.selection[0]->0 as int].blocks.len())
        &&& self.block == selected_block(self.functions, self.selection)
    }

    /// The module with the instructions of the selected block replaced by `blk`
    /// (unchanged when no block is selected).
    pub open spec fn with_block(self, blk: Seq<Inst>) -> BuilderModel {
        if self.in_block() {
            let f = self.selection[0]->0 as int;
            let j = self.selection[1]->0 as int;
            BuilderModel {
                functions: self.functions.update(
                    f,
                    FunctionModel { blocks: self.functions[f].blocks.update(j, blk), ..self.functions[f] },
                ),
                block: blk,
                ..self
            }
        } else {
            self
        }
    }

    /// Replacing the selected block by itself changes nothing.
    pub proof fn lemma_with_own_block(self)
        requires
            self.selection_valid(),
        ensures
            self.with_block(self.block) == self,
    {
        if self.in_block() {
            let f = self.selection[0]->0 as int;
            let j = self.selection[1]->0 as int;
            assert(self.functions[f].blocks.update(j, self.block) =~= self.functions[f].blocks);
            assert(self.functions.update(f, FunctionModel { blocks: self.functions[f].blocks, ..self.functions[f] })
                =~= self.functions);
        }
    }

    /// Replacing the selected block twice is replacing it once, by the second block.
    pub proof fn lemma_with_block_twice(self, x: Seq<Inst>, y: Seq<Inst>)
        requires
            self.selection_valid(),
        ensures
            self.with_block(x).with_block(y) == self.with_block(y),
            self.with_block(x).selection_valid(),
    {
        if self.in_block() {
            let f = self.selection[0]->0 as int;
            let j = self.selection[1]->0 as int;
            let m1 = self.with_block(x);
            assert(m1.functions[f].blocks.update(j, y) =~= self.functions[f].blocks.update(j, y));
            assert(m1.functions.update(f, FunctionModel { blocks: m1.functions[f].blocks.update(j, y), ..m1.functions[f] })
                =~= self.functions.update(f, FunctionModel { blocks: self.functions[f].blocks.update(j, y), ..self.functions[f] }));
        }
    }

    /// The module-level sections (everything outside function bodies) agree.
    pub open spec fn same_module_level(self, other: BuilderModel) -> bool {
        &&& self.capabilities == other.capabilities
        &&& self.ext_inst_imports == other.ext_inst_imports
        &&& self.memory_model == other.memory_model
        &&& self.entry_points == other.entry_points
        &&& self.debug_names == other.debug_names
        &&& self.annotations == other.annotations
        &&& self.globals == other.globals
    }

    /// `later` has every section of `self` as a prefix (sections only grow), and the
    /// same entry points.
    pub open spec fn grows_to(self, later: BuilderModel) -> bool {
        &&& self.capabilities.is_prefix_of(later.capabilities)
        &&& self.ext_inst_imports.is_prefix_of(later.ext_inst_imports)
        &&& self.memory_model == later.memory_model
        &&& self.entry_points == later.entry_points
        &&& self.debug_names.is_prefix_of(later.debug_names)
        &&& self.annotations.is_prefix_of(later.annotations)
        &&& self.globals.is_prefix_of(later.globals)
    }
}

} // verus!
