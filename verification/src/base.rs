//! A SPIR-V module under construction that declares each type and constant once, and
//! builds the declarations of GLSL structs and of the gl_PerVertex block.
use crate::builder::{
    builder_capability, builder_constant_bit32, builder_decorate, builder_ext_inst_import,
    builder_member_decorate, builder_member_decorate_built_in, builder_member_name, builder_memory_model, builder_model,
    builder_module, spirv_module, builder_name, builder_new, builder_type_array, builder_type_bool,
    builder_type_float, builder_type_int, builder_type_matrix, builder_type_pointer,
    builder_type_struct, builder_type_vector,
};
use crate::glsl_struct::{glsl_offset, glsl_type_size, GlslStruct, GlslStructMember, GlslType};
use crate::keys::words_eq;
use crate::model::{
    dedup_declared, AddressingModel, BuilderModel, BuiltIn, Capability, Decoration, FunctionModel,
    Inst, MemoryModel, Word,
};
use crate::shader::lemma_dedup_contains;
pub use crate::storage_class::StorageClass;
use rspirv::dr::{Builder, Module};
use vstd::prelude::*;

verus! {

/// Description of a SPIR-V type, used as a lookup key.
#[derive(Debug)]
pub enum BaseTypeKey {
    Bool,
    Float { width: u32 },
    UInt { width: u32 },
    Vector { component_type: Word, component_count: u32 },
    Array { element_type: Word, length: Word },
    Struct { field_types: Vec<Word> },
    Matrix { column_type: Word, column_count: u32 },
    Pointer { storage_class: StorageClass, pointee_type: Word },
}

/// A [`BaseTypeKey`] as plain values.
pub enum BaseTypeKeyModel {
    Bool,
    Float { width: u32 },
    UInt { width: u32 },
    Vector { component_type: Word, component_count: u32 },
    Array { element_type: Word, length: Word },
    Struct { field_types: Seq<Word> },
    Matrix { column_type: Word, column_count: u32 },
    Pointer { storage_class: StorageClass, pointee_type: Word },
}

impl View for BaseTypeKey {
    type V = BaseTypeKeyModel;

    open spec fn view(&self) -> BaseTypeKeyModel {
        match self {
            BaseTypeKey::Bool => BaseTypeKeyModel::Bool,
            BaseTypeKey::Float { width } => BaseTypeKeyModel::Float { width: *width },
            BaseTypeKey::UInt { width } => BaseTypeKeyModel::UInt { width: *width },
            BaseTypeKey::Vector { component_type, component_count } => BaseTypeKeyModel::Vector {
                component_type: *component_type,
                component_count: *component_count,
            },
            BaseTypeKey::Array { element_type, length } => BaseTypeKeyModel::Array {
                element_type: *element_type,
                length: *length,
            },
            BaseTypeKey::Struct { field_types } => BaseTypeKeyModel::Struct { field_types: field_types@ },
            BaseTypeKey::Matrix { column_type, column_count } => BaseTypeKeyModel::Matrix {
                column_type: *column_type,
                column_count: *column_count,
            },
            BaseTypeKey::Pointer { storage_class, pointee_type } => BaseTypeKeyModel::Pointer {
                storage_class: *storage_class,
                pointee_type: *pointee_type,
            },
        }
    }
}

impl BaseTypeKey {
    /// Whether two keys describe the same type.
    pub fn same(&self, other: &BaseTypeKey) -> (r: bool)
        ensures
            r == (self@ == other@),
    {
        match (self, other) {
            (BaseTypeKey::Bool, BaseTypeKey::Bool) => true,
            (BaseTypeKey::Float { width: a }, BaseTypeKey::Float { width: b }) => *a == *b,
            (BaseTypeKey::UInt { width: a }, BaseTypeKey::UInt { width: b }) => *a == *b,
            (
                BaseTypeKey::Vector { component_type: a, component_count: c },
                BaseTypeKey::Vector { component_type: b, component_count: d },
            ) => *a == *b && *c == *d,
            (
                BaseTypeKey::Array { element_type: a, length: c },
                BaseTypeKey::Array { element_type: b, length: d },
            ) => *a == *b && *c == *d,
            (BaseTypeKey::Struct { field_types: a }, BaseTypeKey::Struct { field_types: b }) => words_eq(a, b),
            (
                BaseTypeKey::Matrix { column_type: a, column_count: c },
                BaseTypeKey::Matrix { column_type: b, column_count: d },
            ) => *a == *b && *c == *d,
            (
                BaseTypeKey::Pointer { storage_class: a, pointee_type: c },
                BaseTypeKey::Pointer { storage_class: b, pointee_type: d },
            ) => *a == *b && *c == *d,
            _ => false,
        }
    }
}

/// The declaration of the type `key` under the id `id`.
pub open spec fn base_key_declaration(key: BaseTypeKeyModel, id: Word) -> Inst {
    match key {
        BaseTypeKeyModel::Bool => Inst::TypeBool { id },
        BaseTypeKeyModel::Float { width } => Inst::TypeFloat { id, width },
        BaseTypeKeyModel::UInt { width } => Inst::TypeInt { id, width, signedness: 0 },
        BaseTypeKeyModel::Vector { component_type, component_count } => Inst::TypeVector {
            id,
            component: component_type,
            count: component_count,
        },
        BaseTypeKeyModel::Array { element_type, length } => Inst::TypeArray { id, element: element_type, length },
        BaseTypeKeyModel::Struct { field_types } => Inst::TypeStruct { id, members: field_types },
        BaseTypeKeyModel::Matrix { column_type, column_count } => Inst::TypeMatrix {
            id,
            column: column_type,
            count: column_count,
        },
        BaseTypeKeyModel::Pointer { storage_class, pointee_type } => Inst::TypePointer {
            id,
            storage_class,
            pointee: pointee_type,
        },
    }
}

/// The id cached for `key`: that of the first entry with that key.
pub open spec fn base_lookup(cache: Seq<(BaseTypeKeyModel, Word)>, key: BaseTypeKeyModel) -> Option<Word>
    decreases cache.len(),
{
    if cache.len() == 0 {
        None
    } else {
        match base_lookup(cache.drop_last(), key) {
            Some(w) => Some(w),
            None => if cache.last().0 == key {
                Some(cache.last().1)
            } else {
                None
            },
        }
    }
}

/// A key that the cache does not give is under no entry.
proof fn lemma_base_lookup_absent(cache: Seq<(BaseTypeKeyModel, Word)>, key: BaseTypeKeyModel)
    requires
        base_lookup(cache, key) is None,
    ensures
        forall|i: int| 0 <= i < cache.len() ==> #[trigger] cache[i].0 != key,
    decreases cache.len(),
{
    if cache.len() > 0 {
        lemma_base_lookup_absent(cache.drop_last(), key);
        assert forall|i: int| 0 <= i < cache.len() implies #[trigger] cache[i].0 != key by {
            if i < cache.len() - 1 {
                assert(cache[i] == cache.drop_last()[i]);
            }
        }
    }
}

/// A key that the cache does not give is under no entry.
proof fn lemma_constant_lookup_absent(cache: Seq<((Word, u32), Word)>, key: (Word, u32))
    requires
        constant_lookup(cache, key) is None,
    ensures
        forall|i: int| 0 <= i < cache.len() ==> #[trigger] cache[i].0 != key,
    decreases cache.len(),
{
    if cache.len() > 0 {
        lemma_constant_lookup_absent(cache.drop_last(), key);
        assert forall|i: int| 0 <= i < cache.len() implies #[trigger] cache[i].0 != key by {
            if i < cache.len() - 1 {
                assert(cache[i] == cache.drop_last()[i]);
            }
        }
    }
}

/// The id cached for the constant of type `result_type` and value `value`.
pub open spec fn constant_lookup(cache: Seq<((Word, u32), Word)>, key: (Word, u32)) -> Option<Word>
    decreases cache.len(),
{
    if cache.len() == 0 {
        None
    } else {
        match constant_lookup(cache.drop_last(), key) {
            Some(w) => Some(w),
            None => if cache.last().0 == key {
                Some(cache.last().1)
            } else {
                None
            },
        }
    }
}

pub proof fn lemma_base_lookup_extend(a: Seq<(BaseTypeKeyModel, Word)>, b: Seq<(BaseTypeKeyModel, Word)>, key: BaseTypeKeyModel)
    requires
        a.is_prefix_of(b),
        base_lookup(a, key) is Some,
    ensures
        base_lookup(b, key) == base_lookup(a, key),
    decreases b.len(),
{
    if b.len() > a.len() {
        assert(a.is_prefix_of(b.drop_last()));
        lemma_base_lookup_extend(a, b.drop_last(), key);
    } else {
        assert(a =~= b);
    }
}

pub proof fn lemma_constant_lookup_extend(a: Seq<((Word, u32), Word)>, b: Seq<((Word, u32), Word)>, key: (Word, u32))
    requires
        a.is_prefix_of(b),
        constant_lookup(a, key) is Some,
    ensures
        constant_lookup(b, key) == constant_lookup(a, key),
    decreases b.len(),
{
    if b.len() > a.len() {
        assert(a.is_prefix_of(b.drop_last()));
        lemma_constant_lookup_extend(a, b.drop_last(), key);
    } else {
        assert(a =~= b);
    }
}

proof fn lemma_base_lookup_prefix(cache: Seq<(BaseTypeKeyModel, Word)>, n: int, key: BaseTypeKeyModel)
    requires
        0 < n <= cache.len(),
        base_lookup(cache.take(n - 1), key) is None,
        cache[n - 1].0 == key,
    ensures
        base_lookup(cache, key) == Some(cache[n - 1].1),
    decreases cache.len() - n,
{
    assert(cache.take(n).drop_last() =~= cache.take(n - 1));
    if n < cache.len() {
        assert(cache.take(n + 1).drop_last() =~= cache.take(n));
        lemma_base_lookup_extend(cache.take(n), cache, key);
    } else {
        assert(cache.take(n) =~= cache);
    }
}

proof fn lemma_constant_lookup_prefix(cache: Seq<((Word, u32), Word)>, n: int, key: (Word, u32))
    requires
        0 < n <= cache.len(),
        constant_lookup(cache.take(n - 1), key) is None,
        cache[n - 1].0 == key,
    ensures
        constant_lookup(cache, key) == Some(cache[n - 1].1),
{
    assert(cache.take(n).drop_last() =~= cache.take(n - 1));
    if n < cache.len() {
        lemma_constant_lookup_extend(cache.take(n), cache, key);
    } else {
        assert(cache.take(n) =~= cache);
    }
}

/// A SPIR-V module under construction that declares each type and constant once.
pub struct SpirvShaderBase {
    /// Internal builder
    builder: Builder,
    /// gl_PerVertex cache
    gl_per_vertex: Option<Word>,
    /// Cached types, to only initialize each type once.
    type_cache: Vec<(BaseTypeKey, Word)>,
    /// Cached constants (by type and value), to only initialize each once.
    constant_cache: Vec<((Word, u32), Word)>,
}

impl SpirvShaderBase {
    /// The module under construction.
    pub closed spec fn spirv(&self) -> BuilderModel {
        builder_model(self.builder)
    }

    /// The type cache, as plain values.
    pub closed spec fn types(&self) -> Seq<(BaseTypeKeyModel, Word)> {
        self.type_cache@.map_values(|e: (BaseTypeKey, Word)| (e.0@, e.1))
    }

    /// The constant cache.
    pub closed spec fn constants(&self) -> Seq<((Word, u32), Word)> {
        self.constant_cache@
    }

    /// The id of the gl_PerVertex block, once declared.
    pub closed spec fn per_vertex(&self) -> Option<Word> {
        self.gl_per_vertex
    }

    /// The selection is in range, every cached type and constant is declared, and no
    /// key is cached twice.
    pub open spec fn wf(&self) -> bool {
        &&& self.spirv().selection_valid()
        &&& forall|i: int, j: int|
            0 <= i < j < self.types().len() ==> #[trigger] self.types()[i].0 != #[trigger] self.types()[j].0
        &&& forall|i: int, j: int|
            0 <= i < j < self.constants().len() ==> #[trigger] self.constants()[i].0 != #[trigger] self.constants()[j].0
        &&& forall|i: int|
            0 <= i < self.types().len() ==> self.spirv().globals.contains(
                #[trigger] base_key_declaration(self.types()[i].0, self.types()[i].1),
            )
        &&& forall|i: int|
            0 <= i < self.constants().len() ==> self.spirv().globals.contains(
                Inst::Constant {
                    id: #[trigger] self.constants()[i].1,
                    result_type: self.constants()[i].0.0,
                    bits: self.constants()[i].0.1,
                },
            )
    }

    /// A new module: one that declares the `Shader` capability, imports the
    /// "GLSL.std.450" instructions, and uses the logical addressing model with the
    /// GLSL450 memory model.
    pub fn new() -> (r: SpirvShaderBase)
        ensures
            r.wf(),
            r.spirv().capabilities == seq![Inst::Capability { capability: Capability::Shader }],
            r.spirv().ext_inst_imports.len() == 1,
            r.spirv().ext_inst_imports[0] matches Inst::ExtInstImport { name, .. } && name
                == "GLSL.std.450"@,
            r.spirv().memory_model == seq![
                Inst::MemoryModel { addressing: AddressingModel::Logical, memory: MemoryModel::Glsl450 },
            ],
            r.spirv().entry_points == Seq::<Inst>::empty(),
            r.spirv().debug_names == Seq::<Inst>::empty(),
            r.spirv().annotations == Seq::<Inst>::empty(),
            r.spirv().globals == Seq::<Inst>::empty(),
            r.spirv().functions == Seq::<FunctionModel>::empty(),
            r.spirv().selection == seq![None::<usize>, None::<usize>],
            r.types() == Seq::<(BaseTypeKeyModel, Word)>::empty(),
            r.constants() == Seq::<((Word, u32), Word)>::empty(),
            r.per_vertex() is None,
    {
        let mut builder = builder_new();
        builder_capability(&mut builder, Capability::Shader);
        builder_ext_inst_import(&mut builder, "GLSL.std.450");
        builder_memory_model(&mut builder, AddressingModel::Logical, MemoryModel::Glsl450);
        let r = SpirvShaderBase { builder, gl_per_vertex: None, type_cache: Vec::new(), constant_cache: Vec::new() };
        assert(r.types() =~= Seq::<(BaseTypeKeyModel, Word)>::empty());
        r
    }

    fn lookup_type(&self, key: &BaseTypeKey) -> (r: Option<Word>)
        ensures
            r == base_lookup(self.types(), key@),
    {
        let mut i: usize = 0;
        while i < self.type_cache.len()
            invariant
                0 <= i <= self.type_cache@.len(),
                base_lookup(self.types().take(i as int), key@) is None,
            decreases self.type_cache@.len() - i,
        {
            assert(self.types().take(i + 1).drop_last() =~= self.types().take(i as int));
            if self.type_cache[i].0.same(key) {
                proof { lemma_base_lookup_prefix(self.types(), i + 1, key@); }
                return Some(self.type_cache[i].1);
            }
            i = i + 1;
        }
        assert(self.types().take(i as int) =~= self.types());
        None
    }

    fn lookup_constant(&self, key: (Word, u32)) -> (r: Option<Word>)
        ensures
            r == constant_lookup(self.constants(), key),
    {
        let mut i: usize = 0;
        while i < self.constant_cache.len()
            invariant
                0 <= i <= self.constant_cache@.len(),
                constant_lookup(self.constants().take(i as int), key) is None,
            decreases self.constant_cache@.len() - i,
        {
            assert(self.constants().take(i + 1).drop_last() =~= self.constants().take(i as int));
            let k = self.constant_cache[i].0;
            if k.0 == key.0 && k.1 == key.1 {
                proof { lemma_constant_lookup_prefix(self.constants(), i + 1, key); }
                return Some(self.constant_cache[i].1);
            }
            i = i + 1;
        }
        assert(self.constants().take(i as int) =~= self.constants());
        None
    }

    /// Declares the type `key` the first time it is asked for; gives its id.
    fn cached_type(&mut self, key: BaseTypeKey) -> (r: Word)
        requires
            old(self).wf(),
        ensures
            base_cached(*old(self), *final(self), key@, r),
    {
        if let Some(id) = self.lookup_type(&key) {
            return id;
        }
        let ghost s0 = *self;
        let ghost before = self.spirv().globals;
        let id = match &key {
            BaseTypeKey::Bool => builder_type_bool(&mut self.builder),
            BaseTypeKey::Float { width } => builder_type_float(&mut self.builder, *width),
            BaseTypeKey::UInt { width } => builder_type_int(&mut self.builder, *width, 0),
            BaseTypeKey::Vector { component_type, component_count } => builder_type_vector(
                &mut self.builder,
                *component_type,
                *component_count,
            ),
            BaseTypeKey::Array { element_type, length } => builder_type_array(&mut self.builder, *element_type, *length),
            BaseTypeKey::Struct { field_types } => builder_type_struct(&mut self.builder, field_types),
            BaseTypeKey::Matrix { column_type, column_count } => builder_type_matrix(
                &mut self.builder,
                *column_type,
                *column_count,
            ),
            BaseTypeKey::Pointer { storage_class, pointee_type } => builder_type_pointer(
                &mut self.builder,
                *storage_class,
                *pointee_type,
            ),
        };
        let ghost s1 = *self;
        proof {
            lemma_dedup_contains(before, self.spirv().globals, base_key_declaration(key@, id), id);
        }
        let ghost k = key@;
        proof { lemma_base_lookup_absent(s1.types(), k); }
        self.type_cache.push((key, id));
        proof {
            assert(self.types() =~= s1.types().push((k, id)));
            assert forall|i: int| 0 <= i < self.constants().len() implies self.spirv().globals.contains(
                Inst::Constant {
                    id: #[trigger] self.constants()[i].1,
                    result_type: self.constants()[i].0.0,
                    bits: self.constants()[i].0.1,
                },
            ) by {
                let c = Inst::Constant { id: s0.constants()[i].1, result_type: s0.constants()[i].0.0, bits: s0.constants()[i].0.1 };
                assert(before.contains(c));
                let j = choose|j: int| 0 <= j < before.len() && before[j] == c;
                assert(self.spirv().globals[j] == c);
            }
            assert forall|i: int| 0 <= i < self.types().len() implies self.spirv().globals.contains(
                #[trigger] base_key_declaration(self.types()[i].0, self.types()[i].1),
            ) by {
                if i < s1.types().len() {
                    let d = base_key_declaration(self.types()[i].0, self.types()[i].1);
                    assert(before.contains(d));
                    let j = choose|j: int| 0 <= j < before.len() && before[j] == d;
                    assert(self.spirv().globals[j] == d);
                }
            }
            assert(base_lookup(self.types(), k) == Some(id)) by {
                assert(self.types().drop_last() =~= s1.types());
            }
        }
        id
    }

    /// Declares the constant `value` of type `result_type` the first time it is asked
    /// for; gives its id.
    pub fn constant_u32(&mut self, result_type: Word, value: u32) -> (r: Word)
        requires
            old(self).wf(),
        ensures
            final(self).wf(),
            constant_lookup(final(self).constants(), (result_type, value)) == Some(r),
            final(self).types() == old(self).types(),
            final(self).per_vertex() == old(self).per_vertex(),
            constant_lookup(old(self).constants(), (result_type, value)) matches Some(w) ==> r == w
                && final(self).spirv() == old(self).spirv() && final(self).constants() == old(self).constants(),
            constant_lookup(old(self).constants(), (result_type, value)) is None ==> final(self).constants()
                == old(self).constants().push(((result_type, value), r)) && final(self).spirv() == (BuilderModel {
                globals: old(self).spirv().globals.push(Inst::Constant { id: r, result_type, bits: value }),
                ..old(self).spirv()
            }),
    {
        if let Some(id) = self.lookup_constant((result_type, value)) {
            return id;
        }
        let ghost s0 = *self;
        proof { lemma_constant_lookup_absent(s0.constants(), (result_type, value)); }
        let id = builder_constant_bit32(&mut self.builder, result_type, value);
        self.constant_cache.push(((result_type, value), id));
        proof {
            let g = self.spirv().globals;
            let c = Inst::Constant { id, result_type, bits: value };
            assert(g[s0.spirv().globals.len() as int] == c);
            assert forall|i: int| 0 <= i < self.constants().len() implies g.contains(
                Inst::Constant {
                    id: #[trigger] self.constants()[i].1,
                    result_type: self.constants()[i].0.0,
                    bits: self.constants()[i].0.1,
                },
            ) by {
                if i < s0.constants().len() {
                    let d = Inst::Constant { id: self.constants()[i].1, result_type: self.constants()[i].0.0, bits: self.constants()[i].0.1 };
                    assert(s0.spirv().globals.contains(d));
                    let j = choose|j: int| 0 <= j < s0.spirv().globals.len() && s0.spirv().globals[j] == d;
                    assert(g[j] == d);
                }
            }
            assert forall|i: int| 0 <= i < self.types().len() implies g.contains(
                #[trigger] base_key_declaration(self.types()[i].0, self.types()[i].1),
            ) by {
                let d = base_key_declaration(self.types()[i].0, self.types()[i].1);
                assert(s0.spirv().globals.contains(d));
                let j = choose|j: int| 0 <= j < s0.spirv().globals.len() && s0.spirv().globals[j] == d;
                assert(g[j] == d);
            }
            assert(constant_lookup(self.constants(), (result_type, value)) == Some(id)) by {
                assert(self.constants().drop_last() =~= s0.constants());
            }
        }
        id
    }

    /// The boolean type.
    pub fn type_bool(&mut self) -> (r: Word)
        requires
            old(self).wf(),
        ensures
            base_cached(*old(self), *final(self), BaseTypeKeyModel::Bool, r),
    {
        self.cached_type(BaseTypeKey::Bool)
    }

    /// The float type of `width` bits.
    pub fn type_float(&mut self, width: u32) -> (r: Word)
        requires
            old(self).wf(),
        ensures
            base_cached(*old(self), *final(self), BaseTypeKeyModel::Float { width }, r),
    {
        self.cached_type(BaseTypeKey::Float { width })
    }

    /// The unsigned integer type of `width` bits.
    pub fn type_uint(&mut self, width: u32) -> (r: Word)
        requires
            old(self).wf(),
        ensures
            base_cached(*old(self), *final(self), BaseTypeKeyModel::UInt { width }, r),
    {
        self.cached_type(BaseTypeKey::UInt { width })
    }

    /// The array type of `length` elements of type `element_type`.
    pub fn type_array(&mut self, element_type: Word, length: Word) -> (r: Word)
        requires
            old(self).wf(),
        ensures
            base_cached(*old(self), *final(self), BaseTypeKeyModel::Array { element_type, length }, r),
    {
        self.cached_type(BaseTypeKey::Array { element_type, length })
    }

    /// The vector type of `component_count` components of type `component_type`.
    pub fn type_vector(&mut self, component_type: Word, component_count: u32) -> (r: Word)
        requires
            old(self).wf(),
        ensures
            base_cached(*old(self), *final(self), BaseTypeKeyModel::Vector { component_type, component_count }, r),
    {
        self.cached_type(BaseTypeKey::Vector { component_type, component_count })
    }

    /// The struct type whose members have the types `field_types`.
    pub fn type_struct(&mut self, field_types: Vec<Word>) -> (r: Word)
        requires
            old(self).wf(),
        ensures
            base_cached(*old(self), *final(self), BaseTypeKeyModel::Struct { field_types: field_types@ }, r),
    {
        self.cached_type(BaseTypeKey::Struct { field_types })
    }

    /// The matrix type of `column_count` columns of type `column_type`.
    pub fn type_matrix(&mut self, column_type: Word, column_count: u32) -> (r: Word)
        requires
            old(self).wf(),
        ensures
            base_cached(*old(self), *final(self), BaseTypeKeyModel::Matrix { column_type, column_count }, r),
    {
        self.cached_type(BaseTypeKey::Matrix { column_type, column_count })
    }

    /// The pointer type into `storage_class` to the type `pointee_type`.
    pub fn type_pointer(&mut self, storage_class: StorageClass, pointee_type: Word) -> (r: Word)
        requires
            old(self).wf(),
        ensures
            base_cached(*old(self), *final(self), BaseTypeKeyModel::Pointer { storage_class, pointee_type }, r),
    {
        self.cached_type(BaseTypeKey::Pointer { storage_class, pointee_type })
    }

    /// Declares (or finds) the GLSL type `t`, built of 32-bit floats; gives its id.
    fn glsl_member_type(&mut self, t: GlslType) -> (r: Word)
        requires
            old(self).wf(),
        ensures
            base_grows(*old(self), *final(self)),
            glsl_type_id(final(self).types(), t) == Some(r),
    {
        let ghost s0 = *self;
        let fk = BaseTypeKeyModel::Float { width: 32 };
        match t {
            GlslType::Bool => {
                let r = self.type_bool();
                proof { lemma_cached_grows(s0, *self, BaseTypeKeyModel::Bool, r); }
                r
            },
            GlslType::Mat4 => {
                let f = self.type_float(32);
                let ghost s1 = *self;
                let v = self.type_vector(f, 4);
                let ghost s2 = *self;
                let m = self.type_matrix(v, 4);
                proof {
                    lemma_cached_grows(s0, s1, fk, f);
                    lemma_cached_grows(s1, s2, BaseTypeKeyModel::Vector { component_type: f, component_count: 4 }, v);
                    lemma_cached_grows(s2, *self, BaseTypeKeyModel::Matrix { column_type: v, column_count: 4 }, m);
                    lemma_base_grows_trans(s0, s1, s2);
                    lemma_base_grows_trans(s0, s2, *self);
                    lemma_base_lookup_extend(s1.types(), self.types(), fk);
                    lemma_base_lookup_extend(s2.types(), self.types(), BaseTypeKeyModel::Vector { component_type: f, component_count: 4 });
                }
                m
            },
            _ => {
                let n: u32 = match t {
                    GlslType::Vec2 => 2,
                    GlslType::Vec3 => 3,
                    _ => 4,
                };
                let f = self.type_float(32);
                let ghost s1 = *self;
                let v = self.type_vector(f, n);
                proof {
                    lemma_cached_grows(s0, s1, fk, f);
                    lemma_cached_grows(s1, *self, BaseTypeKeyModel::Vector { component_type: f, component_count: n }, v);
                    lemma_base_grows_trans(s0, s1, *self);
                    lemma_base_lookup_extend(s1.types(), self.types(), fk);
                }
                v
            },
        }
    }

    /// Declares the struct described by `type_info`: the types of its members, the
    /// struct, its name and its members' names; lays out its members one after the
    /// other, each taking 4 bytes per component, matrices in column-major order with a
    /// stride of 16 bytes; and decorates it as a block. Gives the struct's id.
    pub fn glsl_struct(&mut self, type_info: GlslStruct) -> (r: Word)
        requires
            old(self).wf(),
            glsl_offset(type_info.members@) <= u32::MAX,
        ensures
            final(self).wf(),
            glsl_field_ids(final(self).types(), type_info.members@) matches Some(ids) && base_lookup(
                final(self).types(),
                BaseTypeKeyModel::Struct { field_types: ids },
            ) == Some(r),
            final(self).spirv().debug_names == old(self).spirv().debug_names + seq![
                Inst::Name { target: r, name: type_info.name@ },
            ] + glsl_member_names(r, type_info.members@),
            final(self).spirv().annotations == old(self).spirv().annotations + glsl_layout(r, type_info.members@)
                + seq![Inst::Decorate { target: r, decoration: Decoration::Block }],
            final(self).spirv() == (BuilderModel {
                debug_names: final(self).spirv().debug_names,
                annotations: final(self).spirv().annotations,
                globals: final(self).spirv().globals,
                ..old(self).spirv()
            }),
            old(self).spirv().globals.is_prefix_of(final(self).spirv().globals),
            old(self).types().is_prefix_of(final(self).types()),
            final(self).constants() == old(self).constants(),
            final(self).per_vertex() == old(self).per_vertex(),
    {
        let ghost s0 = *self;
        let ghost ms = type_info.members@;
        let mut field_types: Vec<Word> = Vec::new();
        let mut i: usize = 0;
        proof {
            lemma_base_grows_refl(s0);
            assert(ms.take(0) =~= Seq::<GlslStructMember>::empty());
        }
        while i < type_info.members.len()
            invariant
                ms == type_info.members@,
                s0.wf(),
                base_grows(s0, *self),
                0 <= i <= ms.len(),
                glsl_field_ids(self.types(), ms.take(i as int)) == Some(field_types@),
            decreases ms.len() - i,
        {
            let ghost s1 = *self;
            let t = self.glsl_member_type(type_info.members[i].ty);
            proof {
                lemma_base_grows_trans(s0, s1, *self);
                lemma_glsl_field_ids_extend(s1.types(), self.types(), ms.take(i as int));
                assert(ms.take(i + 1).drop_last() =~= ms.take(i as int));
            }
            field_types.push(t);
            i = i + 1;
        }
        proof {
            assert(ms.take(i as int) =~= ms);
        }
        let ghost ids = field_types@;
        let ghost s2 = *self;
        let st = self.type_struct(field_types);
        proof {
            lemma_cached_grows(s2, *self, BaseTypeKeyModel::Struct { field_types: ids }, st);
            lemma_base_grows_trans(s0, s2, *self);
            lemma_glsl_field_ids_extend(s2.types(), self.types(), ms);
        }
        let ghost s3 = *self;
        builder_name(&mut self.builder, st, type_info.name.as_str());
        let ghost names0 = self.spirv().debug_names;
        let ghost ann0 = self.spirv().annotations;
        let mut offset: u32 = 0;
        let mut j: usize = 0;
        proof {
            assert(ms.take(0) =~= Seq::<GlslStructMember>::empty());
            assert(names0 + glsl_member_names(st, ms.take(0)) =~= names0);
            assert(ann0 + glsl_layout(st, ms.take(0)) =~= ann0);
            lemma_glsl_offset_bounds(ms, 0);
        }
        while j < type_info.members.len()
            invariant
                ms == type_info.members@,
                glsl_offset(ms) <= u32::MAX,
                glsl_offset(ms) >= 4 * ms.len(),
                0 <= j <= ms.len(),
                offset == glsl_offset(ms.take(j as int)),
                self.spirv().debug_names == names0 + glsl_member_names(st, ms.take(j as int)),
                self.spirv().annotations == ann0 + glsl_layout(st, ms.take(j as int)),
                self.spirv() == (BuilderModel {
                    debug_names: self.spirv().debug_names,
                    annotations: self.spirv().annotations,
                    ..s3.spirv()
                }),
                self.types() == s3.types(),
                self.constants() == s3.constants(),
                self.per_vertex() == s3.per_vertex(),
                s3.wf(),
            decreases ms.len() - j,
        {
            let m = &type_info.members[j];
            let index = j as u32;
            builder_member_name(&mut self.builder, st, index, m.name.as_str());
            builder_member_decorate(&mut self.builder, st, index, Decoration::Offset(offset));
            let size: u32 = match m.ty {
                GlslType::Bool => 4,
                GlslType::Vec2 => 8,
                GlslType::Vec3 => 12,
                GlslType::Vec4 => 16,
                GlslType::Mat4 => {
                    builder_member_decorate(&mut self.builder, st, index, Decoration::ColMajor);
                    builder_member_decorate(&mut self.builder, st, index, Decoration::MatrixStride(16));
                    64
                },
            };
            proof {
                assert(ms.take(j + 1).drop_last() =~= ms.take(j as int));
                lemma_glsl_offset_bounds(ms, j + 1);
                assert(self.spirv().debug_names =~= names0 + glsl_member_names(st, ms.take(j + 1)));
                assert(self.spirv().annotations =~= ann0 + glsl_layout(st, ms.take(j + 1)));
            }
            offset = offset + size;
            j = j + 1;
        }
        proof {
            assert(ms.take(j as int) =~= ms);
        }
        builder_decorate(&mut self.builder, st, Decoration::Block);
        proof {
            assert(self.spirv().debug_names =~= s0.spirv().debug_names + seq![Inst::Name { target: st, name: type_info.name@ }] + glsl_member_names(st, ms));
        }
        st
    }

    /// Declares the struct type of the gl_PerVertex block and the types and constant it
    /// is made of; gives the struct's id.
    #[verifier::rlimit(30)]
    fn per_vertex_struct(&mut self) -> (r: Word)
        requires
            old(self).wf(),
        ensures
            final(self).wf(),
            per_vertex_typed(final(self).types(), final(self).constants(), r),
            final(self).spirv() == (BuilderModel { globals: final(self).spirv().globals, ..old(self).spirv() }),
            old(self).spirv().globals.is_prefix_of(final(self).spirv().globals),
            old(self).types().is_prefix_of(final(self).types()),
            final(self).per_vertex() == old(self).per_vertex(),
    {
        let ghost s0 = *self;
        let float_ = self.type_float(32);
        let ghost s1 = *self;
        let uint32 = self.type_uint(32);
        let ghost s2 = *self;
        let uint_1 = self.constant_u32(uint32, 1);
        let ghost s3 = *self;
        let arr_float_uint_1 = self.type_array(float_, uint_1);
        let ghost s4 = *self;
        let v4float = self.type_vector(float_, 4);
        let ghost s5 = *self;
        let mut members: Vec<Word> = Vec::new();
        members.push(v4float);
        members.push(float_);
        members.push(arr_float_uint_1);
        members.push(arr_float_uint_1);
        let ghost mids = members@;
        let st = self.type_struct(members);
        proof {
            let fk = BaseTypeKeyModel::Float { width: 32 };
            let uk = BaseTypeKeyModel::UInt { width: 32 };
            let ak = BaseTypeKeyModel::Array { element_type: float_, length: uint_1 };
            let vk = BaseTypeKeyModel::Vector { component_type: float_, component_count: 4 };
            lemma_cached_grows(s0, s1, fk, float_);
            lemma_cached_grows(s1, s2, uk, uint32);
            lemma_cached_grows(s3, s4, ak, arr_float_uint_1);
            lemma_cached_grows(s4, s5, vk, v4float);
            lemma_cached_grows(s5, *self, BaseTypeKeyModel::Struct { field_types: mids }, st);
            lemma_base_grows_trans(s0, s1, s2);
            lemma_base_grows_trans(s3, s4, s5);
            lemma_base_grows_trans(s3, s5, *self);
            assert(s2.types() == s3.types());
            lemma_prefix_seq_trans(s0.types(), s2.types(), self.types());
            lemma_base_lookup_extend(s1.types(), self.types(), fk);
            lemma_base_lookup_extend(s2.types(), self.types(), uk);
            lemma_base_lookup_extend(s4.types(), self.types(), ak);
            lemma_base_lookup_extend(s5.types(), self.types(), vk);
            assert(mids =~= seq![v4float, float_, arr_float_uint_1, arr_float_uint_1]);
            assert(s2.spirv().globals.is_prefix_of(s3.spirv().globals)) by {
                assert(s2.spirv().globals =~= s3.spirv().globals.subrange(0, s2.spirv().globals.len() as int));
            }
            lemma_prefix_seq_trans(s0.spirv().globals, s2.spirv().globals, s3.spirv().globals);
            lemma_prefix_seq_trans(s0.spirv().globals, s3.spirv().globals, self.spirv().globals);
        }
        st
    }

    /// Declares the gl_PerVertex block the first time it is asked for: a struct of a
    /// vec4 position, a float point size and two one-float arrays of clip and cull
    /// distances, named and decorated as those built-ins. Gives its id.
    pub fn gl_per_vertex(&mut self) -> (r: Word)
        requires
            old(self).wf(),
        ensures
            final(self).wf(),
            final(self).per_vertex() == Some(r),
            old(self).per_vertex() matches Some(w) ==> r == w && final(self).spirv() == old(self).spirv()
                && final(self).types() == old(self).types() && final(self).constants() == old(self).constants(),
            old(self).per_vertex() is None ==> per_vertex_declared(*old(self), *final(self), r),
    {
        if let Some(w) = self.gl_per_vertex {
            return w;
        }
        let ghost s0 = *self;
        let st = self.per_vertex_struct();
        builder_name(&mut self.builder, st, "gl_PerVertex");
        builder_decorate(&mut self.builder, st, Decoration::Block);
        builder_member_name(&mut self.builder, st, 0, "gl_Position");
        builder_member_name(&mut self.builder, st, 1, "gl_PointSize");
        builder_member_name(&mut self.builder, st, 2, "gl_ClipDistance");
        builder_member_name(&mut self.builder, st, 3, "gl_CullDistance");
        builder_member_decorate_built_in(&mut self.builder, st, 0, BuiltIn::Position);
        builder_member_decorate_built_in(&mut self.builder, st, 1, BuiltIn::PointSize);
        builder_member_decorate_built_in(&mut self.builder, st, 2, BuiltIn::ClipDistance);
        builder_member_decorate_built_in(&mut self.builder, st, 3, BuiltIn::CullDistance);
        self.gl_per_vertex = Some(st);
        proof {
            assert(self.spirv().debug_names =~= s0.spirv().debug_names + per_vertex_names(st));
            assert(self.spirv().annotations =~= s0.spirv().annotations + per_vertex_annotations(st));
        }
        st
    }

    /// The module built so far, for assembly.
    pub fn module(self) -> (r: Module)
        ensures
            spirv_module(r) == self.spirv().sections(),
    {
        builder_module(self.builder)
    }
}

/// From `before` to `after` only types were declared and cached: the other sections,
/// the constants and the gl_PerVertex block stayed.
pub open spec fn base_grows(before: SpirvShaderBase, after: SpirvShaderBase) -> bool {
    &&& after.wf()
    &&& before.types().is_prefix_of(after.types())
    &&& before.spirv().globals.is_prefix_of(after.spirv().globals)
    &&& after.constants() == before.constants()
    &&& after.per_vertex() == before.per_vertex()
    &&& after.spirv() == (BuilderModel { globals: after.spirv().globals, ..before.spirv() })
}

/// The id of the GLSL type `t` among the cached types: built of 32-bit floats.
pub open spec fn glsl_type_id(types: Seq<(BaseTypeKeyModel, Word)>, t: GlslType) -> Option<Word> {
    let vector = |n: u32| match base_lookup(types, BaseTypeKeyModel::Float { width: 32 }) {
        Some(f) => base_lookup(types, BaseTypeKeyModel::Vector { component_type: f, component_count: n }),
        None => None,
    };
    match t {
        GlslType::Bool => base_lookup(types, BaseTypeKeyModel::Bool),
        GlslType::Vec2 => vector(2),
        GlslType::Vec3 => vector(3),
        GlslType::Vec4 => vector(4),
        GlslType::Mat4 => match vector(4) {
            Some(v) => base_lookup(types, BaseTypeKeyModel::Matrix { column_type: v, column_count: 4 }),
            None => None,
        },
    }
}

/// The ids of the types of the members, when all are cached.
pub open spec fn glsl_field_ids(types: Seq<(BaseTypeKeyModel, Word)>, ms: Seq<GlslStructMember>) -> Option<Seq<Word>>
    decreases ms.len(),
{
    if ms.len() == 0 {
        Some(Seq::empty())
    } else {
        match (glsl_field_ids(types, ms.drop_last()), glsl_type_id(types, ms.last().ty)) {
            (Some(ids), Some(w)) => Some(ids.push(w)),
            _ => None,
        }
    }
}

/// The names of the members of the struct `id`.
pub open spec fn glsl_member_names(id: Word, ms: Seq<GlslStructMember>) -> Seq<Inst>
    decreases ms.len(),
{
    if ms.len() == 0 {
        Seq::empty()
    } else {
        glsl_member_names(id, ms.drop_last()).push(
            Inst::MemberName { target: id, member: (ms.len() - 1) as u32, name: ms.last().name@ },
        )
    }
}

/// The layout of member `i` of the struct `id`, of type `t`, at `offset`: its offset,
/// and for a matrix its column-major order and its stride of 16 bytes.
pub open spec fn glsl_member_layout(id: Word, i: u32, t: GlslType, offset: nat) -> Seq<Inst> {
    seq![Inst::MemberDecorate { target: id, member: i, decoration: Decoration::Offset(offset as u32) }] + if t
        == GlslType::Mat4 {
        seq![
            Inst::MemberDecorate { target: id, member: i, decoration: Decoration::ColMajor },
            Inst::MemberDecorate { target: id, member: i, decoration: Decoration::MatrixStride(16) },
        ]
    } else {
        Seq::empty()
    }
}

/// The layout of the members of the struct `id`, member after member.
pub open spec fn glsl_layout(id: Word, ms: Seq<GlslStructMember>) -> Seq<Inst>
    decreases ms.len(),
{
    if ms.len() == 0 {
        Seq::empty()
    } else {
        glsl_layout(id, ms.drop_last()) + glsl_member_layout(id, (ms.len() - 1) as u32, ms.last().ty, glsl_offset(ms.drop_last()))
    }
}

pub proof fn lemma_glsl_type_id_extend(a: Seq<(BaseTypeKeyModel, Word)>, b: Seq<(BaseTypeKeyModel, Word)>, t: GlslType)
    requires
        a.is_prefix_of(b),
        glsl_type_id(a, t) is Some,
    ensures
        glsl_type_id(b, t) == glsl_type_id(a, t),
{
    let fk = BaseTypeKeyModel::Float { width: 32 };
    match t {
        GlslType::Bool => lemma_base_lookup_extend(a, b, BaseTypeKeyModel::Bool),
        GlslType::Vec2 | GlslType::Vec3 | GlslType::Vec4 => {
            let n: u32 = if t == GlslType::Vec2 { 2 } else if t == GlslType::Vec3 { 3 } else { 4 };
            lemma_base_lookup_extend(a, b, fk);
            let f = base_lookup(a, fk)->0;
            lemma_base_lookup_extend(a, b, BaseTypeKeyModel::Vector { component_type: f, component_count: n });
        },
        GlslType::Mat4 => {
            lemma_base_lookup_extend(a, b, fk);
            let f = base_lookup(a, fk)->0;
            let vk = BaseTypeKeyModel::Vector { component_type: f, component_count: 4 };
            lemma_base_lookup_extend(a, b, vk);
            let v = base_lookup(a, vk)->0;
            lemma_base_lookup_extend(a, b, BaseTypeKeyModel::Matrix { column_type: v, column_count: 4 });
        },
    }
}

pub proof fn lemma_glsl_field_ids_extend(a: Seq<(BaseTypeKeyModel, Word)>, b: Seq<(BaseTypeKeyModel, Word)>, ms: Seq<GlslStructMember>)
    requires
        a.is_prefix_of(b),
        glsl_field_ids(a, ms) is Some,
    ensures
        glsl_field_ids(b, ms) == glsl_field_ids(a, ms),
    decreases ms.len(),
{
    if ms.len() > 0 {
        lemma_glsl_field_ids_extend(a, b, ms.drop_last());
        lemma_glsl_type_id_extend(a, b, ms.last().ty);
    }
}

/// Each member takes at least 4 bytes, and a prefix of the members takes no more than
/// all of them.
pub proof fn lemma_glsl_offset_bounds(ms: Seq<GlslStructMember>, i: int)
    requires
        0 <= i <= ms.len(),
    ensures
        glsl_offset(ms) >= 4 * ms.len(),
        glsl_offset(ms.take(i)) <= glsl_offset(ms),
    decreases ms.len(),
{
    if ms.len() > 0 {
        if i == ms.len() {
            assert(ms.take(i) =~= ms);
            lemma_glsl_offset_bounds(ms.drop_last(), 0);
        } else {
            assert(ms.drop_last().take(i) =~= ms.take(i));
            lemma_glsl_offset_bounds(ms.drop_last(), i);
        }
    }
}

/// The names of the gl_PerVertex block `id` and of its members.
pub open spec fn per_vertex_names(id: Word) -> Seq<Inst> {
    seq![
        Inst::Name { target: id, name: "gl_PerVertex"@ },
        Inst::MemberName { target: id, member: 0, name: "gl_Position"@ },
        Inst::MemberName { target: id, member: 1, name: "gl_PointSize"@ },
        Inst::MemberName { target: id, member: 2, name: "gl_ClipDistance"@ },
        Inst::MemberName { target: id, member: 3, name: "gl_CullDistance"@ },
    ]
}

/// The decorations of the gl_PerVertex block `id` and of its members.
pub open spec fn per_vertex_annotations(id: Word) -> Seq<Inst> {
    seq![
        Inst::Decorate { target: id, decoration: Decoration::Block },
        Inst::MemberDecorate { target: id, member: 0, decoration: Decoration::BuiltIn(BuiltIn::Position) },
        Inst::MemberDecorate { target: id, member: 1, decoration: Decoration::BuiltIn(BuiltIn::PointSize) },
        Inst::MemberDecorate { target: id, member: 2, decoration: Decoration::BuiltIn(BuiltIn::ClipDistance) },
        Inst::MemberDecorate { target: id, member: 3, decoration: Decoration::BuiltIn(BuiltIn::CullDistance) },
    ]
}

/// `r` is the struct of the gl_PerVertex block among the cached types: the struct of a
/// vec4 of 32-bit floats, a float, and twice an array of one float.
pub open spec fn per_vertex_typed(types: Seq<(BaseTypeKeyModel, Word)>, constants: Seq<((Word, u32), Word)>, r: Word) -> bool {
    let f = base_lookup(types, BaseTypeKeyModel::Float { width: 32 });
    let u = base_lookup(types, BaseTypeKeyModel::UInt { width: 32 });
    &&& f is Some && u is Some
    &&& constant_lookup(constants, (u->0, 1u32)) matches Some(one) && ({
        let arr = base_lookup(types, BaseTypeKeyModel::Array { element_type: f->0, length: one });
        let v4 = base_lookup(types, BaseTypeKeyModel::Vector { component_type: f->0, component_count: 4 });
        &&& arr is Some && v4 is Some
        &&& base_lookup(types, BaseTypeKeyModel::Struct { field_types: seq![v4->0, f->0, arr->0, arr->0] }) == Some(r)
    })
}

/// The gl_PerVertex block `r` was declared from `before` to `after`, named and
/// decorated; the types and the constant 1 it uses are cached.
pub open spec fn per_vertex_declared(before: SpirvShaderBase, after: SpirvShaderBase, r: Word) -> bool {
    &&& per_vertex_typed(after.types(), after.constants(), r)
    &&& after.spirv().debug_names == before.spirv().debug_names + per_vertex_names(r)
    &&& after.spirv().annotations == before.spirv().annotations + per_vertex_annotations(r)
    &&& after.spirv() == (BuilderModel {
        debug_names: after.spirv().debug_names,
        annotations: after.spirv().annotations,
        globals: after.spirv().globals,
        ..before.spirv()
    })
    &&& before.spirv().globals.is_prefix_of(after.spirv().globals)
    &&& before.types().is_prefix_of(after.types())
}

proof fn lemma_prefix_seq_trans<A>(a: Seq<A>, b: Seq<A>, c: Seq<A>)
    requires
        a.is_prefix_of(b),
        b.is_prefix_of(c),
    ensures
        a.is_prefix_of(c),
{
    assert(a =~= c.subrange(0, a.len() as int));
}

proof fn lemma_cached_grows(before: SpirvShaderBase, after: SpirvShaderBase, key: BaseTypeKeyModel, r: Word)
    requires
        base_cached(before, after, key, r),
    ensures
        base_grows(before, after),
{
    match base_lookup(before.types(), key) {
        Some(_) => {
            assert(before.types() =~= after.types().subrange(0, before.types().len() as int));
            assert(before.spirv().globals =~= after.spirv().globals.subrange(0, before.spirv().globals.len() as int));
        },
        None => {
            lemma_dedup_contains(before.spirv().globals, after.spirv().globals, base_key_declaration(key, r), r);
            assert(before.types() =~= after.types().subrange(0, before.types().len() as int));
        },
    }
}

proof fn lemma_base_grows_trans(a: SpirvShaderBase, b: SpirvShaderBase, c: SpirvShaderBase)
    requires
        base_grows(a, b),
        base_grows(b, c),
    ensures
        base_grows(a, c),
{
    lemma_prefix_seq_trans(a.types(), b.types(), c.types());
    lemma_prefix_seq_trans(a.spirv().globals, b.spirv().globals, c.spirv().globals);
}

proof fn lemma_base_grows_refl(a: SpirvShaderBase)
    requires
        a.wf(),
    ensures
        base_grows(a, a),
{
    assert(a.types() =~= a.types().subrange(0, a.types().len() as int));
    assert(a.spirv().globals =~= a.spirv().globals.subrange(0, a.spirv().globals.len() as int));
}

/// `r` is the id of the type `key` from `before` to `after`: if it was cached nothing
/// changed; otherwise it was declared (or an identical declaration found) and cached.
pub open spec fn base_cached(before: SpirvShaderBase, after: SpirvShaderBase, key: BaseTypeKeyModel, r: Word) -> bool {
    &&& after.wf()
    &&& base_lookup(after.types(), key) == Some(r)
    &&& after.constants() == before.constants()
    &&& after.per_vertex() == before.per_vertex()
    &&& match base_lookup(before.types(), key) {
        Some(w) => r == w && after.types() == before.types() && after.spirv() == before.spirv(),
        None => {
            &&& after.types() == before.types().push((key, r))
            &&& dedup_declared(before.spirv().globals, after.spirv().globals, base_key_declaration(key, r), r)
            &&& after.spirv() == (BuilderModel { globals: after.spirv().globals, ..before.spirv() })
        },
    }
}

} // verus!
