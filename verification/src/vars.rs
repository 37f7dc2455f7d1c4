//! Global variables: shader inputs and outputs, uniforms and built-ins.
use crate::errors::Error;
use crate::keys::{OpKey, OpKeyModel, TypeKey, TypeKeyModel};
use crate::model::{BuiltIn, Decoration, Inst, Word, BuilderModel};
use crate::shader::{
    has_no_type, lemma_extends_refl, lemma_extends_trans, lemma_grows_extends, lemma_lookup_op_extend,
    lemma_lookup_type_extend, lemma_type_id_extend, lookup_op, lookup_type, register_fits,
    declared_sections, same_shader, shader_extends, spec_type_id, Shader,
};
use crate::ops::Op;
use crate::storage_class::StorageClass;
use crate::types::{Pointer, SpirvType};
use std::rc::Rc;
use vstd::prelude::*;

verus! {

/// A global variable: its name, storage class, pointer type and optional decorations.
#[derive(Debug)]
pub struct GlobalVar {
    pub name: String,
    pub storage_class: StorageClass,
    pub ty: Pointer,
    pub set: Option<u32>,
    pub binding: Option<u32>,
    pub location: Option<u32>,
    pub built_in: Option<BuiltIn>,
}

/// A global variable declared from its pointee type.
#[derive(Debug)]
pub struct GlobalVariable {
    pub name: String,
    pub storage_class: StorageClass,
    pub ty: Rc<SpirvType>,
    pub set: Option<u32>,
    pub binding: Option<u32>,
    pub location: Option<u32>,
    pub built_in: Option<BuiltIn>,
}

/// Reflection of an input variable.
#[derive(Debug)]
pub struct InputVar {
    /// Name of the input variable.
    pub name: String,
    /// Type of the input variable, packed into a pointer.
    pub pointer: Pointer,
    /// Location of the input variable.
    pub location: u32,
}

/// Reflection of an output variable.
#[derive(Debug)]
pub struct OutputVar {
    pub name: String,
    pub ty: Pointer,
    pub location: u32,
}

/// Reflection of a uniform global variable.
#[derive(Debug)]
pub struct UniformVar {
    /// Name of the variable.
    pub name: String,
    /// Type of the variable, packed behind a pointer.
    pub pointer: Pointer,
    /// The set of the uniform variable.
    pub set: u32,
    /// The binding of the uniform variable.
    pub binding: u32,
}

/// Represents built-in variables.
#[derive(Debug)]
pub struct BuiltInVar {
    pub name: String,
    pub storage_class: StorageClass,
    pub ty: Pointer,
    pub built_in: BuiltIn,
}

/// The decorations of a global variable, in the order they are emitted.
pub open spec fn global_var_decorations(
    set: Option<u32>,
    binding: Option<u32>,
    location: Option<u32>,
    built_in: Option<BuiltIn>,
) -> Seq<Decoration> {
    (match set {
        Some(s) => seq![Decoration::DescriptorSet(s)],
        None => Seq::empty(),
    }) + (match binding {
        Some(b) => seq![Decoration::Binding(b)],
        None => Seq::empty(),
    }) + (match location {
        Some(l) => seq![Decoration::Location(l)],
        None => Seq::empty(),
    }) + (match built_in {
        Some(b) => seq![Decoration::BuiltIn(b)],
        None => Seq::empty(),
    })
}

/// The annotations that decorate `id` with `ds`, in order.
pub open spec fn decorations_of(id: Word, ds: Seq<Decoration>) -> Seq<Inst> {
    ds.map_values(|d: Decoration| Inst::Decorate { target: id, decoration: d })
}

/// From `before` to `after` the sections `added` (debug names, annotations) were added
/// and then the variable `id` declared: exactly its name follows in the debug names,
/// exactly its decorations `ds` follow in the annotations, and its declaration ends the
/// block under construction or the global values.
pub open spec fn var_emitted(
    before: BuilderModel,
    after: BuilderModel,
    added: (Seq<Inst>, Seq<Inst>),
    id: Word,
    name: Seq<char>,
    variable_type: Word,
    storage_class: StorageClass,
    ds: Seq<Decoration>,
) -> bool {
    &&& after.debug_names == (before.debug_names + added.0).push(Inst::Name { target: id, name })
    &&& after.annotations == before.annotations + added.1 + decorations_of(id, ds)
    &&& ({
        let v = Inst::Variable { id, result_type: variable_type, storage_class };
        (after.globals.len() > 0 && after.globals.last() == v) || (after.block.len() > 0 && after.block.last() == v)
    })
}

/// Declares a variable of type `variable_type`, names it and decorates it with `ds`.
fn declare_variable(
    shader: &mut Shader,
    name: &str,
    variable_type: Word,
    storage_class: StorageClass,
    ds: &Vec<Decoration>,
) -> (r: Word)
    requires
        old(shader).wf(),
    ensures
        final(shader).wf(),
        shader_extends(*old(shader), *final(shader)),
        final(shader).types() == old(shader).types(),
        final(shader).ops() == old(shader).ops(),
        var_emitted(old(shader).spirv(), final(shader).spirv(), (Seq::empty(), Seq::empty()), r, name@, variable_type, storage_class, ds@),
{
    let ghost s0 = *shader;
    let id = shader.variable(variable_type, storage_class);
    shader.name(id, name);
    let ghost a0 = shader.spirv().annotations;
    let ghost s1 = *shader;
    let mut i: usize = 0;
    while i < ds.len()
        invariant
            shader.wf(),
            0 <= i <= ds@.len(),
            shader.spirv() == (BuilderModel { annotations: shader.spirv().annotations, ..s1.spirv() }),
            shader.spirv().annotations == a0 + decorations_of(id, ds@.take(i as int)),
            shader.types() == s0.types(),
            shader.ops() == s0.ops(),
            shader.interfaces() == s0.interfaces(),
        decreases ds@.len() - i,
    {
        shader.decorate(id, ds[i]);
        assert(decorations_of(id, ds@.take(i + 1)) =~= decorations_of(id, ds@.take(i as int)).push(
            Inst::Decorate { target: id, decoration: ds@[i as int] },
        ));
        i = i + 1;
    }
    proof {
        assert(ds@.take(i as int) =~= ds@);
        assert(s0.spirv().debug_names + Seq::<Inst>::empty() =~= s0.spirv().debug_names);
        assert(s0.spirv().annotations + Seq::<Inst>::empty() =~= s0.spirv().annotations);
        let m = shader.spirv();
        assert(m.annotations.subrange(m.annotations.len() - ds@.len(), m.annotations.len() as int)
            =~= decorations_of(id, ds@));
        let v = Inst::Variable { id, result_type: variable_type, storage_class };
        if s0.spirv().in_block() {
            assert(m.block[m.block.len() - 1] == v);
            assert(s0.spirv().block =~= m.block.subrange(0, s0.spirv().block.len() as int));
            assert(s0.spirv().globals =~= m.globals.subrange(0, s0.spirv().globals.len() as int));
        } else {
            assert(m.globals[m.globals.len() - 1] == v);
            assert(s0.spirv().globals =~= m.globals.subrange(0, s0.spirv().globals.len() as int));
            assert(s0.spirv().block =~= m.block.subrange(0, s0.spirv().block.len() as int));
        }
        assert(s0.spirv().debug_names =~= m.debug_names.subrange(0, s0.spirv().debug_names.len() as int));
        assert(s0.spirv().annotations =~= m.annotations.subrange(0, s0.spirv().annotations.len() as int));
        assert(s0.spirv().capabilities =~= m.capabilities.subrange(0, s0.spirv().capabilities.len() as int));
        assert(s0.spirv().ext_inst_imports =~= m.ext_inst_imports.subrange(0, s0.spirv().ext_inst_imports.len() as int));
        assert(s0.spirv().entry_points =~= m.entry_points.subrange(0, s0.spirv().entry_points.len() as int));
        assert(s0.types() =~= shader.types().subrange(0, s0.types().len() as int));
        assert(s0.ops() =~= shader.ops().subrange(0, s0.ops().len() as int));
    }
    id
}

/// The decorations of a global variable.
fn global_var_decoration_list(
    set: Option<u32>,
    binding: Option<u32>,
    location: Option<u32>,
    built_in: Option<BuiltIn>,
) -> (r: Vec<Decoration>)
    ensures
        r@ == global_var_decorations(set, binding, location, built_in),
{
    let mut r: Vec<Decoration> = Vec::new();
    if let Some(s) = set {
        r.push(Decoration::DescriptorSet(s));
    }
    if let Some(b) = binding {
        r.push(Decoration::Binding(b));
    }
    if let Some(l) = location {
        r.push(Decoration::Location(l));
    }
    if let Some(b) = built_in {
        r.push(Decoration::BuiltIn(b));
    }
    assert(r@ =~= global_var_decorations(set, binding, location, built_in));
    r
}

/// The key of a global variable whose pointer type is `variable_type`.
pub open spec fn global_var_key(
    storage_class: StorageClass,
    variable_type: Word,
    set: Option<u32>,
    binding: Option<u32>,
    location: Option<u32>,
) -> OpKeyModel {
    OpKeyModel::GlobalVar { storage_class, variable_type, bound_set: set, bound_binding: binding, bound_location: location }
}

/// Registers a global variable of pointer type `ty`: registers the type, then declares
/// the variable the first time it is asked for, naming it and decorating it with its
/// descriptor set, binding, location and built-in, in that order.
pub(crate) fn register_global(
    shader: &mut Shader,
    name: &String,
    storage_class: StorageClass,
    ty: &SpirvType,
    set: Option<u32>,
    binding: Option<u32>,
    location: Option<u32>,
    built_in: Option<BuiltIn>,
) -> (r: Result<Word, Error>)
    requires
        old(shader).wf(),
        register_fits(*ty),
    ensures
        final(shader).wf(),
        shader_extends(*old(shader), *final(shader)),
        r is Err <==> has_no_type(*ty),
        r matches Err(e) ==> e == Error::NoType,
        r matches Ok(id) ==> spec_type_id(final(shader).types(), *ty) is Some && lookup_op(
            final(shader).ops(),
            global_var_key(storage_class, spec_type_id(final(shader).types(), *ty)->0, set, binding, location),
        ) == Some(id),
        ({
            let vt = spec_type_id(old(shader).types(), *ty);
            vt is Some && lookup_op(old(shader).ops(), global_var_key(storage_class, vt->0, set, binding, location))
                is Some ==> same_shader(*final(shader), *old(shader)) && r == Ok::<Word, Error>(
                lookup_op(old(shader).ops(), global_var_key(storage_class, vt->0, set, binding, location))->0,
            )
        }),
        ({
            let vt = spec_type_id(final(shader).types(), *ty)->0;
            r matches Ok(id) ==> (lookup_op(old(shader).ops(), global_var_key(storage_class, vt, set, binding, location)) is None ==> (declared_sections(old(shader).types(), final(shader).types(), *ty) matches Some(ns) ==> var_emitted(
                old(shader).spirv(),
                final(shader).spirv(),
                ns,
                id,
                name@,
                vt,
                storage_class,
                global_var_decorations(set, binding, location, built_in),
            )))
        }),
{
    let ghost s0 = *shader;
    let variable_type = match shader.register_type(ty) {
        Ok(w) => w,
        Err(e) => {
            proof { lemma_grows_extends(s0, *shader); }
            return Err(e);
        },
    };
    let ghost s1 = *shader;
    proof { lemma_grows_extends(s0, s1); }
    let key = OpKey::GlobalVar {
        storage_class,
        variable_type,
        bound_set: set,
        bound_binding: binding,
        bound_location: location,
    };
    if let Some(id) = shader.lookup_op(&key) {
        return Ok(id);
    }
    let ds = global_var_decoration_list(set, binding, location, built_in);
    let id = declare_variable(shader, name.as_str(), variable_type, storage_class, &ds);
    let ghost s2 = *shader;
    shader.cache_op_variable(key, id);
    proof {
        lemma_extends_trans(s0, s1, s2);
        assert(s2.ops().is_prefix_of(shader.ops())) by {
            assert(s2.ops() =~= shader.ops().subrange(0, s2.ops().len() as int));
        }
        assert(shader_extends(s2, *shader)) by {
            lemma_extends_refl(s2);
        }
        lemma_extends_trans(s0, s2, *shader);
        lemma_type_id_extend(s1.types(), shader.types(), ty);
    }
    Ok(id)
}

/// How an interface or built-in variable is bound.
#[derive(PartialEq, Eq, Structural, Clone, Copy, Debug)]
pub enum VarBinding {
    Input { location: u32 },
    Output { location: u32 },
    Uniform { set: u32, binding: u32 },
    BuiltIn { built_in: BuiltIn },
}

/// The cache key of a variable bound by `b`, of pointer type `vt`.
pub open spec fn var_key(b: VarBinding, vt: Word, storage_class: StorageClass) -> OpKeyModel {
    match b {
        VarBinding::Input { location } => OpKeyModel::InputVar { variable_type: vt, location },
        VarBinding::Output { location } => OpKeyModel::OutputVar { variable_type: vt, location },
        VarBinding::Uniform { set, binding } => OpKeyModel::UniformVar { variable_type: vt, set, binding },
        VarBinding::BuiltIn { built_in } => OpKeyModel::BuiltInVar { variable_type: vt, built_in, storage_class },
    }
}

/// The decorations of a variable bound by `b`, in order.
pub open spec fn var_decorations(b: VarBinding) -> Seq<Decoration> {
    match b {
        VarBinding::Input { location } => seq![Decoration::Location(location)],
        VarBinding::Output { location } => seq![Decoration::Location(location)],
        VarBinding::Uniform { set, binding } => seq![Decoration::DescriptorSet(set), Decoration::Binding(binding)],
        VarBinding::BuiltIn { built_in } => seq![Decoration::BuiltIn(built_in)],
    }
}

/// Registers a variable bound by `b`, of pointer type `ty` into `storage_class`:
/// registers the type, then declares the variable the first time it is asked for,
/// naming and decorating it.
pub(crate) fn register_bound_var(
    shader: &mut Shader,
    name: &String,
    storage_class: StorageClass,
    ty: &SpirvType,
    b: VarBinding,
) -> (r: Result<Word, Error>)
    requires
        old(shader).wf(),
        register_fits(*ty),
    ensures
        final(shader).wf(),
        shader_extends(*old(shader), *final(shader)),
        r is Err <==> has_no_type(*ty),
        r matches Err(e) ==> e == Error::NoType,
        r matches Ok(id) ==> spec_type_id(final(shader).types(), *ty) is Some && lookup_op(
            final(shader).ops(),
            var_key(b, spec_type_id(final(shader).types(), *ty)->0, storage_class),
        ) == Some(id),
        ({
            let vt = spec_type_id(old(shader).types(), *ty);
            vt is Some && lookup_op(old(shader).ops(), var_key(b, vt->0, storage_class)) is Some
                ==> same_shader(*final(shader), *old(shader)) && r == Ok::<Word, Error>(
                lookup_op(old(shader).ops(), var_key(b, vt->0, storage_class))->0,
            )
        }),
        ({
            let vt = spec_type_id(final(shader).types(), *ty)->0;
            r matches Ok(id) ==> (lookup_op(old(shader).ops(), var_key(b, vt, storage_class)) is None ==> (declared_sections(old(shader).types(), final(shader).types(), *ty) matches Some(ns) ==> var_emitted(
                old(shader).spirv(),
                final(shader).spirv(),
                ns,
                id,
                name@,
                vt,
                storage_class,
                var_decorations(b),
            )))
        }),
{
    let ghost s0 = *shader;
    let variable_type = match shader.register_type(ty) {
        Ok(w) => w,
        Err(e) => {
            proof { lemma_grows_extends(s0, *shader); }
            return Err(e);
        },
    };
    let ghost s1 = *shader;
    proof { lemma_grows_extends(s0, s1); }
    let key = match b {
        VarBinding::Input { location } => OpKey::InputVar { variable_type, location },
        VarBinding::Output { location } => OpKey::OutputVar { variable_type, location },
        VarBinding::Uniform { set, binding } => OpKey::UniformVar { variable_type, set, binding },
        VarBinding::BuiltIn { built_in } => OpKey::BuiltInVar { variable_type, built_in, storage_class },
    };
    if let Some(id) = shader.lookup_op(&key) {
        return Ok(id);
    }
    let mut ds: Vec<Decoration> = Vec::new();
    match b {
        VarBinding::Input { location } => ds.push(Decoration::Location(location)),
        VarBinding::Output { location } => ds.push(Decoration::Location(location)),
        VarBinding::Uniform { set, binding } => {
            ds.push(Decoration::DescriptorSet(set));
            ds.push(Decoration::Binding(binding));
        },
        VarBinding::BuiltIn { built_in } => ds.push(Decoration::BuiltIn(built_in)),
    }
    assert(ds@ =~= var_decorations(b));
    let id = declare_variable(shader, name.as_str(), variable_type, storage_class, &ds);
    let ghost s2 = *shader;
    shader.cache_op_variable(key, id);
    proof {
        lemma_extends_trans(s0, s1, s2);
        assert(s2.ops().is_prefix_of(shader.ops())) by {
            assert(s2.ops() =~= shader.ops().subrange(0, s2.ops().len() as int));
        }
        assert(shader_extends(s2, *shader)) by {
            lemma_extends_refl(s2);
        }
        lemma_extends_trans(s0, s2, *shader);
    }
    Ok(id)
}

impl InputVar {
    /// Create a new input variable, of type `ty`, at `location`.
    pub fn new(name: &str, ty: SpirvType, location: u32) -> (r: Rc<Op>)
        ensures
            *r matches Op::Input(v) && v.name@ == name@ && v.pointer.storage_class == StorageClass::Input
                && *v.pointer.pointee_type == ty && v.location == location,
    {
        Rc::new(Op::Input(InputVar { name: name.to_owned(), pointer: Pointer::new(StorageClass::Input, Rc::new(ty)), location }))
    }
}

impl OutputVar {
    /// Create a new output variable, of type `ty`, at `location`.
    pub fn new(name: &str, ty: SpirvType, location: u32) -> (r: Rc<Op>)
        ensures
            *r matches Op::Output(v) && v.name@ == name@ && v.ty.storage_class == StorageClass::Output
                && *v.ty.pointee_type == ty && v.location == location,
    {
        Rc::new(Op::Output(OutputVar { name: name.to_owned(), ty: Pointer::new(StorageClass::Output, Rc::new(ty)), location }))
    }
}

impl UniformVar {
    /// Construct a new uniform variable, of type `ty`, bound at `binding` of `set`.
    pub fn new(name: &str, ty: SpirvType, set: u32, binding: u32) -> (r: Rc<Op>)
        ensures
            *r matches Op::Uniform(v) && v.name@ == name@ && v.pointer.storage_class == StorageClass::Uniform
                && *v.pointer.pointee_type == ty && v.set == set && v.binding == binding,
    {
        Rc::new(Op::Uniform(UniformVar {
            name: name.to_owned(),
            pointer: Pointer::new(StorageClass::Uniform, Rc::new(ty)),
            set,
            binding,
        }))
    }
}

impl BuiltInVar {
    /// Create a built-in variable of type `ty` in `storage_class`.
    pub fn new(name: &str, ty: SpirvType, storage_class: StorageClass, built_in: BuiltIn) -> (r: Rc<Op>)
        ensures
            *r matches Op::BuiltIn(v) && v.name@ == name@ && v.storage_class == storage_class
                && v.ty.storage_class == storage_class && *v.ty.pointee_type == ty && v.built_in == built_in,
    {
        Rc::new(Op::BuiltIn(BuiltInVar {
            name: name.to_owned(),
            storage_class,
            ty: Pointer::new(storage_class, Rc::new(ty)),
            built_in,
        }))
    }
}

impl GlobalVar {
    /// A global variable of type `ty` in `storage_class`, with no decoration yet.
    pub fn new(name: &str, ty: SpirvType, storage_class: StorageClass) -> (r: GlobalVar)
        ensures
            r.name@ == name@,
            r.storage_class == storage_class,
            r.ty.storage_class == storage_class,
            *r.ty.pointee_type == ty,
            r.set is None,
            r.binding is None,
            r.location is None,
            r.built_in is None,
    {
        GlobalVar {
            name: name.to_owned(),
            storage_class,
            ty: Pointer::new(storage_class, Rc::new(ty)),
            set: None,
            binding: None,
            location: None,
            built_in: None,
        }
    }

    /// The variable, in descriptor set `set`.
    pub fn with_set(self, set: u32) -> (r: GlobalVar)
        ensures
            r == (GlobalVar { set: Some(set), ..self }),
    {
        GlobalVar { set: Some(set), ..self }
    }

    /// The variable, at `binding`.
    pub fn with_binding(self, binding: u32) -> (r: GlobalVar)
        ensures
            r == (GlobalVar { binding: Some(binding), ..self }),
    {
        GlobalVar { binding: Some(binding), ..self }
    }

    /// The variable, at `location`.
    pub fn with_location(self, location: u32) -> (r: GlobalVar)
        ensures
            r == (GlobalVar { location: Some(location), ..self }),
    {
        GlobalVar { location: Some(location), ..self }
    }

    /// The variable, as the built-in `built_in`.
    pub fn with_built_in(self, built_in: BuiltIn) -> (r: GlobalVar)
        ensures
            r == (GlobalVar { built_in: Some(built_in), ..self }),
    {
        GlobalVar { built_in: Some(built_in), ..self }
    }

    /// The variable as an operation.
    pub fn build(self) -> (r: Rc<Op>)
        ensures
            *r == Op::Global(self),
    {
        Rc::new(Op::Global(self))
    }
}

impl GlobalVariable {
    /// A global variable of type `ty` in `storage_class`, with no decoration yet.
    pub fn new(name: &str, ty: SpirvType, storage_class: StorageClass) -> (r: GlobalVariable)
        ensures
            r.name@ == name@,
            r.storage_class == storage_class,
            *r.ty == ty,
            r.set is None,
            r.binding is None,
            r.location is None,
            r.built_in is None,
    {
        GlobalVariable {
            name: name.to_owned(),
            storage_class,
            ty: Rc::new(ty),
            set: None,
            binding: None,
            location: None,
            built_in: None,
        }
    }

    /// The variable, in descriptor set `set`.
    pub fn with_set(self, set: u32) -> (r: GlobalVariable)
        ensures
            r == (GlobalVariable { set: Some(set), ..self }),
    {
        GlobalVariable { set: Some(set), ..self }
    }

    /// The variable, at `binding`.
    pub fn with_binding(self, binding: u32) -> (r: GlobalVariable)
        ensures
            r == (GlobalVariable { binding: Some(binding), ..self }),
    {
        GlobalVariable { binding: Some(binding), ..self }
    }

    /// The variable, at `location`.
    pub fn with_location(self, location: u32) -> (r: GlobalVariable)
        ensures
            r == (GlobalVariable { location: Some(location), ..self }),
    {
        GlobalVariable { location: Some(location), ..self }
    }

    /// The variable, as the built-in `built_in`.
    pub fn with_built_in(self, built_in: BuiltIn) -> (r: GlobalVariable)
        ensures
            r == (GlobalVariable { built_in: Some(built_in), ..self }),
    {
        GlobalVariable { built_in: Some(built_in), ..self }
    }

    /// The variable, shared.
    pub fn build(self) -> (r: Rc<GlobalVariable>)
        ensures
            *r == self,
    {
        Rc::new(self)
    }

    /// The type of the variable: a pointer to its type, into its storage class.
    pub open spec fn pointer_type(self) -> SpirvType {
        SpirvType::Pointer(Pointer { storage_class: self.storage_class, pointee_type: self.ty })
    }

    /// Registers the variable: registers its pointer type, then declares the variable the
    /// first time it is asked for, naming it and decorating it with its descriptor set,
    /// binding, location and built-in, in that order.
    pub fn register_variable(&self, shader: &mut Shader) -> (r: Result<Word, Error>)
        requires
            old(shader).wf(),
            register_fits(self.pointer_type()),
        ensures
            final(shader).wf(),
            shader_extends(*old(shader), *final(shader)),
            r is Err <==> has_no_type(self.pointer_type()),
            r matches Err(e) ==> e == Error::NoType,
            r matches Ok(id) ==> spec_type_id(final(shader).types(), self.pointer_type()) is Some && lookup_op(
                final(shader).ops(),
                global_var_key(
                    self.storage_class,
                    spec_type_id(final(shader).types(), self.pointer_type())->0,
                    self.set,
                    self.binding,
                    self.location,
                ),
            ) == Some(id),
            ({
                let vt = spec_type_id(old(shader).types(), self.pointer_type());
                let key = global_var_key(self.storage_class, vt->0, self.set, self.binding, self.location);
                vt is Some && lookup_op(old(shader).ops(), key) is Some ==> same_shader(*final(shader), *old(shader))
                    && r == Ok::<Word, Error>(lookup_op(old(shader).ops(), key)->0)
            }),
            ({
                let vt = spec_type_id(final(shader).types(), self.pointer_type())->0;
                let key = global_var_key(self.storage_class, vt, self.set, self.binding, self.location);
                r matches Ok(id) ==> (lookup_op(old(shader).ops(), key) is None ==> (declared_sections(old(shader).types(), final(shader).types(), self.pointer_type()) matches Some(ns) ==> var_emitted(
                    old(shader).spirv(),
                    final(shader).spirv(),
                    ns,
                    id,
                    self.name@,
                    vt,
                    self.storage_class,
                    global_var_decorations(self.set, self.binding, self.location, self.built_in),
                )))
            }),
    {
        let t = SpirvType::Pointer(Pointer::new(self.storage_class, self.ty.clone()));
        register_global(shader, &self.name, self.storage_class, &t, self.set, self.binding, self.location, self.built_in)
    }
}

} // verus!
