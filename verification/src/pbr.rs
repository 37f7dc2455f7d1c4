//! The vertex shader of physically based rendering, and the uniform structs it reads.
use crate::emit::op_emit_error;
use crate::errors::Error;
use crate::function::{function_body, interface_fails, ops_emit_error, ops_fail, ops_fit, var_words, Function, FunctionBuilder};
use crate::interface::{all_interfaces, entries_view, has_nul, interface_entries, ops_interface_error, set_count, EntryModel, InterfaceFormat};
use crate::model::{BuiltIn, ExecutionModel, Inst};
use crate::ops::{access_member, load, op_fits, spec_op_type, reg_fails, store, vec3_to_vec4, Op};
use crate::shader::{has_no_type, members_have_no_type, members_register_fit, register_fits, Shader, ShaderKind};
use crate::storage_class::StorageClass;
use crate::types::{
    float_matrix, float_vector, mat4, members_fit, spec_matches, members_width, spec_width, vec2, vec3, vec4, width_fits, Bool,
    GlslStruct, GlslStructMember, SpirvType,
};
use crate::vars::{BuiltInVar, InputVar, OutputVar, UniformVar};
use std::rc::Rc;
use vstd::prelude::*;
use vstd::utf8::{is_ascii_chars, is_ascii_chars_encode_utf8};

verus! {

/// The uniforms of a model: its transform, its base color factor (floats, as their
/// bits), and whether its base color texture is used.
pub struct Model {
    pub model: [[u32; 4]; 4],
    pub base_color_factor: [u32; 4],
    pub use_base_color_texture: u32,
}

/// The uniforms shared by all models: the camera, view and projection transforms
/// (floats, as their bits).
#[derive(Debug)]
pub struct Global {
    pub camera: [[u32; 4]; 4],
    pub view: [[u32; 4]; 4],
    pub projection: [[u32; 4]; 4],
}

/// The member named `name`, of type `ty`, at `index`.
pub open spec fn is_member(m: GlslStructMember, name: Seq<char>, ty: SpirvType, index: u32) -> bool {
    m.name@ == name && *m.ty == ty && m.index == index
}

impl Model {
    /// The `model` member: a mat4, first.
    pub fn model() -> (r: GlslStructMember)
        ensures
            is_member(r, "model"@, float_matrix(4), 0),
    {
        GlslStructMember { name: String::from_str("model"), ty: Rc::new(mat4()), index: 0 }
    }

    /// The `base_color_factor` member: a vec4, second.
    pub fn base_color_factor() -> (r: GlslStructMember)
        ensures
            is_member(r, "base_color_factor"@, float_vector(4), 1),
    {
        GlslStructMember { name: String::from_str("base_color_factor"), ty: Rc::new(vec4()), index: 1 }
    }

    /// The `use_base_color_texture` member: a bool, third.
    pub fn use_base_color_texture() -> (r: GlslStructMember)
        ensures
            is_member(r, "use_base_color_texture"@, SpirvType::Bool(Bool), 2),
    {
        GlslStructMember { name: String::from_str("use_base_color_texture"), ty: Rc::new(SpirvType::Bool(Bool)), index: 2 }
    }

    /// The struct `Model` and its members, in order.
    pub fn glsl_struct() -> (r: GlslStruct)
        ensures
            r.name@ == "Model"@,
            r.members@.len() == 3,
            is_member(r.members@[0], "model"@, float_matrix(4), 0),
            is_member(r.members@[1], "base_color_factor"@, float_vector(4), 1),
            is_member(r.members@[2], "use_base_color_texture"@, SpirvType::Bool(Bool), 2),
    {
        let mut members: Vec<GlslStructMember> = Vec::new();
        members.push(Model::model());
        members.push(Model::base_color_factor());
        members.push(Model::use_base_color_texture());
        GlslStruct { name: String::from_str("Model"), members }
    }

    /// The type of the struct `Model`.
    pub fn type_info() -> (r: SpirvType)
        ensures
            r matches SpirvType::Struct(st) && st.name@ == "Model"@ && st.members@.len() == 3 && is_member(
                st.members@[0],
                "model"@,
                float_matrix(4),
                0,
            ) && is_member(st.members@[1], "base_color_factor"@, float_vector(4), 1) && is_member(
                st.members@[2],
                "use_base_color_texture"@,
                SpirvType::Bool(Bool),
                2,
            ),
    {
        SpirvType::Struct(Rc::new(Model::glsl_struct()))
    }
}

impl Global {
    /// The `camera` member: a mat4, first.
    pub fn camera() -> (r: GlslStructMember)
        ensures
            is_member(r, "camera"@, float_matrix(4), 0),
    {
        GlslStructMember { name: String::from_str("camera"), ty: Rc::new(mat4()), index: 0 }
    }

    /// The `view` member: a mat4, second.
    pub fn view() -> (r: GlslStructMember)
        ensures
            is_member(r, "view"@, float_matrix(4), 1),
    {
        GlslStructMember { name: String::from_str("view"), ty: Rc::new(mat4()), index: 1 }
    }

    /// The `projection` member: a mat4, third.
    pub fn projection() -> (r: GlslStructMember)
        ensures
            is_member(r, "projection"@, float_matrix(4), 2),
    {
        GlslStructMember { name: String::from_str("projection"), ty: Rc::new(mat4()), index: 2 }
    }

    /// The struct `Global` and its members, in order.
    pub fn glsl_struct() -> (r: GlslStruct)
        ensures
            r.name@ == "Global"@,
            r.members@.len() == 3,
            is_member(r.members@[0], "camera"@, float_matrix(4), 0),
            is_member(r.members@[1], "view"@, float_matrix(4), 1),
            is_member(r.members@[2], "projection"@, float_matrix(4), 2),
    {
        let mut members: Vec<GlslStructMember> = Vec::new();
        members.push(Global::camera());
        members.push(Global::view());
        members.push(Global::projection());
        GlslStruct { name: String::from_str("Global"), members }
    }

    /// The type of the struct `Global`.
    pub fn type_info() -> (r: SpirvType)
        ensures
            r matches SpirvType::Struct(st) && st.name@ == "Global"@ && st.members@.len() == 3 && is_member(
                st.members@[0],
                "camera"@,
                float_matrix(4),
                0,
            ) && is_member(st.members@[1], "view"@, float_matrix(4), 1) && is_member(
                st.members@[2],
                "projection"@,
                float_matrix(4),
                2,
            ),
    {
        SpirvType::Struct(Rc::new(Global::glsl_struct()))
    }
}

/// The operation can be registered and emitted into a block: its layouts fit, it holds
/// no bad operation nor the absent type, and every operand yields an object.
pub open spec fn sound(op: Op) -> bool {
    op_fits(op) && !reg_fails(op) && op_emit_error(op, true) is None
}

/// The type can be registered: its layouts fit and it is not the absent type.
pub open spec fn sound_type(t: SpirvType) -> bool {
    register_fits(t) && !has_no_type(t)
}

proof fn lemma_float_types_sound()
    ensures
        sound_type(float_vector(2)),
        sound_type(float_vector(3)),
        sound_type(float_vector(4)),
        sound_type(float_matrix(4)),
        sound_type(SpirvType::Bool(Bool)),
        width_fits(float_vector(4)),
        width_fits(float_matrix(4)),
        width_fits(SpirvType::Bool(Bool)),
        spec_width(float_vector(4)) == 16,
        spec_width(float_matrix(4)) == 64,
        spec_width(SpirvType::Bool(Bool)) == 4,
{
    reveal_with_fuel(register_fits, 3);
    reveal_with_fuel(has_no_type, 3);
    reveal_with_fuel(spec_width, 3);
    reveal_with_fuel(width_fits, 3);
}

proof fn lemma_struct_sound(t: SpirvType, a: SpirvType, b: SpirvType, c: SpirvType)
    requires
        t matches SpirvType::Struct(st) && st.members@.len() == 3 && *st.members@[0].ty == a && *st.members@[1].ty
            == b && *st.members@[2].ty == c,
        sound_type(a) && sound_type(b) && sound_type(c),
        spec_width(a) + spec_width(b) + spec_width(c) <= u32::MAX,
        width_fits(a) && width_fits(b) && width_fits(c),
    ensures
        sound_type(t),
{
    let ms = t->Struct_0.members@;
    assert(ms.drop_last().drop_last().drop_last() =~= Seq::<GlslStructMember>::empty());
    assert(ms.drop_last().drop_last().last() == ms[0]);
    assert(ms.drop_last().last() == ms[1]);
    assert(ms.last() == ms[2]);
    reveal_with_fuel(members_width, 4);
    reveal_with_fuel(members_fit, 4);
    reveal_with_fuel(members_register_fit, 4);
    reveal_with_fuel(members_have_no_type, 4);
    assert(members_width(ms) == spec_width(a) + spec_width(b) + spec_width(c));
    assert(members_fit(ms));
    assert(members_register_fit(ms));
    assert(!members_have_no_type(ms));
    assert(width_fits(t));
    assert(register_fits(t));
}

/// `op` is the variable named `name`.
pub open spec fn var_named(op: Op, name: Seq<char>) -> bool {
    match op {
        Op::Global(v) => v.name@ == name,
        Op::Input(v) => v.name@ == name,
        Op::Output(v) => v.name@ == name,
        Op::Uniform(v) => v.name@ == name,
        Op::BuiltIn(v) => v.name@ == name,
        _ => false,
    }
}

/// `op` loads the variable named `name`.
pub open spec fn loads_var(op: Op, name: Seq<char>) -> bool {
    match op {
        Op::Load(l) => var_named(*l.object, name),
        _ => false,
    }
}

/// `op` accesses the member at `index` of the uniform named `uniform`.
pub open spec fn accesses_member(op: Op, uniform: Seq<char>, index: u32) -> bool {
    match op {
        Op::Access(a) => var_named(*a.base, uniform) && a.access_chain@ == seq![index],
        _ => false,
    }
}

/// `op` loads the member at `index` of the uniform named `uniform`.
pub open spec fn loads_member(op: Op, uniform: Seq<char>, index: u32) -> bool {
    match op {
        Op::Load(l) => accesses_member(*l.object, uniform, index),
        _ => false,
    }
}

/// `op` is the position read at `location`, as a vector of four components whose last
/// is 1.0.
pub open spec fn homogeneous_position(op: Op) -> bool {
    match op {
        Op::ExpandVec(e) => loads_var(*e.source, "location"@) && e.constants@ == seq![0x3f80_0000u32],
        _ => false,
    }
}

/// `op` is model × the homogeneous position.
pub open spec fn model_position(op: Op) -> bool {
    match op {
        Op::MatrixTimesVector(m) => loads_member(*m.lhs, "model"@, 0) && homogeneous_position(*m.rhs),
        _ => false,
    }
}

/// `op` is view × camera.
pub open spec fn world_view(op: Op) -> bool {
    match op {
        Op::MatrixTimesMatrix(m) => loads_member(*m.lhs, "global"@, 1) && loads_member(*m.rhs, "global"@, 0),
        _ => false,
    }
}

/// `op` is projection × ((view × camera) × (model × the homogeneous position)).
pub open spec fn projected_position(op: Op) -> bool {
    match op {
        Op::MatrixTimesVector(p) => loads_member(*p.lhs, "global"@, 2) && match *p.rhs {
            Op::MatrixTimesVector(q) => world_view(*q.lhs) && model_position(*q.rhs),
            _ => false,
        },
        _ => false,
    }
}

/// `op` stores into the variable named `dest`, and its source satisfies `source`.
pub open spec fn stores_into(op: Op, dest: Seq<char>, source: spec_fn(Op) -> bool) -> bool {
    match op {
        Op::Store(st) => var_named(*st.dest, dest) && source(*st.source),
        _ => false,
    }
}

/// The operations of the vertex shader's `main`: the store of
/// projection × ((view × camera) × (model × vec4(location, 1))) to gl_Position, then the
/// copies of tex_coord to v_tex_coord and of normal to v_normal.
pub open spec fn vertex_main_ops(ops: Seq<Rc<Op>>) -> bool {
    &&& ops.len() == 3
    &&& stores_into(*ops[0], "gl_Position"@, |o: Op| projected_position(o))
    &&& stores_into(*ops[1], "v_tex_coord"@, |o: Op| loads_var(o, "tex_coord"@))
    &&& stores_into(*ops[2], "v_normal"@, |o: Op| loads_var(o, "normal"@))
}

/// The interface operations of the vertex shader, in order.
pub open spec fn vertex_interface_ops(ops: Seq<Rc<Op>>) -> bool {
    &&& ops.len() == 6
    &&& var_named(*ops[0], "location"@)
    &&& var_named(*ops[1], "normal"@)
    &&& var_named(*ops[2], "tex_coord"@)
    &&& var_named(*ops[3], "gl_Position"@)
    &&& var_named(*ops[4], "v_normal"@)
    &&& var_named(*ops[5], "v_tex_coord"@)
}

/// The vertex shader of physically based rendering: it transforms the position by the
/// model, world-view and projection transforms into the built-in position, and passes
/// the texture coordinates and the normal on.
pub fn vertex_shader() -> (r: Result<Shader, Error>)
    ensures
        r is Ok,
        r matches Ok(s) ==> {
            &&& s.wf()
            &&& s.spirv().entry_points.len() == 1
            &&& s.spirv().entry_points.last() matches Inst::EntryPoint { model, name, interface, .. } && model
                == ExecutionModel::Vertex && name == "main"@ && interface.len() == 6 && exists|ops: Seq<Rc<Op>>|
                vertex_interface_ops(ops) && all_interfaces(ops) && #[trigger] var_words(
                ops,
                interface,
                s.types(),
                s.ops(),
            )
            &&& exists|f: Function| f.name@ == "main"@ && f.return_op is None && vertex_main_ops(f.ops@)
                && #[trigger] function_body(f, s.spirv().functions[0].blocks[0], s.types(), s.ops())
            &&& s.spirv().functions.len() == 1
            &&& s.spirv().functions[0].ended
            &&& s.spirv().functions[0].blocks.len() == 1
            &&& s.interfaces().len() == 1
            &&& entries_view(s.interfaces()[0].input@) == seq![
                EntryModel { location: 0, name: "location"@, ty: float_vector(3), format: InterfaceFormat::R32G32B32Sfloat },
                EntryModel { location: 1, name: "normal"@, ty: float_vector(3), format: InterfaceFormat::R32G32B32Sfloat },
                EntryModel { location: 2, name: "tex_coord"@, ty: float_vector(2), format: InterfaceFormat::R32G32Sfloat },
            ]
            &&& entries_view(s.interfaces()[0].output@) == seq![
                EntryModel { location: 0, name: "v_normal"@, ty: float_vector(3), format: InterfaceFormat::R32G32B32Sfloat },
                EntryModel { location: 1, name: "v_tex_coord"@, ty: float_vector(2), format: InterfaceFormat::R32G32Sfloat },
            ]
            &&& s.interfaces()[0].num_sets == 0
        },
{
    let mut shader = Shader::new();
    proof { lemma_float_types_sound(); }

    let model_type = Model::type_info();
    let global_type = Global::type_info();
    proof {
        lemma_struct_sound(model_type, float_matrix(4), float_vector(4), SpirvType::Bool(Bool));
        lemma_struct_sound(global_type, float_matrix(4), float_matrix(4), float_matrix(4));
    }
    let model = UniformVar::new("model", model_type, 0, 0);
    let global = UniformVar::new("global", global_type, 1, 0);

    let position = InputVar::new("location", vec3(), 0);
    let normal = InputVar::new("normal", vec3(), 1);
    let tex_coord = InputVar::new("tex_coord", vec2(), 2);

    let v_normal = OutputVar::new("v_normal", vec3(), 0);
    let v_tex_coord = OutputVar::new("v_tex_coord", vec2(), 1);

    let gl_position = BuiltInVar::new("gl_Position", vec4(), StorageClass::Output, BuiltIn::Position);
    proof {
        assert(sound(*model));
        assert(sound(*global));
        assert(sound(*position));
        assert(sound(*normal));
        assert(sound(*tex_coord));
        assert(sound(*v_normal));
        assert(sound(*v_tex_coord));
        assert(sound(*gl_position));
    }

    let mut main = FunctionBuilder::new("main");
    let camera = match access_member(&global, &Global::camera()) {
        Ok(a) => a,
        Err(e) => return Err(e),
    };
    let view = match access_member(&global, &Global::view()) {
        Ok(a) => a,
        Err(e) => return Err(e),
    };
    proof {
        assert(sound(*camera));
        assert(sound(*view));
    }
    let load_view = load(view);
    let load_camera = load(camera.clone());
    proof {
        assert(sound(*load_view));
        assert(sound(*load_camera));
    }
    let worldview = crate::ops::mul(load_view, load_camera);
    proof { assert(sound(*worldview)); }

    let load_position = load(position.clone());
    proof { assert(sound(*load_position)); }
    let pos = match vec3_to_vec4(load_position, 0x3f80_0000u32) {
        Ok(p) => p,
        Err(e) => return Err(e),
    };
    proof { assert(sound(*pos)); }
    let model_member = match access_member(&model, &Model::model()) {
        Ok(a) => a,
        Err(e) => return Err(e),
    };
    proof { assert(sound(*model_member)); }
    let load_model = load(model_member);
    proof { assert(sound(*load_model)); }
    let pos = crate::ops::mul(load_model, pos);
    proof { assert(sound(*pos)); }
    let pos = crate::ops::mul(worldview, pos);
    proof { assert(sound(*pos)); }
    let projection = match access_member(&global, &Global::projection()) {
        Ok(a) => a,
        Err(e) => return Err(e),
    };
    proof { assert(sound(*projection)); }
    let load_projection = load(projection);
    proof { assert(sound(*load_projection)); }
    let pos = crate::ops::mul(load_projection, pos);
    proof { assert(sound(*pos)); }

    proof {
        reveal_with_fuel(spec_matches, 2);
        assert(spec_matches(float_vector(4), spec_op_type(*pos)));
    }
    let s1 = store(gl_position.clone(), pos);
    proof { assert(sound(*s1)); }
    main.op(s1);
    let load_tex = load(tex_coord.clone());
    proof { assert(sound(*load_tex)); }
    let s2 = store(v_tex_coord.clone(), load_tex);
    proof { assert(sound(*s2)); }
    main.op(s2);
    let load_normal = load(normal.clone());
    proof { assert(sound(*load_normal)); }
    let s3 = store(v_normal.clone(), load_normal);
    proof { assert(sound(*s3)); }
    main.op(s3);

    let mut interface: Vec<Rc<Op>> = Vec::new();
    interface.push(position.clone());
    interface.push(normal.clone());
    interface.push(tex_coord.clone());
    interface.push(gl_position.clone());
    interface.push(v_normal.clone());
    interface.push(v_tex_coord.clone());
    let function = main.returns_void();
    let ghost s0 = shader;
    proof {
        assert(ops_fit(function.ops@));
        assert(ops_fit(interface@));
        let ops = function.ops@;
        assert(!ops_fail(ops));
        reveal_with_fuel(ops_emit_error, 4);
        assert(ops.drop_last().drop_last().drop_last() =~= Seq::<Rc<Op>>::empty());
        assert(ops_emit_error(ops) is None);
        let iface = interface@;
        assert(!interface_fails(iface, false));
        reveal_with_fuel(ops_interface_error, 7);
        assert(ops_interface_error(iface) is None);
        reveal_strlit("main");
        assert(is_ascii_chars("main"@));
        is_ascii_chars_encode_utf8("main"@);
        assert(!has_nul("main"@));
        reveal_with_fuel(interface_entries, 7);
        reveal_with_fuel(set_count, 7);
        assert(iface.drop_last().drop_last().drop_last().drop_last().drop_last().drop_last() =~= Seq::<Rc<Op>>::empty());
    }
    let ghost f = function;
    let ghost iface = interface@;
    proof {
        assert(vertex_interface_ops(iface));
        assert(vertex_main_ops(f.ops@));
        reveal_strlit("main");
    }
    match shader.entry_point(ShaderKind::Vertex, function, interface) {
        Ok(()) => {},
        Err(e) => return Err(e),
    }
    proof {
        assert(s0.spirv().functions.len() == 0);
        assert(function_body(f, shader.spirv().functions[0].blocks[0], shader.types(), shader.ops()));
        let eps = shader.spirv().entry_points;
        assert(eps.last() matches Inst::EntryPoint { interface: words, .. } && var_words(iface, words, shader.types(), shader.ops()));
    }
    Ok(shader)
}

} // verus!
