use spvc::base::{SpirvShaderBase, StorageClass as BaseStorageClass};
use spvc::derive::{glsl_attribute, glsl_fields, glsl_struct_of, glsl_type_by_name, GlslAttribute, MetaItem};
use spvc::dims::{MatrixDims, VectorDims};
use spvc::errors::{BuildError, Error};
use spvc::function::FunctionBuilder;
use spvc::glsl_struct::{GlslStruct as InfoStruct, GlslStructMember as InfoMember, GlslType};
use spvc::interface::{interface_from_ops, InterfaceFormat};
use spvc::model::BuiltIn;
use spvc::ops::{access_member, load, mul, store, transpose, vec2_to_vec3, vec3_to_vec4, AccessTrait, Mul, Op};
use spvc::pbr::{vertex_shader, Global, Model};
use spvc::shader::{Shader, ShaderKind};
use spvc::storage_class::StorageClass;
use spvc::types::{mat3, mat4, vec2, vec3, vec4, Bool, Float, SpirvType, UnsignedInteger};
use spvc::vars::{BuiltInVar, GlobalVar, GlobalVariable, InputVar, OutputVar, UniformVar};


#[test]
fn matrix_dims_new_keeps_sizes() {
    let d = MatrixDims::new(2, 3);
    assert_eq!(d.cols, 2);
    assert_eq!(d.rows, 3);
    assert_eq!(VectorDims::new(4).count, 4);
}

#[test]
fn matrix_product_needs_matching_dims() {
    let a = MatrixDims::new(4, 3);
    let b = MatrixDims::new(2, 4);
    let m = a.matrix_mul_type(b).unwrap();
    assert_eq!(m.column_count, 2);
    assert_eq!(SpirvType::Matrix(m).display(), "mat2[vec3[float]]");
    match b.matrix_mul_type(b) {
        Err(Error::MatrixTimesMatrixMismatch(x, y)) => {
            assert_eq!(x, b);
            assert_eq!(y, b);
        },
        other => panic!("unexpected {:?}", other),
    }
}

#[test]
fn matrix_vector_product_needs_matching_columns() {
    let a = MatrixDims::new(4, 3);
    let v = a.vector_mul_type(VectorDims::new(4)).unwrap();
    assert_eq!(v.component_count, 3);
    assert!(matches!(a.vector_mul_type(VectorDims::new(3)), Err(Error::MatrixTimesVectorMismatch(_, _))));
    let b = MatrixDims::new(2, 3);
    assert_eq!(b.vector_mul_type(VectorDims::new(2)).unwrap().component_count, 3);
}

#[test]
fn transposing_twice_gives_back_the_dims() {
    let d = MatrixDims::new(4, 2);
    let once = d.transpose_type().unwrap();
    let dims = SpirvType::Matrix(once).as_matrix_dims().unwrap();
    assert_eq!(dims, MatrixDims::new(2, 4));
    let twice = dims.transpose_type().unwrap();
    assert_eq!(SpirvType::Matrix(twice).as_matrix_dims().unwrap(), d);
}

#[test]
fn storage_class_codes_round_trip() {
    assert_eq!(StorageClass::Uniform.code(), 2);
    assert_eq!(StorageClass::Image.code(), 11);
    for code in 0..12u32 {
        assert_eq!(StorageClass::from_code(code).unwrap().code(), code);
    }
    assert!(StorageClass::from_code(12).is_none());
    assert_eq!(BaseStorageClass::Output.code(), 3);
}

#[test]
fn widths_of_types() {
    assert_eq!(SpirvType::Float(Float).width(), 4);
    assert_eq!(vec3().width(), 12);
    assert_eq!(mat4().width(), 64);
    assert_eq!(mat3().width(), 36);
    assert_eq!(Model::type_info().width(), 84);
    assert_eq!(Global::type_info().width(), 192);
}

#[test]
fn display_of_types() {
    assert_eq!(vec3().display(), "vec3[float]");
    assert_eq!(mat4().display(), "mat4[vec4[float]]");
    assert_eq!(SpirvType::UnsignedInteger(UnsignedInteger).display(), "uint32_t");
    assert_eq!(SpirvType::Bool(Bool).display(), "bool");
    assert_eq!(SpirvType::NoType.display(), "<no type>");
    assert_eq!(Model::type_info().display(), "Model");
}

#[test]
fn matching_of_types() {
    assert!(vec3().matches(&vec3()));
    assert!(!vec3().matches(&vec4()));
    assert!(!vec2().matches(&SpirvType::Float(Float)));
    assert!(!SpirvType::NoType.matches(&SpirvType::NoType));
    assert!(Model::type_info().matches(&Model::type_info()));
    assert!(!Model::type_info().matches(&Global::type_info()));
    assert!(Model::model().matches(&Model::model()));
    assert!(!Model::model().matches(&Global::camera()));
}

#[test]
fn loading_a_non_pointer_is_a_bad_op() {
    let position = InputVar::new("position", vec3(), 0);
    let loaded = load(position);
    assert!(matches!(*loaded, Op::Load(_)));
    let twice = load(loaded);
    let bad = twice.as_bad_op().unwrap();
    assert_eq!(bad.op_name, "load");
    assert_eq!(bad.reason, "expected pointer");
    match bad.report() {
        Error::BadOp { op, reason, arguments } => {
            assert_eq!(op, "load");
            assert_eq!(reason, "expected pointer");
            assert_eq!(arguments, vec![String::from("vec3[float]")]);
        },
        other => panic!("unexpected {:?}", other),
    }
}

#[test]
fn report_finds_the_root_cause() {
    let position = InputVar::new("position", vec3(), 0);
    let bad = load(load(position));
    let worse = mul(bad, load(InputVar::new("m", mat4(), 1)));
    match worse.as_bad_op().unwrap().report() {
        Error::BadOp { op, reason, .. } => {
            assert_eq!(op, "load");
            assert_eq!(reason, "expected pointer");
        },
        other => panic!("unexpected {:?}", other),
    }
}

#[test]
fn products_are_typed() {
    let m = load(InputVar::new("m", mat4(), 0));
    let v = load(InputVar::new("v", vec4(), 1));
    let mv = mul(m.clone(), v.clone());
    assert!(matches!(*mv, Op::MatrixTimesVector(_)));
    assert_eq!(mv.op_type().display(), "vec4[float]");
    let mm = mul(m.clone(), m.clone());
    assert!(matches!(*mm, Op::MatrixTimesMatrix(_)));
    let vm = mul(v, m);
    assert!(vm.as_bad_op().is_some());
    let t = transpose(mm);
    assert_eq!(t.op_type().display(), "mat4[vec4[float]]");
    let pair = Mul::new(1u32, 2u32);
    assert_eq!(pair.lhs + pair.rhs, 3);
}

#[test]
fn expanding_vectors() {
    let v = load(InputVar::new("v", vec3(), 0));
    let e = vec3_to_vec4(v.clone(), 0x3f80_0000).unwrap();
    assert_eq!(e.op_type().display(), "vec4[float]");
    match vec2_to_vec3(v, 0) {
        Err(Error::VecMismatch(name, found)) => {
            assert_eq!(name, "vec2_to_vec3");
            assert_eq!(found, "vec3[float]");
        },
        other => panic!("unexpected {:?}", other.is_ok()),
    }
}

#[test]
fn storing_needs_matching_types() {
    let out = OutputVar::new("out", vec3(), 0);
    let good = store(out.clone(), load(InputVar::new("in", vec3(), 0)));
    assert!(matches!(*good, Op::Store(_)));
    let bad = store(out, load(InputVar::new("in2", vec2(), 1)));
    assert_eq!(bad.as_bad_op().unwrap().reason, "argument type mismatch");
}

#[test]
fn accessing_members() {
    let global = UniformVar::new("global", Global::type_info(), 1, 0);
    let view = global.access_member(&Global::view()).unwrap();
    assert_eq!(view.access_chain().unwrap(), &vec![1u32]);
    assert_eq!(view.storage_class(), Some(StorageClass::Uniform));
    assert_eq!(load(view).op_type().display(), "mat4[vec4[float]]");
    let value = load(InputVar::new("v", vec3(), 0));
    assert!(matches!(access_member(&value, &Global::view()), Err(Error::NoStorageClass)));
}

#[test]
fn registering_a_type_twice_gives_the_same_id() {
    let mut shader = Shader::new();
    let a = shader.register_type(&mat4()).unwrap();
    let b = shader.register_type(&mat4()).unwrap();
    assert_eq!(a, b);
    let c = shader.register_type(&vec4()).unwrap();
    assert_ne!(a, c);
    assert!(matches!(shader.register_type(&SpirvType::NoType), Err(Error::NoType)));
}

#[test]
fn registering_a_struct_declares_its_layout() {
    let mut shader = Shader::new();
    let st = Model::type_info();
    let id = shader.register_type(&st).unwrap();
    let module = shader.module();
    let last = module.annotations.last().unwrap();
    assert_eq!(last.class.opcode, rspirv::spirv::Op::Decorate);
    assert_eq!(last.operands[0], rspirv::dr::Operand::IdRef(id));
    assert_eq!(last.operands[1], rspirv::dr::Operand::Decoration(rspirv::spirv::Decoration::Block));
    // model at 0 (offset, col-major, stride), base_color_factor at 64, use_base_color_texture at 80.
    assert_eq!(module.annotations.len(), 3 + 1 + 1 + 1);
    assert_eq!(module.annotations[3].operands[3], rspirv::dr::Operand::LiteralBit32(64));
    assert_eq!(module.annotations[4].operands[3], rspirv::dr::Operand::LiteralBit32(80));
    assert_eq!(module.debug_names.len(), 1 + 3);
}

#[test]
fn registering_a_variable_twice_gives_the_same_id() {
    let mut shader = Shader::new();
    let v = GlobalVariable::new("colour", vec4(), StorageClass::Output).with_location(3).build();
    let a = v.register_variable(&mut shader).unwrap();
    let b = v.register_variable(&mut shader).unwrap();
    assert_eq!(a, b);
    let input = InputVar::new("position", vec3(), 0);
    let x = input.register_op(&mut shader).unwrap();
    let y = input.register_op(&mut shader).unwrap();
    assert_eq!(x.op_id(&mut shader).unwrap(), y.op_id(&mut shader).unwrap());
}

#[test]
fn global_var_builder_sets_decorations() {
    let v = GlobalVar::new("u", mat4(), StorageClass::Uniform).with_set(2).with_binding(5);
    assert_eq!(v.set, Some(2));
    assert_eq!(v.binding, Some(5));
    assert!(v.location.is_none());
    let op = v.build();
    assert!(op.as_interface().is_some());
    let no_location = GlobalVar::new("i", vec3(), StorageClass::Input).build();
    assert!(no_location.as_interface().is_none());
    let with_location = GlobalVar::new("i", vec3(), StorageClass::Input).with_location(1).with_built_in(BuiltIn::Position).build();
    assert!(with_location.as_interface().is_some());
}

#[test]
fn emitting_outside_a_block_fails() {
    let mut shader = Shader::new();
    let value = load(InputVar::new("position", vec3(), 0));
    let reg = value.register_op(&mut shader).unwrap();
    assert!(matches!(reg.op_id(&mut shader), Err(Error::Builder(BuildError::DetachedInstruction))));
}

#[test]
fn entry_point_of_a_void_function() {
    let mut shader = Shader::new();
    let input = InputVar::new("in_colour", vec4(), 0);
    let output = OutputVar::new("out_colour", vec4(), 0);
    let mut main = FunctionBuilder::new("main");
    main.op(store(output.clone(), load(input.clone())));
    shader.entry_point(ShaderKind::Fragment, main.returns_void(), vec![input, output]).unwrap();
    let interfaces = shader.entry_point_interfaces();
    assert_eq!(interfaces.len(), 1);
    assert_eq!(interfaces[0].input.len(), 1);
    assert_eq!(interfaces[0].output.len(), 1);
    assert_eq!(interfaces[0].input[0].location, 0);
    assert_eq!(interfaces[0].input[0].name, "in_colour");
    let module = shader.module();
    assert_eq!(module.functions.len(), 1);
    assert_eq!(module.entry_points.len(), 1);
}

#[test]
fn entry_point_with_a_bad_op_fails() {
    let mut shader = Shader::new();
    let mut main = FunctionBuilder::new("main");
    main.op(load(load(InputVar::new("position", vec3(), 0))));
    let r = shader.entry_point(ShaderKind::Vertex, main.returns_void(), vec![]);
    assert!(matches!(r, Err(Error::BadOp { .. })));
}

#[test]
fn functions_register_one_after_another() {
    let mut shader = Shader::new();
    let input = InputVar::new("in_colour", vec4(), 0);
    let mut f = FunctionBuilder::new("f");
    f.op(load(input.clone()));
    let value = f.returns_value(load(input.clone()));
    let id = value.register_function(&mut shader);
    assert!(id.is_ok());
    let g = FunctionBuilder::new("g").returns_void();
    assert!(g.register_function(&mut shader).is_ok());
}

#[test]
fn interface_needs_interface_operations() {
    let input = InputVar::new("position", vec3(), 0);
    let value = load(input.clone());
    assert!(matches!(
        interface_from_ops(String::from("main"), ShaderKind::Vertex, &vec![input.clone(), value]),
        Err(Error::NotInterface)
    ));
    assert!(matches!(
        interface_from_ops(String::from("ma\0in"), ShaderKind::Vertex, &vec![input.clone()]),
        Err(Error::NulInName)
    ));
    let model = UniformVar::new("model", Model::type_info(), 0, 0);
    let global = UniformVar::new("global", Global::type_info(), 3, 1);
    let again = UniformVar::new("again", Global::type_info(), 3, 2);
    let builtin = BuiltInVar::new("gl_Position", vec4(), StorageClass::Output, BuiltIn::Position);
    let si = interface_from_ops(String::from("main"), ShaderKind::Vertex, &vec![input, model, global, again, builtin]).unwrap();
    assert_eq!(si.num_sets, 4);
    assert_eq!(si.input.len(), 1);
    assert!(si.output.is_empty());
    assert_eq!(si.bindings.len(), 2);
    assert_eq!(si.bindings.get(&0), Some(&0));
    assert_eq!(si.bindings.get(&3), Some(&2));
    assert_eq!(si.descriptors.len(), 3);
}

#[test]
fn interface_variables_need_a_format() {
    let colour = InputVar::new("colour", vec4(), 0);
    let flag = OutputVar::new("flag", SpirvType::Bool(Bool), 0);
    let matrix = InputVar::new("matrix", mat4(), 1);
    let si = interface_from_ops(String::from("main"), ShaderKind::Fragment, &vec![colour.clone()]).unwrap();
    assert_eq!(si.input[0].format, InterfaceFormat::R32G32B32A32Sfloat);
    assert!(matches!(
        interface_from_ops(String::from("main"), ShaderKind::Fragment, &vec![colour.clone(), flag.clone()]),
        Err(Error::IllegalInterfaceType)
    ));
    assert!(matches!(
        interface_from_ops(String::from("main"), ShaderKind::Vertex, &vec![matrix]),
        Err(Error::IllegalInterfaceType)
    ));
    let value = load(colour.clone());
    assert!(matches!(
        interface_from_ops(String::from("main"), ShaderKind::Fragment, &vec![value, flag.clone()]),
        Err(Error::NotInterface)
    ));
    assert!(matches!(
        interface_from_ops(String::from("ma\0in"), ShaderKind::Fragment, &vec![flag]),
        Err(Error::IllegalInterfaceType)
    ));
    let scalar = InputVar::new("scalar", SpirvType::Float(Float), 2);
    let si = interface_from_ops(String::from("main"), ShaderKind::Vertex, &vec![scalar]).unwrap();
    assert_eq!(si.input[0].format, InterfaceFormat::R32Sfloat);
}

#[test]
fn the_pbr_vertex_shader_builds() {
    let shader = vertex_shader().unwrap();
    assert_eq!(shader.entry_point_interfaces().len(), 1);
    let si = &shader.entry_point_interfaces()[0];
    assert_eq!(si.input.len(), 3);
    assert_eq!(si.output.len(), 2);
    assert_eq!(si.output[1].name, "v_tex_coord");
    assert_eq!(si.output[1].format, InterfaceFormat::R32G32Sfloat);
    let module = shader.module();
    assert_eq!(module.entry_points.len(), 1);
    assert_eq!(module.functions.len(), 1);
    assert_eq!(module.functions[0].blocks.len(), 1);
}

#[test]
fn base_types_are_declared_once() {
    let mut base = SpirvShaderBase::new();
    let f = base.type_float(32);
    assert_eq!(base.type_float(32), f);
    let v = base.type_vector(f, 4);
    assert_eq!(base.type_vector(f, 4), v);
    let u = base.type_uint(32);
    let one = base.constant_u32(u, 1);
    assert_eq!(base.constant_u32(u, 1), one);
    assert_ne!(base.constant_u32(u, 2), one);
    let p = base.type_pointer(BaseStorageClass::Uniform, v);
    assert_eq!(base.type_pointer(BaseStorageClass::Uniform, v), p);
    let b = base.type_bool();
    let s = base.type_struct(vec![b, v]);
    assert_eq!(base.type_struct(vec![b, v]), s);
    let a = base.type_array(f, one);
    let m = base.type_matrix(v, 4);
    assert_ne!(a, m);
}

#[test]
fn glsl_struct_declares_its_layout() {
    let mut base = SpirvShaderBase::new();
    let info = InfoStruct {
        name: String::from("GlobalUniform"),
        members: vec![
            InfoMember { name: String::from("camera"), ty: GlslType::Mat4 },
            InfoMember { name: String::from("tint"), ty: GlslType::Vec3 },
            InfoMember { name: String::from("enabled"), ty: GlslType::Bool },
        ],
    };
    let st = base.glsl_struct(info);
    let again = InfoStruct {
        name: String::from("Other"),
        members: vec![
            InfoMember { name: String::from("camera"), ty: GlslType::Mat4 },
            InfoMember { name: String::from("tint"), ty: GlslType::Vec3 },
            InfoMember { name: String::from("enabled"), ty: GlslType::Bool },
        ],
    };
    assert_eq!(base.glsl_struct(again), st);
    let module = base.module();
    // Offset 0, col-major, stride 16 for the matrix; offsets 64 and 76 after it; two blocks.
    assert_eq!(module.annotations.len(), 2 * (3 + 2 + 1));
    assert_eq!(module.annotations[2].operands[2], rspirv::dr::Operand::Decoration(rspirv::spirv::Decoration::MatrixStride));
    assert_eq!(module.annotations[2].operands[3], rspirv::dr::Operand::LiteralBit32(16));
    assert_eq!(module.annotations[3].operands[1], rspirv::dr::Operand::LiteralBit32(1));
    assert_eq!(module.annotations[3].operands[3], rspirv::dr::Operand::LiteralBit32(64));
    assert_eq!(module.annotations[5].operands.len(), 2);
}

#[test]
fn gl_per_vertex_is_declared_once() {
    let mut base = SpirvShaderBase::new();
    let a = base.gl_per_vertex();
    let b = base.gl_per_vertex();
    assert_eq!(a, b);
    let module = base.module();
    assert_eq!(module.debug_names.len(), 5);
    assert_eq!(module.annotations.len(), 5);
    let position = &module.annotations[1];
    assert_eq!(position.class.opcode, rspirv::spirv::Op::MemberDecorate);
    assert_eq!(position.operands[1], rspirv::dr::Operand::LiteralBit32(0));
    assert_eq!(position.operands[2], rspirv::dr::Operand::Decoration(rspirv::spirv::Decoration::BuiltIn));
    assert_eq!(position.operands[3], rspirv::dr::Operand::BuiltIn(rspirv::spirv::BuiltIn::Position));
}

#[test]
fn glsl_type_names() {
    assert_eq!(glsl_type_by_name("vec3").unwrap().display(), "vec3[float]");
    assert_eq!(glsl_type_by_name("mat4").unwrap().display(), "mat4[vec4[float]]");
    assert_eq!(glsl_type_by_name("bool").unwrap().display(), "bool");
    assert_eq!(glsl_type_by_name("float").unwrap().display(), "float");
    assert!(glsl_type_by_name("dvec3").is_none());
}

#[test]
fn glsl_attributes_name_their_type() {
    let items = vec![
        MetaItem { name: String::from("other"), value: Some(String::from("x")) },
        MetaItem { name: String::from("ty"), value: Some(String::from("vec3")) },
        MetaItem { name: String::from("ty"), value: None },
    ];
    assert_eq!(glsl_attribute(Some("glsl"), &items).ty, Some(String::from("vec3")));
    assert_eq!(glsl_attribute(Some("serde"), &items).ty, None);
    assert_eq!(glsl_attribute(None, &items).ty, None);
    assert_eq!(glsl_attribute(Some("glsl"), &vec![]).ty, None);
}

#[test]
fn derived_fields_take_their_positions() {
    let idents = vec![String::from("camera"), String::from("tint")];
    let attributes = vec![
        GlslAttribute { ty: Some(String::from("mat4")) },
        GlslAttribute { ty: Some(String::from("vec4")) },
    ];
    let fields = glsl_fields(&idents, &attributes);
    assert_eq!(fields.len(), 2);
    assert_eq!(fields[1].index, 1);
    assert_eq!(fields[1].ident, "tint");
    let st = glsl_struct_of("Lights", &fields);
    assert_eq!(st.name, "Lights");
    assert_eq!(st.members[0].index, 0);
    assert_eq!(st.members[0].ty.display(), "mat4[vec4[float]]");
}

#[test]
fn pbr_struct_members() {
    let m = Model::glsl_struct();
    assert_eq!(m.name, "Model");
    assert_eq!(m.members.len(), 3);
    assert_eq!(Model::use_base_color_texture().index, 2);
    assert_eq!(Global::projection().name, "projection");
}
