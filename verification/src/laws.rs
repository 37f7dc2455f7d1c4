//! Laws of type matching, of the dimensions of matrix operations, of struct layout, of
//! how variables are decorated and take part in interfaces, and of execution models.
use crate::dims::MatrixDims;
use crate::interface::{spec_format, spec_interface, InterfaceFormat, InterfaceModel};
use crate::model::{BuiltIn, Decoration, ExecutionModel, Inst, Word};
use crate::ops::{spec_storage_class, var_declaration, var_pointer, Op};
use crate::shader::{has_no_type, member_layout, members_have_no_type, spec_execution_model, struct_layout, ShaderKind};
use crate::storage_class::StorageClass;
use crate::types::{
    is_float_matrix, members_match, members_width, spec_matches, spec_matrix_dims, spec_width, width_fits,
    GlslStruct, GlslStructMember, Matrix, SpirvType,
};
use crate::vars::{BuiltInVar, GlobalVar, InputVar, OutputVar, UniformVar};
use std::rc::Rc;
use vstd::prelude::*;

verus! {

/// The type behind a shared reference.
pub open spec fn rc_type(r: std::rc::Rc<SpirvType>) -> SpirvType {
    *r
}

/// Matching is symmetric: `a` matches `b` exactly when `b` matches `a`.
pub proof fn lemma_matches_symmetric(a: SpirvType, b: SpirvType)
    ensures
        spec_matches(a, b) == spec_matches(b, a),
    decreases a,
{
    match (a, b) {
        (SpirvType::Vector(x), SpirvType::Vector(y)) => lemma_matches_symmetric(rc_type(x.component), rc_type(y.component)),
        (SpirvType::Matrix(x), SpirvType::Matrix(y)) => lemma_matches_symmetric(rc_type(x.column_type), rc_type(y.column_type)),
        (SpirvType::Pointer(x), SpirvType::Pointer(y)) => lemma_matches_symmetric(rc_type(x.pointee_type), rc_type(y.pointee_type)),
        (SpirvType::Struct(x), SpirvType::Struct(y)) => lemma_members_match_symmetric(x.members@, y.members@),
        _ => {},
    }
}

/// Member lists match symmetrically.
pub proof fn lemma_members_match_symmetric(xs: Seq<GlslStructMember>, ys: Seq<GlslStructMember>)
    ensures
        members_match(xs, ys) == members_match(ys, xs),
    decreases xs,
{
    if xs.len() == ys.len() && xs.len() > 0 {
        lemma_members_match_symmetric(xs.drop_last(), ys.drop_last());
        lemma_matches_symmetric(rc_type(xs.last().ty), rc_type(ys.last().ty));
    }
}

/// Every type that is not, and holds no part that is, the absent type matches itself.
pub proof fn lemma_matches_reflexive(a: SpirvType)
    requires
        !has_no_type(a),
    ensures
        spec_matches(a, a),
    decreases a,
{
    match a {
        SpirvType::Vector(x) => lemma_matches_reflexive(rc_type(x.component)),
        SpirvType::Matrix(x) => lemma_matches_reflexive(rc_type(x.column_type)),
        SpirvType::Pointer(x) => lemma_matches_reflexive(rc_type(x.pointee_type)),
        SpirvType::Struct(x) => lemma_members_match_reflexive(x.members@),
        _ => {},
    }
}

/// A member list with no absent type matches itself.
pub proof fn lemma_members_match_reflexive(xs: Seq<GlslStructMember>)
    requires
        !members_have_no_type(xs),
    ensures
        members_match(xs, xs),
    decreases xs,
{
    if xs.len() > 0 {
        lemma_members_match_reflexive(xs.drop_last());
        lemma_matches_reflexive(rc_type(xs.last().ty));
    }
}

/// Matching is transitive.
pub proof fn lemma_matches_transitive(a: SpirvType, b: SpirvType, c: SpirvType)
    requires
        spec_matches(a, b),
        spec_matches(b, c),
    ensures
        spec_matches(a, c),
    decreases a,
{
    match (a, b, c) {
        (SpirvType::Vector(x), SpirvType::Vector(y), SpirvType::Vector(z)) => lemma_matches_transitive(
            rc_type(x.component),
            rc_type(y.component),
            rc_type(z.component),
        ),
        (SpirvType::Matrix(x), SpirvType::Matrix(y), SpirvType::Matrix(z)) => lemma_matches_transitive(
            rc_type(x.column_type),
            rc_type(y.column_type),
            rc_type(z.column_type),
        ),
        (SpirvType::Pointer(x), SpirvType::Pointer(y), SpirvType::Pointer(z)) => lemma_matches_transitive(
            rc_type(x.pointee_type),
            rc_type(y.pointee_type),
            rc_type(z.pointee_type),
        ),
        (SpirvType::Struct(x), SpirvType::Struct(y), SpirvType::Struct(z)) => lemma_members_match_transitive(
            x.members@,
            y.members@,
            z.members@,
        ),
        _ => {},
    }
}

/// Matching of member lists is transitive.
pub proof fn lemma_members_match_transitive(xs: Seq<GlslStructMember>, ys: Seq<GlslStructMember>, zs: Seq<GlslStructMember>)
    requires
        members_match(xs, ys),
        members_match(ys, zs),
    ensures
        members_match(xs, zs),
    decreases xs,
{
    if xs.len() > 0 {
        lemma_members_match_transitive(xs.drop_last(), ys.drop_last(), zs.drop_last());
        lemma_matches_transitive(rc_type(xs.last().ty), rc_type(ys.last().ty), rc_type(zs.last().ty));
    }
}

/// Matching types have the same width.
pub proof fn lemma_matches_same_width(a: SpirvType, b: SpirvType)
    requires
        spec_matches(a, b),
    ensures
        spec_width(a) == spec_width(b),
    decreases a,
{
    match (a, b) {
        (SpirvType::Vector(x), SpirvType::Vector(y)) => lemma_matches_same_width(rc_type(x.component), rc_type(y.component)),
        (SpirvType::Matrix(x), SpirvType::Matrix(y)) => lemma_matches_same_width(rc_type(x.column_type), rc_type(y.column_type)),
        (SpirvType::Struct(x), SpirvType::Struct(y)) => lemma_members_same_width(x.members@, y.members@),
        _ => {},
    }
}

/// Matching member lists have the same width.
pub proof fn lemma_members_same_width(xs: Seq<GlslStructMember>, ys: Seq<GlslStructMember>)
    requires
        members_match(xs, ys),
    ensures
        members_width(xs) == members_width(ys),
    decreases xs,
{
    if xs.len() > 0 {
        lemma_members_same_width(xs.drop_last(), ys.drop_last());
        lemma_matches_same_width(rc_type(xs.last().ty), rc_type(ys.last().ty));
    }
}

/// The type a transposition gives has the rows as columns and the columns as rows;
/// transposing twice gives back the dimensions.
pub proof fn lemma_transpose_twice(d: MatrixDims, once: Matrix, twice: Matrix)
    requires
        is_float_matrix(once, d.rows, d.cols),
        is_float_matrix(twice, d.cols, d.rows),
    ensures
        spec_matrix_dims(SpirvType::Matrix(once)) == Some(MatrixDims { cols: d.rows, rows: d.cols }),
        spec_matrix_dims(SpirvType::Matrix(twice)) == Some(d),
{
}

/// A struct is as wide as the offset of its last member, the sum of the widths of the
/// members before it, plus the width of that member.
pub proof fn lemma_struct_width_last_offset(st: Rc<GlslStruct>)
    requires
        st.members@.len() > 0,
    ensures
        members_width(st.members@.drop_last()) + spec_width(*st.members@.last().ty) == spec_width(
            SpirvType::Struct(st),
        ),
{
    assert(spec_width(SpirvType::Struct(st)) == members_width(st.members@));
    assert(members_width(st.members@) == members_width(st.members@.drop_last()) + spec_width(
        *st.members@.last().ty,
    ));
}

/// The execution model of an entry point is the one its shader kind names: a vertex
/// shader runs as Vertex (SPIR-V code 0), a fragment shader as Fragment (code 4), and
/// two different kinds never share an execution model.
pub proof fn law_execution_model_of_kind(k: ShaderKind, other: ShaderKind)
    ensures
        (spec_execution_model(k) == ExecutionModel::Vertex) <==> (k == ShaderKind::Vertex),
        (spec_execution_model(k) == ExecutionModel::Fragment) <==> (k == ShaderKind::Fragment),
        (spec_execution_model(k).spec_code() == 0) <==> (k == ShaderKind::Vertex),
        (spec_execution_model(k).spec_code() == 4) <==> (k == ShaderKind::Fragment),
        spec_execution_model(k) == spec_execution_model(other) ==> k == other,
{
}

/// A uniform variable is declared in the Uniform storage class under its own name, and
/// decorated with exactly its own descriptor set and its own binding.
pub proof fn law_uniform_decorations(v: UniformVar)
    ensures
        var_declaration(Op::Uniform(v)).0 == v.name@,
        var_declaration(Op::Uniform(v)).1 == StorageClass::Uniform,
        var_declaration(Op::Uniform(v)).2.contains(Decoration::DescriptorSet(v.set)),
        var_declaration(Op::Uniform(v)).2.contains(Decoration::Binding(v.binding)),
        forall|d: Decoration| #[trigger] var_declaration(Op::Uniform(v)).2.contains(d) ==> d == Decoration::DescriptorSet(
            v.set,
        ) || d == Decoration::Binding(v.binding),
        forall|s: u32| #[trigger] var_declaration(Op::Uniform(v)).2.contains(Decoration::DescriptorSet(s)) ==> s == v.set,
        forall|b: u32| #[trigger] var_declaration(Op::Uniform(v)).2.contains(Decoration::Binding(b)) ==> b == v.binding,
{
    let ds = var_declaration(Op::Uniform(v)).2;
    assert(ds[0] == Decoration::DescriptorSet(v.set));
    assert(ds[1] == Decoration::Binding(v.binding));
}

/// An input variable is declared in the Input storage class under its own name, and
/// decorated with exactly its own location.
pub proof fn law_input_decorations(v: InputVar)
    ensures
        var_declaration(Op::Input(v)).0 == v.name@,
        var_declaration(Op::Input(v)).1 == StorageClass::Input,
        var_declaration(Op::Input(v)).2.contains(Decoration::Location(v.location)),
        forall|d: Decoration| #[trigger] var_declaration(Op::Input(v)).2.contains(d) ==> d == Decoration::Location(
            v.location,
        ),
{
    assert(var_declaration(Op::Input(v)).2[0] == Decoration::Location(v.location));
}

/// An output variable is declared in the Output storage class under its own name, and
/// decorated with exactly its own location.
pub proof fn law_output_decorations(v: OutputVar)
    ensures
        var_declaration(Op::Output(v)).0 == v.name@,
        var_declaration(Op::Output(v)).1 == StorageClass::Output,
        var_declaration(Op::Output(v)).2.contains(Decoration::Location(v.location)),
        forall|d: Decoration| #[trigger] var_declaration(Op::Output(v)).2.contains(d) ==> d == Decoration::Location(
            v.location,
        ),
{
    assert(var_declaration(Op::Output(v)).2[0] == Decoration::Location(v.location));
}

/// A built-in variable is declared in its own storage class under its own name, and
/// decorated with exactly its own built-in.
pub proof fn law_built_in_decorations(v: BuiltInVar)
    ensures
        var_declaration(Op::BuiltIn(v)).0 == v.name@,
        var_declaration(Op::BuiltIn(v)).1 == v.storage_class,
        var_declaration(Op::BuiltIn(v)).2.contains(Decoration::BuiltIn(v.built_in)),
        forall|d: Decoration| #[trigger] var_declaration(Op::BuiltIn(v)).2.contains(d) ==> d == Decoration::BuiltIn(
            v.built_in,
        ),
{
    assert(var_declaration(Op::BuiltIn(v)).2[0] == Decoration::BuiltIn(v.built_in));
}

/// A global variable is declared in its own storage class under its own name, and
/// decorated with a descriptor set, a binding, a location or a built-in exactly when
/// it has one, with its own value, and with nothing else.
pub proof fn law_global_decorations(v: GlobalVar)
    ensures
        var_declaration(Op::Global(v)).0 == v.name@,
        var_declaration(Op::Global(v)).1 == v.storage_class,
        forall|s: u32| #[trigger] var_declaration(Op::Global(v)).2.contains(Decoration::DescriptorSet(s)) <==> v.set
            == Some(s),
        forall|b: u32| #[trigger] var_declaration(Op::Global(v)).2.contains(Decoration::Binding(b)) <==> v.binding
            == Some(b),
        forall|l: u32| #[trigger] var_declaration(Op::Global(v)).2.contains(Decoration::Location(l)) <==> v.location
            == Some(l),
        forall|x: BuiltIn| #[trigger] var_declaration(Op::Global(v)).2.contains(Decoration::BuiltIn(x)) <==> v.built_in
            == Some(x),
        forall|d: Decoration| #[trigger] var_declaration(Op::Global(v)).2.contains(d) ==> d is DescriptorSet || d is Binding
            || d is Location || d is BuiltIn,
{
    let a: Seq<Decoration> = match v.set {
        Some(s) => seq![Decoration::DescriptorSet(s)],
        None => Seq::empty(),
    };
    let b: Seq<Decoration> = match v.binding {
        Some(x) => seq![Decoration::Binding(x)],
        None => Seq::empty(),
    };
    let c: Seq<Decoration> = match v.location {
        Some(x) => seq![Decoration::Location(x)],
        None => Seq::empty(),
    };
    let e: Seq<Decoration> = match v.built_in {
        Some(x) => seq![Decoration::BuiltIn(x)],
        None => Seq::empty(),
    };
    let ds = var_declaration(Op::Global(v)).2;
    assert(ds == a + b + c + e);
    assert forall|d: Decoration| #[trigger] ds.contains(d) <==> (a.contains(d) || b.contains(d) || c.contains(d)
        || e.contains(d)) by {
        if ds.contains(d) {
            let i = choose|i: int| 0 <= i < ds.len() && ds[i] == d;
            if i < a.len() {
                assert(a[i] == d);
            } else if i < a.len() + b.len() {
                assert(b[i - a.len()] == d);
            } else if i < a.len() + b.len() + c.len() {
                assert(c[i - a.len() - b.len()] == d);
            } else {
                assert(e[i - a.len() - b.len() - c.len()] == d);
            }
        }
        if a.contains(d) {
            assert(ds[0] == d);
        }
        if b.contains(d) {
            assert(ds[a.len() as int] == d);
        }
        if c.contains(d) {
            assert(ds[(a.len() + b.len()) as int] == d);
        }
        if e.contains(d) {
            assert(ds[(a.len() + b.len() + c.len()) as int] == d);
        }
    }
    assert forall|s: u32| #[trigger] ds.contains(Decoration::DescriptorSet(s)) <==> v.set == Some(s) by {
        if v.set == Some(s) {
            assert(a[0] == Decoration::DescriptorSet(s));
        }
    }
    assert forall|x: u32| #[trigger] ds.contains(Decoration::Binding(x)) <==> v.binding == Some(x) by {
        if v.binding == Some(x) {
            assert(b[0] == Decoration::Binding(x));
        }
    }
    assert forall|x: u32| #[trigger] ds.contains(Decoration::Location(x)) <==> v.location == Some(x) by {
        if v.location == Some(x) {
            assert(c[0] == Decoration::Location(x));
        }
    }
    assert forall|x: BuiltIn| #[trigger] ds.contains(Decoration::BuiltIn(x)) <==> v.built_in == Some(x) by {
        if v.built_in == Some(x) {
            assert(e[0] == Decoration::BuiltIn(x));
        }
    }
}

/// Matching types are of the same kind: a bool matches only a bool, a float only a
/// float, an unsigned integer only an unsigned integer, and so on; a vector matches
/// only a vector of as many components, a matrix only a matrix of as many columns; the
/// absent type matches nothing.
pub proof fn law_matching_types_same_kind(a: SpirvType, b: SpirvType)
    requires
        spec_matches(a, b),
    ensures
        a is Bool <==> b is Bool,
        a is Float <==> b is Float,
        a is UnsignedInteger <==> b is UnsignedInteger,
        a is Vector <==> b is Vector,
        a is Matrix <==> b is Matrix,
        a is Pointer <==> b is Pointer,
        a is Struct <==> b is Struct,
        !(a is NoType) && !(b is NoType),
        a matches SpirvType::Vector(x) ==> b matches SpirvType::Vector(y) && x.component_count == y.component_count,
        a matches SpirvType::Matrix(x) ==> b matches SpirvType::Matrix(y) && x.column_count == y.column_count,
        a matches SpirvType::Struct(x) ==> b matches SpirvType::Struct(y) && x.name@ == y.name@
            && x.members@.len() == y.members@.len(),
        spec_width(a) == spec_width(b),
{
    lemma_matches_same_width(a, b);
    match (a, b) {
        (SpirvType::Struct(x), SpirvType::Struct(y)) => {
            assert(members_match(x.members@, y.members@));
            assert(x.members@.len() == y.members@.len());
        },
        _ => {},
    }
}

/// An operation's role in an interface agrees with its storage class: inputs are in
/// the Input class, outputs in the Output class, uniforms in the Uniform class; each
/// entry carries the variable's own name and the type its pointer points to.
pub proof fn law_interface_role_follows_storage_class(op: Op)
    ensures
        spec_interface(op) matches Some(InterfaceModel::Input { name, ty, .. }) ==> (spec_storage_class(op)
            == Some(StorageClass::Input) && name == var_declaration(op).0 && (var_pointer(op) matches SpirvType::Pointer(
            p,
        ) && *p.pointee_type == ty)),
        spec_interface(op) matches Some(InterfaceModel::Output { name, ty, .. }) ==> (spec_storage_class(op)
            == Some(StorageClass::Output) && name == var_declaration(op).0 && (var_pointer(op) matches SpirvType::Pointer(
            p,
        ) && *p.pointee_type == ty)),
        spec_interface(op) matches Some(InterfaceModel::Uniform { name, ty, .. }) ==> (spec_storage_class(op)
            == Some(StorageClass::Uniform) && name == var_declaration(op).0 && (var_pointer(op) matches SpirvType::Pointer(
            p,
        ) && *p.pointee_type == ty)),
        spec_storage_class(op) == Some(StorageClass::Input) ==> !(spec_interface(op) matches Some(
            InterfaceModel::Output { .. },
        )),
        spec_storage_class(op) == Some(StorageClass::Output) ==> !(spec_interface(op) matches Some(
            InterfaceModel::Input { .. },
        )),
        spec_interface(op) matches Some(InterfaceModel::Input { location, .. }) ==> var_declaration(op).2.contains(
            Decoration::Location(location),
        ),
        spec_interface(op) matches Some(InterfaceModel::Output { location, .. }) ==> var_declaration(op).2.contains(
            Decoration::Location(location),
        ),
        spec_interface(op) matches Some(InterfaceModel::Uniform { set, binding, .. }) ==> var_declaration(op).2.contains(
            Decoration::DescriptorSet(set),
        ) && var_declaration(op).2.contains(Decoration::Binding(binding)),
{
    match op {
        Op::Global(v) => law_global_decorations(v),
        Op::Input(v) => law_input_decorations(v),
        Op::Output(v) => law_output_decorations(v),
        Op::Uniform(v) => law_uniform_decorations(v),
        _ => {},
    }
}

/// A matrix member of a struct is laid out column-major, with a column stride that is
/// the width of one column: the stride times the number of columns is the width of the
/// matrix.
pub proof fn law_matrix_member_stride(id: Word, i: u32, m: Matrix, offset: nat)
    requires
        width_fits(SpirvType::Matrix(m)),
    ensures
        member_layout(id, i, SpirvType::Matrix(m), offset).contains(
            Inst::MemberDecorate { target: id, member: i, decoration: Decoration::ColMajor },
        ),
        exists|s: u32| #[trigger] member_layout(id, i, SpirvType::Matrix(m), offset).contains(
            Inst::MemberDecorate { target: id, member: i, decoration: Decoration::MatrixStride(s) },
        ),
        forall|s: u32| #[trigger] member_layout(id, i, SpirvType::Matrix(m), offset).contains(
            Inst::MemberDecorate { target: id, member: i, decoration: Decoration::MatrixStride(s) },
        ) ==> s * m.column_count == spec_width(SpirvType::Matrix(m)),
{
    let ls = member_layout(id, i, SpirvType::Matrix(m), offset);
    let col = spec_width(rc_type(m.column_type));
    assert(width_fits(rc_type(m.column_type)));
    assert(col <= u32::MAX);
    assert(ls[1] == Inst::MemberDecorate { target: id, member: i, decoration: Decoration::ColMajor });
    assert(ls[2] == Inst::MemberDecorate { target: id, member: i, decoration: Decoration::MatrixStride(col as u32) });
    assert(ls.contains(Inst::MemberDecorate { target: id, member: i, decoration: Decoration::MatrixStride(col as u32) }));
    assert forall|s: u32| #[trigger] ls.contains(
        Inst::MemberDecorate { target: id, member: i, decoration: Decoration::MatrixStride(s) },
    ) implies s * m.column_count == spec_width(SpirvType::Matrix(m)) by {
        let k = choose|k: int| 0 <= k < ls.len() && ls[k] == Inst::MemberDecorate {
            target: id,
            member: i,
            decoration: Decoration::MatrixStride(s),
        };
        assert(k == 2);
        assert(s == col);
    }
}

/// The number of 32-bit floats a value of interface format `f` holds.
pub open spec fn format_floats(f: InterfaceFormat) -> nat {
    match f {
        InterfaceFormat::R32Sfloat => 1,
        InterfaceFormat::R32G32Sfloat => 2,
        InterfaceFormat::R32G32B32Sfloat => 3,
        InterfaceFormat::R32G32B32A32Sfloat => 4,
    }
}

/// A type that can cross an interface is a float or a float vector, and its format
/// holds as many floats as the type has components, taking as many bytes as the type.
pub proof fn law_interface_format_fits_type(t: SpirvType)
    ensures
        spec_format(t) matches Some(f) ==> (t is Float && format_floats(f) == 1) || (t matches SpirvType::Vector(v)
            && *v.component is Float && format_floats(f) == v.component_count),
        spec_format(t) matches Some(f) ==> spec_width(t) == 4 * format_floats(f),
{
    match t {
        SpirvType::Vector(v) => {
            assert(spec_width(t) == spec_width(rc_type(v.component)) * (v.component_count as nat));
            if rc_type(v.component) is Float {
                assert(spec_width(rc_type(v.component)) == 4);
            }
        },
        _ => {},
    }
}

/// Where the layout of a struct's members places offsets: member `k` at the sum of the
/// widths of the members before it, and no other offset.
proof fn lemma_layout_offsets(id: Word, ms: Seq<GlslStructMember>)
    requires
        members_width(ms) <= u32::MAX,
        ms.len() <= u32::MAX,
    ensures
        forall|k: u32, o: u32| #[trigger] struct_layout(id, ms).contains(
            Inst::MemberDecorate { target: id, member: k, decoration: Decoration::Offset(o) },
        ) <==> (k < ms.len() && o == members_width(ms.take(k as int))),
    decreases ms.len(),
{
    if ms.len() > 0 {
        let pre = ms.drop_last();
        let n = (ms.len() - 1) as u32;
        assert(members_width(ms) == members_width(pre) + spec_width(rc_type(ms.last().ty)));
        lemma_layout_offsets(id, pre);
        let a = struct_layout(id, pre);
        let b = member_layout(id, n, rc_type(ms.last().ty), members_width(pre));
        let l = struct_layout(id, ms);
        assert(l == a + b);
        assert(ms.take(n as int) =~= pre);
        assert forall|k: u32, o: u32| #[trigger] l.contains(
            Inst::MemberDecorate { target: id, member: k, decoration: Decoration::Offset(o) },
        ) <==> (k < ms.len() && o == members_width(ms.take(k as int))) by {
            let d = Inst::MemberDecorate { target: id, member: k, decoration: Decoration::Offset(o) };
            if k < n {
                assert(ms.take(k as int) =~= pre.take(k as int));
            }
            if l.contains(d) {
                let i = choose|i: int| 0 <= i < l.len() && l[i] == d;
                if i < a.len() {
                    assert(a[i] == d);
                    assert(a.contains(d));
                } else {
                    assert(b[i - a.len()] == d);
                    assert(i - a.len() == 0);
                }
            }
            if k < ms.len() && o == members_width(ms.take(k as int)) {
                if k < n {
                    assert(a.contains(d));
                    let i = choose|i: int| 0 <= i < a.len() && a[i] == d;
                    assert(l[i] == d);
                } else {
                    assert(b[0] == d);
                    assert(l[a.len() as int] == d);
                }
            }
        }
    }
}

/// The members of a struct are laid out one after the other: the first at offset 0,
/// each next one where the one before it ends, and a member at one offset only.
pub proof fn law_struct_members_adjacent(id: Word, ms: Seq<GlslStructMember>)
    requires
        members_width(ms) <= u32::MAX,
        ms.len() <= u32::MAX,
    ensures
        ms.len() > 0 ==> struct_layout(id, ms).contains(
            Inst::MemberDecorate { target: id, member: 0, decoration: Decoration::Offset(0) },
        ),
        forall|k: u32, o: u32|
            #![trigger struct_layout(id, ms).contains(Inst::MemberDecorate { target: id, member: k, decoration: Decoration::Offset(o) })]
            k + 1 < ms.len() && struct_layout(id, ms).contains(
                Inst::MemberDecorate { target: id, member: k, decoration: Decoration::Offset(o) },
            ) ==> o + spec_width(*ms[k as int].ty) <= u32::MAX && struct_layout(id, ms).contains(
                Inst::MemberDecorate {
                    target: id,
                    member: (k + 1) as u32,
                    decoration: Decoration::Offset((o + spec_width(*ms[k as int].ty)) as u32),
                },
            ),
        forall|k: u32, o1: u32, o2: u32|
            #![trigger struct_layout(id, ms).contains(Inst::MemberDecorate { target: id, member: k, decoration: Decoration::Offset(o1) }), struct_layout(id, ms).contains(Inst::MemberDecorate { target: id, member: k, decoration: Decoration::Offset(o2) })]
            struct_layout(id, ms).contains(
                Inst::MemberDecorate { target: id, member: k, decoration: Decoration::Offset(o1) },
            ) && struct_layout(id, ms).contains(
                Inst::MemberDecorate { target: id, member: k, decoration: Decoration::Offset(o2) },
            ) ==> o1 == o2,
{
    lemma_layout_offsets(id, ms);
    if ms.len() > 0 {
        assert(ms.take(0) =~= Seq::<GlslStructMember>::empty());
        assert(members_width(ms.take(0)) == 0);
    }
    assert forall|k: u32, o: u32|
        k + 1 < ms.len() && #[trigger] struct_layout(id, ms).contains(
            Inst::MemberDecorate { target: id, member: k, decoration: Decoration::Offset(o) },
        ) implies o + spec_width(*ms[k as int].ty) <= u32::MAX && struct_layout(id, ms).contains(
            Inst::MemberDecorate {
                target: id,
                member: (k + 1) as u32,
                decoration: Decoration::Offset((o + spec_width(*ms[k as int].ty)) as u32),
            },
        ) by {
        crate::types::lemma_members_width_step(ms, k as int);
        crate::types::lemma_members_width_prefix(ms, k + 1);
    }
}

} // verus!
