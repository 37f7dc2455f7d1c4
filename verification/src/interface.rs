//! The interface of an entry point: the variables it reads and writes, and the
//! descriptors it binds.
use crate::errors::Error;
use crate::ops::Op;
use crate::shader::ShaderKind;
use crate::storage_class::StorageClass;
use crate::types::SpirvType;
use std::collections::HashMap;
use std::rc::Rc;
use vstd::prelude::*;
use vstd::utf8::encode_utf8;

verus! {

/// How a variable takes part in the interface of an entry point.
pub enum Interface<'a> {
    /// An input, read at `location`.
    Input { name: &'a String, ty: &'a SpirvType, location: u32 },
    /// An output, written at `location`.
    Output { name: &'a String, ty: &'a SpirvType, location: u32 },
    /// A uniform, bound at `binding` of the descriptor set `set`.
    Uniform { name: &'a String, ty: &'a SpirvType, set: u32, binding: u32 },
    /// A built-in variable.
    BuiltIn,
}

/// An [`Interface`] as plain values: names as characters, types by value.
pub enum InterfaceModel {
    Input { name: Seq<char>, ty: SpirvType, location: u32 },
    Output { name: Seq<char>, ty: SpirvType, location: u32 },
    Uniform { name: Seq<char>, ty: SpirvType, set: u32, binding: u32 },
    BuiltIn,
}

impl<'a> View for Interface<'a> {
    type V = InterfaceModel;

    open spec fn view(&self) -> InterfaceModel {
        match *self {
            Interface::Input { name, ty, location } => InterfaceModel::Input { name: name@, ty: *ty, location },
            Interface::Output { name, ty, location } => InterfaceModel::Output { name: name@, ty: *ty, location },
            Interface::Uniform { name, ty, set, binding } => InterfaceModel::Uniform {
                name: name@,
                ty: *ty,
                set,
                binding,
            },
            Interface::BuiltIn => InterfaceModel::BuiltIn,
        }
    }
}

/// How an operation takes part in an interface, if it does: interface variables do,
/// with the type they point to; a global variable does as an input or output where it
/// has a location, as a uniform where it has a set and a binding.
pub open spec fn spec_interface(op: Op) -> Option<InterfaceModel> {
    match op {
        Op::Input(v) => Some(InterfaceModel::Input { name: v.name@, ty: *v.pointer.pointee_type, location: v.location }),
        Op::Output(v) => Some(InterfaceModel::Output { name: v.name@, ty: *v.ty.pointee_type, location: v.location }),
        Op::Uniform(v) => Some(InterfaceModel::Uniform {
            name: v.name@,
            ty: *v.pointer.pointee_type,
            set: v.set,
            binding: v.binding,
        }),
        Op::BuiltIn(_) => Some(InterfaceModel::BuiltIn),
        Op::Global(v) => match v.storage_class {
            StorageClass::Input => match v.location {
                Some(l) => Some(InterfaceModel::Input { name: v.name@, ty: *v.ty.pointee_type, location: l }),
                None => None,
            },
            StorageClass::Output => match v.location {
                Some(l) => Some(InterfaceModel::Output { name: v.name@, ty: *v.ty.pointee_type, location: l }),
                None => None,
            },
            StorageClass::Uniform => match (v.set, v.binding) {
                (Some(s), Some(b)) => Some(InterfaceModel::Uniform {
                    name: v.name@,
                    ty: *v.ty.pointee_type,
                    set: s,
                    binding: b,
                }),
                _ => None,
            },
            _ => None,
        },
        _ => None,
    }
}

impl Op {
    /// How the operation takes part in an interface, if it does.
    pub fn as_interface(&self) -> (r: Option<Interface<'_>>)
        ensures
            match r {
                Some(i) => spec_interface(*self) == Some(i@),
                None => spec_interface(*self) is None,
            },
    {
        match self {
            Op::Input(v) => Some(Interface::Input { name: &v.name, ty: &v.pointer.pointee_type, location: v.location }),
            Op::Output(v) => Some(Interface::Output { name: &v.name, ty: &v.ty.pointee_type, location: v.location }),
            Op::Uniform(v) => Some(Interface::Uniform {
                name: &v.name,
                ty: &v.pointer.pointee_type,
                set: v.set,
                binding: v.binding,
            }),
            Op::BuiltIn(_) => Some(Interface::BuiltIn),
            Op::Global(v) => match v.storage_class {
                StorageClass::Input => match v.location {
                    Some(l) => Some(Interface::Input { name: &v.name, ty: &v.ty.pointee_type, location: l }),
                    None => None,
                },
                StorageClass::Output => match v.location {
                    Some(l) => Some(Interface::Output { name: &v.name, ty: &v.ty.pointee_type, location: l }),
                    None => None,
                },
                StorageClass::Uniform => match (v.set, v.binding) {
                    (Some(s), Some(b)) => Some(Interface::Uniform {
                        name: &v.name,
                        ty: &v.ty.pointee_type,
                        set: s,
                        binding: b,
                    }),
                    _ => None,
                },
                _ => None,
            },
            _ => None,
        }
    }
}

/// The format of a value that crosses an interface: one to four 32-bit floats.
#[derive(PartialEq, Eq, Structural, Clone, Copy, Debug)]
pub enum InterfaceFormat {
    R32Sfloat,
    R32G32Sfloat,
    R32G32B32Sfloat,
    R32G32B32A32Sfloat,
}

/// The format of an interface variable of type `ty`: a float, or a vector of two to
/// four floats; other types cannot cross an interface.
pub open spec fn spec_format(ty: SpirvType) -> Option<InterfaceFormat> {
    match ty {
        SpirvType::Float(_) => Some(InterfaceFormat::R32Sfloat),
        SpirvType::Vector(v) => if *v.component is Float {
            if v.component_count == 2 {
                Some(InterfaceFormat::R32G32Sfloat)
            } else if v.component_count == 3 {
                Some(InterfaceFormat::R32G32B32Sfloat)
            } else if v.component_count == 4 {
                Some(InterfaceFormat::R32G32B32A32Sfloat)
            } else {
                None
            }
        } else {
            None
        },
        _ => None,
    }
}

impl SpirvType {
    /// The format of an interface variable of this type, if it can cross an interface.
    pub fn interface_format(&self) -> (r: Option<InterfaceFormat>)
        ensures
            r == spec_format(*self),
    {
        match self {
            SpirvType::Float(_) => Some(InterfaceFormat::R32Sfloat),
            SpirvType::Vector(v) => match &*v.component {
                SpirvType::Float(_) => if v.component_count == 2 {
                    Some(InterfaceFormat::R32G32Sfloat)
                } else if v.component_count == 3 {
                    Some(InterfaceFormat::R32G32B32Sfloat)
                } else if v.component_count == 4 {
                    Some(InterfaceFormat::R32G32B32A32Sfloat)
                } else {
                    None
                },
                _ => None,
            },
            _ => None,
        }
    }
}

/// An input or output of an entry point.
#[derive(Debug)]
pub struct InterfaceEntry {
    pub location: u32,
    pub name: String,
    pub ty: SpirvType,
    pub format: InterfaceFormat,
}

/// An [`InterfaceEntry`] as plain values.
pub struct EntryModel {
    pub location: u32,
    pub name: Seq<char>,
    pub ty: SpirvType,
    pub format: InterfaceFormat,
}

impl View for InterfaceEntry {
    type V = EntryModel;

    open spec fn view(&self) -> EntryModel {
        EntryModel { location: self.location, name: self.name@, ty: self.ty, format: self.format }
    }
}

/// The interface of an entry point: its inputs and outputs in order, and the layout of
/// the uniform buffers it binds.
#[derive(Debug)]
pub struct ShaderInterface {
    /// Name of the entry point.
    pub name: String,
    pub kind: ShaderKind,
    pub input: Vec<InterfaceEntry>,
    pub output: Vec<InterfaceEntry>,
    /// Number of sets: one more than the highest descriptor set bound, 0 when none is.
    pub num_sets: u64,
    /// Each descriptor set bound, with the binding last bound in it.
    pub bindings: HashMap<u32, u32>,
    /// Each (set, binding) pair that holds a uniform buffer, once.
    pub descriptors: Vec<(u32, u32)>,
}

/// The entries as plain values.
pub open spec fn entries_view(v: Seq<InterfaceEntry>) -> Seq<EntryModel> {
    v.map_values(|e: InterfaceEntry| e@)
}

/// Every operation takes part in the interface.
pub open spec fn all_interfaces(ops: Seq<Rc<Op>>) -> bool {
    forall|i: int| 0 <= i < ops.len() ==> (#[trigger] spec_interface(*ops[i])) is Some
}

/// The inputs (or, with `output`, the outputs) among the operations, in order.
pub open spec fn interface_entries(ops: Seq<Rc<Op>>, output: bool) -> Seq<EntryModel>
    decreases ops.len(),
{
    if ops.len() == 0 {
        Seq::empty()
    } else {
        let prev = interface_entries(ops.drop_last(), output);
        match spec_interface(*ops.last()) {
            Some(InterfaceModel::Input { name, ty, location }) => if output {
                prev
            } else {
                prev.push(EntryModel { location, name, ty, format: spec_format(ty)->0 })
            },
            Some(InterfaceModel::Output { name, ty, location }) => if output {
                prev.push(EntryModel { location, name, ty, format: spec_format(ty)->0 })
            } else {
                prev
            },
            _ => prev,
        }
    }
}

/// The error describing an interface fails with at the operation `op`, if any: an
/// operation that takes no part in an interface, or an input or output whose type has
/// no interface format.
pub open spec fn op_interface_error(op: Op) -> Option<Error> {
    match spec_interface(op) {
        None => Some(Error::NotInterface),
        Some(InterfaceModel::Input { ty, .. }) => if spec_format(ty) is None {
            Some(Error::IllegalInterfaceType)
        } else {
            None
        },
        Some(InterfaceModel::Output { ty, .. }) => if spec_format(ty) is None {
            Some(Error::IllegalInterfaceType)
        } else {
            None
        },
        _ => None,
    }
}

/// The error of the first operation, in order, that an interface cannot hold.
pub open spec fn ops_interface_error(ops: Seq<Rc<Op>>) -> Option<Error>
    decreases ops.len(),
{
    if ops.len() == 0 {
        None
    } else {
        match ops_interface_error(ops.drop_last()) {
            Some(e) => Some(e),
            None => op_interface_error(*ops.last()),
        }
    }
}

/// The error describing the interface of the entry point `name` over `ops` fails
/// with, if any: that of the first operation an interface cannot hold, else that of a
/// name holding a NUL.
pub open spec fn describe_error(name: Seq<char>, ops: Seq<Rc<Op>>) -> Option<Error> {
    match ops_interface_error(ops) {
        Some(e) => Some(e),
        None => if has_nul(name) {
            Some(Error::NulInName)
        } else {
            None
        },
    }
}

/// An error among the first `k` operations is the first error among all of them.
proof fn lemma_interface_error_prefix(ops: Seq<Rc<Op>>, k: int)
    requires
        0 <= k <= ops.len(),
        ops_interface_error(ops.take(k)) is Some,
    ensures
        ops_interface_error(ops) == ops_interface_error(ops.take(k)),
    decreases ops.len(),
{
    if k == ops.len() {
        assert(ops.take(k) =~= ops);
    } else {
        assert(ops.drop_last().take(k) =~= ops.take(k));
        lemma_interface_error_prefix(ops.drop_last(), k);
    }
}

/// Operations without an interface error all take part in an interface.
pub proof fn lemma_no_error_all_interfaces(ops: Seq<Rc<Op>>)
    requires
        ops_interface_error(ops) is None,
    ensures
        all_interfaces(ops),
    decreases ops.len(),
{
    if ops.len() > 0 {
        lemma_no_error_all_interfaces(ops.drop_last());
        assert forall|i: int| 0 <= i < ops.len() implies (#[trigger] spec_interface(*ops[i])) is Some by {
            if i < ops.len() - 1 {
                assert(ops[i] == ops.drop_last()[i]);
            }
        }
    }
}

/// The number of descriptor sets the uniforms use: one more than the highest set of a
/// uniform, 0 when there is no uniform.
pub open spec fn set_count(ops: Seq<Rc<Op>>) -> nat
    decreases ops.len(),
{
    if ops.len() == 0 {
        0
    } else {
        let prev = set_count(ops.drop_last());
        match spec_interface(*ops.last()) {
            Some(InterfaceModel::Uniform { set, .. }) => if set + 1 > prev {
                (set + 1) as nat
            } else {
                prev
            },
            _ => prev,
        }
    }
}

/// The number of descriptor sets stays within one more than the largest `u32`.
proof fn lemma_set_count_bound(ops: Seq<Rc<Op>>)
    ensures
        set_count(ops) <= u32::MAX + 1,
    decreases ops.len(),
{
    if ops.len() > 0 {
        lemma_set_count_bound(ops.drop_last());
    }
}

/// Each descriptor set of the uniforms, with the binding of the last uniform in it.
pub open spec fn binding_map(ops: Seq<Rc<Op>>) -> Map<u32, u32>
    decreases ops.len(),
{
    if ops.len() == 0 {
        Map::empty()
    } else {
        let prev = binding_map(ops.drop_last());
        match spec_interface(*ops.last()) {
            Some(InterfaceModel::Uniform { set, binding, .. }) => prev.insert(set, binding),
            _ => prev,
        }
    }
}

/// The (set, binding) pairs of the uniforms.
pub open spec fn descriptor_set(ops: Seq<Rc<Op>>) -> Set<(u32, u32)>
    decreases ops.len(),
{
    if ops.len() == 0 {
        Set::empty()
    } else {
        let prev = descriptor_set(ops.drop_last());
        match spec_interface(*ops.last()) {
            Some(InterfaceModel::Uniform { set, binding, .. }) => prev.insert((set, binding)),
            _ => prev,
        }
    }
}

/// `v` lists the set `s`, each element once.
pub open spec fn lists(v: Seq<(u32, u32)>, s: Set<(u32, u32)>) -> bool {
    &&& forall|i: int, j: int| 0 <= i < j < v.len() ==> #[trigger] v[i] != #[trigger] v[j]
    &&& forall|x: (u32, u32)| #[trigger] v.contains(x) <==> s.contains(x)
}

/// The name holds a NUL byte.
pub open spec fn has_nul(name: Seq<char>) -> bool {
    encode_utf8(name).contains(0u8)
}

/// `si` is the interface of the entry point `name`, of kind `kind`, over `ops`.
pub open spec fn interface_of(si: ShaderInterface, name: Seq<char>, kind: ShaderKind, ops: Seq<Rc<Op>>) -> bool {
    &&& si.name@ == name
    &&& si.kind == kind
    &&& entries_view(si.input@) == interface_entries(ops, false)
    &&& entries_view(si.output@) == interface_entries(ops, true)
    &&& si.num_sets == set_count(ops)
    &&& si.bindings@ == binding_map(ops)
    &&& lists(si.descriptors@, descriptor_set(ops))
}

/// Adds `x` to the set that `v` lists.
fn set_insert(v: &mut Vec<(u32, u32)>, x: (u32, u32), Ghost(s): Ghost<Set<(u32, u32)>>)
    requires
        lists(old(v)@, s),
    ensures
        lists(final(v)@, s.insert(x)),
{
    let ghost v0 = v@;
    let mut i: usize = 0;
    while i < v.len()
        invariant
            v@ == v0,
            lists(v0, s),
            0 <= i <= v@.len(),
            forall|j: int| 0 <= j < i ==> #[trigger] v0[j] != x,
        decreases v@.len() - i,
    {
        if v[i].0 == x.0 && v[i].1 == x.1 {
            proof {
                assert(v0[i as int] == x);
                assert forall|y: (u32, u32)| #[trigger] v@.contains(y) <==> s.insert(x).contains(y) by {
                    if y == x {
                        assert(v@.contains(y));
                    }
                }
            }
            return;
        }
        i = i + 1;
    }
    v.push(x);
    proof {
        let n = v0.len() as int;
        assert forall|a: int, b: int| 0 <= a < b < v@.len() implies #[trigger] v@[a] != #[trigger] v@[b] by {
            if b == n {
                assert(v0[a] != x);
            } else {
                assert(v0[a] != v0[b]);
            }
        }
        assert forall|y: (u32, u32)| #[trigger] v@.contains(y) <==> s.insert(x).contains(y) by {
            if y == x {
                assert(v@[n] == y);
            } else if v@.contains(y) {
                let a = choose|a: int| 0 <= a < v@.len() && v@[a] == y;
                assert(v0[a] == y);
                assert(v0.contains(y));
            } else if s.contains(y) {
                assert(v0.contains(y));
                let a = choose|a: int| 0 <= a < v0.len() && v0[a] == y;
                assert(v@[a] == y);
            }
        }
    }
}

/// Whether the name holds a NUL byte.
fn name_has_nul(name: &String) -> (r: bool)
    ensures
        r == has_nul(name@),
{
    let bytes = name.as_str().as_bytes();
    let mut i: usize = 0;
    while i < bytes.len()
        invariant
            bytes@ == encode_utf8(name@),
            0 <= i <= bytes@.len(),
            forall|j: int| 0 <= j < i ==> bytes@[j] != 0u8,
        decreases bytes@.len() - i,
    {
        if bytes[i] == 0 {
            assert(bytes@[i as int] == 0u8);
            return true;
        }
        i = i + 1;
    }
    false
}

/// The interface of the entry point `name`, of kind `kind`, over the operations `ops`:
/// its inputs and outputs in order, each with its format, and the layout of its
/// uniforms. Fails at the first operation that takes no part in an interface or is an
/// input or output of a type that cannot cross one; after that, when the name holds a
/// NUL.
pub fn interface_from_ops(name: String, kind: ShaderKind, ops: &Vec<Rc<Op>>) -> (r: Result<ShaderInterface, Error>)
    ensures
        r is Err <==> describe_error(name@, ops@) is Some,
        r matches Err(e) ==> describe_error(name@, ops@) == Some(e),
        r matches Ok(si) ==> interface_of(si, name@, kind, ops@),
{
    let mut num_sets: u64 = 0;
    let mut bindings: HashMap<u32, u32> = HashMap::new();
    let mut descriptors: Vec<(u32, u32)> = Vec::new();
    let mut input: Vec<InterfaceEntry> = Vec::new();
    let mut output: Vec<InterfaceEntry> = Vec::new();
    let mut i: usize = 0;
    proof {
        assert(ops@.take(0) =~= Seq::<Rc<Op>>::empty());
        assert(entries_view(input@) =~= Seq::<EntryModel>::empty());
    }
    while i < ops.len()
        invariant
            0 <= i <= ops@.len(),
            ops_interface_error(ops@.take(i as int)) is None,
            entries_view(input@) == interface_entries(ops@.take(i as int), false),
            entries_view(output@) == interface_entries(ops@.take(i as int), true),
            num_sets == set_count(ops@.take(i as int)),
            bindings@ == binding_map(ops@.take(i as int)),
            lists(descriptors@, descriptor_set(ops@.take(i as int))),
        decreases ops@.len() - i,
    {
        let ghost pre = ops@.take(i as int);
        let ghost next = ops@.take(i + 1);
        assert(next.drop_last() =~= pre);
        assert(next.last() == ops@[i as int]);
        let interface = match ops[i].as_interface() {
            Some(x) => x,
            None => {
                proof { lemma_interface_error_prefix(ops@, i + 1); }
                return Err(Error::NotInterface);
            },
        };
        match interface {
            Interface::Input { name, ty, location } => {
                let format = match ty.interface_format() {
                    Some(f) => f,
                    None => {
                        proof { lemma_interface_error_prefix(ops@, i + 1); }
                        return Err(Error::IllegalInterfaceType);
                    },
                };
                input.push(InterfaceEntry { location, name: name.clone(), ty: ty.duplicate(), format });
                assert(entries_view(input@) =~= entries_view(input@.drop_last()).push(input@.last()@));
            },
            Interface::Output { name, ty, location } => {
                let format = match ty.interface_format() {
                    Some(f) => f,
                    None => {
                        proof { lemma_interface_error_prefix(ops@, i + 1); }
                        return Err(Error::IllegalInterfaceType);
                    },
                };
                output.push(InterfaceEntry { location, name: name.clone(), ty: ty.duplicate(), format });
                assert(entries_view(output@) =~= entries_view(output@.drop_last()).push(output@.last()@));
            },
            Interface::Uniform { set, binding, .. } => {
                proof { lemma_set_count_bound(pre); }
                if set as u64 + 1 > num_sets {
                    num_sets = set as u64 + 1;
                }
                bindings.insert(set, binding);
                set_insert(&mut descriptors, (set, binding), Ghost(descriptor_set(pre)));
            },
            Interface::BuiltIn => {},
        }
        i = i + 1;
    }
    assert(ops@.take(i as int) =~= ops@);
    if name_has_nul(&name) {
        return Err(Error::NulInName);
    }
    Ok(ShaderInterface { name, kind, input, output, num_sets, bindings, descriptors })
}

} // verus!
