//! Type descriptors: primitive identities and struct layouts.
//!
//! A struct layout names its fields, gives each a type and a byte offset, and
//! says whether instances live inline (`Value`) or in the collector (`Gc`).
//! Layouts are kept in a registry that only grows: a published descriptor is
//! never changed. When an artifact declares other structs than the one it
//! replaces, its structs are published anew, each with a new identity under
//! its declared name, and the older descriptors stay where they are.

use vstd::prelude::*;
use crate::names::{bytes_eq, copy_bytes, distinct, is_first, lemma_absent_is_none, lemma_first_is_position, position_of};

verus! {

/// Number of bytes a collector handle occupies in a field or an argument.
pub const HANDLE_SIZE: usize = 8;

/// The primitive types of the language.
#[derive(Clone, Copy, Debug, PartialEq, Eq, Structural)]
pub enum Primitive {
    Unit,
    Int,
    Float,
    Bool,
}

/// Where the instances of a struct live.
#[derive(Clone, Copy, Debug, PartialEq, Eq, Structural)]
pub enum Storage {
    /// Inline: a field or argument holds the struct's bytes.
    Value,
    /// In the collector: a field or argument holds a handle.
    Gc,
}

/// The identity of a type: a primitive, or the position of a struct
/// descriptor in the registry. Two types are the same type exactly when their
/// identities are equal; an equal name is not enough.
#[derive(Clone, Copy, Debug, PartialEq, Eq, Structural)]
pub enum TypeId {
    Primitive(Primitive),
    Struct(usize),
}

/// The kind of host value a caller hands in or asks for.
#[derive(Clone, Copy, Debug, PartialEq, Eq, Structural)]
pub enum NativeKind {
    Unit,
    Int,
    Float,
    Bool,
    Struct,
}

/// One field of a struct: its name, its type and where its bytes start.
#[derive(Debug, PartialEq, Eq)]
pub struct FieldDescriptor {
    pub name: Vec<u8>,
    pub ty: TypeId,
    pub offset: usize,
}

/// The layout of a struct.
#[derive(Debug, PartialEq, Eq)]
pub struct StructDescriptor {
    pub name: Vec<u8>,
    pub storage: Storage,
    pub size: usize,
    pub fields: Vec<FieldDescriptor>,
}

/// Mathematical model of a [`FieldDescriptor`].
pub ghost struct FieldView {
    pub name: Seq<u8>,
    pub ty: TypeId,
    pub offset: usize,
}

/// Mathematical model of a [`StructDescriptor`].
pub ghost struct StructView {
    pub name: Seq<u8>,
    pub storage: Storage,
    pub size: usize,
    pub fields: Seq<FieldView>,
}

impl View for FieldDescriptor {
    type V = FieldView;

    open spec fn view(&self) -> FieldView {
        FieldView { name: self.name@, ty: self.ty, offset: self.offset }
    }
}

impl View for StructDescriptor {
    type V = StructView;

    open spec fn view(&self) -> StructView {
        StructView {
            name: self.name@,
            storage: self.storage,
            size: self.size,
            fields: self.fields@.map_values(|f: FieldDescriptor| f@),
        }
    }
}

/// The models of a sequence of descriptors, in order.
pub open spec fn struct_views(structs: Seq<StructDescriptor>) -> Seq<StructView> {
    structs.map_values(|d: StructDescriptor| d@)
}

pub open spec fn primitive_size(p: Primitive) -> nat {
    match p {
        Primitive::Unit => 0,
        Primitive::Int => 8,
        Primitive::Float => 8,
        Primitive::Bool => 1,
    }
}

pub open spec fn primitive_kind(p: Primitive) -> NativeKind {
    match p {
        Primitive::Unit => NativeKind::Unit,
        Primitive::Int => NativeKind::Int,
        Primitive::Float => NativeKind::Float,
        Primitive::Bool => NativeKind::Bool,
    }
}

/// The kind of host value that carries a value of type `ty`.
pub open spec fn kind_of(ty: TypeId) -> NativeKind {
    match ty {
        TypeId::Primitive(p) => primitive_kind(p),
        TypeId::Struct(_) => NativeKind::Struct,
    }
}

/// Whether `ty` names a type that the registry `tys` holds.
pub open spec fn known(tys: Seq<StructView>, ty: TypeId) -> bool {
    match ty {
        TypeId::Primitive(_) => true,
        TypeId::Struct(i) => i < tys.len(),
    }
}

pub open spec fn is_value_struct(tys: Seq<StructView>, ty: TypeId) -> bool {
    ty matches TypeId::Struct(i) && i < tys.len() && tys[i as int].storage == Storage::Value
}

pub open spec fn is_gc_struct(tys: Seq<StructView>, ty: TypeId) -> bool {
    ty matches TypeId::Struct(i) && i < tys.len() && tys[i as int].storage == Storage::Gc
}

/// Number of bytes that a value of type `ty` occupies in a field or as an
/// argument: the primitive's size, the whole layout of a value struct, or a
/// handle for a collector struct.
pub open spec fn slot_size(tys: Seq<StructView>, ty: TypeId) -> nat {
    match ty {
        TypeId::Primitive(p) => primitive_size(p),
        TypeId::Struct(i) => if tys[i as int].storage == Storage::Gc {
            HANDLE_SIZE as nat
        } else {
            tys[i as int].size as nat
        },
    }
}

/// Field `j` of `s` names a known type, lies inside the struct, and, when it
/// holds a value struct inline, that struct was published before position
/// `own` (so inline nesting is never circular).
pub open spec fn field_fits(tys: Seq<StructView>, s: StructView, own: int, j: int) -> bool {
    let f = s.fields[j];
    &&& known(tys, f.ty)
    &&& f.offset + slot_size(tys, f.ty) <= s.size
    &&& (f.ty matches TypeId::Struct(i) ==> tys[i as int].storage == Storage::Value ==> i < own)
}

/// The byte ranges of fields `j` and `k` of `s` do not overlap.
pub open spec fn fields_apart(tys: Seq<StructView>, s: StructView, j: int, k: int) -> bool {
    let a = s.fields[j];
    let b = s.fields[k];
    a.offset + slot_size(tys, a.ty) <= b.offset || b.offset + slot_size(tys, b.ty) <= a.offset
}

/// The layout invariant of a struct placed at position `own` of `tys`: field
/// names are unique, every field fits, and no two fields overlap.
pub open spec fn layout_wf(tys: Seq<StructView>, s: StructView, own: int) -> bool {
    &&& forall|j: int| 0 <= j < s.fields.len() ==> #[trigger] field_fits(tys, s, own, j)
    &&& distinct(field_names(s))
    &&& forall|j: int, k: int|
        0 <= j < k < s.fields.len() ==> #[trigger] fields_apart(tys, s, j, k)
}

/// Every descriptor of the registry satisfies the layout invariant.
pub open spec fn registry_wf(tys: Seq<StructView>) -> bool {
    forall|i: int| 0 <= i < tys.len() ==> #[trigger] layout_wf(tys, tys[i], i)
}

/// The names of the fields of `s`, in order.
pub open spec fn field_names(s: StructView) -> Seq<Seq<u8>> {
    s.fields.map_values(|f: FieldView| f.name)
}

/// The position of the field of `s` called `name`, if there is one.
pub open spec fn field_position(s: StructView, name: Seq<u8>) -> Option<int> {
    position_of(field_names(s), name)
}

/// The names of the structs of `tys`, in order.
pub open spec fn struct_names(tys: Seq<StructView>) -> Seq<Seq<u8>> {
    tys.map_values(|s: StructView| s.name)
}

/// The struct that `name` stands for: the one of that name among those
/// published from position `base` on.
pub open spec fn described(tys: Seq<StructView>, base: int, name: Seq<u8>) -> Option<TypeId> {
    match position_of(struct_names(tys).subrange(base, tys.len() as int), name) {
        Some(j) => Some(TypeId::Struct((base + j) as usize)),
        None => None,
    }
}

impl Primitive {
    /// Number of bytes a value of this primitive type occupies.
    pub fn size(self) -> (n: usize)
        ensures
            n == primitive_size(self),
    {
        match self {
            Primitive::Unit => 0,
            Primitive::Int => 8,
            Primitive::Float => 8,
            Primitive::Bool => 1,
        }
    }

    /// The kind of host value that carries this primitive.
    pub fn kind(self) -> (k: NativeKind)
        ensures
            k == primitive_kind(self),
    {
        match self {
            Primitive::Unit => NativeKind::Unit,
            Primitive::Int => NativeKind::Int,
            Primitive::Float => NativeKind::Float,
            Primitive::Bool => NativeKind::Bool,
        }
    }
}

impl TypeId {
    /// The kind of host value that carries a value of this type.
    pub fn kind(self) -> (k: NativeKind)
        ensures
            k == kind_of(self),
    {
        match self {
            TypeId::Primitive(p) => p.kind(),
            TypeId::Struct(_) => NativeKind::Struct,
        }
    }
}

impl FieldDescriptor {
    /// A copy of this field descriptor.
    pub fn duplicate(&self) -> (copy: FieldDescriptor)
        ensures
            copy@ == self@,
    {
        FieldDescriptor { name: copy_bytes(self.name.as_slice()), ty: self.ty, offset: self.offset }
    }
}

impl StructDescriptor {
    /// The position of the field called `name`: the first one, should a
    /// descriptor that was never validated hold the name twice.
    pub fn find_field(&self, name: &[u8]) -> (found: Option<usize>)
        ensures
            found matches Some(j) ==> field_position(self@, name@) == Some(j as int),
            found is None ==> field_position(self@, name@) is None,
    {
        let ghost names = field_names(self@);
        let mut j: usize = 0;
        while j < self.fields.len()
            invariant
                j <= self.fields.len(),
                names == field_names(self@),
                forall|k: int| 0 <= k < j ==> #[trigger] names[k] != name@,
            decreases self.fields.len() - j,
        {
            if bytes_eq(self.fields[j].name.as_slice(), name) {
                proof {
                    assert(names[j as int] == name@);
                    assert(is_first(names, name@, j as int));
                    lemma_first_is_position(names, name@, j as int);
                }
                return Some(j);
            }
            assert(names[j as int] != name@);
            j += 1;
        }
        proof {
            lemma_absent_is_none(names, name@);
        }
        None
    }

    /// A copy of this descriptor.
    pub fn duplicate(&self) -> (copy: StructDescriptor)
        ensures
            copy@ == self@,
    {
        let mut fields: Vec<FieldDescriptor> = Vec::new();
        let mut j: usize = 0;
        while j < self.fields.len()
            invariant
                j <= self.fields.len(),
                fields.len() == j,
                forall|k: int| 0 <= k < j ==> #[trigger] fields@[k]@ == self.fields@[k]@,
            decreases self.fields.len() - j,
        {
            fields.push(self.fields[j].duplicate());
            j += 1;
        }
        let copy = StructDescriptor {
            name: copy_bytes(self.name.as_slice()),
            storage: self.storage,
            size: self.size,
            fields,
        };
        assert(copy@.fields =~= self@.fields);
        copy
    }
}

/// The registry of struct descriptors. It only grows; the descriptors from
/// position `base` on are those of the artifact that is loaded now, and names
/// are resolved among them.
#[derive(Debug, PartialEq, Eq)]
pub struct TypeTable {
    pub structs: Vec<StructDescriptor>,
    pub base: usize,
}

impl View for TypeTable {
    type V = Seq<StructView>;

    open spec fn view(&self) -> Seq<StructView> {
        struct_views(self.structs@)
    }
}

impl TypeTable {
    /// Every layout is well formed, and the structs of the current artifact
    /// have distinct names.
    pub open spec fn wf(&self) -> bool {
        &&& registry_wf(self@)
        &&& self.base <= self.structs.len()
        &&& distinct(struct_names(self@).subrange(self.base as int, self@.len() as int))
    }

    /// A registry without structs.
    pub fn new() -> (table: TypeTable)
        ensures
            table@.len() == 0,
            table.base == 0,
            table.wf(),
    {
        TypeTable { structs: Vec::new(), base: 0 }
    }

    /// A copy of the registry.
    pub fn duplicate(&self) -> (copy: TypeTable)
        ensures
            copy@ == self@,
            copy.base == self.base,
    {
        let mut structs: Vec<StructDescriptor> = Vec::new();
        let mut i: usize = 0;
        while i < self.structs.len()
            invariant
                i <= self.structs.len(),
                structs.len() == i,
                forall|k: int| 0 <= k < i ==> #[trigger] structs@[k]@ == self.structs@[k]@,
            decreases self.structs.len() - i,
        {
            structs.push(self.structs[i].duplicate());
            i += 1;
        }
        let copy = TypeTable { structs, base: self.base };
        assert(copy@ =~= self@);
        copy
    }

    /// The identity of the struct that the current artifact declares under
    /// `name`.
    pub fn describe(&self, name: &[u8]) -> (found: Option<TypeId>)
        requires
            self.base <= self.structs.len(),
        ensures
            found == described(self@, self.base as int, name@),
    {
        let ghost names = struct_names(self@).subrange(self.base as int, self@.len() as int);
        let mut i: usize = self.base;
        while i < self.structs.len()
            invariant
                self.base <= i <= self.structs.len(),
                names == struct_names(self@).subrange(self.base as int, self@.len() as int),
                forall|k: int| 0 <= k < i - self.base ==> #[trigger] names[k] != name@,
            decreases self.structs.len() - i,
        {
            if bytes_eq(self.structs[i].name.as_slice(), name) {
                proof {
                    let j = i - self.base;
                    assert(names[j] == name@);
                    assert(is_first(names, name@, j));
                    lemma_first_is_position(names, name@, j);
                }
                return Some(TypeId::Struct(i));
            }
            assert(names[i - self.base] != name@);
            i += 1;
        }
        proof {
            lemma_absent_is_none(names, name@);
        }
        None
    }

    /// The descriptor at position `i`.
    pub fn descriptor(&self, i: usize) -> (found: Option<&StructDescriptor>)
        ensures
            found matches Some(d) ==> i < self@.len() && d@ == self@[i as int],
            found is None ==> i >= self@.len(),
    {
        if i < self.structs.len() {
            Some(&self.structs[i])
        } else {
            None
        }
    }

    /// Whether the registry holds the type `ty`.
    pub fn knows(&self, ty: TypeId) -> (yes: bool)
        ensures
            yes == known(self@, ty),
    {
        match ty {
            TypeId::Primitive(_) => true,
            TypeId::Struct(i) => i < self.structs.len(),
        }
    }

    /// Number of bytes that a value of type `ty` occupies in a field or as an
    /// argument.
    pub fn slot_size(&self, ty: TypeId) -> (n: usize)
        requires
            known(self@, ty),
        ensures
            n == slot_size(self@, ty),
    {
        match ty {
            TypeId::Primitive(p) => p.size(),
            TypeId::Struct(i) => match self.structs[i].storage {
                Storage::Gc => HANDLE_SIZE,
                Storage::Value => self.structs[i].size,
            },
        }
    }
}

/// Descriptors published later do not disturb a layout that was already
/// well formed.
pub proof fn lemma_layout_wf_extends(
    tys: Seq<StructView>,
    more: Seq<StructView>,
    s: StructView,
    own: int,
)
    requires
        layout_wf(tys, s, own),
        tys.len() <= more.len(),
        forall|i: int| 0 <= i < tys.len() ==> tys[i] == more[i],
    ensures
        layout_wf(more, s, own),
{
    assert forall|j: int| 0 <= j < s.fields.len() implies #[trigger] field_fits(more, s, own, j) by {
        assert(field_fits(tys, s, own, j));
    }
    assert forall|j: int, k: int| 0 <= j < k < s.fields.len() implies #[trigger] fields_apart(
        more,
        s,
        j,
        k,
    ) by {
        assert(fields_apart(tys, s, j, k));
        assert(field_fits(tys, s, own, j));
        assert(field_fits(tys, s, own, k));
    }
}

} // verus!
