//! Artifacts: the compiled unit as it is handed to the runtime, and the
//! checks it must pass before anything of it is used.
//!
//! An artifact declares structs and exported functions. Inside an artifact a
//! struct type is named by its position in the artifact's own list of
//! structs; when the artifact is loaded its structs are published in the
//! registry and every such position is moved to where the struct then
//! stands.

use vstd::prelude::*;
use vstd::utf8::valid_utf8;
use crate::dispatch::{entry_names, entry_views, DispatchEntry, EntryView, FunctionSignature, SignatureView};
use crate::error::LoadError;
use crate::names::{all_distinct, copy_bytes, distinct, name_views};
use crate::types::{
    field_fits, field_names, fields_apart, known, layout_wf, slot_size, struct_names,
    struct_views, FieldView, Storage, StructDescriptor, StructView, TypeId,
    HANDLE_SIZE,
};

verus! {

/// A compiled unit: its struct declarations and its exported functions.
#[derive(Debug, PartialEq, Eq)]
pub struct Artifact {
    pub structs: Vec<StructDescriptor>,
    pub functions: Vec<DispatchEntry>,
}

pub ghost struct ArtifactView {
    pub structs: Seq<StructView>,
    pub functions: Seq<EntryView>,
}

impl View for Artifact {
    type V = ArtifactView;

    open spec fn view(&self) -> ArtifactView {
        ArtifactView {
            structs: struct_views(self.structs@),
            functions: entry_views(self.functions@),
        }
    }
}

/// Every name of the list is valid displayable text.
pub open spec fn all_text(names: Seq<Seq<u8>>) -> bool {
    forall|i: int| 0 <= i < names.len() ==> valid_utf8(#[trigger] names[i])
}

/// Every function, struct and field name of the artifact is valid
/// displayable text.
pub open spec fn text_ok(a: ArtifactView) -> bool {
    &&& all_text(entry_names(a.functions))
    &&& all_text(struct_names(a.structs))
    &&& forall|i: int| 0 <= i < a.structs.len() ==> all_text(field_names(#[trigger] a.structs[i]))
}

/// No two exported functions and no two structs share a name.
pub open spec fn names_ok(a: ArtifactView) -> bool {
    distinct(entry_names(a.functions)) && distinct(struct_names(a.structs))
}

/// Every type of the signature is a primitive or a struct of `structs`.
pub open spec fn signature_known(structs: Seq<StructView>, sig: SignatureView) -> bool {
    &&& known(structs, sig.ret)
    &&& forall|i: int| 0 <= i < sig.params.len() ==> known(structs, #[trigger] sig.params[i])
}

/// Every struct of the artifact satisfies the layout invariant, and every
/// signature names known types only.
pub open spec fn shape_ok(a: ArtifactView) -> bool {
    &&& forall|i: int| 0 <= i < a.structs.len() ==> #[trigger] layout_wf(a.structs, a.structs[i], i)
    &&& forall|j: int|
        0 <= j < a.functions.len() ==> signature_known(
            a.structs,
            (#[trigger] a.functions[j]).signature,
        )
}

/// Why the artifact cannot be loaded, if it cannot: text is checked first,
/// then names, then shape.
pub open spec fn load_error(a: ArtifactView) -> Option<LoadError> {
    if !text_ok(a) {
        Some(LoadError::InvalidText)
    } else if !names_ok(a) {
        Some(LoadError::DuplicateName)
    } else if !shape_ok(a) {
        Some(LoadError::Malformed)
    } else {
        None
    }
}

/// The type `ty` of an artifact, as it is called once the artifact's structs
/// stand in the registry from position `base` on.
pub open spec fn rebase_type(ty: TypeId, base: int) -> TypeId {
    match ty {
        TypeId::Primitive(p) => ty,
        TypeId::Struct(i) => TypeId::Struct((base + i) as usize),
    }
}

pub open spec fn rebase_field(f: FieldView, base: int) -> FieldView {
    FieldView { name: f.name, ty: rebase_type(f.ty, base), offset: f.offset }
}

pub open spec fn rebase_struct(s: StructView, base: int) -> StructView {
    StructView {
        name: s.name,
        storage: s.storage,
        size: s.size,
        fields: s.fields.map_values(|f: FieldView| rebase_field(f, base)),
    }
}

pub open spec fn rebase_structs(structs: Seq<StructView>, base: int) -> Seq<StructView> {
    structs.map_values(|s: StructView| rebase_struct(s, base))
}

pub open spec fn rebase_entry(e: EntryView, base: int) -> EntryView {
    EntryView {
        signature: SignatureView {
            name: e.signature.name,
            params: e.signature.params.map_values(|t: TypeId| rebase_type(t, base)),
            ret: rebase_type(e.signature.ret, base),
        },
        address: e.address,
    }
}

pub open spec fn rebase_entries(entries: Seq<EntryView>, base: int) -> Seq<EntryView> {
    entries.map_values(|e: EntryView| rebase_entry(e, base))
}

/// Whether `bytes` are valid displayable text.
///
/// Trusted: calls `core::str::from_utf8` and reports whether it succeeded.
/// The contract claims that it succeeds exactly on well-formed UTF-8.
#[verifier::external_body]
fn is_text(bytes: &[u8]) -> (yes: bool)
    ensures
        yes == valid_utf8(bytes@),
{
    match core::str::from_utf8(bytes) {
        Ok(_) => true,
        Err(_) => false,
    }
}

/// Whether every name of the list is valid displayable text.
pub fn names_are_text(names: &Vec<Vec<u8>>) -> (yes: bool)
    ensures
        yes == all_text(name_views(names@)),
{
    let ghost views = name_views(names@);
    let mut i: usize = 0;
    while i < names.len()
        invariant
            i <= names.len(),
            views == name_views(names@),
            forall|k: int| 0 <= k < i ==> valid_utf8(#[trigger] views[k]),
        decreases names.len() - i,
    {
        if !is_text(names[i].as_slice()) {
            assert(!valid_utf8(views[i as int]));
            return false;
        }
        assert(valid_utf8(views[i as int]));
        i += 1;
    }
    true
}

/// The names of the fields of `s`, in order.
pub fn field_name_list(s: &StructDescriptor) -> (names: Vec<Vec<u8>>)
    ensures
        name_views(names@) == field_names(s@),
{
    let mut names: Vec<Vec<u8>> = Vec::new();
    let mut i: usize = 0;
    while i < s.fields.len()
        invariant
            i <= s.fields.len(),
            names.len() == i,
            forall|k: int| 0 <= k < i ==> (#[trigger] names@[k])@ == s.fields@[k].name@,
        decreases s.fields.len() - i,
    {
        names.push(copy_bytes(s.fields[i].name.as_slice()));
        i += 1;
    }
    assert(name_views(names@) =~= field_names(s@));
    names
}

/// The names of the structs, in order.
pub fn struct_name_list(structs: &Vec<StructDescriptor>) -> (names: Vec<Vec<u8>>)
    ensures
        name_views(names@) == struct_names(struct_views(structs@)),
{
    let mut names: Vec<Vec<u8>> = Vec::new();
    let mut i: usize = 0;
    while i < structs.len()
        invariant
            i <= structs.len(),
            names.len() == i,
            forall|k: int| 0 <= k < i ==> (#[trigger] names@[k])@ == structs@[k].name@,
        decreases structs.len() - i,
    {
        names.push(copy_bytes(structs[i].name.as_slice()));
        i += 1;
    }
    assert(name_views(names@) =~= struct_names(struct_views(structs@)));
    names
}

/// The names of the functions, in order.
pub fn function_name_list(functions: &Vec<DispatchEntry>) -> (names: Vec<Vec<u8>>)
    ensures
        name_views(names@) == entry_names(entry_views(functions@)),
{
    let mut names: Vec<Vec<u8>> = Vec::new();
    let mut i: usize = 0;
    while i < functions.len()
        invariant
            i <= functions.len(),
            names.len() == i,
            forall|k: int| 0 <= k < i ==> (#[trigger] names@[k])@ == functions@[k].signature.name@,
        decreases functions.len() - i,
    {
        names.push(copy_bytes(functions[i].signature.name.as_slice()));
        i += 1;
    }
    assert(name_views(names@) =~= entry_names(entry_views(functions@)));
    names
}

/// Whether `size` bytes from `offset` on lie within `total` bytes.
fn fits(offset: usize, size: usize, total: usize) -> (yes: bool)
    ensures
        yes == (offset + size <= total),
{
    match offset.checked_add(size) {
        Some(end) => end <= total,
        None => false,
    }
}

/// Number of bytes that a value of the known type `ty` occupies.
pub fn slot_size_in(structs: &Vec<StructDescriptor>, ty: TypeId) -> (n: usize)
    requires
        known(struct_views(structs@), ty),
    ensures
        n == slot_size(struct_views(structs@), ty),
{
    match ty {
        TypeId::Primitive(p) => p.size(),
        TypeId::Struct(i) => match structs[i].storage {
            Storage::Gc => HANDLE_SIZE,
            Storage::Value => structs[i].size,
        },
    }
}

/// Whether field `j` of the struct at position `own` fits.
fn field_ok(structs: &Vec<StructDescriptor>, own: usize, j: usize) -> (yes: bool)
    requires
        own < structs.len(),
        j < structs[own as int].fields.len(),
    ensures
        yes == field_fits(
            struct_views(structs@),
            struct_views(structs@)[own as int],
            own as int,
            j as int,
        ),
{
    let s = &structs[own];
    let f = &s.fields[j];
    assert(struct_views(structs@)[own as int].fields[j as int] == f@);
    match f.ty {
        TypeId::Primitive(p) => fits(f.offset, p.size(), s.size),
        TypeId::Struct(i) => {
            if i >= structs.len() {
                false
            } else {
                match structs[i].storage {
                    Storage::Gc => fits(f.offset, HANDLE_SIZE, s.size),
                    Storage::Value => i < own && fits(f.offset, structs[i].size, s.size),
                }
            }
        },
    }
}

/// Whether the struct at position `own` satisfies the layout invariant.
pub fn layout_ok(structs: &Vec<StructDescriptor>, own: usize) -> (yes: bool)
    requires
        own < structs.len(),
    ensures
        yes == layout_wf(struct_views(structs@), struct_views(structs@)[own as int], own as int),
{
    let ghost tys = struct_views(structs@);
    let ghost sv = tys[own as int];
    let s = &structs[own];
    assert(sv == s@);
    let n = s.fields.len();
    let mut j: usize = 0;
    while j < n
        invariant
            j <= n,
            n == s.fields.len(),
            own < structs.len(),
            s == &structs[own as int],
            tys == struct_views(structs@),
            sv == tys[own as int],
            forall|k: int| 0 <= k < j ==> #[trigger] field_fits(tys, sv, own as int, k),
        decreases n - j,
    {
        if !field_ok(structs, own, j) {
            return false;
        }
        j += 1;
    }
    let names = field_name_list(s);
    if !all_distinct(&names) {
        return false;
    }
    let mut k: usize = 0;
    while k < n
        invariant
            k <= n,
            n == s.fields.len(),
            own < structs.len(),
            s == &structs[own as int],
            tys == struct_views(structs@),
            sv == tys[own as int],
            sv == s@,
            forall|a: int| 0 <= a < n ==> #[trigger] field_fits(tys, sv, own as int, a),
            forall|a: int, b: int| 0 <= a < b < k ==> #[trigger] fields_apart(tys, sv, a, b),
        decreases n - k,
    {
        let mut a: usize = 0;
        while a < k
            invariant
                a <= k < n,
                n == s.fields.len(),
                own < structs.len(),
                s == &structs[own as int],
                tys == struct_views(structs@),
                sv == tys[own as int],
                sv == s@,
                forall|c: int| 0 <= c < n ==> #[trigger] field_fits(tys, sv, own as int, c),
                forall|c: int| 0 <= c < a ==> #[trigger] fields_apart(tys, sv, c, k as int),
            decreases k - a,
        {
            let fa = &s.fields[a];
            let fk = &s.fields[k];
            assert(sv.fields[a as int] == fa@);
            assert(sv.fields[k as int] == fk@);
            assert(field_fits(tys, sv, own as int, a as int));
            assert(field_fits(tys, sv, own as int, k as int));
            let size_a = slot_size_in(structs, fa.ty);
            let size_k = slot_size_in(structs, fk.ty);
            if !(fa.offset + size_a <= fk.offset || fk.offset + size_k <= fa.offset) {
                assert(!fields_apart(tys, sv, a as int, k as int));
                return false;
            }
            assert(fields_apart(tys, sv, a as int, k as int));
            a += 1;
        }
        k += 1;
    }
    true
}

/// Whether `ty` is a primitive or a struct of `structs`.
fn type_known(structs: &Vec<StructDescriptor>, ty: TypeId) -> (yes: bool)
    ensures
        yes == known(struct_views(structs@), ty),
{
    match ty {
        TypeId::Primitive(_) => true,
        TypeId::Struct(i) => i < structs.len(),
    }
}

/// Whether every type of the signature is known.
pub fn signature_ok(structs: &Vec<StructDescriptor>, sig: &FunctionSignature) -> (yes: bool)
    ensures
        yes == signature_known(struct_views(structs@), sig@),
{
    if !type_known(structs, sig.ret) {
        return false;
    }
    let mut i: usize = 0;
    while i < sig.params.len()
        invariant
            i <= sig.params.len(),
            forall|k: int| 0 <= k < i ==> known(struct_views(structs@), #[trigger] sig@.params[k]),
        decreases sig.params.len() - i,
    {
        if !type_known(structs, sig.params[i]) {
            assert(!known(struct_views(structs@), sig@.params[i as int]));
            return false;
        }
        i += 1;
    }
    true
}

impl Artifact {
    /// Whether every name of the artifact is valid displayable text.
    pub fn text_is_valid(&self) -> (yes: bool)
        ensures
            yes == text_ok(self@),
    {
        if !names_are_text(&function_name_list(&self.functions)) {
            return false;
        }
        if !names_are_text(&struct_name_list(&self.structs)) {
            return false;
        }
        let mut i: usize = 0;
        while i < self.structs.len()
            invariant
                i <= self.structs.len(),
                forall|k: int| 0 <= k < i ==> all_text(field_names(#[trigger] self@.structs[k])),
            decreases self.structs.len() - i,
        {
            if !names_are_text(&field_name_list(&self.structs[i])) {
                assert(!all_text(field_names(self@.structs[i as int])));
                return false;
            }
            assert(all_text(field_names(self@.structs[i as int])));
            i += 1;
        }
        true
    }

    /// Whether every layout and every signature of the artifact is well
    /// formed.
    pub fn shape_is_valid(&self) -> (yes: bool)
        ensures
            yes == shape_ok(self@),
    {
        let mut i: usize = 0;
        while i < self.structs.len()
            invariant
                i <= self.structs.len(),
                forall|k: int|
                    0 <= k < i ==> #[trigger] layout_wf(self@.structs, self@.structs[k], k),
            decreases self.structs.len() - i,
        {
            if !layout_ok(&self.structs, i) {
                assert(!layout_wf(self@.structs, self@.structs[i as int], i as int));
                return false;
            }
            i += 1;
        }
        let mut j: usize = 0;
        while j < self.functions.len()
            invariant
                j <= self.functions.len(),
                forall|k: int|
                    0 <= k < self@.structs.len() ==> #[trigger] layout_wf(
                        self@.structs,
                        self@.structs[k],
                        k,
                    ),
                forall|k: int|
                    0 <= k < j ==> signature_known(
                        self@.structs,
                        (#[trigger] self@.functions[k]).signature,
                    ),
            decreases self.functions.len() - j,
        {
            if !signature_ok(&self.structs, &self.functions[j].signature) {
                assert(!signature_known(self@.structs, self@.functions[j as int].signature));
                return false;
            }
            assert(signature_known(self@.structs, self@.functions[j as int].signature));
            j += 1;
        }
        true
    }

    /// Checks the artifact: its text, then its names, then its shape.
    pub fn check(&self) -> (out: Result<(), LoadError>)
        ensures
            out matches Err(e) ==> load_error(self@) == Some(e),
            out is Ok ==> load_error(self@) is None,
    {
        if !self.text_is_valid() {
            return Err(LoadError::InvalidText);
        }
        if !all_distinct(&function_name_list(&self.functions)) {
            return Err(LoadError::DuplicateName);
        }
        if !all_distinct(&struct_name_list(&self.structs)) {
            return Err(LoadError::DuplicateName);
        }
        if !self.shape_is_valid() {
            return Err(LoadError::Malformed);
        }
        Ok(())
    }
}

} // verus!
