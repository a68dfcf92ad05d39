//! Typed field access through a struct reference.
//!
//! Every access first resolves the reference to its descriptor, then the
//! field by name, then checks the host type against the field's declared
//! type. Only after all three does it touch memory, so a refused access
//! leaves everything as it was.

use vstd::prelude::*;
use crate::error::Error;
use crate::memory::{
    decode, decode_value, encode, encode_value, heap_wf, lemma_encode_len, patched, ref_type,
    slice_at, splice, type_of, type_of_ref, type_of_value, Heap, NativeValue, ObjectView, RefView,
    StructRef, ValueView,
};
use crate::types::{
    field_fits, field_position, kind_of, known, layout_wf, registry_wf, slot_size, FieldView,
    NativeKind, StructView, TypeId, TypeTable,
};
use crate::names::lemma_position_of;
use crate::reload::StateView;
use crate::runtime::{text, Runtime, RuntimeView};
use crate::types::{field_names, StructDescriptor};

verus! {

/// The bytes of the instance that a valid reference refers to.
pub open spec fn ref_bytes(heap: Seq<ObjectView>, r: RefView) -> Seq<u8> {
    match r {
        RefView::Value { ty, bytes } => bytes,
        RefView::Gc { handle } => heap[handle - 1].bytes,
    }
}

/// The field called `name` of the struct that `r` refers to. A reference
/// that is not valid is a type mismatch; a name that the struct does not have
/// is a missing field.
pub open spec fn field_of(
    tys: Seq<StructView>,
    heap: Seq<ObjectView>,
    r: RefView,
    name: Seq<u8>,
) -> Result<FieldView, Error> {
    match ref_type(tys, heap, r) {
        None => Err(Error::TypeMismatch),
        Some(ty) => match field_position(tys[ty as int], name) {
            None => Err(Error::FieldNotFound),
            Some(j) => Ok(tys[ty as int].fields[j]),
        },
    }
}

/// What reading field `name` through `r` as a host value of kind `kind`
/// gives. The reference must be valid and the field must exist; the kind
/// asked for must be the kind of the field's declared type; and the bytes of
/// a collector-struct field must be the handle of an object of that type.
pub open spec fn get_field(
    tys: Seq<StructView>,
    heap: Seq<ObjectView>,
    r: RefView,
    name: Seq<u8>,
    kind: NativeKind,
) -> Result<ValueView, Error> {
    match field_of(tys, heap, r, name) {
        Err(e) => Err(e),
        Ok(f) => if kind_of(f.ty) != kind {
            Err(Error::TypeMismatch)
        } else {
            match decode(
                tys,
                heap,
                f.ty,
                slice_at(ref_bytes(heap, r), f.offset as int, slot_size(tys, f.ty) as int),
            ) {
                Some(v) => Ok(v),
                None => Err(Error::TypeMismatch),
            }
        },
    }
}

/// The reference and the collector after `data` was written at `offset` of
/// the instance that `r` refers to: an inline copy changes itself and nothing
/// else; a handle stays as it is and its object changes.
pub open spec fn write_through(heap: Seq<ObjectView>, r: RefView, offset: int, data: Seq<u8>) -> (
    RefView,
    Seq<ObjectView>,
) {
    match r {
        RefView::Value { ty, bytes } => (
            RefView::Value { ty, bytes: splice(bytes, offset, data) },
            heap,
        ),
        RefView::Gc { handle } => (
            r,
            heap.update(
                handle - 1,
                ObjectView {
                    ty: heap[handle - 1].ty,
                    bytes: splice(heap[handle - 1].bytes, offset, data),
                },
            ),
        ),
    }
}

/// What writing `v` to field `name` through `r` leaves behind: the reference
/// and the collector afterwards. The type that `v` reports must be exactly
/// the field's declared type.
pub open spec fn set_field(
    tys: Seq<StructView>,
    heap: Seq<ObjectView>,
    r: RefView,
    name: Seq<u8>,
    v: ValueView,
) -> Result<(RefView, Seq<ObjectView>), Error> {
    match field_of(tys, heap, r, name) {
        Err(e) => Err(e),
        Ok(f) => if type_of(tys, heap, v) != Some(f.ty) {
            Err(Error::TypeMismatch)
        } else {
            Ok(write_through(heap, r, f.offset as int, encode(v)))
        },
    }
}

/// What replacing field `name` by `v` gives: the value that a read would
/// have returned, and what a write leaves behind. It fails where the write
/// would, else where the read would, and then nothing is written.
pub open spec fn replace_field(
    tys: Seq<StructView>,
    heap: Seq<ObjectView>,
    r: RefView,
    name: Seq<u8>,
    v: ValueView,
) -> Result<(ValueView, RefView, Seq<ObjectView>), Error> {
    match set_field(tys, heap, r, name, v) {
        Err(e) => Err(e),
        Ok((r2, heap2)) => match get_field(
            tys,
            heap,
            r,
            name,
            kind_of(type_of(tys, heap, v)->Some_0),
        ) {
            Err(e) => Err(e),
            Ok(old) => Ok((old, r2, heap2)),
        },
    }
}

/// A copy of the `n` bytes of `bytes` that start at `offset`.
pub fn section(bytes: &[u8], offset: usize, n: usize) -> (out: Vec<u8>)
    requires
        offset + n <= bytes@.len(),
    ensures
        out@ == slice_at(bytes@, offset as int, n as int),
{
    let total = bytes.len();
    let mut out: Vec<u8> = Vec::new();
    let mut i: usize = 0;
    while i < n
        invariant
            i <= n,
            total == bytes@.len(),
            offset + n <= bytes@.len(),
            out@ == bytes@.subrange(offset as int, offset + i),
        decreases n - i,
    {
        out.push(bytes[offset + i]);
        i += 1;
        assert(out@ =~= bytes@.subrange(offset as int, offset + i));
    }
    out
}

/// Writing through a reference keeps the collector well formed and the
/// reference valid, with the type it had.
pub proof fn lemma_write_through_wf(
    tys: Seq<StructView>,
    heap: Seq<ObjectView>,
    r: RefView,
    offset: int,
    data: Seq<u8>,
)
    requires
        heap_wf(tys, heap),
        ref_type(tys, heap, r) is Some,
        0 <= offset,
        offset + data.len() <= ref_bytes(heap, r).len(),
    ensures
        heap_wf(tys, write_through(heap, r, offset, data).1),
        write_through(heap, r, offset, data).1.len() == heap.len(),
        ref_type(
            tys,
            write_through(heap, r, offset, data).1,
            write_through(heap, r, offset, data).0,
        ) == ref_type(tys, heap, r),
        forall|i: int|
            0 <= i < heap.len() ==> (#[trigger] write_through(heap, r, offset, data).1[i]).ty
                == heap[i].ty,
{
}

/// Resolves field `name` of the struct that `r` refers to: its type, its
/// offset and the number of bytes it occupies.
fn find_field_of(table: &TypeTable, heap: &Heap, r: &StructRef, name: &[u8]) -> (out: Result<
    (TypeId, usize, usize),
    Error,
>)
    requires
        registry_wf(table@),
        heap_wf(table@, heap@),
    ensures
        match field_of(table@, heap@, r@, name@) {
            Ok(f) => out == Ok::<(TypeId, usize, usize), Error>(
                (f.ty, f.offset, slot_size(table@, f.ty) as usize),
            ) && known(table@, f.ty) && f.offset + slot_size(table@, f.ty) <= ref_bytes(
                heap@,
                r@,
            ).len() <= usize::MAX,
            Err(e) => out == Err::<(TypeId, usize, usize), Error>(e),
        },
{
    let ty = match type_of_ref(table, heap, r) {
        Some(ty) => ty,
        None => {
            return Err(Error::TypeMismatch);
        },
    };
    let desc = &table.structs[ty];
    assert(desc@ == table@[ty as int]);
    let j = match desc.find_field(name) {
        Some(j) => j,
        None => {
            return Err(Error::FieldNotFound);
        },
    };
    proof {
        lemma_position_of(field_names(desc@), name@);
        assert(layout_wf(table@, table@[ty as int], ty as int));
        assert(field_fits(table@, desc@, ty as int, j as int));
    }
    let f = &desc.fields[j];
    assert(f@ == desc@.fields[j as int]);
    Ok((f.ty, f.offset, table.slot_size(f.ty)))
}

/// A copy of the `n` bytes at `offset` of the instance that `r` refers to.
fn read_through(heap: &Heap, r: &StructRef, offset: usize, n: usize) -> (out: Vec<u8>)
    requires
        r@ matches RefView::Gc { handle } ==> crate::memory::live(heap@, handle),
        offset + n <= ref_bytes(heap@, r@).len(),
    ensures
        out@ == slice_at(ref_bytes(heap@, r@), offset as int, n as int),
{
    match r {
        StructRef::Value { ty, bytes } => section(bytes.as_slice(), offset, n),
        StructRef::Gc { handle } => match heap.object(*handle) {
            Some(o) => section(o.bytes.as_slice(), offset, n),
            None => Vec::new(),
        },
    }
}

/// Writes `data` at `offset` of the instance that `r` refers to.
fn write_data(heap: &mut Heap, r: &mut StructRef, offset: usize, data: &[u8])
    requires
        old(r)@ matches RefView::Gc { handle } ==> crate::memory::live(old(heap)@, handle),
        offset + data@.len() <= ref_bytes(old(heap)@, old(r)@).len(),
    ensures
        (final(r)@, final(heap)@) == write_through(old(heap)@, old(r)@, offset as int, data@),
{
    match r {
        StructRef::Value { ty, bytes } => {
            let changed = patched(bytes.as_slice(), offset, data);
            let ty = *ty;
            *r = StructRef::Value { ty, bytes: changed };
        },
        StructRef::Gc { handle } => {
            heap.write(*handle, offset, data);
        },
    }
}

/// Reads field `name` of the instance that `r` refers to, as a host value of
/// kind `kind`.
pub fn get_field_in(
    table: &TypeTable,
    heap: &Heap,
    r: &StructRef,
    name: &[u8],
    kind: NativeKind,
) -> (out: Result<NativeValue, Error>)
    requires
        registry_wf(table@),
        heap_wf(table@, heap@),
    ensures
        out matches Ok(v) ==> get_field(table@, heap@, r@, name@, kind) == Ok::<ValueView, Error>(
            v@,
        ),
        out matches Err(e) ==> get_field(table@, heap@, r@, name@, kind) == Err::<
            ValueView,
            Error,
        >(e),
{
    let (ty, offset, n) = match find_field_of(table, heap, r, name) {
        Ok(found) => found,
        Err(e) => {
            return Err(e);
        },
    };
    if ty.kind() != kind {
        return Err(Error::TypeMismatch);
    }
    let part = read_through(heap, r, offset, n);
    match decode_value(table, heap, ty, part.as_slice()) {
        Some(v) => Ok(v),
        None => Err(Error::TypeMismatch),
    }
}

/// Writes `value` to field `name` of the instance that `r` refers to.
pub fn set_field_in(
    table: &TypeTable,
    heap: &mut Heap,
    r: &mut StructRef,
    name: &[u8],
    value: &NativeValue,
) -> (out: Result<(), Error>)
    requires
        registry_wf(table@),
        heap_wf(table@, old(heap)@),
    ensures
        match set_field(table@, old(heap)@, old(r)@, name@, value@) {
            Ok((r2, heap2)) => out is Ok && final(r)@ == r2 && final(heap)@ == heap2,
            Err(e) => out == Err::<(), Error>(e) && final(r)@ == old(r)@ && final(heap)@ == old(heap)@,
        },
        heap_wf(table@, final(heap)@),
{
    let (ty, offset, n) = match find_field_of(table, heap, r, name) {
        Ok(found) => found,
        Err(e) => {
            return Err(e);
        },
    };
    match type_of_value(table, heap, value) {
        Some(t) => if t != ty {
            return Err(Error::TypeMismatch);
        },
        None => {
            return Err(Error::TypeMismatch);
        },
    }
    let data = encode_value(value);
    proof {
        lemma_encode_len(table@, heap@, value@);
        lemma_write_through_wf(table@, heap@, r@, offset as int, data@);
    }
    write_data(heap, r, offset, data.as_slice());
    Ok(())
}

/// Writes `value` to field `name` and returns what the field held. Both the
/// read and the write are checked before anything is written.
pub fn replace_field_in(
    table: &TypeTable,
    heap: &mut Heap,
    r: &mut StructRef,
    name: &[u8],
    value: &NativeValue,
) -> (out: Result<NativeValue, Error>)
    requires
        registry_wf(table@),
        heap_wf(table@, old(heap)@),
    ensures
        match replace_field(table@, old(heap)@, old(r)@, name@, value@) {
            Ok((before, r2, heap2)) => out matches Ok(v) && v@ == before && final(r)@ == r2
                && final(heap)@ == heap2,
            Err(e) => out matches Err(e2) && e2 == e && final(r)@ == old(r)@ && final(heap)@
                == old(heap)@,
        },
        heap_wf(table@, final(heap)@),
{
    let (ty, offset, n) = match find_field_of(table, heap, r, name) {
        Ok(found) => found,
        Err(e) => {
            return Err(e);
        },
    };
    match type_of_value(table, heap, value) {
        Some(t) => if t != ty {
            return Err(Error::TypeMismatch);
        },
        None => {
            return Err(Error::TypeMismatch);
        },
    }
    let part = read_through(heap, r, offset, n);
    let before = match decode_value(table, heap, ty, part.as_slice()) {
        Some(v) => v,
        None => {
            return Err(Error::TypeMismatch);
        },
    };
    let data = encode_value(value);
    proof {
        lemma_encode_len(table@, heap@, value@);
        lemma_write_through_wf(table@, heap@, r@, offset as int, data@);
    }
    write_data(heap, r, offset, data.as_slice());
    Ok(before)
}

impl StructRef {
    /// A copy of the descriptor of this struct: that of the inline copy, or
    /// the one under which the collector holds the object now.
    pub fn info(&self, runtime: &Runtime) -> (found: Option<StructDescriptor>)
        requires
            runtime.wf(),
        ensures
            match ref_type(runtime@.state.types, runtime@.state.heap, self@) {
                Some(ty) => found matches Some(d) && ty < runtime@.state.types.len() && d@
                    == runtime@.state.types[ty as int],
                None => found is None,
            },
    {
        match type_of_ref(runtime.types(), runtime.heap(), self) {
            Some(ty) => runtime.descriptor(TypeId::Struct(ty)),
            None => None,
        }
    }

    /// Reads field `name` of this struct, as a host value of kind `kind`.
    pub fn get(&self, runtime: &Runtime, name: &str, kind: NativeKind) -> (out: Result<
        NativeValue,
        Error,
    >)
        requires
            runtime.wf(),
        ensures
            out matches Ok(v) ==> get_field(
                runtime@.state.types,
                runtime@.state.heap,
                self@,
                text(name),
                kind,
            ) == Ok::<ValueView, Error>(v@),
            out matches Err(e) ==> get_field(
                runtime@.state.types,
                runtime@.state.heap,
                self@,
                text(name),
                kind,
            ) == Err::<ValueView, Error>(e),
    {
        runtime.get_field(self, name, kind)
    }

    /// Writes `value` to field `name` of this struct.
    pub fn set(&mut self, runtime: &mut Runtime, name: &str, value: &NativeValue) -> (out: Result<
        (),
        Error,
    >)
        requires
            old(runtime).wf(),
        ensures
            final(runtime).wf(),
            match set_field(
                old(runtime)@.state.types,
                old(runtime)@.state.heap,
                old(self)@,
                text(name),
                value@,
            ) {
                Ok((r2, heap2)) => out is Ok && final(self)@ == r2 && final(runtime)@
                    == (RuntimeView {
                    state: StateView { heap: heap2, ..old(runtime)@.state },
                    ..old(runtime)@
                }),
                Err(e) => out == Err::<(), Error>(e) && final(self)@ == old(self)@ && final(runtime)@ == old(runtime)@,
            },
    {
        runtime.set_field(self, name, value)
    }

    /// Writes `value` to field `name` of this struct and returns what the
    /// field held.
    pub fn replace(&mut self, runtime: &mut Runtime, name: &str, value: &NativeValue) -> (out:
        Result<NativeValue, Error>)
        requires
            old(runtime).wf(),
        ensures
            final(runtime).wf(),
            match replace_field(
                old(runtime)@.state.types,
                old(runtime)@.state.heap,
                old(self)@,
                text(name),
                value@,
            ) {
                Ok((before, r2, heap2)) => out matches Ok(v) && v@ == before && final(self)@ == r2
                    && final(runtime)@ == (RuntimeView {
                    state: StateView { heap: heap2, ..old(runtime)@.state },
                    ..old(runtime)@
                }),
                Err(e) => out matches Err(x) && x == e && final(self)@ == old(self)@ && final(runtime)@ == old(runtime)@,
            },
    {
        runtime.replace_field(self, name, value)
    }
}


} // verus!
