//! Host values, collector objects and the byte encoding that both share.
//!
//! Every value that crosses between the host and compiled code, and every
//! field of a struct, is a run of bytes whose length its type fixes. The
//! encoding is the same in both places, so one pair of functions serves
//! arguments, return values and fields.

use vstd::prelude::*;
use vstd::bytes::*;
use crate::names::copy_bytes;
use crate::types::{
    is_gc_struct, known, slot_size, Primitive, Storage, StructView, TypeId, TypeTable,
};

verus! {

/// A reference to a struct instance: an inline copy, or a handle to an object
/// that the collector owns and that every holder of the handle shares.
#[derive(Clone, Debug, PartialEq, Eq)]
pub enum StructRef {
    /// An independent copy of the struct's bytes, with the position of its
    /// descriptor in the registry.
    Value { ty: usize, bytes: Vec<u8> },
    /// A handle into the collector. Handles start at 1; 0 refers to nothing.
    Gc { handle: u64 },
}

/// A value of the host. A float travels as the bit pattern of its 64-bit
/// representation.
#[derive(Clone, Debug, PartialEq, Eq)]
pub enum NativeValue {
    Unit,
    Int(i64),
    Float(u64),
    Bool(bool),
    Struct(StructRef),
}

/// An object of the collector: the position of its descriptor and its bytes.
#[derive(Debug, PartialEq, Eq)]
pub struct Object {
    pub ty: usize,
    pub bytes: Vec<u8>,
}

/// The objects that the collector tracks. The object of handle `h` is at
/// position `h - 1`; objects are never removed here, since reclaiming them is
/// the collector's own business.
#[derive(Debug, PartialEq, Eq)]
pub struct Heap {
    pub objects: Vec<Object>,
}

pub ghost enum RefView {
    Value { ty: usize, bytes: Seq<u8> },
    Gc { handle: u64 },
}

pub ghost enum ValueView {
    Unit,
    Int(i64),
    Float(u64),
    Bool(bool),
    Struct(RefView),
}

pub ghost struct ObjectView {
    pub ty: usize,
    pub bytes: Seq<u8>,
}

impl View for StructRef {
    type V = RefView;

    open spec fn view(&self) -> RefView {
        match *self {
            StructRef::Value { ty, bytes } => RefView::Value { ty, bytes: bytes@ },
            StructRef::Gc { handle } => RefView::Gc { handle },
        }
    }
}

impl View for NativeValue {
    type V = ValueView;

    open spec fn view(&self) -> ValueView {
        match *self {
            NativeValue::Unit => ValueView::Unit,
            NativeValue::Int(i) => ValueView::Int(i),
            NativeValue::Float(bits) => ValueView::Float(bits),
            NativeValue::Bool(b) => ValueView::Bool(b),
            NativeValue::Struct(r) => ValueView::Struct(r@),
        }
    }
}

impl View for Object {
    type V = ObjectView;

    open spec fn view(&self) -> ObjectView {
        ObjectView { ty: self.ty, bytes: self.bytes@ }
    }
}

impl View for Heap {
    type V = Seq<ObjectView>;

    open spec fn view(&self) -> Seq<ObjectView> {
        self.objects@.map_values(|o: Object| o@)
    }
}

/// The models of a sequence of host values, in order.
pub open spec fn value_views(values: Seq<NativeValue>) -> Seq<ValueView> {
    values.map_values(|v: NativeValue| v@)
}

/// Handle `h` refers to an object of `heap`.
pub open spec fn live(heap: Seq<ObjectView>, h: u64) -> bool {
    1 <= h <= heap.len()
}

/// Every object is an instance of a collector struct of the registry and has
/// exactly the bytes of its layout.
pub open spec fn heap_wf(tys: Seq<StructView>, heap: Seq<ObjectView>) -> bool {
    forall|i: int|
        0 <= i < heap.len() ==> {
            &&& (#[trigger] heap[i]).ty < tys.len()
            &&& tys[heap[i].ty as int].storage == Storage::Gc
            &&& heap[i].bytes.len() == tys[heap[i].ty as int].size
        }
}

/// `n` zero bytes.
pub open spec fn zeros(n: nat) -> Seq<u8> {
    Seq::new(n, |i: int| 0u8)
}

/// The `n` bytes of `bytes` that start at `offset`.
pub open spec fn slice_at(bytes: Seq<u8>, offset: int, n: int) -> Seq<u8> {
    bytes.subrange(offset, offset + n)
}

/// `bytes` with `data` written over it from `offset` on.
pub open spec fn splice(bytes: Seq<u8>, offset: int, data: Seq<u8>) -> Seq<u8> {
    bytes.subrange(0, offset) + data + bytes.subrange(offset + data.len(), bytes.len() as int)
}

/// The descriptor position of a struct reference, if the reference is valid:
/// an inline copy must name a value struct and hold exactly its bytes, a
/// handle must refer to an object.
pub open spec fn ref_type(tys: Seq<StructView>, heap: Seq<ObjectView>, r: RefView) -> Option<
    usize,
> {
    match r {
        RefView::Value { ty, bytes } => if ty < tys.len() && tys[ty as int].storage
            == Storage::Value && bytes.len() == tys[ty as int].size {
            Some(ty)
        } else {
            None
        },
        RefView::Gc { handle } => if live(heap, handle) {
            Some(heap[handle - 1].ty)
        } else {
            None
        },
    }
}

/// The type that a host value reports, or `None` for a struct reference that
/// is not valid.
pub open spec fn type_of(tys: Seq<StructView>, heap: Seq<ObjectView>, v: ValueView) -> Option<
    TypeId,
> {
    match v {
        ValueView::Unit => Some(TypeId::Primitive(Primitive::Unit)),
        ValueView::Int(_) => Some(TypeId::Primitive(Primitive::Int)),
        ValueView::Float(_) => Some(TypeId::Primitive(Primitive::Float)),
        ValueView::Bool(_) => Some(TypeId::Primitive(Primitive::Bool)),
        ValueView::Struct(r) => match ref_type(tys, heap, r) {
            Some(i) => Some(TypeId::Struct(i)),
            None => None,
        },
    }
}

/// The bytes of a host value: integers and float bit patterns in eight bytes,
/// least significant first; a boolean in one byte, 1 or 0; a value struct as
/// its own bytes; a collector struct as its handle.
pub open spec fn encode(v: ValueView) -> Seq<u8> {
    match v {
        ValueView::Unit => Seq::<u8>::empty(),
        ValueView::Int(i) => spec_u64_to_le_bytes(i as u64),
        ValueView::Float(bits) => spec_u64_to_le_bytes(bits),
        ValueView::Bool(b) => seq![if b { 1u8 } else { 0u8 }],
        ValueView::Struct(RefView::Value { ty, bytes }) => bytes,
        ValueView::Struct(RefView::Gc { handle }) => spec_u64_to_le_bytes(handle),
    }
}

/// The host value that `bytes` hold under type `ty`. A boolean is true for
/// any byte other than 0. For a collector struct the bytes must be the handle
/// of an object of exactly that type; if they are not, there is no value.
pub open spec fn decode(
    tys: Seq<StructView>,
    heap: Seq<ObjectView>,
    ty: TypeId,
    bytes: Seq<u8>,
) -> Option<ValueView> {
    match ty {
        TypeId::Primitive(Primitive::Unit) => Some(ValueView::Unit),
        TypeId::Primitive(Primitive::Int) => Some(
            ValueView::Int(spec_u64_from_le_bytes(bytes) as i64),
        ),
        TypeId::Primitive(Primitive::Float) => Some(ValueView::Float(spec_u64_from_le_bytes(bytes))),
        TypeId::Primitive(Primitive::Bool) => Some(ValueView::Bool(bytes[0] != 0)),
        TypeId::Struct(i) => if tys[i as int].storage == Storage::Value {
            Some(ValueView::Struct(RefView::Value { ty: i, bytes }))
        } else {
            let handle = spec_u64_from_le_bytes(bytes);
            if live(heap, handle) && heap[handle - 1].ty == i {
                Some(ValueView::Struct(RefView::Gc { handle }))
            } else {
                None
            }
        },
    }
}

/// A value of a known type occupies exactly the bytes of that type's slot.
pub proof fn lemma_encode_len(tys: Seq<StructView>, heap: Seq<ObjectView>, v: ValueView)
    requires
        heap_wf(tys, heap),
        type_of(tys, heap, v) is Some,
    ensures
        encode(v).len() == slot_size(tys, type_of(tys, heap, v)->Some_0),
{
    lemma_auto_spec_u64_to_from_le_bytes();
}

/// Reading back the range that was just written gives what was written,
/// and the write keeps the length.
pub proof fn lemma_slice_of_splice(bytes: Seq<u8>, offset: int, data: Seq<u8>)
    requires
        0 <= offset,
        offset + data.len() <= bytes.len(),
    ensures
        splice(bytes, offset, data).len() == bytes.len(),
        slice_at(splice(bytes, offset, data), offset, data.len() as int) == data,
{
    assert(slice_at(splice(bytes, offset, data), offset, data.len() as int) =~= data);
}

/// A write leaves every range that it does not touch as it was.
pub proof fn lemma_slice_apart(bytes: Seq<u8>, offset: int, data: Seq<u8>, other: int, n: int)
    requires
        0 <= offset,
        offset + data.len() <= bytes.len(),
        0 <= other,
        0 <= n,
        other + n <= bytes.len(),
        other + n <= offset || offset + data.len() <= other,
    ensures
        slice_at(splice(bytes, offset, data), other, n) == slice_at(bytes, other, n),
{
    assert(slice_at(splice(bytes, offset, data), other, n) =~= slice_at(bytes, other, n));
}

/// Decoding the bytes of a well-typed value under its own type gives the
/// value back.
pub proof fn lemma_decode_encode(tys: Seq<StructView>, heap: Seq<ObjectView>, v: ValueView)
    requires
        heap_wf(tys, heap),
        type_of(tys, heap, v) is Some,
    ensures
        decode(tys, heap, type_of(tys, heap, v)->Some_0, encode(v)) == Some(v),
{
    lemma_auto_spec_u64_to_from_le_bytes();
    match v {
        ValueView::Int(i) => {
            assert((i as u64) as i64 == i) by (bit_vector);
        },
        _ => {},
    }
}

/// `n` zero bytes.
pub fn zero_bytes(n: usize) -> (out: Vec<u8>)
    ensures
        out@ == zeros(n as nat),
{
    let mut out: Vec<u8> = Vec::new();
    let mut i: usize = 0;
    while i < n
        invariant
            i <= n,
            out@ == zeros(i as nat),
        decreases n - i,
    {
        out.push(0u8);
        i += 1;
        assert(out@ =~= zeros(i as nat));
    }
    out
}

/// A copy of `bytes` with `data` written over it from `offset` on.
pub fn patched(bytes: &[u8], offset: usize, data: &[u8]) -> (out: Vec<u8>)
    requires
        offset + data@.len() <= bytes@.len(),
    ensures
        out@ == splice(bytes@, offset as int, data@),
{
    let ghost want = splice(bytes@, offset as int, data@);
    let mut out: Vec<u8> = Vec::new();
    let mut i: usize = 0;
    while i < bytes.len()
        invariant
            i <= bytes.len(),
            offset + data@.len() <= bytes@.len(),
            want == splice(bytes@, offset as int, data@),
            out@ == want.subrange(0, i as int),
        decreases bytes.len() - i,
    {
        if offset <= i && i - offset < data.len() {
            out.push(data[i - offset]);
        } else {
            out.push(bytes[i]);
        }
        i += 1;
        assert(out@ =~= want.subrange(0, i as int));
    }
    assert(out@ =~= want);
    out
}

/// The bytes of a host value.
pub fn encode_value(v: &NativeValue) -> (out: Vec<u8>)
    ensures
        out@ == encode(v@),
{
    match v {
        NativeValue::Unit => {
            let out: Vec<u8> = Vec::new();
            assert(out@ =~= Seq::<u8>::empty());
            out
        },
        NativeValue::Int(i) => u64_to_le_bytes(*i as u64),
        NativeValue::Float(bits) => u64_to_le_bytes(*bits),
        NativeValue::Bool(b) => {
            let mut out: Vec<u8> = Vec::new();
            out.push(if *b { 1u8 } else { 0u8 });
            assert(out@ =~= seq![if *b { 1u8 } else { 0u8 }]);
            out
        },
        NativeValue::Struct(StructRef::Value { ty, bytes }) => copy_bytes(bytes.as_slice()),
        NativeValue::Struct(StructRef::Gc { handle }) => u64_to_le_bytes(*handle),
    }
}

impl Heap {
    /// A collector without objects.
    pub fn new() -> (heap: Heap)
        ensures
            heap@.len() == 0,
    {
        Heap { objects: Vec::new() }
    }

    /// A copy of the collector's objects.
    pub fn duplicate(&self) -> (copy: Heap)
        ensures
            copy@ == self@,
    {
        let mut objects: Vec<Object> = Vec::new();
        let mut i: usize = 0;
        while i < self.objects.len()
            invariant
                i <= self.objects.len(),
                objects.len() == i,
                forall|k: int| 0 <= k < i ==> #[trigger] objects@[k]@ == self.objects@[k]@,
            decreases self.objects.len() - i,
        {
            let o = &self.objects[i];
            objects.push(Object { ty: o.ty, bytes: copy_bytes(o.bytes.as_slice()) });
            i += 1;
        }
        let copy = Heap { objects };
        assert(copy@ =~= self@);
        copy
    }

    /// The object that `handle` refers to.
    pub fn object(&self, handle: u64) -> (found: Option<&Object>)
        ensures
            found matches Some(o) ==> live(self@, handle) && o@ == self@[handle - 1],
            found is None ==> !live(self@, handle),
    {
        if handle >= 1 && handle - 1 < self.objects.len() as u64 {
            let i: usize = (handle - 1) as usize;
            Some(&self.objects[i])
        } else {
            None
        }
    }

    /// Allocates a zeroed instance of the collector struct at position `ty`
    /// and returns its handle, the next one in order. Nothing is allocated
    /// when `ty` is no collector struct of the registry, or when the handles
    /// have run out.
    pub fn allocate(&mut self, table: &TypeTable, ty: usize) -> (handle: Option<u64>)
        ensures
            handle is Some <==> is_gc_struct(table@, TypeId::Struct(ty)) && old(self)@.len()
                < usize::MAX,
            handle matches Some(h) ==> h == old(self)@.len() + 1 && final(self)@ == old(self)@.push(
                ObjectView { ty, bytes: zeros(table@[ty as int].size as nat) },
            ),
            handle is None ==> final(self)@ == old(self)@,
            heap_wf(table@, old(self)@) ==> heap_wf(table@, final(self)@),
    {
        if ty >= table.structs.len() {
            return None;
        }
        match table.structs[ty].storage {
            Storage::Value => None,
            Storage::Gc => {
                if self.objects.len() >= usize::MAX {
                    return None;
                }
                let bytes = zero_bytes(table.structs[ty].size);
                self.objects.push(Object { ty, bytes });
                let h: u64 = self.objects.len() as u64;
                assert(self@ =~= old(self)@.push(
                    ObjectView { ty, bytes: zeros(table@[ty as int].size as nat) },
                ));
                Some(h)
            },
        }
    }

    /// Writes `data` into the object of `handle`, from byte `offset` on.
    pub fn write(&mut self, handle: u64, offset: usize, data: &[u8])
        requires
            live(old(self)@, handle),
            offset + data@.len() <= old(self)@[handle - 1].bytes.len(),
        ensures
            final(self)@ == old(self)@.update(
                handle - 1,
                ObjectView {
                    ty: old(self)@[handle - 1].ty,
                    bytes: splice(old(self)@[handle - 1].bytes, offset as int, data@),
                },
            ),
    {
        assert(handle - 1 < self.objects.len());
        let i: usize = (handle - 1) as usize;
        assert(self@[i as int] == self.objects@[i as int]@);
        let bytes = patched(self.objects[i].bytes.as_slice(), offset, data);
        let ty = self.objects[i].ty;
        self.objects.set(i, Object { ty, bytes });
        assert(self@ =~= old(self)@.update(
            handle - 1,
            ObjectView {
                ty: old(self)@[handle - 1].ty,
                bytes: splice(old(self)@[handle - 1].bytes, offset as int, data@),
            },
        ));
    }
}

/// The descriptor position of a struct reference, if the reference is valid.
pub fn type_of_ref(table: &TypeTable, heap: &Heap, r: &StructRef) -> (found: Option<usize>)
    ensures
        found == ref_type(table@, heap@, r@),
{
    match r {
        StructRef::Value { ty, bytes } => {
            if *ty < table.structs.len() {
                match table.structs[*ty].storage {
                    Storage::Value => if bytes.len() == table.structs[*ty].size {
                        Some(*ty)
                    } else {
                        None
                    },
                    Storage::Gc => None,
                }
            } else {
                None
            }
        },
        StructRef::Gc { handle } => match heap.object(*handle) {
            Some(o) => Some(o.ty),
            None => None,
        },
    }
}

/// The type that a host value reports.
pub fn type_of_value(table: &TypeTable, heap: &Heap, v: &NativeValue) -> (found: Option<TypeId>)
    ensures
        found == type_of(table@, heap@, v@),
{
    match v {
        NativeValue::Unit => Some(TypeId::Primitive(Primitive::Unit)),
        NativeValue::Int(_) => Some(TypeId::Primitive(Primitive::Int)),
        NativeValue::Float(_) => Some(TypeId::Primitive(Primitive::Float)),
        NativeValue::Bool(_) => Some(TypeId::Primitive(Primitive::Bool)),
        NativeValue::Struct(r) => match type_of_ref(table, heap, r) {
            Some(i) => Some(TypeId::Struct(i)),
            None => None,
        },
    }
}

/// The host value that `bytes` hold under type `ty`.
pub fn decode_value(table: &TypeTable, heap: &Heap, ty: TypeId, bytes: &[u8]) -> (found: Option<
    NativeValue,
>)
    requires
        known(table@, ty),
        bytes@.len() == slot_size(table@, ty),
    ensures
        found matches Some(v) ==> decode(table@, heap@, ty, bytes@) == Some(v@),
        found is None ==> decode(table@, heap@, ty, bytes@) is None,
{
    match ty {
        TypeId::Primitive(Primitive::Unit) => Some(NativeValue::Unit),
        TypeId::Primitive(Primitive::Int) => Some(NativeValue::Int(u64_from_le_bytes(bytes) as i64)),
        TypeId::Primitive(Primitive::Float) => Some(NativeValue::Float(u64_from_le_bytes(bytes))),
        TypeId::Primitive(Primitive::Bool) => Some(NativeValue::Bool(bytes[0] != 0)),
        TypeId::Struct(i) => match table.structs[i].storage {
            Storage::Value => Some(
                NativeValue::Struct(StructRef::Value { ty: i, bytes: copy_bytes(bytes) }),
            ),
            Storage::Gc => {
                let handle = u64_from_le_bytes(bytes);
                match heap.object(handle) {
                    Some(o) => if o.ty == i {
                        Some(NativeValue::Struct(StructRef::Gc { handle }))
                    } else {
                        None
                    },
                    None => None,
                }
            },
        },
    }
}

} // verus!
