//! Marshalling: checked conversion of host values to and from the bytes that
//! compiled code takes and returns.

use vstd::prelude::*;
use crate::error::Error;
use crate::memory::{
    decode, decode_value, encode, encode_value, type_of, type_of_value, Heap, NativeValue,
    ObjectView, ValueView,
};
use crate::types::{kind_of, known, slot_size, NativeKind, StructView, TypeId, TypeTable};

verus! {

/// The bytes handed to compiled code for the host value `v` where a value of
/// type `expected` is declared: those of `v`, if the type that `v` reports is
/// exactly `expected`.
pub open spec fn marshal(
    tys: Seq<StructView>,
    heap: Seq<ObjectView>,
    v: ValueView,
    expected: TypeId,
) -> Result<Seq<u8>, Error> {
    if type_of(tys, heap, v) == Some(expected) {
        Ok(encode(v))
    } else {
        Err(Error::TypeMismatch)
    }
}

/// The host value for the bytes `raw` that compiled code produced under the
/// declared type `produced`, where the caller asked for a value of kind
/// `requested`. The kind must be that of the declared type, and the bytes
/// must hold a value of that type.
pub open spec fn unmarshal(
    tys: Seq<StructView>,
    heap: Seq<ObjectView>,
    raw: Seq<u8>,
    produced: TypeId,
    requested: NativeKind,
) -> Result<ValueView, Error> {
    if !known(tys, produced) || kind_of(produced) != requested || raw.len() != slot_size(
        tys,
        produced,
    ) {
        Err(Error::TypeMismatch)
    } else {
        match decode(tys, heap, produced, raw) {
            Some(v) => Ok(v),
            None => Err(Error::TypeMismatch),
        }
    }
}

/// Checks the type that `value` reports against `expected` and converts the
/// value to bytes.
pub fn marshal_argument(table: &TypeTable, heap: &Heap, value: &NativeValue, expected: TypeId) -> (out:
    Result<Vec<u8>, Error>)
    ensures
        out matches Ok(raw) ==> marshal(table@, heap@, value@, expected) == Ok::<Seq<u8>, Error>(
            raw@,
        ),
        out matches Err(e) ==> marshal(table@, heap@, value@, expected) == Err::<Seq<u8>, Error>(
            e,
        ),
{
    match type_of_value(table, heap, value) {
        Some(t) => if t == expected {
            Ok(encode_value(value))
        } else {
            Err(Error::TypeMismatch)
        },
        None => Err(Error::TypeMismatch),
    }
}

/// Checks the kind that the caller asked for against the declared type
/// `produced` and converts the bytes that compiled code returned to a host
/// value.
pub fn unmarshal_return(
    table: &TypeTable,
    heap: &Heap,
    raw: &[u8],
    produced: TypeId,
    requested: NativeKind,
) -> (out: Result<NativeValue, Error>)
    ensures
        out matches Ok(v) ==> unmarshal(table@, heap@, raw@, produced, requested) == Ok::<
            ValueView,
            Error,
        >(v@),
        out matches Err(e) ==> unmarshal(table@, heap@, raw@, produced, requested) == Err::<
            ValueView,
            Error,
        >(e),
{
    if !table.knows(produced) {
        return Err(Error::TypeMismatch);
    }
    if produced.kind() != requested {
        return Err(Error::TypeMismatch);
    }
    if raw.len() != table.slot_size(produced) {
        return Err(Error::TypeMismatch);
    }
    match decode_value(table, heap, produced, raw) {
        Some(v) => Ok(v),
        None => Err(Error::TypeMismatch),
    }
}

} // verus!
