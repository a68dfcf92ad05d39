use mun_runtime::error::Error;
use mun_runtime::marshal::{marshal_argument, unmarshal_return};
use mun_runtime::memory::{
    decode_value, encode_value, patched, type_of_value, zero_bytes, Heap, NativeValue, StructRef,
};
use mun_runtime::names::{all_distinct, bytes_eq, copy_bytes};
use mun_runtime::struct_ref::section;
use mun_runtime::types::{
    FieldDescriptor, NativeKind, Primitive, Storage, StructDescriptor, TypeId, TypeTable,
};

const UNIT: TypeId = TypeId::Primitive(Primitive::Unit);
const INT: TypeId = TypeId::Primitive(Primitive::Int);
const FLOAT: TypeId = TypeId::Primitive(Primitive::Float);
const BOOL: TypeId = TypeId::Primitive(Primitive::Bool);

fn field(name: &str, ty: TypeId, offset: usize) -> FieldDescriptor {
    FieldDescriptor { name: name.as_bytes().to_vec(), ty, offset }
}

fn structure(
    name: &str,
    storage: Storage,
    size: usize,
    fields: Vec<FieldDescriptor>,
) -> StructDescriptor {
    StructDescriptor { name: name.as_bytes().to_vec(), storage, size, fields }
}

/// A registry with a value struct at 0 and a collector struct at 1.
fn table() -> TypeTable {
    let mut table = TypeTable::new();
    assert!(table.publish(&vec![
        structure("Point", Storage::Value, 16, vec![field("x", INT, 0), field("y", INT, 8)]),
        structure("Node", Storage::Gc, 9, vec![field("value", INT, 0), field("live", BOOL, 8)]),
    ]));
    table
}

#[test]
fn sizes_of_primitives() {
    assert_eq!(Primitive::Unit.size(), 0);
    assert_eq!(Primitive::Int.size(), 8);
    assert_eq!(Primitive::Float.size(), 8);
    assert_eq!(Primitive::Bool.size(), 1);
    let table = table();
    assert_eq!(table.slot_size(INT), 8);
    assert_eq!(table.slot_size(TypeId::Struct(0)), 16);
    assert_eq!(table.slot_size(TypeId::Struct(1)), 8);
}

#[test]
fn kinds_of_types() {
    assert_eq!(UNIT.kind(), NativeKind::Unit);
    assert_eq!(INT.kind(), NativeKind::Int);
    assert_eq!(FLOAT.kind(), NativeKind::Float);
    assert_eq!(BOOL.kind(), NativeKind::Bool);
    assert_eq!(TypeId::Struct(4).kind(), NativeKind::Struct);
}

#[test]
fn encoding_is_little_endian() {
    assert_eq!(encode_value(&NativeValue::Unit), Vec::<u8>::new());
    assert_eq!(encode_value(&NativeValue::Int(3)), vec![3, 0, 0, 0, 0, 0, 0, 0]);
    assert_eq!(encode_value(&NativeValue::Int(-2)), vec![0xfe, 0xff, 0xff, 0xff, 0xff, 0xff, 0xff, 0xff]);
    assert_eq!(encode_value(&NativeValue::Int(0x0102)), vec![2, 1, 0, 0, 0, 0, 0, 0]);
    assert_eq!(
        encode_value(&NativeValue::Float(1.0f64.to_bits())),
        vec![0, 0, 0, 0, 0, 0, 0xf0, 0x3f]
    );
    assert_eq!(encode_value(&NativeValue::Bool(true)), vec![1]);
    assert_eq!(encode_value(&NativeValue::Bool(false)), vec![0]);
    assert_eq!(
        encode_value(&NativeValue::Struct(StructRef::Gc { handle: 258 })),
        vec![2, 1, 0, 0, 0, 0, 0, 0]
    );
    assert_eq!(
        encode_value(&NativeValue::Struct(StructRef::Value { ty: 0, bytes: vec![9, 8, 7] })),
        vec![9, 8, 7]
    );
}

#[test]
fn decoding_reads_what_encoding_wrote() {
    let table = table();
    let mut heap = Heap::new();
    let handle = heap.allocate(&table, 1).unwrap();
    assert_eq!(handle, 1);
    let values = vec![
        NativeValue::Unit,
        NativeValue::Int(i64::MIN),
        NativeValue::Int(-1),
        NativeValue::Int(i64::MAX),
        NativeValue::Float(2.5f64.to_bits()),
        NativeValue::Bool(true),
        NativeValue::Bool(false),
        NativeValue::Struct(StructRef::Value { ty: 0, bytes: (0u8..16).collect() }),
        NativeValue::Struct(StructRef::Gc { handle }),
    ];
    for value in values {
        let ty = type_of_value(&table, &heap, &value).unwrap();
        let raw = encode_value(&value);
        assert_eq!(raw.len(), table.slot_size(ty));
        assert_eq!(decode_value(&table, &heap, ty, &raw), Some(value));
    }
}

#[test]
fn any_nonzero_byte_is_true() {
    let table = table();
    let heap = Heap::new();
    assert_eq!(decode_value(&table, &heap, BOOL, &[2]), Some(NativeValue::Bool(true)));
    assert_eq!(decode_value(&table, &heap, BOOL, &[0]), Some(NativeValue::Bool(false)));
}

#[test]
fn handles_are_checked_when_decoded() {
    let table = table();
    let mut heap = Heap::new();
    let node = TypeId::Struct(1);
    // no object yet: neither handle 0 nor handle 1 refers to anything
    assert_eq!(decode_value(&table, &heap, node, &0u64.to_le_bytes()), None);
    assert_eq!(decode_value(&table, &heap, node, &1u64.to_le_bytes()), None);
    assert_eq!(heap.allocate(&table, 1), Some(1));
    assert_eq!(
        decode_value(&table, &heap, node, &1u64.to_le_bytes()),
        Some(NativeValue::Struct(StructRef::Gc { handle: 1 }))
    );
    assert_eq!(decode_value(&table, &heap, node, &2u64.to_le_bytes()), None);
}

#[test]
fn values_report_their_types() {
    let table = table();
    let mut heap = Heap::new();
    heap.allocate(&table, 1).unwrap();
    assert_eq!(type_of_value(&table, &heap, &NativeValue::Unit), Some(UNIT));
    assert_eq!(type_of_value(&table, &heap, &NativeValue::Int(1)), Some(INT));
    assert_eq!(type_of_value(&table, &heap, &NativeValue::Float(1)), Some(FLOAT));
    assert_eq!(type_of_value(&table, &heap, &NativeValue::Bool(true)), Some(BOOL));
    let gc = |handle| NativeValue::Struct(StructRef::Gc { handle });
    assert_eq!(type_of_value(&table, &heap, &gc(1)), Some(TypeId::Struct(1)));
    assert_eq!(type_of_value(&table, &heap, &gc(0)), None);
    assert_eq!(type_of_value(&table, &heap, &gc(2)), None);
    let inline = |ty, n| NativeValue::Struct(StructRef::Value { ty, bytes: vec![0; n] });
    assert_eq!(type_of_value(&table, &heap, &inline(0, 16)), Some(TypeId::Struct(0)));
    // wrong length, a collector struct, or no struct at all
    assert_eq!(type_of_value(&table, &heap, &inline(0, 15)), None);
    assert_eq!(type_of_value(&table, &heap, &inline(1, 9)), None);
    assert_eq!(type_of_value(&table, &heap, &inline(2, 0)), None);
}

#[test]
fn allocation_hands_out_handles_in_order() {
    let table = table();
    let mut heap = Heap::new();
    assert_eq!(heap.allocate(&table, 1), Some(1));
    assert_eq!(heap.allocate(&table, 1), Some(2));
    // a value struct and an unknown struct are not allocated
    assert_eq!(heap.allocate(&table, 0), None);
    assert_eq!(heap.allocate(&table, 7), None);
    assert_eq!(heap.objects.len(), 2);
    assert_eq!(heap.object(2).unwrap().bytes, vec![0u8; 9]);
    assert_eq!(heap.object(2).unwrap().ty, 1);
    assert!(heap.object(0).is_none());
    assert!(heap.object(3).is_none());
    heap.write(2, 8, &[1]);
    assert_eq!(heap.object(2).unwrap().bytes, vec![0, 0, 0, 0, 0, 0, 0, 0, 1]);
    assert_eq!(heap.object(1).unwrap().bytes, vec![0u8; 9]);
    assert_eq!(heap.duplicate(), heap);
}

#[test]
fn marshalling_checks_the_type() {
    let table = table();
    let mut heap = Heap::new();
    heap.allocate(&table, 1).unwrap();
    assert_eq!(
        marshal_argument(&table, &heap, &NativeValue::Int(7), INT),
        Ok(vec![7, 0, 0, 0, 0, 0, 0, 0])
    );
    assert_eq!(
        marshal_argument(&table, &heap, &NativeValue::Int(7), FLOAT),
        Err(Error::TypeMismatch)
    );
    assert_eq!(
        marshal_argument(&table, &heap, &NativeValue::Float(7), INT),
        Err(Error::TypeMismatch)
    );
    let node = NativeValue::Struct(StructRef::Gc { handle: 1 });
    assert_eq!(
        marshal_argument(&table, &heap, &node, TypeId::Struct(1)),
        Ok(vec![1, 0, 0, 0, 0, 0, 0, 0])
    );
    assert_eq!(
        marshal_argument(&table, &heap, &node, TypeId::Struct(0)),
        Err(Error::TypeMismatch)
    );
    let dangling = NativeValue::Struct(StructRef::Gc { handle: 9 });
    assert_eq!(
        marshal_argument(&table, &heap, &dangling, TypeId::Struct(1)),
        Err(Error::TypeMismatch)
    );
}

#[test]
fn unmarshalling_checks_the_requested_kind() {
    let table = table();
    let heap = Heap::new();
    let raw = 42i64.to_le_bytes();
    assert_eq!(unmarshal_return(&table, &heap, &raw, INT, NativeKind::Int), Ok(NativeValue::Int(42)));
    assert_eq!(
        unmarshal_return(&table, &heap, &raw, INT, NativeKind::Float),
        Err(Error::TypeMismatch)
    );
    assert_eq!(
        unmarshal_return(&table, &heap, &raw, FLOAT, NativeKind::Float),
        Ok(NativeValue::Float(42))
    );
    // bytes of the wrong length, and a type that the registry does not hold
    assert_eq!(
        unmarshal_return(&table, &heap, &raw[..7], INT, NativeKind::Int),
        Err(Error::TypeMismatch)
    );
    assert_eq!(
        unmarshal_return(&table, &heap, &raw, TypeId::Struct(5), NativeKind::Struct),
        Err(Error::TypeMismatch)
    );
    assert_eq!(unmarshal_return(&table, &heap, &[], UNIT, NativeKind::Unit), Ok(NativeValue::Unit));
    assert_eq!(
        unmarshal_return(&table, &heap, &[0; 16], TypeId::Struct(0), NativeKind::Struct),
        Ok(NativeValue::Struct(StructRef::Value { ty: 0, bytes: vec![0; 16] }))
    );
}

#[test]
fn marshalled_values_come_back() {
    let table = table();
    let heap = Heap::new();
    let value = NativeValue::Struct(StructRef::Value { ty: 0, bytes: (1u8..17).collect() });
    let ty = TypeId::Struct(0);
    let raw = marshal_argument(&table, &heap, &value, ty).unwrap();
    assert_eq!(unmarshal_return(&table, &heap, &raw, ty, ty.kind()), Ok(value));
}

#[test]
fn byte_helpers() {
    assert_eq!(zero_bytes(3), vec![0, 0, 0]);
    assert_eq!(zero_bytes(0), Vec::<u8>::new());
    assert_eq!(patched(&[1, 2, 3, 4, 5], 1, &[9, 8]), vec![1, 9, 8, 4, 5]);
    assert_eq!(patched(&[1, 2, 3], 3, &[]), vec![1, 2, 3]);
    assert_eq!(section(&[1, 2, 3, 4, 5], 1, 3), vec![2, 3, 4]);
    assert_eq!(section(&[1, 2, 3], 3, 0), Vec::<u8>::new());
    assert_eq!(copy_bytes(&[4, 5]), vec![4, 5]);
    assert!(bytes_eq(b"abc", b"abc"));
    assert!(!bytes_eq(b"abc", b"abd"));
    assert!(!bytes_eq(b"abc", b"ab"));
    assert!(all_distinct(&vec![b"a".to_vec(), b"b".to_vec(), b"ab".to_vec()]));
    assert!(!all_distinct(&vec![b"a".to_vec(), b"b".to_vec(), b"a".to_vec()]));
    assert!(all_distinct(&vec![]));
}

#[test]
fn registry_lookups() {
    let table = table();
    assert_eq!(table.describe(b"Point"), Some(TypeId::Struct(0)));
    assert_eq!(table.describe(b"Node"), Some(TypeId::Struct(1)));
    assert_eq!(table.describe(b"node"), None);
    assert!(table.knows(INT));
    assert!(table.knows(TypeId::Struct(1)));
    assert!(!table.knows(TypeId::Struct(2)));
    let point = table.descriptor(0).unwrap();
    assert_eq!(point.find_field(b"x"), Some(0));
    assert_eq!(point.find_field(b"y"), Some(1));
    assert_eq!(point.find_field(b"z"), None);
    assert!(table.descriptor(2).is_none());
    assert_eq!(&point.duplicate(), point);
    assert_eq!(table.duplicate(), table);
}
