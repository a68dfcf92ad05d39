use mun_runtime::artifact::Artifact;
use mun_runtime::error::Error;
use mun_runtime::memory::{NativeValue, StructRef};
use mun_runtime::runtime::Runtime;
use mun_runtime::struct_ref::{get_field_in, replace_field_in, set_field_in};
use mun_runtime::types::{
    FieldDescriptor, NativeKind, Primitive, Storage, StructDescriptor, TypeId,
};

const INT: TypeId = TypeId::Primitive(Primitive::Int);
const FLOAT: TypeId = TypeId::Primitive(Primitive::Float);
const BOOL: TypeId = TypeId::Primitive(Primitive::Bool);
const UNIT: TypeId = TypeId::Primitive(Primitive::Unit);

const POINT: usize = 0;
const NODE: usize = 1;
const LINE: usize = 2;
const OTHER: usize = 3;

fn field(name: &str, ty: TypeId, offset: usize) -> FieldDescriptor {
    FieldDescriptor { name: name.as_bytes().to_vec(), ty, offset }
}

fn structure(
    name: &str,
    storage: Storage,
    size: usize,
    fields: Vec<FieldDescriptor>,
) -> StructDescriptor {
    StructDescriptor { name: name.as_bytes().to_vec(), storage, size, fields }
}

fn runtime() -> Runtime {
    Runtime::load(Artifact {
        structs: vec![
            structure("Point", Storage::Value, 16, vec![field("x", INT, 0), field("y", INT, 8)]),
            structure(
                "Node",
                Storage::Gc,
                34,
                vec![
                    field("value", FLOAT, 0),
                    field("live", BOOL, 8),
                    field("at", TypeId::Struct(POINT), 9),
                    field("next", TypeId::Struct(NODE), 25),
                    field("nothing", UNIT, 33),
                    field("flag", BOOL, 33),
                ],
            ),
            structure(
                "Line",
                Storage::Value,
                32,
                vec![field("from", TypeId::Struct(POINT), 0), field("to", TypeId::Struct(POINT), 16)],
            ),
            structure("Other", Storage::Gc, 8, vec![field("value", FLOAT, 0)]),
        ],
        functions: vec![],
    })
    .unwrap()
}

fn point(x: i64, y: i64) -> StructRef {
    let mut bytes = x.to_le_bytes().to_vec();
    bytes.extend_from_slice(&y.to_le_bytes());
    StructRef::Value { ty: POINT, bytes }
}

#[test]
fn new_structs_are_zeroed() {
    let mut rt = runtime();
    let p = rt.new_struct(TypeId::Struct(POINT)).unwrap();
    assert_eq!(p, StructRef::Value { ty: POINT, bytes: vec![0; 16] });
    assert_eq!(rt.heap().objects.len(), 0);
    let n = rt.new_struct(TypeId::Struct(NODE)).unwrap();
    assert_eq!(n, StructRef::Gc { handle: 1 });
    assert_eq!(rt.new_struct(TypeId::Struct(OTHER)), Ok(StructRef::Gc { handle: 2 }));
    assert_eq!(rt.heap().objects.len(), 2);
    assert_eq!(rt.heap().object(1).unwrap().bytes, vec![0; 34]);
    assert_eq!(n.get(&rt, "value", NativeKind::Float), Ok(NativeValue::Float(0)));
    assert_eq!(n.get(&rt, "live", NativeKind::Bool), Ok(NativeValue::Bool(false)));
    assert_eq!(n.get(&rt, "at", NativeKind::Struct), Ok(NativeValue::Struct(point(0, 0))));
    assert_eq!(n.get(&rt, "nothing", NativeKind::Unit), Ok(NativeValue::Unit));
    // a zeroed handle refers to no object
    assert_eq!(n.get(&rt, "next", NativeKind::Struct), Err(Error::TypeMismatch));
    // only structs of the registry can be made
    assert_eq!(rt.new_struct(INT), Err(Error::TypeMismatch));
    assert_eq!(rt.new_struct(TypeId::Struct(4)), Err(Error::TypeMismatch));
    assert_eq!(rt.heap().objects.len(), 2);
}

#[test]
fn what_is_set_is_got() {
    let mut rt = runtime();
    let mut node = rt.new_struct(TypeId::Struct(NODE)).unwrap();
    let mut next = rt.new_struct(TypeId::Struct(NODE)).unwrap();
    let mut line = rt.new_struct(TypeId::Struct(LINE)).unwrap();
    let cases: Vec<(&str, NativeValue, NativeKind)> = vec![
        ("value", NativeValue::Float(2.5f64.to_bits()), NativeKind::Float),
        ("live", NativeValue::Bool(true), NativeKind::Bool),
        ("at", NativeValue::Struct(point(3, -4)), NativeKind::Struct),
        ("next", NativeValue::Struct(next.clone()), NativeKind::Struct),
        ("nothing", NativeValue::Unit, NativeKind::Unit),
        ("flag", NativeValue::Bool(true), NativeKind::Bool),
    ];
    for (name, value, kind) in cases.iter() {
        assert_eq!(node.set(&mut rt, name, value), Ok(()));
        assert_eq!(node.get(&rt, name, *kind).as_ref(), Ok(value));
    }
    // every field still holds what was written to it
    for (name, value, kind) in cases.iter() {
        assert_eq!(node.get(&rt, name, *kind).as_ref(), Ok(value));
    }
    assert_eq!(next.set(&mut rt, "value", &NativeValue::Float(7)), Ok(()));
    assert_eq!(line.set(&mut rt, "to", &NativeValue::Struct(point(1, 2))), Ok(()));
    assert_eq!(line.get(&rt, "to", NativeKind::Struct), Ok(NativeValue::Struct(point(1, 2))));
    assert_eq!(line.get(&rt, "from", NativeKind::Struct), Ok(NativeValue::Struct(point(0, 0))));
    assert_eq!(
        line,
        StructRef::Value {
            ty: LINE,
            bytes: [vec![0u8; 16], 1i64.to_le_bytes().to_vec(), 2i64.to_le_bytes().to_vec()].concat()
        }
    );
}

#[test]
fn replace_returns_what_was_there() {
    let mut rt = runtime();
    let mut p = point(10, 20);
    assert_eq!(p.replace(&mut rt, "x", &NativeValue::Int(11)), Ok(NativeValue::Int(10)));
    assert_eq!(p.replace(&mut rt, "x", &NativeValue::Int(12)), Ok(NativeValue::Int(11)));
    assert_eq!(p.get(&rt, "x", NativeKind::Int), Ok(NativeValue::Int(12)));
    assert_eq!(p.get(&rt, "y", NativeKind::Int), Ok(NativeValue::Int(20)));
    let mut node = rt.new_struct(TypeId::Struct(NODE)).unwrap();
    assert_eq!(
        node.replace(&mut rt, "at", &NativeValue::Struct(point(1, 1))),
        Ok(NativeValue::Struct(point(0, 0)))
    );
    assert_eq!(node.get(&rt, "at", NativeKind::Struct), Ok(NativeValue::Struct(point(1, 1))));
    // a field that cannot be read is not written either
    let other = rt.new_struct(TypeId::Struct(NODE)).unwrap();
    let before = rt.heap().duplicate();
    assert_eq!(
        node.replace(&mut rt, "next", &NativeValue::Struct(other.clone())),
        Err(Error::TypeMismatch)
    );
    assert_eq!(rt.heap(), &before);
    assert_eq!(node.set(&mut rt, "next", &NativeValue::Struct(other.clone())), Ok(()));
    assert_eq!(
        node.replace(&mut rt, "next", &NativeValue::Struct(node.clone())),
        Ok(NativeValue::Struct(other))
    );
}

#[test]
fn refused_accesses_change_nothing() {
    let mut rt = runtime();
    let mut node = rt.new_struct(TypeId::Struct(NODE)).unwrap();
    let other = rt.new_struct(TypeId::Struct(OTHER)).unwrap();
    node.set(&mut rt, "value", &NativeValue::Float(1)).unwrap();
    let before = rt.heap().duplicate();

    assert_eq!(node.get(&rt, "missing", NativeKind::Int), Err(Error::FieldNotFound));
    assert_eq!(node.get(&rt, "", NativeKind::Int), Err(Error::FieldNotFound));
    assert_eq!(node.get(&rt, "Value", NativeKind::Float), Err(Error::FieldNotFound));
    assert_eq!(node.get(&rt, "value", NativeKind::Int), Err(Error::TypeMismatch));
    assert_eq!(node.get(&rt, "value", NativeKind::Struct), Err(Error::TypeMismatch));
    assert_eq!(node.get(&rt, "at", NativeKind::Int), Err(Error::TypeMismatch));

    assert_eq!(node.set(&mut rt, "missing", &NativeValue::Int(1)), Err(Error::FieldNotFound));
    assert_eq!(node.set(&mut rt, "value", &NativeValue::Int(1)), Err(Error::TypeMismatch));
    assert_eq!(node.set(&mut rt, "live", &NativeValue::Int(1)), Err(Error::TypeMismatch));
    assert_eq!(node.replace(&mut rt, "missing", &NativeValue::Int(1)), Err(Error::FieldNotFound));
    assert_eq!(node.replace(&mut rt, "value", &NativeValue::Int(1)), Err(Error::TypeMismatch));
    // a struct of another type, though it is a collector struct too
    assert_eq!(
        node.set(&mut rt, "next", &NativeValue::Struct(other.clone())),
        Err(Error::TypeMismatch)
    );
    // a value struct of another type, though it has the same size
    let line_as_point = StructRef::Value { ty: LINE, bytes: vec![0; 32] };
    assert_eq!(
        node.set(&mut rt, "at", &NativeValue::Struct(line_as_point)),
        Err(Error::TypeMismatch)
    );
    // a reference that is not valid
    let short = StructRef::Value { ty: POINT, bytes: vec![0; 15] };
    assert_eq!(node.set(&mut rt, "at", &NativeValue::Struct(short)), Err(Error::TypeMismatch));
    let dangling = StructRef::Gc { handle: 3 };
    assert_eq!(node.set(&mut rt, "next", &NativeValue::Struct(dangling)), Err(Error::TypeMismatch));

    assert_eq!(rt.heap(), &before);
    assert_eq!(node, StructRef::Gc { handle: 1 });
}

#[test]
fn references_that_are_not_valid_are_refused() {
    let mut rt = runtime();
    rt.new_struct(TypeId::Struct(NODE)).unwrap();
    let invalid = vec![
        StructRef::Gc { handle: 0 },
        StructRef::Gc { handle: 2 },
        StructRef::Gc { handle: u64::MAX },
        StructRef::Value { ty: POINT, bytes: vec![0; 15] },
        StructRef::Value { ty: POINT, bytes: vec![0; 17] },
        StructRef::Value { ty: NODE, bytes: vec![0; 34] },
        StructRef::Value { ty: 4, bytes: vec![] },
    ];
    for mut r in invalid {
        let copy = r.clone();
        assert_eq!(r.get(&rt, "x", NativeKind::Int), Err(Error::TypeMismatch));
        assert_eq!(r.set(&mut rt, "x", &NativeValue::Int(1)), Err(Error::TypeMismatch));
        assert_eq!(r.replace(&mut rt, "x", &NativeValue::Int(1)), Err(Error::TypeMismatch));
        assert_eq!(r, copy);
    }
}

#[test]
fn handles_share_and_copies_do_not() {
    let mut rt = runtime();
    let mut first = rt.new_struct(TypeId::Struct(NODE)).unwrap();
    let second = first.clone();
    first.set(&mut rt, "value", &NativeValue::Float(9)).unwrap();
    assert_eq!(second.get(&rt, "value", NativeKind::Float), Ok(NativeValue::Float(9)));
    assert_eq!(first, second);

    // the inline point of the node is copied out: the copy is its own
    first.set(&mut rt, "at", &NativeValue::Struct(point(1, 2))).unwrap();
    let mut copy = match first.get(&rt, "at", NativeKind::Struct).unwrap() {
        NativeValue::Struct(s) => s,
        other => panic!("not a struct: {:?}", other),
    };
    let twin = copy.clone();
    let heap = rt.heap().duplicate();
    copy.set(&mut rt, "x", &NativeValue::Int(100)).unwrap();
    assert_eq!(copy, point(100, 2));
    assert_eq!(twin, point(1, 2));
    assert_eq!(rt.heap(), &heap);
    assert_eq!(first.get(&rt, "at", NativeKind::Struct), Ok(NativeValue::Struct(point(1, 2))));
}

#[test]
fn a_reference_leads_to_its_descriptor() {
    let mut rt = runtime();
    let node = rt.new_struct(TypeId::Struct(NODE)).unwrap();
    assert_eq!(node.info(&rt).unwrap().name, b"Node".to_vec());
    assert_eq!(node.info(&rt).unwrap().fields.len(), 6);
    assert_eq!(point(1, 2).info(&rt).unwrap().name, b"Point".to_vec());
    assert!(StructRef::Gc { handle: 2 }.info(&rt).is_none());
    assert!(StructRef::Value { ty: POINT, bytes: vec![] }.info(&rt).is_none());
}

#[test]
fn a_write_leaves_the_other_fields() {
    let mut rt = runtime();
    let mut p = point(5, 6);
    p.set(&mut rt, "x", &NativeValue::Int(-1)).unwrap();
    assert_eq!(p, point(-1, 6));
    p.set(&mut rt, "y", &NativeValue::Int(i64::MIN)).unwrap();
    assert_eq!(p, point(-1, i64::MIN));
}

#[test]
fn the_functions_on_registry_and_collector() {
    let mut rt = runtime();
    let node = rt.new_struct(TypeId::Struct(NODE)).unwrap();
    let table = rt.types().duplicate();
    let mut heap = rt.heap().duplicate();
    let mut r = node.clone();
    assert_eq!(
        set_field_in(&table, &mut heap, &mut r, b"live", &NativeValue::Bool(true)),
        Ok(())
    );
    assert_eq!(
        get_field_in(&table, &heap, &r, b"live", NativeKind::Bool),
        Ok(NativeValue::Bool(true))
    );
    assert_eq!(
        replace_field_in(&table, &mut heap, &mut r, b"live", &NativeValue::Bool(false)),
        Ok(NativeValue::Bool(true))
    );
    assert_eq!(heap.object(1).unwrap().bytes[8], 0);
    // the runtime's own collector was not touched
    assert_eq!(node.get(&rt, "live", NativeKind::Bool), Ok(NativeValue::Bool(false)));
}
