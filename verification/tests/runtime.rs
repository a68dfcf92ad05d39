use std::time::Instant;

use mun_runtime::artifact::Artifact;
use mun_runtime::dispatch::{DispatchEntry, FunctionSignature};
use mun_runtime::error::Error;
use mun_runtime::memory::{NativeValue, StructRef};
use mun_runtime::poll::{after_poll, PollVerdict};
use mun_runtime::reload::ReloadState;
use mun_runtime::runtime::Runtime;
use mun_runtime::types::{
    FieldDescriptor, NativeKind, Primitive, Storage, StructDescriptor, TypeId,
};

const UNIT: TypeId = TypeId::Primitive(Primitive::Unit);
const INT: TypeId = TypeId::Primitive(Primitive::Int);
const FLOAT: TypeId = TypeId::Primitive(Primitive::Float);
const BOOL: TypeId = TypeId::Primitive(Primitive::Bool);

/// What stands for the compiled body of a function: it gets the runtime and
/// the marshalled arguments and hands back the bytes of its result.
type Body = fn(&mut Runtime, &[Vec<u8>]) -> Vec<u8>;

/// A runtime together with the code of the artifact it has loaded.
struct TestDriver {
    runtime: Runtime,
    code: Vec<(u64, Body)>,
}

impl TestDriver {
    fn new(artifact: Artifact, code: Vec<(u64, Body)>) -> Self {
        let runtime = Runtime::load(artifact).unwrap();
        TestDriver { runtime, code }
    }

    /// Hands over a new artifact and polls until the runtime has swapped it in.
    fn update(&mut self, artifact: Artifact, code: Vec<(u64, Body)>) {
        self.runtime.source_changed();
        self.runtime.artifact_written(artifact);
        let start_time = Instant::now();
        loop {
            let swapped = self.runtime.update();
            match after_poll(swapped, start_time.elapsed().as_nanos()) {
                PollVerdict::Done => break,
                PollVerdict::TimedOut => {
                    panic!("runtime did not update after recompilation within 10secs")
                }
                PollVerdict::Retry { .. } => {}
            }
        }
        self.code = code;
    }
}

fn invoke(
    driver: &mut TestDriver,
    name: &str,
    args: Vec<NativeValue>,
    kind: NativeKind,
) -> Result<NativeValue, Error> {
    let code = &driver.code;
    driver.runtime.invoke(name, &args, kind, |runtime, plan| {
        let body = code.iter().find(|(address, _)| *address == plan.address).unwrap().1;
        body(runtime, &plan.args)
    })
}

fn assert_invoke_eq(
    expected: NativeValue,
    driver: &mut TestDriver,
    name: &str,
    args: Vec<NativeValue>,
) {
    let kind = match expected {
        NativeValue::Unit => NativeKind::Unit,
        NativeValue::Int(_) => NativeKind::Int,
        NativeValue::Float(_) => NativeKind::Float,
        NativeValue::Bool(_) => NativeKind::Bool,
        NativeValue::Struct(_) => NativeKind::Struct,
    };
    let result = invoke(driver, name, args, kind).unwrap();
    assert_eq!(result, expected, "{} == {:?}", name, expected);
}

fn function(name: &str, params: Vec<TypeId>, ret: TypeId, address: u64) -> DispatchEntry {
    DispatchEntry {
        signature: FunctionSignature { name: name.as_bytes().to_vec(), params, ret },
        address,
    }
}

fn field(name: &str, ty: TypeId, offset: usize) -> FieldDescriptor {
    FieldDescriptor { name: name.as_bytes().to_vec(), ty, offset }
}

fn structure(
    name: &str,
    storage: Storage,
    size: usize,
    fields: Vec<FieldDescriptor>,
) -> StructDescriptor {
    StructDescriptor { name: name.as_bytes().to_vec(), storage, size, fields }
}

fn as_int(raw: &[u8]) -> i64 {
    i64::from_le_bytes(raw.try_into().unwrap())
}

fn as_float(raw: &[u8]) -> f64 {
    f64::from_bits(u64::from_le_bytes(raw.try_into().unwrap()))
}

fn as_bool(raw: &[u8]) -> bool {
    raw[0] != 0
}

fn raw_int(value: i64) -> Vec<u8> {
    value.to_le_bytes().to_vec()
}

fn raw_bool(value: bool) -> Vec<u8> {
    vec![value as u8]
}

fn fl(value: f64) -> NativeValue {
    NativeValue::Float(value.to_bits())
}

fn body_unit(_: &mut Runtime, _: &[Vec<u8>]) -> Vec<u8> {
    Vec::new()
}

fn body_three(_: &mut Runtime, _: &[Vec<u8>]) -> Vec<u8> {
    raw_int(3)
}

fn body_five(_: &mut Runtime, _: &[Vec<u8>]) -> Vec<u8> {
    raw_int(5)
}

fn body_ten(_: &mut Runtime, _: &[Vec<u8>]) -> Vec<u8> {
    raw_int(10)
}

fn body_add(_: &mut Runtime, args: &[Vec<u8>]) -> Vec<u8> {
    raw_int(as_int(&args[0]) + as_int(&args[1]))
}

/// `main(a, b) { add(a, b) }`: the call goes through the dispatch table.
fn body_main_calls_add(runtime: &mut Runtime, args: &[Vec<u8>]) -> Vec<u8> {
    let plan = runtime
        .begin_invoke("add", &vec![NativeValue::Int(as_int(&args[0])), NativeValue::Int(as_int(&args[1]))])
        .unwrap();
    body_add(runtime, &plan.args)
}

#[test]
fn compile_and_run() {
    let artifact = Artifact { structs: vec![], functions: vec![function("main", vec![], UNIT, 1)] };
    let mut driver = TestDriver::new(artifact, vec![(1, body_unit as Body)]);
    assert_invoke_eq(NativeValue::Unit, &mut driver, "main", vec![]);
}

#[test]
fn return_value() {
    let artifact = Artifact { structs: vec![], functions: vec![function("main", vec![], INT, 1)] };
    let mut driver = TestDriver::new(artifact, vec![(1, body_three as Body)]);
    assert_invoke_eq(NativeValue::Int(3), &mut driver, "main", vec![]);
}

#[test]
fn arguments() {
    let artifact = Artifact {
        structs: vec![],
        functions: vec![function("main", vec![INT, INT], INT, 1)],
    };
    let mut driver = TestDriver::new(artifact, vec![(1, body_add as Body)]);
    let a: i64 = 52;
    let b: i64 = 746;
    assert_invoke_eq(
        NativeValue::Int(a + b),
        &mut driver,
        "main",
        vec![NativeValue::Int(a), NativeValue::Int(b)],
    );
}

#[test]
fn dispatch_table() {
    let artifact = Artifact {
        structs: vec![],
        functions: vec![
            function("add", vec![INT, INT], INT, 1),
            function("main", vec![INT, INT], INT, 2),
        ],
    };
    let mut driver =
        TestDriver::new(artifact, vec![(1, body_add as Body), (2, body_main_calls_add as Body)]);

    let a: i64 = 52;
    let b: i64 = 746;
    assert_invoke_eq(
        NativeValue::Int(a + b),
        &mut driver,
        "main",
        vec![NativeValue::Int(a), NativeValue::Int(b)],
    );

    let a: i64 = 6274;
    let b: i64 = 72;
    assert_invoke_eq(
        NativeValue::Int(a + b),
        &mut driver,
        "add",
        vec![NativeValue::Int(a), NativeValue::Int(b)],
    );
}

fn body_equal(_: &mut Runtime, a: &[Vec<u8>]) -> Vec<u8> {
    raw_bool(as_int(&a[0]) == as_int(&a[1]))
}

fn body_equalf(_: &mut Runtime, a: &[Vec<u8>]) -> Vec<u8> {
    raw_bool(as_float(&a[0]) == as_float(&a[1]))
}

fn body_not_equal(_: &mut Runtime, a: &[Vec<u8>]) -> Vec<u8> {
    raw_bool(as_int(&a[0]) != as_int(&a[1]))
}

fn body_not_equalf(_: &mut Runtime, a: &[Vec<u8>]) -> Vec<u8> {
    raw_bool(as_float(&a[0]) != as_float(&a[1]))
}

fn body_less(_: &mut Runtime, a: &[Vec<u8>]) -> Vec<u8> {
    raw_bool(as_int(&a[0]) < as_int(&a[1]))
}

fn body_lessf(_: &mut Runtime, a: &[Vec<u8>]) -> Vec<u8> {
    raw_bool(as_float(&a[0]) < as_float(&a[1]))
}

fn body_greater(_: &mut Runtime, a: &[Vec<u8>]) -> Vec<u8> {
    raw_bool(as_int(&a[0]) > as_int(&a[1]))
}

fn body_greaterf(_: &mut Runtime, a: &[Vec<u8>]) -> Vec<u8> {
    raw_bool(as_float(&a[0]) > as_float(&a[1]))
}

fn body_less_equal(_: &mut Runtime, a: &[Vec<u8>]) -> Vec<u8> {
    raw_bool(as_int(&a[0]) <= as_int(&a[1]))
}

fn body_less_equalf(_: &mut Runtime, a: &[Vec<u8>]) -> Vec<u8> {
    raw_bool(as_float(&a[0]) <= as_float(&a[1]))
}

fn body_greater_equal(_: &mut Runtime, a: &[Vec<u8>]) -> Vec<u8> {
    raw_bool(as_int(&a[0]) >= as_int(&a[1]))
}

fn body_greater_equalf(_: &mut Runtime, a: &[Vec<u8>]) -> Vec<u8> {
    raw_bool(as_float(&a[0]) >= as_float(&a[1]))
}

#[test]
fn booleans() {
    let names: Vec<(&str, TypeId, Body)> = vec![
        ("equal", INT, body_equal as Body),
        ("equalf", FLOAT, body_equalf as Body),
        ("not_equal", INT, body_not_equal as Body),
        ("not_equalf", FLOAT, body_not_equalf as Body),
        ("less", INT, body_less as Body),
        ("lessf", FLOAT, body_lessf as Body),
        ("greater", INT, body_greater as Body),
        ("greaterf", FLOAT, body_greaterf as Body),
        ("less_equal", INT, body_less_equal as Body),
        ("less_equalf", FLOAT, body_less_equalf as Body),
        ("greater_equal", INT, body_greater_equal as Body),
        ("greater_equalf", FLOAT, body_greater_equalf as Body),
    ];
    let mut functions = Vec::new();
    let mut code = Vec::new();
    for (i, (name, ty, body)) in names.into_iter().enumerate() {
        functions.push(function(name, vec![ty, ty], BOOL, i as u64 + 1));
        code.push((i as u64 + 1, body));
    }
    let mut driver = TestDriver::new(Artifact { structs: vec![], functions }, code);
    let i = NativeValue::Int;
    let b = NativeValue::Bool;
    assert_invoke_eq(b(false), &mut driver, "equal", vec![i(52), i(764)]);
    assert_invoke_eq(b(true), &mut driver, "equal", vec![i(64), i(64)]);
    assert_invoke_eq(b(false), &mut driver, "equalf", vec![fl(52f64), fl(764f64)]);
    assert_invoke_eq(b(true), &mut driver, "equalf", vec![fl(64f64), fl(64f64)]);
    assert_invoke_eq(b(true), &mut driver, "not_equal", vec![i(52), i(764)]);
    assert_invoke_eq(b(false), &mut driver, "not_equal", vec![i(64), i(64)]);
    assert_invoke_eq(b(true), &mut driver, "not_equalf", vec![fl(52f64), fl(764f64)]);
    assert_invoke_eq(b(false), &mut driver, "not_equalf", vec![fl(64f64), fl(64f64)]);
    assert_invoke_eq(b(true), &mut driver, "less", vec![i(52), i(764)]);
    assert_invoke_eq(b(false), &mut driver, "less", vec![i(64), i(64)]);
    assert_invoke_eq(b(true), &mut driver, "lessf", vec![fl(52f64), fl(764f64)]);
    assert_invoke_eq(b(false), &mut driver, "lessf", vec![fl(64f64), fl(64f64)]);
    assert_invoke_eq(b(false), &mut driver, "greater", vec![i(52), i(764)]);
    assert_invoke_eq(b(false), &mut driver, "greater", vec![i(64), i(64)]);
    assert_invoke_eq(b(false), &mut driver, "greaterf", vec![fl(52f64), fl(764f64)]);
    assert_invoke_eq(b(false), &mut driver, "greaterf", vec![fl(64f64), fl(64f64)]);
    assert_invoke_eq(b(true), &mut driver, "less_equal", vec![i(52), i(764)]);
    assert_invoke_eq(b(true), &mut driver, "less_equal", vec![i(64), i(64)]);
    assert_invoke_eq(b(true), &mut driver, "less_equalf", vec![fl(52f64), fl(764f64)]);
    assert_invoke_eq(b(true), &mut driver, "less_equalf", vec![fl(64f64), fl(64f64)]);
    assert_invoke_eq(b(false), &mut driver, "greater_equal", vec![i(52), i(764)]);
    assert_invoke_eq(b(true), &mut driver, "greater_equal", vec![i(64), i(64)]);
    assert_invoke_eq(b(false), &mut driver, "greater_equalf", vec![fl(52f64), fl(764f64)]);
    assert_invoke_eq(b(true), &mut driver, "greater_equalf", vec![fl(64f64), fl(64f64)]);
}

/// `fibonacci(n) { if n <= 1 { n } else { fibonacci(n-1) + fibonacci(n-2) } }`,
/// each inner call resolved through the dispatch table.
fn body_fibonacci_recursive(runtime: &mut Runtime, args: &[Vec<u8>]) -> Vec<u8> {
    let n = as_int(&args[0]);
    if n <= 1 {
        raw_int(n)
    } else {
        let first = runtime.begin_invoke("fibonacci", &vec![NativeValue::Int(n - 1)]).unwrap();
        let a = as_int(&body_fibonacci_recursive(runtime, &first.args));
        let second = runtime.begin_invoke("fibonacci", &vec![NativeValue::Int(n - 2)]).unwrap();
        let b = as_int(&body_fibonacci_recursive(runtime, &second.args));
        raw_int(a + b)
    }
}

fn body_fibonacci_loop(_: &mut Runtime, args: &[Vec<u8>]) -> Vec<u8> {
    let n = as_int(&args[0]);
    let mut a = 0;
    let mut b = 1;
    let mut i = 1;
    loop {
        if i > n {
            return raw_int(a);
        }
        let sum = a + b;
        a = b;
        b = sum;
        i += 1;
    }
}

fn body_fibonacci_loop_break(_: &mut Runtime, args: &[Vec<u8>]) -> Vec<u8> {
    let n = as_int(&args[0]);
    let mut a = 0;
    let mut b = 1;
    let mut i = 1;
    let result = loop {
        if i > n {
            break a;
        }
        let sum = a + b;
        a = b;
        b = sum;
        i += 1;
    };
    raw_int(result)
}

fn body_fibonacci_while(_: &mut Runtime, args: &[Vec<u8>]) -> Vec<u8> {
    let n = as_int(&args[0]);
    let mut a = 0;
    let mut b = 1;
    let mut i = 1;
    while i <= n {
        let sum = a + b;
        a = b;
        b = sum;
        i += 1;
    }
    raw_int(a)
}

fn fibonacci_driver(body: Body) -> TestDriver {
    let artifact = Artifact {
        structs: vec![],
        functions: vec![function("fibonacci", vec![INT], INT, 1)],
    };
    TestDriver::new(artifact, vec![(1, body)])
}

#[test]
fn fibonacci() {
    let mut driver = fibonacci_driver(body_fibonacci_recursive as Body);
    assert_invoke_eq(NativeValue::Int(5), &mut driver, "fibonacci", vec![NativeValue::Int(5)]);
    assert_invoke_eq(NativeValue::Int(89), &mut driver, "fibonacci", vec![NativeValue::Int(11)]);
    assert_invoke_eq(NativeValue::Int(987), &mut driver, "fibonacci", vec![NativeValue::Int(16)]);
}

#[test]
fn fibonacci_loop() {
    let mut driver = fibonacci_driver(body_fibonacci_loop as Body);
    assert_invoke_eq(NativeValue::Int(5), &mut driver, "fibonacci", vec![NativeValue::Int(5)]);
    assert_invoke_eq(NativeValue::Int(89), &mut driver, "fibonacci", vec![NativeValue::Int(11)]);
    assert_invoke_eq(NativeValue::Int(987), &mut driver, "fibonacci", vec![NativeValue::Int(16)]);
    assert_invoke_eq(NativeValue::Int(46368), &mut driver, "fibonacci", vec![NativeValue::Int(24)]);
}

#[test]
fn fibonacci_loop_break() {
    let mut driver = fibonacci_driver(body_fibonacci_loop_break as Body);
    assert_invoke_eq(NativeValue::Int(5), &mut driver, "fibonacci", vec![NativeValue::Int(5)]);
    assert_invoke_eq(NativeValue::Int(89), &mut driver, "fibonacci", vec![NativeValue::Int(11)]);
    assert_invoke_eq(NativeValue::Int(987), &mut driver, "fibonacci", vec![NativeValue::Int(16)]);
    assert_invoke_eq(NativeValue::Int(46368), &mut driver, "fibonacci", vec![NativeValue::Int(24)]);
}

#[test]
fn fibonacci_while() {
    let mut driver = fibonacci_driver(body_fibonacci_while as Body);
    assert_invoke_eq(NativeValue::Int(5), &mut driver, "fibonacci", vec![NativeValue::Int(5)]);
    assert_invoke_eq(NativeValue::Int(89), &mut driver, "fibonacci", vec![NativeValue::Int(11)]);
    assert_invoke_eq(NativeValue::Int(987), &mut driver, "fibonacci", vec![NativeValue::Int(16)]);
    assert_invoke_eq(NativeValue::Int(46368), &mut driver, "fibonacci", vec![NativeValue::Int(24)]);
}

fn body_true(_: &mut Runtime, _: &[Vec<u8>]) -> Vec<u8> {
    raw_bool(true)
}

fn body_false(_: &mut Runtime, _: &[Vec<u8>]) -> Vec<u8> {
    raw_bool(false)
}

#[test]
fn true_is_true() {
    let artifact = Artifact {
        structs: vec![],
        functions: vec![
            function("test_true", vec![], BOOL, 1),
            function("test_false", vec![], BOOL, 2),
        ],
    };
    let mut driver =
        TestDriver::new(artifact, vec![(1, body_true as Body), (2, body_false as Body)]);
    assert_invoke_eq(NativeValue::Bool(true), &mut driver, "test_true", vec![]);
    assert_invoke_eq(NativeValue::Bool(false), &mut driver, "test_false", vec![]);
}

#[test]
fn hotreloadable() {
    let first = Artifact { structs: vec![], functions: vec![function("main", vec![], INT, 1)] };
    let mut driver = TestDriver::new(first, vec![(1, body_five as Body)]);
    assert_invoke_eq(NativeValue::Int(5), &mut driver, "main", vec![]);
    let second = Artifact { structs: vec![], functions: vec![function("main", vec![], INT, 7)] };
    driver.update(second, vec![(7, body_ten as Body)]);
    assert_eq!(driver.runtime.state(), ReloadState::Idle);
    assert_invoke_eq(NativeValue::Int(10), &mut driver, "main", vec![]);
}

#[test]
fn compiler_valid_utf8() {
    let artifact = Artifact {
        structs: vec![structure("Foo", Storage::Gc, 8, vec![field("a", INT, 0)])],
        functions: vec![function("foo", vec![TypeId::Struct(0)], BOOL, 1)],
    };
    let driver = TestDriver::new(artifact, vec![(1, body_false as Body)]);

    let foo_func = driver.runtime.get_function_info("foo").unwrap();
    assert_eq!(std::str::from_utf8(&foo_func.name).is_ok(), true);

    for arg_type in foo_func.params.iter() {
        if let Some(s) = driver.runtime.descriptor(*arg_type) {
            assert_eq!(std::str::from_utf8(&s.name).is_ok(), true);
            assert_eq!(s.name, b"Foo".to_vec());
            for field in s.fields.iter() {
                assert_eq!(std::str::from_utf8(&field.name).is_ok(), true);
            }
        } else {
            panic!("the argument of foo is a struct");
        }
    }
    assert_eq!(foo_func.ret, BOOL);
}

fn foo_two_ints() -> StructDescriptor {
    structure("Foo", Storage::Gc, 16, vec![field("a", INT, 0), field("b", INT, 8)])
}

fn get_int(runtime: &Runtime, s: &StructRef, name: &str) -> i64 {
    match s.get(runtime, name, NativeKind::Int).unwrap() {
        NativeValue::Int(i) => i,
        other => panic!("not an int: {:?}", other),
    }
}

/// ```text
/// let a = Foo { a: foo, b: foo };
/// a.a += a.b;
/// let result = a;
/// result.a += a.b;
/// result.a == a.a
/// ```
fn body_fields(runtime: &mut Runtime, args: &[Vec<u8>]) -> Vec<u8> {
    let foo = as_int(&args[0]);
    let ty = runtime.describe("Foo").unwrap();
    let mut a = runtime.new_struct(ty).unwrap();
    a.set(runtime, "a", &NativeValue::Int(foo)).unwrap();
    a.set(runtime, "b", &NativeValue::Int(foo)).unwrap();
    let sum = get_int(runtime, &a, "a") + get_int(runtime, &a, "b");
    a.set(runtime, "a", &NativeValue::Int(sum)).unwrap();
    let mut result = a.clone();
    let sum = get_int(runtime, &result, "a") + get_int(runtime, &a, "b");
    result.set(runtime, "a", &NativeValue::Int(sum)).unwrap();
    raw_bool(get_int(runtime, &result, "a") == get_int(runtime, &a, "a"))
}

#[test]
fn fields() {
    let artifact = Artifact {
        structs: vec![foo_two_ints()],
        functions: vec![function("main", vec![INT], BOOL, 1)],
    };
    let mut driver = TestDriver::new(artifact, vec![(1, body_fields as Body)]);
    assert_invoke_eq(NativeValue::Bool(true), &mut driver, "main", vec![NativeValue::Int(48)]);
}

/// `let b = Foo { a: c + 5 }; b.a`
fn body_field_crash(runtime: &mut Runtime, args: &[Vec<u8>]) -> Vec<u8> {
    let c = as_int(&args[0]);
    let ty = runtime.describe("Foo").unwrap();
    let mut b = runtime.new_struct(ty).unwrap();
    b.set(runtime, "a", &NativeValue::Int(c + 5)).unwrap();
    raw_int(get_int(runtime, &b, "a"))
}

#[test]
fn field_crash() {
    let artifact = Artifact {
        structs: vec![structure("Foo", Storage::Gc, 8, vec![field("a", INT, 0)])],
        functions: vec![function("main", vec![INT], INT, 1)],
    };
    let mut driver = TestDriver::new(artifact, vec![(1, body_field_crash as Body)]);
    assert_invoke_eq(NativeValue::Int(15), &mut driver, "main", vec![NativeValue::Int(10)]);
}

/// The bytes by which compiled code hands a struct back: its own bytes for an
/// inline copy, its handle for an object of the collector.
fn raw_struct(s: StructRef) -> Vec<u8> {
    match s {
        StructRef::Value { bytes, .. } => bytes,
        StructRef::Gc { handle } => handle.to_le_bytes().to_vec(),
    }
}

fn new_pair(runtime: &mut Runtime, ty: &str, names: [&str; 2], args: &[Vec<u8>]) -> Vec<u8> {
    let ty = runtime.describe(ty).unwrap();
    let mut s = runtime.new_struct(ty).unwrap();
    s.set(runtime, names[0], &NativeValue::Int(as_int(&args[0]))).unwrap();
    s.set(runtime, names[1], &NativeValue::Bool(as_bool(&args[1]))).unwrap();
    raw_struct(s)
}

fn body_foo_new(runtime: &mut Runtime, args: &[Vec<u8>]) -> Vec<u8> {
    new_pair(runtime, "Foo", ["a", "b"], args)
}

fn body_bar_new(runtime: &mut Runtime, args: &[Vec<u8>]) -> Vec<u8> {
    new_pair(runtime, "Bar", ["0", "1"], args)
}

/// `Baz(foo)`: the inline bytes of the argument become the bytes of field 0.
fn body_baz_new(runtime: &mut Runtime, args: &[Vec<u8>]) -> Vec<u8> {
    let foo = match runtime.describe("Foo").unwrap() {
        TypeId::Struct(ty) => StructRef::Value { ty, bytes: args[0].clone() },
        other => panic!("not a struct: {:?}", other),
    };
    let ty = runtime.describe("Baz").unwrap();
    let mut baz = runtime.new_struct(ty).unwrap();
    baz.set(runtime, "0", &NativeValue::Struct(foo)).unwrap();
    raw_struct(baz)
}

/// `Qux(bar)`: the handle of the argument becomes field 0.
fn body_qux_new(runtime: &mut Runtime, args: &[Vec<u8>]) -> Vec<u8> {
    let bar = StructRef::Gc { handle: u64::from_le_bytes(args[0].clone().try_into().unwrap()) };
    let ty = runtime.describe("Qux").unwrap();
    let mut qux = runtime.new_struct(ty).unwrap();
    qux.set(runtime, "0", &NativeValue::Struct(bar)).unwrap();
    raw_struct(qux)
}

fn invoke_struct(driver: &mut TestDriver, name: &str, args: Vec<NativeValue>) -> StructRef {
    match invoke(driver, name, args, NativeKind::Struct).unwrap() {
        NativeValue::Struct(s) => s,
        other => panic!("not a struct: {:?}", other),
    }
}

fn get_struct(runtime: &Runtime, s: &StructRef, name: &str) -> StructRef {
    match s.get(runtime, name, NativeKind::Struct).unwrap() {
        NativeValue::Struct(s) => s,
        other => panic!("not a struct: {:?}", other),
    }
}

fn kind_of(value: &NativeValue) -> NativeKind {
    match value {
        NativeValue::Unit => NativeKind::Unit,
        NativeValue::Int(_) => NativeKind::Int,
        NativeValue::Float(_) => NativeKind::Float,
        NativeValue::Bool(_) => NativeKind::Bool,
        NativeValue::Struct(_) => NativeKind::Struct,
    }
}

struct TestData(NativeValue, NativeValue);

fn test_field(runtime: &mut Runtime, s: &mut StructRef, data: &TestData, field_name: &str) {
    let kind = kind_of(&data.0);
    assert_eq!(Ok(data.0.clone()), s.get(runtime, field_name, kind));
    s.set(runtime, field_name, &data.1).unwrap();
    assert_eq!(Ok(data.1.clone()), s.replace(runtime, field_name, &data.0));
    assert_eq!(Ok(data.0.clone()), s.get(runtime, field_name, kind));
}

fn test_struct(runtime: &mut Runtime, s: &mut StructRef, c1: StructRef, c2: StructRef) {
    let field_names: Vec<String> = c1
        .info(runtime)
        .unwrap()
        .fields
        .iter()
        .map(|f| String::from_utf8(f.name.clone()).unwrap())
        .collect();

    let int_value = c2.get(runtime, &field_names[0], NativeKind::Int);
    let bool_value = c2.get(runtime, &field_names[1], NativeKind::Bool);
    s.set(runtime, "0", &NativeValue::Struct(c2)).unwrap();

    let c2 = get_struct(runtime, s, "0");
    assert_eq!(c2.get(runtime, &field_names[0], NativeKind::Int), int_value);
    assert_eq!(c2.get(runtime, &field_names[1], NativeKind::Bool), bool_value);

    let int_value = c1.get(runtime, &field_names[0], NativeKind::Int);
    let bool_value = c1.get(runtime, &field_names[1], NativeKind::Bool);
    s.replace(runtime, "0", &NativeValue::Struct(c1)).unwrap();

    let c1 = get_struct(runtime, s, "0");
    assert_eq!(c1.get(runtime, &field_names[0], NativeKind::Int), int_value);
    assert_eq!(c1.get(runtime, &field_names[1], NativeKind::Bool), bool_value);
}

/// Two copies of a value struct: a write through one is not seen through the
/// other.
fn test_shallow_copy(
    runtime: &mut Runtime,
    s1: &mut StructRef,
    s2: &StructRef,
    data: &TestData,
    field_name: &str,
) {
    let kind = kind_of(&data.0);
    assert_eq!(s1.get(runtime, field_name, kind), s2.get(runtime, field_name, kind));
    s1.set(runtime, field_name, &data.1).unwrap();
    assert_ne!(s1.get(runtime, field_name, kind), s2.get(runtime, field_name, kind));
    s1.replace(runtime, field_name, &data.0).unwrap();
    assert_eq!(s1.get(runtime, field_name, kind), s2.get(runtime, field_name, kind));
}

/// Two handles to one object of the collector: a write through one is seen
/// through the other.
fn test_shared_object(
    runtime: &mut Runtime,
    s1: &mut StructRef,
    s2: &StructRef,
    data: &TestData,
    field_name: &str,
) {
    let kind = kind_of(&data.0);
    assert_eq!(s1.get(runtime, field_name, kind), s2.get(runtime, field_name, kind));
    s1.set(runtime, field_name, &data.1).unwrap();
    assert_eq!(s2.get(runtime, field_name, kind), Ok(data.1.clone()));
    assert_eq!(s1.replace(runtime, field_name, &data.0), Ok(data.1.clone()));
    assert_eq!(s2.get(runtime, field_name, kind), Ok(data.0.clone()));
}

#[test]
fn marshal_struct() {
    let foo = TypeId::Struct(0);
    let bar = TypeId::Struct(1);
    let baz = TypeId::Struct(2);
    let qux = TypeId::Struct(3);
    let artifact = Artifact {
        structs: vec![
            structure("Foo", Storage::Value, 16, vec![field("a", INT, 0), field("b", BOOL, 8)]),
            structure("Bar", Storage::Gc, 16, vec![field("0", INT, 0), field("1", BOOL, 8)]),
            structure("Baz", Storage::Value, 16, vec![field("0", foo, 0)]),
            structure("Qux", Storage::Gc, 8, vec![field("0", bar, 0)]),
        ],
        functions: vec![
            function("foo_new", vec![INT, BOOL], foo, 1),
            function("bar_new", vec![INT, BOOL], bar, 2),
            function("baz_new", vec![foo], baz, 3),
            function("qux_new", vec![bar], qux, 4),
        ],
    };
    let mut driver = TestDriver::new(
        artifact,
        vec![
            (1, body_foo_new as Body),
            (2, body_bar_new as Body),
            (3, body_baz_new as Body),
            (4, body_qux_new as Body),
        ],
    );

    let int_data = TestData(NativeValue::Int(3), NativeValue::Int(6));
    let bool_data = TestData(NativeValue::Bool(true), NativeValue::Bool(false));

    // Struct marshalling works for fundamental types
    let mut foo =
        invoke_struct(&mut driver, "foo_new", vec![int_data.0.clone(), bool_data.0.clone()]);
    test_field(&mut driver.runtime, &mut foo, &int_data, "a");
    test_field(&mut driver.runtime, &mut foo, &bool_data, "b");

    let mut bar =
        invoke_struct(&mut driver, "bar_new", vec![int_data.0.clone(), bool_data.0.clone()]);
    test_field(&mut driver.runtime, &mut bar, &int_data, "0");
    test_field(&mut driver.runtime, &mut bar, &bool_data, "1");

    // Struct marshalling works for struct types
    let mut baz = invoke_struct(&mut driver, "baz_new", vec![NativeValue::Struct(foo)]);
    let c1 = invoke_struct(&mut driver, "foo_new", vec![int_data.0.clone(), bool_data.0.clone()]);
    let c2 = invoke_struct(&mut driver, "foo_new", vec![int_data.1.clone(), bool_data.1.clone()]);
    test_struct(&mut driver.runtime, &mut baz, c1, c2);

    let mut qux = invoke_struct(&mut driver, "qux_new", vec![NativeValue::Struct(bar)]);
    let c1 = invoke_struct(&mut driver, "bar_new", vec![int_data.0.clone(), bool_data.0.clone()]);
    let c2 = invoke_struct(&mut driver, "bar_new", vec![int_data.1.clone(), bool_data.1.clone()]);
    test_struct(&mut driver.runtime, &mut qux, c1, c2);

    // Reading a value struct makes a copy of it
    let mut foo = get_struct(&driver.runtime, &baz, "0");
    let foo2 = get_struct(&driver.runtime, &baz, "0");
    test_shallow_copy(&mut driver.runtime, &mut foo, &foo2, &int_data, "a");
    test_shallow_copy(&mut driver.runtime, &mut foo, &foo2, &bool_data, "b");

    // Reading a collector struct hands out the same object again
    let mut bar = get_struct(&driver.runtime, &qux, "0");
    let bar2 = get_struct(&driver.runtime, &qux, "0");
    assert_eq!(bar, bar2);
    test_shared_object(&mut driver.runtime, &mut bar, &bar2, &int_data, "0");
    test_shared_object(&mut driver.runtime, &mut bar, &bar2, &bool_data, "1");

    // Specify invalid return type
    let bar_err = bar.get(&driver.runtime, "0", NativeKind::Float);
    assert!(bar_err.is_err());

    // Specify invalid argument type
    let bar_err = bar.replace(&mut driver.runtime, "0", &fl(1f64));
    assert!(bar_err.is_err());

    // Specify invalid argument type
    let bar_err = bar.set(&mut driver.runtime, "0", &fl(1f64));
    assert!(bar_err.is_err());

    // Specify invalid return type
    let bar_err = invoke(
        &mut driver,
        "baz_new",
        vec![NativeValue::Struct(foo.clone())],
        NativeKind::Int,
    );
    assert!(bar_err.is_err());

    // Pass invalid struct type
    let bar_err =
        invoke(&mut driver, "baz_new", vec![NativeValue::Struct(bar)], NativeKind::Struct);
    assert!(bar_err.is_err());
}

fn args_and_bar(m: TypeId) -> Artifact {
    Artifact {
        structs: vec![
            structure(
                "Args",
                Storage::Gc,
                16,
                vec![field("n", INT, 0), field("foo", TypeId::Struct(1), 8)],
            ),
            structure("Bar", Storage::Gc, 8, vec![field("m", m, 0)]),
        ],
        functions: vec![function("args", vec![], TypeId::Struct(0), 1)],
    }
}

/// `Args { n: 3, foo: Bar { m: .. } }`
fn body_args(runtime: &mut Runtime, _: &[Vec<u8>]) -> Vec<u8> {
    let bar_ty = runtime.describe("Bar").unwrap();
    let bar = runtime.new_struct(bar_ty).unwrap();
    let args_ty = runtime.describe("Args").unwrap();
    let mut args = runtime.new_struct(args_ty).unwrap();
    args.set(runtime, "n", &NativeValue::Int(3)).unwrap();
    args.set(runtime, "foo", &NativeValue::Struct(bar)).unwrap();
    raw_struct(args)
}

#[test]
fn hotreload_struct_decl() {
    let mut driver = TestDriver::new(args_and_bar(FLOAT), vec![(1, body_args as Body)]);
    driver.update(args_and_bar(INT), vec![(1, body_args as Body)]);
}
