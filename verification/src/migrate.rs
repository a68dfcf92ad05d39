//! Migration of live objects to the layouts of a new artifact.
//!
//! When a struct with live instances is declared anew, each instance is
//! rebuilt under the new layout: storage of the new size is zeroed, and every
//! field that both layouts have by name is carried over. A field that only
//! the old layout has is dropped; a field that only the new layout has keeps
//! its zero bytes (0, 0.0, false, and no object for a handle). A field that
//! both have is carried over only if its type is still the same primitive,
//! or a struct of the same name and storage; otherwise there is no
//! conversion, and the reload that asked for it is refused as a whole. So
//! it is when a struct with live instances is declared anew as a value
//! struct: its instances cannot stay in the collector.
//!
//! Handles do not change: an object is rebuilt in its place.

use vstd::prelude::*;
use crate::error::Error;
use crate::memory::{
    heap_wf, lemma_slice_of_splice, patched, slice_at, splice, zero_bytes, zeros, Heap, Object,
    ObjectView,
};
use crate::names::{bytes_eq, copy_bytes, lemma_position_of};
use crate::struct_ref::section;
use crate::types::{
    described, field_fits, field_names, field_position, fields_apart, layout_wf, registry_wf,
    slot_size, struct_names, Storage, StructView, TypeId, TypeTable,
};

verus! {

/// The bytes of an instance of struct `to` after the first `done` fields of
/// `to` were filled in from `bytes`, an instance of struct `from`; `None` if
/// one of those fields has no conversion.
pub open spec fn migrate_fields(
    tys: Seq<StructView>,
    from: int,
    to: int,
    bytes: Seq<u8>,
    done: nat,
) -> Option<Seq<u8>>
    decreases from, done,
{
    if done == 0 {
        Some(zeros(tys[to].size as nat))
    } else {
        match migrate_fields(tys, from, to, bytes, (done - 1) as nat) {
            None => None,
            Some(filled) => {
                let f = tys[to].fields[done - 1];
                match field_position(tys[from], f.name) {
                    None => Some(filled),
                    Some(p) => {
                        let g = tys[from].fields[p];
                        let data = slice_at(bytes, g.offset as int, slot_size(tys, g.ty) as int);
                        let converted = match (g.ty, f.ty) {
                            (TypeId::Primitive(x), TypeId::Primitive(y)) => if x == y {
                                Some(data)
                            } else {
                                None
                            },
                            (TypeId::Struct(a), TypeId::Struct(b)) => if tys[a as int].name
                                != tys[b as int].name || tys[a as int].storage
                                != tys[b as int].storage {
                                None
                            } else if tys[a as int].storage == Storage::Gc {
                                Some(data)
                            } else if a < from {
                                migrate_fields(
                                    tys,
                                    a as int,
                                    b as int,
                                    data,
                                    tys[b as int].fields.len(),
                                )
                            } else {
                                None
                            },
                            _ => None,
                        };
                        match converted {
                            None => None,
                            Some(d) => Some(splice(filled, f.offset as int, d)),
                        }
                    },
                }
            },
        }
    }
}

/// The bytes of an instance of struct `to` rebuilt from `bytes`, an instance
/// of struct `from`; `None` if a field that both have has no conversion.
pub open spec fn migrate(tys: Seq<StructView>, from: int, to: int, bytes: Seq<u8>) -> Option<
    Seq<u8>,
> {
    migrate_fields(tys, from, to, bytes, tys[to].fields.len())
}

/// What becomes of a live object when the structs from `new_base` on take
/// the place of those from `old_base` on. An object of an older artifact, or
/// of a struct that is no longer declared, stays as it is. Otherwise the
/// object is rebuilt under the struct now declared by its name, which must
/// still live in the collector.
pub open spec fn migrate_object(
    tys: Seq<StructView>,
    old_base: int,
    new_base: int,
    o: ObjectView,
) -> Result<ObjectView, Error> {
    if o.ty < old_base {
        Ok(o)
    } else {
        match described(tys, new_base, tys[o.ty as int].name) {
            Some(TypeId::Struct(to)) => if tys[to as int].storage != Storage::Gc {
                Err(Error::MigrationFailure)
            } else {
                match migrate(tys, o.ty as int, to as int, o.bytes) {
                    None => Err(Error::IncompatibleReload),
                    Some(bytes) => Ok(ObjectView { ty: to, bytes }),
                }
            },
            _ => Ok(o),
        }
    }
}

/// What becomes of the collector: every object migrated, in order, or the
/// error of the first object that cannot be.
pub open spec fn migrate_heap(
    tys: Seq<StructView>,
    old_base: int,
    new_base: int,
    heap: Seq<ObjectView>,
) -> Result<Seq<ObjectView>, Error>
    decreases heap.len(),
{
    if heap.len() == 0 {
        Ok(Seq::<ObjectView>::empty())
    } else {
        match migrate_heap(tys, old_base, new_base, heap.drop_last()) {
            Err(e) => Err(e),
            Ok(done) => match migrate_object(tys, old_base, new_base, heap.last()) {
                Err(e) => Err(e),
                Ok(o) => Ok(done.push(o)),
            },
        }
    }
}

/// A rebuilt instance has exactly the bytes of its new layout.
pub proof fn lemma_migrate_fields_len(
    tys: Seq<StructView>,
    from: int,
    to: int,
    bytes: Seq<u8>,
    done: nat,
)
    requires
        registry_wf(tys),
        0 <= from < tys.len(),
        0 <= to < tys.len(),
        done <= tys[to].fields.len(),
        bytes.len() == tys[from].size,
        migrate_fields(tys, from, to, bytes, done) is Some,
    ensures
        migrate_fields(tys, from, to, bytes, done)->Some_0.len() == tys[to].size,
    decreases from, done,
{
    if done > 0 {
        lemma_migrate_fields_len(tys, from, to, bytes, (done - 1) as nat);
        let filled = migrate_fields(tys, from, to, bytes, (done - 1) as nat)->Some_0;
        let f = tys[to].fields[done - 1];
        assert(layout_wf(tys, tys[to], to));
        assert(field_fits(tys, tys[to], to, done - 1));
        match field_position(tys[from], f.name) {
            None => {},
            Some(p) => {
                lemma_position_of(field_names(tys[from]), f.name);
                let g = tys[from].fields[p];
                assert(layout_wf(tys, tys[from], from));
                assert(field_fits(tys, tys[from], from, p));
                let data = slice_at(bytes, g.offset as int, slot_size(tys, g.ty) as int);
                match (g.ty, f.ty) {
                    (TypeId::Struct(a), TypeId::Struct(b)) => {
                        if tys[a as int].name == tys[b as int].name && tys[a as int].storage
                            == tys[b as int].storage && tys[a as int].storage == Storage::Value
                            && a < from {
                            lemma_migrate_fields_len(
                                tys,
                                a as int,
                                b as int,
                                data,
                                tys[b as int].fields.len(),
                            );
                            let d = migrate_fields(
                                tys,
                                a as int,
                                b as int,
                                data,
                                tys[b as int].fields.len(),
                            )->Some_0;
                            lemma_slice_of_splice(filled, f.offset as int, d);
                        } else {
                            lemma_slice_of_splice(filled, f.offset as int, data);
                        }
                    },
                    _ => {
                        lemma_slice_of_splice(filled, f.offset as int, data);
                    },
                }
            },
        }
    }
}

/// Rebuilds `bytes`, an instance of the struct at `from`, under the layout
/// of the struct at `to`.
pub fn migrate_bytes(table: &TypeTable, from: usize, to: usize, bytes: &[u8]) -> (out: Option<
    Vec<u8>,
>)
    requires
        registry_wf(table@),
        from < table@.len(),
        to < table@.len(),
        bytes@.len() == table@[from as int].size,
    ensures
        out matches Some(b) ==> migrate(table@, from as int, to as int, bytes@) == Some(b@)
            && b@.len() == table@[to as int].size,
        out is None ==> migrate(table@, from as int, to as int, bytes@) is None,
    decreases from,
{
    let ghost tys = table@;
    let old_desc = &table.structs[from];
    let new_desc = &table.structs[to];
    assert(old_desc@ == tys[from as int]);
    assert(new_desc@ == tys[to as int]);
    let mut filled = zero_bytes(new_desc.size);
    let n = new_desc.fields.len();
    let mut j: usize = 0;
    while j < n
        invariant
            j <= n,
            n == new_desc.fields.len(),
            tys == table@,
            registry_wf(tys),
            from < tys.len(),
            to < tys.len(),
            old_desc == &table.structs[from as int],
            new_desc == &table.structs[to as int],
            old_desc@ == tys[from as int],
            new_desc@ == tys[to as int],
            bytes@.len() == tys[from as int].size,
            migrate_fields(tys, from as int, to as int, bytes@, j as nat) == Some(filled@),
            filled@.len() == tys[to as int].size,
        decreases n - j,
    {
        let f = &new_desc.fields[j];
        assert(f@ == tys[to as int].fields[j as int]);
        proof {
            assert(layout_wf(tys, tys[to as int], to as int));
            assert(field_fits(tys, tys[to as int], to as int, j as int));
        }
        match old_desc.find_field(f.name.as_slice()) {
            None => {},
            Some(p) => {
                let g = &old_desc.fields[p];
                assert(g@ == tys[from as int].fields[p as int]);
                proof {
                    lemma_position_of(field_names(tys[from as int]), f@.name);
                    assert(layout_wf(tys, tys[from as int], from as int));
                    assert(field_fits(tys, tys[from as int], from as int, p as int));
                }
                let data = section(bytes, g.offset, table.slot_size(g.ty));
                let converted: Option<Vec<u8>> = match (g.ty, f.ty) {
                    (TypeId::Primitive(x), TypeId::Primitive(y)) => if x == y {
                        Some(data)
                    } else {
                        None
                    },
                    (TypeId::Struct(a), TypeId::Struct(b)) => {
                        let sa = &table.structs[a];
                        let sb = &table.structs[b];
                        assert(sa@ == tys[a as int]);
                        assert(sb@ == tys[b as int]);
                        if !bytes_eq(sa.name.as_slice(), sb.name.as_slice()) || sa.storage
                            != sb.storage {
                            None
                        } else {
                            match sa.storage {
                                Storage::Gc => Some(data),
                                Storage::Value => migrate_bytes(table, a, b, data.as_slice()),
                            }
                        }
                    },
                    _ => None,
                };
                match converted {
                    None => {
                        proof {
                            assert(migrate_fields(tys, from as int, to as int, bytes@, (j + 1) as nat)
                                is None);
                            lemma_migrate_fields_stays_none(
                                tys,
                                from as int,
                                to as int,
                                bytes@,
                                (j + 1) as nat,
                                n as nat,
                            );
                        }
                        return None;
                    },
                    Some(d) => {
                        proof {
                            lemma_slice_of_splice(filled@, f.offset as int, d@);
                        }
                        filled = patched(filled.as_slice(), f.offset, d.as_slice());
                    },
                }
            },
        }
        j += 1;
    }
    Some(filled)
}

/// Once a field has no conversion, the instance has none.
pub proof fn lemma_migrate_fields_stays_none(
    tys: Seq<StructView>,
    from: int,
    to: int,
    bytes: Seq<u8>,
    done: nat,
    later: nat,
)
    requires
        done <= later,
        migrate_fields(tys, from, to, bytes, done) is None,
    ensures
        migrate_fields(tys, from, to, bytes, later) is None,
    decreases later,
{
    if done < later {
        lemma_migrate_fields_stays_none(tys, from, to, bytes, done, (later - 1) as nat);
    }
}

/// Migrates one live object.
pub fn migrate_one(table: &TypeTable, old_base: usize, o: &Object) -> (out: Result<Object, Error>)
    requires
        registry_wf(table@),
        table.base <= table@.len(),
        o.ty < table@.len(),
        o.bytes@.len() == table@[o.ty as int].size,
    ensures
        out matches Ok(m) ==> migrate_object(table@, old_base as int, table.base as int, o@)
            == Ok::<ObjectView, Error>(m@) && m.ty < table@.len() && m.bytes@.len()
            == table@[m.ty as int].size && (table@[o.ty as int].storage == Storage::Gc
            ==> table@[m.ty as int].storage == Storage::Gc),
        out matches Err(e) ==> migrate_object(table@, old_base as int, table.base as int, o@)
            == Err::<ObjectView, Error>(e),
{
    if o.ty < old_base {
        return Ok(Object { ty: o.ty, bytes: copy_bytes(o.bytes.as_slice()) });
    }
    let name = &table.structs[o.ty].name;
    assert(name@ == table@[o.ty as int].name);
    match table.describe(name.as_slice()) {
        Some(TypeId::Struct(to)) => {
            proof {
                lemma_position_of(
                    struct_names(table@).subrange(table.base as int, table@.len() as int),
                    name@,
                );
            }
            assert(table.structs[to as int]@ == table@[to as int]);
            match table.structs[to].storage {
                Storage::Value => Err(Error::MigrationFailure),
                Storage::Gc => match migrate_bytes(table, o.ty, to, o.bytes.as_slice()) {
                    None => Err(Error::IncompatibleReload),
                    Some(bytes) => Ok(Object { ty: to, bytes }),
                },
            }
        },
        _ => Ok(Object { ty: o.ty, bytes: copy_bytes(o.bytes.as_slice()) }),
    }
}

/// Migrates every object of the collector, in order. Nothing of `heap`
/// changes; the result is a collector of its own.
pub fn migrate_objects(table: &TypeTable, old_base: usize, heap: &Heap) -> (out: Result<
    Heap,
    Error,
>)
    requires
        registry_wf(table@),
        table.base <= table@.len(),
        heap_wf(table@, heap@),
    ensures
        out matches Ok(h) ==> migrate_heap(table@, old_base as int, table.base as int, heap@)
            == Ok::<Seq<ObjectView>, Error>(h@) && heap_wf(table@, h@) && h@.len() == heap@.len(),
        out matches Err(e) ==> migrate_heap(table@, old_base as int, table.base as int, heap@)
            == Err::<Seq<ObjectView>, Error>(e),
{
    let mut objects: Vec<Object> = Vec::new();
    let mut i: usize = 0;
    assert(heap@.subrange(0, 0) =~= Seq::<ObjectView>::empty());
    assert(Heap { objects }@ =~= Seq::<ObjectView>::empty());
    while i < heap.objects.len()
        invariant
            i <= heap.objects.len(),
            objects.len() == i,
            registry_wf(table@),
            table.base <= table@.len(),
            heap_wf(table@, heap@),
            migrate_heap(
                table@,
                old_base as int,
                table.base as int,
                heap@.subrange(0, i as int),
            ) == Ok::<Seq<ObjectView>, Error>(Heap { objects }@),
            heap_wf(table@, Heap { objects }@),
        decreases heap.objects.len() - i,
    {
        let o = &heap.objects[i];
        assert(o@ == heap@[i as int]);
        let ghost prefix = heap@.subrange(0, i + 1);
        assert(prefix.drop_last() =~= heap@.subrange(0, i as int));
        assert(prefix.last() == heap@[i as int]);
        match migrate_one(table, old_base, o) {
            Err(e) => {
                proof {
                    lemma_migrate_heap_stays_err(
                        table@,
                        old_base as int,
                        table.base as int,
                        heap@,
                        i + 1,
                    );
                }
                return Err(e);
            },
            Ok(m) => {
                let ghost before = Heap { objects }@;
                let ghost mv = m@;
                objects.push(m);
                assert(Heap { objects }@ =~= before.push(mv));
            },
        }
        i += 1;
    }
    assert(heap@.subrange(0, i as int) =~= heap@);
    Ok(Heap { objects })
}

/// Once a prefix of the collector cannot be migrated, the collector cannot.
pub proof fn lemma_migrate_heap_stays_err(
    tys: Seq<StructView>,
    old_base: int,
    new_base: int,
    heap: Seq<ObjectView>,
    n: int,
)
    requires
        0 <= n <= heap.len(),
        migrate_heap(tys, old_base, new_base, heap.subrange(0, n)) is Err,
    ensures
        migrate_heap(tys, old_base, new_base, heap) == migrate_heap(
            tys,
            old_base,
            new_base,
            heap.subrange(0, n),
        ),
    decreases heap.len(),
{
    if n < heap.len() {
        assert(heap.drop_last().subrange(0, n) =~= heap.subrange(0, n));
        lemma_migrate_heap_stays_err(tys, old_base, new_base, heap.drop_last(), n);
    } else {
        assert(heap.subrange(0, n) =~= heap);
    }
}

/// What field `j` of struct `to` receives from `bytes`, an instance of
/// struct `from` that has a field of the same name: the bytes of that field,
/// if its type is still the same primitive or a collector struct of the
/// same name; the rebuilt bytes, for a value struct of the same name; and
/// nothing where there is no conversion.
pub open spec fn carried(tys: Seq<StructView>, from: int, to: int, bytes: Seq<u8>, j: int) -> Option<
    Seq<u8>,
> {
    let f = tys[to].fields[j];
    let g = tys[from].fields[field_position(tys[from], f.name)->Some_0];
    let data = slice_at(bytes, g.offset as int, slot_size(tys, g.ty) as int);
    match (g.ty, f.ty) {
        (TypeId::Primitive(x), TypeId::Primitive(y)) => if x == y {
            Some(data)
        } else {
            None
        },
        (TypeId::Struct(a), TypeId::Struct(b)) => if tys[a as int].name != tys[b as int].name
            || tys[a as int].storage != tys[b as int].storage {
            None
        } else if tys[a as int].storage == Storage::Gc {
            Some(data)
        } else if a < from {
            migrate(tys, a as int, b as int, data)
        } else {
            None
        },
        _ => None,
    }
}

/// One step of the rebuilding: field `done` is left at zero if the old
/// layout lacks it, else overwritten by what it receives.
pub proof fn lemma_migrate_fields_step(
    tys: Seq<StructView>,
    from: int,
    to: int,
    bytes: Seq<u8>,
    done: nat,
)
    ensures
        migrate_fields(tys, from, to, bytes, done + 1) == (match migrate_fields(
            tys,
            from,
            to,
            bytes,
            done,
        ) {
            None => None,
            Some(filled) => match field_position(tys[from], tys[to].fields[done as int].name) {
                None => Some(filled),
                Some(p) => match carried(tys, from, to, bytes, done as int) {
                    None => None,
                    Some(d) => Some(splice(filled, tys[to].fields[done as int].offset as int, d)),
                },
            },
        }),
{
    assert(((done + 1) - 1) as nat == done);
}

/// What a field receives has exactly the size of the field.
pub proof fn lemma_carried_len(tys: Seq<StructView>, from: int, to: int, bytes: Seq<u8>, j: int)
    requires
        registry_wf(tys),
        0 <= from < tys.len(),
        0 <= to < tys.len(),
        0 <= j < tys[to].fields.len(),
        bytes.len() == tys[from].size,
        field_position(tys[from], tys[to].fields[j].name) is Some,
        carried(tys, from, to, bytes, j) is Some,
    ensures
        carried(tys, from, to, bytes, j)->Some_0.len() == slot_size(tys, tys[to].fields[j].ty),
{
    let f = tys[to].fields[j];
    let p = field_position(tys[from], f.name)->Some_0;
    lemma_position_of(field_names(tys[from]), f.name);
    let g = tys[from].fields[p];
    assert(layout_wf(tys, tys[from], from));
    assert(field_fits(tys, tys[from], from, p));
    assert(layout_wf(tys, tys[to], to));
    assert(field_fits(tys, tys[to], to, j));
    let data = slice_at(bytes, g.offset as int, slot_size(tys, g.ty) as int);
    match (g.ty, f.ty) {
        (TypeId::Struct(a), TypeId::Struct(b)) => {
            if tys[a as int].storage == Storage::Value {
                lemma_migrate_fields_len(tys, a as int, b as int, data, tys[b as int].fields.len());
            }
        },
        _ => {},
    }
}

/// In a rebuilt instance, each field that was reached holds what it
/// received, or zeros if the old layout lacks it; the fields not yet reached
/// hold zeros.
pub proof fn lemma_migrate_fields_slice(
    tys: Seq<StructView>,
    from: int,
    to: int,
    bytes: Seq<u8>,
    done: nat,
    j: int,
)
    requires
        registry_wf(tys),
        0 <= from < tys.len(),
        0 <= to < tys.len(),
        bytes.len() == tys[from].size,
        done <= tys[to].fields.len(),
        0 <= j < tys[to].fields.len(),
        migrate_fields(tys, from, to, bytes, done) is Some,
    ensures
        slice_at(
            migrate_fields(tys, from, to, bytes, done)->Some_0,
            tys[to].fields[j].offset as int,
            slot_size(tys, tys[to].fields[j].ty) as int,
        ) == (if j < done && field_position(tys[from], tys[to].fields[j].name) is Some {
            carried(tys, from, to, bytes, j)->Some_0
        } else {
            zeros(slot_size(tys, tys[to].fields[j].ty))
        }),
        j < done && field_position(tys[from], tys[to].fields[j].name) is Some ==> carried(
            tys,
            from,
            to,
            bytes,
            j,
        ) is Some,
    decreases done,
{
    let f = tys[to].fields[j];
    let n = slot_size(tys, f.ty) as int;
    assert(layout_wf(tys, tys[to], to));
    assert(field_fits(tys, tys[to], to, j));
    if done == 0 {
        assert(slice_at(zeros(tys[to].size as nat), f.offset as int, n) =~= zeros(n as nat));
    } else {
        let k = (done - 1) as nat;
        lemma_migrate_fields_step(tys, from, to, bytes, k);
        lemma_migrate_fields_slice(tys, from, to, bytes, k, j);
        lemma_migrate_fields_len(tys, from, to, bytes, k);
        let filled = migrate_fields(tys, from, to, bytes, k)->Some_0;
        let fk = tys[to].fields[k as int];
        assert(field_fits(tys, tys[to], to, k as int));
        if field_position(tys[from], fk.name) is Some {
            lemma_carried_len(tys, from, to, bytes, k as int);
            let d = carried(tys, from, to, bytes, k as int)->Some_0;
            if k == j {
                lemma_slice_of_splice(filled, f.offset as int, d);
            } else {
                if j < k {
                    assert(fields_apart(tys, tys[to], j, k as int));
                } else {
                    assert(fields_apart(tys, tys[to], k as int, j));
                }
                crate::memory::lemma_slice_apart(filled, fk.offset as int, d, f.offset as int, n);
            }
        }
    }
}

/// A migrated collector has an object for every object, each the migration
/// of the one that stood there.
pub proof fn lemma_migrate_heap_index(
    tys: Seq<StructView>,
    old_base: int,
    new_base: int,
    heap: Seq<ObjectView>,
    i: int,
)
    requires
        migrate_heap(tys, old_base, new_base, heap) is Ok,
        0 <= i < heap.len(),
    ensures
        migrate_heap(tys, old_base, new_base, heap)->Ok_0.len() == heap.len(),
        migrate_object(tys, old_base, new_base, heap[i]) == Ok::<ObjectView, Error>(
            migrate_heap(tys, old_base, new_base, heap)->Ok_0[i],
        ),
    decreases heap.len(),
{
    lemma_migrate_heap_len(tys, old_base, new_base, heap);
    lemma_migrate_heap_len(tys, old_base, new_base, heap.drop_last());
    if i < heap.len() - 1 {
        lemma_migrate_heap_index(tys, old_base, new_base, heap.drop_last(), i);
    }
}

/// A migrated collector has as many objects as before.
pub proof fn lemma_migrate_heap_len(
    tys: Seq<StructView>,
    old_base: int,
    new_base: int,
    heap: Seq<ObjectView>,
)
    requires
        migrate_heap(tys, old_base, new_base, heap) is Ok,
    ensures
        migrate_heap(tys, old_base, new_base, heap)->Ok_0.len() == heap.len(),
    decreases heap.len(),
{
    if heap.len() > 0 {
        lemma_migrate_heap_len(tys, old_base, new_base, heap.drop_last());
    }
}

/// A migrated object is again an instance of a collector struct of the
/// registry, with exactly the bytes of its layout.
pub proof fn lemma_migrate_object_wf(
    tys: Seq<StructView>,
    old_base: int,
    new_base: int,
    o: ObjectView,
)
    requires
        registry_wf(tys),
        0 <= new_base <= tys.len() <= usize::MAX,
        o.ty < tys.len(),
        tys[o.ty as int].storage == Storage::Gc,
        o.bytes.len() == tys[o.ty as int].size,
        migrate_object(tys, old_base, new_base, o) is Ok,
    ensures
        ({
            let m = migrate_object(tys, old_base, new_base, o)->Ok_0;
            &&& m.ty < tys.len()
            &&& tys[m.ty as int].storage == Storage::Gc
            &&& m.bytes.len() == tys[m.ty as int].size
        }),
{
    if o.ty >= old_base {
        let names = struct_names(tys).subrange(new_base, tys.len() as int);
        lemma_position_of(names, tys[o.ty as int].name);
        match described(tys, new_base, tys[o.ty as int].name) {
            Some(TypeId::Struct(to)) => {
                lemma_migrate_fields_len(
                    tys,
                    o.ty as int,
                    to as int,
                    o.bytes,
                    tys[to as int].fields.len(),
                );
            },
            _ => {},
        }
    }
}

/// Migration keeps the collector well formed.
pub proof fn lemma_migrate_heap_wf(
    tys: Seq<StructView>,
    old_base: int,
    new_base: int,
    heap: Seq<ObjectView>,
)
    requires
        registry_wf(tys),
        0 <= new_base <= tys.len() <= usize::MAX,
        heap_wf(tys, heap),
        migrate_heap(tys, old_base, new_base, heap) is Ok,
    ensures
        heap_wf(tys, migrate_heap(tys, old_base, new_base, heap)->Ok_0),
{
    let after = migrate_heap(tys, old_base, new_base, heap)->Ok_0;
    lemma_migrate_heap_len(tys, old_base, new_base, heap);
    assert forall|i: int| 0 <= i < after.len() implies (#[trigger] after[i]).ty < tys.len()
        && tys[after[i].ty as int].storage == Storage::Gc && after[i].bytes.len()
        == tys[after[i].ty as int].size by {
        lemma_migrate_heap_index(tys, old_base, new_base, heap, i);
        assert(heap[i].ty < tys.len());
        lemma_migrate_object_wf(tys, old_base, new_base, heap[i]);
    }
}

} // verus!
