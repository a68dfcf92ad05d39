//! What holds of the runtime as a whole, stated over the models that the
//! contracts of its functions use.

use vstd::prelude::*;
use crate::artifact::{
    load_error, names_ok, rebase_entries, rebase_entry, rebase_field, rebase_struct,
    rebase_structs, rebase_type, shape_ok, signature_known, ArtifactView,
};
use crate::dispatch::{
    entry_names, lemma_table_map_entry, lemma_table_map_names, table_map, EntryView,
};
use crate::link::{lemma_publish_wf, lemma_rebase_signature_known};
use crate::memory::zeros;
use crate::migrate::{
    lemma_migrate_fields_slice, lemma_migrate_heap_index, lemma_migrate_heap_len,
    lemma_migrate_heap_wf, migrate, migrate_heap, migrate_object,
};
use crate::reload::unchanged;
use crate::types::described;
use crate::error::Error;
use crate::invoke::{mismatched, plan_call, PlanView};
use crate::marshal::{marshal, unmarshal};
use crate::memory::{
    decode, encode, heap_wf, lemma_decode_encode, lemma_encode_len, lemma_slice_apart,
    lemma_slice_of_splice, live, ref_type, slice_at, type_of, ObjectView, RefView, ValueView,
};
use crate::names::lemma_position_of;
use crate::reload::{compatible, reloaded, same_named, signatures_kept, StateView};
use crate::runtime::{empty_state, lemma_rebased_text, serves, state_wf};
use vstd::utf8::valid_utf8;
use crate::struct_ref::{
    field_of, get_field, lemma_write_through_wf, ref_bytes, replace_field, set_field,
};
use crate::types::{
    field_fits, field_names, field_position, fields_apart, kind_of, known, layout_wf, registry_wf,
    slot_size, NativeKind, Storage, StructView, TypeId,
};

verus! {

/// A call by an exported name, with as many arguments as the function has
/// parameters and each argument of its parameter's type, is planned: the
/// plan names the function's entry point and holds the arguments' bytes in
/// order. And whatever value of the declared return type the function
/// computes, the caller who asks for it by its kind gets exactly that
/// value, judged against the collector as the call left it.
pub proof fn law_well_typed_call_returns_what_was_computed(
    table: Map<Seq<u8>, EntryView>,
    tys: Seq<StructView>,
    heap: Seq<ObjectView>,
    name: Seq<u8>,
    args: Seq<ValueView>,
    heap_after: Seq<ObjectView>,
    computed: ValueView,
)
    requires
        table.contains_key(name),
        table[name].signature.params.len() == args.len(),
        forall|i: int|
            0 <= i < args.len() ==> type_of(tys, heap, #[trigger] args[i]) == Some(
                table[name].signature.params[i],
            ),
        known(tys, table[name].signature.ret),
        heap_wf(tys, heap_after),
        type_of(tys, heap_after, computed) == Some(table[name].signature.ret),
    ensures
        plan_call(table, tys, heap, name, args) is Ok,
        plan_call(table, tys, heap, name, args)->Ok_0.address == table[name].address,
        plan_call(table, tys, heap, name, args)->Ok_0.ret == table[name].signature.ret,
        plan_call(table, tys, heap, name, args)->Ok_0.args.len() == args.len(),
        forall|i: int|
            0 <= i < args.len() ==> #[trigger] plan_call(table, tys, heap, name, args)->Ok_0.args[i]
                == encode(args[i]),
        unmarshal(
            tys,
            heap_after,
            encode(computed),
            table[name].signature.ret,
            kind_of(table[name].signature.ret),
        ) == Ok::<ValueView, Error>(computed),
{
    let params = table[name].signature.params;
    assert forall|i: int| !mismatched(tys, heap, args, params, i) by {}
    lemma_encode_len(tys, heap_after, computed);
    lemma_decode_encode(tys, heap_after, computed);
}

/// A call in which some argument does not report the type of its parameter
/// is refused as a type mismatch. No plan comes of it, so there is no entry
/// point to run and the function's body does not execute.
pub proof fn law_mistyped_argument_prevents_call(
    table: Map<Seq<u8>, EntryView>,
    tys: Seq<StructView>,
    heap: Seq<ObjectView>,
    name: Seq<u8>,
    args: Seq<ValueView>,
    i: int,
)
    requires
        table.contains_key(name),
        table[name].signature.params.len() == args.len(),
        0 <= i < args.len(),
        type_of(tys, heap, args[i]) != Some(table[name].signature.params[i]),
    ensures
        plan_call(table, tys, heap, name, args) == Err::<PlanView, Error>(Error::TypeMismatch),
{
    assert(mismatched(tys, heap, args, table[name].signature.params, i));
}

/// A call by a name that is not exported fails with `FunctionNotFound`,
/// whatever the arguments.
pub proof fn law_unknown_name_is_not_found(
    table: Map<Seq<u8>, EntryView>,
    tys: Seq<StructView>,
    heap: Seq<ObjectView>,
    name: Seq<u8>,
    args: Seq<ValueView>,
)
    requires
        !table.contains_key(name),
    ensures
        plan_call(table, tys, heap, name, args) == Err::<PlanView, Error>(Error::FunctionNotFound),
{
}

/// A call with another number of arguments than the function has parameters
/// fails with `ArityMismatch`.
pub proof fn law_wrong_count_is_arity_mismatch(
    table: Map<Seq<u8>, EntryView>,
    tys: Seq<StructView>,
    heap: Seq<ObjectView>,
    name: Seq<u8>,
    args: Seq<ValueView>,
)
    requires
        table.contains_key(name),
        table[name].signature.params.len() != args.len(),
    ensures
        plan_call(table, tys, heap, name, args) == Err::<PlanView, Error>(Error::ArityMismatch),
{
}

/// A value that was decoded under a type reports that type: what is read
/// from a field or returned from a call is of the declared type.
pub proof fn law_decoded_value_has_declared_type(
    tys: Seq<StructView>,
    heap: Seq<ObjectView>,
    ty: TypeId,
    bytes: Seq<u8>,
)
    requires
        known(tys, ty),
        bytes.len() == slot_size(tys, ty),
        decode(tys, heap, ty, bytes) is Some,
    ensures
        type_of(tys, heap, decode(tys, heap, ty, bytes)->Some_0) == Some(ty),
{
}

/// What was marshalled under a type comes back unchanged when it is
/// unmarshalled under the same type and asked for by the kind of that type.
pub proof fn law_unmarshal_after_marshal(
    tys: Seq<StructView>,
    heap: Seq<ObjectView>,
    v: ValueView,
    ty: TypeId,
)
    requires
        heap_wf(tys, heap),
        known(tys, ty),
        marshal(tys, heap, v, ty) is Ok,
    ensures
        unmarshal(tys, heap, marshal(tys, heap, v, ty)->Ok_0, ty, kind_of(ty)) == Ok::<
            ValueView,
            Error,
        >(v),
{
    lemma_encode_len(tys, heap, v);
    lemma_decode_encode(tys, heap, v);
}

/// Loading publishes the structs of the artifact as it declares them and
/// exports its functions as it declares them; the collector starts empty.
pub proof fn law_load_keeps_declarations(a: ArtifactView)
    requires
        load_error(a) is None,
        a.structs.len() <= usize::MAX,
    ensures
        reloaded(empty_state(), a) == Ok::<StateView, Error>(
            StateView {
                types: a.structs,
                base: 0,
                dispatch: table_map(a.functions),
                heap: Seq::<ObjectView>::empty(),
            },
        ),
{
    let s = empty_state();
    assert forall|i: int| 0 <= i < a.structs.len() implies rebase_struct(
        #[trigger] a.structs[i],
        0,
    ) == a.structs[i] by {
        let d = a.structs[i];
        assert forall|j: int| 0 <= j < d.fields.len() implies rebase_field(
            #[trigger] d.fields[j],
            0,
        ) == d.fields[j] by {
            match d.fields[j].ty {
                TypeId::Struct(t) => {
                    assert(rebase_type(d.fields[j].ty, 0) == d.fields[j].ty);
                },
                _ => {},
            }
        }
        assert(rebase_struct(d, 0).fields =~= d.fields);
    }
    assert(rebase_structs(a.structs, 0) =~= a.structs);
    assert forall|j: int| 0 <= j < a.functions.len() implies rebase_entry(
        #[trigger] a.functions[j],
        0,
    ) == a.functions[j] by {
        let sig = a.functions[j].signature;
        assert forall|k: int| 0 <= k < sig.params.len() implies rebase_type(
            #[trigger] sig.params[k],
            0,
        ) == sig.params[k] by {
            match sig.params[k] {
                TypeId::Struct(t) => {},
                _ => {},
            }
        }
        assert(rebase_entry(a.functions[j], 0).signature.params =~= sig.params);
        match sig.ret {
            TypeId::Struct(t) => {},
            _ => {},
        }
    }
    assert(rebase_entries(a.functions, 0) =~= a.functions);
    assert(s.types + a.structs =~= a.structs);
    assert(s.types.subrange(0, 0) =~= Seq::<StructView>::empty());
    if unchanged(s.types, s.base, a.structs) {
        assert(a.structs =~= s.types);
    }
}

/// After a field was written, reading it through the reference as it is
/// then, by the kind of what was written, gives what was written.
pub proof fn law_get_after_set(
    tys: Seq<StructView>,
    heap: Seq<ObjectView>,
    r: RefView,
    name: Seq<u8>,
    v: ValueView,
)
    requires
        registry_wf(tys),
        heap_wf(tys, heap),
        set_field(tys, heap, r, name, v) is Ok,
    ensures
        ({
            let (r2, heap2) = set_field(tys, heap, r, name, v)->Ok_0;
            &&& heap_wf(tys, heap2)
            &&& get_field(tys, heap2, r2, name, kind_of(type_of(tys, heap, v)->Some_0)) == Ok::<
                ValueView,
                Error,
            >(v)
        }),
{
    let f = field_of(tys, heap, r, name)->Ok_0;
    let ty = ref_type(tys, heap, r)->Some_0 as int;
    let (r2, heap2) = set_field(tys, heap, r, name, v)->Ok_0;
    let j = field_position(tys[ty], name)->Some_0;
    lemma_position_of(field_names(tys[ty]), name);
    assert(layout_wf(tys, tys[ty], ty));
    assert(field_fits(tys, tys[ty], ty, j));
    lemma_encode_len(tys, heap, v);
    lemma_write_through_wf(tys, heap, r, f.offset as int, encode(v));
    lemma_slice_of_splice(ref_bytes(heap, r), f.offset as int, encode(v));
    assert(type_of(tys, heap2, v) == type_of(tys, heap, v)) by {
        match v {
            ValueView::Struct(RefView::Gc { handle }) => {
                assert(heap2[handle - 1].ty == heap[handle - 1].ty);
            },
            _ => {},
        }
    }
    lemma_decode_encode(tys, heap2, v);
}

/// Replacing a field returns what the field held before the write and
/// leaves the field equal to what was written.
pub proof fn law_replace_returns_old_and_leaves_new(
    tys: Seq<StructView>,
    heap: Seq<ObjectView>,
    r: RefView,
    name: Seq<u8>,
    v: ValueView,
)
    requires
        registry_wf(tys),
        heap_wf(tys, heap),
        replace_field(tys, heap, r, name, v) is Ok,
    ensures
        ({
            let (before, r2, heap2) = replace_field(tys, heap, r, name, v)->Ok_0;
            let kind = kind_of(type_of(tys, heap, v)->Some_0);
            &&& get_field(tys, heap, r, name, kind) == Ok::<ValueView, Error>(before)
            &&& get_field(tys, heap2, r2, name, kind) == Ok::<ValueView, Error>(v)
        }),
{
    law_get_after_set(tys, heap, r, name, v);
}

/// A write that is refused changes nothing, and a read never does: type,
/// arity and field errors leave the state as it was. (For a write this is
/// the `Err` case of `set_field`, which has no state to hand back; here it
/// is stated of `replace_field`, which fails wherever the write or the read
/// would.)
pub proof fn law_replace_fails_where_set_or_get_fails(
    tys: Seq<StructView>,
    heap: Seq<ObjectView>,
    r: RefView,
    name: Seq<u8>,
    v: ValueView,
)
    ensures
        set_field(tys, heap, r, name, v) matches Err(e) ==> replace_field(tys, heap, r, name, v)
            == Err::<(ValueView, RefView, Seq<ObjectView>), Error>(e),
        replace_field(tys, heap, r, name, v) is Ok ==> set_field(tys, heap, r, name, v) is Ok,
{
}

/// A write through a handle leaves the handle as it is and changes the
/// object, so every holder of the same handle reads what was written.
pub proof fn law_handles_alias(
    tys: Seq<StructView>,
    heap: Seq<ObjectView>,
    handle: u64,
    name: Seq<u8>,
    v: ValueView,
)
    requires
        registry_wf(tys),
        heap_wf(tys, heap),
        set_field(tys, heap, RefView::Gc { handle }, name, v) is Ok,
    ensures
        ({
            let (r2, heap2) = set_field(tys, heap, RefView::Gc { handle }, name, v)->Ok_0;
            &&& r2 == RefView::Gc { handle }
            &&& get_field(
                tys,
                heap2,
                RefView::Gc { handle },
                name,
                kind_of(type_of(tys, heap, v)->Some_0),
            ) == Ok::<ValueView, Error>(v)
        }),
{
    law_get_after_set(tys, heap, RefView::Gc { handle }, name, v);
}

/// A write through an inline copy changes that copy and nothing else: the
/// collector stays as it was, so whatever is read through any other
/// reference, another copy of the same struct included, is what it was.
pub proof fn law_copies_are_independent(
    tys: Seq<StructView>,
    heap: Seq<ObjectView>,
    ty: usize,
    bytes: Seq<u8>,
    name: Seq<u8>,
    v: ValueView,
    other: RefView,
    other_name: Seq<u8>,
    kind: NativeKind,
)
    requires
        set_field(tys, heap, RefView::Value { ty, bytes }, name, v) is Ok,
    ensures
        ({
            let (r2, heap2) = set_field(tys, heap, RefView::Value { ty, bytes }, name, v)->Ok_0;
            &&& heap2 == heap
            &&& get_field(tys, heap2, other, other_name, kind) == get_field(
                tys,
                heap,
                other,
                other_name,
                kind,
            )
        }),
{
}

/// Reading a field of a value struct type gives an inline copy of the
/// field's bytes; reading a field of a collector struct type gives the
/// handle that the field holds, not a copy of the object.
pub proof fn law_get_copies_values_and_shares_objects(
    tys: Seq<StructView>,
    heap: Seq<ObjectView>,
    r: RefView,
    name: Seq<u8>,
)
    requires
        get_field(tys, heap, r, name, NativeKind::Struct) is Ok,
    ensures
        ({
            let f = field_of(tys, heap, r, name)->Ok_0;
            let part = slice_at(ref_bytes(heap, r), f.offset as int, slot_size(tys, f.ty) as int);
            let got = get_field(tys, heap, r, name, NativeKind::Struct)->Ok_0;
            let handle = vstd::bytes::spec_u64_from_le_bytes(part);
            &&& f.ty is Struct
            &&& tys[f.ty->Struct_0 as int].storage == Storage::Value ==> got == ValueView::Struct(
                RefView::Value { ty: f.ty->Struct_0, bytes: part },
            )
            &&& tys[f.ty->Struct_0 as int].storage == Storage::Gc ==> got == ValueView::Struct(
                RefView::Gc { handle },
            ) && live(heap, handle)
        }),
{
}

/// A write to one field leaves every other field of the same instance as it
/// was: fields do not overlap.
pub proof fn law_set_leaves_other_fields(
    tys: Seq<StructView>,
    heap: Seq<ObjectView>,
    r: RefView,
    name: Seq<u8>,
    v: ValueView,
    other: Seq<u8>,
    kind: NativeKind,
)
    requires
        registry_wf(tys),
        heap_wf(tys, heap),
        set_field(tys, heap, r, name, v) is Ok,
        other != name,
    ensures
        ({
            let (r2, heap2) = set_field(tys, heap, r, name, v)->Ok_0;
            get_field(tys, heap2, r2, other, kind) == get_field(tys, heap, r, other, kind)
        }),
{
    let f = field_of(tys, heap, r, name)->Ok_0;
    let ty = ref_type(tys, heap, r)->Some_0 as int;
    let (r2, heap2) = set_field(tys, heap, r, name, v)->Ok_0;
    let j = field_position(tys[ty], name)->Some_0;
    lemma_position_of(field_names(tys[ty]), name);
    assert(layout_wf(tys, tys[ty], ty));
    assert(field_fits(tys, tys[ty], ty, j));
    lemma_encode_len(tys, heap, v);
    lemma_write_through_wf(tys, heap, r, f.offset as int, encode(v));
    match field_position(tys[ty], other) {
        None => {},
        Some(k) => {
            lemma_position_of(field_names(tys[ty]), other);
            let g = tys[ty].fields[k];
            assert(field_fits(tys, tys[ty], ty, k));
            if j < k {
                assert(fields_apart(tys, tys[ty], j, k));
            } else {
                assert(fields_apart(tys, tys[ty], k, j));
            }
            lemma_slice_apart(
                ref_bytes(heap, r),
                f.offset as int,
                encode(v),
                g.offset as int,
                slot_size(tys, g.ty) as int,
            );
            let part = slice_at(ref_bytes(heap, r), g.offset as int, slot_size(tys, g.ty) as int);
            assert(decode(tys, heap2, g.ty, part) == decode(tys, heap, g.ty, part)) by {
                match g.ty {
                    TypeId::Struct(i) => {
                        let h = vstd::bytes::spec_u64_from_le_bytes(part);
                        if live(heap, h) {
                            assert(heap2[h - 1].ty == heap[h - 1].ty);
                        }
                    },
                    _ => {},
                }
            }
        },
    }
}

/// Reloading the artifact that is loaded changes nothing: registry, dispatch
/// table and collector are afterwards what they were, so every exported
/// function is planned and answered as before.
pub proof fn law_reload_of_same_artifact_changes_nothing(s: StateView, a: ArtifactView)
    requires
        state_wf(s),
        serves(s, a),
    ensures
        reloaded(s, a) == Ok::<StateView, Error>(s),
{
    let entries = rebase_entries(a.functions, s.base);
    assert(entry_names(entries) =~= entry_names(a.functions));
    assert(names_ok(a));
    assert forall|j: int|
        0 <= j < entries.len() && s.dispatch.contains_key(
            (#[trigger] entries[j]).signature.name,
        ) implies compatible(
        s.types,
        s.dispatch[entries[j].signature.name].signature,
        entries[j].signature,
    ) by {
        lemma_table_map_entry(entries, j);
        let sig = entries[j].signature;
        assert forall|i: int| 0 <= i < sig.params.len() implies same_named(
            s.types,
            #[trigger] sig.params[i],
            sig.params[i],
        ) by {}
    }
    assert(signatures_kept(s.types, s.dispatch, entries));
    let out = StateView {
        types: s.types,
        base: s.base,
        dispatch: table_map(entries),
        heap: s.heap,
    };
    assert(out == s);
}

/// A reload that succeeds leaves a state that satisfies the invariant.
pub proof fn law_reload_keeps_invariant(s: StateView, a: ArtifactView)
    requires
        state_wf(s),
        reloaded(s, a) is Ok,
    ensures
        state_wf(reloaded(s, a)->Ok_0),
        serves(reloaded(s, a)->Ok_0, a),
{
    let s2 = reloaded(s, a)->Ok_0;
    let same = unchanged(s.types, s.base, a.structs);
    let entries = rebase_entries(a.functions, s2.base);
    assert(shape_ok(a));
    if same {
        assert(rebase_structs(a.structs, s.base).len() == a.structs.len());
        assert(s.types.subrange(s.base, s.types.len() as int).len() == s.types.len() - s.base);
    } else {
        lemma_publish_wf(s.types, a.structs);
        assert(s2.types.subrange(s2.base, s2.types.len() as int) =~= rebase_structs(
            a.structs,
            s2.base,
        ));
        assert forall|i: int| 0 <= i < s.heap.len() implies (#[trigger] s.heap[i]).ty
            < s2.types.len() && s2.types[s.heap[i].ty as int].storage == Storage::Gc
            && s.heap[i].bytes.len() == s2.types[s.heap[i].ty as int].size by {
            assert(s2.types[s.heap[i].ty as int] == s.types[s.heap[i].ty as int]);
        }
        lemma_migrate_heap_wf(s2.types, s.base, s2.base, s.heap);
    }
    assert forall|n: Seq<u8>| #[trigger] s2.dispatch.contains_key(n) implies signature_known(
        s2.types,
        s2.dispatch[n].signature,
    ) && valid_utf8(n) && s2.dispatch[n].signature.name == n by {
        lemma_table_map_names(entries, n);
        let e = s2.dispatch[n];
        let j = choose|j: int| 0 <= j < entries.len() && entries[j] == e;
        lemma_rebase_signature_known(s2.types, s2.base, a.structs, a.functions[j]);
        assert(entry_names(a.functions)[j] == n);
    }
    lemma_rebased_text(s.types, s2.types, a.structs);
}

/// A live instance outlives a reload with its primitive fields intact: if a
/// field that could be read before the reload is still declared for the
/// instance afterwards, it reads as it did. (Had the field been retyped,
/// the reload would have been refused.)
pub proof fn law_reload_keeps_field_values(
    s: StateView,
    a: ArtifactView,
    handle: u64,
    name: Seq<u8>,
    kind: NativeKind,
)
    requires
        state_wf(s),
        reloaded(s, a) is Ok,
        kind != NativeKind::Struct,
        get_field(s.types, s.heap, RefView::Gc { handle }, name, kind) is Ok,
        field_of(
            reloaded(s, a)->Ok_0.types,
            reloaded(s, a)->Ok_0.heap,
            RefView::Gc { handle },
            name,
        ) is Ok,
    ensures
        get_field(
            reloaded(s, a)->Ok_0.types,
            reloaded(s, a)->Ok_0.heap,
            RefView::Gc { handle },
            name,
            kind,
        ) == get_field(s.types, s.heap, RefView::Gc { handle }, name, kind),
{
    let s2 = reloaded(s, a)->Ok_0;
    let r = RefView::Gc { handle };
    let same = unchanged(s.types, s.base, a.structs);
    if !same {
        law_reload_keeps_invariant(s, a);
        let i = handle - 1;
        let o = s.heap[i];
        lemma_migrate_heap_index(s2.types, s.base, s2.base, s.heap, i);
        let o2 = s2.heap[i];
        assert(s2.types[o.ty as int] == s.types[o.ty as int]);
        let from = o.ty as int;
        let p = field_position(s.types[from], name)->Some_0;
        lemma_position_of(field_names(s.types[from]), name);
        let g = s.types[from].fields[p];
        assert(layout_wf(s.types, s.types[from], from));
        assert(field_fits(s.types, s.types[from], from, p));
        if o2 != o {
            let to = o2.ty as int;
            let j = field_position(s2.types[to], name)->Some_0;
            lemma_position_of(field_names(s2.types[to]), name);
            let f = s2.types[to].fields[j];
            lemma_migrate_fields_slice(
                s2.types,
                from,
                to,
                o.bytes,
                s2.types[to].fields.len(),
                j,
            );
        }
    }
}

/// An instance whose struct is declared anew with a field retyped from one
/// primitive to another cannot be migrated, so a reload that finds such an
/// instance alive is refused.
pub proof fn law_retyped_field_refuses_migration(
    tys: Seq<StructView>,
    old_base: int,
    new_base: int,
    heap: Seq<ObjectView>,
    i: int,
    to: usize,
    j: int,
)
    requires
        registry_wf(tys),
        0 <= i < heap.len(),
        old_base <= heap[i].ty < tys.len(),
        to < tys.len(),
        heap[i].bytes.len() == tys[heap[i].ty as int].size,
        described(tys, new_base, tys[heap[i].ty as int].name) == Some(TypeId::Struct(to)),
        0 <= j < tys[to as int].fields.len(),
        field_position(tys[heap[i].ty as int], tys[to as int].fields[j].name) matches Some(p)
            && tys[heap[i].ty as int].fields[p].ty is Primitive && tys[to as int].fields[j].ty
            is Primitive && tys[heap[i].ty as int].fields[p].ty != tys[to as int].fields[j].ty,
    ensures
        migrate_object(tys, old_base, new_base, heap[i]) is Err,
        migrate_heap(tys, old_base, new_base, heap) is Err,
{
    let o = heap[i];
    let from = o.ty as int;
    if migrate(tys, from, to as int, o.bytes) is Some {
        lemma_migrate_fields_slice(tys, from, to as int, o.bytes, tys[to as int].fields.len(), j);
    }
    if migrate_heap(tys, old_base, new_base, heap) is Ok {
        lemma_migrate_heap_index(tys, old_base, new_base, heap, i);
    }
}

/// A field that only the new layout has starts out as zero bytes in a
/// migrated instance.
pub proof fn law_new_field_is_zeroed(
    tys: Seq<StructView>,
    from: int,
    to: int,
    bytes: Seq<u8>,
    j: int,
)
    requires
        registry_wf(tys),
        0 <= from < tys.len(),
        0 <= to < tys.len(),
        bytes.len() == tys[from].size,
        0 <= j < tys[to].fields.len(),
        field_position(tys[from], tys[to].fields[j].name) is None,
        migrate(tys, from, to, bytes) is Some,
    ensures
        slice_at(
            migrate(tys, from, to, bytes)->Some_0,
            tys[to].fields[j].offset as int,
            slot_size(tys, tys[to].fields[j].ty) as int,
        ) == zeros(slot_size(tys, tys[to].fields[j].ty)),
{
    lemma_migrate_fields_slice(tys, from, to, bytes, tys[to].fields.len(), j);
}

/// A reload keeps every handle: the collector holds as many objects
/// afterwards as before, so a handle that referred to an object still does.
pub proof fn law_reload_keeps_handles(s: StateView, a: ArtifactView, handle: u64)
    requires
        reloaded(s, a) is Ok,
    ensures
        reloaded(s, a)->Ok_0.heap.len() == s.heap.len(),
        live(reloaded(s, a)->Ok_0.heap, handle) == live(s.heap, handle),
{
    if !unchanged(s.types, s.base, a.structs) {
        let s2 = reloaded(s, a)->Ok_0;
        lemma_migrate_heap_len(s2.types, s.base, s2.base, s.heap);
    }
}

} // verus!
