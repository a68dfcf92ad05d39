//! Linking: publishing the structs of a checked artifact in the registry
//! and resolving its functions against them.

use vstd::prelude::*;
use crate::artifact::{
    rebase_entries, rebase_entry, rebase_field, rebase_struct, rebase_structs, rebase_type,
    signature_known,
};
use crate::dispatch::{entry_names, entry_views, DispatchEntry, EntryView, FunctionSignature};
use crate::names::{copy_bytes, distinct};
use crate::types::{
    field_fits, field_names, fields_apart, known, layout_wf, lemma_layout_wf_extends,
    registry_wf, slot_size, struct_names, struct_views, FieldDescriptor, StructDescriptor,
    StructView, TypeId, TypeTable,
};

verus! {

/// Every field of `s` is of a primitive type or of one of the first `count`
/// structs.
pub open spec fn fields_within(s: StructView, count: int) -> bool {
    forall|j: int|
        0 <= j < s.fields.len() ==> ((#[trigger] s.fields[j]).ty matches TypeId::Struct(i) ==> i
            < count)
}

/// Every type of the entry's signature is a primitive or one of the first
/// `count` structs.
pub open spec fn entry_within(e: EntryView, count: int) -> bool {
    &&& e.signature.ret matches TypeId::Struct(i) ==> i < count
    &&& forall|j: int|
        0 <= j < e.signature.params.len() ==> ((#[trigger] e.signature.params[j]) matches TypeId::Struct(
            i,
        ) ==> i < count)
}

/// A struct that is well formed among the structs of its artifact is well
/// formed in the registry once all of them are published from `base` on.
pub proof fn lemma_rebase_layout_wf(
    before: Seq<StructView>,
    structs: Seq<StructView>,
    own: int,
)
    requires
        0 <= own < structs.len(),
        layout_wf(structs, structs[own], own),
        before.len() + structs.len() <= usize::MAX,
    ensures
        layout_wf(
            before + rebase_structs(structs, before.len() as int),
            rebase_struct(structs[own], before.len() as int),
            before.len() + own,
        ),
{
    let base = before.len() as int;
    let after = before + rebase_structs(structs, base);
    let s = structs[own];
    let r = rebase_struct(s, base);
    assert forall|j: int| 0 <= j < r.fields.len() implies slot_size(after, r.fields[j].ty)
        == slot_size(structs, s.fields[j].ty) && #[trigger] field_fits(after, r, base + own, j) by {
        assert(field_fits(structs, s, own, j));
        match s.fields[j].ty {
            TypeId::Primitive(p) => {},
            TypeId::Struct(i) => {
                assert(after[base + i] == rebase_struct(structs[i as int], base));
            },
        }
    }
    assert(field_names(r) =~= field_names(s));
    assert forall|j: int, k: int| 0 <= j < k < r.fields.len() implies #[trigger] fields_apart(
        after,
        r,
        j,
        k,
    ) by {
        assert(fields_apart(structs, s, j, k));
        assert(field_fits(after, r, base + own, j));
        assert(field_fits(after, r, base + own, k));
    }
}

/// Publishing well-formed structs in a well-formed registry leaves a
/// well-formed registry, whose last structs go by the names of the
/// published ones.
pub proof fn lemma_publish_wf(before: Seq<StructView>, decls: Seq<StructView>)
    requires
        registry_wf(before),
        forall|i: int| 0 <= i < decls.len() ==> #[trigger] layout_wf(decls, decls[i], i),
        before.len() + decls.len() <= usize::MAX,
    ensures
        registry_wf(before + rebase_structs(decls, before.len() as int)),
        struct_names(before + rebase_structs(decls, before.len() as int)).subrange(
            before.len() as int,
            (before.len() + decls.len()) as int,
        ) == struct_names(decls),
{
    let base = before.len() as int;
    let after = before + rebase_structs(decls, base);
    assert forall|k: int| 0 <= k < after.len() implies #[trigger] layout_wf(after, after[k], k) by {
        if k < base {
            assert(layout_wf(before, before[k], k));
            lemma_layout_wf_extends(before, after, before[k], k);
        } else {
            lemma_rebase_layout_wf(before, decls, k - base);
        }
    }
    assert(struct_names(after).subrange(base, after.len() as int) =~= struct_names(decls));
}

/// The type `ty` of an artifact as it is called from `base` on.
fn rebased_type(ty: TypeId, base: usize) -> (out: TypeId)
    requires
        ty matches TypeId::Struct(i) ==> base + i <= usize::MAX,
    ensures
        out == rebase_type(ty, base as int),
{
    match ty {
        TypeId::Primitive(p) => ty,
        TypeId::Struct(i) => TypeId::Struct(base + i),
    }
}

/// A copy of `d` with every struct type moved up by `base`.
pub fn rebased_struct(d: &StructDescriptor, base: usize, count: usize) -> (out: StructDescriptor)
    requires
        base + count <= usize::MAX,
        fields_within(d@, count as int),
    ensures
        out@ == rebase_struct(d@, base as int),
{
    let mut fields: Vec<FieldDescriptor> = Vec::new();
    let mut j: usize = 0;
    while j < d.fields.len()
        invariant
            j <= d.fields.len(),
            fields.len() == j,
            base + count <= usize::MAX,
            fields_within(d@, count as int),
            forall|k: int|
                0 <= k < j ==> (#[trigger] fields@[k])@ == rebase_field(d@.fields[k], base as int),
        decreases d.fields.len() - j,
    {
        let f = &d.fields[j];
        assert(d@.fields[j as int] == f@);
        fields.push(
            FieldDescriptor {
                name: copy_bytes(f.name.as_slice()),
                ty: rebased_type(f.ty, base),
                offset: f.offset,
            },
        );
        j += 1;
    }
    let out = StructDescriptor {
        name: copy_bytes(d.name.as_slice()),
        storage: d.storage,
        size: d.size,
        fields,
    };
    assert(out@.fields =~= rebase_struct(d@, base as int).fields);
    out
}

/// A copy of `e` with every struct type of its signature moved up by `base`.
pub fn rebased_entry(e: &DispatchEntry, base: usize, count: usize) -> (out: DispatchEntry)
    requires
        base + count <= usize::MAX,
        entry_within(e@, count as int),
    ensures
        out@ == rebase_entry(e@, base as int),
{
    let mut params: Vec<TypeId> = Vec::new();
    let mut j: usize = 0;
    while j < e.signature.params.len()
        invariant
            j <= e.signature.params.len(),
            params.len() == j,
            base + count <= usize::MAX,
            entry_within(e@, count as int),
            forall|k: int|
                0 <= k < j ==> #[trigger] params@[k] == rebase_type(
                    e@.signature.params[k],
                    base as int,
                ),
        decreases e.signature.params.len() - j,
    {
        assert(e@.signature.params[j as int] == e.signature.params@[j as int]);
        params.push(rebased_type(e.signature.params[j], base));
        j += 1;
    }
    let out = DispatchEntry {
        signature: FunctionSignature {
            name: copy_bytes(e.signature.name.as_slice()),
            params,
            ret: rebased_type(e.signature.ret, base),
        },
        address: e.address,
    };
    assert(out@.signature.params =~= rebase_entry(e@, base as int).signature.params);
    out
}

/// Copies of the functions of an artifact, resolved against its structs as
/// they stand in the registry from `base` on.
pub fn rebased_entries(functions: &Vec<DispatchEntry>, base: usize, count: usize) -> (entries: Vec<
    DispatchEntry,
>)
    requires
        base + count <= usize::MAX,
        forall|j: int|
            0 <= j < functions@.len() ==> entry_within(
                #[trigger] entry_views(functions@)[j],
                count as int,
            ),
    ensures
        entry_views(entries@) == rebase_entries(entry_views(functions@), base as int),
        entry_names(entry_views(entries@)) == entry_names(entry_views(functions@)),
{
    let ghost views = entry_views(functions@);
    let mut entries: Vec<DispatchEntry> = Vec::new();
    let mut j: usize = 0;
    while j < functions.len()
        invariant
            j <= functions.len(),
            entries.len() == j,
            base + count <= usize::MAX,
            views == entry_views(functions@),
            forall|k: int|
                0 <= k < functions@.len() ==> entry_within(#[trigger] views[k], count as int),
            forall|k: int|
                0 <= k < j ==> (#[trigger] entries@[k])@ == rebase_entry(views[k], base as int),
        decreases functions.len() - j,
    {
        assert(views[j as int] == functions@[j as int]@);
        entries.push(rebased_entry(&functions[j], base, count));
        j += 1;
    }
    proof {
        assert(entry_views(entries@) =~= rebase_entries(views, base as int));
        assert(entry_names(rebase_entries(views, base as int)) =~= entry_names(views));
    }
    entries
}

/// Every type of a known signature lies within the artifact's structs.
pub proof fn lemma_known_within(structs: Seq<StructView>, e: EntryView)
    requires
        signature_known(structs, e.signature),
    ensures
        entry_within(e, structs.len() as int),
{
    assert forall|j: int| 0 <= j < e.signature.params.len() implies ((
    #[trigger] e.signature.params[j]) matches TypeId::Struct(i) ==> i < structs.len()) by {
        assert(known(structs, e.signature.params[j]));
    }
}

/// A signature that is known in its artifact is known in the registry once
/// the artifact's structs stand there from `base` on.
pub proof fn lemma_rebase_signature_known(
    tys: Seq<StructView>,
    base: int,
    structs: Seq<StructView>,
    e: EntryView,
)
    requires
        0 <= base,
        base + structs.len() <= tys.len() <= usize::MAX,
        signature_known(structs, e.signature),
    ensures
        signature_known(tys, rebase_entry(e, base).signature),
{
    let r = rebase_entry(e, base).signature;
    assert forall|j: int| 0 <= j < r.params.len() implies known(tys, #[trigger] r.params[j]) by {
        assert(known(structs, e.signature.params[j]));
    }
}

impl TypeTable {
    /// Publishes the structs of an artifact, in order, after those that the
    /// registry already holds, and makes them the current ones. Nothing is
    /// published when the registry cannot number that many structs.
    pub fn publish(&mut self, structs: &Vec<StructDescriptor>) -> (done: bool)
        requires
            old(self).wf(),
            distinct(struct_names(struct_views(structs@))),
            forall|i: int|
                0 <= i < structs@.len() ==> #[trigger] layout_wf(
                    struct_views(structs@),
                    struct_views(structs@)[i],
                    i,
                ),
        ensures
            done == (old(self)@.len() + structs@.len() <= usize::MAX),
            done ==> final(self)@ == old(self)@ + rebase_structs(
                struct_views(structs@),
                old(self)@.len() as int,
            ) && final(self).base == old(self)@.len(),
            !done ==> *final(self) == *old(self),
            final(self).wf(),
    {
        let base = self.structs.len();
        let count = structs.len();
        if count > usize::MAX - base {
            return false;
        }
        let ghost before = self@;
        let ghost decls = struct_views(structs@);
        let mut i: usize = 0;
        while i < count
            invariant
                i <= count,
                count == structs.len(),
                base + count <= usize::MAX,
                base == before.len(),
                decls == struct_views(structs@),
                self.base == old(self).base,
                forall|k: int| 0 <= k < decls.len() ==> #[trigger] layout_wf(decls, decls[k], k),
                self@ == before + rebase_structs(decls.subrange(0, i as int), base as int),
            decreases count - i,
        {
            proof {
                assert(layout_wf(decls, decls[i as int], i as int));
                assert forall|j: int| 0 <= j < decls[i as int].fields.len() implies ((
                #[trigger] decls[i as int].fields[j]).ty matches TypeId::Struct(t) ==> t < count) by {
                    assert(field_fits(decls, decls[i as int], i as int, j));
                }
                assert(decls[i as int] == structs@[i as int]@);
            }
            let d = rebased_struct(&structs[i], base, count);
            let ghost prev = self@;
            let ghost dv = d@;
            self.structs.push(d);
            assert(self@ =~= prev.push(dv));
            i += 1;
            assert(rebase_structs(decls.subrange(0, i as int), base as int) =~= rebase_structs(
                decls.subrange(0, i - 1),
                base as int,
            ).push(dv));
            assert(self@ =~= before + rebase_structs(decls.subrange(0, i as int), base as int));
        }
        self.base = base;
        proof {
            assert(decls.subrange(0, count as int) =~= decls);
            lemma_publish_wf(before, decls);
        }
        true
    }
}

} // verus!
