//! The reload protocol: when a new artifact may take the place of the one
//! that is loaded, and what the runtime looks like afterwards.
//!
//! The policy for a layout that cannot be migrated is to refuse the whole
//! reload: the artifact that was loaded stays in force, untouched.

use vstd::prelude::*;
use crate::artifact::{
    load_error, rebase_entries, rebase_field, rebase_struct, rebase_structs, signature_known,
    ArtifactView,
};
use crate::dispatch::{
    entry_views, table_map, DispatchEntry, DispatchTable, EntryView, FunctionSignature,
    SignatureView,
};
use crate::error::{Error, LoadError};
use crate::link::fields_within;
use crate::memory::ObjectView;
use crate::migrate::migrate_heap;
use crate::names::bytes_eq;
use crate::types::{
    known, struct_views, FieldDescriptor, StructDescriptor, StructView, TypeId, TypeTable,
};

verus! {

/// Where the reload controller stands.
#[derive(Clone, Copy, Debug, PartialEq, Eq, Structural)]
pub enum ReloadState {
    /// Nothing is going on.
    Idle,
    /// The source changed and the compiler is at work, outside the runtime.
    Compiling,
    /// A new artifact is at hand and waits for the host's next poll.
    ArtifactReady,
    /// The artifact at hand is being put in place.
    Migrating,
}

/// What the controller is told.
#[derive(Clone, Copy, Debug, PartialEq, Eq, Structural)]
pub enum ReloadEvent {
    /// The source text changed.
    SourceChanged,
    /// A freshly compiled artifact was written.
    ArtifactWritten,
    /// The host polls.
    Poll,
    /// The artifact at hand is in place.
    Migrated,
    /// The artifact at hand was refused.
    Refused,
}

/// What the controller asks for in answer.
#[derive(Clone, Copy, Debug, PartialEq, Eq, Structural)]
pub enum ReloadAction {
    /// Nothing to do.
    Wait,
    /// Put the artifact at hand in place.
    Migrate,
}

/// The state after `event`. Only a poll that finds an artifact at hand
/// starts a migration, and only the end of the migration leads back to idle.
pub open spec fn next_state(state: ReloadState, event: ReloadEvent) -> ReloadState {
    match (state, event) {
        (ReloadState::Idle, ReloadEvent::SourceChanged) => ReloadState::Compiling,
        (ReloadState::Idle, ReloadEvent::ArtifactWritten) => ReloadState::ArtifactReady,
        (ReloadState::Compiling, ReloadEvent::ArtifactWritten) => ReloadState::ArtifactReady,
        (ReloadState::ArtifactReady, ReloadEvent::Poll) => ReloadState::Migrating,
        (ReloadState::Migrating, ReloadEvent::Migrated) => ReloadState::Idle,
        (ReloadState::Migrating, ReloadEvent::Refused) => ReloadState::Idle,
        _ => state,
    }
}

/// What `event` asks for in `state`.
pub open spec fn action_for(state: ReloadState, event: ReloadEvent) -> ReloadAction {
    if state == ReloadState::ArtifactReady && event == ReloadEvent::Poll {
        ReloadAction::Migrate
    } else {
        ReloadAction::Wait
    }
}

impl ReloadState {
    /// Takes `event` in: the next state, and what is to be done.
    pub fn step(self, event: ReloadEvent) -> (out: (ReloadState, ReloadAction))
        ensures
            out.0 == next_state(self, event),
            out.1 == action_for(self, event),
    {
        match (self, event) {
            (ReloadState::Idle, ReloadEvent::SourceChanged) => (
                ReloadState::Compiling,
                ReloadAction::Wait,
            ),
            (ReloadState::Idle, ReloadEvent::ArtifactWritten) => (
                ReloadState::ArtifactReady,
                ReloadAction::Wait,
            ),
            (ReloadState::Compiling, ReloadEvent::ArtifactWritten) => (
                ReloadState::ArtifactReady,
                ReloadAction::Wait,
            ),
            (ReloadState::ArtifactReady, ReloadEvent::Poll) => (
                ReloadState::Migrating,
                ReloadAction::Migrate,
            ),
            (ReloadState::Migrating, ReloadEvent::Migrated) => (
                ReloadState::Idle,
                ReloadAction::Wait,
            ),
            (ReloadState::Migrating, ReloadEvent::Refused) => (
                ReloadState::Idle,
                ReloadAction::Wait,
            ),
            _ => (self, ReloadAction::Wait),
        }
    }
}

/// Two types go by the same name: the same primitive, or structs of one
/// name.
pub open spec fn same_named(tys: Seq<StructView>, a: TypeId, b: TypeId) -> bool {
    match (a, b) {
        (TypeId::Primitive(x), TypeId::Primitive(y)) => x == y,
        (TypeId::Struct(i), TypeId::Struct(j)) => tys[i as int].name == tys[j as int].name,
        _ => false,
    }
}

/// Signature `new` can stand in for `old`: as many parameters, and the
/// parameter and return types go by the same names.
pub open spec fn compatible(tys: Seq<StructView>, old: SignatureView, new: SignatureView) -> bool {
    &&& old.params.len() == new.params.len()
    &&& same_named(tys, old.ret, new.ret)
    &&& forall|i: int|
        0 <= i < old.params.len() ==> same_named(tys, #[trigger] old.params[i], new.params[i])
}

/// Every function of `entries` whose name `table` already exports keeps a
/// compatible signature.
pub open spec fn signatures_kept(
    tys: Seq<StructView>,
    table: Map<Seq<u8>, EntryView>,
    entries: Seq<EntryView>,
) -> bool {
    forall|j: int|
        0 <= j < entries.len() && table.contains_key((#[trigger] entries[j]).signature.name)
            ==> compatible(tys, table[entries[j].signature.name].signature, entries[j].signature)
}

/// Every signature that `table` exports names known types only.
pub open spec fn table_known(tys: Seq<StructView>, table: Map<Seq<u8>, EntryView>) -> bool {
    forall|n: Seq<u8>| #[trigger] table.contains_key(n) ==> signature_known(tys, table[n].signature)
}

/// The structs of an artifact are those that stand in the registry from
/// `base` on: nothing about the types changed.
pub open spec fn unchanged(tys: Seq<StructView>, base: int, structs: Seq<StructView>) -> bool {
    rebase_structs(structs, base) == tys.subrange(base, tys.len() as int)
}

/// What a reload swaps: the registry with the start of its current structs,
/// the dispatch table and the collector.
pub ghost struct StateView {
    pub types: Seq<StructView>,
    pub base: int,
    pub dispatch: Map<Seq<u8>, EntryView>,
    pub heap: Seq<ObjectView>,
}

/// The state once artifact `a` has taken the place of the one that state `s`
/// serves, or why it cannot. The artifact must pass the checks of loading.
/// If its structs are the current ones, registry and collector stay as they
/// are; else its structs are published, if the registry can still number
/// them, and every live object is migrated. Every function that is kept
/// must keep a compatible signature. The dispatch table becomes that of the
/// new artifact, so functions it does not export are gone.
pub open spec fn reloaded(s: StateView, a: ArtifactView) -> Result<StateView, Error> {
    match load_error(a) {
        Some(e) => Err(Error::Load(e)),
        None => {
            let same = unchanged(s.types, s.base, a.structs);
            if !same && s.types.len() + a.structs.len() > usize::MAX {
                Err(Error::Load(LoadError::TooLarge))
            } else {
                let types = if same {
                    s.types
                } else {
                    s.types + rebase_structs(a.structs, s.types.len() as int)
                };
                let base = if same {
                    s.base
                } else {
                    s.types.len() as int
                };
                let entries = rebase_entries(a.functions, base);
                if !signatures_kept(types, s.dispatch, entries) {
                    Err(Error::IncompatibleReload)
                } else {
                    let migrated = if same {
                        Ok(s.heap)
                    } else {
                        migrate_heap(types, s.base, base, s.heap)
                    };
                    match migrated {
                        Err(e) => Err(e),
                        Ok(heap) => Ok(
                            StateView { types, base, dispatch: table_map(entries), heap },
                        ),
                    }
                }
            }
        },
    }
}

/// Whether two known types go by the same name.
fn types_same_named(table: &TypeTable, a: TypeId, b: TypeId) -> (yes: bool)
    requires
        known(table@, a),
        known(table@, b),
    ensures
        yes == same_named(table@, a, b),
{
    match (a, b) {
        (TypeId::Primitive(x), TypeId::Primitive(y)) => x == y,
        (TypeId::Struct(i), TypeId::Struct(j)) => {
            assert(table.structs[i as int]@ == table@[i as int]);
            assert(table.structs[j as int]@ == table@[j as int]);
            bytes_eq(table.structs[i].name.as_slice(), table.structs[j].name.as_slice())
        },
        _ => false,
    }
}

/// Whether signature `new` can stand in for `old`.
pub fn signature_compatible(table: &TypeTable, old: &FunctionSignature, new: &FunctionSignature) -> (yes:
    bool)
    requires
        signature_known(table@, old@),
        signature_known(table@, new@),
    ensures
        yes == compatible(table@, old@, new@),
{
    if old.params.len() != new.params.len() {
        return false;
    }
    if !types_same_named(table, old.ret, new.ret) {
        return false;
    }
    let mut i: usize = 0;
    while i < old.params.len()
        invariant
            i <= old.params.len(),
            old.params.len() == new.params.len(),
            signature_known(table@, old@),
            signature_known(table@, new@),
            forall|k: int|
                0 <= k < i ==> same_named(table@, #[trigger] old@.params[k], new@.params[k]),
        decreases old.params.len() - i,
    {
        assert(known(table@, old@.params[i as int]));
        assert(known(table@, new@.params[i as int]));
        if !types_same_named(table, old.params[i], new.params[i]) {
            assert(!same_named(table@, old@.params[i as int], new@.params[i as int]));
            return false;
        }
        i += 1;
    }
    true
}

/// Whether every function of `entries` that `dispatch` already exports keeps
/// a compatible signature.
pub fn signatures_are_kept(
    table: &TypeTable,
    dispatch: &DispatchTable,
    entries: &Vec<DispatchEntry>,
) -> (yes: bool)
    requires
        table_known(table@, dispatch@),
        forall|j: int|
            0 <= j < entries@.len() ==> signature_known(
                table@,
                (#[trigger] entry_views(entries@)[j]).signature,
            ),
    ensures
        yes == signatures_kept(table@, dispatch@, entry_views(entries@)),
{
    let ghost views = entry_views(entries@);
    let mut j: usize = 0;
    while j < entries.len()
        invariant
            j <= entries.len(),
            views == entry_views(entries@),
            table_known(table@, dispatch@),
            forall|k: int|
                0 <= k < entries@.len() ==> signature_known(table@, (#[trigger] views[k]).signature),
            forall|k: int|
                0 <= k < j && dispatch@.contains_key((#[trigger] views[k]).signature.name)
                    ==> compatible(
                    table@,
                    dispatch@[views[k].signature.name].signature,
                    views[k].signature,
                ),
        decreases entries.len() - j,
    {
        let e = &entries[j];
        assert(views[j as int] == e@);
        match dispatch.resolve(e.signature.name.as_slice()) {
            None => {},
            Some(before) => {
                assert(dispatch@.contains_key(e@.signature.name));
                if !signature_compatible(table, &before.signature, &e.signature) {
                    return false;
                }
            },
        }
        j += 1;
    }
    true
}

/// Whether field `f` of an artifact is field `g` of the registry, once the
/// artifact's structs stand there from `base` on.
fn field_matches(f: &FieldDescriptor, g: &FieldDescriptor, base: usize, count: usize) -> (yes: bool)
    requires
        base + count <= usize::MAX,
        f.ty matches TypeId::Struct(i) ==> i < count,
    ensures
        yes == (rebase_field(f@, base as int) == g@),
{
    if !bytes_eq(f.name.as_slice(), g.name.as_slice()) {
        return false;
    }
    if f.offset != g.offset {
        return false;
    }
    match (f.ty, g.ty) {
        (TypeId::Primitive(x), TypeId::Primitive(y)) => x == y,
        (TypeId::Struct(i), TypeId::Struct(m)) => base + i == m,
        _ => false,
    }
}

/// Whether struct `d` of an artifact is struct `r` of the registry, once the
/// artifact's structs stand there from `base` on.
fn struct_matches(d: &StructDescriptor, r: &StructDescriptor, base: usize, count: usize) -> (yes:
    bool)
    requires
        base + count <= usize::MAX,
        fields_within(d@, count as int),
    ensures
        yes == (rebase_struct(d@, base as int) == r@),
{
    let ghost want = rebase_struct(d@, base as int);
    if !bytes_eq(d.name.as_slice(), r.name.as_slice()) {
        return false;
    }
    if d.storage != r.storage || d.size != r.size {
        return false;
    }
    if d.fields.len() != r.fields.len() {
        assert(want.fields.len() != r@.fields.len());
        return false;
    }
    let mut j: usize = 0;
    while j < d.fields.len()
        invariant
            j <= d.fields.len(),
            d.fields.len() == r.fields.len(),
            base + count <= usize::MAX,
            fields_within(d@, count as int),
            want == rebase_struct(d@, base as int),
            forall|k: int| 0 <= k < j ==> #[trigger] want.fields[k] == r@.fields[k],
        decreases d.fields.len() - j,
    {
        assert(d@.fields[j as int] == d.fields@[j as int]@);
        assert(r@.fields[j as int] == r.fields@[j as int]@);
        if !field_matches(&d.fields[j], &r.fields[j], base, count) {
            assert(want.fields[j as int] != r@.fields[j as int]);
            return false;
        }
        j += 1;
    }
    assert(want.fields =~= r@.fields);
    true
}

/// Whether the structs of an artifact are those that the registry holds as
/// the current ones.
pub fn types_unchanged(table: &TypeTable, structs: &Vec<StructDescriptor>) -> (yes: bool)
    requires
        table.base <= table@.len(),
        forall|i: int|
            0 <= i < structs@.len() ==> fields_within(
                #[trigger] struct_views(structs@)[i],
                structs@.len() as int,
            ),
    ensures
        yes == unchanged(table@, table.base as int, struct_views(structs@)),
{
    let base = table.base;
    let count = structs.len();
    let ghost decls = struct_views(structs@);
    let ghost want = rebase_structs(decls, base as int);
    let ghost have = table@.subrange(base as int, table@.len() as int);
    let total = table.structs.len();
    if total - base != count {
        assert(want.len() != have.len());
        return false;
    }
    let mut i: usize = 0;
    while i < count
        invariant
            i <= count,
            count == structs.len(),
            base == table.base,
            total == table.structs.len(),
            base + count == total,
            decls == struct_views(structs@),
            want == rebase_structs(decls, base as int),
            have == table@.subrange(base as int, table@.len() as int),
            forall|k: int| 0 <= k < decls.len() ==> fields_within(#[trigger] decls[k], count as int),
            forall|k: int| 0 <= k < i ==> #[trigger] want[k] == have[k],
        decreases count - i,
    {
        assert(decls[i as int] == structs@[i as int]@);
        assert(have[i as int] == table.structs@[base + i]@);
        if !struct_matches(&structs[i], &table.structs[base + i], base, count) {
            assert(want[i as int] != have[i as int]);
            return false;
        }
        i += 1;
    }
    assert(want =~= have);
    true
}

} // verus!
