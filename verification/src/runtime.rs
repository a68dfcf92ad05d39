//! The runtime: owner of the registry, the dispatch table, the collector
//! and the reload controller.

use vstd::prelude::*;
use vstd::string::StringSliceAdditionalSpecFns;
use vstd::utf8::valid_utf8;
use crate::artifact::{
    all_text, load_error, rebase_entries, rebase_structs, shape_ok, signature_known, Artifact,
    ArtifactView,
};
use crate::dispatch::{
    entry_names, entry_views, lemma_table_map_names, table_map, DispatchTable, EntryView,
    FunctionSignature,
};
use crate::error::{Error, LoadError};
use crate::invoke::{finish_call, plan_call, prepare_call, CallPlan, PlanView};
use crate::link::{
    entry_within, fields_within, lemma_known_within, lemma_rebase_signature_known,
    rebased_entries,
};
use crate::marshal::unmarshal;
use crate::memory::{
    heap_wf, value_views, zero_bytes, zeros, Heap, NativeValue, ObjectView, RefView, StructRef,
    ValueView,
};
use crate::migrate::migrate_objects;
use crate::names::distinct;
use crate::reload::{
    next_state, reloaded, signatures_are_kept, table_known, types_unchanged,
    unchanged, ReloadAction, ReloadEvent, ReloadState, StateView,
};
use crate::struct_ref::{
    get_field, get_field_in, replace_field, replace_field_in, set_field, set_field_in,
};
use crate::types::{
    described, field_fits, field_names, is_gc_struct, is_value_struct, known, layout_wf,
    registry_wf, struct_names, NativeKind, Storage, StructDescriptor, StructView, TypeId,
    TypeTable,
};

verus! {

/// The bytes of a name given as text.
pub open spec fn text(name: &str) -> Seq<u8> {
    name.spec_bytes()
}

/// Every struct name and every field name of the registry is valid
/// displayable text.
pub open spec fn registry_text(tys: Seq<StructView>) -> bool {
    forall|i: int|
        0 <= i < tys.len() ==> valid_utf8((#[trigger] tys[i]).name) && all_text(
            field_names(tys[i]),
        )
}

/// Every exported name is valid displayable text, and is the name of the
/// signature it resolves to.
pub open spec fn table_text(table: Map<Seq<u8>, EntryView>) -> bool {
    forall|n: Seq<u8>| #[trigger]
        table.contains_key(n) ==> valid_utf8(n) && table[n].signature.name == n
}

/// The invariant of what a reload swaps: the registry is well formed and its
/// current structs have distinct names; every object of the collector is an
/// instance of a collector struct; every exported signature names known
/// types; and every name is valid displayable text.
pub open spec fn state_wf(s: StateView) -> bool {
    &&& registry_wf(s.types)
    &&& 0 <= s.base <= s.types.len() <= usize::MAX
    &&& distinct(struct_names(s.types).subrange(s.base, s.types.len() as int))
    &&& heap_wf(s.types, s.heap)
    &&& table_known(s.types, s.dispatch)
    &&& registry_text(s.types)
    &&& table_text(s.dispatch)
}

/// The state before anything is loaded.
pub open spec fn empty_state() -> StateView {
    StateView {
        types: Seq::<StructView>::empty(),
        base: 0,
        dispatch: Map::<Seq<u8>, EntryView>::empty(),
        heap: Seq::<ObjectView>::empty(),
    }
}

/// State `s` is what loading or reloading artifact `a` leaves as registry
/// and dispatch table.
pub open spec fn serves(s: StateView, a: ArtifactView) -> bool {
    &&& load_error(a) is None
    &&& unchanged(s.types, s.base, a.structs)
    &&& s.dispatch == table_map(rebase_entries(a.functions, s.base))
}

/// A zeroed instance of the struct type `ty` and the collector that then
/// holds it: an inline copy for a value struct, which leaves the collector
/// alone; the next handle, and its object, for a collector struct. Anything
/// else is a type mismatch, and so is a collector whose handles ran out.
pub open spec fn fresh(s: StateView, ty: TypeId) -> Result<(RefView, Seq<ObjectView>), Error> {
    if is_value_struct(s.types, ty) {
        Ok(
            (
                RefView::Value {
                    ty: ty->Struct_0,
                    bytes: zeros(s.types[ty->Struct_0 as int].size as nat),
                },
                s.heap,
            ),
        )
    } else if is_gc_struct(s.types, ty) && s.heap.len() < usize::MAX {
        Ok(
            (
                RefView::Gc { handle: (s.heap.len() + 1) as u64 },
                s.heap.push(
                    ObjectView {
                        ty: ty->Struct_0,
                        bytes: zeros(s.types[ty->Struct_0 as int].size as nat),
                    },
                ),
            ),
        )
    } else {
        Err(Error::TypeMismatch)
    }
}

pub ghost struct RuntimeView {
    pub state: StateView,
    pub phase: ReloadState,
    pub pending: Option<ArtifactView>,
    pub failure: Option<Error>,
}

/// The runtime.
pub struct Runtime {
    types: TypeTable,
    dispatch: DispatchTable,
    heap: Heap,
    phase: ReloadState,
    pending: Option<Artifact>,
    failure: Option<Error>,
}

impl View for Runtime {
    type V = RuntimeView;

    closed spec fn view(&self) -> RuntimeView {
        RuntimeView {
            state: StateView {
                types: self.types@,
                base: self.types.base as int,
                dispatch: self.dispatch@,
                heap: self.heap@,
            },
            phase: self.phase,
            pending: match self.pending {
                Some(a) => Some(a@),
                None => None,
            },
            failure: self.failure,
        }
    }
}

/// What is built for an artifact before it is put in place.
struct Staged {
    types: TypeTable,
    dispatch: DispatchTable,
    heap: Heap,
}

impl Staged {
    spec fn state(&self) -> StateView {
        StateView {
            types: self.types@,
            base: self.types.base as int,
            dispatch: self.dispatch@,
            heap: self.heap@,
        }
    }
}

/// Signatures that are known stay known when the registry grows.
proof fn lemma_table_known_extends(
    tys: Seq<StructView>,
    more: Seq<StructView>,
    table: Map<Seq<u8>, EntryView>,
)
    requires
        table_known(tys, table),
        tys.len() <= more.len(),
    ensures
        table_known(more, table),
{
    assert forall|n: Seq<u8>| #[trigger] table.contains_key(n) implies signature_known(
        more,
        table[n].signature,
    ) by {
        let sig = table[n].signature;
        assert(signature_known(tys, sig));
        assert forall|i: int| 0 <= i < sig.params.len() implies known(
            more,
            #[trigger] sig.params[i],
        ) by {
            assert(known(tys, sig.params[i]));
        }
    }
}

/// A registry whose names are text keeps names that are text when structs
/// whose names are text are published in it.
pub proof fn lemma_rebased_text(
    before: Seq<StructView>,
    after: Seq<StructView>,
    structs: Seq<StructView>,
)
    requires
        registry_text(before),
        all_text(struct_names(structs)),
        forall|i: int| 0 <= i < structs.len() ==> all_text(field_names(#[trigger] structs[i])),
        after == before || after == before + rebase_structs(
            structs,
            before.len() as int,
        ),
    ensures
        registry_text(after),
{
    if after != before {
        assert forall|i: int| 0 <= i < after.len() implies valid_utf8((#[trigger] after[i]).name)
            && all_text(field_names(after[i])) by {
            if i < before.len() {
                assert(after[i] == before[i]);
            } else {
                let k = i - before.len();
                assert(struct_names(structs)[k] == structs[k].name);
                assert(field_names(after[i]) =~= field_names(structs[k]));
            }
        }
    }
}

/// Builds, apart from what is in force, the registry, the dispatch table and
/// the collector that `artifact` asks for.
fn stage(types: &TypeTable, dispatch: &DispatchTable, heap: &Heap, artifact: &Artifact) -> (out:
    Result<Staged, Error>)
    requires
        types.wf(),
        heap_wf(types@, heap@),
        table_known(types@, dispatch@),
        registry_text(types@),
    ensures
        ({
            let s = StateView {
                types: types@,
                base: types.base as int,
                dispatch: dispatch@,
                heap: heap@,
            };
            match reloaded(s, artifact@) {
                Ok(s2) => out matches Ok(staged) && staged.state() == s2 && staged.types.wf()
                    && staged.dispatch.wf() && state_wf(s2) && serves(s2, artifact@),
                Err(e) => out matches Err(x) && x == e,
            }
        }),
{
    match artifact.check() {
        Err(e) => {
            return Err(Error::Load(e));
        },
        Ok(()) => {},
    }
    let ghost a = artifact@;
    let count = artifact.structs.len();
    proof {
        assert(shape_ok(a));
        assert forall|i: int| 0 <= i < a.structs.len() implies fields_within(
            #[trigger] a.structs[i],
            count as int,
        ) by {
            assert(layout_wf(a.structs, a.structs[i], i));
            assert forall|j: int| 0 <= j < a.structs[i].fields.len() implies ((
            #[trigger] a.structs[i].fields[j]).ty matches TypeId::Struct(t) ==> t < count) by {
                assert(field_fits(a.structs, a.structs[i], i, j));
            }
        }
        assert forall|j: int| 0 <= j < a.functions.len() implies entry_within(
            #[trigger] a.functions[j],
            count as int,
        ) by {
            lemma_known_within(a.structs, a.functions[j]);
        }
    }
    let same = types_unchanged(types, &artifact.structs);
    let mut types2 = types.duplicate();
    if !same {
        if !types2.publish(&artifact.structs) {
            return Err(Error::Load(LoadError::TooLarge));
        }
    }
    let base2 = types2.base;
    proof {
        if same {
            assert(rebase_structs(a.structs, types.base as int).len() == count);
            assert(types@.subrange(types.base as int, types@.len() as int).len() == types@.len()
                - types.base);
        }
    }
    assert(base2 + count <= types2@.len());
    let entries = rebased_entries(&artifact.functions, base2, count);
    proof {
        lemma_table_known_extends(types@, types2@, dispatch@);
        assert forall|j: int| 0 <= j < entries@.len() implies signature_known(
            types2@,
            (#[trigger] entry_views(entries@)[j]).signature,
        ) by {
            lemma_rebase_signature_known(types2@, base2 as int, a.structs, a.functions[j]);
        }
    }
    if !signatures_are_kept(&types2, dispatch, &entries) {
        return Err(Error::IncompatibleReload);
    }
    let heap2 = if same {
        heap.duplicate()
    } else {
        match migrate_objects(&types2, types.base, heap) {
            Ok(h) => h,
            Err(e) => {
                return Err(e);
            },
        }
    };
    let ghost views = entry_views(entries@);
    match DispatchTable::from_entries(entries) {
        None => Err(Error::Load(LoadError::DuplicateName)),
        Some(dispatch2) => {
            proof {
                assert forall|n: Seq<u8>| #[trigger] dispatch2@.contains_key(n) implies signature_known(
                    types2@,
                    dispatch2@[n].signature,
                ) && valid_utf8(n) && dispatch2@[n].signature.name == n by {
                    lemma_table_map_names(views, n);
                    let j = choose|j: int| 0 <= j < views.len() && views[j] == dispatch2@[n];
                    assert(entry_names(a.functions)[j] == n);
                }
                lemma_rebased_text(types@, types2@, a.structs);
                if !same {
                    assert(types2@.subrange(base2 as int, types2@.len() as int) =~= rebase_structs(
                        a.structs,
                        base2 as int,
                    ));
                }
            }
            Ok(Staged { types: types2, dispatch: dispatch2, heap: heap2 })
        },
    }
}

impl Runtime {
    /// The dispatch table keeps its own invariant.
    pub closed spec fn inner_wf(&self) -> bool {
        self.dispatch.wf() && self.types.wf()
    }

    /// The invariant of the runtime. Loading establishes it and every method
    /// keeps it. An artifact is pending exactly while the controller has one
    /// at hand, and between calls no migration is under way.
    pub open spec fn wf(&self) -> bool {
        &&& self.inner_wf()
        &&& state_wf(self@.state)
        &&& (self@.phase == ReloadState::ArtifactReady <==> self@.pending is Some)
        &&& self@.phase != ReloadState::Migrating
    }

    /// Loads an artifact: checks it, publishes its structs and builds the
    /// dispatch table of its functions. Loading is reloading from nothing.
    pub fn load(artifact: Artifact) -> (out: Result<Runtime, Error>)
        ensures
            match reloaded(empty_state(), artifact@) {
                Ok(s) => out matches Ok(rt) && rt.wf() && rt@ == (RuntimeView {
                    state: s,
                    phase: ReloadState::Idle,
                    pending: None,
                    failure: None,
                }) && serves(s, artifact@),
                Err(e) => out matches Err(x) && x == e,
            },
            out is Ok <==> load_error(artifact@) is None,
    {
        let types = TypeTable::new();
        let dispatch = DispatchTable::new();
        let heap = Heap::new();
        proof {
            assert(types@ =~= Seq::<StructView>::empty());
            assert(heap@ =~= Seq::<ObjectView>::empty());
            lemma_load_succeeds(artifact@);
        }
        match stage(&types, &dispatch, &heap, &artifact) {
            Err(e) => Err(e),
            Ok(staged) => Ok(
                Runtime {
                    types: staged.types,
                    dispatch: staged.dispatch,
                    heap: staged.heap,
                    phase: ReloadState::Idle,
                    pending: None,
                    failure: None,
                },
            ),
        }
    }

    /// The registry.
    pub fn types(&self) -> (table: &TypeTable)
        ensures
            table@ == self@.state.types,
            table.base == self@.state.base,
    {
        &self.types
    }

    /// The collector.
    pub fn heap(&self) -> (heap: &Heap)
        ensures
            heap@ == self@.state.heap,
    {
        &self.heap
    }

    /// Where the reload controller stands.
    pub fn state(&self) -> (phase: ReloadState)
        ensures
            phase == self@.phase,
    {
        self.phase
    }

    /// Why the last reload was refused, if the last one was.
    pub fn last_failure(&self) -> (failure: Option<Error>)
        ensures
            failure == self@.failure,
    {
        self.failure
    }

    /// The identity of the struct that the loaded artifact declares under
    /// `name`.
    pub fn describe(&self, name: &str) -> (found: Option<TypeId>)
        requires
            self.wf(),
        ensures
            found == described(self@.state.types, self@.state.base, text(name)),
    {
        self.types.describe(name.as_bytes())
    }

    /// A copy of the descriptor of the struct type `ty`. Its layout is well
    /// formed and its names are valid displayable text.
    pub fn descriptor(&self, ty: TypeId) -> (found: Option<StructDescriptor>)
        ensures
            found matches Some(d) ==> ty matches TypeId::Struct(i) && i < self@.state.types.len()
                && d@ == self@.state.types[i as int],
            found is None ==> !(ty matches TypeId::Struct(i) && i < self@.state.types.len()),
            found matches Some(d) ==> self.wf() ==> layout_wf(
                self@.state.types,
                d@,
                ty->Struct_0 as int,
            ) && valid_utf8(d@.name) && all_text(field_names(d@)),
    {
        match ty {
            TypeId::Primitive(_) => None,
            TypeId::Struct(i) => match self.types.descriptor(i) {
                Some(d) => Some(d.duplicate()),
                None => None,
            },
        }
    }

    /// A copy of the signature of the exported function `name`. Its types
    /// are known to the registry and its name is valid displayable text.
    pub fn get_function_info(&self, name: &str) -> (found: Option<FunctionSignature>)
        ensures
            found matches Some(sig) ==> self@.state.dispatch.contains_key(text(name)) && sig@
                == self@.state.dispatch[text(name)].signature && sig@.name == text(name),
            found is None ==> !self@.state.dispatch.contains_key(text(name)),
            found matches Some(sig) ==> self.wf() ==> signature_known(self@.state.types, sig@)
                && valid_utf8(sig@.name),
    {
        match self.dispatch.resolve(name.as_bytes()) {
            Some(e) => Some(e.signature.duplicate()),
            None => None,
        }
    }

    /// A copy of the dispatch table as it is now.
    pub fn snapshot(&self) -> (copy: DispatchTable)
        requires
            self.wf(),
        ensures
            copy.wf(),
            copy@ == self@.state.dispatch,
    {
        self.dispatch.snapshot()
    }

    /// A zeroed instance of the struct type `ty`: an inline copy for a value
    /// struct, a fresh object of the collector for a collector struct.
    pub fn new_struct(&mut self, ty: TypeId) -> (out: Result<StructRef, Error>)
        requires
            old(self).wf(),
        ensures
            final(self).wf(),
            match fresh(old(self)@.state, ty) {
                Ok((r, heap2)) => out matches Ok(x) && x@ == r && final(self)@ == (RuntimeView {
                    state: StateView { heap: heap2, ..old(self)@.state },
                    ..old(self)@
                }),
                Err(e) => out matches Err(x) && x == e && final(self)@ == old(self)@,
            },
    {
        match ty {
            TypeId::Primitive(_) => Err(Error::TypeMismatch),
            TypeId::Struct(i) => {
                if i >= self.types.structs.len() {
                    return Err(Error::TypeMismatch);
                }
                assert(self.types.structs[i as int]@ == self.types@[i as int]);
                match self.types.structs[i].storage {
                    Storage::Value => Ok(
                        StructRef::Value { ty: i, bytes: zero_bytes(self.types.structs[i].size) },
                    ),
                    Storage::Gc => match self.heap.allocate(&self.types, i) {
                        Some(handle) => Ok(StructRef::Gc { handle }),
                        None => Err(Error::TypeMismatch),
                    },
                }
            },
        }
    }

    /// The first half of an invocation: resolves `name`, checks the
    /// arguments and marshals them. The host then runs the code at the
    /// plan's address.
    pub fn begin_invoke(&self, name: &str, args: &Vec<NativeValue>) -> (out: Result<
        CallPlan,
        Error,
    >)
        ensures
            out matches Ok(plan) ==> plan_call(
                self@.state.dispatch,
                self@.state.types,
                self@.state.heap,
                text(name),
                value_views(args@),
            ) == Ok::<PlanView, Error>(plan@),
            out matches Err(e) ==> plan_call(
                self@.state.dispatch,
                self@.state.types,
                self@.state.heap,
                text(name),
                value_views(args@),
            ) == Err::<PlanView, Error>(e),
    {
        prepare_call(&self.dispatch, &self.types, &self.heap, name.as_bytes(), args)
    }

    /// The second half of an invocation: turns the bytes that the code
    /// returned into the host value of the kind that the caller asked for.
    pub fn finish_invoke(&self, plan: &CallPlan, raw: &[u8], requested: NativeKind) -> (out:
        Result<NativeValue, Error>)
        ensures
            out matches Ok(v) ==> unmarshal(
                self@.state.types,
                self@.state.heap,
                raw@,
                plan.ret,
                requested,
            ) == Ok::<ValueView, Error>(v@),
            out matches Err(e) ==> unmarshal(
                self@.state.types,
                self@.state.heap,
                raw@,
                plan.ret,
                requested,
            ) == Err::<ValueView, Error>(e),
    {
        finish_call(&self.types, &self.heap, plan, raw, requested)
    }

    /// Invokes the exported function `name`: plans the call, hands the plan
    /// to `code`, which stands for the compiled code, may allocate and
    /// write through the runtime and gives back the bytes of the result, and
    /// converts those to a host value of kind `kind`. A call that is refused
    /// never reaches `code`, and the runtime stays as it was.
    pub fn invoke<F>(&mut self, name: &str, args: &Vec<NativeValue>, kind: NativeKind, code: F) -> (out:
        Result<NativeValue, Error>) where F: FnOnce(&mut Runtime, &CallPlan) -> Vec<u8>
        requires
            old(self).wf(),
            forall|rt: &mut Runtime, plan: &CallPlan|
                rt.wf() && plan_call(
                    rt@.state.dispatch,
                    rt@.state.types,
                    rt@.state.heap,
                    text(name),
                    value_views(args@),
                ) == Ok::<PlanView, Error>(plan@) ==> call_requires(code, (rt, plan)),
            forall|rt: &mut Runtime, plan: &CallPlan, raw: Vec<u8>|
                call_ensures(code, (rt, plan), raw) ==> final(rt).wf(),
        ensures
            final(self).wf(),
            match plan_call(
                old(self)@.state.dispatch,
                old(self)@.state.types,
                old(self)@.state.heap,
                text(name),
                value_views(args@),
            ) {
                Err(e) => *final(self) == *old(self) && out == Err::<NativeValue, Error>(e),
                Ok(p) => exists|rt: &mut Runtime, plan: CallPlan, raw: Vec<u8>|
                    #[trigger] call_ensures(code, (rt, &plan), raw) && *rt == *old(self)
                        && *final(rt) == *final(self) && plan@ == p && (match unmarshal(
                        final(self)@.state.types,
                        final(self)@.state.heap,
                        raw@,
                        p.ret,
                        kind,
                    ) {
                        Ok(v) => out matches Ok(x) && x@ == v,
                        Err(e) => out matches Err(x) && x == e,
                    }),
            },
    {
        let plan = match self.begin_invoke(name, args) {
            Ok(plan) => plan,
            Err(e) => {
                return Err(e);
            },
        };
        let raw = code(self, &plan);
        self.finish_invoke(&plan, raw.as_slice(), kind)
    }

    /// Reads field `name` through `r`, as a host value of kind `kind`.
    pub fn get_field(&self, r: &StructRef, name: &str, kind: NativeKind) -> (out: Result<
        NativeValue,
        Error,
    >)
        requires
            self.wf(),
        ensures
            out matches Ok(v) ==> get_field(
                self@.state.types,
                self@.state.heap,
                r@,
                text(name),
                kind,
            ) == Ok::<ValueView, Error>(v@),
            out matches Err(e) ==> get_field(
                self@.state.types,
                self@.state.heap,
                r@,
                text(name),
                kind,
            ) == Err::<ValueView, Error>(e),
    {
        get_field_in(&self.types, &self.heap, r, name.as_bytes(), kind)
    }

    /// Writes `value` to field `name` through `r`.
    pub fn set_field(&mut self, r: &mut StructRef, name: &str, value: &NativeValue) -> (out:
        Result<(), Error>)
        requires
            old(self).wf(),
        ensures
            final(self).wf(),
            match set_field(
                old(self)@.state.types,
                old(self)@.state.heap,
                old(r)@,
                text(name),
                value@,
            ) {
                Ok((r2, heap2)) => out is Ok && final(r)@ == r2 && final(self)@ == (RuntimeView {
                    state: StateView { heap: heap2, ..old(self)@.state },
                    ..old(self)@
                }),
                Err(e) => out == Err::<(), Error>(e) && final(r)@ == old(r)@ && final(self)@
                    == old(self)@,
            },
    {
        set_field_in(&self.types, &mut self.heap, r, name.as_bytes(), value)
    }

    /// Writes `value` to field `name` through `r` and returns what the field
    /// held.
    pub fn replace_field(&mut self, r: &mut StructRef, name: &str, value: &NativeValue) -> (out:
        Result<NativeValue, Error>)
        requires
            old(self).wf(),
        ensures
            final(self).wf(),
            match replace_field(
                old(self)@.state.types,
                old(self)@.state.heap,
                old(r)@,
                text(name),
                value@,
            ) {
                Ok((before, r2, heap2)) => out matches Ok(v) && v@ == before && final(r)@ == r2
                    && final(self)@ == (RuntimeView {
                    state: StateView { heap: heap2, ..old(self)@.state },
                    ..old(self)@
                }),
                Err(e) => out matches Err(x) && x == e && final(r)@ == old(r)@ && final(self)@
                    == old(self)@,
            },
    {
        replace_field_in(&self.types, &mut self.heap, r, name.as_bytes(), value)
    }

    /// Tells the controller that the source changed.
    pub fn source_changed(&mut self)
        requires
            old(self).wf(),
        ensures
            final(self).wf(),
            final(self)@ == (RuntimeView {
                phase: next_state(old(self)@.phase, ReloadEvent::SourceChanged),
                ..old(self)@
            }),
    {
        let (next, action) = self.phase.step(ReloadEvent::SourceChanged);
        self.phase = next;
    }

    /// Hands the controller a freshly compiled artifact. It takes the place
    /// of one that was still waiting.
    pub fn artifact_written(&mut self, artifact: Artifact)
        requires
            old(self).wf(),
        ensures
            final(self).wf(),
            final(self)@ == (RuntimeView {
                phase: ReloadState::ArtifactReady,
                pending: Some(artifact@),
                ..old(self)@
            }),
            final(self)@.phase == next_state(old(self)@.phase, ReloadEvent::ArtifactWritten),
    {
        let (next, action) = self.phase.step(ReloadEvent::ArtifactWritten);
        self.phase = next;
        self.pending = Some(artifact);
    }

    /// The host's poll. If an artifact is at hand, it is put in place of the
    /// loaded one, and the answer is `true` once that is done. If it is
    /// refused, nothing of the loaded artifact, the registry or the collector
    /// changes, the reason is kept, and the answer is `false`; so it is when
    /// no artifact is at hand. Either way the artifact is no longer pending.
    pub fn update(&mut self) -> (swapped: bool)
        requires
            old(self).wf(),
        ensures
            final(self).wf(),
            match old(self)@.pending {
                None => !swapped && final(self)@ == old(self)@,
                Some(a) => match reloaded(old(self)@.state, a) {
                    Ok(s) => swapped && final(self)@ == (RuntimeView {
                        state: s,
                        phase: ReloadState::Idle,
                        pending: None,
                        failure: None,
                    }) && serves(s, a),
                    Err(e) => !swapped && final(self)@ == (RuntimeView {
                        state: old(self)@.state,
                        phase: ReloadState::Idle,
                        pending: None,
                        failure: Some(e),
                    }),
                },
            },
    {
        let (next, action) = self.phase.step(ReloadEvent::Poll);
        match action {
            ReloadAction::Wait => false,
            ReloadAction::Migrate => {
                let artifact = match self.pending.take() {
                    Some(artifact) => artifact,
                    None => {
                        return false;
                    },
                };
                match stage(&self.types, &self.dispatch, &self.heap, &artifact) {
                    Ok(staged) => {
                        self.types = staged.types;
                        self.dispatch = staged.dispatch;
                        self.heap = staged.heap;
                        self.failure = None;
                        self.phase = next.step(ReloadEvent::Migrated).0;
                        true
                    },
                    Err(e) => {
                        self.failure = Some(e);
                        self.phase = next.step(ReloadEvent::Refused).0;
                        false
                    },
                }
            },
        }
    }
}

/// From nothing, an artifact that passes the checks of loading is always
/// put in place: there is no signature to keep and no object to migrate.
pub proof fn lemma_load_succeeds(a: ArtifactView)
    requires
        a.structs.len() <= usize::MAX,
    ensures
        reloaded(empty_state(), a) is Ok <==> load_error(a) is None,
        reloaded(empty_state(), a) matches Err(e) ==> load_error(a) matches Some(l) && e
            == Error::Load(l),
{
    let s = empty_state();
    if load_error(a) is None {
        let same = unchanged(s.types, s.base, a.structs);
    }
}

} // verus!
