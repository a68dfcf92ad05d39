//! The invocation engine: everything about a call by name that happens
//! before and after the compiled code runs.
//!
//! Running compiled code is the host's part. The engine first turns a name
//! and host arguments into a plan: the address to call and the bytes to hand
//! over. When the code has returned, the engine turns the bytes it produced
//! into the host value that the caller asked for. A call that is refused
//! yields no plan, so no code has run for it.

use vstd::prelude::*;
use crate::dispatch::{DispatchTable, EntryView};
use crate::error::Error;
use crate::marshal::{marshal_argument, unmarshal, unmarshal_return};
use crate::memory::{
    encode, type_of, value_views, Heap, NativeValue, ObjectView, ValueView,
};
use crate::types::{NativeKind, StructView, TypeId, TypeTable};

verus! {

/// A call that passed every check: what to call, with which bytes, and the
/// declared type of what comes back.
#[derive(Debug, PartialEq, Eq)]
pub struct CallPlan {
    pub address: u64,
    pub args: Vec<Vec<u8>>,
    pub ret: TypeId,
}

pub ghost struct PlanView {
    pub address: u64,
    pub args: Seq<Seq<u8>>,
    pub ret: TypeId,
}

impl View for CallPlan {
    type V = PlanView;

    open spec fn view(&self) -> PlanView {
        PlanView {
            address: self.address,
            args: self.args@.map_values(|a: Vec<u8>| a@),
            ret: self.ret,
        }
    }
}

/// Argument `i` does not report the type of parameter `i`.
pub open spec fn mismatched(
    tys: Seq<StructView>,
    heap: Seq<ObjectView>,
    args: Seq<ValueView>,
    params: Seq<TypeId>,
    i: int,
) -> bool {
    0 <= i < args.len() && type_of(tys, heap, args[i]) != Some(params[i])
}

/// The plan for calling `name` with `args`, or why there is none: the name
/// must be exported; the number of arguments must be the number of
/// parameters; and each argument must report the type of its parameter.
pub open spec fn plan_call(
    table: Map<Seq<u8>, EntryView>,
    tys: Seq<StructView>,
    heap: Seq<ObjectView>,
    name: Seq<u8>,
    args: Seq<ValueView>,
) -> Result<PlanView, Error> {
    if !table.contains_key(name) {
        Err(Error::FunctionNotFound)
    } else {
        let sig = table[name].signature;
        if sig.params.len() != args.len() {
            Err(Error::ArityMismatch)
        } else if exists|i: int| mismatched(tys, heap, args, sig.params, i) {
            Err(Error::TypeMismatch)
        } else {
            Ok(
                PlanView {
                    address: table[name].address,
                    args: args.map_values(|v: ValueView| encode(v)),
                    ret: sig.ret,
                },
            )
        }
    }
}

/// Resolves `name`, checks the arguments against the signature in order,
/// and marshals them.
pub fn prepare_call(
    dispatch: &DispatchTable,
    table: &TypeTable,
    heap: &Heap,
    name: &[u8],
    args: &Vec<NativeValue>,
) -> (out: Result<CallPlan, Error>)
    ensures
        out matches Ok(plan) ==> plan_call(dispatch@, table@, heap@, name@, value_views(args@))
            == Ok::<PlanView, Error>(plan@),
        out matches Err(e) ==> plan_call(dispatch@, table@, heap@, name@, value_views(args@))
            == Err::<PlanView, Error>(e),
{
    let entry = match dispatch.resolve(name) {
        Some(entry) => entry,
        None => {
            return Err(Error::FunctionNotFound);
        },
    };
    if entry.signature.params.len() != args.len() {
        return Err(Error::ArityMismatch);
    }
    let ghost views = value_views(args@);
    let ghost params = entry@.signature.params;
    let mut raw: Vec<Vec<u8>> = Vec::new();
    let mut i: usize = 0;
    while i < args.len()
        invariant
            i <= args.len(),
            raw.len() == i,
            views == value_views(args@),
            params == entry@.signature.params,
            params.len() == args.len(),
            dispatch@.contains_key(name@),
            dispatch@[name@] == entry@,
            forall|k: int| 0 <= k < i ==> !mismatched(table@, heap@, views, params, k),
            forall|k: int| 0 <= k < i ==> (#[trigger] raw@[k])@ == encode(views[k]),
        decreases args.len() - i,
    {
        match marshal_argument(table, heap, &args[i], entry.signature.params[i]) {
            Ok(bytes) => {
                assert(views[i as int] == args@[i as int]@);
                raw.push(bytes);
            },
            Err(e) => {
                assert(views[i as int] == args@[i as int]@);
                assert(mismatched(table@, heap@, views, params, i as int));
                return Err(Error::TypeMismatch);
            },
        }
        i += 1;
    }
    let plan = CallPlan { address: entry.address, args: raw, ret: entry.signature.ret };
    proof {
        assert(plan@.args =~= views.map_values(|v: ValueView| encode(v)));
        assert forall|k: int| !mismatched(table@, heap@, views, params, k) by {}
    }
    Ok(plan)
}

/// Turns the bytes that the planned call produced into the host value of the
/// kind that the caller asked for.
pub fn finish_call(
    table: &TypeTable,
    heap: &Heap,
    plan: &CallPlan,
    raw: &[u8],
    requested: NativeKind,
) -> (out: Result<NativeValue, Error>)
    ensures
        out matches Ok(v) ==> unmarshal(table@, heap@, raw@, plan.ret, requested) == Ok::<
            ValueView,
            Error,
        >(v@),
        out matches Err(e) ==> unmarshal(table@, heap@, raw@, plan.ret, requested) == Err::<
            ValueView,
            Error,
        >(e),
{
    unmarshal_return(table, heap, raw, plan.ret, requested)
}

} // verus!
