//! Names of functions, structs and fields: byte strings, and how one is found
//! in a list of them.

use vstd::prelude::*;

verus! {

/// Whether `j` is the first position of `names` that holds `name`.
pub open spec fn is_first(names: Seq<Seq<u8>>, name: Seq<u8>, j: int) -> bool {
    &&& 0 <= j < names.len()
    &&& names[j] == name
    &&& forall|k: int| 0 <= k < j ==> #[trigger] names[k] != name
}

/// The first position of `names` that holds `name`, if any does.
pub open spec fn position_of(names: Seq<Seq<u8>>, name: Seq<u8>) -> Option<int> {
    if exists|j: int| is_first(names, name, j) {
        Some(choose|j: int| is_first(names, name, j))
    } else {
        None
    }
}

/// No name occurs twice.
pub open spec fn distinct(names: Seq<Seq<u8>>) -> bool {
    forall|j: int, k: int| 0 <= j < k < names.len() ==> #[trigger] names[j] != #[trigger] names[k]
}

/// Two byte strings are equal.
pub fn bytes_eq(a: &[u8], b: &[u8]) -> (same: bool)
    ensures
        same == (a@ == b@),
{
    if a.len() != b.len() {
        return false;
    }
    let mut i: usize = 0;
    while i < a.len()
        invariant
            i <= a.len(),
            a.len() == b.len(),
            forall|k: int| 0 <= k < i ==> a@[k] == b@[k],
        decreases a.len() - i,
    {
        if a[i] != b[i] {
            return false;
        }
        i += 1;
    }
    assert(a@ =~= b@);
    true
}

/// A copy of a byte string.
pub fn copy_bytes(a: &[u8]) -> (copy: Vec<u8>)
    ensures
        copy@ == a@,
{
    let mut out: Vec<u8> = Vec::new();
    let mut i: usize = 0;
    while i < a.len()
        invariant
            i <= a.len(),
            out@ == a@.subrange(0, i as int),
        decreases a.len() - i,
    {
        out.push(a[i]);
        i += 1;
        assert(out@ =~= a@.subrange(0, i as int));
    }
    assert(out@ =~= a@);
    out
}

/// `position_of` finds a name exactly when the list holds it, and what it
/// finds is the first occurrence.
pub proof fn lemma_position_of(names: Seq<Seq<u8>>, name: Seq<u8>)
    ensures
        position_of(names, name) is Some <==> names.contains(name),
        position_of(names, name) matches Some(j) ==> is_first(names, name, j),
{
    if names.contains(name) {
        let w = choose|j: int| 0 <= j < names.len() && names[j] == name;
        lemma_first_exists(names, name, w);
    }
    if position_of(names, name) is Some {
        let j = choose|j: int| is_first(names, name, j);
        assert(is_first(names, name, j));
        assert(names[j] == name);
    }
}

proof fn lemma_first_exists(names: Seq<Seq<u8>>, name: Seq<u8>, w: int)
    requires
        0 <= w < names.len(),
        names[w] == name,
    ensures
        exists|j: int| is_first(names, name, j),
    decreases w,
{
    if exists|k: int| 0 <= k < w && #[trigger] names[k] == name {
        let k = choose|k: int| 0 <= k < w && #[trigger] names[k] == name;
        lemma_first_exists(names, name, k);
    } else {
        assert(is_first(names, name, w));
    }
}

/// The first occurrence of a name is the only position that `position_of`
/// can report.
pub proof fn lemma_first_is_position(names: Seq<Seq<u8>>, name: Seq<u8>, j: int)
    requires
        is_first(names, name, j),
    ensures
        position_of(names, name) == Some(j),
{
    let c = choose|c: int| is_first(names, name, c);
    assert(is_first(names, name, c));
    if c < j {
        assert(names[c] != name);
    } else if j < c {
        assert(names[j] != name);
    }
}

/// A name that occurs nowhere is not found.
pub proof fn lemma_absent_is_none(names: Seq<Seq<u8>>, name: Seq<u8>)
    requires
        forall|k: int| 0 <= k < names.len() ==> #[trigger] names[k] != name,
    ensures
        position_of(names, name) is None,
{
    assert forall|c: int| !is_first(names, name, c) by {
        if 0 <= c < names.len() {
            assert(names[c] != name);
        }
    }
}

/// Among distinct names, each is found at its own position.
pub proof fn lemma_position_unique(names: Seq<Seq<u8>>, j: int)
    requires
        distinct(names),
        0 <= j < names.len(),
    ensures
        position_of(names, names[j]) == Some(j),
{
    assert(is_first(names, names[j], j));
    lemma_first_is_position(names, names[j], j);
}

/// Among distinct names, a name is found at `j` exactly when position `j`
/// holds it.
pub proof fn lemma_position_iff(names: Seq<Seq<u8>>, name: Seq<u8>, j: int)
    requires
        distinct(names),
    ensures
        position_of(names, name) == Some(j) <==> (0 <= j < names.len() && names[j] == name),
{
    lemma_position_of(names, name);
    if 0 <= j < names.len() && names[j] == name {
        lemma_position_unique(names, j);
    }
}

/// The byte strings that a list of names holds, in order.
pub open spec fn name_views(names: Seq<Vec<u8>>) -> Seq<Seq<u8>> {
    names.map_values(|n: Vec<u8>| n@)
}

/// Whether no name of the list occurs twice.
pub fn all_distinct(names: &Vec<Vec<u8>>) -> (yes: bool)
    ensures
        yes == distinct(name_views(names@)),
{
    let ghost views = name_views(names@);
    let mut k: usize = 0;
    while k < names.len()
        invariant
            k <= names.len(),
            views == name_views(names@),
            forall|a: int, b: int| 0 <= a < b < k ==> #[trigger] views[a] != #[trigger] views[b],
        decreases names.len() - k,
    {
        let mut j: usize = 0;
        while j < k
            invariant
                j <= k < names.len(),
                views == name_views(names@),
                forall|a: int| 0 <= a < j ==> #[trigger] views[a] != views[k as int],
            decreases k - j,
        {
            if bytes_eq(names[j].as_slice(), names[k].as_slice()) {
                assert(views[j as int] == views[k as int]);
                return false;
            }
            assert(views[j as int] != views[k as int]);
            j += 1;
        }
        k += 1;
    }
    true
}

} // verus!
