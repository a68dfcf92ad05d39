//! The dispatch table: exported function names and what each resolves to.

use vstd::prelude::*;
use crate::names::{
    bytes_eq, copy_bytes, distinct, is_first, lemma_absent_is_none, lemma_first_is_position,
    lemma_position_iff, lemma_position_of, position_of,
};
use crate::types::TypeId;

verus! {

/// The signature of an exported function.
#[derive(Debug, PartialEq, Eq)]
pub struct FunctionSignature {
    pub name: Vec<u8>,
    pub params: Vec<TypeId>,
    pub ret: TypeId,
}

/// What a name resolves to: the signature and the address of the entry
/// point. The address means something only while the artifact that exported
/// it is loaded.
#[derive(Debug, PartialEq, Eq)]
pub struct DispatchEntry {
    pub signature: FunctionSignature,
    pub address: u64,
}

pub ghost struct SignatureView {
    pub name: Seq<u8>,
    pub params: Seq<TypeId>,
    pub ret: TypeId,
}

pub ghost struct EntryView {
    pub signature: SignatureView,
    pub address: u64,
}

impl View for FunctionSignature {
    type V = SignatureView;

    open spec fn view(&self) -> SignatureView {
        SignatureView { name: self.name@, params: self.params@, ret: self.ret }
    }
}

impl View for DispatchEntry {
    type V = EntryView;

    open spec fn view(&self) -> EntryView {
        EntryView { signature: self.signature@, address: self.address }
    }
}

/// The models of a sequence of entries, in order.
pub open spec fn entry_views(entries: Seq<DispatchEntry>) -> Seq<EntryView> {
    entries.map_values(|e: DispatchEntry| e@)
}

/// The names of a sequence of entries, in order.
pub open spec fn entry_names(entries: Seq<EntryView>) -> Seq<Seq<u8>> {
    entries.map_values(|e: EntryView| e.signature.name)
}

/// The map from names to entries that a list of entries stands for. Should a
/// name occur twice, its first entry counts.
pub open spec fn table_map(entries: Seq<EntryView>) -> Map<Seq<u8>, EntryView> {
    Map::new(
        |n: Seq<u8>| position_of(entry_names(entries), n) is Some,
        |n: Seq<u8>| entries[position_of(entry_names(entries), n)->Some_0],
    )
}

/// Every entry of the map stands under its own name.
pub proof fn lemma_table_map_names(entries: Seq<EntryView>, name: Seq<u8>)
    requires
        table_map(entries).contains_key(name),
    ensures
        table_map(entries)[name].signature.name == name,
        entries.contains(table_map(entries)[name]),
{
    lemma_position_of(entry_names(entries), name);
}

/// Among entries with distinct names, each is what its name resolves to.
pub proof fn lemma_table_map_entry(entries: Seq<EntryView>, j: int)
    requires
        distinct(entry_names(entries)),
        0 <= j < entries.len(),
    ensures
        table_map(entries).contains_key(entries[j].signature.name),
        table_map(entries)[entries[j].signature.name] == entries[j],
{
    lemma_position_iff(entry_names(entries), entries[j].signature.name, j);
}

impl FunctionSignature {
    /// A copy of this signature.
    pub fn duplicate(&self) -> (copy: FunctionSignature)
        ensures
            copy@ == self@,
    {
        let mut params: Vec<TypeId> = Vec::new();
        let mut i: usize = 0;
        while i < self.params.len()
            invariant
                i <= self.params.len(),
                params@ == self.params@.subrange(0, i as int),
            decreases self.params.len() - i,
        {
            params.push(self.params[i]);
            i += 1;
            assert(params@ =~= self.params@.subrange(0, i as int));
        }
        assert(params@ =~= self.params@);
        FunctionSignature { name: copy_bytes(self.name.as_slice()), params, ret: self.ret }
    }
}

impl DispatchEntry {
    /// A copy of this entry.
    pub fn duplicate(&self) -> (copy: DispatchEntry)
        ensures
            copy@ == self@,
    {
        DispatchEntry { signature: self.signature.duplicate(), address: self.address }
    }
}

/// Maps exported function names to their entries. No name is held twice.
pub struct DispatchTable {
    entries: Vec<DispatchEntry>,
}

impl View for DispatchTable {
    type V = Map<Seq<u8>, EntryView>;

    closed spec fn view(&self) -> Map<Seq<u8>, EntryView> {
        table_map(entry_views(self.entries@))
    }
}

impl DispatchTable {
    /// No name is held twice. Every constructor establishes this and every
    /// method keeps it.
    pub closed spec fn wf(&self) -> bool {
        distinct(entry_names(entry_views(self.entries@)))
    }

    /// The position of the entry called `name`.
    fn position(&self, name: &[u8]) -> (found: Option<usize>)
        ensures
            found matches Some(j) ==> j < self.entries.len() && position_of(
                entry_names(entry_views(self.entries@)),
                name@,
            ) == Some(j as int),
            found is None ==> position_of(entry_names(entry_views(self.entries@)), name@) is None,
    {
        let ghost names = entry_names(entry_views(self.entries@));
        let mut j: usize = 0;
        while j < self.entries.len()
            invariant
                j <= self.entries.len(),
                names == entry_names(entry_views(self.entries@)),
                forall|k: int| 0 <= k < j ==> #[trigger] names[k] != name@,
            decreases self.entries.len() - j,
        {
            if bytes_eq(self.entries[j].signature.name.as_slice(), name) {
                proof {
                    assert(names[j as int] == name@);
                    assert(is_first(names, name@, j as int));
                    lemma_first_is_position(names, name@, j as int);
                }
                return Some(j);
            }
            assert(names[j as int] != name@);
            j += 1;
        }
        proof {
            lemma_absent_is_none(names, name@);
        }
        None
    }

    /// A table without entries.
    pub fn new() -> (table: DispatchTable)
        ensures
            table.wf(),
            table@ == Map::<Seq<u8>, EntryView>::empty(),
    {
        let table = DispatchTable { entries: Vec::new() };
        proof {
            let entries = entry_views(table.entries@);
            assert forall|n: Seq<u8>| position_of(entry_names(entries), n) is None by {
                lemma_absent_is_none(entry_names(entries), n);
            }
            assert(table@ =~= Map::<Seq<u8>, EntryView>::empty());
        }
        table
    }

    /// The entry that `name` resolves to.
    pub fn resolve(&self, name: &[u8]) -> (found: Option<&DispatchEntry>)
        ensures
            found matches Some(e) ==> self@.contains_key(name@) && self@[name@] == e@
                && e@.signature.name == name@,
            found is None ==> !self@.contains_key(name@),
    {
        match self.position(name) {
            Some(j) => {
                proof {
                    lemma_position_of(entry_names(entry_views(self.entries@)), name@);
                }
                Some(&self.entries[j])
            },
            None => None,
        }
    }

    /// Puts `entry` under the name of its signature, in place of the entry
    /// that stood there, if any.
    pub fn insert_or_replace(&mut self, entry: DispatchEntry)
        requires
            old(self).wf(),
        ensures
            final(self).wf(),
            final(self)@ == old(self)@.insert(entry@.signature.name, entry@),
    {
        let ghost before = entry_views(self.entries@);
        let ghost name = entry@.signature.name;
        let ghost added = entry@;
        match self.position(entry.signature.name.as_slice()) {
            Some(j) => {
                proof {
                    lemma_position_of(entry_names(before), name);
                }
                self.entries.set(j, entry);
                proof {
                    let after = entry_views(self.entries@);
                    assert(after =~= before.update(j as int, added));
                    assert(entry_names(after) =~= entry_names(before));
                    assert forall|n: Seq<u8>|
                        table_map(before).insert(name, added).contains_key(n) implies #[trigger] table_map(
                        after,
                    ).contains_key(n) && table_map(after)[n] == table_map(before).insert(
                        name,
                        added,
                    )[n] by {
                        lemma_position_iff(entry_names(before), n, j as int);
                        lemma_position_of(entry_names(before), n);
                    }
                    assert(table_map(after) =~= table_map(before).insert(name, added));
                }
            },
            None => {
                self.entries.push(entry);
                proof {
                    let after = entry_views(self.entries@);
                    assert(after =~= before.push(added));
                    lemma_position_of(entry_names(before), name);
                    lemma_table_map_push(before, added);
                }
            },
        }
    }

    /// A copy of the table as it is now. Later changes to the table do not
    /// reach the copy, so a call that resolved its function in the copy is
    /// not disturbed by a reload.
    pub fn snapshot(&self) -> (copy: DispatchTable)
        requires
            self.wf(),
        ensures
            copy.wf(),
            copy@ == self@,
    {
        let mut entries: Vec<DispatchEntry> = Vec::new();
        let mut i: usize = 0;
        while i < self.entries.len()
            invariant
                i <= self.entries.len(),
                entries.len() == i,
                forall|k: int| 0 <= k < i ==> #[trigger] entries@[k]@ == self.entries@[k]@,
            decreases self.entries.len() - i,
        {
            entries.push(self.entries[i].duplicate());
            i += 1;
        }
        assert(entry_views(entries@) =~= entry_views(self.entries@));
        DispatchTable { entries }
    }

    /// The table of a list of entries, if their names are distinct.
    pub fn from_entries(entries: Vec<DispatchEntry>) -> (table: Option<DispatchTable>)
        ensures
            table is Some <==> distinct(entry_names(entry_views(entries@))),
            table matches Some(t) ==> t.wf() && t@ == table_map(entry_views(entries@)),
    {
        let ghost names = entry_names(entry_views(entries@));
        let mut k: usize = 0;
        while k < entries.len()
            invariant
                k <= entries.len(),
                names == entry_names(entry_views(entries@)),
                forall|a: int, b: int| 0 <= a < b < k ==> #[trigger] names[a] != #[trigger] names[b],
            decreases entries.len() - k,
        {
            let mut j: usize = 0;
            while j < k
                invariant
                    j <= k < entries.len(),
                    names == entry_names(entry_views(entries@)),
                    forall|a: int| 0 <= a < j ==> #[trigger] names[a] != names[k as int],
                decreases k - j,
            {
                if bytes_eq(
                    entries[j].signature.name.as_slice(),
                    entries[k].signature.name.as_slice(),
                ) {
                    assert(names[j as int] == names[k as int]);
                    return None;
                }
                assert(names[j as int] != names[k as int]);
                j += 1;
            }
            k += 1;
        }
        Some(DispatchTable { entries })
    }

    /// Number of entries.
    pub fn len(&self) -> (n: usize)
        requires
            self.wf(),
        ensures
            n == self@.dom().len(),
            self@.dom().finite(),
    {
        proof {
            lemma_table_map_len(entry_views(self.entries@));
        }
        self.entries.len()
    }
}

/// Appending an entry whose name is new keeps the names distinct and adds
/// exactly that entry to the map.
pub proof fn lemma_table_map_push(before: Seq<EntryView>, added: EntryView)
    requires
        distinct(entry_names(before)),
        !entry_names(before).contains(added.signature.name),
    ensures
        distinct(entry_names(before.push(added))),
        table_map(before.push(added)) == table_map(before).insert(added.signature.name, added),
{
    let after = before.push(added);
    let name = added.signature.name;
    let last = before.len() as int;
    let old_names = entry_names(before);
    let new_names = entry_names(after);
    assert(new_names =~= old_names.push(name));
    assert forall|a: int, b: int| 0 <= a < b < new_names.len() implies (#[trigger] new_names[a]) != (
    #[trigger] new_names[b]) by {
        if b == last {
            assert(old_names[a] == new_names[a]);
            assert(old_names.contains(old_names[a]));
        } else {
            assert(old_names[a] == new_names[a]);
            assert(old_names[b] == new_names[b]);
        }
    }
    let want = table_map(before).insert(name, added);
    assert forall|n: Seq<u8>| #[trigger] table_map(after).dom().contains(n) <==> want.dom().contains(
        n,
    ) by {
        lemma_position_of(old_names, n);
        lemma_position_of(new_names, n);
        if n == name {
            lemma_position_iff(new_names, n, last);
        } else if position_of(old_names, n) is Some {
            let k = position_of(old_names, n)->Some_0;
            assert(new_names[k] == n);
            lemma_position_iff(new_names, n, k);
        } else if position_of(new_names, n) is Some {
            let k = position_of(new_names, n)->Some_0;
            assert(k < last);
            assert(old_names[k] == n);
            assert(old_names.contains(n));
        }
    }
    assert(table_map(after).dom() =~= want.dom());
    assert forall|n: Seq<u8>| #[trigger] table_map(after).dom().contains(n) implies table_map(
        after,
    )[n] == want[n] by {
        lemma_position_of(old_names, n);
        lemma_position_of(new_names, n);
        if n == name {
            lemma_position_iff(new_names, n, last);
        } else {
            let k = position_of(new_names, n)->Some_0;
            assert(k < last);
            assert(old_names[k] == n);
            lemma_position_iff(old_names, n, k);
        }
    }
    assert(table_map(after) =~= want);
}

/// A table of entries with distinct names has as many names as entries.
pub proof fn lemma_table_map_len(entries: Seq<EntryView>)
    requires
        distinct(entry_names(entries)),
    ensures
        table_map(entries).dom().finite(),
        table_map(entries).dom().len() == entries.len(),
    decreases entries.len(),
{
    let names = entry_names(entries);
    if entries.len() == 0 {
        assert forall|n: Seq<u8>| position_of(names, n) is None by {
            lemma_absent_is_none(names, n);
        }
        assert(table_map(entries).dom() =~= Set::<Seq<u8>>::empty());
    } else {
        let front = entries.drop_last();
        let last = entries.len() - 1;
        assert(entries =~= front.push(entries[last]));
        assert(entry_names(front) =~= names.drop_last());
        assert(distinct(entry_names(front))) by {
            assert forall|a: int, b: int| 0 <= a < b < front.len() implies (#[trigger] entry_names(
                front,
            )[a]) != (#[trigger] entry_names(front)[b]) by {
                assert(names[a] != names[b]);
            }
        }
        assert(!entry_names(front).contains(names[last])) by {
            if entry_names(front).contains(names[last]) {
                let k = choose|k: int|
                    0 <= k < entry_names(front).len() && entry_names(front)[k] == names[last];
                assert(names[k] != names[last]);
            }
        }
        lemma_table_map_len(front);
        lemma_table_map_push(front, entries[last]);
    }
}

} // verus!
