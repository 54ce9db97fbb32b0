//! The name-to-identifier mapping.

use crate::failure::{Failure, SpecFailure};
use crate::order::{
    lemma_ascend_distinct, lemma_before_irreflexive, lemma_before_total, lemma_before_transitive,
    name_before, names_ascend, precedes,
};
use vstd::prelude::*;
use vstd::set_lib::lemma_subset_equality;
use vstd::std_specs::cmp::PartialEqSpecImpl;

verus! {

/// A mapping from names to identifiers.
///
/// No name is empty and a name occurs at most once. The entries are held as
/// a list in the order of their names, which is the order in which they are
/// listed: what the store maps decides all of it.
#[derive(Debug)]
pub struct Store {
    entries: Vec<(String, String)>,
}

/// The names of a list of (name, identifier) pairs, in order.
pub open spec fn pair_names(pairs: Seq<(Seq<char>, Seq<char>)>) -> Seq<Seq<char>> {
    pairs.map_values(|pair: (Seq<char>, Seq<char>)| pair.0)
}

/// The mapping that a list of pairs with distinct names stands for.
pub open spec fn pair_map(pairs: Seq<(Seq<char>, Seq<char>)>) -> Map<Seq<char>, Seq<char>> {
    Map::new(
        |name: Seq<char>| pair_names(pairs).contains(name),
        |name: Seq<char>| pairs[pair_names(pairs).index_of(name)].1,
    )
}

/// Whether the pairs can be the entries of a store: no name is empty and
/// the names ascend, so that none occurs twice.
pub open spec fn pairs_wf(pairs: Seq<(Seq<char>, Seq<char>)>) -> bool {
    &&& names_ascend(pair_names(pairs))
    &&& forall|i: int| 0 <= i < pairs.len() ==> (#[trigger] pairs[i]).0.len() > 0
}

/// Whether `at` is where `name` belongs among names that ascend: behind
/// all that stand before it and before all the others.
pub open spec fn is_slot(names: Seq<Seq<char>>, name: Seq<char>, at: int) -> bool {
    &&& 0 <= at <= names.len()
    &&& forall|i: int| 0 <= i < at ==> name_before(#[trigger] names[i], name)
    &&& forall|i: int| at <= i < names.len() ==> !name_before(#[trigger] names[i], name)
}

/// Where `name` belongs among names that ascend.
pub open spec fn slot(names: Seq<Seq<char>>, name: Seq<char>) -> int {
    choose|at: int| is_slot(names, name, at)
}

/// The list of pairs after `name` has been given the identifier `id`: an
/// entry of that name keeps its place and takes the new identifier, a new
/// name goes where it belongs in the order of the names.
pub open spec fn pairs_insert(
    pairs: Seq<(Seq<char>, Seq<char>)>,
    name: Seq<char>,
    id: Seq<char>,
) -> Seq<(Seq<char>, Seq<char>)> {
    if pair_names(pairs).contains(name) {
        pairs.update(pair_names(pairs).index_of(name), (name, id))
    } else {
        pairs.insert(slot(pair_names(pairs), name), (name, id))
    }
}

/// The list of pairs without the entry called `name`; the others keep their
/// order.
pub open spec fn pairs_remove(
    pairs: Seq<(Seq<char>, Seq<char>)>,
    name: Seq<char>,
) -> Seq<(Seq<char>, Seq<char>)> {
    if pair_names(pairs).contains(name) {
        pairs.remove(pair_names(pairs).index_of(name))
    } else {
        pairs
    }
}

impl View for Store {
    type V = Map<Seq<char>, Seq<char>>;

    open spec fn view(&self) -> Map<Seq<char>, Seq<char>> {
        pair_map(self.pairs())
    }
}

impl Store {
    /// The entries as (name, identifier) pairs, in the order of their names.
    pub closed spec fn pairs(&self) -> Seq<(Seq<char>, Seq<char>)> {
        self.entries.deep_view()
    }

    /// The names in their order.
    pub open spec fn names(&self) -> Seq<Seq<char>> {
        pair_names(self.pairs())
    }

    /// No name is empty and the names ascend.
    #[verifier::type_invariant]
    pub open spec fn wf(&self) -> bool {
        pairs_wf(self.pairs())
    }

    /// An empty store.
    pub fn new() -> (store: Store)
        ensures
            store.pairs() == Seq::<(Seq<char>, Seq<char>)>::empty(),
            store@ == Map::<Seq<char>, Seq<char>>::empty(),
    {
        let store = Store { entries: Vec::new() };
        store
    }

    /// The store that holds the given pairs, in their order.
    pub(crate) fn from_distinct(pairs: Vec<(String, String)>) -> (store: Store)
        requires
            pairs_wf(pairs.deep_view()),
        ensures
            store.pairs() == pairs.deep_view(),
    {
        Store { entries: pairs }
    }

    /// Where the entry called `name` stands, if there is one.
    fn position(&self, name: &String) -> (found: Option<usize>)
        ensures
            found is Some <==> self.names().contains(name@),
            found matches Some(i) ==> i < self.pairs().len() && self.pairs()[i as int].0 == name@
                && self.names().index_of(name@) == i,
    {
        proof {
            use_type_invariant(self);
            lemma_ascend_distinct(self.names());
        }
        let mut i: usize = 0;
        while i < self.entries.len()
            invariant
                i <= self.entries.len(),
                self.entries.len() == self.pairs().len(),
                self.wf(),
                self.names().no_duplicates(),
                forall|j: int| 0 <= j < i ==> self.pairs()[j].0 != name@,
            decreases self.entries.len() - i,
        {
            if self.entries[i].0 == *name {
                proof {
                    lemma_pair_at(self.pairs(), i as int);
                }
                return Some(i);
            }
            i += 1;
        }
        None
    }

    /// The number of entries.
    pub fn len(&self) -> (n: usize)
        ensures
            n == self.pairs().len(),
            n == self@.len(),
    {
        proof {
            use_type_invariant(self);
            lemma_ascend_distinct(self.names());
            lemma_pairs_domain(self.pairs());
        }
        self.entries.len()
    }

    /// Whether the store holds no entry.
    pub fn is_empty(&self) -> (empty: bool)
        ensures
            empty <==> self.pairs().len() == 0,
            empty <==> self@.len() == 0,
    {
        self.len() == 0
    }

    /// The identifier stored under `name`.
    pub fn get(&self, name: &str) -> (id: Option<&String>)
        ensures
            match id {
                Some(found) => self@.contains_key(name@) && found@ == self@[name@],
                None => !self@.contains_key(name@),
            },
    {
        proof {
            use_type_invariant(self);
            lemma_ascend_distinct(self.names());
        }
        let key = name.to_owned();
        match self.position(&key) {
            Some(i) => {
                proof {
                    lemma_pair_at(self.pairs(), i as int);
                }
                Some(&self.entries[i].1)
            },
            None => None,
        }
    }

    /// Stores `id` under `name`, replacing what was stored under it, and
    /// hands back the identifier that was replaced. An empty name is
    /// refused, and the store left as it is.
    pub fn insert(&mut self, name: String, id: String) -> (done: Result<Option<String>, Failure>)
        ensures
            match done {
                Ok(previous) => {
                    &&& name@.len() > 0
                    &&& final(self).pairs() == pairs_insert(old(self).pairs(), name@, id@)
                    &&& final(self)@ == old(self)@.insert(name@, id@)
                    &&& match previous {
                        Some(replaced) => old(self)@.contains_key(name@) && replaced@ == old(
                            self,
                        )@[name@],
                        None => !old(self)@.contains_key(name@),
                    }
                },
                Err(failure) => {
                    &&& name@.len() == 0
                    &&& failure@ == SpecFailure::NameEmpty
                    &&& final(self).pairs() == old(self).pairs()
                },
            },
    {
        if name.as_str().is_empty() {
            return Err(Failure::NameEmpty);
        }
        proof {
            use_type_invariant(&*self);
            lemma_ascend_distinct(self.names());
            lemma_pairs_insert(self.pairs(), name@, id@);
        }
        let at = self.slot_of(&name);
        let found = at < self.entries.len() && self.entries[at].0 == name;
        // The list is taken out while it changes and put back when it is
        // whole again.
        let mut entries: Vec<(String, String)> = Vec::new();
        core::mem::swap(&mut self.entries, &mut entries);
        let previous = if found {
            proof {
                lemma_pair_at(old(self).pairs(), at as int);
            }
            let ghost new_id = id@;
            let mut id = id;
            core::mem::swap(&mut entries[at].1, &mut id);
            assert(entries.deep_view() =~= pairs_insert(old(self).pairs(), name@, new_id));
            Some(id)
        } else {
            proof {
                lemma_slot_misses(old(self).names(), name@, at as int);
            }
            entries.insert(at, (name, id));
            assert(entries.deep_view() =~= pairs_insert(old(self).pairs(), name@, id@));
            None
        };
        core::mem::swap(&mut self.entries, &mut entries);
        Ok(previous)
    }

    /// Where `name` belongs in the order of the names: behind all that
    /// stand before it.
    fn slot_of(&self, name: &String) -> (at: usize)
        ensures
            is_slot(self.names(), name@, at as int),
            at as int == slot(self.names(), name@),
    {
        proof {
            use_type_invariant(self);
            lemma_ascend_distinct(self.names());
        }
        let mut i: usize = 0;
        while i < self.entries.len() && precedes(self.entries[i].0.as_str(), name.as_str())
            invariant
                i <= self.entries.len(),
                self.entries.len() == self.pairs().len(),
                self.wf(),
                self.names().no_duplicates(),
                forall|j: int| 0 <= j < i ==> name_before(#[trigger] self.names()[j], name@),
            decreases self.entries.len() - i,
        {
            i += 1;
        }
        proof {
            lemma_slot_found(self.names(), name@, i as int);
        }
        i
    }

    /// Takes the entry called `name` out of the store and hands back its
    /// identifier. A store without that name is left as it is.
    pub fn remove(&mut self, name: &str) -> (removed: Option<String>)
        ensures
            final(self).pairs() == pairs_remove(old(self).pairs(), name@),
            final(self)@ == old(self)@.remove(name@),
            match removed {
                Some(id) => old(self)@.contains_key(name@) && id@ == old(self)@[name@],
                None => !old(self)@.contains_key(name@) && final(self).pairs() == old(
                    self,
                ).pairs(),
            },
    {
        proof {
            use_type_invariant(&*self);
            lemma_ascend_distinct(self.names());
            lemma_pairs_remove(self.pairs(), name@);
        }
        let key = name.to_owned();
        match self.position(&key) {
            Some(i) => {
                proof {
                    lemma_pair_at(self.pairs(), i as int);
                }
                let mut entries: Vec<(String, String)> = Vec::new();
                core::mem::swap(&mut self.entries, &mut entries);
                let entry = entries.remove(i);
                assert(entries.deep_view() =~= pairs_remove(old(self).pairs(), name@));
                core::mem::swap(&mut self.entries, &mut entries);
                Some(entry.1)
            },
            None => None,
        }
    }

    /// The names in their order, or `None` where the store is empty: there
    /// is then nothing to show, which is not the same as showing nothing.
    pub fn list(&self) -> (names: Option<Vec<String>>)
        ensures
            match names {
                Some(listed) => listed.deep_view() == self.names() && listed.len() > 0
                    && names_ascend(listed.deep_view()),
                None => self.pairs().len() == 0,
            },
    {
        proof {
            use_type_invariant(self);
        }
        if self.entries.len() == 0 {
            return None;
        }
        let mut listed: Vec<String> = Vec::new();
        let mut i: usize = 0;
        while i < self.entries.len()
            invariant
                i <= self.entries.len(),
                self.entries.len() == self.pairs().len(),
                listed.len() == i,
                forall|j: int| 0 <= j < i ==> listed[j]@ == self.pairs()[j].0,
            decreases self.entries.len() - i,
        {
            listed.push(self.entries[i].0.clone());
            i += 1;
        }
        assert(listed.deep_view() =~= self.names());
        Some(listed)
    }

    /// The entries as they are held: (name, identifier) pairs in the order
    /// of their names.
    pub fn entries(&self) -> (entries: &Vec<(String, String)>)
        ensures
            entries.deep_view() == self.pairs(),
    {
        &self.entries
    }
}

impl Clone for Store {
    fn clone(&self) -> (copy: Store)
        ensures
            copy.pairs() == self.pairs(),
    {
        proof {
            use_type_invariant(self);
            lemma_ascend_distinct(self.names());
        }
        let mut entries: Vec<(String, String)> = Vec::new();
        let mut i: usize = 0;
        while i < self.entries.len()
            invariant
                i <= self.entries.len(),
                self.entries.len() == self.pairs().len(),
                entries.len() == i,
                forall|j: int| 0 <= j < i ==> entries.deep_view()[j] == self.pairs()[j],
            decreases self.entries.len() - i,
        {
            entries.push((self.entries[i].0.clone(), self.entries[i].1.clone()));
            i += 1;
        }
        assert(entries.deep_view() =~= self.pairs());
        Store { entries }
    }
}

impl Default for Store {
    /// An empty store.
    fn default() -> (store: Store)
        ensures
            store.pairs() == Seq::<(Seq<char>, Seq<char>)>::empty(),
    {
        Store::new()
    }
}

impl PartialEq for Store {
    /// Two stores are equal where they hold the same mapping, in whatever
    /// order they list it.
    fn eq(&self, other: &Store) -> (same: bool) {
        proof {
            use_type_invariant(self);
            lemma_ascend_distinct(self.names());
            use_type_invariant(other);
            lemma_ascend_distinct(other.names());
            lemma_pairs_domain(self.pairs());
            lemma_pairs_domain(other.pairs());
        }
        if self.entries.len() != other.entries.len() {
            return false;
        }
        let mut i: usize = 0;
        while i < self.entries.len()
            invariant
                i <= self.entries.len(),
                self.entries.len() == self.pairs().len(),
                self.wf(),
                self.names().no_duplicates(),
                other.wf(),
                other.names().no_duplicates(),
                forall|j: int|
                    0 <= j < i ==> {
                        let name = #[trigger] self.pairs()[j].0;
                        other@.contains_key(name) && other@[name] == self.pairs()[j].1
                    },
            decreases self.entries.len() - i,
        {
            proof {
                lemma_pair_at(self.pairs(), i as int);
            }
            match other.position(&self.entries[i].0) {
                Some(at) => {
                    proof {
                        lemma_pair_at(other.pairs(), at as int);
                    }
                    if !(other.entries[at].1 == self.entries[i].1) {
                        return false;
                    }
                },
                None => {
                    return false;
                },
            }
            i += 1;
        }
        proof {
            assert forall|name: Seq<char>| self@.contains_key(name) implies other@.contains_key(
                name,
            ) && other@[name] == self@[name] by {
                let j = self.names().index_of(name);
                lemma_pair_at(self.pairs(), j);
            }
            lemma_subset_equality(self@.dom(), other@.dom());
            assert(self@ =~= other@);
        }
        true
    }
}

impl Eq for Store {

}

impl PartialEqSpecImpl for Store {
    open spec fn obeys_eq_spec() -> bool {
        true
    }

    open spec fn eq_spec(&self, other: &Store) -> bool {
        self@ == other@
    }
}

/// In a list with distinct names, the entry at position `i` is the one that
/// its name maps to.
pub proof fn lemma_pair_at(pairs: Seq<(Seq<char>, Seq<char>)>, i: int)
    requires
        pair_names(pairs).no_duplicates(),
        0 <= i < pairs.len(),
    ensures
        pair_names(pairs).contains(pairs[i].0),
        pair_names(pairs).index_of(pairs[i].0) == i,
        pair_map(pairs).contains_key(pairs[i].0),
        pair_map(pairs)[pairs[i].0] == pairs[i].1,
{
    assert(pair_names(pairs)[i] == pairs[i].0);
}

/// A list with distinct names stands for a finite mapping with as many
/// entries, whose names are those of the list.
pub proof fn lemma_pairs_domain(pairs: Seq<(Seq<char>, Seq<char>)>)
    requires
        pair_names(pairs).no_duplicates(),
    ensures
        pair_map(pairs).dom() == pair_names(pairs).to_set(),
        pair_map(pairs).dom().finite(),
        pair_map(pairs).len() == pairs.len(),
{
    pair_names(pairs).unique_seq_to_set();
}

/// Names that ascend are distinct, so the entries of a store hold no name
/// twice.
pub proof fn lemma_pairs_distinct(pairs: Seq<(Seq<char>, Seq<char>)>)
    requires
        names_ascend(pair_names(pairs)),
    ensures
        pair_names(pairs).no_duplicates(),
{
    lemma_ascend_distinct(pair_names(pairs));
}

/// Among names that ascend, a place behind all that stand before `name`
/// and at one that does not is where `name` belongs, and the only such
/// place.
pub proof fn lemma_slot_found(names: Seq<Seq<char>>, name: Seq<char>, at: int)
    requires
        names_ascend(names),
        0 <= at <= names.len(),
        forall|i: int| 0 <= i < at ==> name_before(#[trigger] names[i], name),
        at < names.len() ==> !name_before(names[at], name),
    ensures
        is_slot(names, name, at),
        slot(names, name) == at,
{
    assert forall|i: int| at <= i < names.len() implies !name_before(#[trigger] names[i], name) by {
        if at < i && name_before(names[i], name) {
            lemma_before_transitive(names[at], names[i], name);
        }
    }
    assert(is_slot(names, name, at));
    let chosen = slot(names, name);
    if chosen < at {
        assert(name_before(names[chosen], name));
    } else if at < chosen {
        assert(name_before(names[at], name));
    }
}

/// Among names that ascend there is a place where `name` belongs.
pub proof fn lemma_slot_exists(names: Seq<Seq<char>>, name: Seq<char>)
    requires
        names_ascend(names),
    ensures
        is_slot(names, name, slot(names, name)),
    decreases names.len(),
{
    if names.len() == 0 {
        assert(is_slot(names, name, 0));
    } else if name_before(names.last(), name) {
        assert forall|i: int| 0 <= i < names.len() implies name_before(
            #[trigger] names[i],
            name,
        ) by {
            if i < names.len() - 1 {
                lemma_before_transitive(names[i], names.last(), name);
            }
        }
        assert(is_slot(names, name, names.len() as int));
    } else {
        let shorter = names.drop_last();
        lemma_slot_exists(shorter, name);
        let at = slot(shorter, name);
        assert forall|i: int| 0 <= i < at implies name_before(#[trigger] names[i], name) by {
            assert(shorter[i] == names[i]);
        }
        assert forall|i: int| at <= i < names.len() implies !name_before(
            #[trigger] names[i],
            name,
        ) by {
            if i < names.len() - 1 {
                assert(shorter[i] == names[i]);
            }
        }
        assert(is_slot(names, name, at));
    }
}

/// Where the name at its place is another, the name is not among names
/// that ascend, and stands before all from its place on.
pub proof fn lemma_slot_misses(names: Seq<Seq<char>>, name: Seq<char>, at: int)
    requires
        names_ascend(names),
        is_slot(names, name, at),
        at < names.len() ==> names[at] != name,
    ensures
        !names.contains(name),
        forall|i: int| at <= i < names.len() ==> name_before(name, #[trigger] names[i]),
{
    lemma_before_irreflexive(name);
    assert forall|i: int| 0 <= i < names.len() implies names[i] != name by {
        if at < i && names[i] == name {
            assert(name_before(names[at], names[i]));
        }
    }
    assert forall|i: int| at <= i < names.len() implies name_before(name, #[trigger] names[i]) by {
        lemma_before_total(name, names[i]);
    }
}

/// Inserting into the list is inserting into the mapping, and keeps the
/// names in their order.
pub proof fn lemma_pairs_insert(pairs: Seq<(Seq<char>, Seq<char>)>, name: Seq<char>, id: Seq<char>)
    requires
        names_ascend(pair_names(pairs)),
    ensures
        names_ascend(pair_names(pairs_insert(pairs, name, id))),
        pair_names(pairs_insert(pairs, name, id)).no_duplicates(),
        pair_map(pairs_insert(pairs, name, id)) == pair_map(pairs).insert(name, id),
        pairs_wf(pairs) && name.len() > 0 ==> pairs_wf(pairs_insert(pairs, name, id)),
{
    let names = pair_names(pairs);
    let after = pairs_insert(pairs, name, id);
    let names_after = pair_names(after);
    lemma_ascend_distinct(names);
    if names.contains(name) {
        assert(names_after =~= names);
    } else {
        lemma_slot_exists(names, name);
        let at = slot(names, name);
        lemma_slot_misses(names, name, at);
        assert(names_after =~= names.insert(at, name));
        assert forall|i: int, j: int| 0 <= i < j < names_after.len() implies name_before(
            names_after[i],
            names_after[j],
        ) by {
            if j < at {
                assert(names_after[i] == names[i] && names_after[j] == names[j]);
            } else if j == at {
                assert(names_after[i] == names[i]);
            } else if i < at {
                assert(names_after[i] == names[i] && names_after[j] == names[j - 1]);
            } else if i == at {
                assert(names_after[j] == names[j - 1]);
            } else {
                assert(names_after[i] == names[i - 1] && names_after[j] == names[j - 1]);
            }
        }
        lemma_ascend_distinct(names_after);
        assert forall|k: Seq<char>| #[trigger]
            names_after.contains(k) <==> (k == name || names.contains(k)) by {
            if names.contains(k) {
                let j = names.index_of(k);
                if j < at {
                    assert(names_after[j] == k);
                } else {
                    assert(names_after[j + 1] == k);
                }
            }
            if k == name {
                assert(names_after[at] == k);
            }
            if names_after.contains(k) {
                let j = names_after.index_of(k);
                if j < at {
                    assert(names[j] == k);
                } else if j > at {
                    assert(names[j - 1] == k);
                }
            }
        }
        assert forall|k: Seq<char>| #[trigger]
            names_after.contains(k) implies after[names_after.index_of(k)].1 == (if k == name {
            id
        } else {
            pairs[names.index_of(k)].1
        }) by {
            let j = names_after.index_of(k);
            if k == name {
                assert(names_after[at] == k);
            } else {
                let j0 = names.index_of(k);
                if j0 < at {
                    assert(names_after[j0] == k);
                } else {
                    assert(names_after[j0 + 1] == k);
                }
            }
        }
        assert(pair_map(after) =~= pair_map(pairs).insert(name, id));
    }
    lemma_ascend_distinct(names_after);
}

/// Removing from the list is removing from the mapping, and keeps the names
/// distinct.
pub proof fn lemma_pairs_remove(pairs: Seq<(Seq<char>, Seq<char>)>, name: Seq<char>)
    requires
        pair_names(pairs).no_duplicates(),
    ensures
        pair_names(pairs_remove(pairs, name)).no_duplicates(),
        pair_map(pairs_remove(pairs, name)) == pair_map(pairs).remove(name),
        names_ascend(pair_names(pairs)) ==> names_ascend(pair_names(pairs_remove(pairs, name))),
        pairs_wf(pairs) ==> pairs_wf(pairs_remove(pairs, name)),
{
    let names = pair_names(pairs);
    let after = pairs_remove(pairs, name);
    let names_after = pair_names(after);
    if names.contains(name) {
        let i = names.index_of(name);
        assert(names_after =~= names.remove(i));
        assert forall|k: Seq<char>| #[trigger]
            names_after.contains(k) <==> (k != name && names.contains(k)) by {
            if names.contains(k) && k != name {
                let j = names.index_of(k);
                if j < i {
                    assert(names_after[j] == k);
                } else {
                    assert(names_after[j - 1] == k);
                }
            }
        }
    }
}

} // verus!
