//! What holds of the store and of the commands, whatever the inputs.

use crate::command::{
    add_outcome, get_outcome, list_text, remove_outcome, resolve_outcome, run_outcome,
    show_actions, App, SpecAction,
};
use crate::document::{holds_mapping, read_entries, written_document};
use crate::failure::SpecFailure;
use crate::order::{lemma_before_irreflexive, lemma_before_transitive, name_before, names_ascend};
use crate::store::{
    lemma_pair_at, lemma_pairs_distinct, lemma_pairs_domain, lemma_pairs_insert,
    lemma_pairs_remove, lemma_slot_exists, lemma_slot_misses, pair_map, pair_names, pairs_insert,
    pairs_remove, pairs_wf, slot, Store,
};
use vstd::prelude::*;

verus! {

/// A document that is written out for entries reads back as a document that
/// holds their mapping: the same names, each with the same id.
pub proof fn lemma_round_trip(entries: Seq<(Seq<char>, Seq<char>)>)
    ensures
        written_document(entries) matches Ok(text) ==> holds_mapping(text, entries),
        written_document(entries) matches Ok(text) ==> (read_entries(text) matches Ok(read)
            && pair_map(read) == pair_map(entries)),
{
}

/// Adding under a name that was just added under leaves what adding the
/// second id alone would have left: one entry of that name, with the id
/// that was added last. So adding the same name and id twice is adding them
/// once.
pub proof fn lemma_add_again(
    pairs: Seq<(Seq<char>, Seq<char>)>,
    name: Seq<char>,
    first: Seq<char>,
    second: Seq<char>,
)
    requires
        names_ascend(pair_names(pairs)),
    ensures
        pairs_insert(pairs_insert(pairs, name, first), name, second) == pairs_insert(
            pairs,
            name,
            second,
        ),
        pair_names(pairs_insert(pairs, name, second)).to_multiset().count(name) == 1,
        pair_map(pairs_insert(pairs, name, second)).contains_key(name),
        pair_map(pairs_insert(pairs, name, second))[name] == second,
{
    let names = pair_names(pairs);
    let once = pairs_insert(pairs, name, first);
    let after = pairs_insert(pairs, name, second);

    lemma_pairs_distinct(pairs);
    lemma_pairs_insert(pairs, name, first);
    assert(pair_map(once).contains_key(name));
    if names.contains(name) {
        assert(pair_names(once) =~= names);
    } else {
        lemma_slot_exists(names, name);
        let at = slot(names, name);
        assert(pair_names(once) =~= names.insert(at, name));
        assert(pair_names(once)[at] == name);
    }
    assert(pairs_insert(once, name, second) =~= after);

    lemma_pairs_insert(pairs, name, second);
    assert(pair_map(after).contains_key(name));
    pair_names(after).lemma_multiset_has_no_duplicates();
    pair_names(after).to_multiset_ensures();
}

/// What a store maps decides its entries and their order: two lists of
/// entries in the order of their names that stand for the same mapping are
/// the same list. So stores that are equal list alike.
pub proof fn lemma_same_mapping_same_entries(
    first: Seq<(Seq<char>, Seq<char>)>,
    second: Seq<(Seq<char>, Seq<char>)>,
)
    requires
        names_ascend(pair_names(first)),
        names_ascend(pair_names(second)),
        pair_map(first) == pair_map(second),
    ensures
        first == second,
    decreases first.len(),
{
    lemma_pairs_distinct(first);
    lemma_pairs_distinct(second);
    lemma_pairs_domain(first);
    lemma_pairs_domain(second);
    if first.len() == 0 {
        assert(first =~= second);
    } else {
        let names = pair_names(first);
        let others = pair_names(second);
        let last = first.last().0;
        let other = second.last().0;
        lemma_pair_at(first, first.len() - 1);
        lemma_pair_at(second, second.len() - 1);
        assert(pair_map(second).contains_key(last));
        assert(pair_map(first).contains_key(other));
        if last != other {
            let k = others.index_of(last);
            let m = names.index_of(other);
            assert(name_before(others[k], others[second.len() - 1]));
            assert(name_before(names[m], names[first.len() - 1]));
            lemma_before_transitive(last, other, last);
            lemma_before_irreflexive(last);
        }
        lemma_pairs_remove(first, last);
        lemma_pairs_remove(second, last);
        assert(pairs_remove(first, last) =~= first.drop_last());
        assert(pairs_remove(second, last) =~= second.drop_last());
        lemma_same_mapping_same_entries(first.drop_last(), second.drop_last());
        assert(first =~= first.drop_last().push(first.last()));
        assert(second =~= second.drop_last().push(second.last()));
    }
}

/// Stores that map alike hold the same entries in the same order and list
/// as the same text, whatever the order in which their entries were added.
pub proof fn lemma_equal_stores_list_alike(first: Store, second: Store)
    requires
        first.wf(),
        second.wf(),
        first@ == second@,
    ensures
        first.pairs() == second.pairs(),
        list_text(first.names()) == list_text(second.names()),
{
    lemma_same_mapping_same_entries(first.pairs(), second.pairs());
}

/// Adding two names in either order leaves the same entries.
pub proof fn lemma_adds_commute(
    pairs: Seq<(Seq<char>, Seq<char>)>,
    name: Seq<char>,
    id: Seq<char>,
    other_name: Seq<char>,
    other_id: Seq<char>,
)
    requires
        names_ascend(pair_names(pairs)),
        name != other_name,
    ensures
        pairs_insert(pairs_insert(pairs, name, id), other_name, other_id) == pairs_insert(
            pairs_insert(pairs, other_name, other_id),
            name,
            id,
        ),
{
    let one = pairs_insert(pairs, name, id);
    let two = pairs_insert(pairs, other_name, other_id);
    lemma_pairs_insert(pairs, name, id);
    lemma_pairs_insert(pairs, other_name, other_id);
    lemma_pairs_insert(one, other_name, other_id);
    lemma_pairs_insert(two, name, id);
    assert(pair_map(pairs).insert(name, id).insert(other_name, other_id) =~= pair_map(
        pairs,
    ).insert(other_name, other_id).insert(name, id));
    lemma_same_mapping_same_entries(
        pairs_insert(one, other_name, other_id),
        pairs_insert(two, name, id),
    );
}

/// Adding under the empty name is refused, whatever the id and the store:
/// nothing is written and nothing confirmed.
pub proof fn lemma_add_refuses_empty_name(id: Seq<char>, pairs: Seq<(Seq<char>, Seq<char>)>)
    ensures
        add_outcome(Some(seq![Seq::<char>::empty(), id]), pairs) == Err::<
            Seq<SpecAction>,
            SpecFailure,
        >(SpecFailure::NameEmpty),
{
}

/// Adding keeps the entries those of a store: with a name that is not empty
/// no name is empty afterwards and none occurs twice.
pub proof fn lemma_add_keeps_names_filled(
    pairs: Seq<(Seq<char>, Seq<char>)>,
    name: Seq<char>,
    id: Seq<char>,
)
    requires
        pairs_wf(pairs),
        name.len() > 0,
    ensures
        pairs_wf(pairs_insert(pairs, name, id)),
{
    lemma_pairs_insert(pairs, name, id);
}

/// Removing a name that is not stored leaves the entries as they are, and
/// the command writes nothing: it only says that the name was not found.
pub proof fn lemma_remove_absent(pairs: Seq<(Seq<char>, Seq<char>)>, name: Seq<char>)
    requires
        !pair_names(pairs).contains(name),
    ensures
        pairs_remove(pairs, name) == pairs,
        remove_outcome(Some(name), pairs) == Ok::<Seq<SpecAction>, SpecFailure>(
            seq![SpecAction::Print("no id with name "@ + name + " found"@)],
        ),
{
}

/// Looking a name up right after an id was added under it finds that id.
pub proof fn lemma_lookup_after_add(
    pairs: Seq<(Seq<char>, Seq<char>)>,
    name: Seq<char>,
    id: Seq<char>,
    print: bool,
    no_copy: bool,
)
    requires
        names_ascend(pair_names(pairs)),
    ensures
        pair_map(pairs_insert(pairs, name, id)).contains_key(name),
        pair_map(pairs_insert(pairs, name, id))[name] == id,
        get_outcome(Some(name), print, no_copy, pair_map(pairs_insert(pairs, name, id))) == Ok::<
            Seq<SpecAction>,
            SpecFailure,
        >(show_actions(id, print, no_copy)),
{
    lemma_pairs_insert(pairs, name, id);
}

/// On a storage file that holds the mapping as it is after an add, looking
/// the added name up finds the added id.
pub proof fn lemma_lookup_after_add_on_file(
    pairs: Seq<(Seq<char>, Seq<char>)>,
    name: Seq<char>,
    id: Seq<char>,
    file: Seq<char>,
    lookup: App,
)
    requires
        names_ascend(pair_names(pairs)),
        holds_mapping(file, pairs_insert(pairs, name, id)),
        lookup.commands() == 1,
        lookup.name.deep_view() == Some(name),
    ensures
        run_outcome(lookup, file) == Ok::<Seq<SpecAction>, SpecFailure>(
            show_actions(id, lookup.print, lookup.no_copy),
        ),
{
    lemma_lookup_after_add(pairs, name, id, lookup.print, lookup.no_copy);
}

/// On a storage file that holds the mapping as it is after a name was
/// removed, removing that name again writes nothing: it only says that the
/// name was not found.
pub proof fn lemma_remove_again_on_file(
    pairs: Seq<(Seq<char>, Seq<char>)>,
    name: Seq<char>,
    file: Seq<char>,
    remove: App,
)
    requires
        names_ascend(pair_names(pairs)),
        holds_mapping(file, pairs_remove(pairs, name)),
        remove.commands() == 1,
        remove.remove.deep_view() == Some(name),
    ensures
        run_outcome(remove, file) == Ok::<Seq<SpecAction>, SpecFailure>(
            seq![SpecAction::Print("no id with name "@ + name + " found"@)],
        ),
{
    let read = read_entries(file)->Ok_0;
    lemma_pairs_distinct(pairs);
    lemma_pairs_distinct(read);
    lemma_pairs_remove(pairs, name);
    lemma_pairs_domain(read);
}

/// Where adding a name and an id to the store of a file has written a new
/// file, looking the name up in the new file finds the id.
pub proof fn lemma_add_then_lookup(
    add: App,
    lookup: App,
    name: Seq<char>,
    id: Seq<char>,
    before: Seq<char>,
    after: Seq<char>,
)
    requires
        add.commands() == 1,
        add.add.deep_view() == Some(seq![name, id]),
        read_entries(before) matches Ok(pairs) && pairs_wf(pairs),
        run_outcome(add, before) matches Ok(actions) && actions[0] == SpecAction::Write(after),
        lookup.commands() == 1,
        lookup.name.deep_view() == Some(name),
    ensures
        run_outcome(lookup, after) == Ok::<Seq<SpecAction>, SpecFailure>(
            show_actions(id, lookup.print, lookup.no_copy),
        ),
{
    let pairs = read_entries(before)->Ok_0;
    lemma_round_trip(pairs_insert(pairs, name, id));
    lemma_lookup_after_add_on_file(pairs, name, id, after, lookup);
}

/// Where removing a name from the store of a file has written a new file,
/// removing the name from the store of the new file writes nothing: it only
/// says that the name was not found.
pub proof fn lemma_remove_then_remove(
    remove: App,
    name: Seq<char>,
    before: Seq<char>,
    after: Seq<char>,
)
    requires
        remove.commands() == 1,
        remove.remove.deep_view() == Some(name),
        read_entries(before) matches Ok(pairs) && pairs_wf(pairs),
        run_outcome(remove, before) matches Ok(actions) && actions[0] == SpecAction::Write(after),
    ensures
        run_outcome(remove, after) == Ok::<Seq<SpecAction>, SpecFailure>(
            seq![SpecAction::Print("no id with name "@ + name + " found"@)],
        ),
{
    let pairs = read_entries(before)->Ok_0;
    lemma_round_trip(pairs_remove(pairs, name));
    lemma_remove_again_on_file(pairs, name, after, remove);
}

/// Listing no names gives the plain statement that there are none, which is
/// not an empty text.
pub proof fn lemma_list_of_nothing()
    ensures
        list_text(Seq::<Seq<char>>::empty()) == "no ids found"@,
        list_text(Seq::<Seq<char>>::empty()).len() > 0,
{
    reveal_strlit("no ids found");
}

/// With two or more commands given, the invocation is a usage failure
/// whatever the store and the storage file hold: neither has a part in the
/// outcome.
pub proof fn lemma_commands_exclude_each_other(
    app: App,
    pairs: Seq<(Seq<char>, Seq<char>)>,
    file: Seq<char>,
)
    requires
        app.commands() >= 2,
    ensures
        resolve_outcome(app, pairs) == Err::<Seq<SpecAction>, SpecFailure>(SpecFailure::Usage),
        run_outcome(app, file) == Err::<Seq<SpecAction>, SpecFailure>(SpecFailure::Usage),
{
}

} // verus!
