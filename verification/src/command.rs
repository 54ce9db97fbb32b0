//! From what was asked for to what is to be done.
//!
//! Each command is a function from the arguments and the store to a list of
//! actions or a failure. Nothing here reads, writes, prints or copies.

use crate::document::{document_view, get_data, read_entries, to_document, written_document};
use crate::failure::{Failure, SpecFailure};
use crate::order::names_ascend;
use crate::store::{
    lemma_pairs_distinct, lemma_pairs_domain, pair_map, pair_names, pairs_insert, pairs_remove,
    Store,
};
use crate::text::{join, joined};
use vstd::prelude::*;

verus! {

/// The arguments of one invocation, as they were given.
#[derive(Debug, Clone, PartialEq, Eq)]
pub struct App {
    /// The name of the id to get.
    pub name: Option<String>,
    /// Print the id on the console.
    pub print: bool,
    /// Do not copy the id to the system clipboard.
    pub no_copy: bool,
    /// List all stored id names.
    pub list: bool,
    /// Add the given name and id to the store.
    pub add: Option<Vec<String>>,
    /// Remove the id of the given name from the store.
    pub remove: Option<String>,
}

/// The one command of an invocation.
#[derive(Debug, Clone, Copy, PartialEq, Eq)]
pub enum Intent {
    /// Get the id stored under a name; the default.
    Lookup,
    /// Show the names.
    List,
    /// Store an id under a name.
    Add,
    /// Drop a name and its id.
    Remove,
}

/// One effect for the caller to perform. A list of them is performed in
/// order, and the first that fails ends the invocation.
#[derive(Debug, Clone, PartialEq, Eq)]
pub enum Action {
    /// Write the text and a line break to standard output.
    Print(String),
    /// Replace the contents of the storage file by the text.
    Write(String),
    /// Set the system clipboard to the text.
    Copy(String),
}

/// An action as contracts speak of it.
pub enum SpecAction {
    /// A line on standard output.
    Print(Seq<char>),
    /// New contents of the storage file.
    Write(Seq<char>),
    /// New contents of the clipboard.
    Copy(Seq<char>),
}

impl View for Action {
    type V = SpecAction;

    open spec fn view(&self) -> SpecAction {
        match self {
            Action::Print(text) => SpecAction::Print(text@),
            Action::Write(text) => SpecAction::Write(text@),
            Action::Copy(text) => SpecAction::Copy(text@),
        }
    }
}

impl DeepView for Action {
    type V = SpecAction;

    open spec fn deep_view(&self) -> SpecAction {
        self@
    }
}

/// What a command comes to, as contracts speak of it.
pub open spec fn outcome_view(outcome: Result<Vec<Action>, Failure>) -> Result<
    Seq<SpecAction>,
    SpecFailure,
> {
    match outcome {
        Ok(actions) => Ok(actions.deep_view()),
        Err(failure) => Err(failure@),
    }
}

/// The text that lists the names: one name to a line, or the plain statement
/// that there are none.
pub open spec fn list_text(names: Seq<Seq<char>>) -> Seq<char> {
    if names.len() == 0 {
        "no ids found"@
    } else {
        joined(names, "\n"@)
    }
}

/// What a change to the store comes to once the store is written out: the
/// document is written to the storage file and the change confirmed; where
/// there is no document, nothing is done.
pub open spec fn change_outcome(
    document: Result<Seq<char>, SpecFailure>,
    confirmation: Seq<char>,
) -> Result<Seq<SpecAction>, SpecFailure> {
    match document {
        Ok(text) => Ok(seq![SpecAction::Write(text), SpecAction::Print(confirmation)]),
        Err(failure) => Err(failure),
    }
}

/// What adding comes to: the entry is inserted, the store written and the
/// name confirmed. Without exactly two operands, or with an empty name,
/// nothing is done.
pub open spec fn add_outcome(
    operands: Option<Seq<Seq<char>>>,
    pairs: Seq<(Seq<char>, Seq<char>)>,
) -> Result<Seq<SpecAction>, SpecFailure> {
    match operands {
        None => Err(SpecFailure::AddNotSpecified),
        Some(given) => if given.len() != 2 {
            Err(SpecFailure::AddIncomplete)
        } else if given[0].len() == 0 {
            Err(SpecFailure::NameEmpty)
        } else {
            change_outcome(
                written_document(pairs_insert(pairs, given[0], given[1])),
                "added id with name "@ + given[0],
            )
        },
    }
}

/// What removing comes to: the entry is taken out, the store written and
/// the name confirmed; where the name is not stored, that is said and
/// nothing is written.
pub open spec fn remove_outcome(
    operand: Option<Seq<char>>,
    pairs: Seq<(Seq<char>, Seq<char>)>,
) -> Result<Seq<SpecAction>, SpecFailure> {
    match operand {
        None => Err(SpecFailure::RemoveNotSpecified),
        Some(name) => if !pair_names(pairs).contains(name) {
            Ok(seq![SpecAction::Print("no id with name "@ + name + " found"@)])
        } else {
            change_outcome(
                written_document(pairs_remove(pairs, name)),
                "removed id with name "@ + name,
            )
        },
    }
}

/// What showing an id comes to: it is printed where that was asked for,
/// then copied and the copy confirmed unless that was declined.
pub open spec fn show_actions(id: Seq<char>, print: bool, no_copy: bool) -> Seq<SpecAction> {
    let printed = if print {
        seq![SpecAction::Print(id)]
    } else {
        Seq::<SpecAction>::empty()
    };
    let copied = if no_copy {
        Seq::<SpecAction>::empty()
    } else {
        seq![SpecAction::Copy(id), SpecAction::Print("copied id to the clipboard"@)]
    };
    printed + copied
}

/// What looking up comes to.
pub open spec fn get_outcome(
    operand: Option<Seq<char>>,
    print: bool,
    no_copy: bool,
    ids: Map<Seq<char>, Seq<char>>,
) -> Result<Seq<SpecAction>, SpecFailure> {
    match operand {
        None => Err(SpecFailure::NameNotSpecified),
        Some(name) => if ids.contains_key(name) {
            Ok(show_actions(ids[name], print, no_copy))
        } else {
            Err(SpecFailure::NotFound(name))
        },
    }
}

impl App {
    /// How many of the four commands were given.
    pub open spec fn commands(&self) -> nat {
        (if self.name is Some {
            1nat
        } else {
            0nat
        }) + (if self.list {
            1nat
        } else {
            0nat
        }) + (if self.add is Some {
            1nat
        } else {
            0nat
        }) + (if self.remove is Some {
            1nat
        } else {
            0nat
        })
    }

    /// The command that was given, where it is the only one.
    pub open spec fn selected(&self) -> Intent {
        if self.list {
            Intent::List
        } else if self.add is Some {
            Intent::Add
        } else if self.remove is Some {
            Intent::Remove
        } else {
            Intent::Lookup
        }
    }

    /// The one command of the invocation. Two or more are a usage failure;
    /// with none, a lookup is meant.
    pub fn intent(&self) -> (intent: Result<Intent, Failure>)
        ensures
            intent == if self.commands() >= 2 {
                Err::<Intent, Failure>(Failure::Usage)
            } else {
                Ok(self.selected())
            },
    {
        let mut given: u8 = 0;
        if self.name.is_some() {
            given += 1;
        }
        if self.list {
            given += 1;
        }
        if self.add.is_some() {
            given += 1;
        }
        if self.remove.is_some() {
            given += 1;
        }
        if given >= 2 {
            Err(Failure::Usage)
        } else if self.list {
            Ok(Intent::List)
        } else if self.add.is_some() {
            Ok(Intent::Add)
        } else if self.remove.is_some() {
            Ok(Intent::Remove)
        } else {
            Ok(Intent::Lookup)
        }
    }
}

/// The text that lists the names of the store, in their order: what the
/// store maps decides the text.
pub fn list_names(data: &Store) -> (text: String)
    ensures
        text@ == list_text(data.names()),
        names_ascend(data.names()),
        data.names().to_set() == data@.dom(),
{
    proof {
        use_type_invariant(data);
        lemma_pairs_distinct(data.pairs());
        lemma_pairs_domain(data.pairs());
    }
    match data.list() {
        None => "no ids found".to_owned(),
        Some(names) => join(names, "\n"),
    }
}

/// The actions that follow a change to the store, given the document that
/// holds the store after the change: the document is written to the storage
/// file, then the change is confirmed. Without a document nothing is done.
pub fn write_and_confirm(document: Result<String, Failure>, confirmation: String) -> (done: Result<
    Vec<Action>,
    Failure,
>)
    ensures
        outcome_view(done) == change_outcome(document_view(document), confirmation@),
        document matches Err(failure) ==> done == Err::<Vec<Action>, Failure>(failure),
{
    match document {
        Ok(text) => {
            let actions = vec![Action::Write(text), Action::Print(confirmation)];
            assert(actions.deep_view() =~= seq![actions[0]@, actions[1]@]);
            Ok(actions)
        },
        Err(failure) => Err(failure),
    }
}

/// Adds the name and id that the arguments give to the store.
pub fn add_id(app: App, data: Store) -> (done: Result<Vec<Action>, Failure>)
    ensures
        outcome_view(done) == add_outcome(app.add.deep_view(), data.pairs()),
{
    let mut data = data;
    let mut operands = match app.add {
        Some(operands) => operands,
        None => {
            return Err(Failure::AddNotSpecified);
        },
    };
    if operands.len() != 2 {
        return Err(Failure::AddIncomplete);
    }
    let name = operands.remove(0);
    let id = operands.remove(0);
    let mut message = "added id with name ".to_owned();
    message.append(name.as_str());
    match data.insert(name, id) {
        Ok(_) => write_and_confirm(to_document(&data), message),
        Err(failure) => Err(failure),
    }
}

/// Removes the id of the name that the arguments give from the store.
pub fn remove_id(app: App, data: Store) -> (done: Result<Vec<Action>, Failure>)
    ensures
        outcome_view(done) == remove_outcome(app.remove.deep_view(), data.pairs()),
{
    let mut data = data;
    let name = match app.remove {
        Some(name) => name,
        None => {
            return Err(Failure::RemoveNotSpecified);
        },
    };
    if data.remove(name.as_str()).is_none() {
        let mut message = "no id with name ".to_owned();
        message.append(name.as_str());
        message.append(" found");
        let actions = vec![Action::Print(message)];
        assert(actions.deep_view() =~= seq![actions[0]@]);
        return Ok(actions);
    }
    let mut message = "removed id with name ".to_owned();
    message.append(name.as_str());
    write_and_confirm(to_document(&data), message)
}

/// Gets the id of the name that the arguments give: printed, copied, both or
/// neither, as the flags say.
pub fn get_id(app: App, data: Store) -> (done: Result<Vec<Action>, Failure>)
    ensures
        outcome_view(done) == get_outcome(app.name.deep_view(), app.print, app.no_copy, data@),
{
    let name = match app.name {
        Some(name) => name,
        None => {
            return Err(Failure::NameNotSpecified);
        },
    };
    let id = match data.get(name.as_str()) {
        Some(id) => id.clone(),
        None => {
            return Err(Failure::NotFound(name));
        },
    };
    let mut actions: Vec<Action> = Vec::new();
    if app.print {
        actions.push(Action::Print(id.clone()));
    }
    if !app.no_copy {
        actions.push(Action::Copy(id));
        actions.push(Action::Print("copied id to the clipboard".to_owned()));
    }
    assert(actions.deep_view() =~= show_actions(data@[name@], app.print, app.no_copy));
    Ok(actions)
}

/// What the one command of the arguments comes to on a store with the given
/// entries. More than one command is a usage failure.
pub open spec fn resolve_outcome(app: App, pairs: Seq<(Seq<char>, Seq<char>)>) -> Result<
    Seq<SpecAction>,
    SpecFailure,
> {
    if app.commands() >= 2 {
        Err(SpecFailure::Usage)
    } else {
        match app.selected() {
            Intent::List => Ok(seq![SpecAction::Print(list_text(pair_names(pairs)))]),
            Intent::Add => add_outcome(app.add.deep_view(), pairs),
            Intent::Remove => remove_outcome(app.remove.deep_view(), pairs),
            Intent::Lookup => get_outcome(
                app.name.deep_view(),
                app.print,
                app.no_copy,
                pair_map(pairs),
            ),
        }
    }
}

/// Carries out the one command of the arguments on the store, and says what
/// is to be done.
pub fn resolve(app: App, data: Store) -> (done: Result<Vec<Action>, Failure>)
    ensures
        outcome_view(done) == resolve_outcome(app, data.pairs()),
{
    let intent = match app.intent() {
        Ok(intent) => intent,
        Err(failure) => {
            return Err(failure);
        },
    };
    match intent {
        Intent::List => {
            let actions = vec![Action::Print(list_names(&data))];
            assert(actions.deep_view() =~= seq![actions[0]@]);
            Ok(actions)
        },
        Intent::Add => add_id(app, data),
        Intent::Remove => remove_id(app, data),
        Intent::Lookup => get_id(app, data),
    }
}

/// What one invocation comes to, given the arguments and the text of the
/// storage file. More than one command fails before the text is looked at;
/// a text that is no document fails before the operands are.
pub open spec fn run_outcome(app: App, text: Seq<char>) -> Result<Seq<SpecAction>, SpecFailure> {
    if app.commands() >= 2 {
        Err(SpecFailure::Usage)
    } else {
        match read_entries(text) {
            Err(failure) => Err(failure),
            Ok(pairs) => resolve_outcome(app, pairs),
        }
    }
}

/// Carries out the one command of the invocation on the store that the text
/// of the storage file holds, and says what is to be done. The empty text,
/// which is that of a file just created, holds the empty store.
pub fn run(app: App, data_str: &str) -> (done: Result<Vec<Action>, Failure>)
    ensures
        outcome_view(done) == run_outcome(app, data_str@),
        data_str@.len() == 0 ==> outcome_view(done) == resolve_outcome(
            app,
            Seq::<(Seq<char>, Seq<char>)>::empty(),
        ),
{
    if let Err(failure) = app.intent() {
        return Err(failure);
    }
    match get_data(data_str) {
        Ok(data) => {
            assert(data_str@.len() == 0 ==> data.pairs() =~= Seq::empty());
            resolve(app, data)
        },
        Err(failure) => Err(failure),
    }
}

} // verus!
