//! The storage document: a flat TOML table of strings, one entry to a name.

use crate::failure::{Failure, SpecFailure};
use crate::nesting::{nesting, nests_within_bound, MAX_NESTING};
use crate::order::{lemma_ascend_distinct, names_ascend};
use crate::store::{pair_map, pair_names, pairs_wf, Store};
use std::collections::BTreeMap;
use vstd::prelude::*;
use vstd::string::to_string_from_display_ensures;

verus! {

/// The failure of `toml::from_str`, carried through as it is.
#[verifier::external_type_specification]
#[verifier::external_body]
pub struct ExDecodeError(toml::de::Error);

/// The failure of `toml::to_string_pretty`, carried through as it is.
#[verifier::external_type_specification]
#[verifier::external_body]
pub struct ExEncodeError(toml::ser::Error);

/// What `toml::from_str` makes of a text as a table of strings: its entries
/// in the order of their names, or what its failure says where it refuses
/// the text.
pub uninterp spec fn toml_entries(text: Seq<char>) -> Result<
    Seq<(Seq<char>, Seq<char>)>,
    Seq<char>,
>;

/// What `toml::to_string_pretty` makes of a table of strings that holds the
/// given entries: the text, or what its failure says.
pub uninterp spec fn toml_document(entries: Seq<(Seq<char>, Seq<char>)>) -> Result<
    Seq<char>,
    Seq<char>,
>;

/// What is said of a text that holds more openings and key dots than are
/// read.
pub const TOO_DEEP: &'static str = "the storage file nests too deeply to be read";

/// What is said of a document in which an id stands under the empty name.
pub const EMPTY_NAME: &'static str = "the storage file holds an id under an empty name";

/// Whether `message` is what the parser's failure says when it is shown.
pub open spec fn refusal_says(refusal: toml::de::Error, message: Seq<char>) -> bool {
    forall|shown: String| #[trigger]
        to_string_from_display_ensures::<toml::de::Error>(&refusal, shown) ==> shown@ == message
}

/// Whether `message` is what the serializer's failure says when it is shown.
pub open spec fn failure_says(failure: toml::ser::Error, message: Seq<char>) -> bool {
    forall|shown: String| #[trigger]
        to_string_from_display_ensures::<toml::ser::Error>(&failure, shown) ==> shown@ == message
}

/// Whether no name of the pairs is empty.
pub open spec fn names_filled(pairs: Seq<(Seq<char>, Seq<char>)>) -> bool {
    forall|i: int| 0 <= i < pairs.len() ==> (#[trigger] pairs[i]).0.len() > 0
}

/// Calls `toml::from_str` for a `BTreeMap<String, String>` and hands out the
/// entries of the map in its order.
///
/// The parser descends once for each array or inline table that opens and
/// for each part of a dotted key, and counts no depth; the text is to hold
/// no more of these than `MAX_NESTING`. `nesting` follows strings and
/// comments as the parser's tokenizer does, so it counts each `[`, `{` and
/// `.` that reaches the parser as a token.
///
/// Trusted: on such a text the parser returns; parsing depends on the text
/// alone, so the outcome is the one that `toml_entries` names, a failure by
/// what it says when shown; what comes out of a map holds no name twice and
/// comes in the order of the names; and the empty text is a table without
/// entries.
#[verifier::external_body]
fn parse_entries(text: &str) -> (parsed: Result<Vec<(String, String)>, toml::de::Error>)
    requires
        nesting(text@) <= MAX_NESTING,
    ensures
        match parsed {
            Ok(entries) => {
                &&& toml_entries(text@) == Ok::<Seq<(Seq<char>, Seq<char>)>, Seq<char>>(
                    entries.deep_view(),
                )
                &&& pair_names(entries.deep_view()).no_duplicates()
                &&& names_ascend(pair_names(entries.deep_view()))
            },
            Err(refusal) => toml_entries(text@) matches Err(message) && refusal_says(
                refusal,
                message,
            ),
        },
        text@.len() == 0 ==> parsed is Ok && parsed->Ok_0.len() == 0,
{
    toml::from_str::<BTreeMap<String, String>>(text).map(|table| table.into_iter().collect())
}

/// Calls `toml::to_string_pretty` on a `BTreeMap` of the entries, which are
/// to hold no name twice, so that the map holds them all. The map walks them
/// by name, so the text does not depend on anything but them.
///
/// Trusted: the outcome is the one that `toml_document` names, a failure by
/// what it says when shown.
#[verifier::external_body]
fn write_entries(entries: &Vec<(String, String)>) -> (written: Result<String, toml::ser::Error>)
    requires
        pair_names(entries.deep_view()).no_duplicates(),
    ensures
        match written {
            Ok(text) => toml_document(entries.deep_view()) == Ok::<Seq<char>, Seq<char>>(text@),
            Err(failure) => toml_document(entries.deep_view()) matches Err(message)
                && failure_says(failure, message),
        },
{
    let table: BTreeMap<&String, &String> =
        entries.iter().map(|entry| (&entry.0, &entry.1)).collect();
    toml::to_string_pretty(&table)
}

/// What reading a text as the storage file comes to: the entries that the
/// parser finds, unless the text nests too deeply to be handed to it, the
/// parser refuses it, or a name is empty.
pub open spec fn read_entries(text: Seq<char>) -> Result<Seq<(Seq<char>, Seq<char>)>, SpecFailure> {
    if nesting(text) > MAX_NESTING {
        Err(SpecFailure::Decode(TOO_DEEP@))
    } else {
        match toml_entries(text) {
            Err(message) => Err(SpecFailure::Decode(message)),
            Ok(entries) => if names_filled(entries) {
                Ok(entries)
            } else {
                Err(SpecFailure::Decode(EMPTY_NAME@))
            },
        }
    }
}

/// A store or the failure to read one, as contracts speak of it.
pub open spec fn data_view(data: Result<Store, Failure>) -> Result<
    Seq<(Seq<char>, Seq<char>)>,
    SpecFailure,
> {
    match data {
        Ok(store) => Ok(store.pairs()),
        Err(failure) => Err(failure@),
    }
}

/// Whether no name of the entries is empty.
fn all_names_filled(entries: &Vec<(String, String)>) -> (filled: bool)
    ensures
        filled == names_filled(entries.deep_view()),
{
    let mut i: usize = 0;
    while i < entries.len()
        invariant
            i <= entries.len(),
            forall|j: int| 0 <= j < i ==> (#[trigger] entries.deep_view()[j]).0.len() > 0,
        decreases entries.len() - i,
    {
        if entries[i].0.as_str().is_empty() {
            assert(entries.deep_view()[i as int].0.len() == 0);
            return false;
        }
        i += 1;
    }
    true
}

/// Reads the store out of the text of the storage file. The text of a file
/// that was just created, which is empty, gives the empty store; a store
/// that was read lists its names in their order.
pub fn get_data(data_str: &str) -> (data: Result<Store, Failure>)
    ensures
        data_view(data) == read_entries(data_str@),
        data matches Ok(store) ==> names_ascend(store.names()),
        data_str@.len() == 0 ==> (data matches Ok(store) && store.pairs().len() == 0),
{
    if !nests_within_bound(data_str) {
        return Err(Failure::Decode(TOO_DEEP.to_owned()));
    }
    match parse_entries(data_str) {
        Ok(entries) => if all_names_filled(&entries) {
            Ok(Store::from_distinct(entries))
        } else {
            Err(Failure::Decode(EMPTY_NAME.to_owned()))
        },
        Err(refusal) => Err(Failure::Decode(refusal.to_string())),
    }
}

/// Whether the text reads as a document that holds the mapping of the given
/// entries, in whatever order.
pub open spec fn holds_mapping(text: Seq<char>, entries: Seq<(Seq<char>, Seq<char>)>) -> bool {
    read_entries(text) matches Ok(read) && pairs_wf(read) && pair_map(read) == pair_map(entries)
}

/// Whether the text reads as a document that holds the same mapping as the
/// store.
pub fn reads_back(text: &str, data: &Store) -> (held: bool)
    ensures
        held == holds_mapping(text@, data.pairs()),
{
    match get_data(text) {
        Ok(read) => {
            proof {
                use_type_invariant(&read);
            }
            read == *data
        },
        Err(_) => false,
    }
}

/// A document or the failure to write one, as contracts speak of it.
pub open spec fn document_view(document: Result<String, Failure>) -> Result<
    Seq<char>,
    SpecFailure,
> {
    match document {
        Ok(text) => Ok(text@),
        Err(failure) => Err(failure@),
    }
}

/// What writing the entries out comes to: the text that
/// `toml::to_string_pretty` writes for them, provided that it reads back as
/// their mapping.
pub open spec fn written_document(entries: Seq<(Seq<char>, Seq<char>)>) -> Result<
    Seq<char>,
    SpecFailure,
> {
    match toml_document(entries) {
        Err(message) => Err(SpecFailure::Encode(message)),
        Ok(text) => if holds_mapping(text, entries) {
            Ok(text)
        } else {
            Err(SpecFailure::Unfaithful)
        },
    }
}

/// Writes the store out as the text of the storage file. The text is read
/// back before it is handed out: one that does not hold the mapping of the
/// store is withheld.
pub fn to_document(data: &Store) -> (document: Result<String, Failure>)
    ensures
        document_view(document) == written_document(data.pairs()),
        document matches Ok(written) ==> holds_mapping(written@, data.pairs()),
{
    proof {
        use_type_invariant(data);
        lemma_ascend_distinct(data.names());
    }
    match write_entries(data.entries()) {
        Ok(text) => if reads_back(text.as_str(), data) {
            Ok(text)
        } else {
            Err(Failure::Unfaithful)
        },
        Err(failure) => Err(Failure::Encode(failure.to_string())),
    }
}

} // verus!
