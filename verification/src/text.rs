//! Joining pieces of text.

use vstd::prelude::*;

verus! {

/// The items with the separator put between each two neighbours: nothing
/// before the first and nothing after the last.
pub open spec fn interspersed(items: Seq<Seq<char>>, separator: Seq<char>) -> Seq<Seq<char>> {
    Seq::new(
        if items.len() == 0 {
            0nat
        } else {
            (2 * items.len() - 1) as nat
        },
        |i: int|
            if i % 2 == 0 {
                items[i / 2]
            } else {
                separator
            },
    )
}

/// The items written one after the other with the separator between them.
pub open spec fn joined(items: Seq<Seq<char>>, separator: Seq<char>) -> Seq<char> {
    interspersed(items, separator).flatten()
}

/// Calls `itertools::Itertools::intersperse` on the items and collects what
/// the adaptor yields. Trusted: the adaptor yields the items in their order
/// with a copy of the separator between each two of them.
#[verifier::external_body]
fn intersperse(items: Vec<String>, separator: String) -> (spread: Vec<String>)
    ensures
        spread.deep_view() == interspersed(items.deep_view(), separator@),
{
    itertools::Itertools::intersperse(items.into_iter(), separator).collect()
}

/// The pieces written one after the other.
pub fn concatenate(parts: &Vec<String>) -> (text: String)
    ensures
        text@ == parts.deep_view().flatten(),
{
    let mut text = String::new();
    let mut i: usize = 0;
    while i < parts.len()
        invariant
            i <= parts.len(),
            text@ == parts.deep_view().take(i as int).flatten(),
        decreases parts.len() - i,
    {
        proof {
            let done = parts.deep_view().take(i as int);
            done.lemma_flatten_push(parts[i as int]@);
            assert(parts.deep_view().take(i + 1) =~= done.push(parts[i as int]@));
        }
        text.append(parts[i].as_str());
        i += 1;
    }
    assert(parts.deep_view().take(parts.len() as int) =~= parts.deep_view());
    text
}

/// The items written one after the other with the separator between them.
pub fn join(items: Vec<String>, separator: &str) -> (text: String)
    ensures
        text@ == joined(items.deep_view(), separator@),
{
    let spread = intersperse(items, separator.to_owned());
    concatenate(&spread)
}

} // verus!
