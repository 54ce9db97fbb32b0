//! The order of names.

use vstd::prelude::*;
use vstd::utf8::char_u32_cast;

verus! {

/// Whether the first name stands before the second as strings are ordered:
/// by the first character in which they differ, a name before each that it
/// begins.
pub open spec fn name_before(first: Seq<char>, second: Seq<char>) -> bool
    decreases first.len(),
{
    if second.len() == 0 {
        false
    } else if first.len() == 0 {
        true
    } else if first[0] != second[0] {
        (first[0] as u32) < (second[0] as u32)
    } else {
        name_before(first.drop_first(), second.drop_first())
    }
}

/// Whether each name stands before all that follow it.
pub open spec fn names_ascend(names: Seq<Seq<char>>) -> bool {
    forall|i: int, j: int| 0 <= i < j < names.len() ==> name_before(names[i], names[j])
}

/// The characters of a text.
fn chars_of(text: &str) -> (chars: Vec<char>)
    ensures
        chars@ == text@,
{
    let mut chars: Vec<char> = Vec::new();
    for c in iter: text.chars()
        invariant
            iter.seq() == text@,
            chars@ == iter.seq().take(iter.index() as int),
    {
        assert(iter.seq().take(iter.index() + 1) =~= iter.seq().take(iter.index() as int).push(
            c,
        ));
        chars.push(c);
    }
    assert(text@.take(text@.len() as int) =~= text@);
    chars
}

/// Whether the first name stands before the second.
pub fn precedes(first: &str, second: &str) -> (before: bool)
    ensures
        before == name_before(first@, second@),
{
    let left = chars_of(first);
    let right = chars_of(second);
    let mut i: usize = 0;
    assert(first@.skip(0) =~= first@ && second@.skip(0) =~= second@);
    while i < left.len() && i < right.len()
        invariant
            i <= left.len(),
            i <= right.len(),
            left@ == first@,
            right@ == second@,
            name_before(first@, second@) == name_before(
                first@.skip(i as int),
                second@.skip(i as int),
            ),
        decreases left.len() - i,
    {
        if left[i] != right[i] {
            return (left[i] as u32) < (right[i] as u32);
        }
        assert(first@.skip(i as int).drop_first() =~= first@.skip(i + 1));
        assert(second@.skip(i as int).drop_first() =~= second@.skip(i + 1));
        i += 1;
    }
    i < right.len()
}

/// No name stands before itself.
pub proof fn lemma_before_irreflexive(name: Seq<char>)
    ensures
        !name_before(name, name),
    decreases name.len(),
{
    if name.len() > 0 {
        lemma_before_irreflexive(name.drop_first());
    }
}

/// A name that stands before a second stands before each that the second
/// stands before.
pub proof fn lemma_before_transitive(first: Seq<char>, second: Seq<char>, third: Seq<char>)
    requires
        name_before(first, second),
        name_before(second, third),
    ensures
        name_before(first, third),
    decreases first.len(),
{
    if first.len() > 0 && first[0] == second[0] && second[0] == third[0] {
        lemma_before_transitive(first.drop_first(), second.drop_first(), third.drop_first());
    }
}

/// Of two names that differ, one stands before the other.
pub proof fn lemma_before_total(first: Seq<char>, second: Seq<char>)
    requires
        first != second,
    ensures
        name_before(first, second) || name_before(second, first),
    decreases first.len(),
{
    if first.len() > 0 && second.len() > 0 && first[0] == second[0] {
        if first.drop_first() == second.drop_first() {
            assert(first =~= seq![first[0]] + first.drop_first());
            assert(second =~= seq![second[0]] + second.drop_first());
        }
        lemma_before_total(first.drop_first(), second.drop_first());
    } else if first.len() == 0 && second.len() == 0 {
        assert(first =~= second);
    } else if first.len() > 0 && second.len() > 0 {
        assert(first[0] as u32 != second[0] as u32) by {
            char_u32_cast(first[0], first[0] as u32);
            char_u32_cast(second[0], second[0] as u32);
        }
    }
}

/// Names that ascend are distinct.
pub proof fn lemma_ascend_distinct(names: Seq<Seq<char>>)
    requires
        names_ascend(names),
    ensures
        names.no_duplicates(),
{
    assert forall|i: int, j: int| 0 <= i < names.len() && 0 <= j < names.len() && i != j implies
        names[i] != names[j] by {
        lemma_before_irreflexive(names[i]);
        if i < j {
            assert(name_before(names[i], names[j]));
        } else {
            assert(name_before(names[j], names[i]));
        }
    }
}

} // verus!
