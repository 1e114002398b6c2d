//! Building text one character at a time.

use vstd::prelude::*;

verus! {

/// `String::push` of the standard library: the character is added at the end
/// of the string and nothing else changes. Taken from the standard library's
/// documentation, not proved here.
pub assume_specification[ String::push ](text: &mut String, ch: char)
    ensures
        final(text)@ == old(text)@.push(ch),
;

/// The text with every occurrence of `from` replaced by `to`.
pub open spec fn replaced(text: Seq<char>, from: char, to: char) -> Seq<char> {
    text.map_values(|c: char| if c == from { to } else { c })
}

/// How often `c` stands in `text`.
pub open spec fn occurrences(text: Seq<char>, c: char) -> nat
    decreases text.len(),
{
    if text.len() == 0 {
        0
    } else {
        occurrences(text.drop_last(), c) + if text.last() == c {
            1nat
        } else {
            0nat
        }
    }
}

/// Occurrences add up over the parts of a text.
pub proof fn lemma_occurrences_concat(front: Seq<char>, back: Seq<char>, c: char)
    ensures
        occurrences(front + back, c) == occurrences(front, c) + occurrences(back, c),
    decreases back.len(),
{
    if back.len() > 0 {
        lemma_occurrences_concat(front, back.drop_last(), c);
        assert((front + back).drop_last() =~= front + back.drop_last());
    }
}

/// A character that stands nowhere in a text occurs zero times in it.
pub proof fn lemma_occurrences_of_absent(text: Seq<char>, c: char)
    requires
        forall|i: int| 0 <= i < text.len() ==> text[i] != c,
    ensures
        occurrences(text, c) == 0,
    decreases text.len(),
{
    if text.len() > 0 {
        lemma_occurrences_of_absent(text.drop_last(), c);
    }
}

/// Replacing a character by another leaves none of the first behind, keeps
/// the length and changes no other character.
pub proof fn lemma_replaced(text: Seq<char>, from: char, to: char)
    requires
        from != to,
    ensures
        replaced(text, from, to).len() == text.len(),
        forall|i: int| 0 <= i < text.len() ==> #[trigger] replaced(text, from, to)[i] != from,
        forall|i: int|
            0 <= i < text.len() && text[i] != from ==> #[trigger] replaced(text, from, to)[i]
                == text[i],
        forall|i: int|
            0 <= i < text.len() && text[i] == from ==> #[trigger] replaced(text, from, to)[i]
                == to,
{
}

/// Copies `text`, writing `to` wherever `from` stands.
pub fn replace_char(text: &str, from: char, to: char) -> (result: String)
    ensures
        result@ == replaced(text@, from, to),
{
    broadcast use vstd::string::group_string_axioms;

    let mut result = String::new();
    for c in it: text.chars()
        invariant
            it.seq() == text@,
            result@ == replaced(text@.take(it.index() as int), from, to),
    {
        result.push(if c == from { to } else { c });
    }
    result
}

} // verus!
