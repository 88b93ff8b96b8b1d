//! Character sequences as the contracts see them.

use vstd::prelude::*;

verus! {

/// A name and a value, as character sequences.
pub type Pair = (Seq<char>, Seq<char>);

/// The pairs as character sequences.
pub open spec fn pair_views(pairs: Seq<(String, String)>) -> Seq<Pair> {
    Seq::new(pairs.len(), |i: int| (pairs[i].0@, pairs[i].1@))
}

/// The text as a character sequence, where there is one.
pub open spec fn text_view(text: Option<String>) -> Option<Seq<char>> {
    match text {
        Some(s) => Some(s@),
        None => None,
    }
}

/// The index of the first `c` in the text; the length where there is none.
pub open spec fn first(text: Seq<char>, c: char) -> int
    decreases text.len(),
{
    if text.len() == 0 {
        0
    } else if text[0] == c {
        0
    } else {
        1 + first(text.drop_first(), c)
    }
}

/// `first` is the least index of a `c`.
pub proof fn lemma_first(text: Seq<char>, c: char)
    ensures
        0 <= first(text, c) <= text.len(),
        forall|j: int| 0 <= j < first(text, c) ==> text[j] != c,
        first(text, c) < text.len() ==> text[first(text, c)] == c,
    decreases text.len(),
{
    if text.len() > 0 && text[0] != c {
        let rest = text.drop_first();
        lemma_first(rest, c);
        assert forall|j: int| 0 <= j < first(text, c) implies text[j] != c by {
            if j > 0 {
                assert(text[j] == rest[j - 1]);
            }
        }
    }
}

/// An index before which no `c` stands, and which holds a `c` or is the
/// length, is the `first` of `c`.
pub proof fn lemma_first_is(text: Seq<char>, c: char, i: int)
    requires
        0 <= i <= text.len(),
        forall|j: int| 0 <= j < i ==> text[j] != c,
        i < text.len() ==> text[i] == c,
    ensures
        first(text, c) == i,
{
    lemma_first(text, c);
}

/// `str::starts_with` on a string pattern: whether the first characters of
/// `s` are those of `prefix`.
#[verifier::external_body]
pub(crate) fn starts_with(s: &str, prefix: &str) -> (b: bool)
    ensures
        b == prefix@.is_prefix_of(s@),
{
    s.starts_with(prefix)
}

} // verus!
