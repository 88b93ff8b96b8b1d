//! What the command line hands to a query: criteria and the password.

use crate::text::{first, lemma_first_is};
use vstd::prelude::*;
use vstd::std_specs::iter::IteratorSpec;
use vstd::string::*;

verus! {

/// What is said of an argument without a colon.
pub open spec fn no_colon(text: Seq<char>) -> Seq<char> {
    "invalid KEY:value: no `:` found in `"@ + text + "`"@
}

/// The criterion that an argument of the form `KEY:value` names: what
/// stands before its first colon, and what stands after it.
pub open spec fn key_val(text: Seq<char>) -> Result<(Seq<char>, Seq<char>), Seq<char>> {
    let at = first(text, ':');
    if at < text.len() {
        Ok((text.take(at), text.skip(at + 1)))
    } else {
        Err(no_colon(text))
    }
}

/// A parsed criterion as character sequences.
pub open spec fn key_val_view(r: Result<(String, String), String>) -> Result<
    (Seq<char>, Seq<char>),
    Seq<char>,
> {
    match r {
        Ok(pair) => Ok((pair.0@, pair.1@)),
        Err(said) => Err(said@),
    }
}

/// Splits an argument of the form `KEY:value` at its first colon.
pub fn parse_key_val(s: &str) -> (r: Result<(String, String), String>)
    ensures
        key_val_view(r) == key_val(s@),
{
    let len = s.unicode_len();
    let mut rest = s.chars();
    let mut at: usize = 0;
    proof {
        axiom_spec_iter(s);
    }
    while at < len
        invariant
            at <= len == s@.len(),
            rest.remaining() == s@.skip(at as int),
            forall|j: int| 0 <= j < at ==> s@[j] != ':',
        decreases len - at,
    {
        let ghost before = rest;
        let read = rest.next();
        proof {
            next_postcondition(&before, &rest, read);
        }
        assert(read == Some(s@[at as int]));
        if read == Some(':') {
            proof {
                lemma_first_is(s@, ':', at as int);
            }
            let key = s.substring_char(0, at).to_owned();
            let value = s.substring_char(at + 1, len).to_owned();
            assert(s@.subrange(0, at as int) =~= s@.take(at as int));
            assert(s@.subrange(at + 1, len as int) =~= s@.skip(at + 1));
            return Ok((key, value));
        }
        at += 1;
    }
    proof {
        lemma_first_is(s@, ':', len as int);
    }
    let mut said = "invalid KEY:value: no `:` found in `".to_owned();
    said.append(s);
    said.append("`");
    Err(said)
}

/// Whether the password is to be read from the input: it is where `-`
/// stands in its place.
pub fn reads_password(provided: &str) -> (b: bool)
    ensures
        b == (provided@ == "-"@),
{
    let dash = "-".to_owned();
    provided.to_owned() == dash
}

/// The password: `provided` itself, or the line `piped` where `provided`
/// is `-`.
pub fn password(provided: &str, piped: &str) -> (word: String)
    ensures
        word@ == if provided@ == "-"@ {
            piped@
        } else {
            provided@
        },
{
    if reads_password(provided) {
        piped.to_owned()
    } else {
        provided.to_owned()
    }
}

} // verus!
