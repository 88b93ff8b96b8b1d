//! Search criteria and the search string they are sent as.

use crate::text::{first, lemma_first_is, pair_views, Pair};
use vstd::prelude::*;
use vstd::string::*;

verus! {

/// Whether `c` has the Unicode `White_Space` property.
pub open spec fn is_whitespace(c: char) -> bool {
    let n = c as u32;
    ||| 0x09 <= n <= 0x0D
    ||| n == 0x20
    ||| n == 0x85
    ||| n == 0xA0
    ||| n == 0x1680
    ||| 0x2000 <= n <= 0x200A
    ||| n == 0x2028
    ||| n == 0x2029
    ||| n == 0x202F
    ||| n == 0x205F
    ||| n == 0x3000
}

/// `s` without its leading whitespace.
pub open spec fn trim_start(s: Seq<char>) -> Seq<char>
    decreases s.len(),
{
    if s.len() > 0 && is_whitespace(s.first()) {
        trim_start(s.drop_first())
    } else {
        s
    }
}

/// `s` without its trailing whitespace.
pub open spec fn trim_end(s: Seq<char>) -> Seq<char>
    decreases s.len(),
{
    if s.len() > 0 && is_whitespace(s.last()) {
        trim_end(s.drop_last())
    } else {
        s
    }
}

/// `s` without its leading and trailing whitespace.
pub open spec fn trimmed(s: Seq<char>) -> Seq<char> {
    trim_end(trim_start(s))
}

/// The search term of one criterion: key, a space, value, trimmed at both ends.
pub open spec fn term(key: Seq<char>, value: Seq<char>) -> Seq<char> {
    trimmed(key + seq![' '] + value)
}

/// The terms joined by single spaces.
pub open spec fn joined(terms: Seq<Seq<char>>) -> Seq<char>
    decreases terms.len(),
{
    if terms.len() == 0 {
        Seq::empty()
    } else if terms.len() == 1 {
        terms[0]
    } else {
        joined(terms.drop_last()) + seq![' '] + terms.last()
    }
}

/// The terms of the criteria, in their order.
pub open spec fn terms(query: Seq<Pair>) -> Seq<Seq<char>> {
    Seq::new(query.len(), |i: int| term(query[i].0, query[i].1))
}

/// The search string of a sequence of criteria: their terms, joined.
pub open spec fn search_string(query: Seq<Pair>) -> Seq<char> {
    joined(terms(query))
}

/// Whether the text is not empty and neither starts nor ends with
/// whitespace.
pub open spec fn tight(s: Seq<char>) -> bool {
    s.len() > 0 && !is_whitespace(s.first()) && !is_whitespace(s.last())
}

/// What is left of a text without its leading whitespace is its end, and
/// starts with no whitespace.
pub proof fn lemma_trim_start(s: Seq<char>)
    ensures
        trim_start(s).len() <= s.len(),
        trim_start(s) == s.skip(s.len() - trim_start(s).len()),
        trim_start(s).len() > 0 ==> !is_whitespace(trim_start(s).first()),
        forall|i: int| 0 <= i < s.len() - trim_start(s).len() ==> is_whitespace(s[i]),
    decreases s.len(),
{
    if s.len() > 0 && is_whitespace(s.first()) {
        let rest = s.drop_first();
        lemma_trim_start(rest);
        let left = trim_start(rest);
        assert(rest.skip(rest.len() - left.len()) =~= s.skip(s.len() - left.len()));
        assert forall|i: int| 0 <= i < s.len() - left.len() implies is_whitespace(s[i]) by {
            if i > 0 {
                assert(s[i] == rest[i - 1]);
            }
        }
    } else {
        assert(s.skip(0) =~= s);
    }
}

/// What is left of a text without its trailing whitespace is its start,
/// and ends with no whitespace.
pub proof fn lemma_trim_end(s: Seq<char>)
    ensures
        trim_end(s).len() <= s.len(),
        trim_end(s) == s.take(trim_end(s).len() as int),
        trim_end(s).len() > 0 ==> !is_whitespace(trim_end(s).last()),
        forall|i: int| trim_end(s).len() <= i < s.len() ==> is_whitespace(s[i]),
    decreases s.len(),
{
    if s.len() > 0 && is_whitespace(s.last()) {
        let rest = s.drop_last();
        lemma_trim_end(rest);
        let left = trim_end(rest);
        assert(rest.take(left.len() as int) =~= s.take(left.len() as int));
        assert forall|i: int| left.len() <= i < s.len() implies is_whitespace(s[i]) by {
            if i < rest.len() {
                assert(s[i] == rest[i]);
            }
        }
    } else {
        assert(s.take(s.len() as int) =~= s);
    }
}

/// A trimmed text is empty or tight: trimming leaves no whitespace at
/// either end.
pub proof fn lemma_trimmed(s: Seq<char>)
    ensures
        trimmed(s).len() == 0 || tight(trimmed(s)),
{
    lemma_trim_start(s);
    lemma_trim_end(trim_start(s));
}

/// A tight text is its own trimming.
pub proof fn lemma_trimmed_tight(s: Seq<char>)
    requires
        tight(s),
    ensures
        trimmed(s) == s,
{
}

/// The term of a tight key and a tight value is the key, one space and
/// the value.
pub proof fn lemma_term_of_tight_pair(key: Seq<char>, value: Seq<char>)
    requires
        tight(key),
        tight(value),
    ensures
        term(key, value) == key + seq![' '] + value,
{
    let padded = key + seq![' '] + value;
    assert(padded.first() == key.first());
    assert(padded.last() == value.last());
}

/// The term of a tight key with an empty value is the key: the space
/// that would stand before the value is trimmed away.
pub proof fn lemma_term_of_empty_value(key: Seq<char>)
    requires
        tight(key),
    ensures
        term(key, Seq::empty()) == key,
{
    let padded = key + seq![' '] + Seq::<char>::empty();
    assert(padded.first() == key.first());
    assert(padded.last() == ' ');
    assert(padded.drop_last() =~= key);
    assert(trim_start(padded) == padded);
    assert(trim_end(padded) == trim_end(key));
}

/// Joining two sequences of terms one after the other gives what joining
/// each gives, with one space between.
pub proof fn lemma_joined_concat(front: Seq<Seq<char>>, back: Seq<Seq<char>>)
    requires
        front.len() > 0,
        back.len() > 0,
    ensures
        joined(front + back) == joined(front) + seq![' '] + joined(back),
    decreases back.len(),
{
    let all = front + back;
    assert(all.last() == back.last());
    assert(all.drop_last() =~= front + back.drop_last());
    if back.len() == 1 {
        assert(front + back.drop_last() =~= front);
    } else {
        lemma_joined_concat(front, back.drop_last());
        assert(joined(front) + seq![' '] + joined(back.drop_last()) + seq![' '] + back.last()
            =~= joined(front) + seq![' '] + (joined(back.drop_last()) + seq![' ']
            + back.last()));
    }
}

/// Formatting keeps the order of the criteria: the search string of two
/// sequences of criteria one after the other is the search string of the
/// first, one space, and the search string of the second.
pub proof fn lemma_search_string_concat(front: Seq<Pair>, back: Seq<Pair>)
    requires
        front.len() > 0,
        back.len() > 0,
    ensures
        search_string(front + back) == search_string(front) + seq![' '] + search_string(back),
{
    assert(terms(front + back) =~= terms(front) + terms(back));
    lemma_joined_concat(terms(front), terms(back));
}

/// The search string of two criteria is the term of the first, one
/// space, and the term of the second.
pub proof fn lemma_search_string_of_two(one: Pair, other: Pair)
    ensures
        search_string(seq![one, other]) == term(one.0, one.1) + seq![' '] + term(
            other.0,
            other.1,
        ),
{
    let a = term(one.0, one.1);
    let b = term(other.0, other.1);
    assert(terms(seq![one, other]) =~= seq![a, b]);
    assert(seq![a, b].drop_last() =~= seq![a]);
    assert(joined(seq![a]) == a);
}

/// Two criteria whose terms differ and are of one length give another
/// search string when they change places.
pub proof fn lemma_swapped_pair_differs(one: Pair, other: Pair)
    requires
        term(one.0, one.1) != term(other.0, other.1),
        term(one.0, one.1).len() == term(other.0, other.1).len(),
    ensures
        search_string(seq![one, other]) != search_string(seq![other, one]),
{
    let a = term(one.0, one.1);
    let b = term(other.0, other.1);
    let forth = search_string(seq![one, other]);
    let back = search_string(seq![other, one]);
    lemma_search_string_of_two(one, other);
    lemma_search_string_of_two(other, one);
    if forth == back {
        assert(forth.take(a.len() as int) =~= a);
        assert(back.take(a.len() as int) =~= b);
    }
}

/// Whether the text is not empty and holds no whitespace.
pub open spec fn word(s: Seq<char>) -> bool {
    s.len() > 0 && forall|i: int| 0 <= i < s.len() ==> !is_whitespace(s[i])
}

/// A text is cut at its first space in one way only.
proof fn lemma_cut_at_first_space(a: Seq<char>, x: Seq<char>, b: Seq<char>, y: Seq<char>)
    requires
        forall|i: int| 0 <= i < a.len() ==> a[i] != ' ',
        forall|i: int| 0 <= i < b.len() ==> b[i] != ' ',
        a + seq![' '] + x == b + seq![' '] + y,
    ensures
        a == b,
        x == y,
{
    let whole = a + seq![' '] + x;
    let other = b + seq![' '] + y;
    assert forall|j: int| 0 <= j < a.len() implies whole[j] != ' ' by {
        assert(whole[j] == a[j]);
    }
    assert(whole[a.len() as int] == ' ');
    lemma_first_is(whole, ' ', a.len() as int);
    assert forall|j: int| 0 <= j < b.len() implies other[j] != ' ' by {
        assert(other[j] == b[j]);
    }
    assert(other[b.len() as int] == ' ');
    lemma_first_is(other, ' ', b.len() as int);
    assert(a =~= whole.take(a.len() as int));
    assert(b =~= other.take(b.len() as int));
    assert(x =~= whole.skip(a.len() as int + 1));
    assert(y =~= other.skip(b.len() as int + 1));
}

/// Two criteria that differ, each a key and a value without whitespace,
/// give another search string when they change places.
pub proof fn lemma_swapped_words_differ(one: Pair, other: Pair)
    requires
        word(one.0) && word(one.1),
        word(other.0) && word(other.1),
        one != other,
    ensures
        search_string(seq![one, other]) != search_string(seq![other, one]),
{
    let a = term(one.0, one.1);
    let b = term(other.0, other.1);
    lemma_term_of_tight_pair(one.0, one.1);
    lemma_term_of_tight_pair(other.0, other.1);
    lemma_search_string_of_two(one, other);
    lemma_search_string_of_two(other, one);
    let forth = search_string(seq![one, other]);
    let back = search_string(seq![other, one]);
    if forth == back {
        let x = one.1 + seq![' '] + b;
        let y = other.1 + seq![' '] + a;
        assert(forth =~= one.0 + seq![' '] + x);
        assert(back =~= other.0 + seq![' '] + y);
        lemma_cut_at_first_space(one.0, x, other.0, y);
        lemma_cut_at_first_space(one.1, b, other.1, a);
    }
}

/// `str::trim`: the slice of `s` that is left when the leading and trailing
/// characters with the `White_Space` property are taken away.
#[verifier::external_body]
fn trim(s: &str) -> (r: &str)
    ensures
        r@ == trimmed(s@),
{
    s.trim()
}

/// The credentials and the server of a mailbox.
#[derive(Debug, Clone, PartialEq)]
pub struct Client {
    pub username: String,
    pub password: String,
    pub domain: String,
    pub port: u16,
}

/// A client as character sequences.
pub struct ClientView {
    pub username: Seq<char>,
    pub password: Seq<char>,
    pub domain: Seq<char>,
    pub port: u16,
}

impl View for Client {
    type V = ClientView;

    open spec fn view(&self) -> ClientView {
        ClientView {
            username: self.username@,
            password: self.password@,
            domain: self.domain@,
            port: self.port,
        }
    }
}

impl Client {
    /// Formats the criteria as one search string: each pair as `key value`,
    /// trimmed, the pairs in their order and a single space between two.
    pub fn fmt_query(query: &[(String, String)]) -> (formatted: String)
        ensures
            formatted@ == search_string(pair_views(query@)),
    {
        let ghost pieces = terms(pair_views(query@));
        let mut formatted = String::new();
        let mut i: usize = 0;
        while i < query.len()
            invariant
                i <= query.len(),
                pieces == terms(pair_views(query@)),
                formatted@ == joined(pieces.take(i as int)),
            decreases query.len() - i,
        {
            let pair = &query[i];
            let mut padded = pair.0.clone();
            proof {
                reveal_strlit(" ");
            }
            padded.append(" ");
            padded.append(pair.1.as_str());
            assert(padded@ == pair.0@ + seq![' '] + pair.1@);
            let piece = trim(padded.as_str());
            assert(piece@ == pieces[i as int]);
            if i > 0 {
                formatted.append(" ");
            }
            formatted.append(piece);
            proof {
                let before = pieces.take(i as int);
                let after = pieces.take(i + 1);
                assert(after.drop_last() == before);
                assert(after.last() == pieces[i as int]);
                if i == 0 {
                    assert(before.len() == 0);
                    assert(formatted@ == pieces[0]);
                }
            }
            i += 1;
        }
        assert(pieces.take(i as int) == pieces);
        formatted
    }
}

} // verus!
