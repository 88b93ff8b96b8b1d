//! Header lists: pairs of name and value in which no name occurs twice.
//!
//! A list is filled field by field. A field whose name is in the list
//! already replaces the value there, so the list holds each name once, at
//! the place of its first occurrence and with the value of its last.

use crate::text::{pair_views, text_view, Pair};
use vstd::prelude::*;

verus! {

/// The index of the first pair named `key`; the length where there is none.
pub open spec fn position(list: Seq<Pair>, key: Seq<char>) -> int
    decreases list.len(),
{
    if list.len() == 0 {
        0
    } else if list[0].0 == key {
        0
    } else {
        1 + position(list.drop_first(), key)
    }
}

/// The value of the first pair named `key`.
pub open spec fn value_of(list: Seq<Pair>, key: Seq<char>) -> Option<Seq<char>> {
    let i = position(list, key);
    if i < list.len() {
        Some(list[i].1)
    } else {
        None
    }
}

/// The list with `value` under `key`: in place of the first pair of that
/// name, at the end where there is none.
pub open spec fn put(list: Seq<Pair>, key: Seq<char>, value: Seq<char>) -> Seq<Pair> {
    let i = position(list, key);
    if i < list.len() {
        list.update(i, (key, value))
    } else {
        list.push((key, value))
    }
}

/// The header list of a sequence of fields, put in one after the other.
pub open spec fn collect(fields: Seq<Pair>) -> Seq<Pair>
    decreases fields.len(),
{
    if fields.len() == 0 {
        Seq::empty()
    } else {
        put(collect(fields.drop_last()), fields.last().0, fields.last().1)
    }
}

/// The mapping from name to value that a sequence of fields stands for: a
/// later field overrides an earlier one of the same name.
pub open spec fn entries(fields: Seq<Pair>) -> Map<Seq<char>, Seq<char>>
    decreases fields.len(),
{
    if fields.len() == 0 {
        Map::empty()
    } else {
        entries(fields.drop_last()).insert(fields.last().0, fields.last().1)
    }
}

/// No name occurs twice.
pub open spec fn distinct_keys(list: Seq<Pair>) -> bool {
    forall|i: int, j: int| 0 <= i < j < list.len() ==> list[i].0 != list[j].0
}

/// `position` is the least index of a pair of that name.
pub proof fn lemma_position(list: Seq<Pair>, key: Seq<char>)
    ensures
        0 <= position(list, key) <= list.len(),
        forall|j: int| 0 <= j < position(list, key) ==> list[j].0 != key,
        position(list, key) < list.len() ==> list[position(list, key)].0 == key,
    decreases list.len(),
{
    if list.len() > 0 && list[0].0 != key {
        let rest = list.drop_first();
        lemma_position(rest, key);
        assert forall|j: int| 0 <= j < position(list, key) implies list[j].0 != key by {
            if j > 0 {
                assert(list[j] == rest[j - 1]);
            }
        }
    }
}

/// An index before which no pair is named `key`, and which holds such a
/// pair or is the length, is the `position` of `key`.
pub proof fn lemma_position_is(list: Seq<Pair>, key: Seq<char>, i: int)
    requires
        0 <= i <= list.len(),
        forall|j: int| 0 <= j < i ==> list[j].0 != key,
        i < list.len() ==> list[i].0 == key,
    ensures
        position(list, key) == i,
{
    lemma_position(list, key);
}

/// Putting a pair in keeps the names distinct, and changes the mapping as
/// an insertion does.
pub proof fn lemma_put(list: Seq<Pair>, key: Seq<char>, value: Seq<char>)
    requires
        distinct_keys(list),
    ensures
        distinct_keys(put(list, key, value)),
        entries(put(list, key, value)) == entries(list).insert(key, value),
{
    let i = position(list, key);
    let after = put(list, key, value);
    lemma_position(list, key);
    assert forall|a: int, b: int| 0 <= a < b < after.len() implies after[a].0 != after[b].0 by {
        if i < list.len() {
            assert(after[a].0 == list[a].0);
            assert(after[b].0 == list[b].0);
        }
    }
    let target = entries(list).insert(key, value);
    assert forall|q: Seq<char>|
        #![trigger entries(after).dom().contains(q)]
        #![trigger target.dom().contains(q)]
        entries(after).dom().contains(q) == target.dom().contains(q) && (entries(
            after,
        ).dom().contains(q) ==> entries(after)[q] == target[q]) by {
        lemma_entries(list, q);
        lemma_entries(after, q);
        lemma_position(list, q);
        if q == key {
            lemma_position_is(after, q, i);
        } else if position(list, q) < list.len() {
            lemma_position_is(after, q, position(list, q));
        } else {
            lemma_position_is(after, q, after.len() as int);
        }
    }
    assert(entries(after) =~= entries(list).insert(key, value));
}

/// In a list of distinct names the mapping holds a name where a pair has
/// it, with that pair's value.
pub proof fn lemma_entries(list: Seq<Pair>, key: Seq<char>)
    requires
        distinct_keys(list),
    ensures
        entries(list).contains_key(key) <==> position(list, key) < list.len(),
        entries(list).contains_key(key) ==> Some(entries(list)[key]) == value_of(list, key),
    decreases list.len(),
{
    lemma_position(list, key);
    if list.len() > 0 {
        let front = list.drop_last();
        lemma_entries(front, key);
        lemma_position(front, key);
        if list.last().0 == key {
            lemma_position_is(list, key, list.len() - 1);
        } else if position(front, key) < front.len() {
            lemma_position_is(list, key, position(front, key));
        } else {
            assert forall|j: int| 0 <= j < list.len() implies list[j].0 != key by {
                if j < front.len() {
                    assert(list[j] == front[j]);
                }
            }
            lemma_position_is(list, key, list.len() as int);
        }
    }
}

/// The header list of any fields has distinct names and stands for the
/// same mapping as the fields.
pub proof fn lemma_collect(fields: Seq<Pair>)
    ensures
        distinct_keys(collect(fields)),
        entries(collect(fields)) == entries(fields),
    decreases fields.len(),
{
    if fields.len() > 0 {
        lemma_collect(fields.drop_last());
        lemma_put(collect(fields.drop_last()), fields.last().0, fields.last().1);
    }
}

/// Every field leaves an entry under its name.
pub proof fn lemma_every_field_has_an_entry(fields: Seq<Pair>, i: int)
    requires
        0 <= i < fields.len(),
    ensures
        entries(fields).contains_key(fields[i].0),
        value_of(collect(fields), fields[i].0) is Some,
    decreases fields.len(),
{
    if i < fields.len() - 1 {
        lemma_every_field_has_an_entry(fields.drop_last(), i);
    }
    lemma_collect(fields);
    lemma_entries(collect(fields), fields[i].0);
}

/// Of the fields of one name the last one gives the value.
pub proof fn lemma_last_field_wins(fields: Seq<Pair>, i: int)
    requires
        0 <= i < fields.len(),
        forall|j: int| i < j < fields.len() ==> fields[j].0 != fields[i].0,
    ensures
        entries(fields)[fields[i].0] == fields[i].1,
        value_of(collect(fields), fields[i].0) == Some(fields[i].1),
    decreases fields.len(),
{
    if i < fields.len() - 1 {
        lemma_last_field_wins(fields.drop_last(), i);
    }
    lemma_every_field_has_an_entry(fields, i);
    lemma_collect(fields);
    lemma_entries(collect(fields), fields[i].0);
}

/// Puts `value` under `key`: in place of the value that the name has in the
/// list, or as a new pair at its end.
pub fn insert(headers: &mut Vec<(String, String)>, key: String, value: String)
    ensures
        pair_views(final(headers)@) == put(pair_views(old(headers)@), key@, value@),
{
    let ghost before = pair_views(headers@);
    let mut i: usize = 0;
    while i < headers.len()
        invariant
            i <= headers.len(),
            headers@ == old(headers)@,
            before == pair_views(headers@),
            forall|j: int| 0 <= j < i ==> before[j].0 != key@,
        decreases headers.len() - i,
    {
        if headers[i].0 == key {
            proof {
                lemma_position_is(before, key@, i as int);
            }
            headers.set(i, (key, value));
            assert(pair_views(headers@) =~= before.update(i as int, (key@, value@)));
            return;
        }
        i += 1;
    }
    proof {
        lemma_position_is(before, key@, before.len() as int);
    }
    headers.push((key, value));
    assert(pair_views(headers@) =~= before.push((key@, value@)));
}

/// The value that the list holds under `name`.
pub fn get(headers: &Vec<(String, String)>, name: &str) -> (value: Option<String>)
    ensures
        text_view(value) == value_of(pair_views(headers@), name@),
{
    let key = name.to_owned();
    let mut i: usize = 0;
    while i < headers.len()
        invariant
            i <= headers.len(),
            key@ == name@,
            forall|j: int| 0 <= j < i ==> pair_views(headers@)[j].0 != key@,
        decreases headers.len() - i,
    {
        if headers[i].0 == key {
            proof {
                lemma_position_is(pair_views(headers@), key@, i as int);
            }
            return Some(headers[i].1.clone());
        }
        i += 1;
    }
    proof {
        lemma_position_is(pair_views(headers@), key@, headers.len() as int);
    }
    None
}

} // verus!
