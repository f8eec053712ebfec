//! A JSON value as the library sees it: the tree that a record of the wire
//! is read from and written to.

use crate::message::names;
use std::collections::HashSet;
use vstd::prelude::*;
use vstd::std_specs::iter::IteratorSpec;
use vstd::string::StringExecFns;

verus! {

broadcast use vstd::std_specs::hash::group_hash_axioms;

/// A JSON value. Of a number that is no unsigned integer only its being one
/// is kept.
#[derive(Debug)]
pub enum Json {
    Null,
    Bool(bool),
    /// A number that is an unsigned integer.
    Count(u64),
    /// Any other number.
    Number,
    Text(String),
    List(Vec<Json>),
    /// The members of an object, in order. Where a key stands more than once,
    /// its last member counts.
    Object(Vec<(String, Json)>),
}

/// The member that a list of members has under `key`: the last one with that
/// key, if there is one.
pub open spec fn field(members: Seq<(String, Json)>, key: Seq<char>) -> Option<Json>
    decreases members.len(),
{
    if members.len() == 0 {
        None
    } else if members.last().0@ == key {
        Some(members.last().1)
    } else {
        field(members.drop_last(), key)
    }
}

/// The keys of a list of members, in order.
pub open spec fn keys(members: Seq<(String, Json)>) -> Seq<Seq<char>> {
    Seq::new(members.len(), |i: int| members[i].0@)
}

/// What stands under `key` in the second of two lists joined stands under
/// it in the whole.
pub proof fn lemma_field_of_joined(
    front: Seq<(String, Json)>,
    back: Seq<(String, Json)>,
    key: Seq<char>,
)
    ensures
        field(front + back, key) == if field(back, key) is Some {
            field(back, key)
        } else {
            field(front, key)
        },
    decreases back.len(),
{
    if back.len() == 0 {
        assert(front + back =~= front);
    } else {
        assert((front + back).drop_last() =~= front + back.drop_last());
        assert((front + back).last() == back.last());
        lemma_field_of_joined(front, back.drop_last(), key);
    }
}

/// The texts of a list, in order, if every item of it is a text.
pub open spec fn texts_of(items: Seq<Json>) -> Option<Seq<Seq<char>>> {
    if forall|i: int| 0 <= i < items.len() ==> (#[trigger] items[i]) is Text {
        Some(Seq::new(items.len(), |i: int| items[i]->Text_0@))
    } else {
        None
    }
}

/// The set of the numbers of a list, if every item of it is an unsigned
/// integer that fits the machine's word.
pub open spec fn counts_of(items: Seq<Json>) -> Option<Set<usize>> {
    if forall|i: int|
        0 <= i < items.len() ==> ((#[trigger] items[i]) matches Json::Count(n) && n <= usize::MAX) {
        Some(
            Set::new(
                |value: usize|
                    exists|i: int|
                        0 <= i < items.len() && #[trigger] items[i] == Json::Count(value as u64),
            ),
        )
    } else {
        None
    }
}

/// Whether `text` reads `literal`.
pub fn reads(text: &String, literal: &str) -> (yes: bool)
    ensures
        yes == (text@ == literal@),
{
    let wanted = String::from_str(literal);
    *text == wanted
}

/// Looks up the member under `key`.
pub fn lookup<'a>(members: &'a Vec<(String, Json)>, key: &str) -> (found: Option<&'a Json>)
    ensures
        match found {
            Some(value) => field(members@, key@) == Some(*value),
            None => field(members@, key@) is None,
        },
{
    let wanted = String::from_str(key);
    let mut i: usize = members.len();
    assert(members@.take(i as int) =~= members@);
    while i > 0
        invariant
            i <= members.len(),
            wanted@ == key@,
            field(members@, key@) == field(members@.take(i as int), key@),
        decreases i,
    {
        i -= 1;
        proof {
            assert(members@.take(i + 1).drop_last() =~= members@.take(i as int));
            assert(members@.take(i + 1).last() == members@[i as int]);
        }
        if members[i].0 == wanted {
            return Some(&members[i].1);
        }
    }
    assert(members@.take(0) =~= Seq::empty());
    None
}

/// Adds a member under `key` at the end of a list of members. It is then
/// what stands under `key`, and the other keys are as they were.
pub fn put(members: &mut Vec<(String, Json)>, key: &str, value: Json)
    ensures
        final(members)@.len() == old(members)@.len() + 1,
        final(members)@.drop_last() == old(members)@,
        final(members)@.last().0@ == key@,
        final(members)@.last().1 == value,
        keys(final(members)@) == keys(old(members)@).push(key@),
        field(final(members)@, key@) == Some(value),
        forall|other: Seq<char>|
            other != key@ ==> #[trigger] field(final(members)@, other) == field(old(members)@, other),
{
    members.push((String::from_str(key), value));
    assert(members@.drop_last() =~= old(members)@);
    assert(keys(members@) =~= keys(old(members)@).push(key@));
}

/// Reads a list of texts.
pub fn texts(items: &Vec<Json>) -> (found: Option<Vec<String>>)
    ensures
        match found {
            Some(list) => texts_of(items@) == Some(names(list@)),
            None => texts_of(items@) is None,
        },
{
    let mut list: Vec<String> = Vec::new();
    let mut i: usize = 0;
    while i < items.len()
        invariant
            i <= items.len(),
            list@.len() == i,
            forall|j: int| 0 <= j < i ==> (#[trigger] items@[j]) is Text,
            forall|j: int| 0 <= j < i ==> (#[trigger] list@[j])@ == items@[j]->Text_0@,
        decreases items.len() - i,
    {
        match &items[i] {
            Json::Text(text) => {
                list.push(text.clone());
            },
            _ => {
                assert(!(items@[i as int] is Text));
                return None;
            },
        }
        i += 1;
    }
    assert(texts_of(items@)->0 =~= names(list@));
    Some(list)
}

/// Reads a list of unsigned integers as a set.
pub fn counts(items: &Vec<Json>) -> (found: Option<HashSet<usize>>)
    ensures
        match found {
            Some(set) => counts_of(items@) == Some(set@),
            None => counts_of(items@) is None,
        },
{
    let mut set: HashSet<usize> = HashSet::new();
    let mut i: usize = 0;
    while i < items.len()
        invariant
            i <= items.len(),
            forall|j: int|
                0 <= j < i ==> ((#[trigger] items@[j]) matches Json::Count(n) && n <= usize::MAX),
            set@ == Set::new(
                |value: usize|
                    exists|j: int| 0 <= j < i && #[trigger] items@[j] == Json::Count(value as u64),
            ),
        decreases items.len() - i,
    {
        let ghost before = set@;
        match &items[i] {
            Json::Count(n) => {
                if *n > usize::MAX as u64 {
                    return None;
                }
                set.insert(*n as usize);
                proof {
                    let value = *n as usize;
                    assert(items@[i as int] == Json::Count(value as u64));
                    assert(set@ =~= Set::new(
                        |value: usize|
                            exists|j: int|
                                0 <= j < i + 1 && #[trigger] items@[j] == Json::Count(value as u64),
                    ));
                }
            },
            _ => {
                return None;
            },
        }
        i += 1;
    }
    Some(set)
}

/// Writes a list of names as a list of texts.
pub fn text_list(list: &Vec<String>) -> (json: Json)
    ensures
        json matches Json::List(items) && texts_of(items@) == Some(names(list@)),
{
    let mut items: Vec<Json> = Vec::new();
    let mut i: usize = 0;
    while i < list.len()
        invariant
            i <= list.len(),
            items@.len() == i,
            forall|j: int| 0 <= j < i ==> (#[trigger] items@[j]) == Json::Text(list@[j]),
        decreases list.len() - i,
    {
        items.push(Json::Text(list[i].clone()));
        i += 1;
    }
    assert(texts_of(items@)->0 =~= names(list@));
    Json::List(items)
}

/// Writes a set of numbers as a list of unsigned integers, each number once,
/// in no particular order.
pub fn count_list(set: &HashSet<usize>) -> (json: Json)
    ensures
        json matches Json::List(items) && counts_of(items@) == Some(set@) && items@.len()
            == set@.len(),
{
    let mut items: Vec<Json> = Vec::new();
    let ghost values: Seq<usize> = set.iter().remaining().unref();
    for value in it: set.iter()
        invariant
            it.seq().unref() == values,
            items@.len() == it.index(),
            forall|j: int|
                0 <= j < it.index() ==> (#[trigger] items@[j]) == Json::Count(values[j] as u64),
    {
        items.push(Json::Count(*value as u64));
    }
    proof {
        assert(values.to_set() == set@);
        assert(counts_of(items@) is Some);
        assert forall|value: usize| counts_of(items@)->0.contains(value) <==> set@.contains(
            value,
        ) by {
            if counts_of(items@)->0.contains(value) {
                let j = choose|j: int|
                    0 <= j < items@.len() && #[trigger] items@[j] == Json::Count(value as u64);
                assert(values[j] == value);
                assert(values.contains(value));
            }
            if set@.contains(value) {
                assert(values.contains(value));
                let j = choose|j: int| 0 <= j < values.len() && values[j] == value;
                assert(items@[j] == Json::Count(value as u64));
            }
        }
        assert(counts_of(items@)->0 =~= set@);
    }
    Json::List(items)
}

} // verus!
