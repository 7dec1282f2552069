//! JSON documents of the pricing APIs as plain values, and the lookups the
//! catalog and price readers make in them.
use vstd::prelude::*;
use crate::text::str_eq;

verus! {

/// A JSON value. Object members keep the order in which the document is
/// walked; a number is kept as the text `serde_json` writes for it.
#[derive(Debug)]
pub enum Json {
    Null,
    Bool(bool),
    Num(String),
    Str(String),
    Arr(Vec<Json>),
    Obj(Vec<(String, Json)>),
}

/// The value of the first member named `key`.
pub open spec fn member(entries: Seq<(String, Json)>, key: Seq<char>) -> Option<Json>
    decreases entries.len(),
{
    if entries.len() == 0 {
        None
    } else {
        match member(entries.drop_last(), key) {
            Some(v) => Some(v),
            None => if entries.last().0@ == key {
                Some(entries.last().1)
            } else {
                None
            },
        }
    }
}

/// `j[key]` when `j` is an object that has the member.
pub open spec fn jget(j: Json, key: Seq<char>) -> Option<Json> {
    match j {
        Json::Obj(entries) => member(entries@, key),
        _ => None,
    }
}

/// The text of a string value.
pub open spec fn jstr(j: Json) -> Option<Seq<char>> {
    match j {
        Json::Str(s) => Some(s@),
        _ => None,
    }
}

/// The members of an object.
pub open spec fn jobj(j: Json) -> Option<Seq<(String, Json)>> {
    match j {
        Json::Obj(entries) => Some(entries@),
        _ => None,
    }
}

/// The elements of an array.
pub open spec fn jarr(j: Json) -> Option<Seq<Json>> {
    match j {
        Json::Arr(items) => Some(items@),
        _ => None,
    }
}

/// `j[key]` as a string.
pub open spec fn str_at(j: Json, key: Seq<char>) -> Option<Seq<char>> {
    match jget(j, key) {
        Some(v) => jstr(v),
        None => None,
    }
}

/// `j[key]` as an object.
pub open spec fn obj_at(j: Json, key: Seq<char>) -> Option<Seq<(String, Json)>> {
    match jget(j, key) {
        Some(v) => jobj(v),
        None => None,
    }
}

/// `j[key]` as an array.
pub open spec fn arr_at(j: Json, key: Seq<char>) -> Option<Seq<Json>> {
    match jget(j, key) {
        Some(v) => jarr(v),
        None => None,
    }
}

/// The first `Some` that `f` gives along `s`.
pub open spec fn first_some<A, B>(s: Seq<A>, f: spec_fn(A) -> Option<B>) -> Option<B>
    decreases s.len(),
{
    if s.len() == 0 {
        None
    } else {
        match first_some(s.drop_last(), f) {
            Some(b) => Some(b),
            None => f(s.last()),
        }
    }
}

pub proof fn lemma_first_some_step<A, B>(s: Seq<A>, f: spec_fn(A) -> Option<B>, i: int)
    requires
        0 <= i < s.len(),
    ensures
        first_some(s.take(i + 1), f) == (match first_some(s.take(i), f) {
            Some(b) => Some(b),
            None => f(s[i]),
        }),
{
    assert(s.take(i + 1).drop_last() =~= s.take(i));
}

/// The value of the first member named `key`.
pub fn lookup<'a>(entries: &'a Vec<(String, Json)>, key: &str) -> (res: Option<&'a Json>)
    ensures
        match res {
            Some(v) => member(entries@, key@) == Some(*v),
            None => member(entries@, key@) is None,
        },
{
    let mut i: usize = 0;
    while i < entries.len()
        invariant
            i <= entries.len(),
            member(entries@.take(i as int), key@) is None,
        decreases entries.len() - i,
    {
        assert(entries@.take(i + 1).drop_last() =~= entries@.take(i as int));
        if str_eq(entries[i].0.as_str(), key) {
            proof {
                lemma_member_prefix(entries@, i as int + 1, key@);
            }
            return Some(&entries[i].1);
        }
        i = i + 1;
    }
    assert(entries@.take(entries.len() as int) =~= entries@);
    None
}

/// A member found in a prefix is the member of the whole.
pub proof fn lemma_member_prefix(entries: Seq<(String, Json)>, n: int, key: Seq<char>)
    requires
        0 <= n <= entries.len(),
        member(entries.take(n), key) is Some,
    ensures
        member(entries, key) == member(entries.take(n), key),
    decreases entries.len() - n,
{
    if n < entries.len() {
        assert(entries.take(n + 1).drop_last() =~= entries.take(n));
        lemma_member_prefix(entries, n + 1, key);
    } else {
        assert(entries.take(n) =~= entries);
    }
}

/// `j[key]`.
pub fn get<'a>(j: &'a Json, key: &str) -> (res: Option<&'a Json>)
    ensures
        match res {
            Some(v) => jget(*j, key@) == Some(*v),
            None => jget(*j, key@) is None,
        },
{
    match j {
        Json::Obj(entries) => lookup(entries, key),
        _ => None,
    }
}

/// The text of a string value.
pub fn as_str(j: &Json) -> (res: Option<&str>)
    ensures
        match res {
            Some(s) => jstr(*j) == Some(s@),
            None => jstr(*j) is None,
        },
{
    match j {
        Json::Str(s) => Some(s.as_str()),
        _ => None,
    }
}

/// The members of an object.
pub fn as_obj(j: &Json) -> (res: Option<&Vec<(String, Json)>>)
    ensures
        match res {
            Some(e) => jobj(*j) == Some(e@),
            None => jobj(*j) is None,
        },
{
    match j {
        Json::Obj(entries) => Some(entries),
        _ => None,
    }
}

/// The elements of an array.
pub fn as_arr(j: &Json) -> (res: Option<&Vec<Json>>)
    ensures
        match res {
            Some(a) => jarr(*j) == Some(a@),
            None => jarr(*j) is None,
        },
{
    match j {
        Json::Arr(items) => Some(items),
        _ => None,
    }
}

/// `j[key]` as a string.
pub fn str_field<'a>(j: &'a Json, key: &str) -> (res: Option<&'a str>)
    ensures
        match res {
            Some(s) => str_at(*j, key@) == Some(s@),
            None => str_at(*j, key@) is None,
        },
{
    match get(j, key) {
        Some(v) => as_str(v),
        None => None,
    }
}

/// `j[key]` as an object.
pub fn obj_field<'a>(j: &'a Json, key: &str) -> (res: Option<&'a Vec<(String, Json)>>)
    ensures
        match res {
            Some(e) => obj_at(*j, key@) == Some(e@),
            None => obj_at(*j, key@) is None,
        },
{
    match get(j, key) {
        Some(v) => as_obj(v),
        None => None,
    }
}

/// `j[key]` as an array.
pub fn arr_field<'a>(j: &'a Json, key: &str) -> (res: Option<&'a Vec<Json>>)
    ensures
        match res {
            Some(a) => arr_at(*j, key@) == Some(a@),
            None => arr_at(*j, key@) is None,
        },
{
    match get(j, key) {
        Some(v) => as_arr(v),
        None => None,
    }
}

} // verus!
