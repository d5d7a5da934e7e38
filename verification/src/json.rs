//! The library's own model of the remote service's hierarchical response:
//! a document tree of scalars, arrays and keyed objects, plus key lookup.

use vstd::prelude::*;

verus! {

/// One value of a parsed response document.
///
/// Numbers are carried as their canonical decimal text, which is all the
/// materializer ever needs from them; object entries keep response order.
#[derive(Debug, PartialEq, Eq)]
pub enum JsonValue {
    Null,
    Bool(bool),
    Number(String),
    Text(String),
    Array(Vec<JsonValue>),
    Object(Vec<(String, JsonValue)>),
}

/// One row of a RowSet: the keyed fields of a response object, in response
/// order.
pub type RowObject = Vec<(String, JsonValue)>;

/// The views of a sequence of strings.
pub open spec fn seq_views(ss: Seq<String>) -> Seq<Seq<char>> {
    ss.map_values(|s: String| s@)
}

/// The value under the first entry of `entries` whose key reads `key`,
/// if any entry does.
pub open spec fn obj_lookup(
    entries: Seq<(String, JsonValue)>,
    key: Seq<char>,
) -> Option<JsonValue>
    decreases entries.len(),
{
    if entries.len() == 0 {
        None
    } else if entries[0].0@ == key {
        Some(entries[0].1)
    } else {
        obj_lookup(entries.drop_first(), key)
    }
}

proof fn lemma_obj_lookup_found(entries: Seq<(String, JsonValue)>, key: Seq<char>, i: int)
    requires
        0 <= i < entries.len(),
        forall|j: int| 0 <= j < i ==> entries[j].0@ != key,
        entries[i].0@ == key,
    ensures
        obj_lookup(entries, key) == Some(entries[i].1),
    decreases i,
{
    if i > 0 {
        lemma_obj_lookup_found(entries.drop_first(), key, i - 1);
    }
}

proof fn lemma_obj_lookup_none(entries: Seq<(String, JsonValue)>, key: Seq<char>)
    requires
        forall|j: int| 0 <= j < entries.len() ==> entries[j].0@ != key,
    ensures
        obj_lookup(entries, key) is None,
    decreases entries.len(),
{
    if entries.len() > 0 {
        lemma_obj_lookup_none(entries.drop_first(), key);
    }
}

/// Borrows the value of the first entry matching `key`, if any.
pub fn obj_get<'a>(entries: &'a Vec<(String, JsonValue)>, key: &String) -> (r: Option<
    &'a JsonValue,
>)
    ensures
        match r {
            Some(v) => obj_lookup(entries@, key@) == Some(*v),
            None => obj_lookup(entries@, key@) is None,
        },
{
    let n = entries.len();
    let mut i: usize = 0;
    while i < n
        invariant
            n == entries@.len(),
            0 <= i <= n,
            forall|j: int| 0 <= j < i ==> entries@[j].0@ != key@,
        decreases n - i,
    {
        if entries[i].0 == *key {
            proof {
                lemma_obj_lookup_found(entries@, key@, i as int);
            }
            return Some(&entries[i].1);
        }
        i += 1;
    }
    proof {
        lemma_obj_lookup_none(entries@, key@);
    }
    None
}

/// Removes the first entry matching `key` and hands its value out, so that a
/// caller walking a document can take ownership level by level.
pub fn obj_take(entries: &mut Vec<(String, JsonValue)>, key: &String) -> (r: Option<JsonValue>)
    ensures
        match r {
            Some(v) => obj_lookup(old(entries)@, key@) == Some(v),
            None => obj_lookup(old(entries)@, key@) is None,
        },
{
    let n = entries.len();
    let mut i: usize = 0;
    while i < n
        invariant
            n == entries@.len(),
            *entries == *old(entries),
            0 <= i <= n,
            forall|j: int| 0 <= j < i ==> entries@[j].0@ != key@,
        decreases n - i,
    {
        if entries[i].0 == *key {
            proof {
                lemma_obj_lookup_found(entries@, key@, i as int);
            }
            let pair = entries.remove(i);
            return Some(pair.1);
        }
        i += 1;
    }
    proof {
        lemma_obj_lookup_none(entries@, key@);
    }
    None
}

} // verus!
