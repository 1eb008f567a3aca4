//! A parsed JSON value as the library reads it, and the lookups on it
//! that mirror `serde_json::Value`'s.
use vstd::prelude::*;

use crate::text::{copy_string, str_eq, strings_view};

verus! {

/// A parsed JSON value. A number keeps its value only where it is an
/// integer that fits an `i64`, which is all the library reads of numbers.
#[derive(Debug)]
pub enum JsonNode {
    Null,
    Bool(bool),
    Number(Option<i64>),
    Text(String),
    Array(Vec<JsonNode>),
    Object(Vec<(String, JsonNode)>),
}

/// The value of the first entry named `key`.
pub open spec fn entry_value(entries: Seq<(String, JsonNode)>, key: Seq<char>) -> Option<JsonNode>
    decreases entries.len(),
{
    if entries.len() == 0 {
        None
    } else if entries[0].0@ == key {
        Some(entries[0].1)
    } else {
        entry_value(entries.drop_first(), key)
    }
}

/// The member named `key` of an object; nothing of any other value.
pub open spec fn member(node: JsonNode, key: Seq<char>) -> Option<JsonNode> {
    match node {
        JsonNode::Object(entries) => entry_value(entries@, key),
        _ => None,
    }
}

/// The text of a string value.
pub open spec fn text_of(node: Option<JsonNode>) -> Option<Seq<char>> {
    match node {
        Some(JsonNode::Text(t)) => Some(t@),
        _ => None,
    }
}

/// The items of an array value.
pub open spec fn items_of(node: Option<JsonNode>) -> Option<Seq<JsonNode>> {
    match node {
        Some(JsonNode::Array(items)) => Some(items@),
        _ => None,
    }
}

/// The entries of an object value.
pub open spec fn entries_of(node: Option<JsonNode>) -> Option<Seq<(String, JsonNode)>> {
    match node {
        Some(JsonNode::Object(entries)) => Some(entries@),
        _ => None,
    }
}

pub open spec fn deref_node(node: Option<&JsonNode>) -> Option<JsonNode> {
    match node {
        Some(n) => Some(*n),
        None => None,
    }
}

/// The names of entries, in order.
pub open spec fn entry_names(entries: Seq<(String, JsonNode)>) -> Seq<Seq<char>> {
    entries.map_values(|e: (String, JsonNode)| e.0@)
}

/// The member named `key` of an object (`serde_json::Value::get`).
pub fn get_member<'a>(node: &'a JsonNode, key: &str) -> (r: Option<&'a JsonNode>)
    ensures
        deref_node(r) == member(*node, key@),
{
    match node {
        JsonNode::Object(entries) => {
            let mut i: usize = 0;
            assert(entries@.skip(0) =~= entries@);
            while i < entries.len()
                invariant
                    i <= entries.len(),
                    *node == JsonNode::Object(*entries),
                    entry_value(entries@, key@) == entry_value(entries@.skip(i as int), key@),
                decreases entries.len() - i,
            {
                let ghost rest = entries@.skip(i as int);
                assert(rest[0] == entries@[i as int]);
                if str_eq(entries[i].0.as_str(), key) {
                    return Some(&entries[i].1);
                }
                assert(rest.drop_first() =~= entries@.skip(i + 1));
                i += 1;
            }
            assert(entries@.skip(i as int).len() == 0);
            None
        },
        _ => None,
    }
}

pub fn text_in<'a>(node: Option<&'a JsonNode>) -> (r: Option<&'a String>)
    ensures
        match r {
            Some(t) => text_of(deref_node(node)) == Some(t@),
            None => text_of(deref_node(node)) is None,
        },
{
    match node {
        Some(n) => match n {
            JsonNode::Text(t) => Some(t),
            _ => None,
        },
        None => None,
    }
}

pub fn items_in<'a>(node: Option<&'a JsonNode>) -> (r: Option<&'a Vec<JsonNode>>)
    ensures
        match r {
            Some(v) => items_of(deref_node(node)) == Some(v@),
            None => items_of(deref_node(node)) is None,
        },
{
    match node {
        Some(n) => match n {
            JsonNode::Array(items) => Some(items),
            _ => None,
        },
        None => None,
    }
}

pub fn entries_in<'a>(node: Option<&'a JsonNode>) -> (r: Option<&'a Vec<(String, JsonNode)>>)
    ensures
        match r {
            Some(v) => entries_of(deref_node(node)) == Some(v@),
            None => entries_of(deref_node(node)) is None,
        },
{
    match node {
        Some(n) => match n {
            JsonNode::Object(entries) => Some(entries),
            _ => None,
        },
        None => None,
    }
}

/// The names of entries, in order.
pub fn names_of_entries(entries: &Vec<(String, JsonNode)>) -> (r: Vec<String>)
    ensures
        strings_view(r@) == entry_names(entries@),
{
    let mut names: Vec<String> = Vec::new();
    let mut i: usize = 0;
    while i < entries.len()
        invariant
            i <= entries.len(),
            strings_view(names@) == entry_names(entries@.take(i as int)),
        decreases entries.len() - i,
    {
        names.push(copy_string(&entries[i].0));
        proof {
            assert(entry_names(entries@.take(i + 1)) =~= entry_names(entries@.take(i as int)).push(
                entries@[i as int].0@,
            ));
            assert(strings_view(names@) =~= entry_names(entries@.take(i as int)).push(
                entries@[i as int].0@,
            ));
        }
        i += 1;
    }
    assert(entries@.take(entries.len() as int) =~= entries@);
    names
}

} // verus!
