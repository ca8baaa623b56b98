//! JSON values in the notation of `serde_json`.

use vstd::prelude::*;
use vstd::string::*;

use crate::json;
use crate::json::{Json, JsonNumber, JsonView, NumberView};
use crate::text;

verus! {

#[verifier::external_type_specification]
#[verifier::external_body]
pub struct ExValue(serde_json::Value);

#[verifier::external_type_specification]
#[verifier::external_body]
pub struct ExError(serde_json::Error);

#[verifier::external_type_specification]
#[verifier::external_body]
#[verifier::reject_recursive_types(K)]
#[verifier::reject_recursive_types(V)]
pub struct ExMap<K, V>(serde_json::Map<K, V>);

/// What a `serde_json::Value` holds: the entries of an object stand in the order in which its map
/// is walked, and a number that is no integer of 64 bits is given by its notation.
pub uninterp spec fn value_tree(value: serde_json::Value) -> JsonView;

/// What a `serde_json::Map` holds: its entries, in the order in which it is walked.
pub uninterp spec fn map_tree(map: serde_json::Map<String, serde_json::Value>) -> Seq<(Seq<char>, JsonView)>;

/// What `serde_json` reads from a text; nothing where it refuses the text.
pub uninterp spec fn parsed_tree(s: Seq<char>) -> Option<JsonView>;

/// What `serde_json` writes for a value over several lines; nothing where it refuses the value.
pub uninterp spec fn pretty_text(tree: JsonView) -> Option<Seq<char>>;

/// What the debug notation of a `serde_json` value is.
pub uninterp spec fn debug_text(tree: JsonView) -> Seq<char>;

/// A `serde_json::Value`, one level taken apart.
pub enum ValueParts {
    Null,
    Bool(bool),
    Number { unsigned: Option<u64>, signed: Option<i64>, notation: String },
    Text(String),
    Array(Vec<serde_json::Value>),
    Object(Vec<(String, serde_json::Value)>),
}

/// The contents of a list of values.
pub open spec fn value_trees(items: Seq<serde_json::Value>) -> Seq<JsonView> {
    items.map_values(|v: serde_json::Value| value_tree(v))
}

/// The names and contents of a list of entries.
pub open spec fn entry_trees(entries: Seq<(String, serde_json::Value)>) -> Seq<(Seq<char>, JsonView)> {
    entries.map_values(|e: (String, serde_json::Value)| (e.0@, value_tree(e.1)))
}

/// What a value that was taken apart holds.
pub open spec fn parts_tree(parts: ValueParts) -> JsonView {
    match parts {
        ValueParts::Null => JsonView::Null,
        ValueParts::Bool(b) => JsonView::Bool(b),
        ValueParts::Number { unsigned: Some(n), .. } => JsonView::Number(NumberView::Unsigned(n)),
        ValueParts::Number { unsigned: None, signed: Some(n), .. } => JsonView::Number(
            NumberView::Negative(n),
        ),
        ValueParts::Number { unsigned: None, signed: None, notation } => JsonView::Number(
            NumberView::Float(notation@),
        ),
        ValueParts::Text(s) => JsonView::Text(s@),
        ValueParts::Array(items) => JsonView::Array(value_trees(items@)),
        ValueParts::Object(entries) => JsonView::Object(entry_trees(entries@)),
    }
}

/// `serde_json::Value`, matched on its variants: the parts hold what the value held. Of a number,
/// `as_u64`, `as_i64` and its notation are given.
#[verifier::external_body]
fn open_value(value: serde_json::Value) -> (r: ValueParts)
    ensures
        parts_tree(r) == value_tree(value),
{
    match value {
        serde_json::Value::Null => ValueParts::Null,
        serde_json::Value::Bool(b) => ValueParts::Bool(b),
        serde_json::Value::Number(n) => {
            ValueParts::Number { unsigned: n.as_u64(), signed: n.as_i64(), notation: n.to_string() }
        },
        serde_json::Value::String(s) => ValueParts::Text(s),
        serde_json::Value::Array(items) => ValueParts::Array(items),
        serde_json::Value::Object(map) => ValueParts::Object(map.into_iter().collect()),
    }
}

/// The parts of a `serde_json::Value` that is to be built and is no object.
pub enum NewValue {
    Null,
    Bool(bool),
    Unsigned(u64),
    Signed(i64),
    Text(String),
    Array(Vec<serde_json::Value>),
}

/// The entries, ordered by name, after one more was put in: in place of the one of the same name
/// where there is one.
pub open spec fn map_insert(
    entries: Seq<(Seq<char>, JsonView)>,
    key: Seq<char>,
    value: JsonView,
) -> Seq<(Seq<char>, JsonView)>
    decreases entries.len(),
{
    if entries.len() == 0 {
        seq![(key, value)]
    } else if entries[0].0 == key {
        entries.update(0, (key, value))
    } else if text::text_le(key, entries[0].0) {
        seq![(key, value)] + entries
    } else {
        seq![entries[0]] + map_insert(entries.drop_first(), key, value)
    }
}

/// The entries, ordered by name, that a list leaves when it is put in from its start to its end.
pub open spec fn map_entries(list: Seq<(Seq<char>, JsonView)>) -> Seq<(Seq<char>, JsonView)>
    decreases list.len(),
{
    if list.len() == 0 {
        Seq::empty()
    } else {
        map_insert(map_entries(list.drop_last()), list.last().0, list.last().1)
    }
}

/// The integer as a JSON number.
pub open spec fn integer_tree(n: i64) -> JsonView {
    if n >= 0 {
        JsonView::Number(NumberView::Unsigned(n as u64))
    } else {
        JsonView::Number(NumberView::Negative(n))
    }
}

/// What a value that was built holds.
pub open spec fn new_tree(parts: NewValue) -> JsonView {
    match parts {
        NewValue::Null => JsonView::Null,
        NewValue::Bool(b) => JsonView::Bool(b),
        NewValue::Unsigned(n) => JsonView::Number(NumberView::Unsigned(n)),
        NewValue::Signed(n) => integer_tree(n),
        NewValue::Text(s) => JsonView::Text(s@),
        NewValue::Array(items) => JsonView::Array(value_trees(items@)),
    }
}

/// The variants of `serde_json::Value` but `Object`, built from their parts.
#[verifier::external_body]
fn close_value(parts: NewValue) -> (r: serde_json::Value)
    ensures
        value_tree(r) == new_tree(parts),
{
    match parts {
        NewValue::Null => serde_json::Value::Null,
        NewValue::Bool(b) => serde_json::Value::Bool(b),
        NewValue::Unsigned(n) => serde_json::Value::from(n),
        NewValue::Signed(n) => serde_json::Value::from(n),
        NewValue::Text(s) => serde_json::Value::String(s),
        NewValue::Array(items) => serde_json::Value::Array(items),
    }
}

/// `serde_json::Map::new`: a map without entries.
#[verifier::external_body]
fn new_map() -> (r: serde_json::Map<String, serde_json::Value>)
    ensures
        map_tree(r) == Seq::<(Seq<char>, JsonView)>::empty(),
{
    serde_json::Map::new()
}

/// `serde_json::Map::insert`: a map is walked in the order of its names, and a value that is put in
/// takes the place of the one of the same name where there is one.
#[verifier::external_body]
fn put_entry(map: &mut serde_json::Map<String, serde_json::Value>, key: String, value: serde_json::Value)
    ensures
        map_tree(*final(map)) == map_insert(map_tree(*old(map)), key@, value_tree(value)),
{
    map.insert(key, value);
}

/// `serde_json::Value::Object`: the value holds what the map holds.
#[verifier::external_body]
fn close_map(map: serde_json::Map<String, serde_json::Value>) -> (r: serde_json::Value)
    ensures
        value_tree(r) == JsonView::Object(map_tree(map)),
{
    serde_json::Value::Object(map)
}

/// `serde_json::from_str`, read as a `Value`.
#[verifier::external_body]
fn parse_value(s: &str) -> (r: Result<serde_json::Value, serde_json::Error>)
    ensures
        match r {
            Ok(v) => parsed_tree(s@) == Some(value_tree(v)),
            Err(_) => parsed_tree(s@) is None,
        },
{
    serde_json::from_str::<serde_json::Value>(s)
}

/// `serde_json::to_string_pretty`, on a `Value`.
#[verifier::external_body]
fn pretty_value(value: &serde_json::Value) -> (r: Result<String, serde_json::Error>)
    ensures
        match r {
            Ok(s) => pretty_text(value_tree(*value)) == Some(s@),
            Err(_) => pretty_text(value_tree(*value)) is None,
        },
{
    serde_json::to_string_pretty(value)
}

/// The `Debug` notation of a `serde_json::Value`.
#[verifier::external_body]
fn debug_value(value: &serde_json::Value) -> (r: String)
    ensures
        r@ == debug_text(value_tree(*value)),
{
    format!("{value:?}")
}

/// The value as `serde_json` holds it: the entries of each object are ordered by name, the later
/// one of two entries of the same name is kept, and a number in decimal notation is read.
pub open spec fn canonical(tree: JsonView) -> JsonView
    decreases tree,
{
    match tree {
        JsonView::Number(NumberView::Negative(n)) => integer_tree(n),
        JsonView::Number(NumberView::Float(s)) => match parsed_tree(s) {
            Some(t) => t,
            None => JsonView::Null,
        },
        JsonView::Array(items) => JsonView::Array(canonical_items(items)),
        JsonView::Object(entries) => JsonView::Object(map_entries(canonical_entries(entries))),
        other => other,
    }
}

/// The items of an array as `serde_json` holds them.
pub open spec fn canonical_items(items: Seq<JsonView>) -> Seq<JsonView>
    decreases items,
{
    Seq::new(
        items.len(),
        |i: int|
            if 0 <= i < items.len() {
                canonical(items[i])
            } else {
                JsonView::Null
            },
    )
}

/// The entries of an object, each value as `serde_json` holds it.
pub open spec fn canonical_entries(entries: Seq<(Seq<char>, JsonView)>) -> Seq<(Seq<char>, JsonView)>
    decreases entries,
{
    Seq::new(
        entries.len(),
        |i: int|
            if 0 <= i < entries.len() {
                (entries[i].0, canonical(entries[i].1))
            } else {
                (Seq::empty(), JsonView::Null)
            },
    )
}

/// The list from its end to its start.
fn reversed<T>(list: Vec<T>) -> (r: Vec<T>)
    ensures
        r@ == list@.reverse(),
{
    let ghost all = list@;
    let mut rest: Vec<T> = list;
    let mut out: Vec<T> = Vec::new();
    while rest.len() > 0
        invariant
            rest@ == all.take(rest@.len() as int),
            rest@.len() + out@.len() == all.len(),
            out@ == all.skip(rest@.len() as int).reverse(),
        decreases rest@.len(),
    {
        let last: usize = rest.len() - 1;
        out.push(rest.remove(last));
    }
    out
}

/// Takes a `serde_json` value over into the library's own type.
pub fn from_value(value: serde_json::Value) -> (r: Json)
    ensures
        r@ == value_tree(value),
    decreases value_tree(value),
{
    match open_value(value) {
        ValueParts::Null => Json::Null,
        ValueParts::Bool(b) => Json::Bool(b),
        ValueParts::Number { unsigned, signed, notation } => match unsigned {
            Some(n) => Json::Number(JsonNumber::Unsigned(n)),
            None => match signed {
                Some(n) => Json::Number(JsonNumber::Negative(n)),
                None => Json::Number(JsonNumber::Float(notation)),
            },
        },
        ValueParts::Text(s) => Json::Text(s),
        ValueParts::Array(items) => {
            let ghost all = items@;
            let ghost trees = value_trees(all);
            let mut rest: Vec<serde_json::Value> = reversed(items);
            let mut out: Vec<Json> = Vec::new();
            while rest.len() > 0
                invariant
                    value_tree(value) == JsonView::Array(trees),
                    trees == value_trees(all),
                    rest@.len() + out@.len() == all.len(),
                    rest@ == all.skip(out@.len() as int).reverse(),
                    forall|k: int| 0 <= k < out@.len() ==> (#[trigger] out@[k])@ == trees[k],
                decreases rest@.len(),
            {
                let ghost i = out@.len() as int;
                let last: usize = rest.len() - 1;
                let head: serde_json::Value = rest.remove(last);
                proof {
                    assert(head == all[i]);
                    assert(value_tree(head) == trees[i]);
                    assert(decreases_to!(value_tree(value) => value_tree(value)->Array_0));
                    assert(decreases_to!(trees => trees[i]));
                    assert(rest@ =~= all.skip(i + 1).reverse());
                }
                out.push(from_value(head));
            }
            assert(json::json_views(out@) =~= trees);
            Json::Array(out)
        },
        ValueParts::Object(entries) => {
            let ghost all = entries@;
            let ghost trees = entry_trees(all);
            let mut rest: Vec<(String, serde_json::Value)> = reversed(entries);
            let mut out: Vec<(String, Json)> = Vec::new();
            while rest.len() > 0
                invariant
                    value_tree(value) == JsonView::Object(trees),
                    trees == entry_trees(all),
                    rest@.len() + out@.len() == all.len(),
                    rest@ == all.skip(out@.len() as int).reverse(),
                    forall|k: int|
                        0 <= k < out@.len() ==> (#[trigger] out@[k]).0@ == trees[k].0 && out@[k].1@ == trees[k].1,
                decreases rest@.len(),
            {
                let ghost i = out@.len() as int;
                let last: usize = rest.len() - 1;
                let (key, head) = rest.remove(last);
                proof {
                    assert((key, head) == all[i]);
                    assert(trees[i] == (key@, value_tree(head)));
                    assert(decreases_to!(value_tree(value) => value_tree(value)->Object_0));
                    assert(decreases_to!(trees => trees[i]));
                    assert(decreases_to!(trees[i] => trees[i].1));
                    assert(rest@ =~= all.skip(i + 1).reverse());
                }
                out.push((key, from_value(head)));
            }
            assert(json::json_entries(out@) =~= trees);
            Json::Object(out)
        },
    }
}

/// Hands a value of the library's own type over to `serde_json`.
pub fn to_value(j: &Json) -> (r: serde_json::Value)
    ensures
        value_tree(r) == canonical(j@),
    decreases j,
{
    match j {
        Json::Null => close_value(NewValue::Null),
        Json::Bool(b) => close_value(NewValue::Bool(*b)),
        Json::Number(JsonNumber::Unsigned(n)) => close_value(NewValue::Unsigned(*n)),
        Json::Number(JsonNumber::Negative(n)) => close_value(NewValue::Signed(*n)),
        Json::Number(JsonNumber::Float(s)) => match parse_value(s.as_str()) {
            Ok(v) => v,
            Err(_) => close_value(NewValue::Null),
        },
        Json::Text(s) => close_value(NewValue::Text(s.clone())),
        Json::Array(items) => {
            let mut out: Vec<serde_json::Value> = Vec::new();
            let mut i: usize = 0;
            while i < items.len()
                invariant
                    i <= items@.len(),
                    out@.len() == i,
                    *j == Json::Array(*items),
                    forall|k: int| 0 <= k < i ==> value_tree(#[trigger] out@[k]) == canonical(items@[k]@),
                decreases items@.len() - i,
            {
                assert(decreases_to!(*j => j->Array_0));
                assert(decreases_to!(*items => items@));
                assert(decreases_to!(items@ => items@[i as int]));
                out.push(to_value(&items[i]));
                i = i + 1;
            }
            assert(value_trees(out@) =~= canonical_items(json::json_views(items@)));
            close_value(NewValue::Array(out))
        },
        Json::Object(entries) => {
            let ghost trees = canonical_entries(json::json_entries(entries@));
            let mut map: serde_json::Map<String, serde_json::Value> = new_map();
            let mut i: usize = 0;
            while i < entries.len()
                invariant
                    i <= entries@.len(),
                    *j == Json::Object(*entries),
                    trees == canonical_entries(json::json_entries(entries@)),
                    map_tree(map) == map_entries(trees.take(i as int)),
                decreases entries@.len() - i,
            {
                proof {
                    assert(decreases_to!(*j => j->Object_0));
                    assert(decreases_to!(*entries => entries@));
                    assert(decreases_to!(entries@ => entries@[i as int]));
                    assert(decreases_to!(entries@[i as int] => entries@[i as int].1));
                    assert(trees.take(i + 1).drop_last() =~= trees.take(i as int));
                    assert(trees.take(i + 1).last() == trees[i as int]);
                }
                put_entry(&mut map, entries[i].0.clone(), to_value(&entries[i].1));
                i = i + 1;
            }
            assert(trees.take(i as int) =~= trees);
            close_map(map)
        },
    }
}

/// Reads a JSON value from its notation.
pub fn parse_json(s: &str) -> (r: Option<Json>)
    ensures
        match r {
            Some(j) => parsed_tree(s@) == Some(j@),
            None => parsed_tree(s@) is None,
        },
{
    match parse_value(s) {
        Ok(v) => Some(from_value(v)),
        Err(_) => None,
    }
}

/// The notation of a JSON value over several lines; empty where there is none.
pub fn pretty_json(j: &Json) -> (r: String)
    ensures
        r@ == text::text_or(pretty_text(canonical(j@)), Seq::empty()),
{
    match pretty_value(&to_value(j)) {
        Ok(s) => s,
        Err(_) => {
            let r = String::new();
            assert(r@ =~= Seq::<char>::empty());
            r
        },
    }
}

/// The debug notation of a JSON value.
pub fn debug_json(j: &Json) -> (r: String)
    ensures
        r@ == debug_text(canonical(j@)),
{
    debug_value(&to_value(j))
}

} // verus!
