//! How values are read: what an object holds after entries were added to it, and the fields of
//! messages.

use vstd::prelude::*;

use crate::json;
use crate::json::JsonView;

verus! {

// ---------------------------------------------------------------------------
// Entries
// ---------------------------------------------------------------------------

proof fn lemma_entry_from_push(
    entries: Seq<(Seq<char>, JsonView)>,
    key: Seq<char>,
    value: JsonView,
    k: Seq<char>,
    from: int,
)
    requires
        0 <= from <= entries.len(),
    ensures
        json::entry_from(entries.push((key, value)), k, from) == (match json::entry_from(entries, k, from) {
            Some(i) => Some(i),
            None => if key == k {
                Some(entries.len() as int)
            } else {
                None
            },
        }),
    decreases entries.len() - from,
{
    let after = entries.push((key, value));
    if from < entries.len() {
        assert(after[from] == entries[from]);
        if entries[from].0 != k {
            lemma_entry_from_push(entries, key, value, k, from + 1);
        }
    } else {
        assert(after[from] == (key, value));
        reveal_with_fuel(json::entry_from, 2);
    }
}

proof fn lemma_entry_from_update(
    entries: Seq<(Seq<char>, JsonView)>,
    i: int,
    key: Seq<char>,
    value: JsonView,
    k: Seq<char>,
    from: int,
)
    requires
        0 <= from <= entries.len(),
        0 <= i < entries.len(),
        entries[i].0 == key,
    ensures
        json::entry_from(entries.update(i, (key, value)), k, from) == json::entry_from(entries, k, from),
    decreases entries.len() - from,
{
    if from < entries.len() && entries[from].0 != k {
        lemma_entry_from_update(entries, i, key, value, k, from + 1);
    }
}

/// An entry that is put at the end of an object is found there, unless one of the same name stood
/// there before; the others are found as before.
pub broadcast proof fn lemma_get_and(j: JsonView, key: Seq<char>, value: JsonView, k: Seq<char>)
    requires
        j is Object,
    ensures
        #[trigger] j.and(key, value).get(k) == (match j.get(k) {
            Some(v) => Some(v),
            None => if key == k {
                Some(value)
            } else {
                None
            },
        }),
{
    if let JsonView::Object(entries) = j {
        lemma_entry_from_push(entries, key, value, k, 0);
        json::lemma_entry_from(entries, k, 0);
    }
}

/// An entry that is set is found, and the others are found as before.
pub broadcast proof fn lemma_get_with(j: JsonView, key: Seq<char>, value: JsonView, k: Seq<char>)
    requires
        j is Object,
    ensures
        #[trigger] j.with(key, value).get(k) == (if key == k {
            Some(value)
        } else {
            j.get(k)
        }),
{
    if let JsonView::Object(entries) = j {
        json::lemma_entry_from(entries, key, 0);
        json::lemma_entry_from(entries, k, 0);
        match json::entry_from(entries, key, 0) {
            Some(i) => lemma_entry_from_update(entries, i, key, value, k, 0),
            None => lemma_entry_from_push(entries, key, value, k, 0),
        }
    }
}

pub broadcast proof fn lemma_and_is_object(j: JsonView, key: Seq<char>, value: JsonView)
    requires
        j is Object,
    ensures
        #[trigger] j.and(key, value) is Object,
{
}

pub broadcast proof fn lemma_with_is_object(j: JsonView, key: Seq<char>, value: JsonView)
    requires
        j is Object,
    ensures
        #[trigger] j.with(key, value) is Object,
{
}

/// An object without entries has none.
pub broadcast proof fn lemma_get_obj(k: Seq<char>)
    ensures
        (#[trigger] json::obj().get(k)) is None,
{
}

// ---------------------------------------------------------------------------
// Fields
// ---------------------------------------------------------------------------

/// A text as a value that was found.
pub open spec fn found(s: Seq<char>) -> Option<JsonView> {
    Some(JsonView::Text(s))
}

/// The text under a name, where a text stands there.
pub open spec fn text_at(j: JsonView, name: Seq<char>) -> Option<Seq<char>> {
    match j.get(name) {
        Some(JsonView::Text(s)) => Some(s),
        _ => None,
    }
}

/// The text under a name; empty where none stands there.
pub open spec fn string_at(j: JsonView, name: Seq<char>) -> Seq<char> {
    match j.get(name) {
        Some(JsonView::Text(s)) => s,
        _ => Seq::empty(),
    }
}

/// What stands under a name of a value that may be missing.
pub open spec fn within(o: Option<JsonView>, name: Seq<char>) -> Option<JsonView> {
    match o {
        Some(j) => j.get(name),
        None => None,
    }
}

/// The first of two values that is there.
pub open spec fn first(a: Option<JsonView>, b: Option<JsonView>) -> Option<JsonView> {
    if a is Some {
        a
    } else {
        b
    }
}

/// A parameter of a message.
pub open spec fn param(m: JsonView, name: Seq<char>) -> Option<JsonView> {
    within(m.get("params"@), name)
}

/// A field of the item that a message shows.
pub open spec fn item_field(m: JsonView, name: Seq<char>) -> Option<JsonView> {
    within(param(m, "item"@), name)
}

/// Whether a message has a method.
pub open spec fn has_method(m: JsonView, method: Seq<char>) -> bool {
    m.get("method"@) == found(method)
}

/// Whether nothing but white space stands in a text.
pub open spec fn is_blank(s: Seq<char>) -> bool {
    forall|i: int| 0 <= i < s.len() ==> crate::text::white_space(#[trigger] s[i])
}

pub broadcast group group_reading {
    lemma_get_and,
    lemma_get_with,
    lemma_and_is_object,
    lemma_with_is_object,
    lemma_get_obj,
}

} // verus!
