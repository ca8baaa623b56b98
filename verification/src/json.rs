//! JSON values as plain data.

use vstd::prelude::*;
use vstd::string::*;

use crate::text;
use crate::text::str_eq;

verus! {

/// A JSON number: a non-negative integer, a negative integer, or a number with a fraction or an
/// exponent, which is carried along in its decimal notation.
#[derive(Debug, PartialEq)]
pub enum JsonNumber {
    Unsigned(u64),
    Negative(i64),
    Float(String),
}

/// The mathematical value of a JSON number.
pub enum NumberView {
    Unsigned(u64),
    Negative(i64),
    Float(Seq<char>),
}

impl View for JsonNumber {
    type V = NumberView;

    open spec fn view(&self) -> NumberView {
        match self {
            JsonNumber::Unsigned(n) => NumberView::Unsigned(*n),
            JsonNumber::Negative(n) => NumberView::Negative(*n),
            JsonNumber::Float(s) => NumberView::Float(s@),
        }
    }
}

/// A JSON value. The entries of an object stand in the order in which they are listed.
#[derive(Debug, PartialEq)]
pub enum Json {
    Null,
    Bool(bool),
    Number(JsonNumber),
    Text(String),
    Array(Vec<Json>),
    Object(Vec<(String, Json)>),
}

/// The mathematical value of a JSON value.
pub enum JsonView {
    Null,
    Bool(bool),
    Number(NumberView),
    Text(Seq<char>),
    Array(Seq<JsonView>),
    Object(Seq<(Seq<char>, JsonView)>),
}

pub open spec fn json_view(j: Json) -> JsonView
    decreases j,
{
    match j {
        Json::Null => JsonView::Null,
        Json::Bool(b) => JsonView::Bool(b),
        Json::Number(n) => JsonView::Number(n@),
        Json::Text(s) => JsonView::Text(s@),
        Json::Array(items) => JsonView::Array(json_views(items@)),
        Json::Object(entries) => JsonView::Object(json_entries(entries@)),
    }
}

/// The values of a list of JSON values.
pub open spec fn json_views(items: Seq<Json>) -> Seq<JsonView>
    decreases items,
{
    Seq::new(
        items.len(),
        |i: int|
            if 0 <= i < items.len() {
                json_view(items[i])
            } else {
                JsonView::Null
            },
    )
}

/// The names and values of a list of object entries.
pub open spec fn json_entries(entries: Seq<(String, Json)>) -> Seq<(Seq<char>, JsonView)>
    decreases entries,
{
    Seq::new(
        entries.len(),
        |i: int|
            if 0 <= i < entries.len() {
                (entries[i].0@, json_view(entries[i].1))
            } else {
                (Seq::empty(), JsonView::Null)
            },
    )
}

impl View for Json {
    type V = JsonView;

    open spec fn view(&self) -> JsonView {
        json_view(*self)
    }
}

/// The index of the first entry with the given name at or after `from`.
pub open spec fn entry_from(entries: Seq<(Seq<char>, JsonView)>, key: Seq<char>, from: int) -> Option<int>
    decreases entries.len() - from,
{
    if from < 0 || from >= entries.len() {
        None
    } else if entries[from].0 == key {
        Some(from)
    } else {
        entry_from(entries, key, from + 1)
    }
}

/// The entry that is found has the name that was looked for.
pub proof fn lemma_entry_from(entries: Seq<(Seq<char>, JsonView)>, key: Seq<char>, from: int)
    ensures
        entry_from(entries, key, from) matches Some(i) ==> from <= i < entries.len() && entries[i].0 == key,
    decreases entries.len() - from,
{
    if 0 <= from < entries.len() && entries[from].0 != key {
        lemma_entry_from(entries, key, from + 1);
    }
}

/// The entries after the entry `key` has been given `value`: in its place where there is one, at
/// the end where there is none.
pub open spec fn entries_with(
    entries: Seq<(Seq<char>, JsonView)>,
    key: Seq<char>,
    value: JsonView,
) -> Seq<(Seq<char>, JsonView)> {
    match entry_from(entries, key, 0) {
        Some(i) => entries.update(i, (key, value)),
        None => entries.push((key, value)),
    }
}

impl JsonView {
    /// The value of an object's entry, if there is one.
    pub open spec fn get(self, key: Seq<char>) -> Option<JsonView> {
        match self {
            JsonView::Object(entries) => match entry_from(entries, key, 0) {
                Some(i) => Some(entries[i].1),
                None => None,
            },
            _ => None,
        }
    }

    pub open spec fn as_str(self) -> Option<Seq<char>> {
        match self {
            JsonView::Text(s) => Some(s),
            _ => None,
        }
    }

    /// The object with one more entry at its end.
    pub open spec fn and(self, key: Seq<char>, value: JsonView) -> JsonView {
        match self {
            JsonView::Object(entries) => JsonView::Object(entries.push((key, value))),
            other => other,
        }
    }

    /// The object with one entry set.
    pub open spec fn with(self, key: Seq<char>, value: JsonView) -> JsonView {
        match self {
            JsonView::Object(entries) => JsonView::Object(entries_with(entries, key, value)),
            other => other,
        }
    }
}

impl JsonView {
    pub open spec fn get_str(self, key: Seq<char>) -> Option<Seq<char>> {
        as_str_of(self.get(key))
    }

    pub open spec fn as_bool(self) -> Option<bool> {
        match self {
            JsonView::Bool(b) => Some(b),
            _ => None,
        }
    }

    pub open spec fn as_array(self) -> Option<Seq<JsonView>> {
        match self {
            JsonView::Array(items) => Some(items),
            _ => None,
        }
    }

    pub open spec fn as_object(self) -> Option<Seq<(Seq<char>, JsonView)>> {
        match self {
            JsonView::Object(entries) => Some(entries),
            _ => None,
        }
    }

    /// The number, where it is a non-negative integer.
    pub open spec fn as_u64(self) -> Option<u64> {
        match self {
            JsonView::Number(NumberView::Unsigned(n)) => Some(n),
            _ => None,
        }
    }

    /// The number, where it is an integer that 64 bits with a sign hold.
    pub open spec fn as_i64(self) -> Option<i64> {
        match self {
            JsonView::Number(NumberView::Unsigned(n)) => if n <= i64::MAX {
                Some(n as i64)
            } else {
                None
            },
            JsonView::Number(NumberView::Negative(n)) => Some(n),
            _ => None,
        }
    }
}

/// The object without entries.
pub open spec fn obj() -> JsonView {
    JsonView::Object(Seq::empty())
}

pub open spec fn as_str_of(o: Option<JsonView>) -> Option<Seq<char>> {
    match o {
        Some(j) => j.as_str(),
        None => None,
    }
}

pub open spec fn get_of(o: Option<JsonView>, key: Seq<char>) -> Option<JsonView> {
    match o {
        Some(j) => j.get(key),
        None => None,
    }
}

pub open spec fn as_array_of(o: Option<JsonView>) -> Option<Seq<JsonView>> {
    match o {
        Some(j) => j.as_array(),
        None => None,
    }
}

/// The first of two values, where it is there, or else the second.
pub open spec fn either_of(a: Option<JsonView>, b: Option<JsonView>) -> Option<JsonView> {
    match a {
        Some(j) => Some(j),
        None => b,
    }
}

/// The value, or null where there is none.
pub open spec fn or_null_of(o: Option<JsonView>) -> JsonView {
    match o {
        Some(j) => j,
        None => JsonView::Null,
    }
}

/// A list of JSON strings.
pub open spec fn text_array(items: Seq<Seq<char>>) -> JsonView {
    JsonView::Array(items.map_values(|s: Seq<char>| JsonView::Text(s)))
}

pub open spec fn opt_json(o: Option<&Json>) -> Option<JsonView> {
    match o {
        Some(j) => Some(j@),
        None => None,
    }
}

/// Finds the first entry with the given name.
fn find_entry(entries: &Vec<(String, Json)>, key: &str) -> (r: Option<usize>)
    ensures
        match r {
            Some(i) => i < entries@.len() && entry_from(json_entries(entries@), key@, 0) == Some(i as int),
            None => entry_from(json_entries(entries@), key@, 0) is None,
        },
{
    let mut i: usize = 0;
    while i < entries.len()
        invariant
            i <= entries@.len(),
            entry_from(json_entries(entries@), key@, 0) == entry_from(json_entries(entries@), key@, i as int),
        decreases entries@.len() - i,
    {
        if str_eq(entries[i].0.as_str(), key) {
            return Some(i);
        }
        i = i + 1;
    }
    None
}

impl Json {
    /// The value of an object's entry; nothing where the value is no object or has no such entry.
    pub fn get<'a>(&'a self, key: &str) -> (r: Option<&'a Json>)
        ensures
            opt_json(r) == self@.get(key@),
    {
        match self {
            Json::Object(entries) => match find_entry(entries, key) {
                Some(i) => Some(&entries[i].1),
                None => None,
            },
            _ => None,
        }
    }

    /// The characters of a JSON string; nothing for any other value.
    pub fn as_str<'a>(&'a self) -> (r: Option<&'a str>)
        ensures
            text::opt_text(r) == self@.as_str(),
    {
        match self {
            Json::Text(s) => Some(s.as_str()),
            _ => None,
        }
    }

    /// The characters of an object's entry, where it is a JSON string.
    pub fn get_str<'a>(&'a self, key: &str) -> (r: Option<&'a str>)
        ensures
            text::opt_text(r) == self@.get_str(key@),
    {
        as_str_in(self.get(key))
    }

    pub fn as_bool(&self) -> (r: Option<bool>)
        ensures
            r == self@.as_bool(),
    {
        match self {
            Json::Bool(b) => Some(*b),
            _ => None,
        }
    }

    pub fn as_array<'a>(&'a self) -> (r: Option<&'a Vec<Json>>)
        ensures
            match r {
                Some(items) => self@.as_array() == Some(json_views(items@)),
                None => self@.as_array() is None,
            },
    {
        match self {
            Json::Array(items) => Some(items),
            _ => None,
        }
    }

    pub fn as_object<'a>(&'a self) -> (r: Option<&'a Vec<(String, Json)>>)
        ensures
            match r {
                Some(entries) => self@.as_object() == Some(json_entries(entries@)),
                None => self@.as_object() is None,
            },
    {
        match self {
            Json::Object(entries) => Some(entries),
            _ => None,
        }
    }

    /// The number, where it is a non-negative integer.
    pub fn as_u64(&self) -> (r: Option<u64>)
        ensures
            r == self@.as_u64(),
    {
        match self {
            Json::Number(JsonNumber::Unsigned(n)) => Some(*n),
            _ => None,
        }
    }

    /// The number, where it is an integer that 64 bits with a sign hold.
    pub fn as_i64(&self) -> (r: Option<i64>)
        ensures
            r == self@.as_i64(),
    {
        match self {
            Json::Number(JsonNumber::Unsigned(n)) => if *n <= 0x7fff_ffff_ffff_ffff {
                Some(*n as i64)
            } else {
                None
            },
            Json::Number(JsonNumber::Negative(n)) => Some(*n),
            _ => None,
        }
    }

    /// A JSON string.
    pub fn text(s: &str) -> (r: Json)
        ensures
            r@ == JsonView::Text(s@),
    {
        Json::Text(s.to_owned())
    }

    /// A JSON number.
    pub fn number(n: u64) -> (r: Json)
        ensures
            r@ == JsonView::Number(NumberView::Unsigned(n)),
    {
        Json::Number(JsonNumber::Unsigned(n))
    }

    /// A JSON array.
    pub fn array(items: Vec<Json>) -> (r: Json)
        ensures
            r@ == JsonView::Array(json_views(items@)),
    {
        Json::Array(items)
    }

    /// A JSON array of strings.
    pub fn texts(items: &Vec<String>) -> (r: Json)
        ensures
            r@ == text_array(text::texts(items@)),
    {
        let mut out: Vec<Json> = Vec::new();
        let mut i: usize = 0;
        while i < items.len()
            invariant
                i <= items@.len(),
                out@.len() == i,
                forall|k: int| 0 <= k < i ==> (#[trigger] out@[k])@ == JsonView::Text(items@[k]@),
            decreases items@.len() - i,
        {
            out.push(Json::text(items[i].as_str()));
            i = i + 1;
        }
        assert(json_views(out@) =~= text::texts(items@).map_values(|s: Seq<char>| JsonView::Text(s)));
        Json::Array(out)
    }

    /// The object without entries.
    pub fn obj() -> (r: Json)
        ensures
            r@ == obj(),
    {
        let r = Json::Object(Vec::new());
        assert(r@->Object_0 =~= Seq::empty());
        r
    }

    /// The object with one more entry at its end; any other value stays as it is.
    pub fn and(self, key: &str, value: Json) -> (r: Json)
        ensures
            r@ == self@.and(key@, value@),
    {
        match self {
            Json::Object(entries) => {
                let mut entries = entries;
                let ghost before = json_entries(entries@);
                entries.push((key.to_owned(), value));
                assert(json_entries(entries@) =~= before.push((key@, value@)));
                Json::Object(entries)
            },
            other => other,
        }
    }

    /// The object with one entry set; any other value stays as it is.
    pub fn with(self, key: &str, value: Json) -> (r: Json)
        ensures
            r@ == self@.with(key@, value@),
    {
        match self {
            Json::Object(entries) => {
                let mut entries = entries;
                let ghost before = json_entries(entries@);
                match find_entry(&entries, key) {
                    Some(i) => {
                        entries.set(i, (key.to_owned(), value));
                        assert(json_entries(entries@) =~= before.update(i as int, (key@, value@)));
                    },
                    None => {
                        entries.push((key.to_owned(), value));
                        assert(json_entries(entries@) =~= before.push((key@, value@)));
                    },
                }
                Json::Object(entries)
            },
            other => other,
        }
    }
}

/// The characters of the value, where it is a JSON string.
pub fn as_str_in<'a>(o: Option<&'a Json>) -> (r: Option<&'a str>)
    ensures
        text::opt_text(r) == as_str_of(opt_json(o)),
{
    match o {
        Some(j) => j.as_str(),
        None => None,
    }
}

/// An entry of the value.
pub fn get_in<'a>(o: Option<&'a Json>, key: &str) -> (r: Option<&'a Json>)
    ensures
        opt_json(r) == get_of(opt_json(o), key@),
{
    match o {
        Some(j) => j.get(key),
        None => None,
    }
}

/// The items of the value, where it is an array.
pub fn as_array_in<'a>(o: Option<&'a Json>) -> (r: Option<&'a Vec<Json>>)
    ensures
        match r {
            Some(items) => as_array_of(opt_json(o)) == Some(json_views(items@)),
            None => as_array_of(opt_json(o)) is None,
        },
{
    match o {
        Some(j) => j.as_array(),
        None => None,
    }
}

/// The first of two values, where it is there, or else the second.
pub fn either<'a>(a: Option<&'a Json>, b: Option<&'a Json>) -> (r: Option<&'a Json>)
    ensures
        opt_json(r) == either_of(opt_json(a), opt_json(b)),
{
    match a {
        Some(j) => Some(j),
        None => b,
    }
}

/// A copy of the value, or null where there is none.
pub fn or_null(o: Option<&Json>) -> (r: Json)
    ensures
        r@ == or_null_of(opt_json(o)),
{
    match o {
        Some(j) => j.clone(),
        None => Json::Null,
    }
}

/// A list of one value.
pub fn one(j: Json) -> (r: Vec<Json>)
    ensures
        json_views(r@) == seq![j@],
{
    let mut out: Vec<Json> = Vec::new();
    out.push(j);
    assert(json_views(out@) =~= seq![j@]);
    out
}

/// An empty list.
pub fn none() -> (r: Vec<Json>)
    ensures
        json_views(r@) == Seq::<JsonView>::empty(),
{
    let out: Vec<Json> = Vec::new();
    assert(json_views(out@) =~= Seq::<JsonView>::empty());
    out
}

/// Puts a value at the end of a list.
pub fn push_json(list: &mut Vec<Json>, j: Json)
    ensures
        json_views(final(list)@) == json_views(old(list)@).push(j@),
{
    list.push(j);
    assert(json_views(list@) =~= json_views(old(list)@).push(j@));
}

/// The value and the error of a result.
pub open spec fn result_json(r: Result<Json, String>) -> Result<JsonView, Seq<char>> {
    match r {
        Ok(j) => Ok(j@),
        Err(e) => Err(e@),
    }
}

pub open spec fn opt_json_owned(o: Option<Json>) -> Option<JsonView> {
    match o {
        Some(j) => Some(j@),
        None => None,
    }
}

/// A JSON string, or null.
pub open spec fn text_or_null(o: Option<Seq<char>>) -> JsonView {
    match o {
        Some(s) => JsonView::Text(s),
        None => JsonView::Null,
    }
}

/// A JSON string, or null.
pub fn str_or_null(o: Option<&str>) -> (r: Json)
    ensures
        r@ == text_or_null(text::opt_text(o)),
{
    match o {
        Some(s) => Json::text(s),
        None => Json::Null,
    }
}

impl Clone for Json {
    fn clone(&self) -> (r: Self)
        ensures
            r@ == self@,
        decreases self,
    {
        match self {
            Json::Null => Json::Null,
            Json::Bool(b) => Json::Bool(*b),
            Json::Number(n) => Json::Number(number_clone(n)),
            Json::Text(s) => Json::Text(s.clone()),
            Json::Array(items) => {
                let mut out: Vec<Json> = Vec::new();
                let mut i: usize = 0;
                while i < items.len()
                    invariant
                        i <= items@.len(),
                        out@.len() == i,
                        *self == Json::Array(*items),
                        forall|k: int| 0 <= k < i ==> (#[trigger] out@[k])@ == items@[k]@,
                    decreases items@.len() - i,
                {
                    assert(decreases_to!(*self => self->Array_0));
                    assert(decreases_to!(*items => items@));
                    assert(decreases_to!(items@ => items@[i as int]));
                    out.push(items[i].clone());
                    i = i + 1;
                }
                assert(json_views(out@) =~= json_views(items@));
                Json::Array(out)
            },
            Json::Object(entries) => {
                let mut out: Vec<(String, Json)> = Vec::new();
                let mut i: usize = 0;
                while i < entries.len()
                    invariant
                        i <= entries@.len(),
                        out@.len() == i,
                        *self == Json::Object(*entries),
                        forall|k: int|
                            0 <= k < i ==> (#[trigger] out@[k]).0@ == entries@[k].0@ && out@[k].1@
                                == entries@[k].1@,
                    decreases entries@.len() - i,
                {
                    assert(decreases_to!(*self => self->Object_0));
                    assert(decreases_to!(*entries => entries@));
                    assert(decreases_to!(entries@ => entries@[i as int]));
                    assert(decreases_to!(entries@[i as int] => entries@[i as int].1));
                    out.push((entries[i].0.clone(), entries[i].1.clone()));
                    i = i + 1;
                }
                assert(json_entries(out@) =~= json_entries(entries@));
                Json::Object(out)
            },
        }
    }
}

fn number_clone(n: &JsonNumber) -> (r: JsonNumber)
    ensures
        r@ == n@,
{
    match n {
        JsonNumber::Unsigned(k) => JsonNumber::Unsigned(*k),
        JsonNumber::Negative(k) => JsonNumber::Negative(*k),
        JsonNumber::Float(f) => JsonNumber::Float(f.clone()),
    }
}

} // verus!
