use vstd::prelude::*;
use crate::text::same_text;

verus! {

/// One member of a JSON object: a key and the value stored under it.
#[derive(Debug)]
pub struct Entry {
    pub key: String,
    pub value: Json,
}

/// A JSON document held as plain values. A number is kept as its decimal text.
#[derive(Debug)]
pub enum Json {
    Null,
    Bool(bool),
    Number(String),
    Text(String),
    Array(Vec<Json>),
    Object(Vec<Entry>),
}

/// The mathematical value of an [`Entry`].
pub struct EntryModel {
    pub key: Seq<char>,
    pub value: JsonModel,
}

/// The mathematical value of a [`Json`] document.
pub enum JsonModel {
    Null,
    Bool(bool),
    Number(Seq<char>),
    Text(Seq<char>),
    Array(Seq<JsonModel>),
    Object(Seq<EntryModel>),
}

/// The mathematical values of the items of an array.
pub open spec fn items_model(items: Seq<Json>) -> Seq<JsonModel>
    decreases items,
{
    Seq::new(
        items.len(),
        |i: int|
            if 0 <= i < items.len() {
                items[i]@
            } else {
                JsonModel::Null
            },
    )
}

/// The mathematical values of the entries of an object.
pub open spec fn entries_model(entries: Seq<Entry>) -> Seq<EntryModel>
    decreases entries,
{
    Seq::new(
        entries.len(),
        |i: int|
            if 0 <= i < entries.len() {
                EntryModel { key: entries[i].key@, value: entries[i].value@ }
            } else {
                EntryModel { key: Seq::empty(), value: JsonModel::Null }
            },
    )
}

impl View for Json {
    type V = JsonModel;

    open spec fn view(&self) -> JsonModel
        decreases self,
    {
        match self {
            Json::Null => JsonModel::Null,
            Json::Bool(b) => JsonModel::Bool(*b),
            Json::Number(n) => JsonModel::Number(n@),
            Json::Text(t) => JsonModel::Text(t@),
            Json::Array(items) => JsonModel::Array(items_model(items@)),
            Json::Object(entries) => JsonModel::Object(entries_model(entries@)),
        }
    }
}

/// The position of the first entry at or after `from` whose key is `key`;
/// the number of entries when there is none.
pub open spec fn key_position(entries: Seq<EntryModel>, key: Seq<char>, from: int) -> int
    decreases entries.len() - from,
{
    if from < 0 || from >= entries.len() {
        entries.len() as int
    } else if entries[from].key == key {
        from
    } else {
        key_position(entries, key, from + 1)
    }
}

/// The value that the first entry with the key `key` holds, if there is one.
pub open spec fn value_at(entries: Seq<EntryModel>, key: Seq<char>) -> Option<JsonModel> {
    let at = key_position(entries, key, 0);
    if 0 <= at < entries.len() {
        Some(entries[at].value)
    } else {
        None
    }
}

/// The text stored under `key`; the empty text where the key is missing or
/// holds something else.
pub open spec fn text_at(entries: Seq<EntryModel>, key: Seq<char>) -> Seq<char> {
    match value_at(entries, key) {
        Some(JsonModel::Text(t)) => t,
        _ => ""@,
    }
}

/// The items of the array stored under `key`; none where the key is missing
/// or holds something else.
pub open spec fn items_at(entries: Seq<EntryModel>, key: Seq<char>) -> Seq<JsonModel> {
    match value_at(entries, key) {
        Some(JsonModel::Array(items)) => items,
        _ => Seq::empty(),
    }
}

/// The entries of the object stored under `key`; none where the key is
/// missing or holds something else.
pub open spec fn entries_at(entries: Seq<EntryModel>, key: Seq<char>) -> Seq<EntryModel> {
    match value_at(entries, key) {
        Some(JsonModel::Object(inner)) => inner,
        _ => Seq::empty(),
    }
}

/// The truth value stored under `key`, if the key holds one.
pub open spec fn bool_at(entries: Seq<EntryModel>, key: Seq<char>) -> Option<bool> {
    match value_at(entries, key) {
        Some(JsonModel::Bool(b)) => Some(b),
        _ => None,
    }
}

/// The entries of a document that is an object; none for any other.
pub open spec fn entries_of(doc: JsonModel) -> Seq<EntryModel> {
    match doc {
        JsonModel::Object(entries) => entries,
        _ => Seq::empty(),
    }
}

/// The statements of a program: the items of the array under `body`.
pub open spec fn program_body(tree: JsonModel) -> Seq<JsonModel> {
    items_at(entries_of(tree), "body"@)
}

/// Finds the first entry with the key `key`.
pub fn find_entry(entries: &Vec<Entry>, key: &str) -> (r: Option<usize>)
    ensures
        match r {
            Some(at) => at < entries@.len() && key_position(entries_model(entries@), key@, 0)
                == at,
            None => key_position(entries_model(entries@), key@, 0) == entries@.len(),
        },
{
    let ghost model = entries_model(entries@);
    let mut i: usize = 0;
    while i < entries.len()
        invariant
            i <= entries@.len(),
            model == entries_model(entries@),
            key_position(model, key@, 0) == key_position(model, key@, i as int),
        decreases entries@.len() - i,
    {
        if same_text(entries[i].key.as_str(), key) {
            return Some(i);
        }
        i += 1;
    }
    None
}

/// The value stored under `key`, if there is one.
pub fn get_value<'a>(entries: &'a Vec<Entry>, key: &str) -> (r: Option<&'a Json>)
    ensures
        match r {
            Some(value) => value_at(entries_model(entries@), key@) == Some(value@)
                && decreases_to!(entries => value),
            None => value_at(entries_model(entries@), key@) is None,
        },
{
    match find_entry(entries, key) {
        Some(at) => Some(&entries[at].value),
        None => None,
    }
}

/// The text stored under `key`; the empty text where there is none.
pub fn get_text<'a>(entries: &'a Vec<Entry>, key: &str) -> (r: &'a str)
    ensures
        r@ == text_at(entries_model(entries@), key@),
{
    match get_value(entries, key) {
        Some(Json::Text(t)) => t.as_str(),
        _ => "",
    }
}

/// The truth value stored under `key`, if the key holds one.
pub fn get_bool(entries: &Vec<Entry>, key: &str) -> (r: Option<bool>)
    ensures
        r == bool_at(entries_model(entries@), key@),
{
    match get_value(entries, key) {
        Some(Json::Bool(b)) => Some(*b),
        _ => None,
    }
}

/// The items of the array stored under `key`, if the key holds one.
pub fn get_items<'a>(entries: &'a Vec<Entry>, key: &str) -> (r: Option<&'a Vec<Json>>)
    ensures
        match r {
            Some(items) => value_at(entries_model(entries@), key@) == Some(
                JsonModel::Array(items_model(items@)),
            ) && decreases_to!(entries => items),
            None => !(value_at(entries_model(entries@), key@) matches Some(JsonModel::Array(_))),
        },
{
    match get_value(entries, key) {
        Some(Json::Array(items)) => Some(items),
        _ => None,
    }
}

/// The entries of the object stored under `key`, if the key holds one.
pub fn get_entries<'a>(entries: &'a Vec<Entry>, key: &str) -> (r: Option<&'a Vec<Entry>>)
    ensures
        match r {
            Some(inner) => value_at(entries_model(entries@), key@) == Some(
                JsonModel::Object(entries_model(inner@)),
            ) && decreases_to!(entries => inner),
            None => !(value_at(entries_model(entries@), key@) matches Some(JsonModel::Object(_))),
        },
{
    match get_value(entries, key) {
        Some(Json::Object(inner)) => Some(inner),
        _ => None,
    }
}

} // verus!
