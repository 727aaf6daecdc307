//! JSON values of `serde_json`, and what the library knows of them.

use vstd::prelude::*;

use crate::numbers;
use crate::text;
use agent_client_protocol::schema::v1::TextContent;
use serde_json::Value;

verus! {

/// A JSON value, opaque but for `json_of`.
#[verifier::external_type_specification]
#[verifier::external_body]
pub struct ExValue(serde_json::Value);

/// A JSON syntax or data error, carried but never inspected.
#[verifier::external_type_specification]
#[verifier::external_body]
pub struct ExJsonError(serde_json::Error);

/// What a JSON value holds. Object entries keep their insertion order.
pub ghost enum JsonView {
    Null,
    Bool(bool),
    Number(Seq<char>),
    Str(Seq<char>),
    Array(Seq<JsonView>),
    Object(Seq<(Seq<char>, JsonView)>),
}

/// The contents of a `serde_json::Value`.
pub uninterp spec fn json_of(value: serde_json::Value) -> JsonView;

/// What `serde_json::from_str` reads from a text, `None` where it fails.
pub uninterp spec fn parsed_json(source: Seq<char>) -> Option<JsonView>;

/// What `serde_json::to_string` writes.
pub uninterp spec fn json_text(value: JsonView) -> Seq<char>;

/// What `serde_json::to_string_pretty` writes.
pub uninterp spec fn json_pretty(value: JsonView) -> Seq<char>;

/// The text of the text block that `serde_json::from_str` reads from a text, `None`
/// where it fails.
pub uninterp spec fn text_block(source: Seq<char>) -> Option<Seq<char>>;

/// The text that `serde_json::from_str` reads from a list of one, `None` where it
/// fails.
pub uninterp spec fn text_list(source: Seq<char>) -> Option<Seq<char>>;

/// The value of the first entry with a key.
pub open spec fn lookup(entries: Seq<(Seq<char>, JsonView)>, key: Seq<char>) -> Option<JsonView>
    decreases entries.len(),
{
    if entries.len() == 0 {
        None
    } else if entries[0].0 == key {
        Some(entries[0].1)
    } else {
        lookup(entries.drop_first(), key)
    }
}

/// Entries with a key set: in place where it is present, else at the end.
pub open spec fn with_entry(
    entries: Seq<(Seq<char>, JsonView)>,
    key: Seq<char>,
    value: JsonView,
) -> Seq<(Seq<char>, JsonView)>
    decreases entries.len(),
{
    if entries.len() == 0 {
        seq![(key, value)]
    } else if entries[0].0 == key {
        seq![(key, value)] + entries.drop_first()
    } else {
        seq![entries[0]] + with_entry(entries.drop_first(), key, value)
    }
}

/// An entry that was set is the one that is found.
pub proof fn lemma_set_entry(
    entries: Seq<(Seq<char>, JsonView)>,
    key: Seq<char>,
    value: JsonView,
)
    ensures
        lookup(with_entry(entries, key, value), key) == Some(value),
    decreases entries.len(),
{
    if entries.len() > 0 && entries[0].0 != key {
        lemma_set_entry(entries.drop_first(), key, value);
        let rest = with_entry(entries.drop_first(), key, value);
        assert((seq![entries[0]] + rest).drop_first() =~= rest);
    }
}

/// Setting an entry leaves the entries with other keys as they are.
pub proof fn lemma_other_entry(
    entries: Seq<(Seq<char>, JsonView)>,
    key: Seq<char>,
    value: JsonView,
    other: Seq<char>,
)
    requires
        other != key,
    ensures
        lookup(with_entry(entries, key, value), other) == lookup(entries, other),
    decreases entries.len(),
{
    if entries.len() == 0 {
        let none = Seq::<(Seq<char>, JsonView)>::empty();
        assert(seq![(key, value)].drop_first() =~= none);
        assert(lookup(none, other) is None);
    } else if entries[0].0 == key {
        let rest = entries.drop_first();
        assert((seq![(key, value)] + rest).drop_first() =~= rest);
    } else {
        lemma_other_entry(entries.drop_first(), key, value, other);
        let rest = with_entry(entries.drop_first(), key, value);
        assert((seq![entries[0]] + rest).drop_first() =~= rest);
    }
}

impl JsonView {
    /// The member of an object with a key.
    pub open spec fn get(self, key: Seq<char>) -> Option<JsonView> {
        match self {
            JsonView::Object(entries) => lookup(entries, key),
            _ => None,
        }
    }

    /// The text of a string.
    pub open spec fn as_str(self) -> Option<Seq<char>> {
        match self {
            JsonView::Str(value) => Some(value),
            _ => None,
        }
    }

    /// The items of an array.
    pub open spec fn as_array(self) -> Option<Seq<JsonView>> {
        match self {
            JsonView::Array(items) => Some(items),
            _ => None,
        }
    }

    /// The text of the string member of an object with a key.
    pub open spec fn str_at(self, key: Seq<char>) -> Option<Seq<char>> {
        match self.get(key) {
            Some(value) => value.as_str(),
            None => None,
        }
    }
}

/// The object that holds one text under one key.
pub open spec fn text_object(key: Seq<char>, value: Seq<char>) -> JsonView {
    JsonView::Object(seq![(key, JsonView::Str(value))])
}

/// The contents of an optional borrowed value.
pub open spec fn opt_json(value: Option<&serde_json::Value>) -> Option<JsonView> {
    match value {
        Some(inner) => Some(json_of(*inner)),
        None => None,
    }
}

/// The contents of a list of values.
pub open spec fn jsons(values: Seq<serde_json::Value>) -> Seq<JsonView> {
    values.map_values(|value: serde_json::Value| json_of(value))
}

/// The contents of a list of object entries.
pub open spec fn entries_of(entries: Seq<(String, serde_json::Value)>) -> Seq<
    (Seq<char>, JsonView),
> {
    entries.map_values(|entry: (String, serde_json::Value)| (entry.0@, json_of(entry.1)))
}

/// `Value::clone`: a value with the same contents.
pub assume_specification[ <serde_json::Value as std::clone::Clone>::clone ](
    source: &serde_json::Value,
) -> (cloned: serde_json::Value)
    ensures
        json_of(cloned) == json_of(*source),
;

/// `serde_json::from_str` into a value. What a text is read as depends on the
/// text alone; of the error nothing is said.
#[verifier::external_body]
pub(crate) fn parse(source: &str) -> (result: Result<Value, serde_json::Error>)
    ensures
        match result {
            Ok(value) => parsed_json(source@) == Some(json_of(value)),
            Err(_) => parsed_json(source@) is None,
        },
{
    serde_json::from_str(source)
}

/// `serde_json::from_str` into a text block of the protocol: an object with one
/// `text` string. Other members are skipped, but `annotations` and `_meta`, which
/// a text block may have, must not be repeated. What is read depends on the text
/// alone; of the error nothing is said.
#[verifier::external_body]
pub(crate) fn parse_text_block(source: &str) -> (result: Result<String, serde_json::Error>)
    ensures
        match result {
            Ok(value) => text_block(source@) == Some(value@),
            Err(_) => text_block(source@) is None,
        },
{
    serde_json::from_str::<TextContent>(source).map(|block| block.text)
}

/// `serde_json::from_str` into a tuple of one string: a list of that string alone.
/// What is read depends on the text alone; of the error nothing is said.
#[verifier::external_body]
pub(crate) fn parse_text_list(source: &str) -> (result: Result<String, serde_json::Error>)
    ensures
        match result {
            Ok(value) => text_list(source@) == Some(value@),
            Err(_) => text_list(source@) is None,
        },
{
    serde_json::from_str::<(String,)>(source).map(|list| list.0)
}

/// `serde_json::to_string` of a value, which never fails for a value. The text
/// depends on the contents alone and is never blank. An object starts with its
/// brace, and one that holds a single text under `text` reads back as a text block
/// with that text.
#[verifier::external_body]
pub(crate) fn write(value: &Value) -> (result: Result<String, serde_json::Error>)
    ensures
        result is Ok,
        result->Ok_0@ == json_text(json_of(*value)),
        !text::is_blank(result->Ok_0@),
        json_of(*value) is Object ==> result->Ok_0@[0] == '{',
        forall|member: Seq<char>|
            json_of(*value) == #[trigger] text_object("text"@, member) ==> text_block(
                result->Ok_0@,
            ) == Some(member),
{
    serde_json::to_string(value)
}

/// `serde_json::to_string_pretty` of a value, which never fails for a value.
#[verifier::external_body]
pub(crate) fn write_pretty(value: &Value) -> (result: Result<String, serde_json::Error>)
    ensures
        result is Ok,
        result->Ok_0@ == json_pretty(json_of(*value)),
{
    serde_json::to_string_pretty(value)
}

/// `Value::get` with a string index: a member of an object, `None` for any
/// other value.
#[verifier::external_body]
pub(crate) fn get<'a>(value: &'a Value, key: &str) -> (member: Option<&'a Value>)
    ensures
        opt_json(member) == json_of(*value).get(key@),
{
    value.get(key)
}

/// `Value::as_str`: the text of a string.
#[verifier::external_body]
pub(crate) fn as_str<'a>(value: &'a Value) -> (member: Option<&'a str>)
    ensures
        text::opt_str(member) == json_of(*value).as_str(),
{
    value.as_str()
}

/// `Value::as_array`: the items of an array.
#[verifier::external_body]
pub(crate) fn as_array<'a>(value: &'a Value) -> (items: Option<&'a Vec<Value>>)
    ensures
        match items {
            Some(list) => json_of(*value) == JsonView::Array(jsons(list@)),
            None => json_of(*value).as_array() is None,
        },
{
    value.as_array()
}

/// `Value::is_null`.
#[verifier::external_body]
pub(crate) fn is_null(value: &Value) -> (result: bool)
    ensures
        result == (json_of(*value) is Null),
{
    value.is_null()
}

/// `Value::as_object`: the entries of an object in their order, `None` for any
/// other value.
#[verifier::external_body]
pub(crate) fn object_entries(value: &Value) -> (entries: Option<Vec<(String, Value)>>)
    ensures
        match entries {
            Some(list) => json_of(*value) == JsonView::Object(entries_of(list@)),
            None => !(json_of(*value) is Object),
        },
{
    value.as_object().map(|map| map.iter().map(|(key, member)| (key.clone(), member.clone())).collect())
}

/// `Map::insert` on the map of an object: a key that is present keeps its place,
/// a new one comes last. Any other value is left as it is.
#[verifier::external_body]
pub(crate) fn insert(value: &mut Value, key: String, member: Value)
    ensures
        json_of(*final(value)) == match json_of(*old(value)) {
            JsonView::Object(entries) => JsonView::Object(
                with_entry(entries, key@, json_of(member)),
            ),
            other => other,
        },
{
    if let Some(map) = value.as_object_mut() {
        map.insert(key, member);
    }
}

/// `Value::Object` of `Map::new`: the object without entries.
#[verifier::external_body]
pub(crate) fn empty_object() -> (value: Value)
    ensures
        json_of(value) == JsonView::Object(Seq::empty()),
{
    Value::Object(serde_json::Map::new())
}

/// `Value::String`: a string with a text.
#[verifier::external_body]
pub(crate) fn string(value: String) -> (result: Value)
    ensures
        json_of(result) == JsonView::Str(value@),
{
    Value::String(value)
}

/// The string member of an object with a key.
pub fn str_member<'a>(value: &'a Value, key: &str) -> (member: Option<&'a str>)
    ensures
        text::opt_str(member) == json_of(*value).str_at(key@),
{
    match get(value, key) {
        Some(inner) => as_str(inner),
        None => None,
    }
}

/// The object that holds one text under one key.
pub fn text_object_value(key: &str, member: &str) -> (value: Value)
    ensures
        json_of(value) == text_object(key@, member@),
{
    let mut value = empty_object();
    insert(&mut value, text::copy(key), string(text::copy(member)));
    value
}

/// `Value::Bool`: a truth value.
#[verifier::external_body]
pub(crate) fn boolean(value: bool) -> (result: Value)
    ensures
        json_of(result) == JsonView::Bool(value),
{
    Value::Bool(value)
}

/// `Value::from` on an unsigned integer: a number, written in decimal.
#[verifier::external_body]
pub(crate) fn number(value: u64) -> (result: Value)
    ensures
        json_of(result) == JsonView::Number(numbers::decimal(value as nat)),
{
    Value::from(value)
}

/// `Value::Array`: values in their order.
#[verifier::external_body]
pub(crate) fn array(values: Vec<Value>) -> (result: Value)
    ensures
        json_of(result) == JsonView::Array(jsons(values@)),
{
    Value::Array(values)
}

/// Members set one after the other, starting from an empty object.
pub open spec fn members(entries: Seq<(Seq<char>, JsonView)>) -> Seq<(Seq<char>, JsonView)>
    decreases entries.len(),
{
    if entries.len() == 0 {
        Seq::empty()
    } else {
        with_entry(members(entries.drop_last()), entries.last().0, entries.last().1)
    }
}

/// The content of members under their keys.
pub open spec fn member_views(entries: Seq<(&'static str, Value)>) -> Seq<(Seq<char>, JsonView)> {
    entries.map_values(|entry: (&'static str, Value)| (entry.0@, json_of(entry.1)))
}

/// Makes an object of its members.
pub fn object(entries: Vec<(&'static str, Value)>) -> (value: Value)
    ensures
        json_of(value) == JsonView::Object(members(member_views(entries@))),
{
    let ghost all = member_views(entries@);
    let mut value = empty_object();
    let mut i: usize = 0;
    assert(all.take(0) =~= Seq::empty());
    while i < entries.len()
        invariant
            i <= entries@.len(),
            all == member_views(entries@),
            json_of(value) == JsonView::Object(members(all.take(i as int))),
        decreases entries@.len() - i,
    {
        let member = entries[i].1.clone();
        assert(all.take(i + 1).drop_last() =~= all.take(i as int));
        assert(all.take(i + 1).last() == (entries@[i as int].0@, json_of(member)));
        insert(&mut value, text::copy(entries[i].0), member);
        i += 1;
    }
    assert(all.take(i as int) =~= all);
    value
}

/// The strings with texts.
pub open spec fn strings(values: Seq<Seq<char>>) -> Seq<JsonView> {
    values.map_values(|value: Seq<char>| JsonView::Str(value))
}

/// Makes an array of strings.
pub fn string_array(values: &Vec<String>) -> (value: Value)
    ensures
        json_of(value) == JsonView::Array(strings(text::texts(values@))),
{
    let mut items: Vec<Value> = Vec::new();
    let mut i: usize = 0;
    while i < values.len()
        invariant
            i <= values@.len(),
            items@.len() == i,
            forall|j: int| 0 <= j < i ==> json_of(#[trigger] items@[j]) == JsonView::Str(values@[j]@),
        decreases values@.len() - i,
    {
        items.push(string(text::copy(values[i].as_str())));
        i += 1;
    }
    assert(jsons(items@) =~= strings(text::texts(values@)));
    array(items)
}

} // verus!
