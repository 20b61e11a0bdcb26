//! JSON values, read and written by `serde_json`.

use vstd::prelude::*;

use crate::text;

verus! {

/// What a JSON value is.
pub enum JsonTree {
    Null,
    Bool(bool),
    /// A number, by its text.
    Number(Seq<char>),
    Text(Seq<char>),
    List(Seq<JsonTree>),
    Table(Map<Seq<char>, JsonTree>),
}

/// `serde_json`'s type of JSON values.
#[verifier::external_type_specification]
#[verifier::external_body]
pub struct ExValue(serde_json::Value);

/// What a value of `serde_json` holds.
pub uninterp spec fn json_tree(value: serde_json::Value) -> JsonTree;

/// The value that `serde_json::from_slice` reads out of bytes; nothing where they
/// are no JSON document.
pub uninterp spec fn json_document(content: Seq<u8>) -> Option<JsonTree>;

/// The value that `serde_json::from_str` reads out of a text, or its complaint.
pub uninterp spec fn json_reading(document: Seq<char>) -> Result<JsonTree, Seq<char>>;

/// The compact text that `serde_json` writes for a value; the members of a table
/// come in the order of their keys.
pub uninterp spec fn json_text(tree: JsonTree) -> Seq<char>;

/// Calls `serde_json::from_slice`. Whether it succeeds, and what it gives, depends
/// on the bytes alone; both are named, not said.
#[verifier::external_body]
pub(crate) fn parse_bytes(content: &[u8]) -> (value: Option<serde_json::Value>)
    ensures
        match value {
            Some(value) => json_document(content@) == Some(json_tree(value)),
            None => json_document(content@) is None,
        },
{
    serde_json::from_slice(content).ok()
}

/// Calls `serde_json::from_str`, with the error as its message. Whether it
/// succeeds, and what it gives, depends on the text alone; both are named, not
/// said.
#[verifier::external_body]
pub(crate) fn parse_text(document: &str) -> (value: Result<serde_json::Value, String>)
    ensures
        match value {
            Ok(value) => json_reading(document@) == read_as(json_tree(value)),
            Err(complaint) => json_reading(document@) == Err::<JsonTree, Seq<char>>(complaint@),
        },
{
    serde_json::from_str(document).map_err(|error| error.to_string())
}

/// `serde_json::Value::as_array` gives the items of a list, and nothing for any
/// other value.
pub assume_specification[ serde_json::Value::as_array ](value: &serde_json::Value) -> (items: Option<
    &Vec<serde_json::Value>,
>)
    ensures
        match items {
            Some(items) => json_tree(*value) == JsonTree::List(
                items@.map_values(|item: serde_json::Value| json_tree(item)),
            ),
            None => !(json_tree(*value) is List),
        },
;

/// `serde_json::Value::as_str` gives the contents of a text, and nothing for any
/// other value.
pub assume_specification[ serde_json::Value::as_str ](value: &serde_json::Value) -> (contents: Option<
    &str,
>)
    ensures
        match contents {
            Some(contents) => json_tree(*value) == JsonTree::Text(contents@),
            None => !(json_tree(*value) is Text),
        },
;

/// The member of a table under a key, where there is one.
pub open spec fn table_entry(tree: JsonTree, key: Seq<char>) -> Option<JsonTree> {
    match tree {
        JsonTree::Table(members) if members.contains_key(key) => Some(members[key]),
        _ => None,
    }
}

/// Calls `serde_json::Value::get` with a text as the key: the member of a table
/// under that key, and nothing where there is none or the value is no table.
#[verifier::external_body]
pub(crate) fn get_member<'a>(value: &'a serde_json::Value, key: &str) -> (member: Option<
    &'a serde_json::Value,
>)
    ensures
        match member {
            Some(member) => table_entry(json_tree(*value), key@) == Some(json_tree(*member)),
            None => table_entry(json_tree(*value), key@) is None,
        },
{
    value.get(key)
}

/// Calls the index operator of `serde_json::Value` with a text as the key: the
/// member of a table under that key, and `null` where there is none or the value
/// is no table.
#[verifier::external_body]
pub(crate) fn member_or_null<'a>(value: &'a serde_json::Value, key: &str) -> (member:
    &'a serde_json::Value)
    ensures
        json_tree(*member) == (match table_entry(json_tree(*value), key@) {
            Some(found) => found,
            None => JsonTree::Null,
        }),
{
    &value[key]
}

/// What one token of a pointer leads to: a member of a table, or the item of a
/// list whose index the token is in decimal.
pub open spec fn pointer_step(tree: JsonTree, token: Seq<char>) -> Option<JsonTree> {
    match tree {
        JsonTree::Table(_) => table_entry(tree, token),
        JsonTree::List(items) => {
            let index = text::numeral_value(token);
            if token == text::decimal(index) && index < items.len() {
                Some(items[index as int])
            } else {
                None
            }
        },
        _ => None,
    }
}

/// What the tokens of a pointer lead to, one after another.
pub open spec fn pointed(tree: JsonTree, tokens: Seq<Seq<char>>) -> Option<JsonTree>
    decreases tokens.len(),
{
    if tokens.len() == 0 {
        Some(tree)
    } else {
        match pointed(tree, tokens.drop_last()) {
            Some(found) => pointer_step(found, tokens.last()),
            None => None,
        }
    }
}

/// Calls `serde_json::Value::pointer` with a pointer that starts with a slash and
/// needs no unescaping: the value that its tokens lead to.
#[verifier::external_body]
pub(crate) fn follow_pointer<'a>(value: &'a serde_json::Value, pointer: &str) -> (found: Option<
    &'a serde_json::Value,
>)
    requires
        pointer@.len() > 0,
        pointer@[0] == '/',
        !pointer@.contains('~'),
    ensures
        match found {
            Some(found) => pointed(
                json_tree(*value),
                text::split_on(pointer@, '/').skip(1),
            ) == Some(json_tree(*found)),
            None => pointed(json_tree(*value), text::split_on(pointer@, '/').skip(1)) is None,
        },
{
    value.pointer(pointer)
}

/// The table of texts that some entries make.
pub open spec fn text_table(entries: Seq<(Seq<char>, Seq<char>)>) -> Map<Seq<char>, JsonTree>
    decreases entries.len(),
{
    if entries.len() == 0 {
        Map::empty()
    } else {
        text_table(entries.drop_last()).insert(entries.last().0, JsonTree::Text(entries.last().1))
    }
}

/// Collects entries into a `serde_json::Map` and makes a `serde_json::Value` of
/// it: the table of the entries, with their values as texts. No two entries may
/// have the same key.
#[verifier::external_body]
pub(crate) fn table_of_texts(entries: Vec<(String, String)>) -> (value: serde_json::Value)
    requires
        forall|i: int, j: int|
            0 <= i < j < entries@.len() ==> (#[trigger] entries@[i]).0@ != (
            #[trigger] entries@[j]).0@,
    ensures
        json_tree(value) == JsonTree::Table(
            text_table(
                entries@.map_values(|entry: (String, String)| (entry.0@, entry.1@)),
            ),
        ),
{
    let members = entries.into_iter().map(|(key, contents)| (key, serde_json::Value::from(contents)));
    serde_json::Value::Object(members.collect())
}

/// The outcome of reading that gives a value.
pub open spec fn read_as(tree: JsonTree) -> Result<JsonTree, Seq<char>> {
    Ok(tree)
}

/// A table whose members are texts, with no key that `serde_json` keeps for
/// itself.
pub open spec fn is_text_table(tree: JsonTree) -> bool {
    tree matches JsonTree::Table(members) && forall|key: Seq<char>| #[trigger]
        members.contains_key(key) ==> members[key] is Text && !text::starts_with(
            key,
            "$serde_json::private::"@,
        )
}

/// Writes a value as text, as `serde_json::Value` displays itself. The text
/// depends on the value alone; it is named, not said. A table of texts is read
/// back from its text; keys that `serde_json` keeps for itself are left out of
/// that, because it may read them as something else.
#[verifier::external_body]
pub(crate) fn write_value(value: &serde_json::Value) -> (written: String)
    ensures
        written@ == json_text(json_tree(*value)),
        is_text_table(json_tree(*value)) ==> json_reading(written@) == read_as(json_tree(*value)),
{
    value.to_string()
}

/// A member is found under its key in a table that holds it, and nowhere else; and a
/// table of texts holds what was put in last under each key.
pub proof fn law_members_of_tables(
    members: Map<Seq<char>, JsonTree>,
    items: Seq<JsonTree>,
    contents: Seq<char>,
    entries: Seq<(Seq<char>, Seq<char>)>,
    key: Seq<char>,
    other: Seq<char>,
)
    ensures
        members.contains_key(key) ==> table_entry(JsonTree::Table(members), key) == Some(
            members[key],
        ),
        !members.contains_key(key) ==> table_entry(JsonTree::Table(members), key) is None,
        table_entry(JsonTree::List(items), key) is None,
        table_entry(JsonTree::Text(contents), key) is None,
        table_entry(JsonTree::Null, key) is None,
        table_entry(JsonTree::Table(text_table(entries.push((key, contents)))), key) == Some(
            JsonTree::Text(contents),
        ),
        other != key ==> table_entry(
            JsonTree::Table(text_table(entries.push((key, contents)))),
            other,
        ) == table_entry(JsonTree::Table(text_table(entries)), other),
{
    assert(entries.push((key, contents)).drop_last() =~= entries);
}

} // verus!
