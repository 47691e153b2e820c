//! Reading the members of a document, and writing them.

use crate::json::{views, Json, JsonNumber, JsonView};
use crate::model::text_view;
use crate::persistence::{entry_views, lemma_object_view};
use vstd::prelude::*;
use vstd::string::*;

verus! {

/// What an optional document holds.
pub open spec fn found(value: Option<&Json>) -> Option<JsonView> {
    match value {
        Some(json) => Some(json@),
        None => None,
    }
}

/// A member that has to be a whole number that is not negative.
pub open spec fn whole(value: Option<JsonView>) -> Option<u64> {
    match value {
        Some(member) => member.unsigned(),
        None => None,
    }
}

/// A member that has to be such a number and fit `limit`.
pub open spec fn whole_within(value: Option<JsonView>, limit: u64) -> Option<u64> {
    match whole(value) {
        Some(n) => if n <= limit { Some(n) } else { None },
        None => None,
    }
}

/// A member that may be missing or null, and otherwise has to be such a number and fit `limit`.
pub open spec fn optional_whole(value: Option<JsonView>, limit: u64) -> Option<Option<u64>> {
    match value {
        None => Some(None),
        Some(JsonView::Null) => Some(None),
        Some(member) => match whole_within(Some(member), limit) {
            Some(n) => Some(Some(n)),
            None => None,
        },
    }
}

/// A member that has to be a whole number.
pub open spec fn integer(value: Option<JsonView>) -> Option<i64> {
    match value {
        Some(member) => member.signed(),
        None => None,
    }
}

/// A member that may be missing or null, and otherwise has to be a whole number.
pub open spec fn optional_integer(value: Option<JsonView>) -> Option<Option<i64>> {
    match value {
        None => Some(None),
        Some(JsonView::Null) => Some(None),
        Some(member) => match member.signed() {
            Some(n) => Some(Some(n)),
            None => None,
        },
    }
}

/// A member that has to be a truth value.
pub open spec fn truth(value: Option<JsonView>) -> Option<bool> {
    match value {
        Some(JsonView::Bool(b)) => Some(b),
        _ => None,
    }
}

/// A member that has to be a text.
pub open spec fn text_value(value: Option<JsonView>) -> Option<Seq<char>> {
    match value {
        Some(member) => member.text(),
        None => None,
    }
}

/// A member that has to name one of several variants: a text, or an object that holds null under
/// the name and nothing else.
pub open spec fn variant_name(value: Option<JsonView>) -> Option<Seq<char>> {
    match value {
        Some(JsonView::Text(name)) => Some(name),
        Some(JsonView::Object(entries)) => if entries.len() == 1 && entries[0].1 is Null {
            Some(entries[0].0)
        } else {
            None
        },
        _ => None,
    }
}

/// A member that may be missing or null, and otherwise has to be a text.
pub open spec fn optional_text(value: Option<JsonView>) -> Option<Option<Seq<char>>> {
    match value {
        None => Some(None),
        Some(JsonView::Null) => Some(None),
        Some(member) => match member.text() {
            Some(s) => Some(Some(s)),
            None => None,
        },
    }
}

/// A member that may be missing or null.
pub open spec fn optional(value: Option<JsonView>) -> Option<JsonView> {
    match value {
        Some(JsonView::Null) => None,
        other => other,
    }
}

/// The items, each read; nothing where one of them cannot be.
pub open spec fn all_read<T>(items: Seq<JsonView>, read: spec_fn(JsonView) -> Option<T>) -> Option<
    Seq<T>,
> {
    if forall|i: int| 0 <= i < items.len() ==> read(#[trigger] items[i]) is Some {
        Some(items.map_values(|item: JsonView| read(item)->0))
    } else {
        None
    }
}

/// A member that has to be an array of what is read so.
pub open spec fn list<T>(value: Option<JsonView>, read: spec_fn(JsonView) -> Option<T>) -> Option<
    Seq<T>,
> {
    match value {
        Some(JsonView::Array(items)) => all_read(items, read),
        _ => None,
    }
}

/// A member that may be missing, and otherwise has to be an array of what is read so.
pub open spec fn optional_list<T>(value: Option<JsonView>, read: spec_fn(JsonView) -> Option<T>) -> Option<
    Seq<T>,
> {
    match value {
        None => Some(seq![]),
        Some(_) => list(value, read),
    }
}

/// What is written is read back, item by item.
pub proof fn lemma_list_read_back<T>(
    items: Seq<T>,
    write: spec_fn(T) -> JsonView,
    read: spec_fn(JsonView) -> Option<T>,
)
    requires
        forall|i: int| 0 <= i < items.len() ==> read(write(#[trigger] items[i])) == Some(items[i]),
    ensures
        list(Some(JsonView::Array(items.map_values(write))), read) == Some(items),
{
    let written = items.map_values(write);
    assert forall|i: int| 0 <= i < written.len() implies read(#[trigger] written[i]) is Some by {
        assert(written[i] == write(items[i]));
    }
    assert(written.map_values(|item: JsonView| read(item)->0) =~= items);
}

/// A number that is not negative.
pub open spec fn unsigned_document(n: u64) -> JsonView {
    JsonView::Unsigned(n)
}

/// A number.
pub open spec fn signed_document(n: i64) -> JsonView {
    if n >= 0 {
        JsonView::Unsigned(n as u64)
    } else {
        JsonView::Negative(n)
    }
}

/// A number, or null.
pub open spec fn optional_unsigned_document(n: Option<u64>) -> JsonView {
    match n {
        Some(n) => JsonView::Unsigned(n),
        None => JsonView::Null,
    }
}

/// A number, or null.
pub open spec fn optional_signed_document(n: Option<i64>) -> JsonView {
    match n {
        Some(n) => signed_document(n),
        None => JsonView::Null,
    }
}

/// A text, or null.
pub open spec fn optional_text_document(s: Option<Seq<char>>) -> JsonView {
    match s {
        Some(s) => JsonView::Text(s),
        None => JsonView::Null,
    }
}

/// Reads a number that is not negative and fits `limit`.
pub fn read_whole(value: Option<&Json>, limit: u64) -> (r: Option<u64>)
    ensures
        r == whole_within(found(value), limit),
{
    match value {
        Some(json) => match json.as_u64() {
            Some(n) => if n <= limit {
                Some(n)
            } else {
                None
            },
            None => None,
        },
        None => None,
    }
}

/// Reads an optional number that is not negative and fits `limit`.
pub fn read_optional_whole(value: Option<&Json>, limit: u64) -> (r: Option<Option<u64>>)
    ensures
        r == optional_whole(found(value), limit),
{
    match value {
        None => Some(None),
        Some(Json::Null) => Some(None),
        Some(json) => match read_whole(Some(json), limit) {
            Some(n) => Some(Some(n)),
            None => None,
        },
    }
}

/// Reads a number.
pub fn read_integer(value: Option<&Json>) -> (r: Option<i64>)
    ensures
        r == integer(found(value)),
{
    match value {
        Some(json) => json.as_i64(),
        None => None,
    }
}

/// Reads an optional number.
pub fn read_optional_integer(value: Option<&Json>) -> (r: Option<Option<i64>>)
    ensures
        r == optional_integer(found(value)),
{
    match value {
        None => Some(None),
        Some(Json::Null) => Some(None),
        Some(json) => match json.as_i64() {
            Some(n) => Some(Some(n)),
            None => None,
        },
    }
}

/// Reads a truth value.
pub fn read_truth(value: Option<&Json>) -> (r: Option<bool>)
    ensures
        r == truth(found(value)),
{
    match value {
        Some(Json::Bool(b)) => Some(*b),
        _ => None,
    }
}

/// Reads a text.
pub fn read_text(value: Option<&Json>) -> (r: Option<String>)
    ensures
        text_view(r) == text_value(found(value)),
{
    match value {
        Some(Json::Text(s)) => Some(s.clone()),
        _ => None,
    }
}

/// Reads the name of one of several variants.
pub fn read_variant_name(value: Option<&Json>) -> (r: Option<String>)
    ensures
        text_view(r) == variant_name(found(value)),
{
    match value {
        Some(Json::Text(name)) => Some(name.clone()),
        Some(Json::Object(entries)) => {
            proof {
                lemma_object_view(*entries);
            }
            if entries.len() == 1 && entries[0].1.is_null() {
                assert(entry_views(entries@)[0] == (entries@[0].0@, entries@[0].1@));
                Some(entries[0].0.clone())
            } else {
                assert(entries@.len() == 1 ==> entry_views(entries@)[0] == (
                    entries@[0].0@,
                    entries@[0].1@,
                ));
                None
            }
        },
        _ => None,
    }
}

/// Reads an optional text.
pub fn read_optional_text(value: Option<&Json>) -> (r: Option<Option<String>>)
    ensures
        match r {
            Some(read) => optional_text(found(value)) == Some(text_view(read)),
            None => optional_text(found(value)) is None,
        },
{
    match value {
        None => Some(None),
        Some(Json::Null) => Some(None),
        Some(Json::Text(s)) => Some(Some(s.clone())),
        Some(_) => None,
    }
}

/// A number as a document.
pub fn write_unsigned(n: u64) -> (r: Json)
    ensures
        r@ == unsigned_document(n),
{
    Json::Number(JsonNumber::Unsigned(n))
}

/// A number as a document.
pub fn write_signed(n: i64) -> (r: Json)
    ensures
        r@ == signed_document(n),
{
    if n >= 0 {
        Json::Number(JsonNumber::Unsigned(n as u64))
    } else {
        Json::Number(JsonNumber::Negative(n))
    }
}

/// A number or null as a document.
pub fn write_optional_unsigned(n: Option<u64>) -> (r: Json)
    ensures
        r@ == optional_unsigned_document(n),
{
    match n {
        Some(n) => write_unsigned(n),
        None => Json::Null,
    }
}

/// A number or null as a document.
pub fn write_optional_signed(n: Option<i64>) -> (r: Json)
    ensures
        r@ == optional_signed_document(n),
{
    match n {
        Some(n) => write_signed(n),
        None => Json::Null,
    }
}

/// A text or null as a document.
pub fn write_optional_text(s: &Option<String>) -> (r: Json)
    ensures
        r@ == optional_text_document(text_view(*s)),
{
    match s {
        Some(s) => Json::Text(s.clone()),
        None => Json::Null,
    }
}

/// A member with a name.
pub fn member(name: &str, value: Json) -> (r: (String, Json))
    ensures
        (r.0@, r.1@) == (name@, value@),
{
    (name.to_owned(), value)
}

/// The array of some documents.
pub fn write_array(items: Vec<Json>) -> (r: Json)
    ensures
        r@ == JsonView::Array(views(items@)),
{
    let r = Json::Array(items);
    assert(r@->Array_0 =~= views(items@));
    r
}

} // verus!
