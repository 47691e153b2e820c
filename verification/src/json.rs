//! JSON documents as plain values, and the text they are read from.

use crate::json_order::{document_in, in_order};
use crate::text::same_text;
use vstd::prelude::*;
use vstd::string::*;

verus! {

/// A JSON number: a whole one that fits 64 bits, or the text of any other.
#[derive(Debug, PartialEq, Eq)]
pub enum JsonNumber {
    Unsigned(u64),
    Negative(i64),
    Decimal(String),
}

/// A JSON document.
#[derive(Debug, PartialEq, Eq)]
pub enum Json {
    Null,
    Bool(bool),
    Number(JsonNumber),
    Text(String),
    Array(Vec<Json>),
    Object(Vec<(String, Json)>),
}

/// What a JSON document holds.
#[verifier::ext_equal]
pub enum JsonView {
    Null,
    Bool(bool),
    Unsigned(u64),
    Negative(i64),
    Decimal(Seq<char>),
    Text(Seq<char>),
    Array(Seq<JsonView>),
    Object(Seq<(Seq<char>, JsonView)>),
}

/// The value of the first of `entries` under `key`.
pub open spec fn first_under(entries: Seq<(Seq<char>, JsonView)>, key: Seq<char>) -> Option<JsonView>
    decreases entries.len(),
{
    if entries.len() == 0 {
        None
    } else if entries[0].0 == key {
        Some(entries[0].1)
    } else {
        first_under(entries.drop_first(), key)
    }
}

impl JsonView {
    /// The member of an object under `key`.
    pub open spec fn get(self, key: Seq<char>) -> Option<JsonView> {
        match self {
            JsonView::Object(entries) => first_under(entries, key),
            _ => None,
        }
    }

    /// A field of a record: the member of an object under its name, or the item of an array at
    /// its place.
    pub open spec fn field(self, name: Seq<char>, place: int) -> Option<JsonView> {
        match self {
            JsonView::Array(items) => if 0 <= place < items.len() {
                Some(items[place])
            } else {
                None
            },
            _ => self.get(name),
        }
    }

    /// Whether this can be a record of so many fields: an object, or an array with an item for
    /// each of them, of which those beyond the first `needed` may be missing at the end.
    pub open spec fn is_record(self, needed: nat, fields: nat) -> bool {
        match self {
            JsonView::Array(items) => needed <= items.len() <= fields,
            JsonView::Object(_) => true,
            _ => false,
        }
    }

    pub open spec fn text(self) -> Option<Seq<char>> {
        match self {
            JsonView::Text(s) => Some(s),
            _ => None,
        }
    }

    pub open spec fn items(self) -> Option<Seq<JsonView>> {
        match self {
            JsonView::Array(items) => Some(items),
            _ => None,
        }
    }

    /// The number as a signed one, where it is whole and fits.
    pub open spec fn signed(self) -> Option<i64> {
        match self {
            JsonView::Unsigned(n) => if n <= i64::MAX { Some(n as i64) } else { None },
            JsonView::Negative(n) => Some(n),
            _ => None,
        }
    }

    pub open spec fn unsigned(self) -> Option<u64> {
        match self {
            JsonView::Unsigned(n) => Some(n),
            _ => None,
        }
    }
}

/// A member of an object is smaller than the object.
pub proof fn lemma_member_is_smaller(value: JsonView, key: Seq<char>)
    ensures
        value.get(key) matches Some(member) ==> decreases_to!(value => member),
{
    if let JsonView::Object(entries) = value {
        lemma_first_under(entries, key);
        if let Some(member) = value.get(key) {
            let i = choose|i: int| 0 <= i < entries.len() && (#[trigger] entries[i]).1 == member;
            assert(decreases_to!(value => entries));
            assert(decreases_to!(entries => entries[i]));
            assert(decreases_to!(entries[i] => entries[i].1));
        }
    }
}

proof fn lemma_first_under(entries: Seq<(Seq<char>, JsonView)>, key: Seq<char>)
    ensures
        first_under(entries, key) matches Some(member) ==> exists|i: int|
            0 <= i < entries.len() && (#[trigger] entries[i]).1 == member,
    decreases entries.len(),
{
    if entries.len() > 0 {
        if entries[0].0 == key {
            assert(entries[0].1 == entries[0].1);
        } else {
            lemma_first_under(entries.drop_first(), key);
            if let Some(member) = first_under(entries, key) {
                let rest = entries.drop_first();
                let i = choose|i: int| 0 <= i < rest.len() && (#[trigger] rest[i]).1 == member;
                assert(entries[i + 1].1 == member);
            }
        }
    }
}

impl View for Json {
    type V = JsonView;

    open spec fn view(&self) -> JsonView {
        json_view(*self)
    }
}

pub open spec fn json_view(json: Json) -> JsonView
    decreases json,
{
    match json {
        Json::Null => JsonView::Null,
        Json::Bool(b) => JsonView::Bool(b),
        Json::Number(JsonNumber::Unsigned(n)) => JsonView::Unsigned(n),
        Json::Number(JsonNumber::Negative(n)) => JsonView::Negative(n),
        Json::Number(JsonNumber::Decimal(s)) => JsonView::Decimal(s@),
        Json::Text(s) => JsonView::Text(s@),
        Json::Array(items) => JsonView::Array(
            Seq::new(
                items@.len(),
                |i: int| if 0 <= i < items@.len() { json_view(items@[i]) } else { JsonView::Null },
            ),
        ),
        Json::Object(entries) => JsonView::Object(
            Seq::new(
                entries@.len(),
                |i: int|
                    if 0 <= i < entries@.len() {
                        (entries@[i].0@, json_view(entries@[i].1))
                    } else {
                        (Seq::empty(), JsonView::Null)
                    },
            ),
        ),
    }
}

impl Json {
    /// The member of an object under `key`.
    pub fn get(&self, key: &str) -> (r: Option<&Json>)
        ensures
            match r {
                Some(value) => self@.get(key@) == Some(value@),
                None => self@.get(key@) is None,
            },
    {
        match self {
            Json::Object(entries) => {
                let ghost all = self@->Object_0;
                let mut i: usize = 0;
                assert(all.skip(0) =~= all);
                while i < entries.len()
                    invariant
                        i <= entries@.len(),
                        self@ == JsonView::Object(all),
                        *self == Json::Object(*entries),
                        all.len() == entries@.len(),
                        forall|k: int|
                            0 <= k < all.len() ==> #[trigger] all[k] == (
                                entries@[k].0@,
                                entries@[k].1@,
                            ),
                        first_under(all, key@) == first_under(all.skip(i as int), key@),
                    decreases entries@.len() - i,
                {
                    assert(all.skip(i as int)[0] == all[i as int]);
                    assert(all.skip(i as int).drop_first() =~= all.skip(i + 1));
                    if same_text(entries[i].0.as_str(), key) {
                        return Some(&entries[i].1);
                    }
                    i += 1;
                }
                None
            },
            _ => None,
        }
    }

    /// A field of a record: the member of an object under its name, or the item of an array at
    /// its place.
    pub fn field(&self, name: &str, place: usize) -> (r: Option<&Json>)
        ensures
            match r {
                Some(value) => self@.field(name@, place as int) == Some(value@),
                None => self@.field(name@, place as int) is None,
            },
    {
        match self {
            Json::Array(items) => {
                assert(self@->Array_0 =~= views(items@));
                if place < items.len() {
                    Some(&items[place])
                } else {
                    None
                }
            },
            _ => self.get(name),
        }
    }

    /// Whether this can be a record of so many fields, of which the first `needed` cannot be
    /// missing.
    pub fn is_record(&self, needed: usize, fields: usize) -> (r: bool)
        ensures
            r == self@.is_record(needed as nat, fields as nat),
    {
        match self {
            Json::Array(items) => {
                assert(self@->Array_0 =~= views(items@));
                needed <= items.len() && items.len() <= fields
            },
            Json::Object(_) => true,
            _ => false,
        }
    }

    /// The text, where this is one.
    pub fn as_str(&self) -> (r: Option<&str>)
        ensures
            match r {
                Some(s) => self@.text() == Some(s@),
                None => self@.text() is None,
            },
    {
        match self {
            Json::Text(s) => Some(s.as_str()),
            _ => None,
        }
    }

    /// The items, where this is an array.
    pub fn as_array(&self) -> (r: Option<&Vec<Json>>)
        ensures
            match r {
                Some(items) => self@.items() == Some(views(items@)),
                None => self@.items() is None,
            },
    {
        match self {
            Json::Array(items) => {
                assert(self@->Array_0 =~= views(items@));
                Some(items)
            },
            _ => None,
        }
    }

    /// The number, where it is whole and fits a signed integer.
    pub fn as_i64(&self) -> (r: Option<i64>)
        ensures
            r == self@.signed(),
    {
        match self {
            Json::Number(JsonNumber::Unsigned(n)) => {
                if *n <= 0x7fff_ffff_ffff_ffff {
                    Some(*n as i64)
                } else {
                    None
                }
            },
            Json::Number(JsonNumber::Negative(n)) => Some(*n),
            _ => None,
        }
    }

    /// The number, where it is whole and not negative.
    pub fn as_u64(&self) -> (r: Option<u64>)
        ensures
            r == self@.unsigned(),
    {
        match self {
            Json::Number(JsonNumber::Unsigned(n)) => Some(*n),
            _ => None,
        }
    }

    /// Whether this is the null document.
    pub fn is_null(&self) -> (r: bool)
        ensures
            r == (self@ is Null),
    {
        match self {
            Json::Null => true,
            _ => false,
        }
    }
}

/// What each of `items` holds.
pub open spec fn views(items: Seq<Json>) -> Seq<JsonView> {
    items.map_values(|item: Json| item@)
}

impl Clone for Json {
    fn clone(&self) -> (r: Json)
        ensures
            r@ == self@,
        decreases self@,
    {
        match self {
            Json::Null => Json::Null,
            Json::Bool(b) => Json::Bool(*b),
            Json::Number(JsonNumber::Unsigned(n)) => Json::Number(JsonNumber::Unsigned(*n)),
            Json::Number(JsonNumber::Negative(n)) => Json::Number(JsonNumber::Negative(*n)),
            Json::Number(JsonNumber::Decimal(s)) => Json::Number(JsonNumber::Decimal(s.clone())),
            Json::Text(s) => Json::Text(s.clone()),
            Json::Array(items) => {
                let mut out: Vec<Json> = Vec::new();
                let mut i: usize = 0;
                while i < items.len()
                    invariant
                        *self == Json::Array(*items),
                        i <= items@.len(),
                        out@.len() == i,
                        forall|k: int| 0 <= k < i ==> (#[trigger] out@[k])@ == items@[k]@,
                    decreases items@.len() - i,
                {
                    assert(self@->Array_0[i as int] == items@[i as int]@);
                    assert(decreases_to!(self@ => items@[i as int]@));
                    out.push(items[i].clone());
                    i += 1;
                }
                assert(json_view(Json::Array(out))->Array_0 =~= self@->Array_0);
                Json::Array(out)
            },
            Json::Object(entries) => {
                let mut out: Vec<(String, Json)> = Vec::new();
                let mut i: usize = 0;
                while i < entries.len()
                    invariant
                        *self == Json::Object(*entries),
                        i <= entries@.len(),
                        out@.len() == i,
                        forall|k: int|
                            0 <= k < i ==> (#[trigger] out@[k]).0 == entries@[k].0 && out@[k].1@
                                == entries@[k].1@,
                    decreases entries@.len() - i,
                {
                    assert(self@->Object_0[i as int].1 == entries@[i as int].1@);
                    assert(decreases_to!(self@ => entries@[i as int].1@));
                    out.push((entries[i].0.clone(), entries[i].1.clone()));
                    i += 1;
                }
                assert(json_view(Json::Object(out))->Object_0 =~= self@->Object_0);
                Json::Object(out)
            },
        }
    }
}

/// `serde_json::Value`, opaque here.
#[verifier::external_type_specification]
#[verifier::external_body]
pub struct ExValue(serde_json::Value);

/// What a `serde_json::Value` holds: its tree of members, objects in the order in which the
/// map hands them out, which is the one in which they were put in.
pub uninterp spec fn value_content(value: serde_json::Value) -> JsonView;

/// What `serde_json::from_str` makes of a text: the document in it, or the message that says
/// why there is none.
pub uninterp spec fn json_in(text: Seq<char>) -> Result<JsonView, Seq<char>>;

/// One level of a `serde_json::Value`.
enum Layer {
    Leaf(Json),
    Array(Vec<serde_json::Value>),
    Object(Vec<(String, serde_json::Value)>),
}

/// `serde_json::from_str`: the outcome is a function of the text alone.
#[verifier::external_body]
fn read_value(text: &str) -> (r: Result<serde_json::Value, String>)
    ensures
        match r {
            Ok(value) => json_in(text@) == Ok::<JsonView, Seq<char>>(value_content(value)),
            Err(message) => json_in(text@) == Err::<JsonView, Seq<char>>(message@),
        },
{
    serde_json::from_str(text).map_err(|error| error.to_string())
}

/// The variant of a `serde_json::Value` with its fields, nested values left as they are.
#[verifier::external_body]
fn open_value(value: serde_json::Value) -> (layer: Layer)
    ensures
        match layer {
            Layer::Leaf(json) => value_content(value) == json@ && !(json is Array) && !(
            json is Object),
            Layer::Array(items) => value_content(value) == JsonView::Array(
                items@.map_values(|item: serde_json::Value| value_content(item)),
            ),
            Layer::Object(entries) => value_content(value) == JsonView::Object(
                entries@.map_values(
                    |entry: (String, serde_json::Value)| (entry.0@, value_content(entry.1)),
                ),
            ),
        },
{
    match value {
        serde_json::Value::Null => Layer::Leaf(Json::Null),
        serde_json::Value::Bool(b) => Layer::Leaf(Json::Bool(b)),
        serde_json::Value::Number(n) => Layer::Leaf(Json::Number(match (n.as_u64(), n.as_i64()) {
            (Some(whole), _) => JsonNumber::Unsigned(whole),
            (None, Some(negative)) => JsonNumber::Negative(negative),
            (None, None) => JsonNumber::Decimal(n.to_string()),
        })),
        serde_json::Value::String(s) => Layer::Leaf(Json::Text(s)),
        serde_json::Value::Array(items) => Layer::Array(items),
        serde_json::Value::Object(map) => Layer::Object(map.into_iter().collect()),
    }
}

fn from_value(value: serde_json::Value) -> (r: Json)
    ensures
        r@ == value_content(value),
    decreases value_content(value),
{
    match open_value(value) {
        Layer::Leaf(json) => json,
        Layer::Array(mut items) => {
            let ghost all = items@;
            let mut out: Vec<Json> = Vec::new();
            while items.len() > 0
                invariant
                    value_content(value) == JsonView::Array(
                        all.map_values(|item: serde_json::Value| value_content(item)),
                    ),
                    items@.len() + out@.len() == all.len(),
                    items@ == all.skip(out@.len() as int),
                    forall|k: int|
                        0 <= k < out@.len() ==> (#[trigger] out@[k])@ == value_content(all[k]),
                decreases items@.len(),
            {
                let item = items.remove(0);
                assert(item == all[out@.len() as int]);
                assert(value_content(value)->Array_0[out@.len() as int] == value_content(item));
                assert(decreases_to!(value_content(value) => value_content(item)));
                out.push(from_value(item));
            }
            assert(json_view(Json::Array(out))->Array_0 =~= value_content(value)->Array_0);
            Json::Array(out)
        },
        Layer::Object(mut entries) => {
            let ghost all = entries@;
            let mut out: Vec<(String, Json)> = Vec::new();
            while entries.len() > 0
                invariant
                    value_content(value) == JsonView::Object(
                        all.map_values(
                            |entry: (String, serde_json::Value)| (entry.0@, value_content(entry.1)),
                        ),
                    ),
                    entries@.len() + out@.len() == all.len(),
                    entries@ == all.skip(out@.len() as int),
                    forall|k: int|
                        0 <= k < out@.len() ==> (#[trigger] out@[k]).0 == all[k].0 && out@[k].1@
                            == value_content(all[k].1),
                decreases entries@.len(),
            {
                let entry = entries.remove(0);
                assert(entry == all[out@.len() as int]);
                assert(value_content(value)->Object_0[out@.len() as int].1 == value_content(
                    entry.1,
                ));
                assert(decreases_to!(value_content(value) => value_content(entry.1)));
                out.push((entry.0, from_value(entry.1)));
            }
            assert(json_view(Json::Object(out))->Object_0 =~= value_content(value)->Object_0);
            Json::Object(out)
        },
    }
}

/// The document that `text` holds, with the members of each object in the order of their names,
/// or the message that says why it holds none.
pub fn parse_json(text: &str) -> (r: Result<Json, String>)
    ensures
        match r {
            Ok(json) => document_in(text@) == Ok::<JsonView, Seq<char>>(json@),
            Err(message) => document_in(text@) == Err::<JsonView, Seq<char>>(message@),
        },
{
    match read_value(text) {
        Ok(value) => Ok(in_order(&from_value(value))),
        Err(message) => Err(message),
    }
}

} // verus!
