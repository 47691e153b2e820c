//! JSON documents as text.

use crate::json::{
    first_under, json_in, lemma_member_is_smaller, value_content, views, Json, JsonNumber, JsonView,
};
use crate::members::signed_document;
use crate::persistence::{entry_views, lemma_object_view};
use crate::text::same_text;
use vstd::prelude::*;
use vstd::string::*;

verus! {

/// What `serde_json::from_str` makes of the text of a number, where it is one.
pub uninterp spec fn number_in(text: Seq<char>) -> Option<JsonView>;

/// What `serde_json::to_string` prints for what a value holds.
pub uninterp spec fn compact_text(content: JsonView) -> Seq<char>;

/// What `serde_json::to_string_pretty` prints for what a value holds.
pub uninterp spec fn pretty_text(content: JsonView) -> Seq<char>;

/// Whether the document is a number.
pub open spec fn is_number(value: JsonView) -> bool {
    value is Unsigned || value is Negative || value is Decimal
}

/// Whether no two members share a name.
pub open spec fn distinct_names(entries: Seq<(Seq<char>, JsonView)>) -> bool {
    forall|i: int, j: int|
        0 <= i < j < entries.len() ==> (#[trigger] entries[i]).0 != (#[trigger] entries[j]).0
}

/// Whether the document nests at most `room` deep and its numbers are whole ones of 64 bits,
/// with a sign where they are negative. Such a document is read back from its text as it is.
pub open spec fn fits(value: JsonView, room: nat) -> bool
    decreases room,
{
    match value {
        JsonView::Decimal(_) => false,
        JsonView::Negative(n) => n < 0,
        JsonView::Array(items) => room > 0 && forall|i: int|
            0 <= i < items.len() ==> fits(#[trigger] items[i], (room - 1) as nat),
        JsonView::Object(entries) => room > 0 && forall|i: int|
            0 <= i < entries.len() ==> fits((#[trigger] entries[i]).1, (room - 1) as nat),
        _ => true,
    }
}

/// Whether the document nests at most `room` deep.
pub open spec fn nests(value: JsonView, room: nat) -> bool
    decreases room,
{
    match value {
        JsonView::Array(items) => room > 0 && forall|i: int|
            0 <= i < items.len() ==> nests(#[trigger] items[i], (room - 1) as nat),
        JsonView::Object(entries) => room > 0 && forall|i: int|
            0 <= i < entries.len() ==> nests((#[trigger] entries[i]).1, (room - 1) as nat),
        _ => true,
    }
}

/// Whether `b` is `a`, but that a number which is no whole one of 64 bits may have become some
/// other number.
pub open spec fn same_shape(a: JsonView, b: JsonView) -> bool
    decreases a,
{
    match a {
        JsonView::Decimal(_) => is_number(b),
        JsonView::Array(items) => b matches JsonView::Array(others) && items.len() == others.len()
            && forall|i: int| 0 <= i < items.len() ==> same_shape(#[trigger] items[i], others[i]),
        JsonView::Object(entries) => b matches JsonView::Object(others) && entries.len()
            == others.len() && forall|i: int|
            0 <= i < entries.len() ==> (#[trigger] entries[i]).0 == others[i].0 && same_shape(
                entries[i].1,
                others[i].1,
            ),
        other => b == other,
    }
}

/// Whether a document of this shape is read from the text.
pub open spec fn holds_shape(text: Seq<char>, content: JsonView) -> bool {
    json_in(text) matches Ok(read) && same_shape(content, read)
}

/// Whether this document is read from the text.
pub open spec fn holds(text: Seq<char>, content: JsonView) -> bool {
    json_in(text) == Ok::<JsonView, Seq<char>>(content)
}

/// `serde_json::from_str` for a number: the outcome is a function of the text alone.
#[verifier::external_body]
fn number_value(text: &str) -> (r: Option<serde_json::Value>)
    ensures
        match r {
            Some(value) => number_in(text@) == Some(value_content(value)) && is_number(
                value_content(value),
            ),
            None => number_in(text@) is None,
        },
{
    serde_json::from_str::<serde_json::Number>(text).ok().map(serde_json::Value::Number)
}

/// The `serde_json::Value` of a null, a truth value, a whole number or a text. A number that
/// is not negative is held as an unsigned one.
#[verifier::external_body]
fn leaf_value(json: &Json) -> (r: serde_json::Value)
    requires
        !(json is Array),
        !(json is Object),
        !(json@ is Decimal),
    ensures
        value_content(r) == match json@ {
            JsonView::Negative(n) => signed_document(n),
            other => other,
        },
{
    match json {
        Json::Bool(b) => serde_json::Value::Bool(*b),
        Json::Number(JsonNumber::Unsigned(n)) => serde_json::Value::from(*n),
        Json::Number(JsonNumber::Negative(n)) => serde_json::Value::from(*n),
        Json::Text(s) => serde_json::Value::String(s.clone()),
        _ => serde_json::Value::Null,
    }
}

/// `serde_json::Value::Array`: the array of the values.
#[verifier::external_body]
fn array_value(items: Vec<serde_json::Value>) -> (r: serde_json::Value)
    ensures
        value_content(r) == JsonView::Array(
            items@.map_values(|item: serde_json::Value| value_content(item)),
        ),
{
    serde_json::Value::Array(items)
}

/// `serde_json::Value::Object` with a map made of the entries: where no two share a name, the
/// map has the same members in the same order.
#[verifier::external_body]
fn object_value(entries: Vec<(String, serde_json::Value)>) -> (r: serde_json::Value)
    requires
        distinct_names(member_contents(entries@)),
    ensures
        value_content(r) == JsonView::Object(member_contents(entries@)),
{
    serde_json::Value::Object(entries.into_iter().collect())
}

/// What the entries hold.
pub open spec fn member_contents(entries: Seq<(String, serde_json::Value)>) -> Seq<
    (Seq<char>, JsonView),
> {
    entries.map_values(|entry: (String, serde_json::Value)| (entry.0@, value_content(entry.1)))
}

/// `serde_json::to_string` for a value, which has no map with other keys than texts and no
/// number that is not finite, so that it cannot fail. A document that fits is read back from
/// the text as it is. One that holds other numbers is read back, where it does not nest too
/// deep, with some number in the place of each of these: `serde_json` reads a number with a
/// fraction only to within its rounding.
#[verifier::external_body]
fn print_compact(value: &serde_json::Value) -> (r: Result<String, String>)
    ensures
        r is Ok,
        r->Ok_0@ == compact_text(value_content(*value)),
        fits(value_content(*value), 127) ==> holds(r->Ok_0@, value_content(*value)),
        nests(value_content(*value), 127) ==> holds_shape(r->Ok_0@, value_content(*value)),
{
    serde_json::to_string(value).map_err(|error| error.to_string())
}

/// `serde_json::to_string_pretty` for a value, of which the same holds as of
/// `serde_json::to_string`.
#[verifier::external_body]
fn print_pretty(value: &serde_json::Value) -> (r: Result<String, String>)
    ensures
        r is Ok,
        r->Ok_0@ == pretty_text(value_content(*value)),
        fits(value_content(*value), 127) ==> holds(r->Ok_0@, value_content(*value)),
        nests(value_content(*value), 127) ==> holds_shape(r->Ok_0@, value_content(*value)),
{
    serde_json::to_string_pretty(value).map_err(|error| error.to_string())
}

/// Whether every number of the document is one.
pub open spec fn writable(value: JsonView) -> bool
    decreases value,
{
    match value {
        JsonView::Decimal(text) => number_in(text) matches Some(number) && is_number(number),
        JsonView::Array(items) => forall|i: int|
            0 <= i < items.len() ==> writable(#[trigger] items[i]),
        JsonView::Object(entries) => forall|i: int|
            0 <= i < entries.len() ==> writable((#[trigger] entries[i]).1),
        _ => true,
    }
}

/// Whether the two documents hold the same: the same items in the same order, and members of
/// the same names in any order, each once.
pub open spec fn same_content(a: JsonView, b: JsonView) -> bool
    decreases a,
    via same_content_terminates
{
    match a {
        JsonView::Decimal(text) => number_in(text) == Some(b) && is_number(b),
        JsonView::Negative(n) => b == signed_document(n),
        JsonView::Array(items) => b matches JsonView::Array(others) && items.len() == others.len()
            && forall|i: int| 0 <= i < items.len() ==> same_content(#[trigger] items[i], others[i]),
        JsonView::Object(entries) => b matches JsonView::Object(others) && distinct_names(others)
            && forall|name: Seq<char>| #![trigger first_under(others, name)]
            match a.get(name) {
                Some(member) => first_under(others, name) matches Some(other) && same_content(
                    member,
                    other,
                ),
                None => first_under(others, name) is None,
            },
        other => b == other,
    }
}

#[via_fn]
proof fn same_content_terminates(a: JsonView, b: JsonView) {
    match a {
        JsonView::Array(items) => {
            assert(decreases_to!(a => items));
        },
        JsonView::Object(entries) => {
            assert forall|name: Seq<char>| a.get(name) matches Some(member) implies decreases_to!(
                a => a.get(name)->0) by {
                lemma_member_is_smaller(a, name);
            }
        },
        _ => {},
    }
}

pub(crate) proof fn lemma_under_has_position(entries: Seq<(Seq<char>, JsonView)>, name: Seq<char>)
    ensures
        match first_under(entries, name) {
            Some(member) => exists|i: int|
                0 <= i < entries.len() && (#[trigger] entries[i]).0 == name && entries[i].1
                    == member,
            None => forall|i: int| 0 <= i < entries.len() ==> (#[trigger] entries[i]).0 != name,
        },
    decreases entries.len(),
{
    if entries.len() > 0 && entries[0].0 != name {
        let rest = entries.drop_first();
        lemma_under_has_position(rest, name);
        match first_under(entries, name) {
            Some(member) => {
                let i = choose|i: int|
                    0 <= i < rest.len() && (#[trigger] rest[i]).0 == name && rest[i].1 == member;
                assert(entries[i + 1] == rest[i]);
            },
            None => {
                assert forall|i: int| 0 <= i < entries.len() implies (#[trigger] entries[i]).0
                    != name by {
                    if i > 0 {
                        assert(rest[i - 1].0 != name);
                    }
                }
            },
        }
    }
}

pub(crate) proof fn lemma_under_pushed(
    entries: Seq<(Seq<char>, JsonView)>,
    entry: (Seq<char>, JsonView),
    name: Seq<char>,
)
    ensures
        first_under(entries.push(entry), name) == match first_under(entries, name) {
            Some(member) => Some(member),
            None => if entry.0 == name {
                Some(entry.1)
            } else {
                None
            },
        },
    decreases entries.len(),
{
    let after = entries.push(entry);
    if entries.len() == 0 {
        reveal_with_fuel(first_under, 2);
        assert(after.drop_first() =~= Seq::<(Seq<char>, JsonView)>::empty());
    } else {
        assert(after.drop_first() =~= entries.drop_first().push(entry));
        if entries[0].0 != name {
            lemma_under_pushed(entries.drop_first(), entry, name);
        }
    }
}

/// Whether `out` has the first of each name among the entries, with the same content.
spec fn carried(entries: Seq<(Seq<char>, JsonView)>, out: Seq<(Seq<char>, JsonView)>) -> bool {
    &&& distinct_names(out)
    &&& forall|name: Seq<char>|
        #![trigger first_under(out, name)]
        match first_under(entries, name) {
            Some(member) => first_under(out, name) matches Some(other) && same_content(
                member,
                other,
            ),
            None => first_under(out, name) is None,
        }
}

proof fn lemma_carried_step(
    entries: Seq<(Seq<char>, JsonView)>,
    out: Seq<(Seq<char>, JsonView)>,
    entry: (Seq<char>, JsonView),
    written: JsonView,
)
    requires
        carried(entries, out),
        same_content(entry.1, written),
    ensures
        first_under(out, entry.0) is Some ==> carried(entries.push(entry), out),
        first_under(out, entry.0) is None ==> carried(
            entries.push(entry),
            out.push((entry.0, written)),
        ),
{
    let after = entries.push(entry);
    if first_under(out, entry.0) is Some {
        assert forall|name: Seq<char>|
            #![trigger first_under(out, name)]
            match first_under(after, name) {
                Some(member) => first_under(out, name) matches Some(other) && same_content(
                    member,
                    other,
                ),
                None => first_under(out, name) is None,
            } by {
            lemma_under_pushed(entries, entry, name);
        }
    } else {
        let more = out.push((entry.0, written));
        lemma_under_has_position(out, entry.0);
        assert forall|i: int, j: int| 0 <= i < j < more.len() implies (#[trigger] more[i]).0 != (
        #[trigger] more[j]).0 by {
            if j < out.len() {
                assert(out[i].0 != out[j].0);
            } else {
                assert(out[i].0 != entry.0);
            }
        }
        assert forall|name: Seq<char>|
            #![trigger first_under(more, name)]
            match first_under(after, name) {
                Some(member) => first_under(more, name) matches Some(other) && same_content(
                    member,
                    other,
                ),
                None => first_under(more, name) is None,
            } by {
            lemma_under_pushed(entries, entry, name);
            lemma_under_pushed(out, (entry.0, written), name);
            assert(match first_under(entries, name) {
                Some(member) => first_under(out, name) matches Some(other) && same_content(
                    member,
                    other,
                ),
                None => first_under(out, name) is None,
            });
        }
    }
}

/// The first member of each name, in their order.
pub open spec fn firsts(entries: Seq<(Seq<char>, JsonView)>) -> Seq<(Seq<char>, JsonView)>
    decreases entries.len(),
{
    if entries.len() == 0 {
        entries
    } else {
        let before = firsts(entries.drop_last());
        if first_under(before, entries.last().0) is Some {
            before
        } else {
            before.push(entries.last())
        }
    }
}

/// Each member with what is printed of what it holds.
pub open spec fn printed_members(entries: Seq<(Seq<char>, JsonView)>) -> Seq<(Seq<char>, JsonView)>
    decreases entries,
{
    Seq::new(
        entries.len(),
        |i: int|
            if 0 <= i < entries.len() {
                (entries[i].0, printed(entries[i].1))
            } else {
                (Seq::empty(), JsonView::Null)
            },
    )
}

/// What is printed of a document: its numbers as `serde_json` holds them, and of the members of
/// an object the first of each name, in their order.
pub open spec fn printed(value: JsonView) -> JsonView
    decreases value,
{
    match value {
        JsonView::Decimal(text) => match number_in(text) {
            Some(number) => number,
            None => value,
        },
        JsonView::Negative(n) => signed_document(n),
        JsonView::Array(items) => JsonView::Array(
            Seq::new(
                items.len(),
                |i: int| if 0 <= i < items.len() { printed(items[i]) } else { JsonView::Null },
            ),
        ),
        JsonView::Object(entries) => JsonView::Object(firsts(printed_members(entries))),
        other => other,
    }
}

proof fn lemma_firsts_carried(entries: Seq<(Seq<char>, JsonView)>)
    requires
        forall|i: int|
            0 <= i < entries.len() ==> same_content(
                (#[trigger] entries[i]).1,
                printed(entries[i].1),
            ),
    ensures
        carried(entries, firsts(printed_members(entries))),
    decreases entries.len(),
{
    let members = printed_members(entries);
    if entries.len() > 0 {
        let rest = entries.drop_last();
        let entry = entries.last();
        assert forall|i: int| 0 <= i < rest.len() implies same_content(
            (#[trigger] rest[i]).1,
            printed(rest[i].1),
        ) by {
            assert(rest[i] == entries[i]);
        }
        lemma_firsts_carried(rest);
        assert(members.drop_last() =~= printed_members(rest));
        assert(members.last() == (entry.0, printed(entry.1)));
        assert(same_content(entries[entries.len() - 1].1, printed(entry.1)));
        lemma_carried_step(rest, firsts(printed_members(rest)), entry, printed(entry.1));
        assert(rest.push(entry) =~= entries);
    }
}

/// What is printed of a document has its content.
pub proof fn printing_keeps_the_content(value: JsonView)
    requires
        writable(value),
    ensures
        same_content(value, printed(value)),
    decreases value,
{
    match value {
        JsonView::Array(items) => {
            let others = printed(value)->Array_0;
            assert(decreases_to!(value => items));
            assert forall|i: int| 0 <= i < items.len() implies same_content(
                #[trigger] items[i],
                others[i],
            ) by {
                assert(writable(items[i]));
                assert(decreases_to!(items => items[i]));
                printing_keeps_the_content(items[i]);
            }
        },
        JsonView::Object(entries) => {
            assert(decreases_to!(value => entries));
            assert forall|i: int| 0 <= i < entries.len() implies same_content(
                (#[trigger] entries[i]).1,
                printed(entries[i].1),
            ) by {
                assert(writable(entries[i].1));
                assert(decreases_to!(entries => entries[i]));
                assert(decreases_to!(entries[i] => entries[i].1));
                printing_keeps_the_content(entries[i].1);
            }
            lemma_firsts_carried(entries);
            let others = printed(value)->Object_0;
            assert forall|name: Seq<char>|
                #![trigger first_under(others, name)]
                match value.get(name) {
                    Some(member) => first_under(others, name) matches Some(other) && same_content(
                        member,
                        other,
                    ),
                    None => first_under(others, name) is None,
                } by {
                assert(value.get(name) == first_under(entries, name));
            }
        },
        _ => {},
    }
}

fn has_name(entries: &Vec<(String, serde_json::Value)>, name: &str) -> (r: bool)
    ensures
        r == first_under(member_contents(entries@), name@) is Some,
{
    let ghost all = member_contents(entries@);
    proof {
        lemma_under_has_position(all, name@);
    }
    let mut i: usize = 0;
    while i < entries.len()
        invariant
            i <= entries@.len(),
            all == member_contents(entries@),
            forall|k: int| 0 <= k < i ==> (#[trigger] all[k]).0 != name@,
        decreases entries@.len() - i,
    {
        assert(all[i as int].0 == entries@[i as int].0@);
        if same_text(entries[i].0.as_str(), name) {
            proof {
                lemma_under_has_position(all, name@);
            }
            return true;
        }
        i += 1;
    }
    proof {
        lemma_under_has_position(all, name@);
    }
    false
}

proof fn lemma_firsts_are_distinct(entries: Seq<(Seq<char>, JsonView)>)
    ensures
        distinct_names(firsts(entries)),
    decreases entries.len(),
{
    if entries.len() > 0 {
        let before = firsts(entries.drop_last());
        lemma_firsts_are_distinct(entries.drop_last());
        lemma_under_has_position(before, entries.last().0);
    }
}

fn to_value(json: &Json) -> (r: Option<serde_json::Value>)
    ensures
        match r {
            Some(value) => writable(json@) && value_content(value) == printed(json@),
            None => !writable(json@),
        },
    decreases json@,
{
    match json {
        Json::Number(JsonNumber::Decimal(text)) => number_value(text.as_str()),
        Json::Array(items) => {
            let ghost all = views(items@);
            assert(json@->Array_0 =~= all);
            let mut out: Vec<serde_json::Value> = Vec::new();
            let mut i: usize = 0;
            while i < items.len()
                invariant
                    i <= items@.len(),
                    all == views(items@),
                    json@ == JsonView::Array(all),
                    out@.len() == i,
                    forall|k: int|
                        0 <= k < i ==> writable(all[k]) && value_content(#[trigger] out@[k])
                            == printed(all[k]),
                decreases items@.len() - i,
            {
                assert(all[i as int] == items@[i as int]@);
                assert(decreases_to!(json@ => json@->Array_0));
                assert(decreases_to!(all => all[i as int]));
                match to_value(&items[i]) {
                    Some(value) => {
                        out.push(value);
                    },
                    None => {
                        assert(!writable(all[i as int]));
                        return None;
                    },
                }
                i += 1;
            }
            let value = array_value(out);
            proof {
                assert forall|k: int| 0 <= k < all.len() implies writable(#[trigger] all[k]) by {
                    assert(value_content(out@[k]) == printed(all[k]));
                }
                assert(value_content(value)->Array_0 =~= printed(json@)->Array_0);
            }
            Some(value)
        },
        Json::Object(entries) => {
            proof {
                lemma_object_view(*entries);
            }
            let ghost all = entry_views(entries@);
            let ghost members = printed_members(all);
            let mut out: Vec<(String, serde_json::Value)> = Vec::new();
            let mut i: usize = 0;
            assert(member_contents(out@) =~= firsts(members.take(0)));
            while i < entries.len()
                invariant
                    i <= entries@.len(),
                    all == entry_views(entries@),
                    members == printed_members(all),
                    json@ == JsonView::Object(all),
                    forall|k: int| 0 <= k < i ==> writable((#[trigger] all[k]).1),
                    member_contents(out@) == firsts(members.take(i as int)),
                decreases entries@.len() - i,
            {
                assert(all[i as int] == (entries@[i as int].0@, entries@[i as int].1@));
                assert(decreases_to!(json@ => json@->Object_0));
                assert(decreases_to!(all => all[i as int]));
                assert(decreases_to!(all[i as int] => all[i as int].1));
                let value = match to_value(&entries[i].1) {
                    Some(value) => value,
                    None => {
                        assert(!writable(all[i as int].1));
                        return None;
                    },
                };
                proof {
                    assert(members.take(i + 1).drop_last() =~= members.take(i as int));
                    assert(members.take(i + 1).last() == (all[i as int].0, value_content(value)));
                }
                if !has_name(&out, entries[i].0.as_str()) {
                    let ghost before = out@;
                    out.push((entries[i].0.clone(), value));
                    assert(member_contents(out@) =~= member_contents(before).push(
                        (all[i as int].0, value_content(value)),
                    ));
                }
                i += 1;
            }
            proof {
                assert(members.take(all.len() as int) =~= members);
                lemma_firsts_are_distinct(members);
            }
            Some(object_value(out))
        },
        _ => Some(leaf_value(json)),
    }
}

/// Why a document cannot be written.
pub const UNWRITABLE_NUMBER: &'static str = "a number of the document is not a JSON number";

/// The text of a document on one line.
pub fn write_json(json: &Json) -> (r: Result<String, String>)
    ensures
        r is Ok <==> writable(json@),
        r matches Ok(text) ==> written(json@, text@, false),
        r matches Err(message) ==> message@ == UNWRITABLE_NUMBER@,
{
    match to_value(json) {
        Some(value) => {
            proof {
                lemma_printed_fits(json@);
            }
            print_compact(&value)
        },
        None => Err(UNWRITABLE_NUMBER.to_owned()),
    }
}

/// The text of a document with a line for each member and item.
pub fn write_json_pretty(json: &Json) -> (r: Result<String, String>)
    ensures
        r is Ok <==> writable(json@),
        r matches Ok(text) ==> written(json@, text@, true),
        r matches Err(message) ==> message@ == UNWRITABLE_NUMBER@,
{
    match to_value(json) {
        Some(value) => {
            proof {
                lemma_printed_fits(json@);
            }
            print_pretty(&value)
        },
        None => Err(UNWRITABLE_NUMBER.to_owned()),
    }
}

/// Whether the document can be written and the text is what is printed of it. Where the document
/// fits, what is printed is read from the text; where it only does not nest too deep, a document
/// of that shape is read.
pub open spec fn written(json: JsonView, text: Seq<char>, pretty: bool) -> bool {
    &&& writable(json)
    &&& text == if pretty {
        pretty_text(printed(json))
    } else {
        compact_text(printed(json))
    }
    &&& fits(json, 127) ==> holds(text, printed(json))
    &&& nests(json, 127) ==> holds_shape(text, printed(json))
}

proof fn lemma_printed_fits(json: JsonView)
    requires
        writable(json),
    ensures
        fits(json, 127) ==> fits(printed(json), 127),
        nests(json, 127) ==> nests(printed(json), 127),
{
    printing_keeps_the_content(json);
    if fits(json, 127) {
        same_content_fits(json, printed(json), 127);
    }
    if nests(json, 127) {
        same_content_nests(json, printed(json), 127);
    }
}

/// A text that was written of a document that does not nest too deep is read as one that
/// resembles it.
pub proof fn written_documents_are_resembled(json: JsonView, text: Seq<char>, pretty: bool)
    requires
        written(json, text, pretty),
        nests(json, 127),
    ensures
        json_in(text) matches Ok(read) && resembles(json, read),
{
    printing_keeps_the_content(json);
    shapes_of_the_content_resemble(json, printed(json), json_in(text)->Ok_0);
}

/// What has the same content as a document that fits, fits.
pub proof fn same_content_fits(a: JsonView, b: JsonView, room: nat)
    requires
        fits(a, room),
        same_content(a, b),
    ensures
        fits(b, room),
    decreases room,
{
    match a {
        JsonView::Array(items) => {
            let others = b->Array_0;
            assert forall|i: int| 0 <= i < others.len() implies fits(
                #[trigger] others[i],
                (room - 1) as nat,
            ) by {
                assert(same_content(items[i], others[i]));
                same_content_fits(items[i], others[i], (room - 1) as nat);
            }
        },
        JsonView::Object(entries) => {
            let others = b->Object_0;
            assert forall|i: int| 0 <= i < others.len() implies fits(
                (#[trigger] others[i]).1,
                (room - 1) as nat,
            ) by {
                let name = others[i].0;
                lemma_under_has_position(others, name);
                lemma_under_has_position(entries, name);
                assert(first_under(others, name) is Some);
                let k = choose|k: int|
                    0 <= k < others.len() && (#[trigger] others[k]).0 == name && others[k].1
                        == first_under(others, name)->0;
                assert(k == i);
                let member = a.get(name)->0;
                let m = choose|m: int|
                    0 <= m < entries.len() && (#[trigger] entries[m]).0 == name && entries[m].1
                        == member;
                assert(fits(entries[m].1, (room - 1) as nat));
                same_content_fits(member, others[i].1, (room - 1) as nat);
            }
        },
        _ => {},
    }
}

/// What has the same content as a document that does not nest too deep, does not either.
pub proof fn same_content_nests(a: JsonView, b: JsonView, room: nat)
    requires
        nests(a, room),
        same_content(a, b),
    ensures
        nests(b, room),
    decreases room,
{
    match a {
        JsonView::Array(items) => {
            let others = b->Array_0;
            assert forall|i: int| 0 <= i < others.len() implies nests(
                #[trigger] others[i],
                (room - 1) as nat,
            ) by {
                assert(same_content(items[i], others[i]));
                same_content_nests(items[i], others[i], (room - 1) as nat);
            }
        },
        JsonView::Object(entries) => {
            let others = b->Object_0;
            assert forall|i: int| 0 <= i < others.len() implies nests(
                (#[trigger] others[i]).1,
                (room - 1) as nat,
            ) by {
                let name = others[i].0;
                lemma_under_has_position(others, name);
                lemma_under_has_position(entries, name);
                assert(first_under(others, name) is Some);
                let k = choose|k: int|
                    0 <= k < others.len() && (#[trigger] others[k]).0 == name && others[k].1
                        == first_under(others, name)->0;
                assert(k == i);
                let member = a.get(name)->0;
                let m = choose|m: int|
                    0 <= m < entries.len() && (#[trigger] entries[m]).0 == name && entries[m].1
                        == member;
                assert(nests(entries[m].1, (room - 1) as nat));
                same_content_nests(member, others[i].1, (room - 1) as nat);
            }
        },
        _ => {},
    }
}

/// What fits does not nest too deep.
pub proof fn what_fits_nests(value: JsonView, room: nat)
    requires
        fits(value, room),
    ensures
        nests(value, room),
    decreases room,
{
    match value {
        JsonView::Array(items) => {
            assert forall|i: int| 0 <= i < items.len() implies nests(
                #[trigger] items[i],
                (room - 1) as nat,
            ) by {
                what_fits_nests(items[i], (room - 1) as nat);
            }
        },
        JsonView::Object(entries) => {
            assert forall|i: int| 0 <= i < entries.len() implies nests(
                (#[trigger] entries[i]).1,
                (room - 1) as nat,
            ) by {
                what_fits_nests(entries[i].1, (room - 1) as nat);
            }
        },
        _ => {},
    }
}

/// Whether `b` has the content of `a`, but that a number which is no whole one of 64 bits may
/// have become some other number.
pub open spec fn resembles(a: JsonView, b: JsonView) -> bool
    decreases a,
    via resembles_terminates
{
    match a {
        JsonView::Decimal(_) => is_number(b),
        JsonView::Negative(n) => b == signed_document(n),
        JsonView::Array(items) => b matches JsonView::Array(others) && items.len() == others.len()
            && forall|i: int| 0 <= i < items.len() ==> resembles(#[trigger] items[i], others[i]),
        JsonView::Object(entries) => b matches JsonView::Object(others) && distinct_names(others)
            && forall|name: Seq<char>| #![trigger first_under(others, name)]
            match a.get(name) {
                Some(member) => first_under(others, name) matches Some(other) && resembles(
                    member,
                    other,
                ),
                None => first_under(others, name) is None,
            },
        other => b == other,
    }
}

#[via_fn]
proof fn resembles_terminates(a: JsonView, b: JsonView) {
    match a {
        JsonView::Array(items) => {
            assert(decreases_to!(a => items));
        },
        JsonView::Object(entries) => {
            assert forall|name: Seq<char>| a.get(name) matches Some(member) implies decreases_to!(
                a => a.get(name)->0) by {
                lemma_member_is_smaller(a, name);
            }
        },
        _ => {},
    }
}

proof fn lemma_under_in_shape(
    entries: Seq<(Seq<char>, JsonView)>,
    others: Seq<(Seq<char>, JsonView)>,
    name: Seq<char>,
)
    requires
        entries.len() == others.len(),
        forall|i: int|
            0 <= i < entries.len() ==> (#[trigger] entries[i]).0 == others[i].0 && same_shape(
                entries[i].1,
                others[i].1,
            ),
    ensures
        match first_under(entries, name) {
            Some(member) => first_under(others, name) matches Some(other) && same_shape(
                member,
                other,
            ),
            None => first_under(others, name) is None,
        },
    decreases entries.len(),
{
    if entries.len() > 0 {
        assert(entries[0].0 == others[0].0);
        let rest = entries.drop_first();
        let left = others.drop_first();
        assert forall|i: int| 0 <= i < rest.len() implies (#[trigger] rest[i]).0 == left[i].0
            && same_shape(rest[i].1, left[i].1) by {
            assert(entries[i + 1].0 == others[i + 1].0);
        }
        lemma_under_in_shape(rest, left, name);
    }
}

/// What is of the shape of something with the content of a document resembles the document.
pub proof fn shapes_of_the_content_resemble(a: JsonView, content: JsonView, b: JsonView)
    requires
        same_content(a, content),
        same_shape(content, b),
    ensures
        resembles(a, b),
    decreases a,
{
    match a {
        JsonView::Array(items) => {
            let between = content->Array_0;
            let others = b->Array_0;
            assert(decreases_to!(a => items));
            assert forall|i: int| 0 <= i < items.len() implies resembles(
                #[trigger] items[i],
                others[i],
            ) by {
                assert(same_content(items[i], between[i]));
                assert(same_shape(between[i], others[i]));
                assert(decreases_to!(items => items[i]));
                shapes_of_the_content_resemble(items[i], between[i], others[i]);
            }
        },
        JsonView::Object(entries) => {
            let between = content->Object_0;
            let others = b->Object_0;
            assert(distinct_names(others)) by {
                assert forall|i: int, j: int| 0 <= i < j < others.len() implies (
                #[trigger] others[i]).0 != (#[trigger] others[j]).0 by {
                    assert(between[i].0 == others[i].0);
                    assert(between[j].0 == others[j].0);
                    assert(between[i].0 != between[j].0);
                }
            }
            assert forall|name: Seq<char>|
                #![trigger first_under(others, name)]
                match a.get(name) {
                    Some(member) => first_under(others, name) matches Some(other) && resembles(
                        member,
                        other,
                    ),
                    None => first_under(others, name) is None,
                } by {
                lemma_under_in_shape(between, others, name);
                lemma_member_is_smaller(a, name);
                assert(match a.get(name) {
                    Some(member) => first_under(between, name) matches Some(other) && same_content(
                        member,
                        other,
                    ),
                    None => first_under(between, name) is None,
                });
                if let Some(member) = a.get(name) {
                    shapes_of_the_content_resemble(
                        member,
                        first_under(between, name)->0,
                        first_under(others, name)->0,
                    );
                }
            }
        },
        _ => {},
    }
}

/// What resembles a document that fits has its content.
pub proof fn what_resembles_a_fitting_one_has_its_content(a: JsonView, b: JsonView, room: nat)
    requires
        fits(a, room),
        resembles(a, b),
    ensures
        same_content(a, b),
    decreases room,
{
    match a {
        JsonView::Array(items) => {
            let others = b->Array_0;
            assert forall|i: int| 0 <= i < items.len() implies same_content(
                #[trigger] items[i],
                others[i],
            ) by {
                assert(resembles(items[i], others[i]));
                what_resembles_a_fitting_one_has_its_content(
                    items[i],
                    others[i],
                    (room - 1) as nat,
                );
            }
        },
        JsonView::Object(entries) => {
            let others = b->Object_0;
            assert forall|name: Seq<char>|
                #![trigger first_under(others, name)]
                match a.get(name) {
                    Some(member) => first_under(others, name) matches Some(other) && same_content(
                        member,
                        other,
                    ),
                    None => first_under(others, name) is None,
                } by {
                lemma_under_has_position(entries, name);
                if let Some(member) = a.get(name) {
                    let m = choose|m: int|
                        0 <= m < entries.len() && (#[trigger] entries[m]).0 == name && entries[m].1
                            == member;
                    assert(fits(entries[m].1, (room - 1) as nat));
                    what_resembles_a_fitting_one_has_its_content(
                        member,
                        first_under(others, name)->0,
                        (room - 1) as nat,
                    );
                }
            }
        },
        _ => {},
    }
}

/// A document that fits can be written.
pub proof fn what_fits_is_writable(value: JsonView, room: nat)
    requires
        fits(value, room),
    ensures
        writable(value),
    decreases room,
{
    match value {
        JsonView::Array(items) => {
            assert forall|i: int| 0 <= i < items.len() implies writable(#[trigger] items[i]) by {
                what_fits_is_writable(items[i], (room - 1) as nat);
            }
        },
        JsonView::Object(entries) => {
            assert forall|i: int| 0 <= i < entries.len() implies writable(
                (#[trigger] entries[i]).1,
            ) by {
                what_fits_is_writable(entries[i].1, (room - 1) as nat);
            }
        },
        _ => {},
    }
}

/// What fits in less room fits in more.
pub proof fn fits_in_more_room(value: JsonView, room: nat, more: nat)
    requires
        fits(value, room),
        room <= more,
    ensures
        fits(value, more),
    decreases room,
{
    match value {
        JsonView::Array(items) => {
            assert forall|i: int| 0 <= i < items.len() implies fits(
                #[trigger] items[i],
                (more - 1) as nat,
            ) by {
                fits_in_more_room(items[i], (room - 1) as nat, (more - 1) as nat);
            }
        },
        JsonView::Object(entries) => {
            assert forall|i: int| 0 <= i < entries.len() implies fits(
                (#[trigger] entries[i]).1,
                (more - 1) as nat,
            ) by {
                fits_in_more_room(entries[i].1, (room - 1) as nat, (more - 1) as nat);
            }
        },
        _ => {},
    }
}

} // verus!
