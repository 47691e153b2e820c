//! The members of documents in the order of their names.

use crate::json::{first_under, json_in, json_view, views, Json, JsonView};
use crate::json_text::{distinct_names, lemma_under_has_position, nests, resembles, writable};
use crate::persistence::{entry_views, lemma_object_view};
use crate::search::{first_where, lemma_placed, place_where, placed};
use crate::text::{one_text_precedes, precedes, preceding_is_transitive, text_precedes};
use vstd::prelude::*;
use vstd::string::*;

verus! {

/// The members in the order of their names; those of one name stay in their order.
pub open spec fn sorted(entries: Seq<(Seq<char>, JsonView)>) -> Seq<(Seq<char>, JsonView)>
    decreases entries.len(),
{
    if entries.len() == 0 {
        entries
    } else {
        placed(
            sorted(entries.drop_last()),
            entries.last(),
            |known: (Seq<char>, JsonView)| precedes(entries.last().0, known.0),
        )
    }
}

/// Each member with what it holds put in order.
pub open spec fn ordered_members(entries: Seq<(Seq<char>, JsonView)>) -> Seq<(Seq<char>, JsonView)>
    decreases entries,
{
    Seq::new(
        entries.len(),
        |i: int|
            if 0 <= i < entries.len() {
                (entries[i].0, ordered(entries[i].1))
            } else {
                (Seq::empty(), JsonView::Null)
            },
    )
}

/// The document with the members of each object in the order of their names.
pub open spec fn ordered(value: JsonView) -> JsonView
    decreases value,
{
    match value {
        JsonView::Array(items) => JsonView::Array(
            Seq::new(
                items.len(),
                |i: int| if 0 <= i < items.len() { ordered(items[i]) } else { JsonView::Null },
            ),
        ),
        JsonView::Object(entries) => JsonView::Object(sorted(ordered_members(entries))),
        other => other,
    }
}

/// What a text holds, with the members of each object in the order of their names.
pub open spec fn document_in(text: Seq<char>) -> Result<JsonView, Seq<char>> {
    match json_in(text) {
        Ok(value) => Ok(ordered(value)),
        Err(message) => Err(message),
    }
}

/// Whether no member comes before one whose name precedes its own.
pub open spec fn name_ordered(entries: Seq<(Seq<char>, JsonView)>) -> bool {
    forall|i: int, j: int|
        0 <= i < j < entries.len() ==> !precedes((#[trigger] entries[j]).0, (#[trigger] entries[i]).0)
}

/// Where a member is placed among members that are in order.
proof fn lemma_member_placed(entries: Seq<(Seq<char>, JsonView)>, entry: (Seq<char>, JsonView)) -> (at:
    int)
    requires
        name_ordered(entries),
    ensures
        0 <= at <= entries.len(),
        placed(
            entries,
            entry,
            |known: (Seq<char>, JsonView)| precedes(entry.0, known.0),
        ) == entries.insert(at, entry),
        forall|i: int| 0 <= i < at ==> !precedes(entry.0, (#[trigger] entries[i]).0),
        forall|i: int| at <= i < entries.len() ==> precedes(entry.0, (#[trigger] entries[i]).0),
        name_ordered(entries.insert(at, entry)),
{
    let behind = |known: (Seq<char>, JsonView)| precedes(entry.0, known.0);
    let at = lemma_placed(entries, entry, behind);
    assert forall|i: int| 0 <= i < at implies !precedes(entry.0, (#[trigger] entries[i]).0) by {
        assert(!behind(entries[i]));
    }
    assert forall|i: int| at <= i < entries.len() implies precedes(
        entry.0,
        (#[trigger] entries[i]).0,
    ) by {
        assert(behind(entries[at]));
        if at < i {
            assert(!precedes(entries[i].0, entries[at].0));
            one_text_precedes(entries[at].0, entries[i].0);
            if entries[at].0 != entries[i].0 {
                preceding_is_transitive(entry.0, entries[at].0, entries[i].0);
            }
        }
    }
    let after = entries.insert(at, entry);
    assert forall|i: int, j: int| 0 <= i < j < after.len() implies !precedes(
        (#[trigger] after[j]).0,
        (#[trigger] after[i]).0,
    ) by {
        if j == at {
            assert(after[i] == entries[i]);
        } else if i == at {
            assert(after[j] == entries[j - 1]);
            one_text_precedes(entry.0, entries[j - 1].0);
        } else {
            let i2 = if i < at { i } else { i - 1 };
            let j2 = if j < at { j } else { j - 1 };
            assert(after[i] == entries[i2] && after[j] == entries[j2]);
            assert(!precedes(entries[j2].0, entries[i2].0));
        }
    }
    at
}

proof fn lemma_under_inserted(
    entries: Seq<(Seq<char>, JsonView)>,
    at: int,
    entry: (Seq<char>, JsonView),
    name: Seq<char>,
)
    requires
        0 <= at <= entries.len(),
        forall|i: int| at <= i < entries.len() ==> (#[trigger] entries[i]).0 != entry.0,
    ensures
        first_under(entries.insert(at, entry), name) == match first_under(entries, name) {
            Some(member) => Some(member),
            None => if entry.0 == name {
                Some(entry.1)
            } else {
                None
            },
        },
    decreases at,
{
    let after = entries.insert(at, entry);
    if at == 0 {
        assert(after.drop_first() =~= entries);
        lemma_under_has_position(entries, name);
    } else {
        let rest = entries.drop_first();
        assert(after[0] == entries[0]);
        assert(after.drop_first() =~= rest.insert(at - 1, entry));
        assert forall|i: int| at - 1 <= i < rest.len() implies (#[trigger] rest[i]).0 != entry.0 by {
            assert(rest[i] == entries[i + 1]);
        }
        lemma_under_inserted(rest, at - 1, entry, name);
    }
}

proof fn lemma_under_last(entries: Seq<(Seq<char>, JsonView)>, name: Seq<char>)
    requires
        entries.len() > 0,
    ensures
        first_under(entries, name) == match first_under(entries.drop_last(), name) {
            Some(member) => Some(member),
            None => if entries.last().0 == name {
                Some(entries.last().1)
            } else {
                None
            },
        },
{
    let rest = entries.drop_last();
    lemma_under_inserted(rest, rest.len() as int, entries.last(), name);
    assert(rest.insert(rest.len() as int, entries.last()) =~= entries);
}

/// Sorting puts the members in order, keeps each of them, and keeps what stands under each name.
pub proof fn sorting_keeps_the_members(entries: Seq<(Seq<char>, JsonView)>)
    ensures
        name_ordered(sorted(entries)),
        sorted(entries).len() == entries.len(),
        forall|entry: (Seq<char>, JsonView)| #[trigger]
            sorted(entries).contains(entry) <==> entries.contains(entry),
        forall|name: Seq<char>| #[trigger]
            first_under(sorted(entries), name) == first_under(entries, name),
        distinct_names(entries) ==> distinct_names(sorted(entries)),
    decreases entries.len(),
{
    if entries.len() > 0 {
        let rest = entries.drop_last();
        let entry = entries.last();
        let before = sorted(rest);
        sorting_keeps_the_members(rest);
        let at = lemma_member_placed(before, entry);
        let after = sorted(entries);
        assert(after == before.insert(at, entry));
        assert forall|e: (Seq<char>, JsonView)| #[trigger] after.contains(e) <==> entries.contains(
            e,
        ) by {
            if after.contains(e) {
                let k = choose|k: int| 0 <= k < after.len() && after[k] == e;
                if k == at {
                    assert(entries[entries.len() - 1] == e);
                } else {
                    let k2 = if k < at { k } else { k - 1 };
                    assert(before[k2] == e);
                    assert(before.contains(e));
                    assert(rest.contains(e));
                    let m = choose|m: int| 0 <= m < rest.len() && rest[m] == e;
                    assert(entries[m] == e);
                }
            }
            if entries.contains(e) {
                let m = choose|m: int| 0 <= m < entries.len() && entries[m] == e;
                if m < rest.len() {
                    assert(rest[m] == e);
                    assert(rest.contains(e));
                    assert(before.contains(e));
                    let k = choose|k: int| 0 <= k < before.len() && before[k] == e;
                    assert(after[if k < at { k } else { k + 1 }] == e);
                } else {
                    assert(after[at] == e);
                }
            }
        }
        assert forall|i: int| at <= i < before.len() implies (#[trigger] before[i]).0 != entry.0 by {
            one_text_precedes(entry.0, before[i].0);
        }
        assert forall|name: Seq<char>| #[trigger]
            first_under(after, name) == first_under(entries, name) by {
            lemma_under_inserted(before, at, entry, name);
            lemma_under_last(entries, name);
            assert(first_under(before, name) == first_under(rest, name));
        }
        if distinct_names(entries) {
            assert forall|i: int, j: int| 0 <= i < j < rest.len() implies (#[trigger] rest[i]).0 != (
            #[trigger] rest[j]).0 by {
                assert(entries[i].0 != entries[j].0);
            }
            assert forall|k: int| 0 <= k < before.len() implies (#[trigger] before[k]).0
                != entry.0 by {
                assert(before.contains(before[k]));
                assert(rest.contains(before[k]));
                let m = choose|m: int| 0 <= m < rest.len() && rest[m] == before[k];
                assert(entries[m].0 != entries[entries.len() - 1].0);
            }
            assert forall|i: int, j: int| 0 <= i < j < after.len() implies (#[trigger] after[i]).0
                != (#[trigger] after[j]).0 by {
                if j == at {
                    assert(after[i] == before[i]);
                } else if i == at {
                    assert(after[j] == before[j - 1]);
                } else {
                    let i2 = if i < at { i } else { i - 1 };
                    let j2 = if j < at { j } else { j - 1 };
                    assert(after[i] == before[i2] && after[j] == before[j2]);
                    assert(before[i2].0 != before[j2].0);
                }
            }
        }
    }
}

proof fn lemma_under_ordered_members(entries: Seq<(Seq<char>, JsonView)>, name: Seq<char>)
    ensures
        first_under(ordered_members(entries), name) == match first_under(entries, name) {
            Some(member) => Some(ordered(member)),
            None => None,
        },
    decreases entries.len(),
{
    if entries.len() > 0 {
        let rest = entries.drop_first();
        assert(ordered_members(entries)[0] == (entries[0].0, ordered(entries[0].1)));
        assert(ordered_members(entries).drop_first() =~= ordered_members(rest));
        lemma_under_ordered_members(rest, name);
    }
}

/// Putting a document in order keeps what stands under each name.
pub proof fn ordering_keeps_the_members(value: JsonView, name: Seq<char>)
    ensures
        ordered(value).get(name) == match value.get(name) {
            Some(member) => Some(ordered(member)),
            None => None,
        },
{
    if let JsonView::Object(entries) = value {
        sorting_keeps_the_members(ordered_members(entries));
        lemma_under_ordered_members(entries, name);
        assert(first_under(sorted(ordered_members(entries)), name) == first_under(
            ordered_members(entries),
            name,
        ));
    }
}

/// What resembles a document still does once it is put in order.
pub proof fn ordering_keeps_the_resemblance(a: JsonView, b: JsonView)
    requires
        resembles(a, b),
    ensures
        resembles(a, ordered(b)),
    decreases a,
{
    match a {
        JsonView::Array(items) => {
            let others = b->Array_0;
            let after = ordered(b)->Array_0;
            assert(decreases_to!(a => items));
            assert forall|i: int| 0 <= i < items.len() implies resembles(
                #[trigger] items[i],
                after[i],
            ) by {
                assert(resembles(items[i], others[i]));
                assert(decreases_to!(items => items[i]));
                ordering_keeps_the_resemblance(items[i], others[i]);
            }
        },
        JsonView::Object(entries) => {
            let others = b->Object_0;
            let after = ordered(b)->Object_0;
            sorting_keeps_the_members(ordered_members(others));
            assert(distinct_names(ordered_members(others))) by {
                assert forall|i: int, j: int| 0 <= i < j < others.len() implies (
                #[trigger] ordered_members(others)[i]).0 != (
                #[trigger] ordered_members(others)[j]).0 by {
                    assert(others[i].0 != others[j].0);
                }
            }
            assert forall|name: Seq<char>|
                #![trigger first_under(after, name)]
                match a.get(name) {
                    Some(member) => first_under(after, name) matches Some(other) && resembles(
                        member,
                        other,
                    ),
                    None => first_under(after, name) is None,
                } by {
                ordering_keeps_the_members(b, name);
                crate::json::lemma_member_is_smaller(a, name);
                assert(ordered(b).get(name) == first_under(after, name));
                assert(b.get(name) == first_under(others, name));
                if let Some(member) = a.get(name) {
                    ordering_keeps_the_resemblance(member, b.get(name)->0);
                }
            }
        },
        _ => {},
    }
}

/// What resembles a document that was put in order resembles the document.
pub proof fn an_ordered_document_is_resembled_alike(a: JsonView, b: JsonView)
    requires
        resembles(ordered(a), b),
    ensures
        resembles(a, b),
    decreases a,
{
    match a {
        JsonView::Array(items) => {
            let others = b->Array_0;
            assert(decreases_to!(a => items));
            assert forall|i: int| 0 <= i < items.len() implies resembles(
                #[trigger] items[i],
                others[i],
            ) by {
                assert(ordered(a)->Array_0[i] == ordered(items[i]));
                assert(resembles(ordered(a)->Array_0[i], others[i]));
                assert(decreases_to!(items => items[i]));
                an_ordered_document_is_resembled_alike(items[i], others[i]);
            }
        },
        JsonView::Object(entries) => {
            let others = b->Object_0;
            assert forall|name: Seq<char>|
                #![trigger first_under(others, name)]
                match a.get(name) {
                    Some(member) => first_under(others, name) matches Some(other) && resembles(
                        member,
                        other,
                    ),
                    None => first_under(others, name) is None,
                } by {
                ordering_keeps_the_members(a, name);
                crate::json::lemma_member_is_smaller(a, name);
                assert(match ordered(a).get(name) {
                    Some(member) => first_under(others, name) matches Some(other) && resembles(
                        member,
                        other,
                    ),
                    None => first_under(others, name) is None,
                });
                if let Some(member) = a.get(name) {
                    an_ordered_document_is_resembled_alike(member, first_under(others, name)->0);
                }
            }
        },
        _ => {},
    }
}

/// Putting a document in order makes it nest no deeper.
pub proof fn ordering_nests_no_deeper(value: JsonView, room: nat)
    requires
        nests(value, room),
    ensures
        nests(ordered(value), room),
    decreases room,
{
    match value {
        JsonView::Array(items) => {
            let after = ordered(value)->Array_0;
            assert forall|i: int| 0 <= i < after.len() implies nests(
                #[trigger] after[i],
                (room - 1) as nat,
            ) by {
                assert(nests(items[i], (room - 1) as nat));
                ordering_nests_no_deeper(items[i], (room - 1) as nat);
            }
        },
        JsonView::Object(entries) => {
            let members = ordered_members(entries);
            let after = sorted(members);
            sorting_keeps_the_members(members);
            assert forall|i: int| 0 <= i < after.len() implies nests(
                (#[trigger] after[i]).1,
                (room - 1) as nat,
            ) by {
                assert(after.contains(after[i]));
                assert(members.contains(after[i]));
                let k = choose|k: int| 0 <= k < members.len() && members[k] == after[i];
                assert(nests(entries[k].1, (room - 1) as nat));
                ordering_nests_no_deeper(entries[k].1, (room - 1) as nat);
            }
        },
        _ => {},
    }
}

proof fn lemma_members_are_writable(entries: Seq<(Seq<char>, JsonView)>, k: int)
    requires
        writable(JsonView::Object(entries)),
        0 <= k < entries.len(),
    ensures
        writable(entries[k].1),
{
    let value = JsonView::Object(entries);
    if let JsonView::Object(members) = value {
        assert(writable(members[k].1));
    }
}

/// A document can be written if and only if it can be once it is put in order.
pub proof fn ordering_keeps_what_can_be_written(value: JsonView)
    ensures
        writable(ordered(value)) == writable(value),
    decreases value,
{
    match value {
        JsonView::Array(items) => {
            let after = ordered(value)->Array_0;
            assert(decreases_to!(value => items));
            assert forall|i: int| 0 <= i < items.len() implies writable(#[trigger] after[i])
                == writable(items[i]) by {
                assert(decreases_to!(items => items[i]));
                ordering_keeps_what_can_be_written(items[i]);
            }
            if writable(ordered(value)) {
                assert forall|i: int| 0 <= i < items.len() implies writable(#[trigger] items[i]) by {
                    assert(writable(after[i]));
                }
            }
        },
        JsonView::Object(entries) => {
            let members = ordered_members(entries);
            let after = sorted(members);
            sorting_keeps_the_members(members);
            assert(decreases_to!(value => entries));
            assert forall|i: int| 0 <= i < entries.len() implies writable(
                (#[trigger] members[i]).1,
            ) == writable(entries[i].1) by {
                assert(decreases_to!(entries => entries[i]));
                assert(decreases_to!(entries[i] => entries[i].1));
                ordering_keeps_what_can_be_written(entries[i].1);
            }
            if writable(value) {
                assert forall|i: int| 0 <= i < after.len() implies writable(
                    (#[trigger] after[i]).1,
                ) by {
                    assert(after.contains(after[i]));
                    assert(members.contains(after[i]));
                    let k = choose|k: int| 0 <= k < members.len() && members[k] == after[i];
                    assert(writable(entries[k].1));
                }
            }
            if writable(ordered(value)) {
                assert(ordered(value) == JsonView::Object(after));
                assert forall|i: int| 0 <= i < entries.len() implies writable(
                    (#[trigger] entries[i]).1,
                ) by {
                    assert(members.contains(members[i]));
                    assert(after.contains(members[i]));
                    let k = choose|k: int| 0 <= k < after.len() && after[k] == members[i];
                    lemma_members_are_writable(after, k);
                }
            }
        },
        _ => {},
    }
}

proof fn lemma_placed_views(
    entries: Seq<(String, Json)>,
    entry: (String, Json),
    name: Seq<char>,
)
    ensures
        entry_views(
            placed(entries, entry, |known: (String, Json)| precedes(name, known.0@)),
        ) == placed(
            entry_views(entries),
            (entry.0@, entry.1@),
            |known: (Seq<char>, JsonView)| precedes(name, known.0),
        ),
    decreases entries.len(),
{
    let behind = |known: (String, Json)| precedes(name, known.0@);
    let shown = |known: (Seq<char>, JsonView)| precedes(name, known.0);
    lemma_first_behind(entries, name);
    match first_where(entries, behind) {
        Some(at) => {
            crate::search::lemma_first_where_found(entries, behind);
            assert(entry_views(entries.insert(at, entry)) =~= entry_views(entries).insert(
                at,
                (entry.0@, entry.1@),
            ));
        },
        None => {
            assert(entry_views(entries.push(entry)) =~= entry_views(entries).push(
                (entry.0@, entry.1@),
            ));
        },
    }
}

proof fn lemma_first_behind(entries: Seq<(String, Json)>, name: Seq<char>)
    ensures
        first_where(entries, |known: (String, Json)| precedes(name, known.0@)) == first_where(
            entry_views(entries),
            |known: (Seq<char>, JsonView)| precedes(name, known.0),
        ),
    decreases entries.len(),
{
    if entries.len() > 0 {
        assert(entry_views(entries)[0] == (entries[0].0@, entries[0].1@));
        assert(entry_views(entries).drop_first() =~= entry_views(entries.drop_first()));
        lemma_first_behind(entries.drop_first(), name);
    }
}

/// Puts the members in the order of their names.
pub fn sort_members(entries: Vec<(String, Json)>) -> (r: Vec<(String, Json)>)
    ensures
        entry_views(r@) == sorted(entry_views(entries@)),
{
    let mut left = entries;
    let ghost all = entry_views(entries@);
    let mut out: Vec<(String, Json)> = Vec::new();
    let ghost mut done: int = 0;
    assert(entry_views(out@) =~= sorted(all.take(0)));
    while left.len() > 0
        invariant
            0 <= done <= all.len(),
            entry_views(left@) == all.skip(done),
            entry_views(out@) == sorted(all.take(done)),
        decreases left@.len(),
    {
        let ghost held = left@;
        let entry = left.remove(0);
        proof {
            assert(entry_views(held).len() == all.skip(done).len());
            assert(entry_views(held)[0] == (entry.0@, entry.1@));
            assert(all.skip(done)[0] == all[done]);
            assert(all.take(done + 1).drop_last() =~= all.take(done));
            assert(all.take(done + 1).last() == (entry.0@, entry.1@));
            assert(entry_views(left@) =~= all.skip(done).drop_first());
            assert(all.skip(done).drop_first() =~= all.skip(done + 1));
            lemma_placed_views(out@, entry, entry.0@);
        }
        let name = entry.0.clone();
        let behind = |known: &(String, Json)| -> (b: bool)
            ensures
                b == precedes(name@, known.0@),
        { text_precedes(name.as_str(), known.0.as_str()) };
        place_where(
            &mut out,
            entry,
            behind,
            Ghost(|known: (String, Json)| precedes(entry.0@, known.0@)),
        );
        proof {
            done = done + 1;
        }
    }
    assert(all.take(done) =~= all);
    out
}

/// The document with the members of each object in the order of their names.
pub fn in_order(json: &Json) -> (r: Json)
    ensures
        r@ == ordered(json@),
    decreases json@,
{
    match json {
        Json::Array(items) => {
            let ghost all = views(items@);
            assert(json@->Array_0 =~= all);
            let mut out: Vec<Json> = Vec::new();
            let mut i: usize = 0;
            while i < items.len()
                invariant
                    i <= items@.len(),
                    all == views(items@),
                    json@ == JsonView::Array(all),
                    out@.len() == i,
                    forall|k: int| 0 <= k < i ==> (#[trigger] out@[k])@ == ordered(all[k]),
                decreases items@.len() - i,
            {
                assert(all[i as int] == items@[i as int]@);
                assert(decreases_to!(json@ => json@->Array_0));
                assert(decreases_to!(all => all[i as int]));
                out.push(in_order(&items[i]));
                i += 1;
            }
            assert(json_view(Json::Array(out))->Array_0 =~= ordered(json@)->Array_0);
            Json::Array(out)
        },
        Json::Object(entries) => {
            proof {
                lemma_object_view(*entries);
            }
            let ghost all = entry_views(entries@);
            let mut out: Vec<(String, Json)> = Vec::new();
            let mut i: usize = 0;
            while i < entries.len()
                invariant
                    i <= entries@.len(),
                    all == entry_views(entries@),
                    json@ == JsonView::Object(all),
                    out@.len() == i,
                    forall|k: int|
                        0 <= k < i ==> (#[trigger] out@[k]).0@ == all[k].0 && out@[k].1@ == ordered(
                            all[k].1,
                        ),
                decreases entries@.len() - i,
            {
                assert(all[i as int] == (entries@[i as int].0@, entries@[i as int].1@));
                assert(decreases_to!(json@ => json@->Object_0));
                assert(decreases_to!(all => all[i as int]));
                assert(decreases_to!(all[i as int] => all[i as int].1));
                out.push((entries[i].0.clone(), in_order(&entries[i].1)));
                i += 1;
            }
            assert(entry_views(out@) =~= ordered_members(all));
            let members = sort_members(out);
            proof {
                lemma_object_view(members);
            }
            Json::Object(members)
        },
        _ => json.clone(),
    }
}

} // verus!
