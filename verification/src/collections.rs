//! Small collections keyed by text.

use crate::search::{first_where, lemma_first_where_found, position_where, retain_where};
use crate::text::same_text;
use vstd::prelude::*;
use vstd::string::*;

verus! {

/// What the texts hold.
pub open spec fn text_views(texts: Seq<String>) -> Seq<Seq<char>> {
    texts.map_values(|text: String| text@)
}

/// Adding a text adds what it holds.
pub proof fn lemma_pushed_text(texts: Seq<String>, text: String)
    ensures
        text_views(texts.push(text)) == text_views(texts).push(text@),
{
    assert(text_views(texts.push(text)) =~= text_views(texts).push(text@));
}

/// `texts` with `text` among them.
pub open spec fn with_text(texts: Seq<Seq<char>>, text: Seq<char>) -> Seq<Seq<char>> {
    if texts.contains(text) {
        texts
    } else {
        texts.push(text)
    }
}

/// `texts` without `text`.
pub open spec fn without_text(texts: Seq<Seq<char>>, text: Seq<char>) -> Seq<Seq<char>> {
    texts.filter(|t: Seq<char>| t != text)
}

/// Whether one of the texts holds the same as `text`.
pub fn has_text(texts: &Vec<String>, text: &str) -> (r: bool)
    ensures
        r == text_views(texts@).contains(text@),
{
    let ghost all = text_views(texts@);
    let mut i: usize = 0;
    while i < texts.len()
        invariant
            i <= texts@.len(),
            all == text_views(texts@),
            forall|k: int| 0 <= k < i ==> #[trigger] all[k] != text@,
        decreases texts@.len() - i,
    {
        if same_text(texts[i].as_str(), text) {
            assert(all[i as int] == text@);
            return true;
        }
        i += 1;
    }
    false
}

spec fn other_than(text: Seq<char>) -> spec_fn(String) -> bool {
    |t: String| t@ != text
}

proof fn lemma_text_filter(texts: Seq<String>, text: Seq<char>)
    ensures
        text_views(texts.filter(other_than(text))) == without_text(text_views(texts), text),
    decreases texts.len(),
{
    reveal(Seq::filter);
    if texts.len() > 0 {
        lemma_text_filter(texts.drop_last(), text);
        assert(text_views(texts).drop_last() =~= text_views(texts.drop_last()));
        assert(text_views(texts).last() == texts.last()@);
        let rest = texts.drop_last().filter(other_than(text));
        lemma_pushed_text(rest, texts.last());
    } else {
        assert(text_views(texts) =~= Seq::<Seq<char>>::empty());
    }
}

/// A set of texts, in the order in which they were added.
pub struct TextSet {
    items: Vec<String>,
}

impl View for TextSet {
    type V = Seq<Seq<char>>;

    closed spec fn view(&self) -> Seq<Seq<char>> {
        text_views(self.items@)
    }
}

impl TextSet {
    /// The set of nothing.
    pub fn new() -> (r: TextSet)
        ensures
            r@ == Seq::<Seq<char>>::empty(),
    {
        let r = TextSet { items: Vec::new() };
        assert(r@ =~= Seq::<Seq<char>>::empty());
        r
    }

    /// Whether the text is in the set.
    pub fn contains(&self, text: &str) -> (r: bool)
        ensures
            r == self@.contains(text@),
    {
        has_text(&self.items, text)
    }

    /// Adds the text; says whether it was not in the set.
    pub fn insert(&mut self, text: &str) -> (added: bool)
        ensures
            added == !old(self)@.contains(text@),
            final(self)@ == with_text(old(self)@, text@),
    {
        if self.contains(text) {
            return false;
        }
        let copy = text.to_owned();
        proof {
            lemma_pushed_text(self.items@, copy);
        }
        self.items.push(copy);
        true
    }

    /// Removes the text; says whether it was in the set.
    pub fn remove(&mut self, text: &str) -> (removed: bool)
        ensures
            removed == old(self)@.contains(text@),
            final(self)@ == without_text(old(self)@, text@),
    {
        let found = self.contains(text);
        let ghost before = self.items@;
        let keep = |item: &String| -> (b: bool)
            ensures
                b == (item@ != text@),
        { !same_text(item.as_str(), text) };
        retain_where(&mut self.items, keep, Ghost(other_than(text@)));
        proof {
            lemma_text_filter(before, text@);
        }
        found
    }

    /// The texts, in the order in which they were added.
    pub fn to_vec(&self) -> (r: Vec<String>)
        ensures
            text_views(r@) == self@,
    {
        let mut out: Vec<String> = Vec::new();
        let mut i: usize = 0;
        while i < self.items.len()
            invariant
                i <= self.items@.len(),
                out@ == self.items@.take(i as int),
            decreases self.items@.len() - i,
        {
            out.push(self.items[i].clone());
            i += 1;
        }
        assert(out@ =~= self.items@);
        out
    }

    /// Whether the set is empty.
    pub fn is_empty(&self) -> (r: bool)
        ensures
            r == (self@.len() == 0),
    {
        self.items.len() == 0
    }
}

spec fn entry_map<V>(entries: Seq<(String, V)>) -> Map<Seq<char>, V>
    decreases entries.len(),
{
    if entries.len() == 0 {
        Map::empty()
    } else {
        entry_map(entries.drop_first()).insert(entries[0].0@, entries[0].1)
    }
}

spec fn under<V>(key: Seq<char>) -> spec_fn((String, V)) -> bool {
    |entry: (String, V)| entry.0@ == key
}

spec fn not_under<V>(key: Seq<char>) -> spec_fn((String, V)) -> bool {
    |entry: (String, V)| entry.0@ != key
}

proof fn lemma_entry_map<V>(entries: Seq<(String, V)>, key: Seq<char>)
    ensures
        entry_map(entries).dom().contains(key) <==> first_where(entries, under(key)) is Some,
        first_where(entries, under(key)) matches Some(at) ==> 0 <= at < entries.len() && entry_map(
            entries,
        )[key] == entries[at].1,
    decreases entries.len(),
{
    if entries.len() > 0 && entries[0].0@ != key {
        lemma_entry_map(entries.drop_first(), key);
    }
}

proof fn lemma_entry_update<V>(
    entries: Seq<(String, V)>,
    at: int,
    key: Seq<char>,
    entry: (String, V),
)
    requires
        0 <= at < entries.len(),
        first_where(entries, under(key)) == Some(at),
        entry.0@ == key,
    ensures
        entry_map(entries.update(at, entry)) == entry_map(entries).insert(key, entry.1),
    decreases entries.len(),
{
    lemma_first_where_found(entries, under(key));
    let after = entries.update(at, entry);
    if at == 0 {
        assert(after.drop_first() =~= entries.drop_first());
    } else {
        assert(!under::<V>(key)(entries[0]));
        lemma_entry_update(entries.drop_first(), at - 1, key, entry);
        assert(after.drop_first() =~= entries.drop_first().update(at - 1, entry));
    }
    assert(entry_map(after) =~= entry_map(entries).insert(key, entry.1));
}

proof fn lemma_entry_push<V>(entries: Seq<(String, V)>, entry: (String, V))
    requires
        first_where(entries, under(entry.0@)) is None,
    ensures
        entry_map(entries.push(entry)) == entry_map(entries).insert(entry.0@, entry.1),
    decreases entries.len(),
{
    let after = entries.push(entry);
    if entries.len() == 0 {
        assert(after.drop_first() =~= entries);
    } else {
        assert(!under::<V>(entry.0@)(entries[0]));
        assert(first_where(entries.drop_first(), under(entry.0@)) is None);
        lemma_entry_push(entries.drop_first(), entry);
        assert(after.drop_first() =~= entries.drop_first().push(entry));
        assert(after[0] == entries[0]);
    }
    assert(entry_map(after) =~= entry_map(entries).insert(entry.0@, entry.1));
}

proof fn lemma_entry_filter<V>(entries: Seq<(String, V)>, key: Seq<char>)
    ensures
        entry_map(entries.filter(not_under(key))) == entry_map(entries).remove(key),
    decreases entries.len(),
{
    let keep = not_under::<V>(key);
    reveal(Seq::filter);
    if entries.len() == 0 {
        assert(entry_map(entries) =~= entry_map(entries).remove(key));
    } else {
        let head = seq![entries[0]];
        let tail = entries.drop_first();
        lemma_entry_filter(tail, key);
        Seq::filter_distributes_over_add(head, tail, keep);
        assert(entries =~= head + tail);
        assert(head.drop_last() =~= Seq::<(String, V)>::empty());
        assert(Seq::<(String, V)>::empty().filter(keep) =~= Seq::<(String, V)>::empty());
        if keep(entries[0]) {
            assert(head.filter(keep) =~= head);
            assert(entries.filter(keep)[0] == entries[0]);
            assert(entries.filter(keep).drop_first() =~= tail.filter(keep));
        } else {
            assert(head.filter(keep) =~= Seq::<(String, V)>::empty());
            assert(entries.filter(keep) =~= tail.filter(keep));
        }
        assert(entry_map(entries.filter(keep)) =~= entry_map(entries).remove(key));
    }
}

/// A map from texts to values.
pub struct KeyedList<V> {
    entries: Vec<(String, V)>,
}

impl<V> View for KeyedList<V> {
    type V = Map<Seq<char>, V>;

    closed spec fn view(&self) -> Map<Seq<char>, V> {
        entry_map(self.entries@)
    }
}

impl<V> KeyedList<V> {
    /// The map of nothing.
    pub fn new() -> (r: KeyedList<V>)
        ensures
            r@ == Map::<Seq<char>, V>::empty(),
    {
        KeyedList { entries: Vec::new() }
    }

    fn find(&self, key: &str) -> (r: Option<usize>)
        ensures
            match r {
                Some(at) => first_where(self.entries@, under(key@)) == Some(at as int) && at
                    < self.entries@.len(),
                None => first_where(self.entries@, under(key@)) is None,
            },
    {
        let wanted = |entry: &(String, V)| -> (b: bool)
            ensures
                b == (entry.0@ == key@),
        { same_text(entry.0.as_str(), key) };
        position_where(&self.entries, wanted, Ghost(under(key@)))
    }

    /// The value under `key`.
    pub fn get(&self, key: &str) -> (r: Option<&V>)
        ensures
            match r {
                Some(value) => self@.dom().contains(key@) && self@[key@] == *value,
                None => !self@.dom().contains(key@),
            },
    {
        proof {
            lemma_entry_map(self.entries@, key@);
        }
        match self.find(key) {
            Some(at) => Some(&self.entries[at].1),
            None => None,
        }
    }

    /// Puts `value` under `key`, in place of an earlier one.
    pub fn insert(&mut self, key: &str, value: V)
        ensures
            final(self)@ == old(self)@.insert(key@, value),
    {
        let ghost before = self.entries@;
        let entry = (key.to_owned(), value);
        match self.find(key) {
            Some(at) => {
                self.entries.remove(at);
                self.entries.insert(at, entry);
                proof {
                    lemma_entry_update(before, at as int, key@, entry);
                    assert(self.entries@ =~= before.update(at as int, entry));
                }
            },
            None => {
                self.entries.push(entry);
                proof {
                    lemma_entry_push(before, entry);
                }
            },
        }
    }

    /// Forgets what is under `key`.
    pub fn remove(&mut self, key: &str)
        ensures
            final(self)@ == old(self)@.remove(key@),
    {
        let ghost before = self.entries@;
        let keep = |entry: &(String, V)| -> (b: bool)
            ensures
                b == (entry.0@ != key@),
        { !same_text(entry.0.as_str(), key) };
        retain_where(&mut self.entries, keep, Ghost(not_under(key@)));
        proof {
            lemma_entry_filter(before, key@);
        }
    }

    /// How many positions there are to look at with `key`.
    pub fn len(&self) -> (r: usize)
        ensures
            r == self.spec_len(),
            r == 0 <==> self@.dom() =~= Set::<Seq<char>>::empty(),
    {
        proof {
            if self.entries@.len() > 0 {
                assert(self@.dom().contains(self.entries@[0].0@));
            }
        }
        self.entries.len()
    }

    pub closed spec fn spec_len(&self) -> nat {
        self.entries@.len()
    }

    /// The key at a position.
    pub closed spec fn key_at(&self, i: int) -> Seq<char> {
        self.entries@[i].0@
    }

    /// The key at a position. Every key has a position.
    pub fn key(&self, i: usize) -> (r: &str)
        requires
            i < self.spec_len(),
        ensures
            r@ == self.key_at(i as int),
            self@.dom().contains(r@),
    {
        proof {
            self.lemma_positions_have_keys(i as int);
        }
        self.entries[i].0.as_str()
    }

    /// What stands at a position is a key.
    pub proof fn lemma_positions_have_keys(&self, i: int)
        requires
            0 <= i < self.spec_len(),
        ensures
            self@.dom().contains(self.key_at(i)),
    {
        let key = self.entries@[i].0@;
        lemma_entry_map(self.entries@, key);
        lemma_first_where_found(self.entries@, under(key));
        assert(under::<V>(key)(self.entries@[i]));
    }

    /// Every key has a position.
    pub proof fn lemma_keys_have_positions(&self, key: Seq<char>)
        requires
            self@.dom().contains(key),
        ensures
            exists|i: int| 0 <= i < self.spec_len() && #[trigger] self.key_at(i) == key,
    {
        lemma_entry_map(self.entries@, key);
        lemma_first_where_found(self.entries@, under(key));
        let at = first_where(self.entries@, under(key))->0;
        assert(self.key_at(at) == key);
    }
}

/// What a map from texts to texts holds.
pub open spec fn text_values(map: Map<Seq<char>, String>) -> Map<Seq<char>, Seq<char>> {
    map.map_values(|text: String| text@)
}

/// A map from texts to texts.
pub struct TextMap {
    inner: KeyedList<String>,
}

impl View for TextMap {
    type V = Map<Seq<char>, Seq<char>>;

    closed spec fn view(&self) -> Map<Seq<char>, Seq<char>> {
        text_values(self.inner@)
    }
}

impl TextMap {
    /// The map of nothing.
    pub fn new() -> (r: TextMap)
        ensures
            r@ == Map::<Seq<char>, Seq<char>>::empty(),
    {
        let r = TextMap { inner: KeyedList::new() };
        assert(r@ =~= Map::<Seq<char>, Seq<char>>::empty());
        r
    }

    /// The text under `key`.
    pub fn get(&self, key: &str) -> (r: Option<&str>)
        ensures
            match r {
                Some(value) => self@.dom().contains(key@) && self@[key@] == value@,
                None => !self@.dom().contains(key@),
            },
    {
        match self.inner.get(key) {
            Some(value) => Some(value.as_str()),
            None => None,
        }
    }

    /// Puts `value` under `key`, in place of an earlier one.
    pub fn insert(&mut self, key: &str, value: &str)
        ensures
            final(self)@ == old(self)@.insert(key@, value@),
    {
        let ghost before = self.inner@;
        let copy = value.to_owned();
        self.inner.insert(key, copy);
        assert(text_values(self.inner@) =~= text_values(before).insert(key@, value@));
    }

    /// Forgets what is under `key`.
    pub fn remove(&mut self, key: &str)
        ensures
            final(self)@ == old(self)@.remove(key@),
    {
        let ghost before = self.inner@;
        self.inner.remove(key);
        assert(text_values(self.inner@) =~= text_values(before).remove(key@));
    }
}

/// Without a text, exactly the others are left.
pub proof fn removing_a_text_keeps_the_others(texts: Seq<Seq<char>>, text: Seq<char>, other: Seq<char>)
    ensures
        !without_text(texts, text).contains(text),
        other != text ==> (without_text(texts, text).contains(other) <==> texts.contains(other)),
    decreases texts.len(),
{
    reveal(Seq::filter);
    if texts.len() > 0 {
        let rest = texts.drop_last();
        removing_a_text_keeps_the_others(rest, text, other);
        let before = without_text(rest, text);
        let after = without_text(texts, text);
        assert(texts =~= rest.push(texts.last()));
        if texts.last() == text {
            assert(after == before);
        } else {
            assert(after == before.push(texts.last()));
            assert(after[before.len() as int] == texts.last());
        }
        if before.contains(other) {
            let k = choose|k: int| 0 <= k < before.len() && before[k] == other;
            assert(after[k] == other);
        }
        if after.contains(other) && texts.last() != other {
            let k = choose|k: int| 0 <= k < after.len() && after[k] == other;
            assert(before[k] == other);
        }
        if after.contains(text) {
            let k = choose|k: int| 0 <= k < after.len() && after[k] == text;
            assert(before[k] == text);
        }
        if rest.contains(other) {
            let k = choose|k: int| 0 <= k < rest.len() && rest[k] == other;
            assert(texts[k] == other);
        }
        if texts.contains(other) && texts.last() != other {
            let k = choose|k: int| 0 <= k < texts.len() && texts[k] == other;
            assert(rest[k] == other);
        }
        if texts.last() == other {
            assert(texts[texts.len() - 1] == other);
        }
    }
}

/// With a text more, the text and what was there are there, and nothing else.
pub proof fn adding_a_text_keeps_the_others(texts: Seq<Seq<char>>, text: Seq<char>, other: Seq<char>)
    ensures
        with_text(texts, text).contains(other) <==> texts.contains(other) || other == text,
        texts.no_duplicates() ==> with_text(texts, text).no_duplicates(),
{
    let after = texts.push(text);
    assert(after[texts.len() as int] == text);
    if texts.contains(other) {
        let k = choose|k: int| 0 <= k < texts.len() && texts[k] == other;
        assert(after[k] == other);
    }
    if after.contains(other) && other != text {
        let k = choose|k: int| 0 <= k < after.len() && after[k] == other;
        assert(texts[k] == other);
    }
}

} // verus!
