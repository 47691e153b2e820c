//! What reading members, trimming, splitting and counting in texts comes to, stated on the
//! characters and the members themselves.

use crate::json::{first_under, JsonView};
use crate::members::{
    integer, optional_integer, optional_text, optional_whole, truth, variant_name, whole_within,
};
use crate::text::{
    decimal, digit, digits_value, ends_with, lower, lowercase, precedes, replaced, signed_decimal,
    spaced, split_on, trimmed, unsigned_value, white_space, without_leading, without_trailing, words,
};
use vstd::prelude::*;

verus! {

/// A member is looked up by its name alone: the first under that name is found, and where there is
/// none, or no object, nothing is.
pub proof fn the_first_member_of_a_name_is_found(
    entries: Seq<(Seq<char>, JsonView)>,
    key: Seq<char>,
    at: int,
)
    requires
        0 <= at <= entries.len(),
        forall|i: int| 0 <= i < at ==> (#[trigger] entries[i]).0 != key,
        at < entries.len() ==> entries[at].0 == key,
    ensures
        at < entries.len() ==> JsonView::Object(entries).get(key) == Some(entries[at].1),
        at == entries.len() ==> JsonView::Object(entries).get(key) is None,
    decreases entries.len(),
{
    if entries.len() > 0 && at > 0 {
        assert(entries[0].0 != key);
        the_first_member_of_a_name_is_found(entries.drop_first(), key, at - 1);
        assert(first_under(entries, key) == first_under(entries.drop_first(), key));
    }
}

/// What is no object has no members, whatever they are named.
pub proof fn only_objects_have_members(value: JsonView, key: Seq<char>)
    requires
        !(value is Object),
    ensures
        value.get(key) is None,
{
}

/// A record is read by the place of a field where it is an array, and by the field's name where it
/// is an object.
pub proof fn records_are_read_by_place_or_by_name(value: JsonView, name: Seq<char>, place: int)
    ensures
        ({
            &&& value matches JsonView::Array(items) ==> (if 0 <= place < items.len() {
                value.field(name, place) == Some(items[place])
            } else {
                value.field(name, place) is None
            })
            &&& value is Object ==> value.field(name, place) == value.get(name)
            &&& !(value is Object) && !(value is Array) ==> value.field(name, place) is None
        }),
{
}

/// A number is read as a signed one up to the greatest of those, and as an unsigned one where it is
/// not negative; nothing else is read as a number, and only a text as a text.
pub proof fn numbers_and_texts_are_read_as_what_they_are(value: JsonView, n: u64, m: i64, s: Seq<char>)
    ensures
        JsonView::Unsigned(n).unsigned() == Some(n),
        n <= 0x7fff_ffff_ffff_ffff ==> JsonView::Unsigned(n).signed() is Some
            && JsonView::Unsigned(n).signed()->0 == n,
        n > 0x7fff_ffff_ffff_ffff ==> JsonView::Unsigned(n).signed() is None,
        JsonView::Negative(m).signed() == Some(m),
        JsonView::Negative(m).unsigned() is None,
        JsonView::Text(s).text() == Some(s),
        !(value is Unsigned) ==> value.unsigned() is None,
        !(value is Unsigned) && !(value is Negative) ==> value.signed() is None,
        !(value is Text) ==> value.text() is None,
        !(value is Array) ==> value.items() is None,
{
}

/// A whole number is read where it is one and no greater than the limit; one that may be absent may
/// also be null. Anything else cannot be read.
pub proof fn whole_numbers_are_read_within_their_limit(value: JsonView, limit: u64, n: u64)
    ensures
        n <= limit ==> whole_within(Some(JsonView::Unsigned(n)), limit) == Some(n),
        n > limit ==> whole_within(Some(JsonView::Unsigned(n)), limit) is None,
        !(value is Unsigned) ==> whole_within(Some(value), limit) is None,
        whole_within(None, limit) is None,
        n <= limit ==> optional_whole(Some(JsonView::Unsigned(n)), limit) == Some(Some(n)),
        n > limit ==> optional_whole(Some(JsonView::Unsigned(n)), limit) is None,
        optional_whole(None, limit) == Some(None::<u64>),
        optional_whole(Some(JsonView::Null), limit) == Some(None::<u64>),
        !(value is Unsigned) && !(value is Null) ==> optional_whole(Some(value), limit) is None,
{
}

/// Integers, texts and truths are read where they are such; those that may be absent may also be
/// null. Anything else cannot be read.
pub proof fn optional_members_may_be_null(value: JsonView, m: i64, s: Seq<char>, b: bool)
    ensures
        integer(Some(JsonView::Negative(m))) == Some(m),
        integer(None) is None,
        integer(Some(JsonView::Null)) is None,
        optional_integer(None) == Some(None::<i64>),
        optional_integer(Some(JsonView::Null)) == Some(None::<i64>),
        optional_integer(Some(JsonView::Negative(m))) == Some(Some(m)),
        !(value is Unsigned) && !(value is Negative) && !(value is Null) ==> optional_integer(
            Some(value),
        ) is None,
        optional_text(None) == Some(None::<Seq<char>>),
        optional_text(Some(JsonView::Null)) == Some(None::<Seq<char>>),
        optional_text(Some(JsonView::Text(s))) == Some(Some(s)),
        !(value is Text) && !(value is Null) ==> optional_text(Some(value)) is None,
        truth(Some(JsonView::Bool(b))) == Some(b),
        !(value is Bool) ==> truth(Some(value)) is None,
        truth(None) is None,
{
}

/// A variant is named by a text, or by the one member of an object that holds nothing else.
pub proof fn variants_are_named_in_two_ways(value: JsonView, name: Seq<char>)
    ensures
        variant_name(Some(JsonView::Text(name))) == Some(name),
        variant_name(Some(JsonView::Object(seq![(name, JsonView::Null)]))) == Some(name),
        variant_name(None) is None,
        !(value is Text) && !(value is Object) ==> variant_name(Some(value)) is None,
        value matches JsonView::Object(entries) ==> entries.len() != 1 ==> variant_name(
            Some(value),
        ) is None,
{
}

/// White space is what Unicode calls so.
pub proof fn white_space_is_known_by_its_number(c: char)
    ensures
        ({
            let n = c as u32;
            white_space(c) <==> (9 <= n <= 13 || n == 32 || n == 133 || n == 160 || n == 5760
                || 8192 <= n <= 8202 || n == 8232 || n == 8233 || n == 8239 || n == 8287 || n
                == 12288)
        }),
{
}

proof fn lemma_without_leading(s: Seq<char>, strip: spec_fn(char) -> bool)
    ensures
        ({
            let rest = without_leading(s, strip);
            &&& rest.len() <= s.len()
            &&& s.skip(s.len() - rest.len()) == rest
            &&& forall|i: int| 0 <= i < s.len() - rest.len() ==> strip(#[trigger] s[i])
            &&& rest.len() > 0 ==> !strip(rest[0])
        }),
    decreases s.len(),
{
    if s.len() > 0 && strip(s[0]) {
        let tail = s.drop_first();
        lemma_without_leading(tail, strip);
        let rest = without_leading(tail, strip);
        assert(s.skip(s.len() - rest.len()) == tail.skip(tail.len() - rest.len()));
        assert forall|i: int| 0 <= i < s.len() - rest.len() implies strip(#[trigger] s[i]) by {
            if i > 0 {
                assert(tail[i - 1] == s[i]);
            }
        }
    } else {
        assert(s.skip(0) == s);
    }
}

proof fn lemma_without_trailing(s: Seq<char>, strip: spec_fn(char) -> bool)
    ensures
        ({
            let rest = without_trailing(s, strip);
            &&& rest.len() <= s.len()
            &&& s.take(rest.len() as int) == rest
            &&& forall|i: int| rest.len() <= i < s.len() ==> strip(#[trigger] s[i])
            &&& rest.len() > 0 ==> !strip(rest.last())
        }),
    decreases s.len(),
{
    if s.len() > 0 && strip(s.last()) {
        let head = s.drop_last();
        lemma_without_trailing(head, strip);
        let rest = without_trailing(head, strip);
        assert(s.take(rest.len() as int) == head.take(rest.len() as int));
        assert forall|i: int| rest.len() <= i < s.len() implies strip(#[trigger] s[i]) by {
            if i < s.len() - 1 {
                assert(head[i] == s[i]);
            }
        }
    } else {
        assert(s.take(s.len() as int) == s);
    }
}

/// Trimming takes the white space at both ends and nothing else: what is left is the stretch of the
/// text between two places, all before and behind it is white space, and it neither begins nor ends
/// with any.
pub proof fn trimming_takes_the_white_space_at_both_ends(s: Seq<char>) -> (ends: (int, int))
    ensures
        0 <= ends.0 <= ends.1 <= s.len(),
        trimmed(s) == s.subrange(ends.0, ends.1),
        forall|i: int| 0 <= i < ends.0 ==> white_space(#[trigger] s[i]),
        forall|i: int| ends.1 <= i < s.len() ==> white_space(#[trigger] s[i]),
        ends.0 < ends.1 ==> !white_space(s[ends.0]) && !white_space(s[ends.1 - 1]),
{
    let strip = |c: char| white_space(c);
    lemma_without_leading(s, strip);
    let middle = without_leading(s, strip);
    lemma_without_trailing(middle, strip);
    let start = s.len() - middle.len();
    let end = start + trimmed(s).len();
    assert forall|i: int| end <= i < s.len() implies white_space(#[trigger] s[i]) by {
        assert(s[i] == middle[i - start]);
        assert(strip(middle[i - start]));
    }
    assert forall|i: int| 0 <= i < start implies white_space(#[trigger] s[i]) by {
        assert(strip(s[i]));
    }
    assert(trimmed(s) == s.subrange(start, end)) by {
        assert(trimmed(s) == middle.take(trimmed(s).len() as int));
    }
    (start, end)
}

/// A text in small letters has the same characters, but for the capitals of the Latin alphabet.
pub proof fn small_letters_stand_for_capitals(s: Seq<char>, i: int)
    requires
        0 <= i < s.len(),
    ensures
        ({
            let n = s[i] as u32;
            &&& lowercase(s).len() == s.len()
            &&& 65 <= n <= 90 ==> lowercase(s)[i] as u32 == n + 32
            &&& !(65 <= n <= 90) ==> lowercase(s)[i] == s[i]
        }),
{
    assert(lowercase(s)[i] == lower(s[i]));
}

/// Replacing a character changes it wherever it stands, and no other.
pub proof fn a_replaced_character_is_gone(s: Seq<char>, from: char, to: char, i: int)
    requires
        0 <= i < s.len(),
    ensures
        replaced(s, from, to).len() == s.len(),
        s[i] == from ==> replaced(s, from, to)[i] == to,
        s[i] != from ==> replaced(s, from, to)[i] == s[i],
{
}

/// A text ends with another exactly where it is something followed by that.
pub proof fn what_ends_with_a_text_has_it_last(s: Seq<char>, head: Seq<char>, suffix: Seq<char>)
    ensures
        ends_with(head + suffix, suffix),
        ends_with(s, suffix) ==> s == s.take(s.len() - suffix.len()) + suffix,
        suffix.len() > s.len() ==> !ends_with(s, suffix),
{
    let whole = head + suffix;
    assert(whole.skip(whole.len() - suffix.len()) == suffix);
    if ends_with(s, suffix) {
        assert(s == s.take(s.len() - suffix.len()) + s.skip(s.len() - suffix.len()));
    }
}

/// A number written in digits is read back as that number, is made of digits alone and begins with
/// a zero only where it is zero; a negative one has a minus sign in front.
pub proof fn numbers_in_digits_are_read_back(n: nat)
    ensures
        digits_value(decimal(n)) == Some(n),
        decimal(n).len() > 0,
        forall|i: int| 0 <= i < decimal(n).len() ==> '0' <= #[trigger] decimal(n)[i] <= '9',
        n > 0 ==> decimal(n)[0] != '0',
        n == 0 ==> decimal(n) == seq!['0'],
        signed_decimal(n as int) == decimal(n),
        n > 0 ==> signed_decimal(-(n as int)) == seq!['-'] + decimal(n),
    decreases n,
{
    if n < 10 {
        let s = decimal(n);
        assert(s.drop_last() == Seq::<char>::empty());
        assert(s.last() == digit(n));
        assert(digits_value(s.drop_last()) == Some(0nat));
    } else {
        let s = decimal(n);
        numbers_in_digits_are_read_back(n / 10);
        assert(s == decimal(n / 10).push(digit(n % 10)));
        assert(s.drop_last() == decimal(n / 10));
        assert(s.last() == digit(n % 10));
        assert forall|i: int| 0 <= i < s.len() implies '0' <= #[trigger] s[i] <= '9' by {
            if i < s.len() - 1 {
                assert(s[i] == decimal(n / 10)[i]);
            }
        }
        assert(s[0] == decimal(n / 10)[0]);
    }
}

/// A further digit makes a number ten times as great and adds itself; a character that is no digit
/// leaves no number.
pub proof fn each_digit_counts_tenfold(s: Seq<char>, c: char)
    ensures
        ({
            let d = c as u32 - 48;
            let longer = digits_value(s.push(c));
            &&& digits_value(Seq::<char>::empty()) == Some(0nat)
            &&& digits_value(s) is Some && 0 <= d <= 9 ==> longer is Some && longer->0
                == digits_value(s)->0 * 10 + d
            &&& digits_value(s) is None || !(0 <= d <= 9) ==> longer is None
        }),
{
    assert(s.push(c).drop_last() == s);
}

/// A whole number is given by digits, of which there is at least one, behind at most one plus sign.
pub proof fn whole_numbers_are_digits_behind_a_sign(s: Seq<char>)
    ensures
        s.len() > 0 && s[0] != '+' ==> unsigned_value(s) == digits_value(s),
        s.len() > 0 ==> unsigned_value(seq!['+'] + s) == digits_value(s),
        unsigned_value(Seq::<char>::empty()) is None,
        unsigned_value(seq!['+']) is None,
{
    assert((seq!['+'] + s).drop_first() == s);
    assert(seq!['+'].drop_first() == Seq::<char>::empty());
}

/// What is split comes back when its pieces are put together: a separator ends a piece and begins a
/// new one, any other character goes on with the last.
pub proof fn a_separator_begins_a_new_piece(s: Seq<char>, separator: char, c: char)
    ensures
        ({
            let before = split_on(s, separator);
            let after = split_on(s.push(c), separator);
            &&& before.len() > 0
            &&& split_on(Seq::<char>::empty(), separator) == seq![Seq::<char>::empty()]
            &&& c == separator ==> after == before.push(Seq::<char>::empty())
            &&& c != separator ==> after.len() == before.len() && after.drop_last()
                == before.drop_last() && after.last() == before.last().push(c)
        }),
    decreases s.len(),
{
    assert(s.push(c).drop_last() == s);
    if s.len() > 0 {
        a_separator_begins_a_new_piece(s.drop_last(), separator, s.last());
        assert(s.drop_last().push(s.last()) == s);
    }
}

/// No piece of what is split holds the separator.
pub proof fn no_piece_holds_the_separator(s: Seq<char>, separator: char, k: int)
    requires
        0 <= k < split_on(s, separator).len(),
    ensures
        !split_on(s, separator)[k].contains(separator),
    decreases s.len(),
{
    if s.len() > 0 {
        let before = split_on(s.drop_last(), separator);
        a_separator_begins_a_new_piece(s.drop_last(), separator, s.last());
        assert(s.drop_last().push(s.last()) == s);
        let after = split_on(s, separator);
        if k < before.len() {
            no_piece_holds_the_separator(s.drop_last(), separator, k);
            if s.last() == separator || k < before.len() - 1 {
                assert(after[k] == before[k]);
            } else {
                assert(after[k] == before[k].push(s.last()));
                if after[k].contains(separator) {
                    let i = choose|i: int| 0 <= i < after[k].len() && after[k][i] == separator;
                    assert(before[k][i] == separator);
                }
            }
        }
    }
}

/// Words are what stands between white space: a word behind white space is a word of its own, and
/// white space ends a word without being one.
pub proof fn words_stand_between_white_space(s: Seq<char>, space: char, word: Seq<char>)
    requires
        white_space(space),
        word.len() > 0,
        forall|i: int| 0 <= i < word.len() ==> !white_space(#[trigger] word[i]),
    ensures
        words(Seq::<char>::empty()).len() == 0,
        words(s.push(space)) == words(s),
        words(s.push(space) + word) == words(s).push(word),
        words(word) == seq![word],
    decreases word.len(),
{
    assert(s.push(space).drop_last() == s);
    let whole = s.push(space) + word;
    assert(whole.drop_last() == s.push(space) + word.drop_last());
    assert(whole.last() == word.last());
    if word.len() == 1 {
        assert(word == seq![word.last()]);
        assert(whole.drop_last() == s.push(space));
        assert(whole[whole.len() - 2] == space);
        assert(whole.len() > 1 && !white_space(whole.last()));
        assert(words(s.push(space)) == words(s));
        assert(words(whole) == words(whole.drop_last()).push(seq![whole.last()]));
        assert(word.drop_last() == Seq::<char>::empty());
        assert(words(word) == words(word.drop_last()).push(seq![word.last()]));
    } else {
        let start = word.drop_last();
        words_stand_between_white_space(s, space, start);
        assert(whole[whole.len() - 2] == word[word.len() - 2]);
        assert(start.push(word.last()) == word);
        let before = words(whole.drop_last());
        assert(before == words(s).push(start));
        assert(words(whole) == before.update(before.len() - 1, before.last().push(word.last())));
        assert(words(whole) == words(s).push(word));
        assert(words(word) == seq![start].update(0, start.push(word.last())));
    }
}

/// Words are put together with one space between each two.
pub proof fn words_are_put_together_with_spaces(before: Seq<Seq<char>>, word: Seq<char>)
    ensures
        spaced(seq![word]) == word,
        before.len() > 0 ==> spaced(before.push(word)) == spaced(before) + seq![' '] + word,
        spaced(Seq::<Seq<char>>::empty()) == Seq::<char>::empty(),
{
    assert(before.push(word).drop_last() == before);
    if before.len() > 0 {
        assert(spaced(before).push(' ') + word == spaced(before) + seq![' '] + word);
    }
}

/// Of two texts the one that is smaller where they first differ comes first, and one that is the
/// beginning of the other comes before it.
pub proof fn the_first_difference_decides(head: Seq<char>, a: char, b: char, s: Seq<char>, t: Seq<char>)
    ensures
        a < b ==> precedes(head + seq![a] + s, head + seq![b] + t),
        a > b ==> !precedes(head + seq![a] + s, head + seq![b] + t),
        precedes(head, head + seq![b] + t),
        !precedes(head + seq![a] + s, head),
    decreases head.len(),
{
    let x = head + seq![a] + s;
    let y = head + seq![b] + t;
    if head.len() > 0 {
        the_first_difference_decides(head.drop_first(), a, b, s, t);
        assert(x.drop_first() == head.drop_first() + seq![a] + s);
        assert(y.drop_first() == head.drop_first() + seq![b] + t);
        assert(x[0] == head[0] && y[0] == head[0]);
    }
}

} // verus!
