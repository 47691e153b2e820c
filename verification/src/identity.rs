//! Who an account belongs to, and what the answers of a server say of threads and turns.

use crate::json::{lemma_member_is_smaller, Json, JsonView};
use crate::model::text_view;
use crate::text::{lowercase, to_lowercase, trim_text, trimmed};
use vstd::prelude::*;
use vstd::string::*;
use vstd::utf8::{encode_utf8, encode_utf8_decode_utf8};

verus! {

/// The SHA-256 digest of some bytes, as `sha2::Sha256` computes it.
pub uninterp spec fn sha256_of(bytes: Seq<u8>) -> Seq<u8>;

/// `sha2::Sha256::digest`: the digest is a function of the bytes alone and has 32 bytes.
#[verifier::external_body]
fn sha256(bytes: &Vec<u8>) -> (r: Vec<u8>)
    ensures
        r@ == sha256_of(bytes@),
        r@.len() == 32,
{
    <sha2::Sha256 as sha2::Digest>::digest(bytes).to_vec()
}

/// The lower-case hexadecimal digit of a value below 16.
pub open spec fn hex_digit(value: u8) -> char {
    if value < 10 {
        ('0' as u8 + value) as char
    } else {
        ('a' as u8 + (value - 10)) as char
    }
}

/// The bytes in lower-case hexadecimal, two digits each.
pub open spec fn hex(bytes: Seq<u8>) -> Seq<char>
    decreases bytes.len(),
{
    if bytes.len() == 0 {
        seq![]
    } else {
        hex(bytes.drop_last()) + seq![
            hex_digit((bytes.last() / 16) as u8),
            hex_digit((bytes.last() % 16) as u8),
        ]
    }
}

fn hex_char(value: u8) -> (r: char)
    requires
        value < 16,
    ensures
        r == hex_digit(value),
{
    if value < 10 {
        (48u8 + value) as char
    } else {
        (97u8 + (value - 10)) as char
    }
}

/// The bytes in lower-case hexadecimal.
pub fn hex_text(bytes: &Vec<u8>) -> (r: String)
    ensures
        r@ == hex(bytes@),
{
    let mut out = "".to_owned();
    proof {
        reveal_strlit("");
        assert(out@ =~= hex(bytes@.take(0)));
    }
    let mut i: usize = 0;
    while i < bytes.len()
        invariant
            i <= bytes@.len(),
            out@ == hex(bytes@.take(i as int)),
        decreases bytes@.len() - i,
    {
        let ghost before = out@;
        out.push(hex_char(bytes[i] / 16));
        out.push(hex_char(bytes[i] % 16));
        proof {
            assert(bytes@.take(i + 1).drop_last() =~= bytes@.take(i as int));
            assert(bytes@.take(i + 1).last() == bytes@[i as int]);
            assert(out@ =~= hex(bytes@.take(i + 1)));
        }
        i += 1;
    }
    assert(bytes@.take(bytes@.len() as int) =~= bytes@);
    out
}

/// What an account key is made of: the home and the identity, with a zero byte between.
pub open spec fn key_material(canonical_home: Seq<char>, identity: Seq<char>) -> Seq<u8> {
    encode_utf8(canonical_home) + seq![0u8] + encode_utf8(identity)
}

/// The key of an account.
pub open spec fn spec_account_key(canonical_home: Seq<char>, identity: Seq<char>) -> Seq<char> {
    hex(sha256_of(key_material(canonical_home, identity)))
}

/// The key of an account: it tells accounts apart and does not show whose they are.
pub fn account_key(canonical_home: &str, identity: &str) -> (r: String)
    ensures
        r@ == spec_account_key(canonical_home@, identity@),
{
    let mut bytes: Vec<u8> = canonical_home.as_bytes_vec();
    bytes.push(0);
    let mut tail: Vec<u8> = identity.as_bytes_vec();
    bytes.append(&mut tail);
    proof {
        assert(bytes@ =~= key_material(canonical_home@, identity@));
    }
    let digest = sha256(&bytes);
    hex_text(&digest)
}

/// The texts of some keys.
pub open spec fn key_texts(keys: Seq<&str>) -> Seq<Seq<char>> {
    keys.map_values(|key: &str| key@)
}

/// The text under the first of the keys that has one.
pub open spec fn first_text(value: JsonView, keys: Seq<Seq<char>>) -> Option<Seq<char>>
    decreases keys.len(),
{
    if keys.len() == 0 {
        None
    } else {
        match member_text(value, keys[0]) {
            Some(text) => Some(text),
            None => first_text(value, keys.drop_first()),
        }
    }
}

/// The text under a key.
pub open spec fn member_text(value: JsonView, key: Seq<char>) -> Option<Seq<char>> {
    match value.get(key) {
        Some(member) => member.text(),
        None => None,
    }
}

/// The text under the first of the keys that has one, or, where none has, the one that is
/// found in this way in the result, the parameters, the thread or the turn, in this order.
pub open spec fn nested_text(value: JsonView, keys: Seq<Seq<char>>) -> Option<Seq<char>>
    decreases value, 1int,
{
    match first_text(value, keys) {
        Some(text) => Some(text),
        None => match text_below(value, "result"@, keys) {
            Some(text) => Some(text),
            None => match text_below(value, "params"@, keys) {
                Some(text) => Some(text),
                None => match text_below(value, "thread"@, keys) {
                    Some(text) => Some(text),
                    None => text_below(value, "turn"@, keys),
                },
            },
        },
    }
}

/// What is found in the member under a key.
pub open spec fn text_below(value: JsonView, key: Seq<char>, keys: Seq<Seq<char>>) -> Option<
    Seq<char>,
>
    decreases value, 0int,
    via text_below_terminates
{
    match value.get(key) {
        Some(member) => nested_text(member, keys),
        None => None,
    }
}

#[via_fn]
proof fn text_below_terminates(value: JsonView, key: Seq<char>, keys: Seq<Seq<char>>) {
    lemma_member_is_smaller(value, key);
}

fn first_string(value: &Json, keys: &Vec<&'static str>) -> (r: Option<String>)
    ensures
        text_view(r) == first_text(value@, key_texts(keys@)),
{
    let ghost all = key_texts(keys@);
    let mut i: usize = 0;
    assert(all.skip(0) =~= all);
    while i < keys.len()
        invariant
            i <= keys@.len(),
            all == key_texts(keys@),
            first_text(value@, all) == first_text(value@, all.skip(i as int)),
        decreases keys@.len() - i,
    {
        proof {
            assert(all.skip(i as int)[0] == keys@[i as int]@);
            assert(all.skip(i as int).drop_first() =~= all.skip(i + 1));
        }
        if let Some(member) = value.get(keys[i]) {
            if let Some(text) = member.as_str() {
                return Some(text.to_owned());
            }
        }
        i += 1;
    }
    None
}

fn string_below(value: &Json, key: &str, keys: &Vec<&'static str>) -> (r: Option<String>)
    ensures
        text_view(r) == text_below(value@, key@, key_texts(keys@)),
    decreases value@, 0int,
{
    match value.get(key) {
        Some(member) => {
            proof {
                lemma_member_is_smaller(value@, key@);
            }
            nested_string(member, keys)
        },
        None => None,
    }
}

/// The text under the first of the keys that has one, here or in what wraps an answer.
pub fn nested_string(value: &Json, keys: &Vec<&'static str>) -> (r: Option<String>)
    ensures
        text_view(r) == nested_text(value@, key_texts(keys@)),
    decreases value@, 1int,
{
    if let Some(text) = first_string(value, keys) {
        return Some(text);
    }
    if let Some(text) = string_below(value, "result", keys) {
        return Some(text);
    }
    if let Some(text) = string_below(value, "params", keys) {
        return Some(text);
    }
    if let Some(text) = string_below(value, "thread", keys) {
        return Some(text);
    }
    string_below(value, "turn", keys)
}

/// The thread that the answer to a start names.
pub open spec fn answered_thread(value: JsonView) -> Option<Seq<char>> {
    nested_text(value, seq!["threadId"@, "thread_id"@])
}

/// The turn that a thread says is active.
pub open spec fn active_turn(value: JsonView) -> Option<Seq<char>> {
    nested_text(value, seq!["activeTurnId"@, "active_turn_id"@, "turnId"@, "turn_id"@])
}

/// The thread that the answer to a start names.
pub fn response_thread_id(value: &Json) -> (r: Option<String>)
    ensures
        text_view(r) == answered_thread(value@),
{
    let keys: Vec<&'static str> = vec!["threadId", "thread_id"];
    assert(key_texts(keys@) =~= seq!["threadId"@, "thread_id"@]);
    nested_string(value, &keys)
}

/// The turn that a thread says is active.
pub fn active_turn_id(value: &Json) -> (r: Option<String>)
    ensures
        text_view(r) == active_turn(value@),
{
    let keys: Vec<&'static str> = vec!["activeTurnId", "active_turn_id", "turnId", "turn_id"];
    assert(key_texts(keys@) =~= seq![
        "activeTurnId"@,
        "active_turn_id"@,
        "turnId"@,
        "turn_id"@,
    ]);
    nested_string(value, &keys)
}

/// The owner that the answer to a read of the account names: the address of its account, in
/// small letters. Only the account itself is looked at, in the result or in a bare answer.
pub open spec fn strict_identity(value: JsonView) -> Option<Seq<char>> {
    let body = match value.get("result"@) {
        Some(result) => result,
        None => value,
    };
    match body.get("account"@) {
        Some(account) => match account.get("email"@) {
            Some(JsonView::Text(email)) => if trimmed(email).len() > 0 {
                Some(lowercase(trimmed(email)))
            } else {
                None
            },
            _ => None,
        },
        None => None,
    }
}

/// The owner that the answer to a read of the account names.
pub fn strict_account_identity(value: &Json) -> (r: Option<String>)
    ensures
        text_view(r) == strict_identity(value@),
{
    let body = match value.get("result") {
        Some(result) => result,
        None => value,
    };
    let account = match body.get("account") {
        Some(account) => account,
        None => {
            return None;
        },
    };
    match account.get("email") {
        Some(Json::Text(email)) => {
            let short = trim_text(email.as_str());
            if short.as_str().unicode_len() > 0 {
                Some(to_lowercase(short.as_str()))
            } else {
                None
            }
        },
        _ => None,
    }
}

/// An answer that is wrapped as a result, with nothing of its own beside it, names the thread
/// that the bare answer names.
pub proof fn a_wrapped_answer_names_the_same_thread(answer: JsonView)
    ensures
        answered_thread(JsonView::Object(seq![("result"@, answer)])) == answered_thread(answer),
{
    let wrapped = JsonView::Object(seq![("result"@, answer)]);
    let keys = seq!["threadId"@, "thread_id"@];
    reveal_strlit("threadId");
    reveal_strlit("thread_id");
    reveal_strlit("result");
    assert("threadId"@.len() == 8);
    assert("thread_id"@.len() == 9);
    reveal_strlit("params");
    reveal_strlit("thread");
    reveal_strlit("turn");
    assert("result"@.len() == 6 && "result"@[0] == 'r');
    assert("params"@[0] == 'p');
    assert("thread"@[0] == 't');
    assert("turn"@.len() == 4);
    reveal_with_fuel(crate::json::first_under, 2);
    reveal_with_fuel(first_text, 3);
    assert(keys.drop_first() =~= seq!["thread_id"@]);
    assert(keys.drop_first().drop_first() =~= Seq::<Seq<char>>::empty());
    assert(first_text(wrapped, keys) is None);
    assert(wrapped.get("result"@) == Some(answer));
}

proof fn lemma_encoded_sum(a: Seq<char>, b: Seq<char>)
    ensures
        encode_utf8(a + b) == encode_utf8(a) + encode_utf8(b),
    decreases a.len(),
{
    if a.len() == 0 {
        assert(a + b =~= b);
        assert(encode_utf8(a) + encode_utf8(b) =~= encode_utf8(b));
    } else {
        assert((a + b).drop_first() =~= a.drop_first() + b);
        lemma_encoded_sum(a.drop_first(), b);
        assert(encode_utf8(a + b) =~= encode_utf8(a) + encode_utf8(b));
    }
}

/// Whether the text does not hold the null character.
pub open spec fn without_null(text: Seq<char>) -> bool {
    forall|i: int| 0 <= i < text.len() ==> #[trigger] text[i] != '\0'
}

/// Accounts of different homes or owners have keys that are made of different bytes, as long as
/// a home does not hold the null character, which no path does.
pub proof fn key_material_is_unique(
    home: Seq<char>,
    identity: Seq<char>,
    other_home: Seq<char>,
    other_identity: Seq<char>,
)
    requires
        without_null(home),
        without_null(other_home),
        key_material(home, identity) == key_material(other_home, other_identity),
    ensures
        home == other_home,
        identity == other_identity,
{
    let null = seq!['\0'];
    let left = home + null + identity;
    let right = other_home + null + other_identity;
    reveal_with_fuel(encode_utf8, 2);
    assert(null.drop_first() =~= Seq::<char>::empty());
    assert('\0' as u32 == 0);
    assert(0u32 & 0x7f == 0u32) by (bit_vector);
    assert(encode_utf8(null) =~= seq![0u8]);
    lemma_encoded_sum(home + null, identity);
    lemma_encoded_sum(home, null);
    lemma_encoded_sum(other_home + null, other_identity);
    lemma_encoded_sum(other_home, null);
    encode_utf8_decode_utf8(left);
    encode_utf8_decode_utf8(right);
    assert(left == right);
    assert(left[home.len() as int] == '\0');
    assert(right[other_home.len() as int] == '\0');
    if home.len() < other_home.len() {
        assert(right[home.len() as int] == other_home[home.len() as int]);
    }
    if other_home.len() < home.len() {
        assert(left[other_home.len() as int] == home[other_home.len() as int]);
    }
    assert(home =~= left.take(home.len() as int));
    assert(other_home =~= right.take(home.len() as int));
    assert(identity =~= left.skip(home.len() as int + 1));
    assert(other_identity =~= right.skip(home.len() as int + 1));
}

/// What stands beside the account in an answer makes no difference to its owner.
pub proof fn only_the_account_names_the_owner(value: JsonView, other: JsonView)
    requires
        value.get("result"@) == other.get("result"@),
        value.get("account"@) == other.get("account"@),
    ensures
        strict_identity(value) == strict_identity(other),
{
}

} // verus!
