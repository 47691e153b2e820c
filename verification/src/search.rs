//! Searching sequences.

use vstd::prelude::*;

verus! {

/// The position of the first of `s` that satisfies `wanted`.
pub open spec fn first_where<T>(s: Seq<T>, wanted: spec_fn(T) -> bool) -> Option<int>
    decreases s.len(),
{
    if s.len() == 0 {
        None
    } else if wanted(s[0]) {
        Some(0)
    } else {
        match first_where(s.drop_first(), wanted) {
            Some(i) => Some(i + 1),
            None => None,
        }
    }
}

/// A position that satisfies `wanted`, with none before it, is the first.
pub proof fn lemma_first_where<T>(s: Seq<T>, wanted: spec_fn(T) -> bool, at: int)
    requires
        0 <= at <= s.len(),
        forall|i: int| 0 <= i < at ==> !wanted(#[trigger] s[i]),
        at < s.len() ==> wanted(s[at]),
    ensures
        first_where(s, wanted) == if at < s.len() { Some(at) } else { None },
    decreases at,
{
    if at > 0 {
        assert(!wanted(s[0]));
        assert forall|i: int| 0 <= i < at - 1 implies !wanted(#[trigger] s.drop_first()[i]) by {
            assert(!wanted(s[i + 1]));
        }
        if at < s.len() {
            assert(s.drop_first()[at - 1] == s[at]);
        }
        lemma_first_where(s.drop_first(), wanted, at - 1);
    }
}

/// What `first_where` finds satisfies `wanted`, and nothing before it does.
pub proof fn lemma_first_where_found<T>(s: Seq<T>, wanted: spec_fn(T) -> bool)
    ensures
        match first_where(s, wanted) {
            Some(at) => 0 <= at < s.len() && wanted(s[at]) && forall|i: int|
                0 <= i < at ==> !wanted(#[trigger] s[i]),
            None => forall|i: int| 0 <= i < s.len() ==> !wanted(#[trigger] s[i]),
        },
    decreases s.len(),
{
    if s.len() > 0 && !wanted(s[0]) {
        let rest = s.drop_first();
        lemma_first_where_found(rest, wanted);
        match first_where(rest, wanted) {
            Some(at) => {
                assert(s[at + 1] == rest[at]);
                assert forall|i: int| 0 <= i < at + 1 implies !wanted(#[trigger] s[i]) by {
                    if i > 0 {
                        assert(rest[i - 1] == s[i]);
                        assert(!wanted(rest[i - 1]));
                    }
                }
            },
            None => {
                assert forall|i: int| 0 <= i < s.len() implies !wanted(#[trigger] s[i]) by {
                    if i > 0 {
                        assert(rest[i - 1] == s[i]);
                        assert(!wanted(rest[i - 1]));
                    }
                }
            },
        }
    }
}

/// The position of the first of `items` that satisfies `wanted`.
pub(crate) fn position_where<T, F: Fn(&T) -> bool>(
    items: &Vec<T>,
    wanted: F,
    Ghost(model): Ghost<spec_fn(T) -> bool>,
) -> (r: Option<usize>)
    requires
        forall|item: &T| call_requires(wanted, (item,)),
        forall|item: &T, b: bool| call_ensures(wanted, (item,), b) ==> b == model(*item),
    ensures
        match r {
            Some(at) => first_where(items@, model) == Some(at as int) && at < items@.len(),
            None => first_where(items@, model) is None,
        },
{
    let mut i: usize = 0;
    while i < items.len()
        invariant
            i <= items@.len(),
            forall|item: &T| call_requires(wanted, (item,)),
            forall|item: &T, b: bool| call_ensures(wanted, (item,), b) ==> b == model(*item),
            forall|k: int| 0 <= k < i ==> !model(#[trigger] items@[k]),
        decreases items@.len() - i,
    {
        if wanted(&items[i]) {
            proof {
                lemma_first_where(items@, model, i as int);
            }
            return Some(i);
        }
        i += 1;
    }
    proof {
        lemma_first_where(items@, model, i as int);
    }
    None
}

/// Drops what does not satisfy `keep`.
pub(crate) fn retain_where<T, F: Fn(&T) -> bool>(
    items: &mut Vec<T>,
    keep: F,
    Ghost(model): Ghost<spec_fn(T) -> bool>,
)
    requires
        forall|item: &T| call_requires(keep, (item,)),
        forall|item: &T, b: bool| call_ensures(keep, (item,), b) ==> b == model(*item),
    ensures
        final(items)@ == old(items)@.filter(model),
{
    let ghost all = items@;
    let mut kept: Vec<T> = Vec::new();
    let ghost mut done: int = 0;
    proof {
        reveal(Seq::filter);
        assert(all.take(0) =~= Seq::<T>::empty());
    }
    while items.len() > 0
        invariant
            0 <= done <= all.len(),
            items@ == all.skip(done),
            kept@ == all.take(done).filter(model),
            forall|item: &T| call_requires(keep, (item,)),
            forall|item: &T, b: bool| call_ensures(keep, (item,), b) ==> b == model(*item),
        decreases items@.len(),
    {
        let item = items.remove(0);
        proof {
            reveal(Seq::filter);
            assert(item == all[done]);
            assert(all.take(done + 1).drop_last() =~= all.take(done));
            assert(all.take(done + 1).last() == item);
            assert(all.skip(done).remove(0) =~= all.skip(done + 1));
        }
        if keep(&item) {
            kept.push(item);
        }
        proof {
            done = done + 1;
        }
    }
    assert(all.take(done) =~= all);
    *items = kept;
}

/// `items` with `item` before the first that belongs behind it, or at the end.
pub open spec fn placed<T>(items: Seq<T>, item: T, behind: spec_fn(T) -> bool) -> Seq<T> {
    match first_where(items, behind) {
        Some(at) => items.insert(at, item),
        None => items.push(item),
    }
}

/// Where `placed` puts the item: nothing before it belongs behind it, and what follows it does.
pub proof fn lemma_placed<T>(items: Seq<T>, item: T, behind: spec_fn(T) -> bool) -> (at: int)
    ensures
        0 <= at <= items.len(),
        placed(items, item, behind) == items.insert(at, item),
        forall|i: int| 0 <= i < at ==> !behind(#[trigger] items[i]),
        at < items.len() ==> behind(items[at]),
{
    lemma_first_where_found(items, behind);
    match first_where(items, behind) {
        Some(at) => at,
        None => {
            assert(items.push(item) =~= items.insert(items.len() as int, item));
            items.len() as int
        },
    }
}

/// Puts `item` before the first of `items` that belongs behind it, or at the end.
pub(crate) fn place_where<T, F: Fn(&T) -> bool>(
    items: &mut Vec<T>,
    item: T,
    behind: F,
    Ghost(model): Ghost<spec_fn(T) -> bool>,
)
    requires
        forall|known: &T| call_requires(behind, (known,)),
        forall|known: &T, b: bool| call_ensures(behind, (known,), b) ==> b == model(*known),
    ensures
        final(items)@ == placed(old(items)@, item, model),
{
    match position_where(items, behind, Ghost(model)) {
        Some(at) => {
            items.insert(at, item);
        },
        None => {
            items.push(item);
        },
    }
}

/// What a filter keeps is what it lets through of the sequence.
pub proof fn lemma_filtered<T>(s: Seq<T>, keep: spec_fn(T) -> bool)
    ensures
        forall|t: T| #[trigger] s.filter(keep).contains(t) <==> s.contains(t) && keep(t),
    decreases s.len(),
{
    reveal(Seq::filter);
    if s.len() > 0 {
        let rest = s.drop_last();
        lemma_filtered(rest, keep);
        let out = s.filter(keep);
        assert forall|t: T| #[trigger] out.contains(t) <==> s.contains(t) && keep(t) by {
            if out.contains(t) {
                let k = choose|k: int| 0 <= k < out.len() && out[k] == t;
                if k < rest.filter(keep).len() {
                    assert(rest.filter(keep)[k] == t);
                    assert(rest.filter(keep).contains(t));
                    let j = choose|j: int| 0 <= j < rest.len() && rest[j] == t;
                    assert(s[j] == t);
                } else {
                    assert(s[s.len() - 1] == t);
                }
            }
            if s.contains(t) && keep(t) {
                let j = choose|j: int| 0 <= j < s.len() && s[j] == t;
                if j < rest.len() {
                    assert(rest[j] == t);
                    assert(rest.filter(keep).contains(t));
                    let k = choose|k: int|
                        0 <= k < rest.filter(keep).len() && rest.filter(keep)[k] == t;
                    assert(out[k] == t);
                } else {
                    assert(out[out.len() - 1] == t);
                }
            }
        }
    }
}

} // verus!
