//! Where the state is kept, and what of it is taken up, stated on the characters of paths and the
//! members of documents.

use crate::json::{first_under, JsonView};
use crate::model::RuntimeView;
use crate::paths::{
    directory_of, extension_of, extension_start, file_name_of, joined, last_part_start, parts_of,
    pieces, same_path, trimmed_path, PathStyle,
};
use crate::persistence::{
    current_document, current_entries, current_members, following, loaded, quarantine,
    retired, LoadView, PersistStep,
};
use crate::text::signed_decimal;
use vstd::prelude::*;

verus! {

/// Slashes separate the parts of a path, and backslashes too where Windows has it so; nothing else
/// does. A part is put behind a slash, or a backslash there.
pub proof fn slashes_separate_parts(c: char)
    ensures
        PathStyle::Posix.separates(c) <==> c == '/',
        PathStyle::Windows.separates(c) <==> c == '/' || c == '\\',
        PathStyle::Posix.main_separator() == '/',
        PathStyle::Windows.main_separator() == '\\',
{
}

/// Separators at the end of a path, and a dot behind one, make no difference to what it names.
pub proof fn what_a_path_ends_in_makes_no_difference(style: PathStyle, path: Seq<char>, slash: char)
    requires
        style.separates(slash),
    ensures
        trimmed_path(style, path.push(slash)) == trimmed_path(style, path),
        trimmed_path(style, path.push(slash).push('.')) == trimmed_path(style, path),
        file_name_of(style, path.push(slash)) == file_name_of(style, path),
        directory_of(style, path.push(slash)) == directory_of(style, path),
{
    assert(path.push(slash).drop_last() == path);
    assert(path.push(slash).push('.').drop_last() == path.push(slash));
    assert(trimmed_path(style, path.push(slash).push('.')) == trimmed_path(
        style,
        path.push(slash),
    ));
}

proof fn lemma_no_longer(style: PathStyle, path: Seq<char>)
    ensures
        trimmed_path(style, path).len() <= path.len(),
    decreases path.len(),
{
    if path.len() > 0 {
        lemma_no_longer(style, path.drop_last());
    }
}

spec fn plain(style: PathStyle, name: Seq<char>) -> bool {
    &&& name.len() > 0
    &&& forall|i: int| 0 <= i < name.len() ==> !style.separates(#[trigger] name[i])
}

proof fn lemma_start_of_last(style: PathStyle, head: Seq<char>, name: Seq<char>)
    requires
        forall|i: int| 0 <= i < name.len() ==> !style.separates(#[trigger] name[i]),
        head.len() > 0 ==> style.separates(head.last()),
    ensures
        last_part_start(style, head + name) == head.len(),
    decreases name.len(),
{
    let whole = head + name;
    if name.len() > 0 {
        assert(whole.drop_last() == head + name.drop_last());
        assert(whole.last() == name.last());
        assert forall|i: int| 0 <= i < name.drop_last().len() implies !style.separates(
            #[trigger] name.drop_last()[i],
        ) by {
            assert(name.drop_last()[i] == name[i]);
        }
        lemma_start_of_last(style, head, name.drop_last());
    } else {
        assert(whole == head);
    }
}

proof fn lemma_named_last(style: PathStyle, head: Seq<char>, name: Seq<char>)
    requires
        plain(style, name),
        name != "."@,
        head.len() > 0 ==> style.separates(head.last()),
    ensures
        trimmed_path(style, head + name) == head + name,
        last_part_start(style, head + name) == head.len(),
        (head + name).skip(head.len() as int) == name,
        (head + name).take(head.len() as int) == head,
{
    reveal_strlit(".");
    let whole = head + name;
    lemma_start_of_last(style, head, name);
    assert(whole.last() == name.last());
    assert(!style.separates(whole.last()));
    if whole.len() >= 2 && whole.last() == '.' && style.separates(whole[whole.len() - 2]) {
        if name.len() >= 2 {
            assert(whole[whole.len() - 2] == name[name.len() - 2]);
        } else {
            assert(name == "."@);
        }
    }
    assert(whole.skip(head.len() as int) == name);
    assert(whole.take(head.len() as int) == head);
}

/// A name that is joined to a directory is what the path names, and the directory is where it
/// stands. One separator stands between them.
pub proof fn a_joined_name_stands_in_its_directory(style: PathStyle, path: Seq<char>, name: Seq<char>)
    requires
        name.len() > 0,
        forall|i: int| 0 <= i < name.len() ==> !style.separates(#[trigger] name[i]),
        name != "."@,
        name != ".."@,
        path.len() > 0,
        trimmed_path(style, path) == path,
    ensures
        joined(style, path, name) == path + seq![style.main_separator()] + name,
        file_name_of(style, joined(style, path, name)) == Some(name),
        directory_of(style, joined(style, path, name)) == path,
{
    lemma_no_longer(style, path.drop_last());
    assert(!style.separates(path.last()));
    let head = path.push(style.main_separator());
    assert(head == path + seq![style.main_separator()]);
    lemma_named_last(style, head, name);
    what_a_path_ends_in_makes_no_difference(style, path, style.main_separator());
    assert(trimmed_path(style, head) == path);
}

/// A path that ends in a separator needs no further one.
pub proof fn nothing_is_put_behind_a_separator(style: PathStyle, path: Seq<char>, name: Seq<char>)
    requires
        path.len() == 0 || style.separates(path.last()),
    ensures
        joined(style, path, name) == path + name,
{
}

/// A file at the root has the root for its directory, and one without a directory has none.
pub proof fn a_file_may_stand_at_the_root(style: PathStyle, name: Seq<char>)
    requires
        name.len() > 0,
        forall|i: int| 0 <= i < name.len() ==> !style.separates(#[trigger] name[i]),
        name != "."@,
        name != ".."@,
    ensures
        file_name_of(style, name) == Some(name),
        directory_of(style, name) == Seq::<char>::empty(),
        file_name_of(style, seq!['/'] + name) == Some(name),
        directory_of(style, seq!['/'] + name) == seq!['/'],
{
    let none = Seq::<char>::empty();
    assert(none + name == name);
    lemma_named_last(style, none, name);
    let root = seq!['/'];
    lemma_named_last(style, root, name);
    assert(root.drop_last() == none);
    assert(trimmed_path(style, none) == none);
    assert(style.separates(root.last()));
    assert(trimmed_path(style, root) == trimmed_path(style, root.drop_last()));
    assert(root.take(1) == root);
}

/// Nothing is named by a path that ends in the directory above.
pub proof fn the_directory_above_is_no_file(style: PathStyle, path: Seq<char>, slash: char)
    requires
        style.separates(slash),
    ensures
        file_name_of(style, path.push(slash) + ".."@) is None,
        file_name_of(style, Seq::<char>::empty()) is None,
{
    reveal_strlit("..");
    reveal_strlit(".");
    assert(".."@ != "."@) by {
        assert(".."@.len() == 2);
    }
    lemma_named_last(style, path.push(slash), ".."@);
}

proof fn lemma_extension_start(stem: Seq<char>, extension: Seq<char>)
    requires
        stem.len() > 0,
        forall|i: int| 0 <= i < extension.len() ==> #[trigger] extension[i] != '.',
    ensures
        extension_start(stem + seq!['.'] + extension) == Some(stem.len() as int + 1),
    decreases extension.len(),
{
    let name = stem + seq!['.'] + extension;
    if extension.len() > 0 {
        assert(name.drop_last() == stem + seq!['.'] + extension.drop_last());
        assert(name.last() == extension.last());
        lemma_extension_start(stem, extension.drop_last());
    } else {
        assert(name.last() == '.');
    }
}

proof fn lemma_no_extension(name: Seq<char>)
    requires
        forall|i: int| 1 <= i < name.len() ==> #[trigger] name[i] != '.',
    ensures
        extension_start(name) is None,
    decreases name.len(),
{
    if name.len() > 1 {
        assert(name.last() == name[name.len() - 1]);
        lemma_no_extension(name.drop_last());
    }
}

/// The extension of a name is what follows its last dot, unless the name begins with that; without
/// such a dot there is none.
pub proof fn an_extension_follows_the_last_dot(
    style: PathStyle,
    path: Seq<char>,
    stem: Seq<char>,
    extension: Seq<char>,
)
    requires
        stem.len() > 0,
        stem != "."@,
        path.len() > 0,
        trimmed_path(style, path) == path,
        forall|i: int| 0 <= i < stem.len() ==> !style.separates(#[trigger] stem[i]),
        forall|i: int|
            0 <= i < extension.len() ==> !style.separates(#[trigger] extension[i]) && extension[i]
                != '.',
    ensures
        extension_of(style, joined(style, path, stem + seq!['.'] + extension)) == extension,
        (forall|i: int| 1 <= i < stem.len() ==> #[trigger] stem[i] != '.') && stem != ".."@
            ==> extension_of(style, joined(style, path, stem)) == Seq::<char>::empty(),
{
    reveal_strlit(".");
    reveal_strlit("..");
    let name = stem + seq!['.'] + extension;
    assert forall|i: int| 0 <= i < name.len() implies !style.separates(#[trigger] name[i]) by {
        if i > stem.len() {
            assert(name[i] == extension[i - stem.len() - 1]);
        } else if i < stem.len() {
            assert(name[i] == stem[i]);
        }
    }
    assert(name.len() >= 2);
    if name == ".."@ {
        assert(stem.len() == 1);
        assert(stem[0] == name[0]);
        assert(stem == "."@);
    }
    a_joined_name_stands_in_its_directory(style, path, name);
    lemma_extension_start(stem, extension);
    assert(name.skip(stem.len() as int + 1) == extension);
    if (forall|i: int| 1 <= i < stem.len() ==> #[trigger] stem[i] != '.') && stem != ".."@ {
        a_joined_name_stands_in_its_directory(style, path, stem);
        lemma_no_extension(stem);
    }
}

/// A state that cannot be used is put aside in its directory, under its name with the time behind.
pub proof fn a_corrupt_state_is_put_aside_in_its_directory(
    style: PathStyle,
    path: Seq<char>,
    name: Seq<char>,
    timestamp_ms: i64,
)
    requires
        name.len() > 0,
        forall|i: int| 0 <= i < name.len() ==> !style.separates(#[trigger] name[i]),
        name != "."@,
        name != ".."@,
        path.len() > 0,
        trimmed_path(style, path) == path,
    ensures
        quarantine(style, joined(style, path, name), timestamp_ms) == path + seq![
            style.main_separator(),
        ] + name + ".corrupt-"@ + signed_decimal(timestamp_ms as int),
{
    a_joined_name_stands_in_its_directory(style, path, name);
    let aside = name + ".corrupt-"@ + signed_decimal(timestamp_ms as int);
    assert(joined(style, path, aside) == path.push(style.main_separator()) + aside);
    assert(path.push(style.main_separator()) + aside == path + seq![style.main_separator()] + name
        + ".corrupt-"@ + signed_decimal(timestamp_ms as int));
}

/// A separator begins a new piece of a path; any other character goes on with the last.
pub proof fn a_path_is_in_pieces_between_its_separators(style: PathStyle, path: Seq<char>, c: char)
    ensures
        ({
            let before = pieces(style, path);
            let after = pieces(style, path.push(c));
            &&& before.len() > 0
            &&& style.separates(c) ==> after == before.push(Seq::<char>::empty())
            &&& !style.separates(c) ==> after.len() == before.len() && after.last()
                == before.last().push(c) && after.drop_last() == before.drop_last()
        }),
    decreases path.len(),
{
    assert(path.push(c).drop_last() == path);
    if path.len() > 0 {
        a_path_is_in_pieces_between_its_separators(style, path.drop_last(), path.last());
        assert(path.drop_last().push(path.last()) == path);
    }
}

/// Two paths are the same though one has a separator, or a separator and a dot, behind it; but not
/// where one begins at the root and the other does not.
pub proof fn same_paths_may_differ_in_separators(
    style: PathStyle,
    path: Seq<char>,
    other: Seq<char>,
    slash: char,
)
    requires
        style.separates(slash),
        path.len() > 0,
    ensures
        same_path(style, path, path),
        same_path(style, path, path.push(slash)),
        same_path(style, path, path.push(slash).push('.')),
        same_path(style, path, other) == same_path(style, other, path),
        other.len() > 0 && style.separates(path[0]) != style.separates(other[0]) ==> !same_path(
            style,
            path,
            other,
        ),
{
    reveal_strlit(".");
    let before = pieces(style, path);
    a_path_is_in_pieces_between_its_separators(style, path, slash);
    let slashed = before.push(Seq::<char>::empty());
    assert(pieces(style, path.push(slash)) == slashed);
    assert(slashed.drop_last() == before);
    assert(parts_of(slashed) == parts_of(before));
    let dotted = path.push(slash).push('.');
    assert(dotted.drop_last() == path.push(slash));
    assert(!style.separates('.'));
    let pointed = slashed.update(slashed.len() - 1, slashed.last().push('.'));
    assert(pieces(style, dotted) == pointed);
    assert(pointed.last() == "."@);
    assert(pointed.drop_last() == before);
    assert(parts_of(pointed) == parts_of(before));
    assert(path.push(slash)[0] == path[0]);
    assert(dotted[0] == path[0]);
}

/// Paths that end in different names are not the same.
pub proof fn different_names_make_different_paths(
    style: PathStyle,
    path: Seq<char>,
    slash: char,
    a: Seq<char>,
    b: Seq<char>,
)
    requires
        style.separates(slash),
        a != b,
        a.len() > 0 && a != "."@,
        b.len() > 0 && b != "."@,
        forall|i: int| 0 <= i < a.len() ==> !style.separates(#[trigger] a[i]),
        forall|i: int| 0 <= i < b.len() ==> !style.separates(#[trigger] b[i]),
    ensures
        !same_path(style, path.push(slash) + a, path.push(slash) + b),
{
    lemma_last_piece(style, path, slash, a);
    lemma_last_piece(style, path, slash, b);
    let left = parts_of(pieces(style, path)).push(a);
    let right = parts_of(pieces(style, path)).push(b);
    assert(left.last() == a && right.last() == b);
}

proof fn lemma_last_piece(style: PathStyle, path: Seq<char>, slash: char, name: Seq<char>)
    requires
        style.separates(slash),
        forall|i: int| 0 <= i < name.len() ==> !style.separates(#[trigger] name[i]),
    ensures
        pieces(style, path.push(slash) + name) == pieces(style, path).push(name),
        name.len() > 0 && name != "."@ ==> parts_of(pieces(style, path.push(slash) + name))
            == parts_of(pieces(style, path)).push(name),
    decreases name.len(),
{
    let whole = path.push(slash) + name;
    let before = pieces(style, path);
    a_path_is_in_pieces_between_its_separators(style, path, slash);
    if name.len() == 0 {
        assert(whole == path.push(slash));
        assert(name == Seq::<char>::empty());
    } else {
        let start = name.drop_last();
        assert forall|i: int| 0 <= i < start.len() implies !style.separates(#[trigger] start[i]) by {
            assert(start[i] == name[i]);
        }
        lemma_last_piece(style, path, slash, start);
        assert(whole.drop_last() == path.push(slash) + start);
        assert(whole.last() == name.last());
        assert(start.push(name.last()) == name);
        let pushed = before.push(start);
        assert(pieces(style, whole) == pushed.update(pushed.len() - 1, pushed.last().push(
            name.last(),
        )));
        assert(pieces(style, whole) == before.push(name));
    }
    assert(before.push(name).drop_last() == before);
}

/// The state is taken up where it can be read, and else its backup; where there is neither file
/// there is none, and where there is one that cannot be read, it is corrupt.
pub proof fn the_state_comes_before_its_backup(
    state: RuntimeView,
    backup: RuntimeView,
    other: Option<RuntimeView>,
    state_exists: bool,
    backup_exists: bool,
    quarantined_to: Seq<char>,
)
    ensures
        loaded(Some(state), other, state_exists, backup_exists, quarantined_to) == LoadView::Valid(
            state,
        ),
        loaded(None, Some(backup), state_exists, backup_exists, quarantined_to) == LoadView::Valid(
            backup,
        ),
        loaded(None, None, false, false, quarantined_to) is Missing,
        state_exists || backup_exists ==> loaded(
            None,
            None,
            state_exists,
            backup_exists,
            quarantined_to,
        ) == (LoadView::Corrupt { quarantined_to }),
{
}

/// Writing makes the directory, writes the new state beside the old one, puts it in its place,
/// which replaces the old one where there is one, removes the backup where there is one, and is
/// finished.
pub proof fn a_state_is_written_beside_and_then_put_in_place(state_exists: bool, backup_exists: bool)
    ensures
        following(PersistStep::CreateDirectory, state_exists, backup_exists)
            == PersistStep::WriteTemporary,
        following(PersistStep::WriteTemporary, true, backup_exists) == PersistStep::ReplaceState,
        following(PersistStep::WriteTemporary, false, backup_exists) == PersistStep::MoveIntoPlace,
        following(PersistStep::ReplaceState, state_exists, true) == PersistStep::RemoveBackup,
        following(PersistStep::ReplaceState, state_exists, false) == PersistStep::Finished,
        following(PersistStep::MoveIntoPlace, state_exists, true) == PersistStep::RemoveBackup,
        following(PersistStep::MoveIntoPlace, state_exists, false) == PersistStep::Finished,
        following(PersistStep::RemoveBackup, state_exists, backup_exists) == PersistStep::Finished,
        following(PersistStep::Finished, state_exists, backup_exists) == PersistStep::Finished,
{
}

proof fn lemma_members_left(entries: Seq<(Seq<char>, JsonView)>, key: Seq<char>)
    ensures
        first_under(current_members(entries), key) == if retired(key) {
            None
        } else {
            first_under(entries, key)
        },
    decreases entries.len(),
{
    let keep = |entry: (Seq<char>, JsonView)| !retired(entry.0);
    if entries.len() > 0 {
        let rest = entries.drop_first();
        lemma_members_left(rest, key);
        assert(entries == seq![entries[0]] + rest);
        Seq::filter_distributes_over_add(seq![entries[0]], rest, keep);
        let one = seq![entries[0]];
        assert(one.drop_last() == Seq::<(Seq<char>, JsonView)>::empty());
        assert(one.drop_last().filter(keep) == Seq::<(Seq<char>, JsonView)>::empty()) by {
            reveal(Seq::filter);
        }
        assert(one.filter(keep) == if keep(one[0]) { one } else { Seq::empty() }) by {
            reveal(Seq::filter);
        }
        let left = current_members(entries);
        if keep(entries[0]) {
            assert(left == one + current_members(rest));
            assert(left.drop_first() == current_members(rest));
        } else {
            assert(left == current_members(rest));
        }
    } else {
        reveal(Seq::filter);
    }
}

proof fn lemma_entries_left(entries: Seq<(Seq<char>, JsonView)>, key: Seq<char>)
    ensures
        key != "account"@ ==> first_under(current_entries(entries), key) == first_under(
            entries,
            key,
        ),
        match first_under(entries, "account"@) {
            Some(account) => first_under(current_entries(entries), "account"@) == Some(
                crate::persistence::current_account(account),
            ),
            None => first_under(current_entries(entries), "account"@) is None,
        },
    decreases entries.len(),
{
    if entries.len() > 0 {
        let rest = entries.drop_first();
        let left = current_entries(entries);
        if entries[0].0 == "account"@ {
            assert(left.drop_first() == rest);
        } else {
            lemma_entries_left(rest, key);
            assert(left.drop_first() == current_entries(rest));
        }
    }
}

/// The members that are no longer used are dropped from the account, by each of their names; every
/// other member of the account and of the document is kept.
pub proof fn members_out_of_use_are_dropped_from_the_account(
    document: JsonView,
    account: JsonView,
    key: Seq<char>,
)
    requires
        document is Object,
        document.get("account"@) == Some(account),
        account is Object,
    ensures
        ({
            let current = current_document(document);
            let left = current.get("account"@);
            let dropped = key == "revalidationReturnPhase"@ || key == "episodePolicy"@ || key
                == "firedEpisodes"@ || key == "breachedWindows"@ || key == "drainDeadline"@ || key
                == "allowedDrainTurns"@ || key == "pendingInterruptIndex"@ || key
                == "pendingLocalStarts"@ || key == "unmatchedStartedTurns"@ || key
                == "terminalObservations"@;
            &&& left is Some && left->0 is Object
            &&& dropped ==> left->0.get(key) is None
            &&& !dropped ==> left->0.get(key) == account.get(key)
            &&& key != "account"@ ==> current.get(key) == document.get(key)
        }),
{
    lemma_entries_left(document->Object_0, key);
    lemma_members_left(account->Object_0, key);
}

/// A document whose account is no object, or that has none or is no object itself, is kept as it is.
pub proof fn other_documents_are_kept(document: JsonView, key: Seq<char>)
    ensures
        !(document is Object) ==> current_document(document) == document,
        document.get("account"@) is None ==> current_document(document).get(key) == document.get(
            key,
        ),
        document.get("account"@) is Some && !(document.get("account"@)->0 is Object)
            ==> current_document(document).get(key) == document.get(key),
{
    if document is Object {
        lemma_entries_left(document->Object_0, key);
    }
}

} // verus!
