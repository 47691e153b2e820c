//! Keeping the limiter's state on disk: where its files stand, what is accepted of them, and
//! in which order they are written.

use crate::json::{json_view, Json, JsonView};
use crate::model::{QuotaGuardRuntimeState, RuntimeView, STATE_SCHEMA_VERSION};
use crate::paths::{
    directory_of, extension, extension_of, extension_start, file_name, file_name_of,
    longer_extensions_stay_in_the_directory, with_extension, with_extension_of, with_file_name,
    with_file_name_of, PathStyle,
};
use crate::text::{decimal, decimal_text, same_text, signed_decimal, signed_decimal_text};
use vstd::prelude::*;
use vstd::string::*;

verus! {

/// What was found on disk.
#[derive(Debug, PartialEq)]
pub enum LoadRuntime {
    /// There is no state.
    Missing,
    /// The state that was kept.
    Valid(QuotaGuardRuntimeState),
    /// There is a state that cannot be used; it belongs under this path.
    Corrupt { quarantined_to: String },
}

/// What a load result holds.
pub enum LoadView {
    Missing,
    Valid(RuntimeView),
    Corrupt { quarantined_to: Seq<char> },
}

impl View for LoadRuntime {
    type V = LoadView;

    open spec fn view(&self) -> LoadView {
        match *self {
            LoadRuntime::Missing => LoadView::Missing,
            LoadRuntime::Valid(state) => LoadView::Valid(state@),
            LoadRuntime::Corrupt { quarantined_to } => LoadView::Corrupt {
                quarantined_to: quarantined_to@,
            },
        }
    }
}

/// The path with `suffix` added to its extension.
pub open spec fn beside(style: PathStyle, path: Seq<char>, suffix: Seq<char>) -> Seq<char> {
    with_extension_of(style, path, extension_of(style, path) + suffix)
}

/// Where the previous state is kept while a new one takes its place.
pub fn backup_path(style: PathStyle, path: &str) -> (r: String)
    ensures
        r@ == beside(style, path@, "bak"@),
{
    let mut suffix = extension(style, path);
    suffix.append("bak");
    with_extension(style, path, suffix.as_str())
}

/// Where a new state is written before it takes its place.
pub fn temporary_path(style: PathStyle, path: &str) -> (r: String)
    ensures
        r@ == beside(style, path@, "tmp"@),
{
    let mut suffix = extension(style, path);
    suffix.append("tmp");
    with_extension(style, path, suffix.as_str())
}

/// Where a state that cannot be used is put.
pub open spec fn quarantine(style: PathStyle, path: Seq<char>, timestamp_ms: i64) -> Seq<char> {
    let name = match file_name_of(style, path) {
        Some(name) => name,
        None => "quota-guard-state.json"@,
    };
    with_file_name_of(style, path, name + ".corrupt-"@ + signed_decimal(timestamp_ms as int))
}

/// Where a state that cannot be used is put.
pub fn quarantine_path(style: PathStyle, path: &str, timestamp_ms: i64) -> (r: String)
    ensures
        r@ == quarantine(style, path@, timestamp_ms),
{
    let mut name = match file_name(style, path) {
        Some(name) => name,
        None => "quota-guard-state.json".to_owned(),
    };
    name.append(".corrupt-");
    name.append(signed_decimal_text(timestamp_ms).as_str());
    with_file_name(style, path, name.as_str())
}

/// Whether the member is one that is no longer kept.
pub open spec fn retired(key: Seq<char>) -> bool {
    ||| key == "revalidationReturnPhase"@
    ||| key == "episodePolicy"@
    ||| key == "firedEpisodes"@
    ||| key == "breachedWindows"@
    ||| key == "drainDeadline"@
    ||| key == "allowedDrainTurns"@
    ||| key == "pendingInterruptIndex"@
    ||| key == "pendingLocalStarts"@
    ||| key == "unmatchedStartedTurns"@
    ||| key == "terminalObservations"@
}

/// The members without those that are no longer kept.
pub open spec fn current_members(entries: Seq<(Seq<char>, JsonView)>) -> Seq<
    (Seq<char>, JsonView),
> {
    entries.filter(|entry: (Seq<char>, JsonView)| !retired(entry.0))
}

/// The account's document without the members that are no longer kept.
pub open spec fn current_account(account: JsonView) -> JsonView {
    match account {
        JsonView::Object(entries) => JsonView::Object(current_members(entries)),
        other => other,
    }
}

/// The members with the first one under the account's name brought up to date.
pub open spec fn current_entries(entries: Seq<(Seq<char>, JsonView)>) -> Seq<(Seq<char>, JsonView)>
    decreases entries.len(),
{
    if entries.len() == 0 {
        entries
    } else if entries[0].0 == "account"@ {
        seq![(entries[0].0, current_account(entries[0].1))] + entries.drop_first()
    } else {
        seq![entries[0]] + current_entries(entries.drop_first())
    }
}

/// The state's document without what is no longer kept of an account.
pub open spec fn current_document(document: JsonView) -> JsonView {
    match document {
        JsonView::Object(entries) => JsonView::Object(current_entries(entries)),
        other => other,
    }
}

fn is_retired(key: &str) -> (r: bool)
    ensures
        r == retired(key@),
{
    same_text(key, "revalidationReturnPhase") || same_text(key, "episodePolicy") || same_text(
        key,
        "firedEpisodes",
    ) || same_text(key, "breachedWindows") || same_text(key, "drainDeadline") || same_text(
        key,
        "allowedDrainTurns",
    ) || same_text(key, "pendingInterruptIndex") || same_text(key, "pendingLocalStarts")
        || same_text(key, "unmatchedStartedTurns") || same_text(key, "terminalObservations")
}

/// What the members hold.
pub open spec fn entry_views(entries: Seq<(String, Json)>) -> Seq<(Seq<char>, JsonView)> {
    entries.map_values(|entry: (String, Json)| (entry.0@, entry.1@))
}

/// An object holds what its members hold.
pub proof fn lemma_object_view(entries: Vec<(String, Json)>)
    ensures
        json_view(Json::Object(entries)) == JsonView::Object(entry_views(entries@)),
{
    assert(json_view(Json::Object(entries))->Object_0 =~= entry_views(entries@));
}

fn strip_account(account: Json) -> (r: Json)
    ensures
        r@ == current_account(account@),
{
    match account {
        Json::Object(mut entries) => {
            proof {
                lemma_object_view(entries);
            }
            let ghost all = entry_views(entries@);
            let ghost keep = |entry: (Seq<char>, JsonView)| !retired(entry.0);
            let mut kept: Vec<(String, Json)> = Vec::new();
            let ghost mut done: int = 0;
            proof {
                reveal(Seq::filter);
                assert(all.take(0).filter(keep) =~= Seq::<(Seq<char>, JsonView)>::empty());
            }
            while entries.len() > 0
                invariant
                    0 <= done <= all.len(),
                    keep == (|entry: (Seq<char>, JsonView)| !retired(entry.0)),
                    entry_views(entries@) == all.skip(done),
                    entry_views(kept@) == all.take(done).filter(keep),
                decreases entries@.len(),
            {
                let ghost held = entries@;
                let entry = entries.remove(0);
                proof {
                    reveal(Seq::filter);
                    assert(entry_views(held).len() == all.skip(done).len());
                    assert(entry_views(held)[0] == (entry.0@, entry.1@));
                    assert(all.skip(done)[0] == all[done]);
                    assert(all.take(done + 1).drop_last() =~= all.take(done));
                    assert(all.take(done + 1).last() == (entry.0@, entry.1@));
                    assert(entry_views(entries@) =~= all.skip(done).drop_first());
                    assert(all.skip(done).drop_first() =~= all.skip(done + 1));
                }
                if !is_retired(entry.0.as_str()) {
                    let ghost before = kept@;
                    kept.push(entry);
                    assert(entry_views(kept@) =~= entry_views(before).push((entry.0@, entry.1@)));
                }
                proof {
                    done = done + 1;
                }
            }
            proof {
                assert(all.take(done) =~= all);
                lemma_object_view(kept);
            }
            Json::Object(kept)
        },
        other => other,
    }
}

proof fn lemma_current_entries(entries: Seq<(Seq<char>, JsonView)>, at: int)
    requires
        0 <= at <= entries.len(),
        forall|i: int| 0 <= i < at ==> (#[trigger] entries[i]).0 != "account"@,
        at < entries.len() ==> entries[at].0 == "account"@,
    ensures
        current_entries(entries) == if at < entries.len() {
            entries.update(at, (entries[at].0, current_account(entries[at].1)))
        } else {
            entries
        },
    decreases at,
{
    if at == 0 {
        if entries.len() > 0 {
            assert(current_entries(entries) =~= entries.update(
                0,
                (entries[0].0, current_account(entries[0].1)),
            ));
        }
    } else {
        let rest = entries.drop_first();
        assert(entries[0].0 != "account"@);
        assert forall|i: int| 0 <= i < at - 1 implies (#[trigger] rest[i]).0 != "account"@ by {
            assert(entries[i + 1].0 != "account"@);
        }
        lemma_current_entries(rest, at - 1);
        if at < entries.len() {
            assert(current_entries(entries) =~= entries.update(
                at,
                (entries[at].0, current_account(entries[at].1)),
            ));
        } else {
            assert(current_entries(entries) =~= entries);
        }
    }
}

/// Drops from a state's document what is no longer kept of an account.
pub fn strip_retired_fields(document: Json) -> (r: Json)
    ensures
        r@ == current_document(document@),
{
    match document {
        Json::Object(mut entries) => {
            proof {
                lemma_object_view(entries);
            }
            let ghost all = entry_views(entries@);
            let mut i: usize = 0;
            while i < entries.len()
                invariant
                    i <= entries@.len(),
                    all == entry_views(entries@),
                    document@ == JsonView::Object(all),
                    forall|k: int| 0 <= k < i ==> (#[trigger] all[k]).0 != "account"@,
                decreases entries@.len() - i,
            {
                if same_text(entries[i].0.as_str(), "account") {
                    let (key, account) = entries.remove(i);
                    assert(all[i as int] == (key@, account@));
                    let stripped = strip_account(account);
                    entries.insert(i, (key, stripped));
                    proof {
                        lemma_current_entries(all, i as int);
                        lemma_object_view(entries);
                        assert(entry_views(entries@) =~= all.update(i as int, (key@, stripped@)));
                    }
                    return Json::Object(entries);
                }
                assert(all[i as int].0 == entries@[i as int].0@);
                i += 1;
            }
            proof {
                lemma_current_entries(all, i as int);
                lemma_object_view(entries);
            }
            Json::Object(entries)
        },
        other => other,
    }
}

/// Accepts a state of this version or an earlier one.
pub fn accept_schema(state: QuotaGuardRuntimeState) -> (r: Result<QuotaGuardRuntimeState, String>)
    ensures
        match r {
            Ok(accepted) => accepted == state && state.schema_version <= STATE_SCHEMA_VERSION,
            Err(message) => state.schema_version > STATE_SCHEMA_VERSION && message@
                == "unsupported quota guard runtime schema "@ + decimal(
                state.schema_version as nat,
            ),
        },
{
    if state.schema_version > STATE_SCHEMA_VERSION {
        let mut message = "unsupported quota guard runtime schema ".to_owned();
        message.append(decimal_text(state.schema_version as u64).as_str());
        return Err(message);
    }
    Ok(state)
}

/// What loading finds: the state, or else the backup, or else nothing, or else something that
/// cannot be used.
pub open spec fn loaded(
    state: Option<RuntimeView>,
    backup: Option<RuntimeView>,
    state_exists: bool,
    backup_exists: bool,
    quarantined_to: Seq<char>,
) -> LoadView {
    if state is Some {
        LoadView::Valid(state->0)
    } else if backup is Some {
        LoadView::Valid(backup->0)
    } else if !state_exists && !backup_exists {
        LoadView::Missing
    } else {
        LoadView::Corrupt { quarantined_to }
    }
}

/// What a state holds that could be read.
pub open spec fn read_view(outcome: Option<QuotaGuardRuntimeState>) -> Option<RuntimeView> {
    match outcome {
        Some(state) => Some(state@),
        None => None,
    }
}

/// Decides what loading has found. `state` and `backup` are what was read, where it could be; the
/// backup matters only where the state itself cannot be read.
pub fn load_runtime(
    style: PathStyle,
    path: &str,
    timestamp_ms: i64,
    state: Option<QuotaGuardRuntimeState>,
    backup: Option<QuotaGuardRuntimeState>,
    state_exists: bool,
    backup_exists: bool,
) -> (r: LoadRuntime)
    ensures
        r@ == loaded(
            read_view(state),
            read_view(backup),
            state_exists,
            backup_exists,
            quarantine(style, path@, timestamp_ms),
        ),
{
    match state {
        Some(state) => {
            return LoadRuntime::Valid(state);
        },
        None => {},
    }
    match backup {
        Some(state) => {
            return LoadRuntime::Valid(state);
        },
        None => {},
    }
    if !state_exists && !backup_exists {
        return LoadRuntime::Missing;
    }
    LoadRuntime::Corrupt { quarantined_to: quarantine_path(style, path, timestamp_ms) }
}

/// A file operation of keeping the state.
#[derive(Debug, Clone, Copy, PartialEq, Eq, Structural)]
pub enum PersistStep {
    /// Make the directory.
    CreateDirectory,
    /// Write the new state beside the old one and wait until it is on disk.
    WriteTemporary,
    /// Put the new state in place of the old one, which becomes the backup.
    ReplaceState,
    /// Put the new state where there is none.
    MoveIntoPlace,
    /// Remove the backup.
    RemoveBackup,
    /// Nothing is left to do.
    Finished,
}

/// The operation after `step` has succeeded.
pub open spec fn following(step: PersistStep, state_exists: bool, backup_exists: bool) -> PersistStep {
    match step {
        PersistStep::CreateDirectory => PersistStep::WriteTemporary,
        PersistStep::WriteTemporary => if state_exists {
            PersistStep::ReplaceState
        } else {
            PersistStep::MoveIntoPlace
        },
        PersistStep::ReplaceState | PersistStep::MoveIntoPlace => if backup_exists {
            PersistStep::RemoveBackup
        } else {
            PersistStep::Finished
        },
        PersistStep::RemoveBackup | PersistStep::Finished => PersistStep::Finished,
    }
}

/// The operation after `step` has succeeded, for the files that exist at this moment.
pub fn next_persist_step(step: PersistStep, state_exists: bool, backup_exists: bool) -> (r:
    PersistStep)
    ensures
        r == following(step, state_exists, backup_exists),
{
    match step {
        PersistStep::CreateDirectory => PersistStep::WriteTemporary,
        PersistStep::WriteTemporary => if state_exists {
            PersistStep::ReplaceState
        } else {
            PersistStep::MoveIntoPlace
        },
        PersistStep::ReplaceState | PersistStep::MoveIntoPlace => if backup_exists {
            PersistStep::RemoveBackup
        } else {
            PersistStep::Finished
        },
        PersistStep::RemoveBackup | PersistStep::Finished => PersistStep::Finished,
    }
}

/// The first operation of keeping a state; none where the path has no directory.
pub fn first_persist_step(style: PathStyle, path: &str) -> (r: Result<PersistStep, String>)
    ensures
        match r {
            Ok(step) => step == PersistStep::CreateDirectory && crate::paths::trimmed_path(
                style,
                path@,
            ).len() > 0,
            Err(message) => message@ == "quota guard state path has no parent"@
                && crate::paths::trimmed_path(style, path@).len() == 0,
        },
{
    match crate::paths::parent(style, path) {
        Some(_) => Ok(PersistStep::CreateDirectory),
        None => Err("quota guard state path has no parent".to_owned()),
    }
}

/// The state is touched only after the new one is on disk, and the backup is removed only
/// after the new state is in its place.
pub proof fn writes_come_in_order(step: PersistStep, state_exists: bool, backup_exists: bool)
    ensures
        ({
            let next = following(step, state_exists, backup_exists);
            &&& (next == PersistStep::ReplaceState || next == PersistStep::MoveIntoPlace)
                ==> step == PersistStep::WriteTemporary
            &&& next == PersistStep::RemoveBackup ==> step == PersistStep::ReplaceState || step
                == PersistStep::MoveIntoPlace
        }),
{
}

/// A state that can be read is never given up for a backup, and one that exists is never
/// reported as missing.
pub proof fn loading_prefers_the_state(
    state: Option<RuntimeView>,
    backup: Option<RuntimeView>,
    state_exists: bool,
    backup_exists: bool,
    quarantined_to: Seq<char>,
)
    ensures
        state is Some ==> loaded(state, backup, state_exists, backup_exists, quarantined_to)
            == LoadView::Valid(state->0),
        loaded(state, backup, state_exists, backup_exists, quarantined_to) is Missing ==> state
            is None && backup is None && !state_exists && !backup_exists,
{
}

/// The state, its backup and what is written before it takes its place are three files of one
/// directory, where the state's path names a file.
pub proof fn kept_files_stand_side_by_side(style: PathStyle, path: Seq<char>)
    requires
        file_name_of(style, path) is Some,
    ensures
        ({
            let backup = beside(style, path, "bak"@);
            let temporary = beside(style, path, "tmp"@);
            &&& backup != path && temporary != path && backup != temporary
            &&& file_name_of(style, backup) is Some && file_name_of(style, temporary) is Some
            &&& file_name_of(style, backup) != file_name_of(style, path)
            &&& file_name_of(style, temporary) != file_name_of(style, path)
            &&& file_name_of(style, backup) != file_name_of(style, temporary)
            &&& directory_of(style, backup) == directory_of(style, path)
            &&& directory_of(style, temporary) == directory_of(style, path)
        }),
{
    reveal_strlit("bak");
    reveal_strlit("tmp");
    let name = file_name_of(style, path)->0;
    longer_extensions_stay_in_the_directory(style, path, "bak"@);
    longer_extensions_stay_in_the_directory(style, path, "tmp"@);
    let dot = if extension_start(name) is Some { Seq::<char>::empty() } else { seq!['.'] };
    assert((name + dot + "bak"@).last() == 'k');
    assert((name + dot + "tmp"@).last() == 'p');
    assert((name + dot + "bak"@).len() > name.len());
    assert((name + dot + "tmp"@).len() > name.len());
}

} // verus!
