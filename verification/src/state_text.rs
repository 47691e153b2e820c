//! The text in which the limiter's state is kept.

use crate::json::{first_under, parse_json, Json, JsonView};
use crate::json_order::document_in;
use crate::model::{QuotaGuardRuntimeState, STATE_SCHEMA_VERSION};
use crate::persistence::{
    accept_schema, current_account, current_document, current_entries, current_members, retired,
    strip_retired_fields,
};
use crate::state_file::{
    account_in, kept_state, read_state, state_document, state_holds_only_what_is_kept, state_in,
    without_null_credits, KeptState,
};
use crate::text::decimal;
use vstd::prelude::*;
use vstd::string::*;

verus! {

/// Why a text holds no state that is taken.
#[derive(Debug, PartialEq, Eq)]
pub enum StateError {
    /// It holds no document; the message says why.
    NoDocument { message: String },
    /// The document is not that of a state.
    Malformed,
    /// The state is of a later version; the message says of which.
    Unsupported { message: String },
}

/// What is said of a text that holds no state that is taken.
pub enum StateFault {
    NoDocument { message: Seq<char> },
    Malformed,
    Unsupported { message: Seq<char> },
}

impl View for StateError {
    type V = StateFault;

    open spec fn view(&self) -> StateFault {
        match *self {
            StateError::NoDocument { message } => StateFault::NoDocument { message: message@ },
            StateError::Malformed => StateFault::Malformed,
            StateError::Unsupported { message } => StateFault::Unsupported { message: message@ },
        }
    }
}

/// The state in a document, or why there is none: what is no longer kept is dropped first, and
/// a state of a later version is not taken.
pub open spec fn state_of(document: JsonView) -> Result<KeptState, StateFault> {
    match state_in(current_document(document)) {
        None => Err(StateFault::Malformed),
        Some(state) => if state.schema_version > STATE_SCHEMA_VERSION {
            Err(
                StateFault::Unsupported {
                    message: "unsupported quota guard runtime schema "@ + decimal(
                        state.schema_version as nat,
                    ),
                },
            )
        } else {
            Ok(state)
        },
    }
}

/// The state in a text, or why there is none.
pub open spec fn state_in_text(content: Result<JsonView, Seq<char>>) -> Result<
    KeptState,
    StateFault,
> {
    match content {
        Err(message) => Err(StateFault::NoDocument { message }),
        Ok(document) => state_of(document),
    }
}

/// Takes the state from a document.
pub fn state_from_document(document: Json) -> (r: Result<QuotaGuardRuntimeState, StateError>)
    ensures
        match r {
            Ok(state) => state_of(document@) == Ok::<KeptState, StateFault>(kept_state(state@))
                && state_holds_only_what_is_kept(state@),
            Err(error) => state_of(document@) == Err::<KeptState, StateFault>(error@),
        },
{
    let current = strip_retired_fields(document);
    match read_state(&current) {
        Some(state) => match accept_schema(state) {
            Ok(state) => Ok(state),
            Err(message) => Err(StateError::Unsupported { message }),
        },
        None => Err(StateError::Malformed),
    }
}

/// Takes the state from a text.
pub fn parse(text: &str) -> (r: Result<QuotaGuardRuntimeState, StateError>)
    ensures
        match r {
            Ok(state) => state_in_text(document_in(text@)) == Ok::<KeptState, StateFault>(
                kept_state(state@),
            ) && state_holds_only_what_is_kept(state@),
            Err(error) => state_in_text(document_in(text@)) == Err::<KeptState, StateFault>(error@),
        },
{
    match parse_json(text) {
        Ok(document) => state_from_document(document),
        Err(message) => Err(StateError::NoDocument { message }),
    }
}

proof fn lemma_kept_member(entries: Seq<(Seq<char>, JsonView)>, key: Seq<char>)
    requires
        !retired(key),
    ensures
        first_under(current_members(entries), key) == first_under(entries, key),
    decreases entries.len(),
{
    reveal(Seq::filter);
    let keep = |entry: (Seq<char>, JsonView)| !retired(entry.0);
    if entries.len() > 0 {
        let head = seq![entries[0]];
        let tail = entries.drop_first();
        assert(entries =~= head + tail);
        Seq::filter_distributes_over_add(head, tail, keep);
        lemma_kept_member(tail, key);
        assert(head.drop_last() =~= Seq::<(Seq<char>, JsonView)>::empty());
        assert(head.drop_last().filter(keep) =~= Seq::<(Seq<char>, JsonView)>::empty());
        if keep(entries[0]) {
            assert(head.filter(keep) =~= head);
            assert(entries.filter(keep) =~= head + tail.filter(keep));
            assert(entries.filter(keep).drop_first() =~= tail.filter(keep));
        } else {
            assert(head.filter(keep) =~= Seq::<(Seq<char>, JsonView)>::empty());
            assert(entries.filter(keep) =~= tail.filter(keep));
        }
    }
}

proof fn lemma_other_member(entries: Seq<(Seq<char>, JsonView)>, key: Seq<char>)
    ensures
        first_under(current_entries(entries), key) == if key == "account"@ {
            match first_under(entries, key) {
                Some(account) => Some(current_account(account)),
                None => None,
            }
        } else {
            first_under(entries, key)
        },
    decreases entries.len(),
{
    if entries.len() > 0 {
        let rest = entries.drop_first();
        lemma_other_member(rest, key);
        let after = current_entries(entries);
        if entries[0].0 == "account"@ {
            assert(after.drop_first() =~= rest);
        } else {
            assert(after.drop_first() =~= current_entries(rest));
        }
    }
}

proof fn lemma_read_members_are_kept()
    ensures
        !retired("accountKey"@),
        !retired("phase"@),
        !retired("snapshot"@),
        !retired("associatedWorkspaceIds"@),
        !retired("localTurnRegistry"@),
        !retired("activityEntries"@),
        !retired("suspendedExternalEngines"@),
        !retired("monitorHealthy"@),
        !retired("lastError"@),
        !retired("updatedAt"@),
        !retired("fireAtOrAboveOnNextSnapshot"@),
{
    reveal_strlit("accountKey");
    reveal_strlit("phase");
    reveal_strlit("snapshot");
    reveal_strlit("associatedWorkspaceIds");
    reveal_strlit("localTurnRegistry");
    reveal_strlit("activityEntries");
    reveal_strlit("suspendedExternalEngines");
    reveal_strlit("monitorHealthy");
    reveal_strlit("lastError");
    reveal_strlit("updatedAt");
    reveal_strlit("fireAtOrAboveOnNextSnapshot");
    reveal_strlit("revalidationReturnPhase");
    reveal_strlit("episodePolicy");
    reveal_strlit("firedEpisodes");
    reveal_strlit("breachedWindows");
    reveal_strlit("drainDeadline");
    reveal_strlit("allowedDrainTurns");
    reveal_strlit("pendingInterruptIndex");
    reveal_strlit("pendingLocalStarts");
    reveal_strlit("unmatchedStartedTurns");
    reveal_strlit("terminalObservations");
    assert("accountKey"@.len() == 10 && "accountKey"@[0] == 'a');
    assert("phase"@.len() == 5 && "phase"@[0] == 'p');
    assert("snapshot"@.len() == 8 && "snapshot"@[0] == 's');
    assert("associatedWorkspaceIds"@.len() == 22 && "associatedWorkspaceIds"@[0] == 'a');
    assert("localTurnRegistry"@.len() == 17 && "localTurnRegistry"@[0] == 'l');
    assert("activityEntries"@.len() == 15 && "activityEntries"@[0] == 'a');
    assert("suspendedExternalEngines"@.len() == 24 && "suspendedExternalEngines"@[0] == 's');
    assert("monitorHealthy"@.len() == 14 && "monitorHealthy"@[0] == 'm');
    assert("lastError"@.len() == 9 && "lastError"@[0] == 'l');
    assert("updatedAt"@.len() == 9 && "updatedAt"@[0] == 'u');
    assert("fireAtOrAboveOnNextSnapshot"@.len() == 27 && "fireAtOrAboveOnNextSnapshot"@[0] == 'f');
    assert("revalidationReturnPhase"@.len() == 23 && "revalidationReturnPhase"@[0] == 'r');
    assert("episodePolicy"@.len() == 13 && "episodePolicy"@[0] == 'e');
    assert("firedEpisodes"@.len() == 13 && "firedEpisodes"@[0] == 'f');
    assert("breachedWindows"@.len() == 15 && "breachedWindows"@[0] == 'b');
    assert("drainDeadline"@.len() == 13 && "drainDeadline"@[0] == 'd');
    assert("allowedDrainTurns"@.len() == 17 && "allowedDrainTurns"@[0] == 'a');
    assert("pendingInterruptIndex"@.len() == 21 && "pendingInterruptIndex"@[0] == 'p');
    assert("pendingLocalStarts"@.len() == 18 && "pendingLocalStarts"@[0] == 'p');
    assert("unmatchedStartedTurns"@.len() == 21 && "unmatchedStartedTurns"@[0] == 'u');
    assert("terminalObservations"@.len() == 20 && "terminalObservations"@[0] == 't');
}

proof fn lemma_current_account(account: JsonView)
    ensures
        account_in(current_account(account)) == account_in(account),
{
    lemma_read_members_are_kept();
    if let JsonView::Object(entries) = account {
        lemma_kept_member(entries, "accountKey"@);
        lemma_kept_member(entries, "phase"@);
        lemma_kept_member(entries, "snapshot"@);
        lemma_kept_member(entries, "associatedWorkspaceIds"@);
        lemma_kept_member(entries, "localTurnRegistry"@);
        lemma_kept_member(entries, "activityEntries"@);
        lemma_kept_member(entries, "suspendedExternalEngines"@);
        lemma_kept_member(entries, "monitorHealthy"@);
        lemma_kept_member(entries, "lastError"@);
        lemma_kept_member(entries, "updatedAt"@);
        lemma_kept_member(entries, "fireAtOrAboveOnNextSnapshot"@);
    }
}

/// What is dropped because it is no longer kept makes no difference to what is read.
pub proof fn retired_members_make_no_difference(document: JsonView)
    ensures
        state_in(current_document(document)) == state_in(document),
{
    if let JsonView::Object(entries) = document {
        reveal_strlit("schemaVersion");
        reveal_strlit("lifecycleGeneration");
        reveal_strlit("nextOperationId");
        reveal_strlit("account");
        reveal_strlit("effectiveSettings");
        assert("schemaVersion"@.len() == 13);
        assert("lifecycleGeneration"@.len() == 19);
        assert("nextOperationId"@.len() == 15);
        assert("account"@.len() == 7);
        assert("effectiveSettings"@.len() == 17);
        lemma_other_member(entries, "schemaVersion"@);
        lemma_other_member(entries, "lifecycleGeneration"@);
        lemma_other_member(entries, "nextOperationId"@);
        lemma_other_member(entries, "account"@);
        lemma_other_member(entries, "effectiveSettings"@);
        if let Some(account) = document.get("account"@) {
            lemma_current_account(account);
            assert(current_account(account) is Null <==> account is Null);
        }
    }
}

/// A state of this version, or of an earlier one, is read back from its document as it was
/// written, but for what is not kept. Credits that are null are read as none.
pub proof fn written_states_are_read_back(state: KeptState)
    requires
        state.schema_version <= STATE_SCHEMA_VERSION,
    ensures
        state_of(state_document(state)) == Ok::<KeptState, StateFault>(without_null_credits(state)),
{
    retired_members_make_no_difference(state_document(state));
    crate::state_file::states_are_read_back(state);
}

} // verus!
