//! What is read of rate limits and errors, stated on the members of the documents.

use crate::json::JsonView;
use crate::model::{RateLimitWindow, SnapshotView};
use crate::parser::{error_info, rate_limits_in};
use crate::text::trimmed;
use vstd::prelude::*;

verus! {

/// The envelope makes no difference: limits are read alike from an answer, from under either
/// spelling of their name, and from the document itself.
pub proof fn limits_are_found_in_every_envelope(
    value: JsonView,
    limits: JsonView,
    previous: Option<SnapshotView>,
    observed_at: i64,
)
    requires
        limits.get("result"@) is None,
        limits.get("rateLimits"@) is None,
        limits.get("rate_limits"@) is None,
        ({
            let held = |holder: JsonView|
                holder.get("rateLimits"@) == Some(limits) || (holder.get("rateLimits"@) is None
                    && holder.get("rate_limits"@) == Some(limits));
            ||| value.get("result"@) == Some(limits)
            ||| value.get("result"@) is None && held(value)
            ||| value.get("result"@) matches Some(result) && held(result)
        }),
    ensures
        rate_limits_in(value, previous, observed_at) == rate_limits_in(
            limits,
            previous,
            observed_at,
        ),
{
}

/// What is given of the primary window counts, whatever was known of it: a use of `n`, or what
/// remains, under any of the names, gives exactly that use. A use that is given comes before what
/// remains.
pub proof fn a_given_primary_use_replaces_the_known_one(
    limits: JsonView,
    window: JsonView,
    previous: Option<SnapshotView>,
    observed_at: i64,
    n: u64,
)
    requires
        observed_at >= 0,
        n <= 100,
        limits.get("result"@) is None,
        limits.get("rateLimits"@) is None,
        limits.get("rate_limits"@) is None,
        limits.get("primary"@) == Some(window),
        window is Object,
    ensures
        ({
            let given = Some(JsonView::Unsigned(n));
            let r = rate_limits_in(limits, previous, observed_at);
            let used = window.get("usedPercent"@) == given || (window.get("usedPercent"@) is None
                && window.get("used_percent"@) == given);
            let remains = window.get("usedPercent"@) is None && window.get("used_percent"@) is None
                && (window.get("remainingPercent"@) == given || (window.get("remainingPercent"@)
                is None && (window.get("remaining_percent"@) == given || (window.get(
                "remaining_percent"@,
            ) is None && window.get("remaining"@) == given))));
            &&& used ==> (r matches Ok(limits) ==> (limits.primary matches Some(w) && w.used_percent
                == n))
            &&& remains ==> (r matches Ok(limits) ==> (limits.primary matches Some(w) && w.used_percent
                == 100 - n))
        }),
{
}

/// What an update leaves out of the primary window stays as it was known: the use where it is missing
/// or null, the reset time and the length where they are missing. A null clears the reset time and
/// the length, and a number sets them. A window that is missing as a whole stays as it was known,
/// and a null clears it; without a use that is given or known there is none.
pub proof fn a_sparse_update_of_the_primary_window_keeps_the_rest(
    limits: JsonView,
    previous: Option<SnapshotView>,
    observed_at: i64,
)
    requires
        limits.get("result"@) is None,
        limits.get("rateLimits"@) is None,
        limits.get("rate_limits"@) is None,
        rate_limits_in(limits, previous, observed_at) is Ok,
    ensures
        ({
            let known: Option<RateLimitWindow> = match previous {
                Some(snapshot) => snapshot.primary,
                None => None,
            };
            let read = rate_limits_in(limits, previous, observed_at)->Ok_0.primary;
            &&& limits.get("primary"@) is None ==> read == known
            &&& limits.get("primary"@) == Some(JsonView::Null) ==> read is None
            &&& limits.get("primary"@) is Some && limits.get("primary"@)->0 is Object ==> {
                let window = limits.get("primary"@)->0;
                let use_given = match (window.get("usedPercent"@), window.get("used_percent"@)) {
                    (Some(member), _) => Some(member),
                    (None, Some(member)) => Some(member),
                    (None, None) => match (
                        window.get("remainingPercent"@),
                        window.get("remaining_percent"@),
                    ) {
                        (Some(member), _) => Some(member),
                        (None, Some(member)) => Some(member),
                        (None, None) => window.get("remaining"@),
                    },
                };
                let reset_given = match (window.get("resetsAt"@), window.get("resets_at"@)) {
                    (Some(member), _) => Some(member),
                    (None, other) => other,
                };
                let length_given = match (
                    window.get("windowDurationMins"@),
                    window.get("window_duration_mins"@),
                ) {
                    (Some(member), _) => Some(member),
                    (None, other) => other,
                };
                let kept = use_given is None || use_given == Some(JsonView::Null);
                &&& kept && known is None ==> read is None
                &&& kept && known is Some ==> read is Some && read->0.used_percent
                    == known->0.used_percent
                &&& !kept ==> read is Some
                &&& read is Some ==> {
                    &&& reset_given is None ==> read->0.reset_at == (match known {
                        Some(window) => window.reset_at,
                        None => None,
                    })
                    &&& reset_given == Some(JsonView::Null) ==> read->0.reset_at is None
                    &&& reset_given matches Some(JsonView::Unsigned(at)) ==> read->0.reset_at
                        is Some && read->0.reset_at->0 == at
                    &&& length_given is None ==> read->0.window_duration_mins == (match known {
                        Some(window) => window.window_duration_mins,
                        None => None,
                    })
                    &&& length_given == Some(JsonView::Null) ==> read->0.window_duration_mins
                        is None
                    &&& length_given matches Some(JsonView::Unsigned(minutes))
                        ==> read->0.window_duration_mins == Some(minutes)
                }
            }
        }),
{
}

/// What is given of the secondary window counts, whatever was known of it: a use of `n`, or what
/// remains, under any of the names, gives exactly that use. A use that is given comes before what
/// remains.
pub proof fn a_given_secondary_use_replaces_the_known_one(
    limits: JsonView,
    window: JsonView,
    previous: Option<SnapshotView>,
    observed_at: i64,
    n: u64,
)
    requires
        observed_at >= 0,
        n <= 100,
        limits.get("result"@) is None,
        limits.get("rateLimits"@) is None,
        limits.get("rate_limits"@) is None,
        limits.get("secondary"@) == Some(window),
        window is Object,
    ensures
        ({
            let given = Some(JsonView::Unsigned(n));
            let r = rate_limits_in(limits, previous, observed_at);
            let used = window.get("usedPercent"@) == given || (window.get("usedPercent"@) is None
                && window.get("used_percent"@) == given);
            let remains = window.get("usedPercent"@) is None && window.get("used_percent"@) is None
                && (window.get("remainingPercent"@) == given || (window.get("remainingPercent"@)
                is None && (window.get("remaining_percent"@) == given || (window.get(
                "remaining_percent"@,
            ) is None && window.get("remaining"@) == given))));
            &&& used ==> (r matches Ok(limits) ==> (limits.secondary matches Some(w) && w.used_percent
                == n))
            &&& remains ==> (r matches Ok(limits) ==> (limits.secondary matches Some(w) && w.used_percent
                == 100 - n))
        }),
{
}

/// What an update leaves out of the secondary window stays as it was known: the use where it is missing
/// or null, the reset time and the length where they are missing. A null clears the reset time and
/// the length, and a number sets them. A window that is missing as a whole stays as it was known,
/// and a null clears it; without a use that is given or known there is none.
pub proof fn a_sparse_update_of_the_secondary_window_keeps_the_rest(
    limits: JsonView,
    previous: Option<SnapshotView>,
    observed_at: i64,
)
    requires
        limits.get("result"@) is None,
        limits.get("rateLimits"@) is None,
        limits.get("rate_limits"@) is None,
        rate_limits_in(limits, previous, observed_at) is Ok,
    ensures
        ({
            let known: Option<RateLimitWindow> = match previous {
                Some(snapshot) => snapshot.secondary,
                None => None,
            };
            let read = rate_limits_in(limits, previous, observed_at)->Ok_0.secondary;
            &&& limits.get("secondary"@) is None ==> read == known
            &&& limits.get("secondary"@) == Some(JsonView::Null) ==> read is None
            &&& limits.get("secondary"@) is Some && limits.get("secondary"@)->0 is Object ==> {
                let window = limits.get("secondary"@)->0;
                let use_given = match (window.get("usedPercent"@), window.get("used_percent"@)) {
                    (Some(member), _) => Some(member),
                    (None, Some(member)) => Some(member),
                    (None, None) => match (
                        window.get("remainingPercent"@),
                        window.get("remaining_percent"@),
                    ) {
                        (Some(member), _) => Some(member),
                        (None, Some(member)) => Some(member),
                        (None, None) => window.get("remaining"@),
                    },
                };
                let reset_given = match (window.get("resetsAt"@), window.get("resets_at"@)) {
                    (Some(member), _) => Some(member),
                    (None, other) => other,
                };
                let length_given = match (
                    window.get("windowDurationMins"@),
                    window.get("window_duration_mins"@),
                ) {
                    (Some(member), _) => Some(member),
                    (None, other) => other,
                };
                let kept = use_given is None || use_given == Some(JsonView::Null);
                &&& kept && known is None ==> read is None
                &&& kept && known is Some ==> read is Some && read->0.used_percent
                    == known->0.used_percent
                &&& !kept ==> read is Some
                &&& read is Some ==> {
                    &&& reset_given is None ==> read->0.reset_at == (match known {
                        Some(window) => window.reset_at,
                        None => None,
                    })
                    &&& reset_given == Some(JsonView::Null) ==> read->0.reset_at is None
                    &&& reset_given matches Some(JsonView::Unsigned(at)) ==> read->0.reset_at
                        is Some && read->0.reset_at->0 == at
                    &&& length_given is None ==> read->0.window_duration_mins == (match known {
                        Some(window) => window.window_duration_mins,
                        None => None,
                    })
                    &&& length_given == Some(JsonView::Null) ==> read->0.window_duration_mins
                        is None
                    &&& length_given matches Some(JsonView::Unsigned(minutes))
                        ==> read->0.window_duration_mins == Some(minutes)
                }
            }
        }),
{
}

/// The rest of a reading: the plan and the kind of limit that was reached are kept where they are
/// missing, cleared by a null and else the text that is given; so are the credits, whatever they
/// are. The time is that of the reading.
pub proof fn the_rest_of_a_reading_is_what_is_given(
    limits: JsonView,
    previous: Option<SnapshotView>,
    observed_at: i64,
)
    requires
        limits.get("result"@) is None,
        limits.get("rateLimits"@) is None,
        limits.get("rate_limits"@) is None,
        rate_limits_in(limits, previous, observed_at) is Ok,
    ensures
        ({
            let read = rate_limits_in(limits, previous, observed_at)->Ok_0;
            let plan = match (limits.get("planType"@), limits.get("plan_type"@)) {
                (Some(member), _) => Some(member),
                (None, other) => other,
            };
            let reached = match (
                limits.get("rateLimitReachedType"@),
                limits.get("rate_limit_reached_type"@),
            ) {
                (Some(member), _) => Some(member),
                (None, other) => other,
            };
            &&& read.observed_at == observed_at
            &&& plan is None ==> read.plan_type == (match previous {
                Some(snapshot) => snapshot.plan_type,
                None => None,
            })
            &&& plan == Some(JsonView::Null) ==> read.plan_type is None
            &&& plan matches Some(JsonView::Text(text)) ==> read.plan_type == Some(text)
            &&& reached is None ==> read.rate_limit_reached_type == (match previous {
                Some(snapshot) => snapshot.rate_limit_reached_type,
                None => None,
            })
            &&& reached == Some(JsonView::Null) ==> read.rate_limit_reached_type is None
            &&& reached matches Some(JsonView::Text(text)) ==> read.rate_limit_reached_type
                == Some(text)
            &&& limits.get("credits"@) is None ==> read.credits == (match previous {
                Some(snapshot) => snapshot.credits,
                None => None,
            })
            &&& limits.get("credits"@) == Some(JsonView::Null) ==> read.credits is None
            &&& limits.get("credits"@) is Some && limits.get("credits"@) != Some(JsonView::Null)
                ==> read.credits == limits.get("credits"@)
        }),
{
}

/// A reading succeeds exactly where its time is not negative, the limits are an object, each window
/// that is given is an object whose use is a percentage and whose reset time and length, where the
/// use is known, are no negative numbers, and the plan and the kind of limit are no blank texts. A
/// member that is missing or null is in order.
pub proof fn readings_succeed_where_their_members_are_in_order(
    limits: JsonView,
    previous: Option<SnapshotView>,
    observed_at: i64,
)
    requires
        limits.get("result"@) is None,
        limits.get("rateLimits"@) is None,
        limits.get("rate_limits"@) is None,
    ensures
        ({
            let either = |value: JsonView, camel: Seq<char>, snake: Seq<char>|
                match (value.get(camel), value.get(snake)) {
                    (Some(member), _) => Some(member),
                    (None, other) => other,
                };
            let natural = |member: Option<JsonView>|
                match member {
                    Some(JsonView::Unsigned(n)) => n <= i64::MAX,
                    Some(JsonView::Negative(n)) => n >= 0,
                    Some(JsonView::Null) => true,
                    None => true,
                    _ => false,
                };
            let percentage = |member: Option<JsonView>|
                match member {
                    Some(JsonView::Unsigned(n)) => n <= 100,
                    Some(JsonView::Negative(n)) => 0 <= n <= 100,
                    Some(JsonView::Null) => true,
                    None => true,
                    _ => false,
                };
            let text = |member: Option<JsonView>|
                match member {
                    Some(JsonView::Text(s)) => trimmed(s).len() > 0,
                    Some(JsonView::Null) => true,
                    None => true,
                    _ => false,
                };
            let given = |window: JsonView|
                match (
                    either(window, "usedPercent"@, "used_percent"@),
                    either(window, "remainingPercent"@, "remaining_percent"@),
                ) {
                    (Some(member), _) => Some(member),
                    (None, Some(member)) => Some(member),
                    (None, None) => window.get("remaining"@),
                };
            let ordered = |member: Option<JsonView>, known: bool|
                match member {
                    None => true,
                    Some(JsonView::Null) => true,
                    Some(window) => window is Object && percentage(given(window)) && ((!known && (
                    given(window) is None || given(window) == Some(JsonView::Null))) || (natural(
                        either(window, "windowDurationMins"@, "window_duration_mins"@),
                    ) && natural(either(window, "resetsAt"@, "resets_at"@)))),
                };
            rate_limits_in(limits, previous, observed_at) is Ok <==> {
                &&& observed_at >= 0
                &&& limits is Object
                &&& ordered(
                    limits.get("primary"@),
                    previous matches Some(snapshot) && snapshot.primary is Some,
                )
                &&& ordered(
                    limits.get("secondary"@),
                    previous matches Some(snapshot) && snapshot.secondary is Some,
                )
                &&& text(either(limits, "rateLimitReachedType"@, "rate_limit_reached_type"@))
                &&& text(either(limits, "planType"@, "plan_type"@))
            }
        }),
{
}

/// A use of more than a hundred, or what remains of more than a hundred, is refused and not cut
/// down, whatever was known.
pub proof fn more_than_the_whole_is_refused(
    limits: JsonView,
    window: JsonView,
    previous: Option<SnapshotView>,
    observed_at: i64,
    n: u64,
)
    requires
        observed_at >= 0,
        100 < n <= i64::MAX,
        limits is Object,
        limits.get("result"@) is None,
        limits.get("rateLimits"@) is None,
        limits.get("rate_limits"@) is None,
        limits.get("primary"@) == Some(window),
        window is Object,
    ensures
        ({
            let r = rate_limits_in(limits, previous, observed_at);
            &&& window.get("usedPercent"@) == Some(JsonView::Unsigned(n)) ==> r == Err::<
                SnapshotView,
                Seq<char>,
            >("used percent is outside 0..=100"@)
            &&& window.get("usedPercent"@) is None && window.get("used_percent"@) is None
                && window.get("remainingPercent"@) == Some(JsonView::Unsigned(n)) ==> r == Err::<
                SnapshotView,
                Seq<char>,
            >("remaining percent is outside 0..=100"@)
        }),
{
}

/// The kind of an error is read from the error itself, under either spelling, and else from the
/// error inside it.
pub proof fn the_kind_of_an_error_is_found(error: JsonView, info: JsonView)
    ensures
        error.get("codexErrorInfo"@) == Some(info) ==> error_info(error) == Some(info),
        error.get("codexErrorInfo"@) is None && error.get("codex_error_info"@) == Some(info)
            ==> error_info(error) == Some(info),
        error.get("codexErrorInfo"@) is None && error.get("codex_error_info"@) is None && (
        error.get("error"@) matches Some(inner) && (inner.get("codexErrorInfo"@) == Some(info) || (
        inner.get("codexErrorInfo"@) is None && inner.get("codex_error_info"@) == Some(info))))
            ==> error_info(error) == Some(info),
{
}

/// The second of two readings decides: what the first gave of a use makes no difference once the
/// second gives one.
pub proof fn the_later_use_counts(
    first: JsonView,
    second: JsonView,
    window: JsonView,
    previous: Option<SnapshotView>,
    observed_at: i64,
    later_at: i64,
    n: u64,
)
    requires
        later_at >= 0,
        n <= 100,
        rate_limits_in(first, previous, observed_at) is Ok,
        second.get("result"@) is None,
        second.get("rateLimits"@) is None,
        second.get("rate_limits"@) is None,
        second.get("primary"@) == Some(window),
        window is Object,
        window.get("usedPercent"@) == Some(JsonView::Unsigned(n)),
    ensures
        ({
            let known = rate_limits_in(first, previous, observed_at)->Ok_0;
            rate_limits_in(second, Some(known), later_at) matches Ok(read) ==> (
            read.primary matches Some(w) && w.used_percent == n)
        }),
{
}

/// What cannot be read is refused with what is wrong: the time, the limits, or the member that is
/// not what it should be.
pub proof fn what_is_wrong_with_limits_is_named(
    limits: JsonView,
    previous: Option<SnapshotView>,
    observed_at: i64,
)
    requires
        limits.get("result"@) is None,
        limits.get("rateLimits"@) is None,
        limits.get("rate_limits"@) is None,
    ensures
        ({
            let r = rate_limits_in(limits, previous, observed_at);
            let wrong = |message: Seq<char>| r == Err::<SnapshotView, Seq<char>>(message);
            let bare = limits.get("primary"@) is None && limits.get("secondary"@) is None;
            let text = |member: Option<JsonView>|
                member is Some && !(member->0 is Null) && !(member->0 is Text);
            &&& observed_at < 0 ==> wrong(
                "observedAt must be a non-negative Unix millisecond timestamp"@,
            )
            &&& observed_at >= 0 && !(limits is Object) ==> wrong("rate limits must be an object"@)
            &&& observed_at >= 0 && bare && text(limits.get("rateLimitReachedType"@)) ==> wrong(
                "rateLimitReachedType"@ + " must be a non-empty string or null"@,
            )
            &&& observed_at >= 0 && bare && limits.get("rateLimitReachedType"@) is None
                && limits.get("rate_limit_reached_type"@) is None && text(limits.get("planType"@))
                ==> wrong("planType"@ + " must be a non-empty string or null"@)
        }),
{
}

/// What cannot be read of a window is refused with what is wrong: that it is no object, or the
/// number that is not one.
pub proof fn what_is_wrong_with_a_window_is_named(
    limits: JsonView,
    window: JsonView,
    previous: Option<SnapshotView>,
    observed_at: i64,
)
    requires
        observed_at >= 0,
        limits.get("result"@) is None,
        limits.get("rateLimits"@) is None,
        limits.get("rate_limits"@) is None,
        limits.get("primary"@) == Some(window) || (limits.get("primary"@) is None && limits.get(
            "secondary"@,
        ) == Some(window)),
        !(window is Null),
    ensures
        ({
            let r = rate_limits_in(limits, previous, observed_at);
            let wrong = |message: Seq<char>| r == Err::<SnapshotView, Seq<char>>(message);
            let number = |member: Option<JsonView>|
                member is Some && !(member->0 is Null) && !(member->0 is Unsigned) && !(
                member->0 is Negative);
            let used = window.get("usedPercent"@);
            let unused = used is None && window.get("used_percent"@) is None;
            let given = used == Some(JsonView::Unsigned(50));
            &&& !(window is Object) ==> wrong("rate limit window must be an object"@)
            &&& window is Object && number(used) ==> wrong(
                "usedPercent"@ + " must be a non-negative integer"@,
            )
            &&& window is Object && unused && number(window.get("remainingPercent"@)) ==> wrong(
                "remainingPercent"@ + " must be a non-negative integer"@,
            )
            &&& window is Object && given && number(window.get("windowDurationMins"@)) ==> wrong(
                "windowDurationMins"@ + " must be a non-negative integer"@,
            )
            &&& window is Object && given && window.get("windowDurationMins"@) is None
                && window.get("window_duration_mins"@) is None && number(window.get("resetsAt"@))
                ==> wrong("resetsAt"@ + " must be a non-negative integer"@)
        }),
{
}

} // verus!
