//! Reading rate limits and errors out of JSON documents.

use crate::json::{Json, JsonView};
use crate::model::{
    copy_document, copy_text, text_view, RateLimitSnapshot, RateLimitWindow, SnapshotView,
};
use crate::text::{same_text, trim_text, trimmed};
use vstd::prelude::*;
use vstd::string::*;

verus! {

/// The member under the first spelling, or else the one under the second.
pub open spec fn field_in(value: JsonView, camel: Seq<char>, snake: Seq<char>) -> Option<JsonView> {
    match value.get(camel) {
        Some(member) => Some(member),
        None => value.get(snake),
    }
}

/// The number, which must be whole, fit, and not be negative.
pub open spec fn natural_in(value: JsonView, name: Seq<char>) -> Result<i64, Seq<char>> {
    match value.signed() {
        Some(n) => if n >= 0 {
            Ok(n)
        } else {
            Err(name + " must be a non-negative integer"@)
        },
        None => Err(name + " must be a non-negative integer"@),
    }
}

/// The number in a member: none where it is null, the prior one where it is missing.
pub open spec fn natural_field(
    value: JsonView,
    camel: Seq<char>,
    snake: Seq<char>,
    prior: Option<i64>,
) -> Result<Option<i64>, Seq<char>> {
    match field_in(value, camel, snake) {
        Some(JsonView::Null) => Ok(None),
        Some(raw) => match natural_in(raw, camel) {
            Ok(n) => Ok(Some(n)),
            Err(message) => Err(message),
        },
        None => Ok(prior),
    }
}

/// The use in a window, given as what is used or as what remains; the prior one where neither
/// is given or what is given is null.
pub open spec fn use_in(value: JsonView, prior: Option<u8>) -> Result<Option<u8>, Seq<char>> {
    let remaining = match field_in(value, "remainingPercent"@, "remaining_percent"@) {
        Some(member) => Some(member),
        None => value.get("remaining"@),
    };
    match field_in(value, "usedPercent"@, "used_percent"@) {
        Some(JsonView::Null) => Ok(prior),
        Some(raw) => match natural_in(raw, "usedPercent"@) {
            Ok(n) => if n <= 100 {
                Ok(Some(n as u8))
            } else {
                Err("used percent is outside 0..=100"@)
            },
            Err(message) => Err(message),
        },
        None => match remaining {
            Some(JsonView::Null) => Ok(prior),
            Some(raw) => match natural_in(raw, "remainingPercent"@) {
                Ok(n) => if n <= 100 {
                    Ok(Some((100 - n) as u8))
                } else {
                    Err("remaining percent is outside 0..=100"@)
                },
                Err(message) => Err(message),
            },
            None => Ok(prior),
        },
    }
}

/// The length of a window, in minutes: none where it is null, the prior one where it is
/// missing.
pub open spec fn duration_in(value: JsonView, previous: Option<RateLimitWindow>) -> Result<
    Option<u64>,
    Seq<char>,
> {
    if field_in(value, "windowDurationMins"@, "window_duration_mins"@) is None {
        Ok(
            match previous {
                Some(window) => window.window_duration_mins,
                None => None,
            },
        )
    } else {
        match natural_field(value, "windowDurationMins"@, "window_duration_mins"@, None) {
            Ok(Some(minutes)) => Ok(Some(minutes as u64)),
            Ok(None) => Ok(None),
            Err(message) => Err(message),
        }
    }
}

/// The window in an object; none where its use is not known.
pub open spec fn window_in(value: JsonView, previous: Option<RateLimitWindow>) -> Result<
    Option<RateLimitWindow>,
    Seq<char>,
> {
    if !(value is Object) {
        Err("rate limit window must be an object"@)
    } else {
        match use_in(
            value,
            match previous {
                Some(window) => Some(window.used_percent),
                None => None,
            },
        ) {
            Err(message) => Err(message),
            Ok(None) => Ok(None),
            Ok(Some(used_percent)) => match duration_in(value, previous) {
                Err(message) => Err(message),
                Ok(window_duration_mins) => match natural_field(
                    value,
                    "resetsAt"@,
                    "resets_at"@,
                    match previous {
                        Some(window) => window.reset_at,
                        None => None,
                    },
                ) {
                    Err(message) => Err(message),
                    Ok(reset_at) => Ok(
                        Some(
                            RateLimitWindow {
                                used_percent,
                                window_duration_mins,
                                reset_at,
                            },
                        ),
                    ),
                },
            },
        }
    }
}

/// The window in a member: none where it is null, the prior one where it is missing.
pub open spec fn window_field(
    source: JsonView,
    name: Seq<char>,
    previous: Option<RateLimitWindow>,
) -> Result<Option<RateLimitWindow>, Seq<char>> {
    match field_in(source, name, name) {
        Some(JsonView::Null) => Ok(None),
        Some(raw) => window_in(raw, previous),
        None => Ok(previous),
    }
}

/// The text in a member, which must not be blank: none where it is null, the prior one where
/// it is missing.
pub open spec fn text_field(
    value: JsonView,
    camel: Seq<char>,
    snake: Seq<char>,
    prior: Option<Seq<char>>,
) -> Result<Option<Seq<char>>, Seq<char>> {
    match field_in(value, camel, snake) {
        Some(JsonView::Null) => Ok(None),
        Some(JsonView::Text(s)) => if trimmed(s).len() > 0 {
            Ok(Some(s))
        } else {
            Err(camel + " must be a non-empty string or null"@)
        },
        Some(_) => Err(camel + " must be a non-empty string or null"@),
        None => Ok(prior),
    }
}

/// The object that holds the rate limits: in a response's result, under either spelling, or
/// the document itself.
pub open spec fn limits_source(value: JsonView) -> JsonView {
    let envelope = match value.get("result"@) {
        Some(result) => result,
        None => value,
    };
    match field_in(envelope, "rateLimits"@, "rate_limits"@) {
        Some(source) => source,
        None => envelope,
    }
}

/// The snapshot in a document, where missing members keep their previous value and a null
/// clears; or the first thing that is wrong.
pub open spec fn rate_limits_in(
    value: JsonView,
    previous: Option<SnapshotView>,
    observed_at: i64,
) -> Result<SnapshotView, Seq<char>> {
    let source = limits_source(value);
    if observed_at < 0 {
        Err("observedAt must be a non-negative Unix millisecond timestamp"@)
    } else if !(source is Object) {
        Err("rate limits must be an object"@)
    } else {
        match window_field(
            source,
            "primary"@,
            match previous {
                Some(snapshot) => snapshot.primary,
                None => None,
            },
        ) {
            Err(message) => Err(message),
            Ok(primary) => match window_field(
                source,
                "secondary"@,
                match previous {
                    Some(snapshot) => snapshot.secondary,
                    None => None,
                },
            ) {
                Err(message) => Err(message),
                Ok(secondary) => match text_field(
                    source,
                    "rateLimitReachedType"@,
                    "rate_limit_reached_type"@,
                    match previous {
                        Some(snapshot) => snapshot.rate_limit_reached_type,
                        None => None,
                    },
                ) {
                    Err(message) => Err(message),
                    Ok(rate_limit_reached_type) => match text_field(
                        source,
                        "planType"@,
                        "plan_type"@,
                        match previous {
                            Some(snapshot) => snapshot.plan_type,
                            None => None,
                        },
                    ) {
                        Err(message) => Err(message),
                        Ok(plan_type) => Ok(
                            SnapshotView {
                                primary,
                                secondary,
                                credits: match field_in(source, "credits"@, "credits"@) {
                                    Some(JsonView::Null) => None,
                                    Some(credits) => Some(credits),
                                    None => match previous {
                                        Some(snapshot) => snapshot.credits,
                                        None => None,
                                    },
                                },
                                plan_type,
                                rate_limit_reached_type,
                                observed_at,
                            },
                        ),
                    },
                },
            },
        }
    }
}

/// The error kind in an error, in either place and under either spelling.
pub open spec fn error_info(error: JsonView) -> Option<JsonView> {
    match field_in(error, "codexErrorInfo"@, "codex_error_info"@) {
        Some(info) => Some(info),
        None => match error.get("error"@) {
            Some(nested) => field_in(nested, "codexErrorInfo"@, "codex_error_info"@),
            None => None,
        },
    }
}

pub(crate) fn field<'a>(value: &'a Json, camel: &str, snake: &str) -> (r: Option<&'a Json>)
    ensures
        match r {
            Some(member) => field_in(value@, camel@, snake@) == Some(member@),
            None => field_in(value@, camel@, snake@) is None,
        },
{
    match value.get(camel) {
        Some(member) => Some(member),
        None => value.get(snake),
    }
}

fn non_negative_integer(value: &Json, name: &str) -> (r: Result<i64, String>)
    ensures
        match r {
            Ok(n) => natural_in(value@, name@) == Ok::<i64, Seq<char>>(n) && n >= 0,
            Err(message) => natural_in(value@, name@) == Err::<i64, Seq<char>>(message@),
        },
{
    match value.as_i64() {
        Some(n) => if n >= 0 {
            return Ok(n);
        },
        None => {},
    }
    let mut message = name.to_owned();
    message.append(" must be a non-negative integer");
    Err(message)
}

fn optional_non_negative_integer(value: &Json, camel: &str, snake: &str, prior: Option<i64>) -> (r:
    Result<Option<i64>, String>)
    ensures
        match r {
            Ok(n) => natural_field(value@, camel@, snake@, prior) == Ok::<Option<i64>, Seq<char>>(
                n,
            ),
            Err(message) => natural_field(value@, camel@, snake@, prior) == Err::<
                Option<i64>,
                Seq<char>,
            >(message@),
        },
        (prior matches Some(p) ==> p >= 0) ==> (r matches Ok(Some(n)) ==> n >= 0),
{
    match field(value, camel, snake) {
        Some(Json::Null) => Ok(None),
        Some(raw) => match non_negative_integer(raw, camel) {
            Ok(n) => Ok(Some(n)),
            Err(message) => Err(message),
        },
        None => Ok(prior),
    }
}

fn parse_used_percent(value: &Json, previous: Option<&RateLimitWindow>) -> (r: Result<
    Option<u8>,
    String,
>)
    ensures
        ({
            let expected = use_in(
                value@,
                match previous {
                    Some(window) => Some(window.used_percent),
                    None => None,
                },
            );
            match r {
                Ok(used) => expected == Ok::<Option<u8>, Seq<char>>(used),
                Err(message) => expected == Err::<Option<u8>, Seq<char>>(message@),
            }
        }),
{
    let prior = match previous {
        Some(window) => Some(window.used_percent),
        None => None,
    };
    if let Some(raw) = field(value, "usedPercent", "used_percent") {
        if raw.is_null() {
            return Ok(prior);
        }
        return match non_negative_integer(raw, "usedPercent") {
            Ok(used) => if used <= 100 {
                Ok(Some(used as u8))
            } else {
                Err("used percent is outside 0..=100".to_owned())
            },
            Err(message) => Err(message),
        };
    }
    let remaining = match field(value, "remainingPercent", "remaining_percent") {
        Some(member) => Some(member),
        None => value.get("remaining"),
    };
    if let Some(raw) = remaining {
        if raw.is_null() {
            return Ok(prior);
        }
        return match non_negative_integer(raw, "remainingPercent") {
            Ok(left) => if left <= 100 {
                Ok(Some(100 - left as u8))
            } else {
                Err("remaining percent is outside 0..=100".to_owned())
            },
            Err(message) => Err(message),
        };
    }
    Ok(prior)
}

fn parse_duration(value: &Json, previous: Option<&RateLimitWindow>) -> (r: Result<
    Option<u64>,
    String,
>)
    ensures
        ({
            let expected = duration_in(
                value@,
                match previous {
                    Some(window) => Some(*window),
                    None => None,
                },
            );
            match r {
                Ok(minutes) => expected == Ok::<Option<u64>, Seq<char>>(minutes),
                Err(message) => expected == Err::<Option<u64>, Seq<char>>(message@),
            }
        }),
{
    if field(value, "windowDurationMins", "window_duration_mins").is_none() {
        return match previous {
            Some(window) => Ok(window.window_duration_mins),
            None => Ok(None),
        };
    }
    match optional_non_negative_integer(value, "windowDurationMins", "window_duration_mins", None) {
        Ok(Some(minutes)) => Ok(Some(minutes as u64)),
        Ok(None) => Ok(None),
        Err(message) => Err(message),
    }
}

fn parse_window(value: &Json, previous: Option<&RateLimitWindow>) -> (r: Result<
    Option<RateLimitWindow>,
    String,
>)
    ensures
        ({
            let expected = window_in(
                value@,
                match previous {
                    Some(window) => Some(*window),
                    None => None,
                },
            );
            match r {
                Ok(window) => expected == Ok::<Option<RateLimitWindow>, Seq<char>>(window),
                Err(message) => expected == Err::<Option<RateLimitWindow>, Seq<char>>(message@),
            }
        }),
{
    match value {
        Json::Object(_) => {},
        _ => {
            return Err("rate limit window must be an object".to_owned());
        },
    }
    let used_percent: u8 = match parse_used_percent(value, previous) {
        Ok(Some(used)) => used,
        Ok(None) => {
            return Ok(None);
        },
        Err(message) => {
            return Err(message);
        },
    };
    let window_duration_mins: Option<u64> = match parse_duration(value, previous) {
        Ok(minutes) => minutes,
        Err(message) => {
            return Err(message);
        },
    };
    let prior_reset: Option<i64> = match previous {
        Some(window) => window.reset_at,
        None => None,
    };
    let reset_at: Option<i64> = match optional_non_negative_integer(
        value,
        "resetsAt",
        "resets_at",
        prior_reset,
    ) {
        Ok(reset) => reset,
        Err(message) => {
            return Err(message);
        },
    };
    Ok(Some(RateLimitWindow { used_percent, window_duration_mins, reset_at }))
}

fn parse_kind(source: &Json, name: &str, previous: Option<&RateLimitWindow>) -> (r: Result<
    Option<RateLimitWindow>,
    String,
>)
    ensures
        ({
            let expected = window_field(
                source@,
                name@,
                match previous {
                    Some(window) => Some(*window),
                    None => None,
                },
            );
            match r {
                Ok(window) => expected == Ok::<Option<RateLimitWindow>, Seq<char>>(window),
                Err(message) => expected == Err::<Option<RateLimitWindow>, Seq<char>>(message@),
            }
        }),
{
    match field(source, name, name) {
        Some(Json::Null) => Ok(None),
        Some(raw) => parse_window(raw, previous),
        None => match previous {
            Some(window) => Ok(Some(*window)),
            None => Ok(None),
        },
    }
}

fn optional_string(value: &Json, camel: &str, snake: &str, prior: Option<String>) -> (r: Result<
    Option<String>,
    String,
>)
    ensures
        ({
            let expected = text_field(value@, camel@, snake@, text_view(prior));
            match r {
                Ok(text) => expected == Ok::<Option<Seq<char>>, Seq<char>>(text_view(text)),
                Err(message) => expected == Err::<Option<Seq<char>>, Seq<char>>(message@),
            }
        }),
{
    match field(value, camel, snake) {
        Some(Json::Null) => {
            return Ok(None);
        },
        Some(Json::Text(s)) => {
            if trim_text(s.as_str()).as_str().unicode_len() > 0 {
                return Ok(Some(s.clone()));
            }
        },
        Some(_) => {},
        None => {
            return Ok(prior);
        },
    }
    let mut message = camel.to_owned();
    message.append(" must be a non-empty string or null");
    Err(message)
}

fn find_source(value: &Json) -> (r: &Json)
    ensures
        r@ == limits_source(value@),
{
    let envelope = match value.get("result") {
        Some(result) => result,
        None => value,
    };
    match field(envelope, "rateLimits", "rate_limits") {
        Some(source) => source,
        None => envelope,
    }
}

/// Reads a snapshot, also from an update that holds only what has changed. What is missing
/// keeps its previous value, and a null clears. Invalid data gives an error and no snapshot.
pub fn parse_rate_limits(value: &Json, previous: Option<&RateLimitSnapshot>, observed_at: i64) -> (r:
    Result<RateLimitSnapshot, String>)
    ensures
        ({
            let expected = rate_limits_in(
                value@,
                match previous {
                    Some(snapshot) => Some(snapshot@),
                    None => None,
                },
                observed_at,
            );
            match r {
                Ok(snapshot) => expected == Ok::<SnapshotView, Seq<char>>(snapshot@),
                Err(message) => expected == Err::<SnapshotView, Seq<char>>(message@),
            }
        }),
{
    if observed_at < 0 {
        return Err("observedAt must be a non-negative Unix millisecond timestamp".to_owned());
    }
    let source = find_source(value);
    match source {
        Json::Object(_) => {},
        _ => {
            return Err("rate limits must be an object".to_owned());
        },
    }
    let prior_primary = match previous {
        Some(snapshot) => snapshot.primary.as_ref(),
        None => None,
    };
    let primary = match parse_kind(source, "primary", prior_primary) {
        Ok(window) => window,
        Err(message) => {
            return Err(message);
        },
    };
    let prior_secondary = match previous {
        Some(snapshot) => snapshot.secondary.as_ref(),
        None => None,
    };
    let secondary = match parse_kind(source, "secondary", prior_secondary) {
        Ok(window) => window,
        Err(message) => {
            return Err(message);
        },
    };
    let prior_reached = match previous {
        Some(snapshot) => copy_text(&snapshot.rate_limit_reached_type),
        None => None,
    };
    let rate_limit_reached_type = match optional_string(
        source,
        "rateLimitReachedType",
        "rate_limit_reached_type",
        prior_reached,
    ) {
        Ok(text) => text,
        Err(message) => {
            return Err(message);
        },
    };
    let prior_plan = match previous {
        Some(snapshot) => copy_text(&snapshot.plan_type),
        None => None,
    };
    let plan_type = match optional_string(source, "planType", "plan_type", prior_plan) {
        Ok(text) => text,
        Err(message) => {
            return Err(message);
        },
    };
    let credits = match field(source, "credits", "credits") {
        Some(Json::Null) => None,
        Some(credits) => Some(credits.clone()),
        None => match previous {
            Some(snapshot) => copy_document(&snapshot.credits),
            None => None,
        },
    };
    Ok(
        RateLimitSnapshot {
            primary,
            secondary,
            credits,
            plan_type,
            rate_limit_reached_type,
            observed_at,
        },
    )
}

/// Whether the error says that the usage limit is exceeded.
pub fn is_usage_limit_exceeded(error: &Json) -> (r: bool)
    ensures
        r == (error_info(error@) == Some(JsonView::Text("usageLimitExceeded"@))),
{
    let info = match field(error, "codexErrorInfo", "codex_error_info") {
        Some(info) => Some(info),
        None => match error.get("error") {
            Some(nested) => field(nested, "codexErrorInfo", "codex_error_info"),
            None => None,
        },
    };
    match info {
        Some(Json::Text(s)) => same_text(s.as_str(), "usageLimitExceeded"),
        _ => false,
    }
}

/// Whether the use of both windows is a percentage.
pub open spec fn uses_are_percentages(snapshot: SnapshotView) -> bool {
    &&& snapshot.primary matches Some(window) ==> window.used_percent <= 100
    &&& snapshot.secondary matches Some(window) ==> window.used_percent <= 100
}

/// What is read has uses that are percentages, where the previous ones are.
pub proof fn read_uses_are_percentages(
    value: JsonView,
    previous: Option<SnapshotView>,
    observed_at: i64,
)
    requires
        previous matches Some(snapshot) ==> uses_are_percentages(snapshot),
        rate_limits_in(value, previous, observed_at) is Ok,
    ensures
        uses_are_percentages(rate_limits_in(value, previous, observed_at)->Ok_0),
{
}

/// An update without members keeps everything but the time.
pub proof fn empty_update_keeps_everything(previous: SnapshotView, observed_at: i64)
    requires
        observed_at >= 0,
    ensures
        rate_limits_in(JsonView::Object(seq![]), Some(previous), observed_at) == Ok::<
            SnapshotView,
            Seq<char>,
        >(SnapshotView { observed_at, ..previous }),
{
}

/// What remains and what is used are two ways to say the same.
pub proof fn remaining_is_the_complement(left: u64, prior: Option<u8>)
    requires
        left <= 100,
    ensures
        use_in(
            JsonView::Object(seq![("remainingPercent"@, JsonView::Unsigned(left))]),
            prior,
        ) == use_in(
            JsonView::Object(seq![("usedPercent"@, JsonView::Unsigned((100 - left) as u64))]),
            prior,
        ),
{
    reveal_strlit("remainingPercent");
    reveal_strlit("usedPercent");
    reveal_strlit("used_percent");
    reveal_strlit("remaining_percent");
    reveal_strlit("remaining");
    let a = seq![("remainingPercent"@, JsonView::Unsigned(left))];
    let b = seq![("usedPercent"@, JsonView::Unsigned((100 - left) as u64))];
    assert("remainingPercent"@.len() != "usedPercent"@.len());
    assert("remainingPercent"@.len() != "used_percent"@.len());
    reveal_with_fuel(crate::json::first_under, 2);
    assert(crate::json::first_under(a, "usedPercent"@) is None);
    assert(crate::json::first_under(a, "used_percent"@) is None);
    assert(crate::json::first_under(a, "remainingPercent"@) == Some(JsonView::Unsigned(left)));
    assert(crate::json::first_under(b, "usedPercent"@) == Some(
        JsonView::Unsigned((100 - left) as u64),
    ));
}

} // verus!
