//! What notifications say.

use crate::text::{decimal, decimal_text, same_text, str_view, to_chars};
use vstd::prelude::*;
use vstd::string::*;

verus! {

/// The category of the limiter's notifications.
pub const QUOTA_GUARD_NOTIFICATION_ACTION_TYPE: &'static str = "codex-usage-limiter.quota-guard";

/// The action that opens the limiter.
pub const QUOTA_GUARD_NOTIFICATION_OPEN_ACTION: &'static str = "open-quota-guard";

/// The name under which a notification carries where it leads to.
pub const QUOTA_GUARD_NOTIFICATION_ROUTE_KEY: &'static str = "quotaGuardRoute";

/// The title of the notice that quota is available again.
pub const AVAILABLE_TITLE: &'static str = "Quota guard ready";

/// The text of the notice that quota is available again.
pub const AVAILABLE_BODY: &'static str = "Quota limits have been verified healthy.";

/// What is left of a hundred percent.
pub open spec fn left_of(used: u8) -> nat {
    if used >= 100 {
        0
    } else {
        (100 - used) as nat
    }
}

/// The text of a notification: what is left, the floor that was set, and when the window is
/// reset. The inputs are what is used.
pub open spec fn breach_body(
    window_name: Seq<char>,
    observed_percent: u8,
    threshold_percent: u8,
    reset_time: Seq<char>,
) -> Seq<char> {
    window_name + ": "@ + decimal(left_of(observed_percent)) + "% left (floor "@ + decimal(
        left_of(threshold_percent),
    ) + "%). Resets "@ + reset_time + "."@
}

/// The text of a notification.
pub fn quota_guard_breach_body(
    window_name: &str,
    observed_percent: u8,
    threshold_percent: u8,
    reset_time: &str,
) -> (r: String)
    ensures
        r@ == breach_body(window_name@, observed_percent, threshold_percent, reset_time@),
{
    let remaining: u8 = 100u8.saturating_sub(observed_percent);
    let floor: u8 = 100u8.saturating_sub(threshold_percent);
    let mut out = window_name.to_owned();
    out.append(": ");
    out.append(decimal_text(remaining as u64).as_str());
    out.append("% left (floor ");
    out.append(decimal_text(floor as u64).as_str());
    out.append("%). Resets ");
    out.append(reset_time);
    out.append(".");
    out
}

/// Whether acting on a notification opens the limiter: tapping it does, and so does the action
/// that was given for it.
pub fn is_quota_guard_windows_activation(action: Option<&str>, activation_argument: &str) -> (r: bool)
    ensures
        r == (str_view(action) matches Some(value) ==> value == activation_argument@),
{
    match action {
        Some(value) => same_text(value, activation_argument),
        None => true,
    }
}

/// The text with a backslash before every backslash and quotation mark.
pub open spec fn quoted(text: Seq<char>) -> Seq<char>
    decreases text.len(),
{
    if text.len() == 0 {
        text
    } else {
        let before = quoted(text.drop_last());
        if text.last() == '\\' || text.last() == '"' {
            before.push('\\').push(text.last())
        } else {
            before.push(text.last())
        }
    }
}

fn push_quoted(out: &mut String, text: &str)
    ensures
        final(out)@ == old(out)@ + quoted(text@),
{
    let chars = to_chars(text);
    let ghost before = out@;
    let mut i: usize = 0;
    assert(out@ =~= before + quoted(chars@.take(0)));
    while i < chars.len()
        invariant
            i <= chars@.len(),
            out@ == before + quoted(chars@.take(i as int)),
        decreases chars@.len() - i,
    {
        proof {
            assert(chars@.take(i + 1).drop_last() =~= chars@.take(i as int));
            assert(chars@.take(i + 1).last() == chars@[i as int]);
        }
        if chars[i] == '\\' || chars[i] == '"' {
            out.push('\\');
        }
        out.push(chars[i]);
        assert(out@ =~= before + quoted(chars@.take(i + 1)));
        i += 1;
    }
    assert(chars@.take(chars@.len() as int) =~= chars@);
}

/// The AppleScript that shows a notification.
pub fn notification_script(title: &str, body: &str) -> (r: String)
    ensures
        r@ == "display notification \""@ + quoted(body@) + "\" with title \""@ + quoted(title@)
            + "\""@,
{
    let mut out = "display notification \"".to_owned();
    push_quoted(&mut out, body);
    out.append("\" with title \"");
    push_quoted(&mut out, title);
    out.append("\"");
    out
}

/// The registry key under which Windows knows the application's notifications.
pub fn toast_identity_key(identifier: &str) -> (r: String)
    ensures
        r@ == "HKCU\\Software\\Classes\\AppUserModelId\\"@ + identifier@,
{
    let mut out = "HKCU\\Software\\Classes\\AppUserModelId\\".to_owned();
    out.append(identifier);
    out
}

} // verus!
