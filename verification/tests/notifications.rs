use codex_usage_limiter::notifications::{
    is_quota_guard_windows_activation, notification_script, quota_guard_breach_body,
    toast_identity_key, QUOTA_GUARD_NOTIFICATION_ACTION_TYPE, QUOTA_GUARD_NOTIFICATION_OPEN_ACTION,
    QUOTA_GUARD_NOTIFICATION_ROUTE_KEY,
};

#[test]
fn breach_body_names_the_window_usage_threshold_and_reset_time() {
    assert_eq!(
        quota_guard_breach_body("five-hour window", 92, 90, "at 15:30"),
        "five-hour window: 8% left (floor 10%). Resets at 15:30."
    );
}

#[test]
fn breach_body_leaves_nothing_beyond_full_use() {
    assert_eq!(
        quota_guard_breach_body("hard limit", 255, 100, "later"),
        "hard limit: 0% left (floor 0%). Resets later."
    );
}

#[test]
fn quota_notifications_use_a_stable_action_and_route_keys() {
    assert_eq!(QUOTA_GUARD_NOTIFICATION_ACTION_TYPE, "codex-usage-limiter.quota-guard");
    assert_eq!(QUOTA_GUARD_NOTIFICATION_OPEN_ACTION, "open-quota-guard");
    assert_eq!(QUOTA_GUARD_NOTIFICATION_ROUTE_KEY, "quotaGuardRoute");
}

#[test]
fn windows_default_tap_and_named_open_action_activate_the_panel() {
    let named_action = "open-quota-guard:quota-guard";
    assert!(is_quota_guard_windows_activation(None, named_action));
    assert!(is_quota_guard_windows_activation(Some(named_action), named_action));
    assert!(!is_quota_guard_windows_activation(Some("dismiss"), named_action));
}

#[test]
fn scripts_quote_their_texts() {
    let script = notification_script("a \"title\"", "back\\slash");
    assert!(script.contains("a \\\"title\\\""));
    assert!(script.contains("back\\\\slash"));
}

#[test]
fn toast_identities_have_a_key_of_their_own() {
    assert!(toast_identity_key("com.example.app").ends_with("com.example.app"));
}
