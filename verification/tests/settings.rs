use codex_usage_limiter::coordinator::{Coordinator, SettingsStep};
use codex_usage_limiter::gate::{ProcessGate, ProcessPolicy};
use codex_usage_limiter::settings::{
    disabled_settings, should_reset_remote_backend, validate_quota_guard_backend_compatibility,
    validate_quota_guard_settings, AppSettings, BackendMode, RemoteBackendProvider, SettingsUpdate,
    QUOTA_GUARD_REMOTE_BACKEND_INCOMPATIBLE,
};

fn enable_quota_guard() -> AppSettings {
    let mut settings = AppSettings::default();
    settings.quota_guard.enabled = true;
    settings
}

#[test]
fn disable_is_durable_before_the_actor_acknowledges_and_opens_only_afterward() {
    let mut coordinator = Coordinator::default();
    coordinator.gate.set_policy(ProcessPolicy::EnabledClosed);
    let requested = disabled_settings(enable_quota_guard());
    let update = SettingsUpdate::begin(enable_quota_guard(), requested, &mut coordinator.gate);
    assert!(update.validate(&mut coordinator.gate).is_ok());
    let durable = disabled_settings(enable_quota_guard());
    assert!(!durable.quota_guard.enabled);
    let change = update.persisted(&mut coordinator.gate, Ok(durable)).expect("written");
    assert!(change.previous.enabled);
    assert!(!change.updated.enabled);
    assert_eq!(
        coordinator.gate.policy(),
        ProcessPolicy::EnabledClosed,
        "settings persistence must not optimistically open the process gate"
    );

    let step = coordinator.handle_settings_changed(change, 1);
    assert!(matches!(step, SettingsStep::Disable { .. }));
    coordinator.guard_disabled();
    assert_eq!(coordinator.gate.policy(), ProcessPolicy::DisabledOpen);
}

#[test]
fn failed_disable_actor_acknowledgement_rolls_back_durable_settings_and_policy() {
    let mut gate = ProcessGate::default();
    gate.set_policy(ProcessPolicy::EnabledClosed);
    let requested = disabled_settings(enable_quota_guard());
    let update = SettingsUpdate::begin(enable_quota_guard(), requested, &mut gate);
    assert!(update.validate(&mut gate).is_ok());
    let change = update.persisted(&mut gate, Ok(disabled_settings(enable_quota_guard())));
    assert!(change.is_ok());
    let message = update.rejected(&mut gate, "actor rejected disable".to_string(), Ok(()));
    assert_eq!(message, "actor rejected disable");
    assert!(update.previous.quota_guard.enabled);
    assert_eq!(gate.policy(), ProcessPolicy::EnabledClosed);
}

#[test]
fn a_failed_rollback_is_named_beside_the_error() {
    let mut gate = ProcessGate::default();
    let update = SettingsUpdate::begin(AppSettings::default(), enable_quota_guard(), &mut gate);
    assert_eq!(
        update.rejected(&mut gate, "refused".to_string(), Err("disk full".to_string())),
        "refused; quota guard settings rollback failed: disk full"
    );
    assert_eq!(gate.policy(), ProcessPolicy::DisabledOpen);
}

#[test]
fn invalid_enable_restores_the_prior_admission_policy() {
    let mut gate = ProcessGate::default();
    gate.set_policy(ProcessPolicy::EnabledOpen);
    let mut invalid_settings = enable_quota_guard();
    invalid_settings.quota_guard.drain_timeout_minutes = 0;

    let update = SettingsUpdate::begin(AppSettings::default(), invalid_settings, &mut gate);
    assert_eq!(gate.policy(), ProcessPolicy::EnabledClosed);
    let result = update.validate(&mut gate);
    assert_eq!(
        result.as_ref().err().map(String::as_str),
        Some("QUOTA_GUARD_INVALID_DRAIN_TIMEOUT_MINUTES")
    );
    assert_eq!(
        gate.policy(),
        ProcessPolicy::EnabledOpen,
        "a rejected enable must restore the policy it closed before validation"
    );
    assert!(!update.previous.quota_guard.enabled);
}

#[test]
fn failed_enable_write_restores_the_prior_admission_policy() {
    let mut gate = ProcessGate::default();
    gate.set_policy(ProcessPolicy::EnabledOpen);
    let update = SettingsUpdate::begin(AppSettings::default(), enable_quota_guard(), &mut gate);
    assert!(update.validate(&mut gate).is_ok());
    assert!(update.persisted(&mut gate, Err("not a directory".to_string())).is_err());
    assert_eq!(
        gate.policy(),
        ProcessPolicy::EnabledOpen,
        "a failed enable write must restore the policy it closed before persistence"
    );
    assert!(!update.previous.quota_guard.enabled);
}

#[test]
fn should_reset_remote_backend_when_provider_changes() {
    let previous = AppSettings::default();
    let mut updated = previous.clone();
    updated.remote_backend_provider = RemoteBackendProvider::Tcp;
    updated.remote_backend_host = "remote.example:4732".to_string();
    assert!(should_reset_remote_backend(&previous, &updated));
}

#[test]
fn should_reset_remote_backend_when_transport_token_changes() {
    let previous = AppSettings::default();
    let mut updated = previous.clone();
    updated.remote_backend_token = Some("token-1".to_string());
    assert!(should_reset_remote_backend(&previous, &updated));
}

#[test]
fn should_not_reset_remote_backend_for_non_transport_setting_changes() {
    let previous = AppSettings::default();
    let mut updated = previous.clone();
    updated.theme = "dark".to_string();
    updated.backend_mode = BackendMode::Local;
    assert!(!should_reset_remote_backend(&previous, &updated));
}

#[test]
fn quota_guard_rejects_remote_backend() {
    let mut settings = AppSettings::default();
    settings.quota_guard.enabled = true;
    settings.backend_mode = BackendMode::Remote;
    assert_eq!(
        validate_quota_guard_backend_compatibility(&settings),
        Err(QUOTA_GUARD_REMOTE_BACKEND_INCOMPATIBLE.to_string())
    );
}

#[test]
fn quota_guard_validates_bounded_deadlines() {
    let mut settings = AppSettings::default();
    settings.quota_guard.drain_timeout_minutes = 0;
    assert!(validate_quota_guard_settings(&settings).is_err());
    settings.quota_guard.drain_timeout_minutes = 1;
    settings.quota_guard.reset_grace_minutes = 1440;
    assert!(validate_quota_guard_settings(&settings).is_ok());
}

#[test]
fn each_settings_error_has_its_name() {
    let mut settings = AppSettings::default();
    settings.quota_guard.secondary_threshold_percent = 101;
    assert_eq!(
        validate_quota_guard_settings(&settings),
        Err("QUOTA_GUARD_INVALID_THRESHOLD_PERCENT".to_string())
    );
    let mut settings = AppSettings::default();
    settings.quota_guard.drain_timeout_minutes = 1441;
    assert_eq!(
        validate_quota_guard_settings(&settings),
        Err("QUOTA_GUARD_INVALID_DRAIN_TIMEOUT_MINUTES".to_string())
    );
    let mut settings = AppSettings::default();
    settings.quota_guard.reset_grace_minutes = 1441;
    assert_eq!(
        validate_quota_guard_settings(&settings),
        Err("QUOTA_GUARD_INVALID_RESET_GRACE_MINUTES".to_string())
    );
}
