//! Limiter settings and the part of the application settings that the limiter reads.

use crate::gate::{GateView, ProcessGate, ProcessPolicy};
use crate::model::{copy_text, text_view};
use crate::text::same_text;
use vstd::prelude::*;
use vstd::string::*;

verus! {

/// What happens when the remaining quota falls to the floor.
#[derive(Debug, Clone, Copy, PartialEq, Eq, Structural)]
pub enum QuotaAction {
    /// Show a notification and keep working.
    NotifyOnly,
    /// Interrupt owned turns once, then disarm.
    Interrupt,
    /// Interrupt owned turns and stay closed.
    Block,
}

/// The limiter's settings.
#[derive(Debug, Clone, Copy, PartialEq, Eq, Structural)]
pub struct QuotaGuardSettings {
    pub enabled: bool,
    pub armed: bool,
    pub action: QuotaAction,
    pub primary_threshold_percent: u8,
    pub secondary_threshold_percent: u8,
    pub rearm_after_reset_percent_left: Option<u8>,
    pub drain_timeout_minutes: u16,
    pub reset_grace_minutes: u16,
    pub notify_when_available: bool,
}

impl QuotaGuardSettings {
    pub open spec fn spec_default() -> QuotaGuardSettings {
        QuotaGuardSettings {
            enabled: false,
            armed: true,
            action: QuotaAction::NotifyOnly,
            primary_threshold_percent: 90,
            secondary_threshold_percent: 90,
            rearm_after_reset_percent_left: None,
            drain_timeout_minutes: 30,
            reset_grace_minutes: 5,
            notify_when_available: true,
        }
    }
}

impl Default for QuotaGuardSettings {
    fn default() -> (r: QuotaGuardSettings)
        ensures
            r == QuotaGuardSettings::spec_default(),
    {
        QuotaGuardSettings {
            enabled: false,
            armed: true,
            action: QuotaAction::NotifyOnly,
            primary_threshold_percent: 90,
            secondary_threshold_percent: 90,
            rearm_after_reset_percent_left: None,
            drain_timeout_minutes: 30,
            reset_grace_minutes: 5,
            notify_when_available: true,
        }
    }
}

/// Where sessions run.
#[derive(Debug, Clone, Copy, PartialEq, Eq, Structural)]
pub enum BackendMode {
    Local,
    Remote,
}

/// How a remote backend is reached.
#[derive(Debug, Clone, Copy, PartialEq, Eq, Structural)]
pub enum RemoteBackendProvider {
    Tcp,
}

/// The application's settings.
#[derive(Debug, PartialEq, Eq)]
pub struct AppSettings {
    pub quota_guard: QuotaGuardSettings,
    pub backend_mode: BackendMode,
    pub remote_backend_provider: RemoteBackendProvider,
    pub remote_backend_host: String,
    pub remote_backend_token: Option<String>,
    pub theme: String,
    pub codex_bin: Option<String>,
}

impl Clone for AppSettings {
    fn clone(&self) -> (r: AppSettings)
        ensures
            r == *self,
    {
        AppSettings {
            quota_guard: self.quota_guard,
            backend_mode: self.backend_mode,
            remote_backend_provider: self.remote_backend_provider,
            remote_backend_host: self.remote_backend_host.clone(),
            remote_backend_token: copy_text(&self.remote_backend_token),
            theme: self.theme.clone(),
            codex_bin: copy_text(&self.codex_bin),
        }
    }
}

impl Default for AppSettings {
    fn default() -> (r: AppSettings)
        ensures
            r.quota_guard == QuotaGuardSettings::spec_default(),
            r.backend_mode == BackendMode::Local,
            r.remote_backend_provider == RemoteBackendProvider::Tcp,
            r.remote_backend_host@ == "127.0.0.1:4732"@,
            r.remote_backend_token is None,
            r.theme@ == "system"@,
            r.codex_bin is None,
    {
        AppSettings {
            quota_guard: QuotaGuardSettings::default(),
            backend_mode: BackendMode::Local,
            remote_backend_provider: RemoteBackendProvider::Tcp,
            remote_backend_host: "127.0.0.1:4732".to_owned(),
            remote_backend_token: None,
            theme: "system".to_owned(),
            codex_bin: None,
        }
    }
}

/// What settings are answered that enable the limiter for a remote backend.
pub const QUOTA_GUARD_REMOTE_BACKEND_INCOMPATIBLE: &'static str = "QUOTA_GUARD_REMOTE_BACKEND_INCOMPATIBLE";

/// Longest time, in minutes, that the settings may name: a day.
pub const MINUTES_PER_DAY: u16 = 1440;

/// What is wrong with the limiter's settings, the first of what there is.
pub open spec fn settings_error(guard: QuotaGuardSettings) -> Option<Seq<char>> {
    if guard.primary_threshold_percent > 100 || guard.secondary_threshold_percent > 100 {
        Some("QUOTA_GUARD_INVALID_THRESHOLD_PERCENT"@)
    } else if !(1 <= guard.drain_timeout_minutes <= MINUTES_PER_DAY) {
        Some("QUOTA_GUARD_INVALID_DRAIN_TIMEOUT_MINUTES"@)
    } else if guard.reset_grace_minutes > MINUTES_PER_DAY {
        Some("QUOTA_GUARD_INVALID_RESET_GRACE_MINUTES"@)
    } else {
        None
    }
}

/// Accepts the limiter's settings, or says what is wrong with them.
pub fn validate_quota_guard_settings(settings: &AppSettings) -> (r: Result<(), String>)
    ensures
        match r {
            Ok(()) => settings_error(settings.quota_guard) is None,
            Err(message) => settings_error(settings.quota_guard) == Some(message@),
        },
{
    let guard = &settings.quota_guard;
    if guard.primary_threshold_percent > 100 || guard.secondary_threshold_percent > 100 {
        return Err("QUOTA_GUARD_INVALID_THRESHOLD_PERCENT".to_owned());
    }
    if guard.drain_timeout_minutes < 1 || guard.drain_timeout_minutes > MINUTES_PER_DAY {
        return Err("QUOTA_GUARD_INVALID_DRAIN_TIMEOUT_MINUTES".to_owned());
    }
    if guard.reset_grace_minutes > MINUTES_PER_DAY {
        return Err("QUOTA_GUARD_INVALID_RESET_GRACE_MINUTES".to_owned());
    }
    Ok(())
}

/// Whether the settings enable the limiter for a remote backend, which it cannot guard.
pub open spec fn backend_incompatible(settings: AppSettings) -> bool {
    settings.quota_guard.enabled && settings.backend_mode == BackendMode::Remote
}

/// Accepts settings whose backend the limiter can guard.
pub fn validate_quota_guard_backend_compatibility(settings: &AppSettings) -> (r: Result<(), String>)
    ensures
        match r {
            Ok(()) => !backend_incompatible(*settings),
            Err(message) => backend_incompatible(*settings) && message@
                == QUOTA_GUARD_REMOTE_BACKEND_INCOMPATIBLE@,
        },
{
    if settings.quota_guard.enabled && settings.backend_mode == BackendMode::Remote {
        return Err(QUOTA_GUARD_REMOTE_BACKEND_INCOMPATIBLE.to_owned());
    }
    Ok(())
}

/// Whether the connection to a remote backend has to be made anew: something that it rests on
/// has changed.
pub open spec fn remote_backend_changed(previous: AppSettings, updated: AppSettings) -> bool {
    ||| previous.backend_mode != updated.backend_mode
    ||| previous.remote_backend_provider != updated.remote_backend_provider
    ||| previous.remote_backend_host@ != updated.remote_backend_host@
    ||| text_view(previous.remote_backend_token) != text_view(updated.remote_backend_token)
}

fn same_optional_text(a: &Option<String>, b: &Option<String>) -> (r: bool)
    ensures
        r == (text_view(*a) == text_view(*b)),
{
    match (a, b) {
        (Some(x), Some(y)) => same_text(x.as_str(), y.as_str()),
        (None, None) => true,
        _ => false,
    }
}

/// Whether the connection to a remote backend has to be made anew.
pub fn should_reset_remote_backend(previous: &AppSettings, updated: &AppSettings) -> (r: bool)
    ensures
        r == remote_backend_changed(*previous, *updated),
{
    previous.backend_mode != updated.backend_mode || previous.remote_backend_provider
        != updated.remote_backend_provider || !same_text(
        previous.remote_backend_host.as_str(),
        updated.remote_backend_host.as_str(),
    ) || !same_optional_text(&previous.remote_backend_token, &updated.remote_backend_token)
}

/// The settings with the limiter off.
pub fn disabled_settings(settings: AppSettings) -> (r: AppSettings)
    ensures
        r == (AppSettings {
            quota_guard: QuotaGuardSettings { enabled: false, ..settings.quota_guard },
            ..settings
        }),
{
    let mut settings = settings;
    settings.quota_guard.enabled = false;
    settings
}

/// The limiter's settings before and after a change.
#[derive(Debug, Clone, Copy, PartialEq, Eq, Structural)]
pub struct SettingsChanged {
    pub previous: QuotaGuardSettings,
    pub updated: QuotaGuardSettings,
}

/// A change of the settings under way. The process gate is put back as it was where the change
/// fails.
pub struct SettingsUpdate {
    pub previous: AppSettings,
    pub requested: AppSettings,
    pub prior_policy: ProcessPolicy,
}

/// Whether the change turns the limiter on.
pub open spec fn enables(previous: AppSettings, requested: AppSettings) -> bool {
    !previous.quota_guard.enabled && requested.quota_guard.enabled
}

impl SettingsUpdate {
    /// Begins a change. One that turns the limiter on closes the process gate before anything else,
    /// so that nothing is admitted while it is decided.
    pub fn begin(previous: AppSettings, requested: AppSettings, gate: &mut ProcessGate) -> (r:
        SettingsUpdate)
        ensures
            r.previous == previous,
            r.requested == requested,
            r.prior_policy == old(gate)@.policy,
            final(gate)@ == if enables(previous, requested) {
                GateView { policy: ProcessPolicy::EnabledClosed, ..old(gate)@ }
            } else {
                old(gate)@
            },
    {
        let prior_policy = gate.policy();
        if !previous.quota_guard.enabled && requested.quota_guard.enabled {
            gate.close();
        }
        SettingsUpdate { previous, requested, prior_policy }
    }

    fn is_enabling(&self) -> (r: bool)
        ensures
            r == enables(self.previous, self.requested),
    {
        !self.previous.quota_guard.enabled && self.requested.quota_guard.enabled
    }

    /// Accepts what is asked for, or says what is wrong with it and puts the process gate back.
    pub fn validate(&self, gate: &mut ProcessGate) -> (r: Result<(), String>)
        ensures
            match r {
                Ok(()) => settings_error(self.requested.quota_guard) is None
                    && !backend_incompatible(self.requested) && final(gate)@ == old(gate)@,
                Err(message) => {
                    &&& message@ == match settings_error(self.requested.quota_guard) {
                        Some(error) => error,
                        None => QUOTA_GUARD_REMOTE_BACKEND_INCOMPATIBLE@,
                    }
                    &&& settings_error(self.requested.quota_guard) is Some || backend_incompatible(
                        self.requested,
                    )
                    &&& final(gate)@ == if enables(self.previous, self.requested) {
                        GateView { policy: self.prior_policy, ..old(gate)@ }
                    } else {
                        old(gate)@
                    }
                },
            },
    {
        let outcome = match validate_quota_guard_settings(&self.requested) {
            Ok(()) => validate_quota_guard_backend_compatibility(&self.requested),
            Err(message) => Err(message),
        };
        if outcome.is_err() && self.is_enabling() {
            gate.set_policy(self.prior_policy);
        }
        outcome
    }

    /// Goes on once the settings have been written or could not be. What is written has to be
    /// made known; where nothing could be written, the process gate is put back.
    pub fn persisted(&self, gate: &mut ProcessGate, outcome: Result<AppSettings, String>) -> (r: Result<
        SettingsChanged,
        String,
    >)
        ensures
            match outcome {
                Ok(updated) => r == Ok::<SettingsChanged, String>(
                    SettingsChanged {
                        previous: self.previous.quota_guard,
                        updated: updated.quota_guard,
                    },
                ) && final(gate)@ == old(gate)@,
                Err(error) => r == Err::<SettingsChanged, String>(error) && final(gate)@
                    == if enables(self.previous, self.requested) {
                    GateView { policy: self.prior_policy, ..old(gate)@ }
                } else {
                    old(gate)@
                },
            },
    {
        match outcome {
            Ok(updated) => Ok(
                SettingsChanged {
                    previous: self.previous.quota_guard,
                    updated: updated.quota_guard,
                },
            ),
            Err(error) => {
                if self.is_enabling() {
                    gate.set_policy(self.prior_policy);
                }
                Err(error)
            },
        }
    }

    /// The error of a change that was not acknowledged, after `rollback` has tried to write
    /// the previous settings again. The process gate is put back.
    pub fn rejected(&self, gate: &mut ProcessGate, error: String, rollback: Result<(), String>) -> (message:
        String)
        ensures
            final(gate)@ == (GateView { policy: self.prior_policy, ..old(gate)@ }),
            message@ == match rollback {
                Ok(()) => error@,
                Err(failure) => error@ + "; quota guard settings rollback failed: "@ + failure@,
            },
    {
        gate.set_policy(self.prior_policy);
        let mut message = error;
        match rollback {
            Ok(()) => {},
            Err(failure) => {
                message.append("; quota guard settings rollback failed: ");
                message.append(failure.as_str());
            },
        }
        message
    }
}

/// A change that turns the limiter on and fails leaves the process gate as it was before it began.
pub proof fn failed_enable_restores_the_policy(
    gate: GateView,
    update: SettingsUpdate,
    closed: GateView,
    restored: GateView,
)
    requires
        enables(update.previous, update.requested),
        update.prior_policy == gate.policy,
        closed == (GateView { policy: ProcessPolicy::EnabledClosed, ..gate }),
        restored == (GateView { policy: update.prior_policy, ..closed }),
    ensures
        restored == gate,
        !closed.status(None, Seq::empty()).open,
{
}

} // verus!
