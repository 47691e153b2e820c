use codex_usage_limiter::model::{
    QuotaGuardPhase, QuotaGuardRuntimeState, RateLimitSnapshot, RateLimitWindow,
};
use codex_usage_limiter::reducer::{reduce, ReducerEffect, ReducerEvent};
use codex_usage_limiter::settings::{QuotaAction, QuotaGuardSettings};

fn snapshot(used_percent: u8, reset_at: Option<i64>) -> RateLimitSnapshot {
    RateLimitSnapshot {
        primary: Some(RateLimitWindow {
            used_percent,
            window_duration_mins: Some(300),
            reset_at,
        }),
        secondary: None,
        credits: None,
        plan_type: None,
        rate_limit_reached_type: None,
        observed_at: 0,
    }
}

fn enabled_runtime(settings: &QuotaGuardSettings) -> QuotaGuardRuntimeState {
    reduce(
        QuotaGuardRuntimeState::default(),
        ReducerEvent::Enable {
            account_key: "account".into(),
            now_ms: 0,
        },
        settings,
    )
    .0
}

#[test]
fn reset_rearms_resumes_and_persists_the_requested_floor() {
    let mut settings = QuotaGuardSettings::default();
    settings.armed = false;
    settings.rearm_after_reset_percent_left = Some(40);
    let runtime = enabled_runtime(&settings);
    let (mut runtime, _) = reduce(
        runtime,
        ReducerEvent::Snapshot {
            snapshot: snapshot(92, Some(100)),
            full_read: true,
            verification: false,
            now_ms: 1,
        },
        &settings,
    );
    runtime.account.as_mut().unwrap().phase = QuotaGuardPhase::Tripped;
    let (runtime, effects) = reduce(
        runtime,
        ReducerEvent::Snapshot {
            snapshot: snapshot(18, Some(200)),
            full_read: true,
            verification: false,
            now_ms: 2,
        },
        &settings,
    );

    assert_eq!(
        runtime.account.as_ref().unwrap().phase,
        QuotaGuardPhase::Monitoring
    );
    assert!(effects.contains(&ReducerEffect::ResumeExternalEngines));
    assert!(effects.contains(&ReducerEffect::SetProcessOpen));
    assert!(effects.contains(&ReducerEffect::PersistAutoRearm {
        threshold_percent: 60
    }));
    assert!(runtime
        .account
        .unwrap()
        .activity_entries
        .iter()
        .any(|entry| entry
            .message
            .as_deref()
            .is_some_and(|message| message.contains("Automatically rearmed"))));
}

#[test]
fn reset_without_rearm_setting_does_not_change_state() {
    let mut settings = QuotaGuardSettings::default();
    settings.armed = false;
    let runtime = enabled_runtime(&settings);
    let (runtime, _) = reduce(
        runtime,
        ReducerEvent::Snapshot {
            snapshot: snapshot(90, Some(100)),
            full_read: true,
            verification: false,
            now_ms: 1,
        },
        &settings,
    );
    let (runtime, effects) = reduce(
        runtime,
        ReducerEvent::Snapshot {
            snapshot: snapshot(10, Some(200)),
            full_read: true,
            verification: false,
            now_ms: 2,
        },
        &settings,
    );

    assert_eq!(runtime.account.unwrap().phase, QuotaGuardPhase::Monitoring);
    assert!(!effects
        .iter()
        .any(|effect| matches!(effect, ReducerEffect::PersistAutoRearm { .. })));
}

#[test]
fn reset_rearm_clamps_the_used_threshold_to_current_usage() {
    for action in [
        QuotaAction::NotifyOnly,
        QuotaAction::Interrupt,
        QuotaAction::Block,
    ] {
        let mut settings = QuotaGuardSettings::default();
        settings.action = action;
        settings.rearm_after_reset_percent_left = Some(40);
        let runtime = enabled_runtime(&settings);
        let (runtime, _) = reduce(
            runtime,
            ReducerEvent::Snapshot {
                snapshot: snapshot(89, Some(100)),
                full_read: true,
                verification: false,
                now_ms: 1,
            },
            &settings,
        );
        let (runtime, effects) = reduce(
            runtime,
            ReducerEvent::Snapshot {
                snapshot: snapshot(75, Some(200)),
                full_read: true,
                verification: false,
                now_ms: 2,
            },
            &settings,
        );

        assert!(effects.contains(&ReducerEffect::PersistAutoRearm {
            threshold_percent: 75
        }));
        let mut rearmed_settings = settings;
        rearmed_settings.armed = true;
        rearmed_settings.primary_threshold_percent = 75;
        rearmed_settings.secondary_threshold_percent = 75;
        assert!(runtime
            .account
            .as_ref()
            .is_some_and(|account| account.fire_at_or_above_on_next_snapshot));
        let (runtime, effects) = reduce(
            runtime,
            ReducerEvent::Snapshot {
                snapshot: snapshot(75, Some(200)),
                full_read: true,
                verification: false,
                now_ms: 3,
            },
            &rearmed_settings,
        );

        match action {
            QuotaAction::NotifyOnly => {
                assert!(effects
                    .iter()
                    .any(|effect| matches!(effect, ReducerEffect::Notify { .. })));
                assert_eq!(runtime.account.unwrap().phase, QuotaGuardPhase::Monitoring);
            }
            QuotaAction::Interrupt => {
                assert!(effects.contains(&ReducerEffect::SetProcessClosed));
                assert!(effects.contains(&ReducerEffect::PersistDisarmed));
                assert_eq!(runtime.account.unwrap().phase, QuotaGuardPhase::Tripped);
            }
            QuotaAction::Block => {
                assert!(effects.contains(&ReducerEffect::SetProcessClosed));
                assert!(!effects.contains(&ReducerEffect::PersistDisarmed));
                assert_eq!(runtime.account.unwrap().phase, QuotaGuardPhase::Tripped);
            }
        }
    }
}
