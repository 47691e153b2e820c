//! Which quota episodes a snapshot opens, and which it rearms.

use crate::model::{
    episode_views, same_time, EpisodeKey, EpisodeView, QuotaWindowKind, RateLimitSnapshot,
    RateLimitWindow, SnapshotView,
};
use crate::settings::QuotaGuardSettings;
use crate::text::same_text;
use vstd::prelude::*;
use vstd::string::*;

verus! {

/// What a snapshot says of the episodes.
#[derive(Debug, PartialEq, Eq)]
pub struct Evaluation {
    /// The episodes that open.
    pub triggered: Vec<EpisodeKey>,
    /// The windows that are at or over their threshold, in their order.
    pub breached_windows: Vec<QuotaWindowKind>,
    /// The episodes that may open again.
    pub rearmed: Vec<EpisodeKey>,
    /// Whether the snapshot only sets the point that later ones are measured from.
    pub baseline: bool,
}

/// What an evaluation holds.
#[verifier::ext_equal]
pub struct EvaluationView {
    pub triggered: Seq<EpisodeView>,
    pub breached_windows: Seq<QuotaWindowKind>,
    pub rearmed: Seq<EpisodeView>,
    pub baseline: bool,
}

impl View for Evaluation {
    type V = EvaluationView;

    open spec fn view(&self) -> EvaluationView {
        EvaluationView {
            triggered: episode_views(self.triggered@),
            breached_windows: self.breached_windows@,
            rearmed: episode_views(self.rearmed@),
            baseline: self.baseline,
        }
    }
}

/// The episode of a window's threshold, for the window's present reset time.
pub open spec fn threshold_episode(
    account_key: Seq<char>,
    kind: QuotaWindowKind,
    threshold: u8,
    window: RateLimitWindow,
) -> EpisodeView {
    EpisodeView::Threshold {
        account_key,
        window: kind,
        threshold_percent: threshold,
        resets_at: window.reset_at,
    }
}

/// Whether the episode is of this account, window and threshold, for any reset time.
pub open spec fn same_family(
    episode: EpisodeView,
    account_key: Seq<char>,
    kind: QuotaWindowKind,
    threshold: u8,
) -> bool {
    episode matches EpisodeView::Threshold { account_key: a, window, threshold_percent, .. }
        && a == account_key && window == kind && threshold_percent == threshold
}

/// Whether the reset time of the window has changed.
pub open spec fn reset_changed(previous: Option<RateLimitWindow>, window: RateLimitWindow) -> bool {
    previous matches Some(old) && old.reset_at != window.reset_at
}

/// Whether the window has come from below the threshold to it.
pub open spec fn crossed(
    previous: Option<RateLimitWindow>,
    window: RateLimitWindow,
    threshold: u8,
) -> bool {
    previous matches Some(old) && old.used_percent < threshold && window.used_percent >= threshold
}

/// The window's part of an evaluation: what it triggers, whether it is breached and what it
/// rearms. Use that is more than two points below the threshold, or a new reset time, rearms.
pub open spec fn window_evaluation(
    account_key: Seq<char>,
    kind: QuotaWindowKind,
    threshold: u8,
    previous: Option<RateLimitWindow>,
    window: RateLimitWindow,
    fired: Seq<EpisodeView>,
) -> EvaluationView {
    let key = threshold_episode(account_key, kind, threshold, window);
    EvaluationView {
        triggered: if (crossed(previous, window, threshold) || (reset_changed(previous, window)
            && window.used_percent >= threshold)) && !fired.contains(key) {
            seq![key]
        } else {
            seq![]
        },
        breached_windows: if window.used_percent >= threshold {
            seq![kind]
        } else {
            seq![]
        },
        rearmed: if reset_changed(previous, window) || window.used_percent + 2 < threshold {
            fired.filter(|e: EpisodeView| same_family(e, account_key, kind, threshold))
        } else {
            seq![]
        },
        baseline: false,
    }
}

/// The part of an evaluation that a window contributes, nothing where it is missing.
pub open spec fn kind_evaluation(
    account_key: Seq<char>,
    kind: QuotaWindowKind,
    threshold: u8,
    current: SnapshotView,
    previous: Option<SnapshotView>,
    fired: Seq<EpisodeView>,
) -> EvaluationView {
    match current.window(kind) {
        Some(window) => window_evaluation(
            account_key,
            kind,
            threshold,
            match previous {
                Some(snapshot) => snapshot.window(kind),
                None => None,
            },
            window,
            fired,
        ),
        None => EvaluationView {
            triggered: seq![],
            breached_windows: seq![],
            rearmed: seq![],
            baseline: false,
        },
    }
}

/// What a snapshot says of the episodes. A hard limit opens its episode whenever it is reached,
/// and is rearmed by a full read in which it is not. On the first full read, percentages open
/// nothing.
pub open spec fn evaluated(
    account_key: Seq<char>,
    current: SnapshotView,
    previous: Option<SnapshotView>,
    settings: QuotaGuardSettings,
    fired: Seq<EpisodeView>,
    is_full_read: bool,
) -> EvaluationView {
    let primary = kind_evaluation(
        account_key,
        QuotaWindowKind::Primary,
        settings.primary_threshold_percent,
        current,
        previous,
        fired,
    );
    let secondary = kind_evaluation(
        account_key,
        QuotaWindowKind::Secondary,
        settings.secondary_threshold_percent,
        current,
        previous,
        fired,
    );
    let hard_key = EpisodeView::HardLimit { account_key };
    let hard = current.rate_limit_reached_type is Some;
    let baseline = previous is None && is_full_read;
    EvaluationView {
        triggered: (if baseline {
            seq![]
        } else {
            primary.triggered + secondary.triggered
        }) + (if hard && !fired.contains(hard_key) {
            seq![hard_key]
        } else {
            seq![]
        }),
        breached_windows: primary.breached_windows + secondary.breached_windows,
        rearmed: primary.rearmed + secondary.rearmed + (if !hard && is_full_read && fired.contains(
            hard_key,
        ) {
            seq![hard_key]
        } else {
            seq![]
        }),
        baseline,
    }
}

/// Whether one of the episodes is the same as `key`.
pub fn has_episode(episodes: &Vec<EpisodeKey>, key: &EpisodeKey) -> (r: bool)
    ensures
        r == episode_views(episodes@).contains(key@),
{
    let ghost all = episode_views(episodes@);
    let mut i: usize = 0;
    while i < episodes.len()
        invariant
            i <= episodes@.len(),
            all == episode_views(episodes@),
            forall|k: int| 0 <= k < i ==> #[trigger] all[k] != key@,
        decreases episodes@.len() - i,
    {
        if episodes[i].same_episode(key) {
            assert(all[i as int] == key@);
            return true;
        }
        i += 1;
    }
    false
}

fn is_same_family(episode: &EpisodeKey, account_key: &str, kind: QuotaWindowKind, threshold: u8) -> (r:
    bool)
    ensures
        r == same_family(episode@, account_key@, kind, threshold),
{
    match episode {
        EpisodeKey::Threshold { account_key: existing, window, threshold_percent, .. } => same_text(
            existing.as_str(),
            account_key,
        ) && *window == kind && *threshold_percent == threshold,
        EpisodeKey::HardLimit { .. } => false,
    }
}

fn push_family(
    fired: &Vec<EpisodeKey>,
    account_key: &str,
    kind: QuotaWindowKind,
    threshold: u8,
    rearmed: &mut Vec<EpisodeKey>,
)
    ensures
        episode_views(final(rearmed)@) == episode_views(old(rearmed)@) + episode_views(
            fired@,
        ).filter(|e: EpisodeView| same_family(e, account_key@, kind, threshold)),
{
    let ghost keep = |e: EpisodeView| same_family(e, account_key@, kind, threshold);
    let ghost all = episode_views(fired@);
    let ghost before = episode_views(rearmed@);
    let mut i: usize = 0;
    proof {
        reveal(Seq::filter);
        assert(all.take(0).filter(keep) =~= Seq::<EpisodeView>::empty());
    }
    while i < fired.len()
        invariant
            i <= fired@.len(),
            all == episode_views(fired@),
            keep == (|e: EpisodeView| same_family(e, account_key@, kind, threshold)),
            episode_views(rearmed@) == before + all.take(i as int).filter(keep),
        decreases fired@.len() - i,
    {
        proof {
            reveal(Seq::filter);
            assert(all.take(i + 1).drop_last() =~= all.take(i as int));
            assert(all.take(i + 1).last() == fired@[i as int]@);
        }
        if is_same_family(&fired[i], account_key, kind, threshold) {
            let ghost held = rearmed@;
            rearmed.push(fired[i].clone());
            assert(episode_views(rearmed@) =~= episode_views(held).push(fired@[i as int]@));
        }
        i += 1;
    }
    assert(all.take(all.len() as int) =~= all);
}

fn evaluate_window(
    account_key: &str,
    kind: QuotaWindowKind,
    threshold: u8,
    current: &RateLimitSnapshot,
    previous: Option<&RateLimitSnapshot>,
    fired: &Vec<EpisodeKey>,
    baseline: bool,
    evaluation: &mut Evaluation,
)
    ensures
        ({
            let part = kind_evaluation(
                account_key@,
                kind,
                threshold,
                current@,
                match previous {
                    Some(snapshot) => Some(snapshot@),
                    None => None,
                },
                episode_views(fired@),
            );
            final(evaluation)@ == (EvaluationView {
                triggered: old(evaluation)@.triggered + (if baseline {
                    seq![]
                } else {
                    part.triggered
                }),
                breached_windows: old(evaluation)@.breached_windows + part.breached_windows,
                rearmed: old(evaluation)@.rearmed + part.rearmed,
                baseline: old(evaluation)@.baseline,
            })
        }),
{
    let ghost before = evaluation@;
    let ghost part = kind_evaluation(
        account_key@,
        kind,
        threshold,
        current@,
        match previous {
            Some(snapshot) => Some(snapshot@),
            None => None,
        },
        episode_views(fired@),
    );
    let window = match current.window(kind) {
        Some(window) => *window,
        None => {
            assert(evaluation@ =~= (EvaluationView {
                triggered: before.triggered + Seq::<EpisodeView>::empty(),
                breached_windows: before.breached_windows + part.breached_windows,
                rearmed: before.rearmed + part.rearmed,
                baseline: before.baseline,
            }));
            return ;
        },
    };
    let previous_window = match previous {
        Some(snapshot) => match snapshot.window(kind) {
            Some(window) => Some(*window),
            None => None,
        },
        None => None,
    };
    let has_crossed = match previous_window {
        Some(old_window) => old_window.used_percent < threshold && window.used_percent >= threshold,
        None => false,
    };
    let has_new_reset = match previous_window {
        Some(old_window) => !same_time(old_window.reset_at, window.reset_at),
        None => false,
    };
    if window.used_percent >= threshold {
        evaluation.breached_windows.push(kind);
    }
    if has_new_reset || window.used_percent < threshold.saturating_sub(2) {
        push_family(fired, account_key, kind, threshold, &mut evaluation.rearmed);
    }
    let key = EpisodeKey::Threshold {
        account_key: account_key.to_owned(),
        window: kind,
        threshold_percent: threshold,
        resets_at: window.reset_at,
    };
    if !baseline && (has_crossed || (has_new_reset && window.used_percent >= threshold))
        && !has_episode(fired, &key) {
        evaluation.triggered.push(key);
    }
    assert(evaluation@.triggered =~= before.triggered + (if baseline {
        seq![]
    } else {
        part.triggered
    }));
    assert(evaluation@.breached_windows =~= before.breached_windows + part.breached_windows);
    assert(evaluation@.rearmed =~= before.rearmed + part.rearmed);
}

/// What a snapshot says of the episodes. `fired` holds the episodes that have opened, each
/// once.
pub fn evaluate_snapshot(
    account_key: &str,
    current: &RateLimitSnapshot,
    previous: Option<&RateLimitSnapshot>,
    settings: &QuotaGuardSettings,
    fired: &Vec<EpisodeKey>,
    is_full_read: bool,
) -> (r: Evaluation)
    ensures
        r@ == evaluated(
            account_key@,
            current@,
            match previous {
                Some(snapshot) => Some(snapshot@),
                None => None,
            },
            *settings,
            episode_views(fired@),
            is_full_read,
        ),
{
    let baseline = previous.is_none() && is_full_read;
    let mut evaluation = Evaluation {
        triggered: Vec::new(),
        breached_windows: Vec::new(),
        rearmed: Vec::new(),
        baseline,
    };
    evaluate_window(
        account_key,
        QuotaWindowKind::Primary,
        settings.primary_threshold_percent,
        current,
        previous,
        fired,
        baseline,
        &mut evaluation,
    );
    evaluate_window(
        account_key,
        QuotaWindowKind::Secondary,
        settings.secondary_threshold_percent,
        current,
        previous,
        fired,
        baseline,
        &mut evaluation,
    );
    let ghost windows = evaluation@;
    let hard_key = EpisodeKey::HardLimit { account_key: account_key.to_owned() };
    let known = has_episode(fired, &hard_key);
    if current.rate_limit_reached_type.is_some() {
        if !known {
            evaluation.triggered.push(hard_key);
        }
    } else if is_full_read && known {
        evaluation.rearmed.push(hard_key);
    }
    proof {
        let expected = evaluated(
            account_key@,
            current@,
            match previous {
                Some(snapshot) => Some(snapshot@),
                None => None,
            },
            *settings,
            episode_views(fired@),
            is_full_read,
        );
        assert(evaluation@.triggered =~= expected.triggered);
        assert(evaluation@.breached_windows =~= expected.breached_windows);
        assert(evaluation@.rearmed =~= expected.rearmed);
    }
    evaluation
}

/// The first full read opens no threshold episode.
pub proof fn baseline_triggers_no_threshold(
    account_key: Seq<char>,
    current: SnapshotView,
    settings: QuotaGuardSettings,
    fired: Seq<EpisodeView>,
    i: int,
)
    requires
        0 <= i < evaluated(account_key, current, None, settings, fired, true).triggered.len(),
    ensures
        evaluated(account_key, current, None, settings, fired, true).triggered[i]
            == (EpisodeView::HardLimit { account_key }),
{
}

/// A hard limit that has not fired fires on every kind of read, the first one included.
pub proof fn hard_limit_is_never_suppressed(
    account_key: Seq<char>,
    current: SnapshotView,
    previous: Option<SnapshotView>,
    settings: QuotaGuardSettings,
    fired: Seq<EpisodeView>,
    is_full_read: bool,
)
    requires
        current.rate_limit_reached_type is Some,
        !fired.contains(EpisodeView::HardLimit { account_key }),
    ensures
        evaluated(
            account_key,
            current,
            previous,
            settings,
            fired,
            is_full_read,
        ).triggered.last() == (EpisodeView::HardLimit { account_key }),
{
}

/// An episode that has fired is never triggered again.
pub proof fn fired_episode_is_not_triggered(
    account_key: Seq<char>,
    current: SnapshotView,
    previous: Option<SnapshotView>,
    settings: QuotaGuardSettings,
    fired: Seq<EpisodeView>,
    is_full_read: bool,
    i: int,
)
    requires
        0 <= i < evaluated(
            account_key,
            current,
            previous,
            settings,
            fired,
            is_full_read,
        ).triggered.len(),
    ensures
        !fired.contains(
            evaluated(account_key, current, previous, settings, fired, is_full_read).triggered[i],
        ),
{
}

/// Only an episode that has fired is rearmed.
pub proof fn only_fired_episodes_are_rearmed(
    account_key: Seq<char>,
    current: SnapshotView,
    previous: Option<SnapshotView>,
    settings: QuotaGuardSettings,
    fired: Seq<EpisodeView>,
    is_full_read: bool,
    i: int,
)
    requires
        0 <= i < evaluated(
            account_key,
            current,
            previous,
            settings,
            fired,
            is_full_read,
        ).rearmed.len(),
    ensures
        fired.contains(
            evaluated(account_key, current, previous, settings, fired, is_full_read).rearmed[i],
        ),
{
    let result = evaluated(account_key, current, previous, settings, fired, is_full_read);
    let primary = |e: EpisodeView|
        same_family(e, account_key, QuotaWindowKind::Primary, settings.primary_threshold_percent);
    let secondary = |e: EpisodeView|
        same_family(
            e,
            account_key,
            QuotaWindowKind::Secondary,
            settings.secondary_threshold_percent,
        );
    lemma_filter_members(fired, primary);
    lemma_filter_members(fired, secondary);
}

proof fn lemma_filter_members(s: Seq<EpisodeView>, keep: spec_fn(EpisodeView) -> bool)
    ensures
        forall|i: int| 0 <= i < s.filter(keep).len() ==> s.contains(#[trigger] s.filter(keep)[i]),
    decreases s.len(),
{
    reveal(Seq::filter);
    if s.len() > 0 {
        let rest = s.drop_last();
        lemma_filter_members(rest, keep);
        assert forall|i: int| 0 <= i < s.filter(keep).len() implies s.contains(
            #[trigger] s.filter(keep)[i],
        ) by {
            if i < rest.filter(keep).len() {
                assert(rest.contains(rest.filter(keep)[i]));
                let k = choose|k: int| 0 <= k < rest.len() && rest[k] == rest.filter(keep)[i];
                assert(s[k] == s.filter(keep)[i]);
            } else {
                assert(s[s.len() - 1] == s.filter(keep)[i]);
            }
        }
    }
}

} // verus!
