//! The freshness check before a managed launch.
//!
//! Local patch changes are never deferred. GitHub work uses the normal HTTP
//! cache and a small total network budget; if GitHub is unreachable, expired
//! cached responses remain usable and an active source can still be rebuilt
//! with a changed local patch stack.

use vstd::prelude::*;

use crate::config::{branch_name, Config};
use crate::paths::{parts, same_path, Platform};
use crate::patchset::{source_key_of, PatchSet};
use crate::state::{baseline_source, InstallState, StateView};
use crate::text::{contains_any, mentions_any, opt_text, same, slices};
use crate::types::{
    in_calendar, later, opt_desired, DesiredBuild, DesiredView, FailureView, ProbeKind, ProbeState,
    ProbeView, ResolvedSource, SourceView, Timestamp,
};

verus! {

pub const LAUNCH_NETWORK_BUDGET_SECONDS: u64 = 3;

pub const UNREACHABLE_RETRY_SECONDS: u64 = 30;

/// What upstream answered.
#[derive(Debug)]
pub struct ResolveOutcome {
    pub source: ResolvedSource,
    pub used_stale_cache: bool,
    pub next_check_at: Option<Timestamp>,
}

pub open spec fn blocking_needles() -> Seq<Seq<char>> {
    seq![
        "retag"@,
        "moved tag"@,
        "rollback"@,
        "downgrade"@,
        "release deletion"@,
        "non-fast-forward"@,
        "--accept-force-push"@,
    ]
}

/// The resolution failed because upstream moved in a way that needs the user's consent.
pub fn resolution_is_blocked(message: &str) -> (r: bool)
    ensures
        r == mentions_any(message@, blocking_needles()),
{
    let needles = vec![
        "retag",
        "moved tag",
        "rollback",
        "downgrade",
        "release deletion",
        "non-fast-forward",
        "--accept-force-push",
    ];
    proof {
        assert(slices(needles@) =~= blocking_needles());
    }
    contains_any(message, &needles)
}

/// The build of `source` with the current stack.
pub open spec fn desired_build(
    source: SourceView,
    fingerprint: Seq<char>,
    target: Seq<char>,
) -> DesiredView {
    DesiredView {
        source,
        patch_fingerprint: fingerprint,
        target,
        source_key: source_key_of(source, fingerprint, target),
    }
}

pub fn desired_for(source: &ResolvedSource, patches: &PatchSet, target: &str) -> (r: DesiredBuild)
    ensures
        r@ == desired_build(source@, patches.fingerprint@, target@),
{
    DesiredBuild {
        source_key: patches.source_key(source, target),
        patch_fingerprint: patches.fingerprint.clone(),
        source: source.clone(),
        target: target.to_owned(),
    }
}

/// The recorded upstream result may be used again: its polling floor has not passed, and
/// what runs is what the recorded result and the live inputs ask for.
pub open spec fn freshness_is_valid(
    s: StateView,
    channel: Seq<char>,
    fingerprint: Seq<char>,
    target: Seq<char>,
    now: Timestamp,
) -> bool {
    &&& s.probe.kind == ProbeKind::Current || s.probe.kind == ProbeKind::Degraded
    &&& s.probe.next_check_at is Some
    &&& now.nanos < s.probe.next_check_at->0.nanos
    &&& s.active is Some
    &&& s.probe.desired is Some
    &&& s.active->0.source.channel == channel
    &&& s.active->0.target == target
    &&& s.active->0.patch_fingerprint == fingerprint
    &&& s.active->0.source_key == source_key_of(s.active->0.source, fingerprint, target)
    &&& s.probe.desired->0 == desired_build(s.active->0.source, fingerprint, target)
}

pub fn cached_remote_freshness_is_valid(
    state: &InstallState,
    config: &Config,
    patches: &PatchSet,
    target: &str,
    now: Timestamp,
) -> (r: bool)
    ensures
        r == freshness_is_valid(
            state@,
            branch_name(config.branch),
            patches.fingerprint@,
            target@,
            now,
        ),
{
    if state.probe.kind != ProbeKind::Current && state.probe.kind != ProbeKind::Degraded {
        return false;
    }
    match state.probe.next_check_at {
        Some(next) => {
            if next.nanos <= now.nanos {
                return false;
            }
        },
        None => return false,
    }
    let active = match &state.active {
        Some(active) => active,
        None => return false,
    };
    let desired = match &state.probe.desired {
        Some(desired) => desired,
        None => return false,
    };
    let expected = patches.source_key(&active.source, target);
    same(active.source.channel.as_str(), config.branch.as_str()) && same(
        active.target.as_str(),
        target,
    ) && same(active.patch_fingerprint.as_str(), patches.fingerprint.as_str()) && same(
        active.source_key.as_str(),
        expected.as_str(),
    ) && desired.source.same_as(&active.source) && same(desired.target.as_str(), target) && same(
        desired.patch_fingerprint.as_str(),
        patches.fingerprint.as_str(),
    ) && same(desired.source_key.as_str(), expected.as_str())
}

/// What the freshness check does once the local inputs have been read.
#[derive(Debug)]
pub enum RefreshStep {
    /// The recorded result stands; nothing is written.
    Reuse,
    /// The local inputs are invalid.
    LocalFailure(String),
    /// Upstream is asked, and measured against `baseline`. If it cannot be reached,
    /// `fallback` is the build of the source that runs.
    Resolve { baseline: Option<ResolvedSource>, fallback: Option<DesiredBuild> },
    /// The recorded state cannot be used.
    Fail(String),
}

pub open spec fn opt_source(o: Option<ResolvedSource>) -> Option<SourceView> {
    match o {
        Some(s) => Some(s@),
        None => None,
    }
}

/// The build of the source that runs, when it is of the configured channel and target.
pub open spec fn fallback_build(
    s: StateView,
    channel: Seq<char>,
    fingerprint: Seq<char>,
    target: Seq<char>,
) -> Option<DesiredView> {
    match s.active {
        Some(active) => if active.source.channel == channel && active.target == target {
            Some(desired_build(active.source, fingerprint, target))
        } else {
            None
        },
        None => None,
    }
}

/// The first half of the check. `inputs` are the configuration, the patch stack and the
/// resolved target, or why one of them is invalid.
pub fn begin_refresh(
    initial: &InstallState,
    inputs: &Result<(Config, PatchSet, String), String>,
    now: Timestamp,
) -> (r: RefreshStep)
    ensures
        match inputs {
            Err(error) => r matches RefreshStep::LocalFailure(message) && message@
                == "local patch input is invalid: "@ + error@,
            Ok((config, patches, target)) => {
                let channel = branch_name(config.branch);
                if freshness_is_valid(initial@, channel, patches.fingerprint@, target@, now) {
                    r is Reuse
                } else {
                    match baseline_source(initial@, channel) {
                        Err(message) => r matches RefreshStep::Fail(e) && e@ == message,
                        Ok(source) => r matches RefreshStep::Resolve { baseline, fallback }
                            && opt_source(baseline) == source && opt_desired(fallback)
                            == fallback_build(initial@, channel, patches.fingerprint@, target@),
                    }
                }
            },
        },
{
    let (config, patches, target) = match inputs {
        Ok((config, patches, target)) => (config, patches, target),
        Err(error) => {
            let mut message = "local patch input is invalid: ".to_owned();
            message.append(error.as_str());
            return RefreshStep::LocalFailure(message);
        },
    };
    if cached_remote_freshness_is_valid(initial, config, patches, target.as_str(), now) {
        return RefreshStep::Reuse;
    }
    let channel = config.branch.as_str();
    let fallback = match &initial.active {
        Some(active) => {
            if same(active.source.channel.as_str(), channel) && same(
                active.target.as_str(),
                target.as_str(),
            ) {
                Some(desired_for(&active.source, patches, target.as_str()))
            } else {
                None
            }
        },
        None => None,
    };
    match initial.resolution_baseline(channel) {
        Err(message) => RefreshStep::Fail(message),
        Ok(source) => {
            let baseline = match source {
                Some(s) => Some(s.clone()),
                None => None,
            };
            RefreshStep::Resolve { baseline, fallback }
        },
    }
}

/// What is recorded of a check.
#[derive(Debug)]
#[allow(inconsistent_fields)]
pub enum RefreshRecord {
    Desired {
        desired: DesiredBuild,
        current_kind: ProbeKind,
        message: Option<String>,
        next_check_at: Option<Timestamp>,
    },
    ResolutionFailure { message: String, blocked: bool },
    LocalFailure { message: String },
}

#[allow(inconsistent_fields)]
pub enum RecordedView {
    Desired {
        desired: DesiredView,
        current_kind: ProbeKind,
        message: Option<Seq<char>>,
        next_check_at: Option<Timestamp>,
    },
    ResolutionFailure { message: Seq<char>, blocked: bool },
    LocalFailure { message: Seq<char> },
}

impl View for RefreshRecord {
    type V = RecordedView;

    open spec fn view(&self) -> RecordedView {
        match self {
            RefreshRecord::Desired {
                desired,
                current_kind,
                message,
                next_check_at,
            } => RecordedView::Desired {
                desired: desired@,
                current_kind: *current_kind,
                message: opt_text(*message),
                next_check_at: *next_check_at,
            },
            RefreshRecord::ResolutionFailure {
                message,
                blocked,
            } => RecordedView::ResolutionFailure { message: message@, blocked: *blocked },
            RefreshRecord::LocalFailure { message } => RecordedView::LocalFailure {
                message: message@,
            },
        }
    }
}

pub open spec fn stale_message() -> Seq<char> {
    "GitHub was unreachable within the launch budget; used the last cached upstream response"@
}

pub open spec fn check_failed_message(error: Seq<char>) -> Seq<char> {
    "upstream freshness check failed: "@ + error
}

/// What the answer of upstream comes to.
pub open spec fn answered(
    source: SourceView,
    used_stale_cache: bool,
    next_check_at: Option<Timestamp>,
    fingerprint: Seq<char>,
    target: Seq<char>,
) -> RecordedView {
    RecordedView::Desired {
        desired: desired_build(source, fingerprint, target),
        current_kind: if used_stale_cache {
            ProbeKind::Degraded
        } else {
            ProbeKind::Current
        },
        message: if used_stale_cache {
            Some(stale_message())
        } else {
            None
        },
        next_check_at,
    }
}

/// What a failed question comes to: the source that runs still serves the local stack,
/// unless the failure asks for the user's consent.
pub open spec fn unanswered(
    error: Seq<char>,
    fallback: Option<DesiredView>,
    now: Timestamp,
) -> RecordedView {
    let message = check_failed_message(error);
    match fallback {
        Some(desired) => if mentions_any(message, blocking_needles()) {
            RecordedView::ResolutionFailure {
                message,
                blocked: mentions_any(error, blocking_needles()),
            }
        } else {
            RecordedView::Desired {
                desired,
                current_kind: ProbeKind::Degraded,
                message: Some(
                    message + "; using the active Codex source for local patch freshness"@,
                ),
                next_check_at: Some(later(now, UNREACHABLE_RETRY_SECONDS)),
            }
        },
        None => RecordedView::ResolutionFailure {
            message,
            blocked: mentions_any(error, blocking_needles()),
        },
    }
}

/// The second half of the check.
pub fn finish_refresh(
    outcome: &Result<ResolveOutcome, String>,
    fallback: Option<DesiredBuild>,
    patches: &PatchSet,
    target: &str,
    now: Timestamp,
) -> (r: RefreshRecord)
    requires
        in_calendar(now),
    ensures
        r@ == (match outcome {
            Ok(o) => answered(
                o.source@,
                o.used_stale_cache,
                o.next_check_at,
                patches.fingerprint@,
                target@,
            ),
            Err(error) => unanswered(error@, opt_desired(fallback), now),
        }),
{
    match outcome {
        Ok(o) => {
            let message = if o.used_stale_cache {
                Some(
                    "GitHub was unreachable within the launch budget; used the last cached upstream response".to_owned(),
                )
            } else {
                None
            };
            RefreshRecord::Desired {
                desired: desired_for(&o.source, patches, target),
                current_kind: if o.used_stale_cache {
                    ProbeKind::Degraded
                } else {
                    ProbeKind::Current
                },
                message,
                next_check_at: o.next_check_at,
            }
        },
        Err(error) => {
            let mut message = "upstream freshness check failed: ".to_owned();
            message.append(error.as_str());
            let blocked = resolution_is_blocked(error.as_str());
            match fallback {
                Some(desired) => {
                    if resolution_is_blocked(message.as_str()) {
                        RefreshRecord::ResolutionFailure { message, blocked }
                    } else {
                        message.append(
                            "; using the active Codex source for local patch freshness",
                        );
                        RefreshRecord::Desired {
                            desired,
                            current_kind: ProbeKind::Degraded,
                            message: Some(message),
                            next_check_at: Some(now.plus_seconds(UNREACHABLE_RETRY_SECONDS)),
                        }
                    }
                },
                None => RefreshRecord::ResolutionFailure { message, blocked },
            }
        },
    }
}

pub open spec fn cached_failure_message(summary: Seq<char>) -> Seq<char> {
    "cached build failure for this patch set: "@ + summary
        + "; use `codex-patcher update --retry`"@
}

/// A failure that belongs to the build of that key.
pub open spec fn failure_for(s: StateView, source_key: Seq<char>) -> Option<FailureView> {
    match s.failure {
        Some(f) => if f.desired.source_key == source_key {
            Some(f)
        } else {
            None
        },
        None => None,
    }
}

pub open spec fn runs(s: StateView, source_key: Seq<char>) -> bool {
    s.active is Some && s.active->0.source_key == source_key
}

/// The probe after a check has been recorded.
pub open spec fn recorded_probe(s: StateView, record: RecordedView, now: Timestamp) -> ProbeView {
    match record {
        RecordedView::Desired { desired, current_kind, message, next_check_at } => {
            let failure = failure_for(s, desired.source_key);
            ProbeView {
                kind: if failure is Some {
                    ProbeKind::Failed
                } else if runs(s, desired.source_key) {
                    current_kind
                } else {
                    ProbeKind::Pending
                },
                checked_at: Some(now),
                next_check_at,
                desired: Some(desired),
                message: if failure is Some {
                    Some(cached_failure_message(failure->0.summary))
                } else {
                    message
                },
            }
        },
        RecordedView::ResolutionFailure { message, blocked } => ProbeView {
            kind: if blocked {
                ProbeKind::Blocked
            } else if s.active is Some {
                ProbeKind::Degraded
            } else {
                ProbeKind::Failed
            },
            checked_at: Some(now),
            next_check_at: Some(later(now, UNREACHABLE_RETRY_SECONDS)),
            desired: s.probe.desired,
            message: Some(message),
        },
        RecordedView::LocalFailure { message } => ProbeView {
            kind: ProbeKind::Failed,
            checked_at: Some(now),
            next_check_at: None,
            desired: s.probe.desired,
            message: Some(message),
        },
    }
}

/// The failure record after a check: one of another build is dropped.
pub open spec fn recorded_failure(s: StateView, record: RecordedView) -> Option<FailureView> {
    match record {
        RecordedView::Desired { desired, .. } => failure_for(s, desired.source_key),
        RecordedView::ResolutionFailure { .. } => s.failure,
        RecordedView::LocalFailure { .. } => None,
    }
}

/// The state after a check, unless the patch directory has been changed meanwhile.
pub open spec fn recorded(
    platform: Platform,
    s: StateView,
    expected_patch_dir: Seq<char>,
    record: RecordedView,
    now: Timestamp,
) -> StateView {
    if parts(platform, s.patch_dir) != parts(platform, expected_patch_dir) {
        s
    } else {
        StateView {
            probe: recorded_probe(s, record, now),
            failure: recorded_failure(s, record),
            ..s
        }
    }
}

/// Records a check in the latest state. The result says whether the state is to be saved.
pub fn record_refresh(
    platform: Platform,
    latest: &mut InstallState,
    expected_patch_dir: &str,
    record: RefreshRecord,
    now: Timestamp,
) -> (r: bool)
    requires
        in_calendar(now),
    ensures
        final(latest)@ == recorded(platform, old(latest)@, expected_patch_dir@, record@, now),
        r == (parts(platform, old(latest).patch_dir@) == parts(platform, expected_patch_dir@)),
{
    if !same_path(platform, latest.patch_dir.as_str(), expected_patch_dir) {
        return false;
    }
    match record {
        RefreshRecord::Desired { desired, current_kind, message, next_check_at } => {
            let current = match &latest.active {
                Some(active) => same(active.source_key.as_str(), desired.source_key.as_str()),
                None => false,
            };
            let cached = match &latest.failure {
                Some(failure) => {
                    if same(
                        failure.desired.source_key.as_str(),
                        desired.source_key.as_str(),
                    ) {
                        Some(failure.summary.clone())
                    } else {
                        None
                    }
                },
                None => None,
            };
            let (kind, shown) = match cached {
                Some(summary) => {
                    let mut text = "cached build failure for this patch set: ".to_owned();
                    text.append(summary.as_str());
                    text.append("; use `codex-patcher update --retry`");
                    (ProbeKind::Failed, Some(text))
                },
                None => {
                    latest.failure = None;
                    (
                        if current {
                            current_kind
                        } else {
                            ProbeKind::Pending
                        },
                        message,
                    )
                },
            };
            latest.probe = ProbeState {
                kind,
                checked_at: Some(now),
                next_check_at,
                desired: Some(desired),
                message: shown,
            };
        },
        RefreshRecord::ResolutionFailure { message, blocked } => {
            let kind = if blocked {
                ProbeKind::Blocked
            } else if latest.active.is_some() {
                ProbeKind::Degraded
            } else {
                ProbeKind::Failed
            };
            let desired = crate::types::copy_desired(&latest.probe.desired);
            latest.probe = ProbeState {
                kind,
                checked_at: Some(now),
                next_check_at: Some(now.plus_seconds(UNREACHABLE_RETRY_SECONDS)),
                desired,
                message: Some(message),
            };
        },
        RefreshRecord::LocalFailure { message } => {
            latest.failure = None;
            let desired = crate::types::copy_desired(&latest.probe.desired);
            latest.probe = ProbeState {
                kind: ProbeKind::Failed,
                checked_at: Some(now),
                next_check_at: None,
                desired,
                message: Some(message),
            };
        },
    }
    true
}

/// A warm launch needs no network: once the answer of upstream has been recorded and is
/// what runs, the check reuses it with the same inputs until its polling floor passes.
pub proof fn recorded_answers_are_reused(
    platform: Platform,
    s: StateView,
    source: SourceView,
    stale: bool,
    next: Timestamp,
    fingerprint: Seq<char>,
    target: Seq<char>,
    now: Timestamp,
    later_on: Timestamp,
)
    requires
        s.active is Some,
        s.active->0.source == source,
        s.active->0.target == target,
        s.active->0.patch_fingerprint == fingerprint,
        s.active->0.source_key == source_key_of(source, fingerprint, target),
        failure_for(s, source_key_of(source, fingerprint, target)) is None,
        later_on.nanos < next.nanos,
    ensures
        freshness_is_valid(
            recorded(
                platform,
                s,
                s.patch_dir,
                answered(source, stale, Some(next), fingerprint, target),
                now,
            ),
            source.channel,
            fingerprint,
            target,
            later_on,
        ),
{
}

/// A change of the patch stack is never deferred: a recorded answer is not reused for
/// another fingerprint.
pub proof fn patch_changes_are_never_deferred(
    s: StateView,
    channel: Seq<char>,
    old_fingerprint: Seq<char>,
    new_fingerprint: Seq<char>,
    target: Seq<char>,
    t: Timestamp,
    u: Timestamp,
)
    requires
        freshness_is_valid(s, channel, old_fingerprint, target, t),
        new_fingerprint != old_fingerprint,
    ensures
        !freshness_is_valid(s, channel, new_fingerprint, target, u),
{
}

/// Whatever a check records, the generations, the launchers and the patch directory stay.
pub proof fn checks_leave_the_installation_alone(
    platform: Platform,
    s: StateView,
    expected: Seq<char>,
    record: RecordedView,
    now: Timestamp,
)
    ensures
        recorded(platform, s, expected, record, now).active == s.active,
        recorded(platform, s, expected, record, now).previous == s.previous,
        recorded(platform, s, expected, record, now).surfaces == s.surfaces,
        recorded(platform, s, expected, record, now).updaters == s.updaters,
        recorded(platform, s, expected, record, now).patch_dir == s.patch_dir,
{
}

} // verus!
