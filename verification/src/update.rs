//! The foreground update: resolve, build, check again, activate.

use vstd::prelude::*;

use crate::arguments::UpdateOptions;
use crate::build::{failure_text, BuildFailure, BuildFailureView};
use crate::config::{branch_name, Config};
use crate::outside::{uuid_form, uuid_text};
use crate::patchset::PatchSet;
use crate::probe::{desired_build, desired_for, failure_for};
use crate::state::{activated, InstallState, StateView};
use crate::text::{contains_any, mentions_any, opt_text, result_unit, same, slices};
use crate::types::{
    copy_opt, opt_desired, DesiredBuild, DesiredView, FailureRecord, FailureView, GenerationRef,
    GenerationView, ProbeKind, ProbeState, ProbeView, Timestamp,
};
use crate::paths::Platform;

verus! {

/// The probe that a step of the update leaves behind.
pub open spec fn settled_probe(
    kind: ProbeKind,
    desired: DesiredView,
    message: Option<Seq<char>>,
    now: Timestamp,
) -> ProbeView {
    ProbeView { kind, checked_at: Some(now), next_check_at: None, desired: Some(desired), message }
}

fn probe_state(
    kind: ProbeKind,
    desired: &DesiredBuild,
    message: Option<String>,
    now: Timestamp,
) -> (r: ProbeState)
    ensures
        r@ == settled_probe(kind, desired@, opt_text(message), now),
{
    ProbeState {
        kind,
        checked_at: Some(now),
        next_check_at: None,
        desired: Some(desired.clone()),
        message,
    }
}

pub open spec fn transient_message(f: BuildFailureView) -> Seq<char> {
    "temporary network failure during "@ + f.phase + ": "@ + f.summary + " (log: "@ + f.log_path
        + ")"@
}

/// A network failure is reported, but not held against the build.
pub open spec fn transient_recorded(
    s: StateView,
    desired: DesiredView,
    f: BuildFailureView,
    now: Timestamp,
) -> StateView {
    StateView {
        probe: settled_probe(
            if failure_for(s, desired.source_key) is Some {
                ProbeKind::Failed
            } else {
                ProbeKind::Degraded
            },
            desired,
            Some(transient_message(f)),
            now,
        ),
        ..s
    }
}

pub fn record_transient_build_problem(
    state: &mut InstallState,
    desired: &DesiredBuild,
    failure: &BuildFailure,
    now: Timestamp,
)
    ensures
        final(state)@ == transient_recorded(old(state)@, desired@, failure@, now),
{
    let remains = match &state.failure {
        Some(record) => same(
            record.desired.source_key.as_str(),
            desired.source_key.as_str(),
        ),
        None => false,
    };
    let mut message = "temporary network failure during ".to_owned();
    message.append(failure.phase.as_str());
    message.append(": ");
    message.append(failure.summary.as_str());
    message.append(" (log: ");
    message.append(failure.log_path.as_str());
    message.append(")");
    let kind = if remains { ProbeKind::Failed } else { ProbeKind::Degraded };
    state.probe = probe_state(kind, desired, Some(message), now);
}

/// The record of a deterministic failure. One of the same build keeps its id, its time and
/// its repair worktree.
pub open spec fn failure_record(
    s: StateView,
    desired: DesiredView,
    f: BuildFailureView,
    new_id: u128,
    now: Timestamp,
) -> FailureView {
    let existing = failure_for(s, desired.source_key);
    FailureView {
        id: match existing {
            Some(record) => record.id,
            None => uuid_form(new_id),
        },
        desired,
        phase: f.phase,
        summary: f.summary,
        failed_patch_index: f.failed_patch_index,
        failed_patch: f.failed_patch,
        log_path: f.log_path,
        created_at: match existing {
            Some(record) => record.created_at,
            None => now,
        },
        repair_worktree: match existing {
            Some(record) => record.repair_worktree,
            None => None,
        },
    }
}

pub open spec fn failure_recorded(
    platform: Platform,
    s: StateView,
    desired: DesiredView,
    f: BuildFailureView,
    new_id: u128,
    now: Timestamp,
    home: Option<&str>,
) -> StateView {
    StateView {
        failure: Some(failure_record(s, desired, f, new_id, now)),
        probe: settled_probe(
            ProbeKind::Failed,
            desired,
            Some(failure_text(platform, f, home)),
            now,
        ),
        ..s
    }
}

pub fn record_failure(
    platform: Platform,
    state: &mut InstallState,
    desired: &DesiredBuild,
    failure: &BuildFailure,
    new_id: u128,
    now: Timestamp,
    home: Option<&str>,
)
    ensures
        final(state)@ == failure_recorded(
            platform,
            old(state)@,
            desired@,
            failure@,
            new_id,
            now,
            home,
        ),
{
    let (id, created_at, repair_worktree) = match &state.failure {
        Some(record) => {
            if same(record.desired.source_key.as_str(), desired.source_key.as_str()) {
                (record.id.clone(), record.created_at, copy_opt(&record.repair_worktree))
            } else {
                (uuid_text(new_id), now, None)
            }
        },
        None => (uuid_text(new_id), now, None),
    };
    state.failure = Some(
        FailureRecord {
            id,
            desired: desired.clone(),
            phase: failure.phase.clone(),
            summary: failure.summary.clone(),
            failed_patch_index: failure.failed_patch_index,
            failed_patch: copy_opt(&failure.failed_patch),
            log_path: failure.log_path.clone(),
            created_at,
            repair_worktree,
        },
    );
    state.probe = probe_state(
        ProbeKind::Failed,
        desired,
        Some(failure.message(platform, home)),
        now,
    );
}

pub open spec fn consent_needles() -> Seq<Seq<char>> {
    seq![
        "retag"@,
        "moved tag"@,
        "downgrade"@,
        "release deletion"@,
        "non-fast-forward"@,
        "--accept-force-push"@,
    ]
}

/// A source that cannot be resolved is blocked when the user's consent is missing.
pub open spec fn resolution_problem_recorded(
    s: StateView,
    error: Seq<char>,
    now: Timestamp,
) -> StateView {
    let message = "source resolution failed: "@ + error;
    StateView {
        probe: ProbeView {
            kind: if mentions_any(message, consent_needles()) {
                ProbeKind::Blocked
            } else if s.active is Some {
                ProbeKind::Degraded
            } else {
                ProbeKind::Failed
            },
            checked_at: Some(now),
            next_check_at: None,
            desired: s.probe.desired,
            message: Some(message),
        },
        ..s
    }
}

pub fn record_resolution_problem(state: &mut InstallState, error: &str, now: Timestamp)
    ensures
        final(state)@ == resolution_problem_recorded(old(state)@, error@, now),
{
    let mut message = "source resolution failed: ".to_owned();
    message.append(error);
    let needles = vec![
        "retag",
        "moved tag",
        "downgrade",
        "release deletion",
        "non-fast-forward",
        "--accept-force-push",
    ];
    proof {
        assert(slices(needles@) =~= consent_needles());
    }
    let kind = if contains_any(message.as_str(), &needles) {
        ProbeKind::Blocked
    } else if state.active.is_some() {
        ProbeKind::Degraded
    } else {
        ProbeKind::Failed
    };
    let desired = crate::types::copy_desired(&state.probe.desired);
    state.probe = ProbeState {
        kind,
        checked_at: Some(now),
        next_check_at: None,
        desired,
        message: Some(message),
    };
}

/// The inputs changed while the build ran.
pub open spec fn change_recorded(s: StateView, live: DesiredView, now: Timestamp) -> StateView {
    StateView {
        probe: settled_probe(
            ProbeKind::Pending,
            live,
            Some("inputs changed during the build; the staged generation was discarded"@),
            now,
        ),
        ..s
    }
}

pub fn record_changed_inputs(state: &mut InstallState, live: &DesiredBuild, now: Timestamp)
    ensures
        final(state)@ == change_recorded(old(state)@, live@, now),
{
    state.probe = probe_state(
        ProbeKind::Pending,
        live,
        Some("inputs changed during the build; the staged generation was discarded".to_owned()),
        now,
    );
}

/// The state once an update has been activated. The polling floor of the launch that asked
/// for it is kept.
pub open spec fn update_activated(
    s: StateView,
    g: GenerationView,
    desired: DesiredView,
    launch_desired: Option<DesiredView>,
    now: Timestamp,
) -> StateView {
    let floor = if launch_desired is Some && s.probe.desired == launch_desired {
        s.probe.next_check_at
    } else {
        None
    };
    StateView {
        probe: ProbeView {
            next_check_at: floor,
            ..settled_probe(ProbeKind::Current, desired, None, now)
        },
        ..activated(s, g, now)
    }
}

pub fn activate_update(
    state: &mut InstallState,
    generation: GenerationRef,
    desired: &DesiredBuild,
    launch_desired: &Option<DesiredBuild>,
    now: Timestamp,
)
    ensures
        final(state)@ == update_activated(
            old(state)@,
            generation@,
            desired@,
            opt_desired(*launch_desired),
            now,
        ),
{
    let floor = match (launch_desired, &state.probe.desired) {
        (Some(expected), Some(recorded)) => {
            if recorded.same_as(expected) {
                state.probe.next_check_at
            } else {
                None
            }
        },
        _ => None,
    };
    state.activate(generation, now);
    let mut probe = probe_state(ProbeKind::Current, desired, None, now);
    probe.next_check_at = floor;
    state.probe = probe;
}

/// The build that a launch asked for, checked against the live inputs.
pub open spec fn launch_build(
    channel: Seq<char>,
    fingerprint: Seq<char>,
    target: Seq<char>,
    expected: DesiredView,
) -> Result<DesiredView, Seq<char>> {
    if channel != expected.source.channel {
        Err(
            "release channel changed after the launch freshness check (expected "@
                + expected.source.channel + ", found "@ + channel + ")"@,
        )
    } else if target != expected.target {
        Err(
            "build target changed after the launch freshness check (expected "@ + expected.target
                + ", found "@ + target + ")"@,
        )
    } else if desired_build(expected.source, fingerprint, target) != expected {
        Err("patch inputs changed after the launch freshness check"@)
    } else {
        Ok(expected)
    }
}

pub open spec fn desired_result(r: Result<DesiredBuild, String>) -> Result<DesiredView, Seq<char>> {
    match r {
        Ok(desired) => Ok(desired@),
        Err(message) => Err(message@),
    }
}

pub fn resolve_build_inputs(
    config: &Config,
    patches: &PatchSet,
    target: &str,
    expected: &DesiredBuild,
) -> (r: Result<DesiredBuild, String>)
    ensures
        desired_result(r) == launch_build(
            branch_name(config.branch),
            patches.fingerprint@,
            target@,
            expected@,
        ),
{
    let channel = config.branch.as_str();
    if !same(channel, expected.source.channel.as_str()) {
        let mut message =
            "release channel changed after the launch freshness check (expected ".to_owned();
        message.append(expected.source.channel.as_str());
        message.append(", found ");
        message.append(channel);
        message.append(")");
        return Err(message);
    }
    if !same(target, expected.target.as_str()) {
        let mut message =
            "build target changed after the launch freshness check (expected ".to_owned();
        message.append(expected.target.as_str());
        message.append(", found ");
        message.append(target);
        message.append(")");
        return Err(message);
    }
    let desired = desired_for(&expected.source, patches, target);
    if !desired.same_as(expected) {
        return Err("patch inputs changed after the launch freshness check".to_owned());
    }
    Ok(desired)
}

/// What the live inputs are when the update is about to be activated.
#[derive(Debug)]
pub struct LiveInputs {
    pub fingerprint: String,
    pub branch: crate::config::Branch,
    pub target: String,
}

/// What is known of an update so far.
#[derive(Debug)]
pub struct UpdateFacts {
    /// The build that the inputs ask for.
    pub inputs: Option<Result<DesiredBuild, String>>,
    pub built: Option<Result<GenerationRef, BuildFailure>>,
    /// The build that the inputs ask for after the build.
    pub recheck: Option<Result<DesiredBuild, String>>,
    /// The live inputs, read under the state lock.
    pub live: Option<Result<LiveInputs, String>>,
}

impl UpdateFacts {
    /// Nothing is known yet.
    pub fn new() -> (r: Self)
        ensures
            r.inputs is None,
            r.built is None,
            r.recheck is None,
            r.live is None,
    {
        UpdateFacts {
            inputs: None,
            built: None,
            recheck: None,
            live: None,
        }
    }
}

/// What an update does next.
#[derive(Debug)]
pub enum UpdateStep {
    ResolveInputs,
    /// Record that the source cannot be resolved, and report `message`.
    ReportUnresolved { message: String },
    /// Report a failure that is cached for this build.
    ReportCached { message: String },
    Build,
    /// Record and report the build's failure.
    ReportFailure { transient: bool },
    Recheck,
    /// Discard what was built, record that the source cannot be resolved, and report it.
    DiscardUnresolved { message: String },
    /// Discard what was built and record what is wanted now.
    DiscardChanged,
    ReadLiveInputs,
    /// Report without recording anything.
    Abort { message: String },
    Activate,
}

pub enum UpdateStepView {
    ResolveInputs,
    ReportUnresolved { message: Seq<char> },
    ReportCached { message: Seq<char> },
    Build,
    ReportFailure { transient: bool },
    Recheck,
    DiscardUnresolved { message: Seq<char> },
    DiscardChanged,
    ReadLiveInputs,
    Abort { message: Seq<char> },
    Activate,
}

impl View for UpdateStep {
    type V = UpdateStepView;

    open spec fn view(&self) -> UpdateStepView {
        match self {
            UpdateStep::ResolveInputs => UpdateStepView::ResolveInputs,
            UpdateStep::ReportUnresolved { message } => UpdateStepView::ReportUnresolved {
                message: message@,
            },
            UpdateStep::ReportCached { message } => UpdateStepView::ReportCached {
                message: message@,
            },
            UpdateStep::Build => UpdateStepView::Build,
            UpdateStep::ReportFailure { transient } => UpdateStepView::ReportFailure {
                transient: *transient,
            },
            UpdateStep::Recheck => UpdateStepView::Recheck,
            UpdateStep::DiscardUnresolved { message } => UpdateStepView::DiscardUnresolved {
                message: message@,
            },
            UpdateStep::DiscardChanged => UpdateStepView::DiscardChanged,
            UpdateStep::ReadLiveInputs => UpdateStepView::ReadLiveInputs,
            UpdateStep::Abort { message } => UpdateStepView::Abort { message: message@ },
            UpdateStep::Activate => UpdateStepView::Activate,
        }
    }
}

pub open spec fn cached_failure_text(f: FailureView) -> Seq<char> {
    "cached failure "@ + f.id + " for this source key: "@ + f.summary + " (log: "@ + f.log_path
        + "); use --retry or `codex-patcher repair "@ + f.id + "`"@
}

/// A deterministic failure of this build is cached, and neither a retry nor a rebuild was
/// asked for.
pub open spec fn blocked_by_cache(
    s: StateView,
    desired: DesiredView,
    options: UpdateOptions,
) -> bool {
    !options.retry && !options.force_rebuild && failure_for(s, desired.source_key) is Some
}

pub open spec fn live_check(live: LiveInputs, desired: DesiredView, branch: Seq<char>) -> Result<
    (),
    Seq<char>,
> {
    if live.fingerprint@ != desired.patch_fingerprint {
        Err("patch directory changed before activation"@)
    } else if branch_name(live.branch) != branch || live.target@ != desired.target {
        Err("build configuration changed before activation"@)
    } else {
        Ok(())
    }
}

/// From the build to the activation.
pub open spec fn after_build(
    s: StateView,
    facts: UpdateFacts,
    desired: DesiredView,
) -> UpdateStepView {
    match facts.built {
        None => UpdateStepView::Build,
        Some(Err(failure)) => UpdateStepView::ReportFailure {
            transient: failure.transient && s.active is Some,
        },
        Some(Ok(_)) => match facts.recheck {
            None => UpdateStepView::Recheck,
            Some(Err(reason)) => UpdateStepView::DiscardUnresolved {
                message: "rechecking upstream before activation: "@ + reason@,
            },
            Some(Ok(live_desired)) => if live_desired@ != desired {
                UpdateStepView::DiscardChanged
            } else {
                match facts.live {
                    None => UpdateStepView::ReadLiveInputs,
                    Some(Err(message)) => UpdateStepView::Abort { message: message@ },
                    Some(Ok(live)) => match live_check(live, desired, desired.source.channel) {
                        Err(message) => UpdateStepView::Abort { message },
                        Ok(_) => UpdateStepView::Activate,
                    },
                }
            },
        },
    }
}

/// The next step of an update that started in state `s`.
pub open spec fn next_update(
    s: StateView,
    facts: UpdateFacts,
    options: UpdateOptions,
) -> UpdateStepView {
    match facts.inputs {
        None => UpdateStepView::ResolveInputs,
        Some(Err(message)) => UpdateStepView::ReportUnresolved { message: message@ },
        Some(Ok(desired)) => if blocked_by_cache(s, desired@, options) {
            UpdateStepView::ReportCached {
                message: cached_failure_text(failure_for(s, desired@.source_key)->0),
            }
        } else {
            after_build(s, facts, desired@)
        },
    }
}

pub fn check_live_inputs(live: &LiveInputs, desired: &DesiredBuild, branch: &str) -> (r: Result<
    (),
    String,
>)
    ensures
        result_unit(r) == live_check(*live, desired@, branch@),
{
    if !same(live.fingerprint.as_str(), desired.patch_fingerprint.as_str()) {
        return Err("patch directory changed before activation".to_owned());
    }
    if !same(live.branch.as_str(), branch) || !same(
        live.target.as_str(),
        desired.target.as_str(),
    ) {
        return Err("build configuration changed before activation".to_owned());
    }
    Ok(())
}

fn next_after_build(state: &InstallState, facts: &UpdateFacts, desired: &DesiredBuild) -> (r:
    UpdateStep)
    ensures
        r@ == after_build(state@, *facts, desired@),
{
    match &facts.built {
        None => return UpdateStep::Build,
        Some(Err(failure)) => return UpdateStep::ReportFailure {
            transient: failure.transient && state.active.is_some(),
        },
        Some(Ok(_)) => {},
    }
    match &facts.recheck {
        None => return UpdateStep::Recheck,
        Some(Err(reason)) => {
            let mut message = "rechecking upstream before activation: ".to_owned();
            message.append(reason.as_str());
            return UpdateStep::DiscardUnresolved { message };
        },
        Some(Ok(live_desired)) => {
            if !live_desired.same_as(desired) {
                return UpdateStep::DiscardChanged;
            }
        },
    }
    match &facts.live {
        None => UpdateStep::ReadLiveInputs,
        Some(Err(message)) => UpdateStep::Abort { message: message.clone() },
        Some(Ok(live)) => match check_live_inputs(live, desired, desired.source.channel.as_str()) {
            Err(message) => UpdateStep::Abort { message },
            Ok(()) => UpdateStep::Activate,
        },
    }
}

/// The next step of an update.
pub fn next_update_step(state: &InstallState, facts: &UpdateFacts, options: UpdateOptions) -> (r:
    UpdateStep)
    ensures
        r@ == next_update(state@, *facts, options),
{
    let desired = match &facts.inputs {
        None => return UpdateStep::ResolveInputs,
        Some(Err(message)) => return UpdateStep::ReportUnresolved { message: message.clone() },
        Some(Ok(desired)) => desired,
    };
    if !options.retry && !options.force_rebuild {
        if let Some(failure) = &state.failure {
            if same(failure.desired.source_key.as_str(), desired.source_key.as_str()) {
                let mut message = "cached failure ".to_owned();
                message.append(failure.id.as_str());
                message.append(" for this source key: ");
                message.append(failure.summary.as_str());
                message.append(" (log: ");
                message.append(failure.log_path.as_str());
                message.append("); use --retry or `codex-patcher repair ");
                message.append(failure.id.as_str());
                message.append("`");
                return UpdateStep::ReportCached { message };
            }
        }
    }
    next_after_build(state, facts, desired)
}

/// A generation is only activated when, after its build, the inputs still ask for exactly
/// that build.
pub proof fn only_wanted_builds_are_activated(
    s: StateView,
    facts: UpdateFacts,
    options: UpdateOptions,
)
    requires
        next_update(s, facts, options) is Activate,
    ensures
        facts.inputs matches Some(Ok(desired)) && {
            &&& facts.built matches Some(Ok(_))
            &&& facts.recheck matches Some(Ok(again)) && again@ == desired@
            &&& facts.live matches Some(Ok(live)) && live.fingerprint@
                == desired@.patch_fingerprint && live.target@ == desired@.target && branch_name(
                live.branch,
            ) == desired@.source.channel
        },
{
}

/// A deterministic failure is cached: the same build is refused until a retry or a rebuild
/// is asked for, and then it is built.
pub proof fn failures_are_cached_until_retried(
    platform: Platform,
    s: StateView,
    desired: DesiredBuild,
    f: BuildFailureView,
    id: u128,
    now: Timestamp,
    home: Option<&str>,
    options: UpdateOptions,
)
    ensures
        next_update(
            failure_recorded(platform, s, desired@, f, id, now, home),
            UpdateFacts { inputs: Some(Ok(desired)), built: None, recheck: None, live: None },
            options,
        ) is ReportCached <==> !options.retry && !options.force_rebuild,
{
}

/// The record of a failure that occurs again keeps its identity.
pub proof fn repeated_failures_keep_their_record(
    platform: Platform,
    s: StateView,
    desired: DesiredView,
    f: BuildFailureView,
    g: BuildFailureView,
    id: u128,
    other: u128,
    t: Timestamp,
    u: Timestamp,
    home: Option<&str>,
)
    ensures
        ({
            let once = failure_recorded(platform, s, desired, f, id, t, home);
            let twice = failure_recorded(platform, once, desired, g, other, u, home);
            twice.failure->0.id == once.failure->0.id && twice.failure->0.created_at
                == once.failure->0.created_at && twice.failure->0.summary == g.summary
        }),
{
}

/// A network failure with a last-good generation leaves it active, and is not cached as a
/// failure of the build.
pub proof fn network_failures_are_not_cached(
    s: StateView,
    desired: DesiredView,
    f: BuildFailureView,
    now: Timestamp,
)
    ensures
        transient_recorded(s, desired, f, now).active == s.active,
        transient_recorded(s, desired, f, now).failure == s.failure,
{
}

/// Whatever goes wrong with an update, the generation that runs stays the active one.
pub proof fn problems_keep_the_active_generation(
    platform: Platform,
    s: StateView,
    desired: DesiredView,
    f: BuildFailureView,
    error: Seq<char>,
    id: u128,
    now: Timestamp,
    home: Option<&str>,
)
    ensures
        failure_recorded(platform, s, desired, f, id, now, home).active == s.active,
        failure_recorded(platform, s, desired, f, id, now, home).previous == s.previous,
        transient_recorded(s, desired, f, now).previous == s.previous,
        resolution_problem_recorded(s, error, now).active == s.active,
        resolution_problem_recorded(s, error, now).failure == s.failure,
        change_recorded(s, desired, now).active == s.active,
{
}

} // verus!
