//! What an update and a freshness check come to, in terms of what was found.

use vstd::prelude::*;

use crate::arguments::UpdateOptions;
use crate::build::BuildFailureView;
use crate::config::Branch;
use crate::outside::uuid_form;
use crate::paths::Platform;
use crate::patchset::source_key_of;
use crate::probe::{
    answered, blocking_needles, fallback_build, freshness_is_valid, recorded, unanswered,
    RecordedView,
};
use crate::state::StateView;
use crate::text::{contains_text, mentions_any};
use crate::types::{DesiredView, GenerationView, ProbeKind, SourceView, Timestamp};
use crate::update::{
    change_recorded, consent_needles, failure_recorded, launch_build, next_update,
    resolution_problem_recorded, transient_recorded, update_activated, LiveInputs, UpdateFacts,
    UpdateStepView,
};

verus! {

/// The recorded failure is one of this build.
pub open spec fn failed_before(s: StateView, desired: DesiredView) -> bool {
    s.failure matches Some(failure) && failure.desired.source_key == desired.source_key
}

/// The branch of the live configuration is the one of that name.
pub open spec fn follows(branch: Branch, channel: Seq<char>) -> bool {
    match branch {
        Branch::Stable => channel == "stable"@,
        Branch::Alpha => channel == "alpha"@,
        Branch::Nightly => channel == "nightly"@,
    }
}

/// The live inputs are still those of the build.
pub open spec fn still_asks_for(live: LiveInputs, desired: DesiredView) -> bool {
    live.fingerprint@ == desired.patch_fingerprint && follows(live.branch, desired.source.channel)
        && live.target@ == desired.target
}

/// An update asks for what it wants, and builds it unless that build has failed before and
/// nobody asks for another try. What it wants is not asked for a second time.
pub proof fn updates_resolve_before_they_build(
    s: StateView,
    facts: UpdateFacts,
    options: UpdateOptions,
)
    ensures
        ({
            let step = next_update(s, facts, options);
            &&& step is ResolveInputs <==> facts.inputs is None
            &&& step is ReportUnresolved <==> (facts.inputs matches Some(Err(_)))
            &&& facts.inputs matches Some(Err(message)) ==> step
                == (UpdateStepView::ReportUnresolved { message: message@ })
            &&& step is ReportCached <==> (facts.inputs matches Some(Ok(desired)) && failed_before(
                s,
                desired@,
            ) && !options.retry && !options.force_rebuild)
            &&& step matches UpdateStepView::ReportCached { message } ==> message
                == "cached failure "@ + s.failure->0.id + " for this source key: "@
                + s.failure->0.summary + " (log: "@ + s.failure->0.log_path
                + "); use --retry or `codex-patcher repair "@ + s.failure->0.id + "`"@
            &&& step is Build <==> (facts.inputs matches Some(Ok(desired)) && (failed_before(
                s,
                desired@,
            ) ==> options.retry || options.force_rebuild) && facts.built is None)
        }),
{
}

/// What was built is activated where upstream, asked again, still wants the same build and the
/// live inputs are those of the build. It is discarded as changed only where upstream wants
/// another build, and every other problem is reported as what it is.
pub proof fn wanted_builds_are_activated(
    s: StateView,
    facts: UpdateFacts,
    options: UpdateOptions,
)
    requires
        facts.inputs matches Some(Ok(desired)) && (failed_before(s, desired@) ==> options.retry
            || options.force_rebuild),
    ensures
        ({
            let step = next_update(s, facts, options);
            let desired = facts.inputs->0->Ok_0@;
            let is_built = facts.built matches Some(Ok(_));
            let confirmed = is_built && (facts.recheck matches Some(Ok(again)) && again@
                == desired);
            &&& step is ReportFailure <==> (facts.built matches Some(Err(_)))
            &&& facts.built matches Some(Err(failure)) ==> (step
                matches UpdateStepView::ReportFailure { transient } && (transient
                <==> failure.transient && s.active is Some))
            &&& step is Recheck <==> is_built && facts.recheck is None
            &&& step is DiscardUnresolved <==> is_built && (facts.recheck matches Some(Err(_)))
            &&& is_built && (facts.recheck matches Some(Err(_))) ==> step
                == (UpdateStepView::DiscardUnresolved {
                message: "rechecking upstream before activation: "@ + facts.recheck->0->Err_0@,
            })
            &&& step is DiscardChanged <==> is_built && (facts.recheck matches Some(Ok(again))
                && again@ != desired)
            &&& step is ReadLiveInputs <==> confirmed && facts.live is None
            &&& step is Activate <==> confirmed && (facts.live matches Some(Ok(live))
                && still_asks_for(live, desired))
            &&& step is Abort <==> confirmed && (facts.live matches Some(live) && (live is Err
                || !still_asks_for(live->Ok_0, desired)))
            &&& confirmed ==> (facts.live matches Some(Err(message)) ==> step
                == (UpdateStepView::Abort { message: message@ }))
            &&& confirmed ==> (facts.live matches Some(Ok(live)) ==> (live.fingerprint@
                != desired.patch_fingerprint ==> step == (UpdateStepView::Abort {
                message: "patch directory changed before activation"@,
            })))
            &&& confirmed ==> (facts.live matches Some(Ok(live)) ==> (live.fingerprint@
                == desired.patch_fingerprint && !still_asks_for(live, desired) ==> step == (
            UpdateStepView::Abort { message: "build configuration changed before activation"@ })))
        }),
{
}

/// Everything that an update keeps of the installation is the same in both states.
pub open spec fn keeps_installation(s: StateView, t: StateView) -> bool {
    t.schema == s.schema && t.patch_dir == s.patch_dir && t.surfaces == s.surfaces && t.updaters
        == s.updaters && t.installed_at == s.installed_at
}

/// An activated build runs, what ran before is kept to go back to, no failure is left, and the
/// check that led to the launch still counts.
pub proof fn activated_builds_run(
    s: StateView,
    g: GenerationView,
    desired: DesiredView,
    launch_desired: Option<DesiredView>,
    now: Timestamp,
)
    ensures
        ({
            let t = update_activated(s, g, desired, launch_desired, now);
            &&& keeps_installation(s, t)
            &&& t.active == Some(g)
            &&& t.failure is None
            &&& t.updated_at == now
            &&& t.probe.kind == ProbeKind::Current
            &&& t.probe.desired == Some(desired)
            &&& t.probe.checked_at == Some(now)
            &&& t.probe.message is None
            &&& s.active is None ==> t.previous is None
            &&& s.active matches Some(active) ==> (active.id == g.id ==> t.previous == s.previous)
            &&& s.active matches Some(active) ==> (active.id != g.id ==> t.previous == Some(active))
            &&& launch_desired is None ==> t.probe.next_check_at is None
            &&& launch_desired is Some && s.probe.desired == launch_desired
                ==> t.probe.next_check_at == s.probe.next_check_at
            &&& s.probe.desired != launch_desired ==> t.probe.next_check_at is None
        }),
{
}

/// A failed build is recorded with what failed. Where it has failed before, the record keeps
/// its name, its time and its worktree. What runs goes on running.
pub proof fn failed_builds_are_recorded(
    platform: Platform,
    s: StateView,
    desired: DesiredView,
    f: BuildFailureView,
    new_id: u128,
    now: Timestamp,
    home: Option<&str>,
)
    ensures
        ({
            let t = failure_recorded(platform, s, desired, f, new_id, now, home);
            &&& keeps_installation(s, t)
            &&& t.active == s.active && t.previous == s.previous && t.updated_at == s.updated_at
            &&& t.probe.kind == ProbeKind::Failed
            &&& t.probe.desired == Some(desired)
            &&& t.probe.checked_at == Some(now)
            &&& t.probe.next_check_at is None
            &&& t.probe.message is Some
            &&& t.failure matches Some(record) && {
                &&& record.desired == desired
                &&& record.phase == f.phase
                &&& record.summary == f.summary
                &&& record.failed_patch_index == f.failed_patch_index
                &&& record.failed_patch == f.failed_patch
                &&& record.log_path == f.log_path
                &&& failed_before(s, desired) ==> record.id == s.failure->0.id && record.created_at
                    == s.failure->0.created_at && record.repair_worktree
                    == s.failure->0.repair_worktree
                &&& !failed_before(s, desired) ==> record.id == uuid_form(new_id)
                    && record.created_at == now && record.repair_worktree is None
            }
        }),
{
}

/// A network failure is shown, and nothing but the check changes: the next update tries again.
pub proof fn network_failures_are_shown(
    s: StateView,
    desired: DesiredView,
    f: BuildFailureView,
    now: Timestamp,
)
    ensures
        ({
            let t = transient_recorded(s, desired, f, now);
            &&& t == (StateView { probe: t.probe, ..s })
            &&& t.probe.kind == ProbeKind::Failed <==> failed_before(s, desired)
            &&& t.probe.kind == ProbeKind::Degraded <==> !failed_before(s, desired)
            &&& t.probe.desired == Some(desired)
            &&& t.probe.checked_at == Some(now)
            &&& t.probe.next_check_at is None
            &&& t.probe.message == Some(
                "temporary network failure during "@ + f.phase + ": "@ + f.summary + " (log: "@
                    + f.log_path + ")"@,
            )
        }),
{
}

/// A text says that the user has to agree to a change of upstream.
pub open spec fn asks_for_consent(message: Seq<char>) -> bool {
    contains_text(message, "retag"@) || contains_text(message, "moved tag"@) || contains_text(
        message,
        "downgrade"@,
    ) || contains_text(message, "release deletion"@) || contains_text(message, "non-fast-forward"@)
        || contains_text(message, "--accept-force-push"@)
}

proof fn lemma_consent(message: Seq<char>)
    ensures
        mentions_any(message, consent_needles()) <==> asks_for_consent(message),
        mentions_any(message, blocking_needles()) <==> asks_for_consent(message) || contains_text(
            message,
            "rollback"@,
        ),
{
    let list = consent_needles();
    assert(list[0] == "retag"@);
    assert(list[1] == "moved tag"@);
    assert(list[2] == "downgrade"@);
    assert(list[3] == "release deletion"@);
    assert(list[4] == "non-fast-forward"@);
    assert(list[5] == "--accept-force-push"@);
    let all = blocking_needles();
    assert(all[0] == "retag"@);
    assert(all[1] == "moved tag"@);
    assert(all[2] == "rollback"@);
    assert(all[3] == "downgrade"@);
    assert(all[4] == "release deletion"@);
    assert(all[5] == "non-fast-forward"@);
    assert(all[6] == "--accept-force-push"@);
}

/// A source that cannot be resolved blocks the update where it asks for consent, and otherwise
/// leaves what runs running. Nothing but the check changes.
pub proof fn unresolved_sources_change_the_check_alone(
    s: StateView,
    error: Seq<char>,
    now: Timestamp,
)
    ensures
        ({
            let t = resolution_problem_recorded(s, error, now);
            let message = "source resolution failed: "@ + error;
            &&& t == (StateView { probe: t.probe, ..s })
            &&& t.probe.kind == ProbeKind::Blocked <==> asks_for_consent(message)
            &&& t.probe.kind == ProbeKind::Degraded <==> !asks_for_consent(message) && s.active
                is Some
            &&& t.probe.kind == ProbeKind::Failed <==> !asks_for_consent(message) && s.active
                is None
            &&& t.probe.message == Some(message)
            &&& t.probe.desired == s.probe.desired
            &&& t.probe.checked_at == Some(now)
            &&& t.probe.next_check_at is None
        }),
{
    lemma_consent("source resolution failed: "@ + error);
}

/// A discarded build leaves the one that is wanted now pending.
pub proof fn discarded_builds_stay_pending(s: StateView, live: DesiredView, now: Timestamp)
    ensures
        ({
            let t = change_recorded(s, live, now);
            &&& t == (StateView { probe: t.probe, ..s })
            &&& t.probe.kind == ProbeKind::Pending
            &&& t.probe.desired == Some(live)
            &&& t.probe.checked_at == Some(now)
            &&& t.probe.next_check_at is None
            &&& t.probe.message == Some(
                "inputs changed during the build; the staged generation was discarded"@,
            )
        }),
{
}

/// A launch builds what its check found, and only while the channel, the target and the patches
/// are those of the check.
pub proof fn launches_build_what_was_found(
    channel: Seq<char>,
    fingerprint: Seq<char>,
    target: Seq<char>,
    expected: DesiredView,
)
    ensures
        ({
            let r = launch_build(channel, fingerprint, target, expected);
            &&& r is Ok <==> channel == expected.source.channel && target == expected.target
                && fingerprint == expected.patch_fingerprint && expected.source_key
                == source_key_of(expected.source, fingerprint, target)
            &&& r matches Ok(desired) ==> desired == expected
            &&& channel != expected.source.channel ==> r == Err::<DesiredView, Seq<char>>(
                "release channel changed after the launch freshness check (expected "@
                    + expected.source.channel + ", found "@ + channel + ")"@,
            )
            &&& channel == expected.source.channel && target != expected.target ==> r == Err::<
                DesiredView,
                Seq<char>,
            >(
                "build target changed after the launch freshness check (expected "@
                    + expected.target + ", found "@ + target + ")"@,
            )
        }),
{
}

/// A recorded check stands in for a new one exactly until its time, while what runs is what it
/// asked for and the channel, the patches and the target are those of what runs.
pub proof fn checks_are_reused_until_their_time(
    s: StateView,
    channel: Seq<char>,
    fingerprint: Seq<char>,
    target: Seq<char>,
    now: Timestamp,
)
    ensures
        freshness_is_valid(s, channel, fingerprint, target, now) <==> ((s.probe.kind
            == ProbeKind::Current || s.probe.kind == ProbeKind::Degraded)
            && (s.probe.next_check_at matches Some(floor) && now.nanos < floor.nanos)
            && (s.active matches Some(active) && (s.probe.desired matches Some(desired)
            && active.source.channel == channel && active.target == target
            && active.patch_fingerprint == fingerprint && active.source_key == source_key_of(
            active.source,
            fingerprint,
            target,
        ) && desired.source == active.source && desired.patch_fingerprint == fingerprint
            && desired.target == target && desired.source_key == active.source_key))),
{
}

/// What upstream answers is wanted, with the patches and the target of the check. An answer out
/// of the cache is marked as such.
pub proof fn answers_are_wanted(
    source: SourceView,
    used_stale_cache: bool,
    next_check_at: Option<Timestamp>,
    fingerprint: Seq<char>,
    target: Seq<char>,
)
    ensures
        answered(source, used_stale_cache, next_check_at, fingerprint, target)
            matches RecordedView::Desired {
            desired,
            current_kind,
            message,
            next_check_at: floor,
        } && {
            &&& desired.source == source
            &&& desired.patch_fingerprint == fingerprint
            &&& desired.target == target
            &&& desired.source_key == source_key_of(source, fingerprint, target)
            &&& floor == next_check_at
            &&& used_stale_cache <==> current_kind == ProbeKind::Degraded
            &&& !used_stale_cache <==> current_kind == ProbeKind::Current
            &&& used_stale_cache <==> message is Some
        },
{
}

/// Where upstream gives no answer, what runs stands for it, as long as it is of the configured
/// channel and target and no consent is asked for. The next check comes after half a minute.
pub proof fn unanswered_checks_keep_what_runs(
    s: StateView,
    channel: Seq<char>,
    fingerprint: Seq<char>,
    target: Seq<char>,
    error: Seq<char>,
    now: Timestamp,
)
    ensures
        ({
            let fallback = fallback_build(s, channel, fingerprint, target);
            let record = unanswered(error, fallback, now);
            let message = "upstream freshness check failed: "@ + error;
            let blocks = asks_for_consent(message) || contains_text(message, "rollback"@);
            &&& record is Desired <==> !blocks && (s.active matches Some(active)
                && active.source.channel == channel && active.target == target)
            &&& record is Desired || record is ResolutionFailure
            &&& record matches RecordedView::Desired {
                desired,
                current_kind,
                message: said,
                next_check_at,
            } ==> {
                &&& desired.source == s.active->0.source
                &&& desired.patch_fingerprint == fingerprint
                &&& desired.target == target
                &&& desired.source_key == source_key_of(s.active->0.source, fingerprint, target)
                &&& current_kind == ProbeKind::Degraded
                &&& said == Some(
                    message + "; using the active Codex source for local patch freshness"@,
                )
                &&& next_check_at matches Some(floor) && floor.nanos == (now.nanos + 30_000_000_000)
                    as i128
            }
            &&& record matches RecordedView::ResolutionFailure { message: said, blocked } ==> said
                == message && (blocked <==> asks_for_consent(error) || contains_text(
                error,
                "rollback"@,
            ))
        }),
{
    lemma_consent("upstream freshness check failed: "@ + error);
    lemma_consent(error);
}

/// What a check records. A build that has failed before is failed, one that runs is as the check
/// found it, any other is pending. A failure of another build is forgotten. What runs and what
/// is owned does not change, and nothing changes where the patches have been moved.
pub proof fn checks_record_what_they_found(
    platform: Platform,
    s: StateView,
    expected: Seq<char>,
    record: RecordedView,
    now: Timestamp,
)
    requires
        crate::paths::parts(platform, s.patch_dir) == crate::paths::parts(platform, expected),
    ensures
        ({
            let t = recorded(platform, s, expected, record, now);
            &&& t == (StateView { probe: t.probe, failure: t.failure, ..s })
            &&& t.probe.checked_at == Some(now)
            &&& record matches RecordedView::Desired {
                desired,
                current_kind,
                message,
                next_check_at,
            } ==> {
                let runs = s.active matches Some(active) && active.source_key
                    == desired.source_key;
                &&& t.probe.desired == Some(desired)
                &&& t.probe.next_check_at == next_check_at
                &&& failed_before(s, desired) ==> t.probe.kind == ProbeKind::Failed && t.failure
                    == s.failure && t.probe.message == Some(
                    "cached build failure for this patch set: "@ + s.failure->0.summary
                        + "; use `codex-patcher update --retry`"@,
                )
                &&& !failed_before(s, desired) ==> t.failure is None && t.probe.message == message
                &&& !failed_before(s, desired) && runs ==> t.probe.kind == current_kind
                &&& !failed_before(s, desired) && !runs ==> t.probe.kind == ProbeKind::Pending
            }
            &&& record matches RecordedView::ResolutionFailure { message, blocked } ==> {
                &&& t.failure == s.failure
                &&& t.probe.desired == s.probe.desired
                &&& t.probe.message == Some(message)
                &&& t.probe.next_check_at matches Some(floor) && floor.nanos == (now.nanos
                    + 30_000_000_000) as i128
                &&& t.probe.kind == ProbeKind::Blocked <==> blocked
                &&& t.probe.kind == ProbeKind::Degraded <==> !blocked && s.active is Some
                &&& t.probe.kind == ProbeKind::Failed <==> !blocked && s.active is None
            }
            &&& record matches RecordedView::LocalFailure { message } ==> {
                &&& t.failure is None
                &&& t.probe.desired == s.probe.desired
                &&& t.probe.message == Some(message)
                &&& t.probe.next_check_at is None
                &&& t.probe.kind == ProbeKind::Failed
            }
        }),
{
}

/// A check of patches that have been moved meanwhile is dropped.
pub proof fn checks_of_moved_patches_are_dropped(
    platform: Platform,
    s: StateView,
    expected: Seq<char>,
    record: RecordedView,
    now: Timestamp,
)
    requires
        crate::paths::parts(platform, s.patch_dir) != crate::paths::parts(platform, expected),
    ensures
        recorded(platform, s, expected, record, now) == s,
{
}

} // verus!
