//! How the repair of a failed build opens, goes on and ends, in terms of what was recorded and
//! what was found.

use vstd::prelude::*;

use crate::build::BuildFailureView;
use crate::config::{resolved, Branch, Config};
use crate::outside::{hex_text, sha256};
use crate::patchset::source_key_of;
use crate::paths::{join_path, parts, Platform};
use crate::repair::{free_repair_name, safe_failure_id, CommitView};
use crate::repair_session::{
    activation_problem, all_committed, amended, applying, build_repair, committed, config_problem,
    conflict_problem, conflicted, drift, first_session, head_problem, identity_problem,
    next_index_of, opened, pinned, repair_activated, repair_added, repaired_build,
    revalidate_persisted_generation, still_failing, worktree_recorded, BuildRepairView,
    RepairEntryView, RepairInputs, RepairSession, RepairStage, SessionFacts, SessionView,
};
use crate::state::StateView;
use crate::text::trim;
use crate::types::{
    same_generation, DesiredBuild, DesiredView, FailureView, GenerationRef, GenerationView,
    ProbeKind, Timestamp,
};

verus! {

/// The failure on record is that one, of that build.
pub open spec fn is_on_record(s: StateView, id: Seq<char>, desired: DesiredView) -> bool {
    s.failure matches Some(record) && record.id == id && record.desired == desired
}

/// A repair pins what runs exactly where its failure is the one on record, and what runs can be
/// started.
pub proof fn repairs_pin_what_runs(s: StateView, failure: FailureView, binary_is_file: bool)
    ensures
        pinned(s, failure, binary_is_file) is Ok <==> is_on_record(s, failure.id, failure.desired)
            && s.active is Some && binary_is_file,
        pinned(s, failure, binary_is_file) matches Ok(g) ==> s.active == Some(g),
{
}

/// The configuration is still that of the failed build exactly where its channel and its target
/// are.
pub proof fn repairs_keep_channel_and_target(
    config: Config,
    desired: DesiredView,
    os: Seq<char>,
    arch: Seq<char>,
)
    ensures
        config_problem(config, desired, os, arch) is None <==> (match config.branch {
            Branch::Stable => desired.source.channel == "stable"@,
            Branch::Alpha => desired.source.channel == "alpha"@,
            Branch::Nightly => desired.source.channel == "nightly"@,
        }) && resolved(config.target, os, arch) == Ok::<Seq<char>, Seq<char>>(desired.target),
{
}

/// The paths of the session are those of its failure.
pub open spec fn keeps_its_paths(
    platform: Platform,
    worktrees: Seq<char>,
    s: SessionView,
    id: Seq<char>,
) -> bool {
    parts(platform, s.worktree) == parts(platform, join_path(platform, worktrees, "repair-"@ + id))
        && parts(platform, s.snapshot_dir) == parts(
        platform,
        join_path(platform, worktrees, ".repair-"@ + id + "-inputs"@),
    ) && parts(platform, s.candidate_dir) == parts(
        platform,
        join_path(platform, worktrees, ".repair-"@ + id + "-candidate"@),
    )
}

/// A session is gone on with exactly where it is that of the failure, in the places that belong
/// to it, with the configuration, the patches, the worktree and the binary that it started with,
/// and what it has validated is of its own source and target.
pub proof fn sessions_belong_to_their_failure(
    platform: Platform,
    worktrees: Seq<char>,
    s: SessionView,
    failure: FailureView,
    config: Seq<u8>,
    facts: SessionFacts,
)
    ensures
        identity_problem(platform, worktrees, s, failure, config, facts) is None <==> s.schema == 1
            && s.failure_id == failure.id && s.desired == failure.desired && keeps_its_paths(
            platform,
            worktrees,
            s,
            failure.id,
        ) && s.config_sha256 == hex_text(sha256(config)) && (
        facts.snapshot matches Ok(fingerprint) && fingerprint@ == s.desired.patch_fingerprint)
            && facts.worktree is Directory && facts.last_good_is_file && (
        s.validated_generation matches Some(g) ==> g.source == s.desired.source && g.target
            == s.desired.target),
{
}

/// All that a repair needs to open was found and is in order.
pub open spec fn may_open(
    state: StateView,
    failure: FailureView,
    inputs: RepairInputs,
    session: Result<Option<RepairSession>, String>,
    os: Seq<char>,
    arch: Seq<char>,
) -> bool {
    is_on_record(state, failure.id, failure.desired) && state.active is Some
        && inputs.binary_is_file && inputs.recovered is Ok && inputs.live is Ok
        && inputs.config_bytes is Ok && (inputs.config matches Ok(config) && config_problem(
        config,
        failure.desired,
        os,
        arch,
    ) is None) && safe_failure_id(failure.id) && session is Ok
}

/// A repair whose live patches are those of the failure goes on with its session, or prepares
/// one. With other patches only the activation can be left: the session must be that of the
/// failure, pin what runs, and have validated exactly those patches.
pub proof fn repairs_open_as_they_were_left(
    platform: Platform,
    state: StateView,
    failure: FailureView,
    inputs: RepairInputs,
    session: Result<Option<RepairSession>, String>,
    facts: SessionFacts,
    worktrees: Seq<char>,
    os: Seq<char>,
    arch: Seq<char>,
)
    ensures
        ({
            let r = opened(
                platform,
                state,
                failure,
                inputs,
                session,
                facts,
                worktrees,
                os,
                arch,
            );
            let may = may_open(state, failure, inputs, session, os, arch);
            let same = may && inputs.live->Ok_0@ == failure.desired.patch_fingerprint;
            let other = may && inputs.live->Ok_0@ != failure.desired.patch_fingerprint;
            &&& (r matches Ok(RepairEntryView::Prepare(_))) <==> same && session->Ok_0 is None
            &&& (r matches Ok(RepairEntryView::Resume(_))) <==> same && session->Ok_0 is Some
            &&& (r matches Ok(RepairEntryView::Activate(_))) <==> other && (
            session->Ok_0 matches Some(s) && identity_problem(
                platform,
                worktrees,
                s@,
                failure,
                inputs.config_bytes->Ok_0@,
                facts,
            ) is None && same_generation(platform, s@.last_good, state.active->0) && (
            s@.validated_generation matches Some(g) && g.patch_fingerprint
                == inputs.live->Ok_0@))
            &&& r matches Ok(RepairEntryView::Prepare(g)) ==> state.active == Some(g)
            &&& r matches Ok(RepairEntryView::Resume(g)) ==> state.active == Some(g)
            &&& r matches Ok(RepairEntryView::Activate(g)) ==> session->Ok_0->0@.validated_generation
                == Some(g)
        }),
{
}

/// A new session is that of its failure, with nothing committed yet, and keeps what went wrong.
pub proof fn new_sessions_start_at_the_first_patch(
    platform: Platform,
    worktrees: Seq<char>,
    failure: FailureView,
    config: Seq<u8>,
    last_good: GenerationView,
)
    ensures
        ({
            let s = first_session(platform, worktrees, failure, config, last_good);
            &&& s.schema == 1
            &&& s.failure_id == failure.id && s.desired == failure.desired
            &&& s.config_sha256 == hex_text(sha256(config))
            &&& keeps_its_paths(platform, worktrees, s, failure.id)
            &&& s.last_good == last_good
            &&& s.commits.len() == 0
            &&& s.stage == (RepairStage::Applying { next_index: 0, conflicted_index: None })
            &&& s.final_patch_name is None && s.validated_generation is None
            &&& s.diagnostic_phase == failure.phase && s.diagnostic_summary == failure.summary
            &&& s.diagnostic_log == failure.log_path
        }),
{
}

/// The commit at which the worktree was left.
pub open spec fn left_at(s: SessionView) -> Seq<char> {
    if s.commits.len() == 0 {
        s.desired.source.commit_oid
    } else {
        s.commits[s.commits.len() - 1].commit
    }
}

/// The worktree is as it was left exactly where it is at the last commit of the session, or at
/// the source where there is none.
pub proof fn worktrees_stay_at_their_commit(s: SessionView, head: Seq<char>)
    ensures
        head_problem(s, head) is None <==> trim(head) == left_at(s),
{
}

/// Patches are applied exactly in a session that is applying without a conflict, has committed
/// as many as it says, and whose worktree is at its commit without changes.
pub proof fn patches_are_applied_to_a_clean_worktree(
    s: SessionView,
    head: Seq<char>,
    status: Seq<char>,
)
    ensures
        ({
            let r = applying(s, head, status);
            let due = s.stage matches RepairStage::Applying { next_index, conflicted_index }
                && conflicted_index is None;
            &&& r == Ok::<bool, Seq<char>>(true) <==> due && s.stage->next_index == s.commits.len()
                && trim(head) == left_at(s) && trim(status).len() == 0
            &&& r == Ok::<bool, Seq<char>>(false) <==> !due
        }),
{
}

/// The next patch is the one after those that are committed, as long as one is left.
pub proof fn the_next_patch_follows(s: SessionView, count: nat)
    ensures
        ({
            let due = s.stage matches RepairStage::Applying { next_index, conflicted_index }
                && conflicted_index is None && next_index < count;
            &&& next_index_of(s, count) is Some <==> due
            &&& next_index_of(s, count) matches Some(i) ==> i == s.stage->next_index
        }),
{
}

/// Everything of a session but its commits, its stage and its last patch.
pub open spec fn keeps_session(s: SessionView, t: SessionView) -> bool {
    t.schema == s.schema && t.failure_id == s.failure_id && t.desired == s.desired
        && t.config_sha256 == s.config_sha256 && t.worktree == s.worktree && t.snapshot_dir
        == s.snapshot_dir && t.candidate_dir == s.candidate_dir && t.last_good == s.last_good
}

/// What was found wrong is the same.
pub open spec fn keeps_diagnosis(s: SessionView, t: SessionView) -> bool {
    t.diagnostic_phase == s.diagnostic_phase && t.diagnostic_summary == s.diagnostic_summary
        && t.diagnostic_log == s.diagnostic_log
}

/// The session has one commit more, which is that one.
pub open spec fn gains_commit(
    s: SessionView,
    t: SessionView,
    name: Seq<char>,
    parent: Seq<char>,
    commit: Seq<char>,
) -> bool {
    t.commits.len() == s.commits.len() + 1 && t.commits.take(s.commits.len() as int) == s.commits
        && t.commits.last().name == name && t.commits.last().parent == trim(parent)
        && t.commits.last().commit == trim(commit)
}

/// A committed patch adds its commit, and the next one is due. A patch in conflict adds none and
/// is marked. Once all are committed, the stack is rebuilt where only a patch had failed, and
/// its build is repaired otherwise.
pub proof fn sessions_advance_patch_by_patch(
    s: SessionView,
    index: nat,
    name: Seq<char>,
    parent: Seq<char>,
    commit: Seq<char>,
)
    requires
        index < usize::MAX,
    ensures
        ({
            let t = committed(s, index, name, parent, commit);
            &&& keeps_session(s, t) && keeps_diagnosis(s, t)
            &&& gains_commit(s, t, name, parent, commit)
            &&& t.stage matches RepairStage::Applying { next_index, conflicted_index } && next_index
                == index + 1 && conflicted_index is None
            &&& t.final_patch_name == s.final_patch_name
            &&& t.validated_generation == s.validated_generation
        }),
        ({
            let t = conflicted(s, index);
            &&& keeps_session(s, t) && keeps_diagnosis(s, t)
            &&& t.commits == s.commits
            &&& t.stage matches RepairStage::Applying { next_index, conflicted_index } && next_index
                == index && conflicted_index == Some(index as usize)
            &&& t.final_patch_name == s.final_patch_name
            &&& t.validated_generation == s.validated_generation
        }),
        ({
            let t = all_committed(s);
            &&& keeps_session(s, t) && keeps_diagnosis(s, t)
            &&& t.commits == s.commits
            &&& t.stage is ReadyToBuild <==> s.diagnostic_phase == "patch"@
            &&& t.stage is BuildRepair <==> s.diagnostic_phase != "patch"@
            &&& t.final_patch_name == s.final_patch_name
            &&& t.validated_generation == s.validated_generation
        }),
{
    let t = committed(s, index, name, parent, commit);
    assert(t.commits.take(s.commits.len() as int) =~= s.commits);
}

/// A resolved conflict is committed exactly where the worktree is at its commit, nothing is left
/// of the conflict, and the patch is one of the stack.
pub proof fn resolved_conflicts_are_committed(
    s: SessionView,
    index: nat,
    count: nat,
    head: Seq<char>,
    rejects: Seq<Seq<char>>,
    unmerged: Seq<char>,
)
    ensures
        conflict_problem(s, index, count, head, rejects, unmerged) is None <==> trim(head)
            == left_at(s) && rejects.len() == 0 && trim(unmerged).len() == 0 && index < count,
{
}

/// The repair of a build is committed exactly where the worktree is at its commit, nothing is
/// left of a conflict and something was changed: into the last patch where that is a build
/// repair already, and else as a new last patch, as long as a name is free.
pub proof fn build_repairs_are_committed(
    platform: Platform,
    s: SessionView,
    names: Seq<Seq<char>>,
    head: Seq<char>,
    rejects: Seq<Seq<char>>,
    unmerged: Seq<char>,
    status: Seq<char>,
)
    ensures
        ({
            let r = build_repair(platform, s, names, head, rejects, unmerged, status);
            let done = trim(head) == left_at(s) && rejects.len() == 0 && trim(unmerged).len() == 0
                && trim(status).len() > 0;
            &&& (r matches Ok(BuildRepairView::Amend)) <==> done && (
            s.final_patch_name matches Some(name) && s.commits.len() > 0 && parts(
                platform,
                s.commits.last().name,
            ) == parts(platform, name))
            &&& (r matches Ok(BuildRepairView::Add { .. })) <==> done && s.final_patch_name is None
                && free_repair_name(names, 0) is Some
            &&& r matches Ok(BuildRepairView::Add { name }) ==> free_repair_name(names, 0) == Some(
                name,
            )
        }),
{
}

/// An amended build repair keeps its place, its name and its parent. An added one is the last
/// patch. Either way the stack is ready to be built.
pub proof fn build_repairs_make_ready(
    s: SessionView,
    name: Seq<char>,
    parent: Seq<char>,
    commit: Seq<char>,
)
    requires
        s.commits.len() > 0,
    ensures
        ({
            let t = amended(s, commit);
            &&& keeps_session(s, t) && keeps_diagnosis(s, t)
            &&& t.commits.len() == s.commits.len()
            &&& t.commits.drop_last() == s.commits.drop_last()
            &&& t.commits.last() == (CommitView { commit: trim(commit), ..s.commits.last() })
            &&& t.stage is ReadyToBuild
            &&& t.final_patch_name == s.final_patch_name
            &&& t.validated_generation == s.validated_generation
        }),
        ({
            let t = repair_added(s, name, parent, commit);
            &&& keeps_session(s, t) && keeps_diagnosis(s, t)
            &&& gains_commit(s, t, name, parent, commit)
            &&& t.stage is ReadyToBuild
            &&& t.final_patch_name == Some(name)
            &&& t.validated_generation == s.validated_generation
        }),
{
    let t = amended(s, commit);
    assert(t.commits.drop_last() =~= s.commits.drop_last());
    let u = repair_added(s, name, parent, commit);
    assert(u.commits.take(s.commits.len() as int) =~= s.commits);
}

/// A stack that still fails keeps its commits, forgets what it had validated, and goes back to
/// the repair of its build with what went wrong now.
pub proof fn failing_stacks_are_repaired_again(s: SessionView, f: BuildFailureView)
    ensures
        ({
            let t = still_failing(s, f);
            &&& keeps_session(s, t)
            &&& t.commits == s.commits && t.final_patch_name == s.final_patch_name
            &&& t.stage is BuildRepair
            &&& t.validated_generation is None
            &&& t.diagnostic_phase == f.phase && t.diagnostic_summary == f.summary
            &&& t.diagnostic_log == f.log_path
        }),
{
}

/// The repaired stack is built from the source and for the target of the failed build, with its
/// own patches.
pub proof fn repaired_stacks_keep_their_source(s: SessionView, fingerprint: Seq<char>)
    ensures
        ({
            let d = repaired_build(s, fingerprint);
            &&& d.source == s.desired.source
            &&& d.target == s.desired.target
            &&& d.patch_fingerprint == fingerprint
            &&& d.source_key == source_key_of(s.desired.source, fingerprint, s.desired.target)
        }),
{
}

/// Nothing has changed under a repair exactly where its failure is still on record, what it
/// pinned still runs, and the live patches and configuration are those that it started with.
pub proof fn repairs_notice_every_change(
    platform: Platform,
    s: SessionView,
    state: StateView,
    live: Result<Seq<char>, Seq<char>>,
    config: Result<Seq<u8>, Seq<char>>,
)
    ensures
        drift(platform, s, state, live, config) is None <==> is_on_record(
            state,
            s.failure_id,
            s.desired,
        ) && (state.active matches Some(active) && same_generation(platform, active, s.last_good))
            && live == Ok::<Seq<char>, Seq<char>>(s.desired.patch_fingerprint) && (
        config matches Ok(bytes) && hex_text(sha256(bytes)) == s.config_sha256),
{
}

/// A repaired generation is activated exactly where its failure is still on record, what it
/// pinned still runs, and the live patches are those that were installed, built and wanted.
pub proof fn repaired_generations_are_activated(
    state: StateView,
    s: SessionView,
    g: GenerationView,
    desired: DesiredView,
    installed: Seq<char>,
    live: Result<Seq<char>, Seq<char>>,
    now: Timestamp,
)
    ensures
        activation_problem(state, s, g, desired, installed, live) is None <==> is_on_record(
            state,
            s.failure_id,
            s.desired,
        ) && (state.active matches Some(active) && active.id == s.last_good.id) && live == Ok::<
            Seq<char>,
            Seq<char>,
        >(installed) && g.patch_fingerprint == installed && desired.patch_fingerprint == installed,
        ({
            let t = repair_activated(state, g, desired, now);
            &&& crate::update_laws::keeps_installation(state, t)
            &&& t.active == Some(g)
            &&& t.failure is None
            &&& t.updated_at == now
            &&& t.probe.kind == ProbeKind::Current
            &&& t.probe.desired == Some(desired)
            &&& t.probe.checked_at == Some(now)
            &&& t.probe.next_check_at is None && t.probe.message is None
            &&& state.active matches Some(active) ==> (active.id == g.id ==> t.previous
                == state.previous)
            &&& state.active matches Some(active) ==> (active.id != g.id ==> t.previous == Some(
                active,
            ))
        }),
{
}

/// A persisted generation is used exactly where it is of the wanted build and its manifest
/// describes the same one.
pub proof fn persisted_generations_are_those_of_the_manifest(
    platform: Platform,
    generation: &GenerationRef,
    desired: &DesiredBuild,
    manifest: &Result<GenerationRef, String>,
    r: Result<GenerationRef, String>,
)
    requires
        call_ensures(
            revalidate_persisted_generation,
            (platform, generation, desired, manifest),
            r,
        ),
    ensures
        ({
            let g = generation@;
            let d = desired@;
            &&& r is Ok <==> g.source == d.source && g.patch_fingerprint == d.patch_fingerprint
                && g.target == d.target && g.source_key == d.source_key && crate::paths::parent(
                platform,
                g.package_dir,
            ) is Some && (manifest matches Ok(found) && same_generation(platform, found@, g))
            &&& r matches Ok(used) ==> manifest is Ok && used@ == manifest->Ok_0@
        }),
{
}

/// The worktree of a repair is noted with its failure, and nothing else changes.
pub proof fn worktrees_are_noted_with_the_failure(s: StateView, worktree: Seq<char>)
    requires
        s.failure is Some,
    ensures
        ({
            let t = worktree_recorded(s, worktree);
            &&& t == (StateView { failure: t.failure, ..s })
            &&& t.failure == Some(
                FailureView { repair_worktree: Some(worktree), ..s.failure->0 },
            )
        }),
{
}

} // verus!
