//! How single operations decide, each in terms of what it is given.

use vstd::prelude::*;

use crate::config::{Branch, Config};
use crate::discovery::SurfaceOwner;
use crate::dispatch::{
    after_failed_update, failure_screen_of, handle_interactive_failure, terminal_interactive,
    AfterFailedUpdate,
};
use crate::elevation::{
    check_wire_length, check_wire_size, returns_to_caller, EntryFacts, EntryType,
};
use crate::journal::{
    check_finalize_repair, check_finalize_restore, check_repair_request, check_repaired_record,
    check_restore_record, complete_repair_journal, complete_restore, complete_takeover,
    prepare_repair_journal, prepare_restore, prepare_takeover, precondition_holds, repaired_record,
    RepairJournal, RepairOutcome, RestoreJournal, TakeoverJournal,
};
use crate::patchset::PatchSet;
use crate::paths::{join_path, parent, parts, Platform};
use crate::probe::{begin_refresh, fallback_build, freshness_is_valid, opt_source, RefreshStep};
use crate::repair_session::{
    check_open_session, check_resumed_session, identity_problem, maintenance_context,
    resume_changed_session, RepairSession, SessionFacts,
};
use crate::repair::RepairPromptContext;
use crate::selection::has_system_updater;
use crate::setup::{adopts_drift, collect_all, is_repair_session, role_of, updater_remains};
use crate::setup::{Collection, GenerationDir, Role};
use crate::shim::{
    same_baseline, same_record, BaselineBackup, InstalledShim, RecordView, SurfaceRecord,
    UpdaterAdapterRecord,
};
use crate::state::{baseline_source, InstallState, StateView};
use crate::surface::{
    baseline_matches, opt_facts, record_matches, redirect_check, FactsView, FileFacts, FileKind,
    SurfaceSnapshot,
};
use crate::text::{ascii_lower, opt_text, result_text};
use crate::tui::FailureChoice;
use crate::types::{opt_desired, same_generation, FailureRecord, GenerationRef, Timestamp};

verus! {

/// A terminal can be asked exactly where both of its ends are there and it is not a dumb one.
pub proof fn terminals_can_be_asked(stdin: bool, stderr: bool, term: Option<&str>, r: bool)
    requires
        call_ensures(terminal_interactive, (stdin, stderr, term), r),
    ensures
        r <==> stdin && stderr && (term matches Some(name) ==> name@ != "dumb"@),
{
}

/// A failed update is shown where somebody can answer, else follows the policy where it was a
/// launch, and is reported otherwise.
pub proof fn failed_updates_are_followed_up(
    interactive: bool,
    launching: bool,
    r: AfterFailedUpdate,
)
    requires
        call_ensures(after_failed_update, (interactive, launching), r),
    ensures
        r == AfterFailedUpdate::PromptFailure <==> interactive,
        r == AfterFailedUpdate::Policy <==> !interactive && launching,
        r == AfterFailedUpdate::Report <==> !interactive && !launching,
{
}

/// A repair is started from the prompt exactly where it was chosen, there is a failure, and
/// something runs to repair it with.
pub proof fn chosen_repairs_are_started(state: &InstallState, choice: FailureChoice, r: bool)
    requires
        call_ensures(handle_interactive_failure, (state, choice), r),
    ensures
        r <==> choice == FailureChoice::Repair && state@.active is Some && state@.failure is Some,
{
}

/// The failure prompt shows the recorded failure with its build, and without one what the check
/// said. It offers a repair only for a recorded failure, with what runs.
pub proof fn failure_prompts_show_the_failure(
    platform: Platform,
    s: StateView,
    logs_dir: Seq<char>,
)
    ensures
        ({
            let screen = failure_screen_of(platform, s, logs_dir);
            &&& s.active matches Some(g) ==> screen.current_version == g.source.version
            &&& s.active is None ==> screen.current_version == "not installed"@
            &&& s.failure matches Some(f) ==> {
                &&& screen.desired_version == f.desired.source.version
                &&& screen.phase == f.phase
                &&& screen.summary == f.summary
                &&& screen.failed_patch_index == f.failed_patch_index
                &&& screen.failed_patch == f.failed_patch
                &&& screen.log_path == f.log_path
                &&& s.active matches Some(g) ==> screen.last_good_version == Some(g.source.version)
                &&& s.active is None ==> screen.last_good_version is None
            }
            &&& s.failure is None ==> {
                &&& s.probe.desired matches Some(d) ==> screen.desired_version == d.source.version
                &&& screen.phase == "resolve"@
                &&& s.probe.message matches Some(text) ==> screen.summary == text
                &&& screen.failed_patch is None && screen.failed_patch_index is None
                &&& screen.log_path == join_path(platform, logs_dir, "runtime.log"@)
                &&& screen.last_good_version is None
            }
        }),
{
}

/// A check starts only from valid inputs. It reuses what is recorded while that is valid, and
/// else asks upstream, with the source that a new one is measured against and with what runs to
/// fall back on.
pub proof fn checks_ask_when_nothing_can_be_reused(
    initial: &InstallState,
    inputs: &Result<(Config, PatchSet, String), String>,
    now: Timestamp,
    r: RefreshStep,
)
    requires
        call_ensures(begin_refresh, (initial, inputs, now), r),
    ensures
        r is LocalFailure <==> inputs is Err,
        inputs matches Err(why) ==> (r matches RefreshStep::LocalFailure(message) && message@
            == "local patch input is invalid: "@ + why@),
        inputs matches Ok(given) ==> {
            let channel = match given.0.branch {
                Branch::Stable => "stable"@,
                Branch::Alpha => "alpha"@,
                Branch::Nightly => "nightly"@,
            };
            let valid = freshness_is_valid(
                initial@,
                channel,
                given.1.fingerprint@,
                given.2@,
                now,
            );
            let trusted = baseline_source(initial@, channel);
            &&& r is Reuse <==> valid
            &&& r is Resolve <==> !valid && trusted is Ok
            &&& r is Fail <==> !valid && trusted is Err
            &&& r matches RefreshStep::Resolve { baseline, fallback } ==> opt_source(baseline)
                == trusted->Ok_0 && opt_desired(fallback) == fallback_build(
                initial@,
                channel,
                given.1.fingerprint@,
                given.2@,
            )
        },
{
}

/// A takeover is prepared with what it is for, and has no result yet. Completed, it is the same
/// with its result, and its record says so.
pub proof fn takeovers_are_prepared_and_completed(
    id: u128,
    surface: &str,
    manager: &str,
    baseline: &BaselineBackup,
    now: Timestamp,
    j: TakeoverJournal,
    installed: &InstalledShim,
    at: Timestamp,
    done: (TakeoverJournal, SurfaceRecord),
)
    requires
        call_ensures(prepare_takeover, (id, surface, manager, baseline, now), j),
        call_ensures(complete_takeover, (&j, installed, at), done),
    ensures
        j.schema == 1 && j.id == id && j.surface@ == surface@ && j.manager@ == manager@,
        j.baseline@ == baseline@ && j.started_at == now,
        j.installed is None && j.installed_at is None,
        done.0.schema == 1 && done.0.id == id && done.0.surface@ == surface@,
        done.0.manager@ == manager@ && done.0.baseline@ == baseline@ && done.0.started_at == now,
        done.0.installed matches Some(shim) && shim@ == installed@,
        done.0.installed_at == Some(at),
        done.1@ == (RecordView {
            schema: 1,
            id,
            surface: surface@,
            baseline: baseline@,
            installed: installed@,
            installed_at: at,
            updater: None,
        }),
{
}

/// A restoration is prepared exactly where the recorded shim stands at the launcher. It is
/// complete exactly where the baseline does, and keeps the time at which it first was. Its
/// journal goes only then, and only under its own id.
pub proof fn restorations_are_prepared_and_completed(
    platform: Platform,
    record: &SurfaceRecord,
    found: &Option<FileFacts>,
    now: Timestamp,
    prepared: Result<RestoreJournal, String>,
    journal: &RestoreJournal,
    completed: Result<Timestamp, String>,
    id: u128,
    path: &str,
    finalized: Result<(), String>,
    resumed: Result<(), String>,
)
    requires
        call_ensures(prepare_restore, (platform, record, found, now), prepared),
        call_ensures(complete_restore, (platform, journal, found, now), completed),
        call_ensures(check_finalize_restore, (journal, id, path), finalized),
        call_ensures(check_restore_record, (platform, journal, record, path), resumed),
    ensures
        prepared is Ok <==> record_matches(platform, opt_facts(*found), record@),
        prepared matches Ok(j) ==> j.schema == 1 && j.id == record.id && j.record@ == record@
            && j.started_at == now && j.completed_at is None,
        completed is Ok <==> baseline_matches(
            platform,
            opt_facts(*found),
            journal.record.baseline@,
        ),
        completed matches Ok(at) ==> (journal.completed_at matches Some(first) ==> at == first) && (
        journal.completed_at is None ==> at == now),
        finalized is Ok <==> journal.id == id && journal.completed_at is Some,
        resumed is Ok <==> same_record(platform, journal.record@, record@),
{
}

/// A repair is prepared exactly where its precondition holds, with what it is for and without a
/// result. It is complete exactly where the repaired record describes the launcher. Its journal
/// is for its record and its manager, and goes only when complete; the old backup goes with it
/// exactly where the baseline was replaced.
pub proof fn repairs_are_prepared_and_completed(
    platform: Platform,
    record: &SurfaceRecord,
    manager: &str,
    outcome: RepairOutcome,
    baseline: BaselineBackup,
    observed: SurfaceSnapshot,
    found: &Option<FileFacts>,
    image: &Result<String, String>,
    now: Timestamp,
    prepared: Result<RepairJournal, String>,
    journal: &RepairJournal,
    installed: &InstalledShim,
    completed: Result<(SurfaceRecord, Timestamp), String>,
    id: u128,
    path: &str,
    finalized: Result<bool, String>,
    resumed: Result<(), String>,
    supplied: Result<(), String>,
)
    requires
        call_ensures(
            prepare_repair_journal,
            (platform, record, manager, outcome, baseline, observed, found, image, now),
            prepared,
        ),
        call_ensures(
            complete_repair_journal,
            (platform, journal, installed, found, now),
            completed,
        ),
        call_ensures(check_finalize_repair, (platform, journal, id, path), finalized),
        call_ensures(check_repair_request, (platform, journal, record, manager, path), resumed),
        call_ensures(check_repaired_record, (platform, journal, record, path), supplied),
    ensures
        prepared is Ok <==> precondition_holds(
            platform,
            observed@,
            outcome,
            record@,
            manager@,
            baseline@,
            opt_facts(*found),
            result_text(*image),
        ),
        prepared matches Ok(j) ==> j.schema == 1 && j.id == record.id && j.original@ == record@
            && j.manager@ == manager@ && j.outcome == outcome && j.replacement_baseline@
            == baseline@ && j.observed@ == observed@ && j.started_at == now && j.updated is None
            && j.completed_at is None,
        completed is Ok <==> record_matches(
            platform,
            opt_facts(*found),
            repaired_record(platform, *journal, installed@, now),
        ),
        completed matches Ok(pair) ==> pair.0@ == repaired_record(
            platform,
            *journal,
            installed@,
            now,
        ) && (journal.completed_at matches Some(first) ==> pair.1 == first) && (journal.completed_at
            is None ==> pair.1 == now),
        finalized is Ok <==> journal.id == id && journal.updated is Some && journal.completed_at
            is Some,
        finalized matches Ok(unneeded) ==> (unneeded <==> !same_baseline(
            platform,
            journal.original.baseline@,
            journal.replacement_baseline@,
        )),
        resumed is Ok <==> (same_record(platform, journal.original@, record@) || (
        journal.updated matches Some(updated) && same_record(platform, updated@, record@)))
            && parts(platform, journal.manager@) == parts(platform, manager@),
        supplied is Ok <==> (journal.updated matches Some(updated) && same_record(
            platform,
            updated@,
            record@,
        )),
{
}

/// A session goes on exactly where it is that of the failure and neither the patches nor what it
/// pinned have changed. With changed patches only what it validated of exactly them is used.
pub proof fn sessions_go_on_when_nothing_changed(
    platform: Platform,
    worktrees: &str,
    session: &RepairSession,
    failure: &FailureRecord,
    config: &[u8],
    facts: &SessionFacts,
    live: &str,
    last_good: &GenerationRef,
    open: Result<(), String>,
    resumed: Result<(), String>,
    kept: Option<&RepairSession>,
    identity: &Result<(), String>,
    changed: Result<GenerationRef, String>,
)
    requires
        call_ensures(
            check_open_session,
            (platform, worktrees, session, failure, config, facts, live, last_good),
            open,
        ),
        call_ensures(check_resumed_session, (platform, session, live, last_good), resumed),
        call_ensures(
            resume_changed_session,
            (platform, failure, live, last_good, kept, identity),
            changed,
        ),
    ensures
        ({
            let same = live@ == session.desired.patch_fingerprint@ && same_generation(
                platform,
                session.last_good@,
                last_good@,
            );
            &&& resumed is Ok <==> same
            &&& open is Ok <==> same && identity_problem(
                platform,
                worktrees@,
                session@,
                failure@,
                config@,
                *facts,
            ) is None
        }),
        changed is Ok <==> (kept matches Some(s) && identity is Ok && same_generation(
            platform,
            s.last_good@,
            last_good@,
        ) && (s.validated_generation matches Some(g) && g.patch_fingerprint@ == live@)),
        changed matches Ok(g) ==> g@ == kept->0.validated_generation->0@,
{
}

/// The maintenance run is told of the patch in conflict, and else of the one that failed, with
/// everything that the session keeps of the failure.
pub proof fn maintenance_is_told_what_failed(
    session: &RepairSession,
    failure: &FailureRecord,
    conflict: Option<usize>,
    names: &Vec<String>,
    patch_dir: &str,
    r: RepairPromptContext,
)
    requires
        call_ensures(maintenance_context, (session, failure, conflict, names, patch_dir), r),
    ensures
        r.failure_id@ == session.failure_id@,
        r.desired_version@ == session.desired.source.version@,
        r.phase@ == session.diagnostic_phase@ && r.summary@ == session.diagnostic_summary@,
        r.log_path@ == session.diagnostic_log@ && r.patch_dir@ == patch_dir@,
        conflict matches Some(i) ==> (i < names@.len() ==> opt_text(r.failed_patch) == Some(
            names@[i as int]@,
        )),
        conflict is None ==> opt_text(r.failed_patch) == opt_text(failure.failed_patch),
{
}

/// A launcher may be redirected exactly where it is not the manager, the manager is there, it
/// stands in a directory, and it is a file, a link or nothing.
pub proof fn launchers_may_be_redirected(
    platform: Platform,
    surface: Seq<char>,
    manager: Seq<char>,
    manager_is_file: bool,
    found: Option<FactsView>,
)
    ensures
        redirect_check(platform, surface, manager, manager_is_file, found) is Ok <==> parts(
            platform,
            surface,
        ) != parts(platform, manager) && manager_is_file && parent(platform, surface) is Some && (
        found matches Some(f) ==> f.kind == FileKind::File || f.kind == FileKind::Symlink),
{
}

/// The program is the helper or the dispatcher where its first argument says so, and the
/// dispatcher where it is called by the name of Codex; otherwise it is the manager.
pub proof fn programs_know_their_role(platform: Platform, words: Seq<Seq<char>>)
    ensures
        ({
            let r = role_of(platform, words);
            let helper = words.len() > 1 && words[1] == "__elevated-shim-helper"@;
            let named = words.len() > 1 && words[1] == "__dispatch"@;
            let codex = words.len() > 0 && (crate::paths::stem(platform, words[0]) matches Some(
                name,
            ) && ascii_lower(name) == "codex"@);
            &&& r is Helper <==> helper
            &&& r == Role::Dispatcher(2) <==> !helper && named
            &&& r == Role::Dispatcher(1) <==> !helper && !named && codex
            &&& r is Manager <==> !helper && !named && !codex
        }),
{
}

/// Drift is adopted where that was asked for, is asked about where somebody can answer, and is
/// left alone otherwise.
pub proof fn drift_is_adopted_on_request(
    adopt_drift: bool,
    yes: bool,
    terminal: bool,
    r: Option<bool>,
)
    requires
        call_ensures(adopts_drift, (adopt_drift, yes, terminal), r),
    ensures
        r == Some(true) <==> adopt_drift,
        r is None <==> !adopt_drift && terminal && !yes,
        r == Some(false) <==> !adopt_drift && (yes || !terminal),
{
}

/// When everything goes, staged builds go, what runs stays, and nothing but directories is
/// touched.
pub proof fn running_generations_survive(dir: &GenerationDir, r: Collection)
    requires
        call_ensures(collect_all, (dir,), r),
    ensures
        r is Ignore <==> !dir.is_dir,
        r is RemoveStaging <==> dir.is_dir && ".staging-"@.is_prefix_of(dir.name@),
        r is RetainRunning <==> dir.is_dir && !".staging-"@.is_prefix_of(dir.name@) && dir.in_use,
        r is Remove <==> dir.is_dir && !".staging-"@.is_prefix_of(dir.name@) && !dir.in_use,
{
}

/// Something of the updater remains exactly where it was to be disabled or stopped and was not.
pub proof fn unfinished_updaters_remain(updater: &UpdaterAdapterRecord, r: bool)
    requires
        call_ensures(updater_remains, (updater,), r),
    ensures
        !r <==> (updater.disable_intended ==> updater.disabled_by_patcher) && (
        updater.stop_intended ==> updater.stopped_by_patcher),
{
}

/// Sessions are told by name, and launchers with a system updater by owner.
pub proof fn sessions_and_updaters_are_told(
    name: &str,
    session: bool,
    owner: SurfaceOwner,
    updated: bool,
)
    requires
        call_ensures(is_repair_session, (name,), session),
        call_ensures(has_system_updater, (owner,), updated),
    ensures
        session <==> ".repair-"@.is_prefix_of(name@) && ".json"@.is_suffix_of(name@),
        updated <==> owner == SurfaceOwner::Standalone || owner == SurfaceOwner::Desktop || owner
            == SurfaceOwner::Daemon,
{
}

/// An exchange is read exactly where it is neither empty nor too long, and written where it is
/// not too long. An artifact goes back to the caller exactly where it is a file of one name that
/// belongs to root.
pub proof fn exchanges_are_bounded(
    length: u64,
    read: Result<(), String>,
    written: Result<(), String>,
    facts: &EntryFacts,
    returned: bool,
)
    requires
        call_ensures(check_wire_length, (length,), read),
        call_ensures(check_wire_size, (length,), written),
        call_ensures(returns_to_caller, (facts,), returned),
    ensures
        read is Ok <==> 0 < length <= 16_777_216,
        written is Ok <==> length <= 16_777_216,
        returned <==> facts.kind == EntryType::File && facts.links == 1 && facts.uid == 0,
{
}

} // verus!
