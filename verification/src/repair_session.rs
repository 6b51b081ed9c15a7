//! A patch repair that can be stopped and resumed.
//!
//! The patches are applied and committed one by one in a worktree of their own. A
//! patch that does not apply, or a stack that does not build, is handed to a
//! maintenance run; what comes of it is committed, rebuilt, confirmed and only then
//! replaces the live patches.

use vstd::prelude::*;

use crate::build::{failure_text, BuildFailure, BuildFailureView};
use crate::config::{branch_name, resolved, Config};
use crate::journal::as_result;
use crate::outside::{hex_text, quoted, sha256};
use crate::patchset::{sha256_hex, source_key_of, PatchSet};
use crate::paths::{join_path, joined, parts, same_path, Platform};
use crate::repair::{
    check_no_rejects_or_unmerged, check_staged_changes, choose_build_repair_name, commit_names,
    commits_view, free_repair_name, name_folds, safe_failure_id, staged_problem, unfinished,
    validate_failure_id, CommitView, PatchCommit, RepairPromptContext,
};
use crate::replacement::{fold, path_problem, validate_relative_path};
use crate::state::{activated, InstallState, StateView};
use crate::text::{
    chars_of, decimal, decimal_text, opt_text, result_unit, same, texts, trim, trimmed,
};
use crate::tui::{sanitize_line, sanitized};
use crate::types::{
    copy_opt, desired_of, opt_generation, same_generation, DesiredBuild, DesiredView, FailureRecord,
    FailureView, GenerationRef, GenerationView, ProbeKind, ProbeState, Timestamp,
};
use crate::update::settled_probe;

verus! {

pub const REPAIR_SESSION_SCHEMA: u32 = 1;

#[derive(Debug, Clone, Copy, PartialEq, Eq, Structural)]
pub enum RepairStage {
    /// The patches up to `next_index` are committed.
    Applying { next_index: usize, conflicted_index: Option<usize> },
    BuildRepair,
    ReadyToBuild,
}

#[derive(Debug)]
pub struct RepairSession {
    pub schema: u32,
    pub failure_id: String,
    pub desired: DesiredBuild,
    pub config_sha256: String,
    pub worktree: String,
    pub snapshot_dir: String,
    pub candidate_dir: String,
    pub last_good: GenerationRef,
    pub commits: Vec<PatchCommit>,
    pub stage: RepairStage,
    pub final_patch_name: Option<String>,
    pub diagnostic_phase: String,
    pub diagnostic_summary: String,
    pub diagnostic_log: String,
    pub validated_generation: Option<GenerationRef>,
}

pub struct SessionView {
    pub schema: u32,
    pub failure_id: Seq<char>,
    pub desired: DesiredView,
    pub config_sha256: Seq<char>,
    pub worktree: Seq<char>,
    pub snapshot_dir: Seq<char>,
    pub candidate_dir: Seq<char>,
    pub last_good: GenerationView,
    pub commits: Seq<CommitView>,
    pub stage: RepairStage,
    pub final_patch_name: Option<Seq<char>>,
    pub diagnostic_phase: Seq<char>,
    pub diagnostic_summary: Seq<char>,
    pub diagnostic_log: Seq<char>,
    pub validated_generation: Option<GenerationView>,
}

impl View for RepairSession {
    type V = SessionView;

    open spec fn view(&self) -> SessionView {
        SessionView {
            schema: self.schema,
            failure_id: self.failure_id@,
            desired: self.desired@,
            config_sha256: self.config_sha256@,
            worktree: self.worktree@,
            snapshot_dir: self.snapshot_dir@,
            candidate_dir: self.candidate_dir@,
            last_good: self.last_good@,
            commits: commits_view(self.commits@),
            stage: self.stage,
            final_patch_name: opt_text(self.final_patch_name),
            diagnostic_phase: self.diagnostic_phase@,
            diagnostic_summary: self.diagnostic_summary@,
            diagnostic_log: self.diagnostic_log@,
            validated_generation: opt_generation(self.validated_generation),
        }
    }
}

/// The directories and files of a repair, all in the worktree area.
pub open spec fn worktree_of(platform: Platform, worktrees: Seq<char>, id: Seq<char>) -> Seq<char> {
    join_path(platform, worktrees, "repair-"@ + id)
}

pub open spec fn snapshot_of(platform: Platform, worktrees: Seq<char>, id: Seq<char>) -> Seq<char> {
    join_path(platform, worktrees, ".repair-"@ + id + "-inputs"@)
}

pub open spec fn candidate_of(
    platform: Platform,
    worktrees: Seq<char>,
    id: Seq<char>,
) -> Seq<char> {
    join_path(platform, worktrees, ".repair-"@ + id + "-candidate"@)
}

pub open spec fn session_file_of(
    platform: Platform,
    worktrees: Seq<char>,
    id: Seq<char>,
) -> Seq<char> {
    join_path(platform, worktrees, ".repair-"@ + id + ".json"@)
}

fn named_path(platform: Platform, dir: &str, before: &str, id: &str, after: &str) -> (r: String)
    ensures
        r@ == join_path(platform, dir@, before@ + id@ + after@),
{
    let mut name = before.to_owned();
    name.append(id);
    name.append(after);
    joined(platform, dir, name.as_str())
}

pub fn repair_worktree_path(platform: Platform, worktrees: &str, id: &str) -> (r: String)
    ensures
        r@ == worktree_of(platform, worktrees@, id@),
{
    let mut name = "repair-".to_owned();
    name.append(id);
    joined(platform, worktrees, name.as_str())
}

pub fn repair_snapshot_path(platform: Platform, worktrees: &str, id: &str) -> (r: String)
    ensures
        r@ == snapshot_of(platform, worktrees@, id@),
{
    named_path(platform, worktrees, ".repair-", id, "-inputs")
}

pub fn repair_candidate_path(platform: Platform, worktrees: &str, id: &str) -> (r: String)
    ensures
        r@ == candidate_of(platform, worktrees@, id@),
{
    named_path(platform, worktrees, ".repair-", id, "-candidate")
}

pub fn repair_session_path(platform: Platform, worktrees: &str, id: &str) -> (r: String)
    ensures
        r@ == session_file_of(platform, worktrees@, id@),
{
    named_path(platform, worktrees, ".repair-", id, ".json")
}

/// The log of a repair.
pub fn repair_log_path(platform: Platform, logs: &str, id: &str) -> (r: String)
    ensures
        r@ == join_path(platform, logs@, "repair-"@ + id@ + ".log"@),
{
    named_path(platform, logs, "repair-", id, ".log")
}

pub open spec fn is_failure(record: FailureView, id: Seq<char>, desired: DesiredView) -> bool {
    record.id == id && record.desired == desired
}

/// The generation that a repair of `failure` pins.
pub open spec fn pinned(s: StateView, failure: FailureView, binary_is_file: bool) -> Result<
    GenerationView,
    Seq<char>,
> {
    match s.failure {
        None => Err("there is no recorded failure to repair"@),
        Some(recorded) => if !is_failure(recorded, failure.id, failure.desired) {
            Err("recorded failure changed while repair was starting"@)
        } else {
            match s.active {
                None => Err("patch repair needs a validated last-good generation"@),
                Some(last_good) => if !binary_is_file {
                    Err("last-good Codex does not exist: "@ + last_good.binary)
                } else {
                    Ok(last_good)
                },
            }
        },
    }
}

pub open spec fn generation_result(r: Result<GenerationRef, String>) -> Result<
    GenerationView,
    Seq<char>,
> {
    match r {
        Ok(g) => Ok(g@),
        Err(message) => Err(message@),
    }
}

/// Whether a repair of the failure can start: it is still the recorded one, and there is a
/// last-good Codex to run.
pub fn start_repair(
    state: &InstallState,
    failure: &FailureRecord,
    binary_is_file: bool,
) -> (r: Result<GenerationRef, String>)
    ensures
        generation_result(r) == pinned(state@, failure@, binary_is_file),
{
    let recorded = match &state.failure {
        None => return Err("there is no recorded failure to repair".to_owned()),
        Some(recorded) => recorded,
    };
    if !(same(recorded.id.as_str(), failure.id.as_str()) && recorded.desired.same_as(
        &failure.desired,
    )) {
        return Err("recorded failure changed while repair was starting".to_owned());
    }
    match &state.active {
        None => Err("patch repair needs a validated last-good generation".to_owned()),
        Some(last_good) => {
            if !binary_is_file {
                let mut message = "last-good Codex does not exist: ".to_owned();
                message.append(last_good.binary.as_str());
                return Err(message);
            }
            Ok(last_good.clone())
        },
    }
}

/// How the configuration has moved away from the failed build.
pub open spec fn config_problem(
    config: Config,
    desired: DesiredView,
    os: Seq<char>,
    arch: Seq<char>,
) -> Option<Seq<char>> {
    if branch_name(config.branch) != desired.source.channel {
        Some(
            "configured channel changed from "@ + desired.source.channel + " to "@ + branch_name(
                config.branch,
            ) + " after the recorded failure"@,
        )
    } else {
        match resolved(config.target, os, arch) {
            Err(message) => Some(message),
            Ok(target) => if target != desired.target {
                Some(
                    "configured build target changed from "@ + desired.target + " to "@ + target
                        + " after the recorded failure"@,
                )
            } else {
                None
            },
        }
    }
}

pub fn validate_failure_config(
    config: &Config,
    failure: &FailureRecord,
    os: &str,
    arch: &str,
) -> (r: Result<(), String>)
    ensures
        result_unit(r) == as_result(config_problem(*config, failure.desired@, os@, arch@)),
{
    let branch = config.branch.as_str();
    let channel = failure.desired.source.channel.as_str();
    if !same(branch, channel) {
        let mut message = "configured channel changed from ".to_owned();
        message.append(channel);
        message.append(" to ");
        message.append(branch);
        message.append(" after the recorded failure");
        return Err(message);
    }
    match config.resolved_target(os, arch) {
        Err(message) => Err(message),
        Ok(target) => {
            let wanted = failure.desired.target.as_str();
            if same(target.as_str(), wanted) {
                return Ok(());
            }
            let mut message = "configured build target changed from ".to_owned();
            message.append(wanted);
            message.append(" to ");
            message.append(target.as_str());
            message.append(" after the recorded failure");
            Err(message)
        },
    }
}

/// What stands where a repair keeps its worktree.
#[derive(Debug)]
pub enum WorktreeKind {
    Missing { message: String },
    Directory,
    Other,
}

/// What is found of a session's files.
#[derive(Debug)]
pub struct SessionFacts {
    /// The fingerprint of the patches in the snapshot.
    pub snapshot: Result<String, String>,
    pub worktree: WorktreeKind,
    pub last_good_is_file: bool,
}

/// What is wrong with the files of a session.
pub open spec fn session_file_problem(s: SessionView, facts: SessionFacts) -> Option<Seq<char>> {
    match facts.snapshot {
        Err(message) => Some(message@),
        Ok(fingerprint) => if fingerprint@ != s.desired.patch_fingerprint {
            Some("persisted repair patch snapshot is corrupt"@)
        } else {
            match facts.worktree {
                WorktreeKind::Missing { message } => Some(
                    "persisted repair worktree is missing: "@ + s.worktree + ": "@ + message@,
                ),
                WorktreeKind::Other => Some(
                    "persisted repair worktree is not a regular directory: "@ + s.worktree,
                ),
                WorktreeKind::Directory => if !facts.last_good_is_file {
                    Some("pinned last-good Codex is missing: "@ + s.last_good.binary)
                } else if s.validated_generation is Some && (s.validated_generation->0.source
                    != s.desired.source || s.validated_generation->0.target != s.desired.target) {
                    Some("persisted validated repair result is inconsistent"@)
                } else {
                    None
                },
            }
        },
    }
}

/// What tells that a session is not the one for this failure and these inputs.
pub open spec fn identity_problem(
    platform: Platform,
    worktrees: Seq<char>,
    s: SessionView,
    failure: FailureView,
    config: Seq<u8>,
    facts: SessionFacts,
) -> Option<Seq<char>> {
    if s.schema != REPAIR_SESSION_SCHEMA {
        Some("unsupported repair session schema "@ + decimal(s.schema as nat))
    } else if !is_failure(failure, s.failure_id, s.desired) {
        Some("repair session belongs to a different failure"@)
    } else if parts(platform, s.worktree) != parts(
        platform,
        worktree_of(platform, worktrees, failure.id),
    ) || parts(
        platform,
        s.snapshot_dir,
    ) != parts(
        platform,
        snapshot_of(platform, worktrees, failure.id),
    ) || parts(platform, s.candidate_dir) != parts(
        platform,
        candidate_of(platform, worktrees, failure.id),
    ) {
        Some("repair session contains paths outside the patcher-owned worktree area"@)
    } else if s.config_sha256 != hex_text(sha256(config)) {
        Some(
            "codex-patcher.toml changed during repair; discard the old repair and retry the new desired state"@,
        )
    } else {
        session_file_problem(s, facts)
    }
}

fn check_session_files(session: &RepairSession, facts: &SessionFacts) -> (r: Result<(), String>)
    ensures
        result_unit(r) == as_result(session_file_problem(session@, *facts)),
{
    match &facts.snapshot {
        Err(message) => return Err(message.clone()),
        Ok(fingerprint) => {
            if !same(fingerprint.as_str(), session.desired.patch_fingerprint.as_str()) {
                return Err("persisted repair patch snapshot is corrupt".to_owned());
            }
        },
    }
    match &facts.worktree {
        WorktreeKind::Missing { message } => {
            let mut text = "persisted repair worktree is missing: ".to_owned();
            text.append(session.worktree.as_str());
            text.append(": ");
            text.append(message.as_str());
            return Err(text);
        },
        WorktreeKind::Other => {
            let mut text = "persisted repair worktree is not a regular directory: ".to_owned();
            text.append(session.worktree.as_str());
            return Err(text);
        },
        WorktreeKind::Directory => {},
    }
    if !facts.last_good_is_file {
        let mut text = "pinned last-good Codex is missing: ".to_owned();
        text.append(session.last_good.binary.as_str());
        return Err(text);
    }
    if let Some(generation) = &session.validated_generation {
        if !(generation.source.same_as(&session.desired.source) && same(
            generation.target.as_str(),
            session.desired.target.as_str(),
        )) {
            return Err("persisted validated repair result is inconsistent".to_owned());
        }
    }
    Ok(())
}

/// Whether a persisted session is the one for this failure and these inputs, with all its
/// files in place.
pub fn validate_session_identity(
    platform: Platform,
    worktrees: &str,
    session: &RepairSession,
    failure: &FailureRecord,
    config: &[u8],
    facts: &SessionFacts,
) -> (r: Result<(), String>)
    ensures
        result_unit(r) == as_result(
            identity_problem(platform, worktrees@, session@, failure@, config@, *facts),
        ),
{
    if session.schema != REPAIR_SESSION_SCHEMA {
        let mut message = "unsupported repair session schema ".to_owned();
        message.append(decimal_text(session.schema as u64).as_str());
        return Err(message);
    }
    let id = failure.id.as_str();
    if !(same(session.failure_id.as_str(), id) && session.desired.same_as(&failure.desired)) {
        return Err("repair session belongs to a different failure".to_owned());
    }
    if !same_path(
        platform,
        session.worktree.as_str(),
        repair_worktree_path(platform, worktrees, id).as_str(),
    )
        || !same_path(
        platform,
        session.snapshot_dir.as_str(),
        repair_snapshot_path(platform, worktrees, id).as_str(),
    ) || !same_path(
        platform,
        session.candidate_dir.as_str(),
        repair_candidate_path(platform, worktrees, id).as_str(),
    ) {
        return Err(
            "repair session contains paths outside the patcher-owned worktree area".to_owned(),
        );
    }
    if !same(session.config_sha256.as_str(), sha256_hex(config).as_str()) {
        return Err(
            "codex-patcher.toml changed during repair; discard the old repair and retry the new desired state".to_owned(),
        );
    }
    check_session_files(session, facts)
}

pub open spec fn changed_message(id: Seq<char>) -> Seq<char> {
    "live patch inputs changed after failure "@ + id
        + "; launch Codex again or retry update"@
}

/// A session whose live patches are no longer those of the failure.
pub fn resume_changed_session(
    platform: Platform,
    failure: &FailureRecord,
    live_fingerprint: &str,
    last_good: &GenerationRef,
    session: Option<&RepairSession>,
    identity: &Result<(), String>,
) -> (r: Result<GenerationRef, String>)
    ensures
        match session {
            None => r matches Err(e) && e@ == changed_message(failure.id@),
            Some(s) => match identity {
                Err(message) => r matches Err(e) && e@ == message@,
                Ok(_) => if !same_generation(platform, s.last_good@, last_good@) {
                    r matches Err(e) && e@
                        == "pinned last-good generation changed during repair"@
                } else if s.validated_generation is Some
                    && s.validated_generation->0.patch_fingerprint@ == live_fingerprint@ {
                    r matches Ok(g) && g@ == s.validated_generation->0@
                } else {
                    r matches Err(e) && e@ == changed_message(failure.id@)
                },
            },
        },
{
    if let Some(s) = session {
        match identity {
            Err(message) => return Err(message.clone()),
            Ok(()) => {},
        }
        if !s.last_good.agrees_with(platform, last_good) {
            return Err("pinned last-good generation changed during repair".to_owned());
        }
        if let Some(generation) = &s.validated_generation {
            if same(generation.patch_fingerprint.as_str(), live_fingerprint) {
                return Ok(generation.clone());
            }
        }
    }
    let mut message = "live patch inputs changed after failure ".to_owned();
    message.append(failure.id.as_str());
    message.append("; launch Codex again or retry update");
    Err(message)
}

/// A session whose live patches are those of the failure goes on when it pins the same
/// patches and the same last-good generation.
pub fn check_resumed_session(
    platform: Platform,
    session: &RepairSession,
    live_fingerprint: &str,
    last_good: &GenerationRef,
) -> (r: Result<(), String>)
    ensures
        result_unit(r) == (if live_fingerprint@ != session.desired.patch_fingerprint@ {
            Err(
                "live patch stack changed during repair; discard the old repair and retry the new desired state"@,
            )
        } else if !same_generation(platform, session.last_good@, last_good@) {
            Err("pinned last-good generation changed during repair"@)
        } else {
            Ok(())
        }),
{
    if !same(live_fingerprint, session.desired.patch_fingerprint.as_str()) {
        return Err(
            "live patch stack changed during repair; discard the old repair and retry the new desired state".to_owned(),
        );
    }
    if !session.last_good.agrees_with(platform, last_good) {
        return Err("pinned last-good generation changed during repair".to_owned());
    }
    Ok(())
}

/// The session that starts a repair.
pub open spec fn first_session(
    platform: Platform,
    worktrees: Seq<char>,
    failure: FailureView,
    config: Seq<u8>,
    last_good: GenerationView,
) -> SessionView {
    SessionView {
        schema: REPAIR_SESSION_SCHEMA,
        failure_id: failure.id,
        desired: failure.desired,
        config_sha256: hex_text(sha256(config)),
        worktree: worktree_of(platform, worktrees, failure.id),
        snapshot_dir: snapshot_of(platform, worktrees, failure.id),
        candidate_dir: candidate_of(platform, worktrees, failure.id),
        last_good,
        commits: Seq::empty(),
        stage: RepairStage::Applying { next_index: 0, conflicted_index: None },
        final_patch_name: None,
        diagnostic_phase: failure.phase,
        diagnostic_summary: failure.summary,
        diagnostic_log: failure.log_path,
        validated_generation: None,
    }
}

impl RepairSession {
    pub fn new(
        platform: Platform,
        worktrees: &str,
        failure: &FailureRecord,
        config: &[u8],
        last_good: &GenerationRef,
    ) -> (r: Self)
        ensures
            r@ == first_session(platform, worktrees@, failure@, config@, last_good@),
    {
        let id = failure.id.as_str();
        let commits: Vec<PatchCommit> = Vec::new();
        proof {
            assert(commits_view(commits@) =~= Seq::empty());
        }
        RepairSession {
            schema: REPAIR_SESSION_SCHEMA,
            failure_id: failure.id.clone(),
            desired: failure.desired.clone(),
            config_sha256: sha256_hex(config),
            worktree: repair_worktree_path(platform, worktrees, id),
            snapshot_dir: repair_snapshot_path(platform, worktrees, id),
            candidate_dir: repair_candidate_path(platform, worktrees, id),
            last_good: last_good.clone(),
            commits,
            stage: RepairStage::Applying { next_index: 0, conflicted_index: None },
            final_patch_name: None,
            diagnostic_phase: failure.phase.clone(),
            diagnostic_summary: failure.summary.clone(),
            diagnostic_log: failure.log_path.clone(),
            validated_generation: None,
        }
    }
}

pub open spec fn worktree_recorded(s: StateView, worktree: Seq<char>) -> StateView {
    StateView {
        failure: Some(FailureView { repair_worktree: Some(worktree), ..s.failure->0 }),
        ..s
    }
}

/// Notes with the recorded failure where it is repaired.
pub fn record_repair_worktree(
    state: &mut InstallState,
    failure: &FailureRecord,
    worktree: &str,
) -> (r: Result<(), String>)
    ensures
        match old(state)@.failure {
            None => {
                &&& r matches Err(e) && e@
                    == "recorded failure disappeared while preparing repair"@
                &&& final(state)@ == old(state)@
            },
            Some(recorded) => if recorded.id != failure.id@ {
                &&& r matches Err(e) && e@ == "recorded failure changed while preparing repair"@
                &&& final(state)@ == old(state)@
            } else {
                r is Ok && final(state)@ == worktree_recorded(old(state)@, worktree@)
            },
        },
{
    let changed = match &state.failure {
        None => return Err("recorded failure disappeared while preparing repair".to_owned()),
        Some(recorded) => {
            if !same(recorded.id.as_str(), failure.id.as_str()) {
                return Err("recorded failure changed while preparing repair".to_owned());
            }
            FailureRecord {
                id: recorded.id.clone(),
                desired: recorded.desired.clone(),
                phase: recorded.phase.clone(),
                summary: recorded.summary.clone(),
                failed_patch_index: recorded.failed_patch_index,
                failed_patch: copy_opt(&recorded.failed_patch),
                log_path: recorded.log_path.clone(),
                created_at: recorded.created_at,
                repair_worktree: Some(worktree.to_owned()),
            }
        },
    };
    state.failure = Some(changed);
    Ok(())
}

/// The commit that the worktree must be at.
pub open spec fn head_of(s: SessionView) -> Seq<char> {
    if s.commits.len() > 0 {
        s.commits.last().commit
    } else {
        s.desired.source.commit_oid
    }
}

pub open spec fn head_problem(s: SessionView, head: Seq<char>) -> Option<Seq<char>> {
    if trim(head) == head_of(s) {
        None
    } else {
        Some(
            "repair worktree HEAD drifted: expected "@ + head_of(s) + ", found "@ + trim(head),
        )
    }
}

pub fn expected_head(session: &RepairSession) -> (r: String)
    ensures
        r@ == head_of(session@),
{
    let n: usize = session.commits.len();
    proof {
        assert(commits_view(session.commits@).len() == session.commits@.len());
    }
    if n > 0 {
        proof {
            assert(session@.commits.last() == session.commits@[n - 1]@);
        }
        session.commits[n - 1].commit.clone()
    } else {
        session.desired.source.commit_oid.clone()
    }
}

/// `head` is what Git prints for the worktree's commit.
pub fn check_expected_head(session: &RepairSession, head: &str) -> (r: Result<(), String>)
    ensures
        result_unit(r) == as_result(head_problem(session@, head@)),
{
    let found = trimmed(head);
    let expected = expected_head(session);
    if same(found.as_str(), expected.as_str()) {
        return Ok(());
    }
    let mut message = "repair worktree HEAD drifted: expected ".to_owned();
    message.append(expected.as_str());
    message.append(", found ");
    message.append(found.as_str());
    Err(message)
}

pub open spec fn unvalidated(s: SessionView) -> SessionView {
    SessionView { validated_generation: None, ..s }
}

/// Whether patches are to be applied, or what forbids it.
pub open spec fn applying(s: SessionView, head: Seq<char>, status: Seq<char>) -> Result<
    bool,
    Seq<char>,
> {
    match s.stage {
        RepairStage::Applying { next_index, conflicted_index: None } => if s.commits.len()
            != next_index {
            Err("repair session commit/index mismatch"@)
        } else if head_problem(s, head) is Some {
            Err(head_problem(s, head)->0)
        } else if trim(status).len() > 0 {
            Err(
                "repair worktree has unexpected changes before applying the next patch: "@
                    + sanitized(trim(status)),
            )
        } else {
            Ok(true)
        },
        _ => Ok(false),
    }
}

/// Takes up applying the patches where it was left. `head` and `status` are what Git prints
/// of the worktree.
pub fn begin_applying(session: &mut RepairSession, head: &str, status: &str) -> (r: Result<
    bool,
    String,
>)
    ensures
        final(session)@ == unvalidated(old(session)@),
        crate::upstream::result_bool(r) == applying(old(session)@, head@, status@),
{
    session.validated_generation = None;
    match session.stage {
        RepairStage::Applying { next_index, conflicted_index: None } => {
            proof {
                assert(commits_view(session.commits@).len() == session.commits@.len());
            }
            if session.commits.len() != next_index {
                return Err("repair session commit/index mismatch".to_owned());
            }
            match check_expected_head(session, head) {
                Ok(()) => {},
                Err(message) => return Err(message),
            }
            let rest = trimmed(status);
            if chars_of(rest.as_str()).len() > 0 {
                let mut message =
                    "repair worktree has unexpected changes before applying the next patch: ".to_owned();
                message.append(sanitize_line(rest.as_str()).as_str());
                return Err(message);
            }
            Ok(true)
        },
        _ => Ok(false),
    }
}

/// The patch that is applied next, of `count`.
pub open spec fn next_index_of(s: SessionView, count: nat) -> Option<int> {
    match s.stage {
        RepairStage::Applying { next_index, conflicted_index: None } => if next_index < count {
            Some(next_index as int)
        } else {
            None
        },
        _ => None,
    }
}

pub fn next_patch(session: &RepairSession, count: usize) -> (r: Option<usize>)
    ensures
        match r {
            Some(i) => next_index_of(session@, count as nat) == Some(i as int),
            None => next_index_of(session@, count as nat) is None,
        },
{
    match session.stage {
        RepairStage::Applying { next_index, conflicted_index: None } => if next_index < count {
            Some(next_index)
        } else {
            None
        },
        _ => None,
    }
}

/// What keeps staged changes from being committed under a patch's name. `code` and `status`
/// are how the comparison of the index with the last commit ended.
pub open spec fn commit_problem(
    platform: Platform,
    name: Seq<char>,
    code: Option<i32>,
    status: Seq<char>,
) -> Option<Seq<char>> {
    if path_problem(platform, name) is Some {
        path_problem(platform, name)
    } else {
        staged_problem(code, status)
    }
}

pub fn check_commit(
    platform: Platform,
    name: &str,
    code: Option<i32>,
    status: &str,
) -> (r: Result<(), String>)
    ensures
        result_unit(r) == as_result(commit_problem(platform, name@, code, status@)),
{
    match validate_relative_path(platform, name) {
        Ok(()) => {},
        Err(message) => return Err(message),
    }
    check_staged_changes(code, status)
}

/// The session once the patch at `index` is committed.
pub open spec fn committed(
    s: SessionView,
    index: nat,
    name: Seq<char>,
    parent: Seq<char>,
    commit: Seq<char>,
) -> SessionView {
    SessionView {
        commits: s.commits.push(CommitView { parent: trim(parent), commit: trim(commit), name }),
        stage: RepairStage::Applying { next_index: (index + 1) as usize, conflicted_index: None },
        ..s
    }
}

fn push_commit(session: &mut RepairSession, name: &str, parent: &str, commit: &str)
    ensures
        final(session)@ == (SessionView {
            commits: old(session)@.commits.push(
                CommitView { parent: trim(parent@), commit: trim(commit@), name: name@ },
            ),
            ..old(session)@
        }),
{
    let item = PatchCommit {
        parent: trimmed(parent),
        commit: trimmed(commit),
        name: name.to_owned(),
    };
    proof {
        assert(commits_view(session.commits@.push(item)) =~= commits_view(session.commits@).push(
            item@,
        ));
    }
    session.commits.push(item);
}

pub fn patch_committed(
    session: &mut RepairSession,
    index: usize,
    name: &str,
    parent: &str,
    commit: &str,
)
    requires
        index < usize::MAX,
    ensures
        final(session)@ == committed(old(session)@, index as nat, name@, parent@, commit@),
{
    push_commit(session, name, parent, commit);
    session.stage = RepairStage::Applying { next_index: index + 1, conflicted_index: None };
}

/// A patch that passed its check must also be applied.
pub fn check_applied(success: bool, path: &str) -> (r: Result<(), String>)
    ensures
        result_unit(r) == (if success {
            Ok(())
        } else {
            Err("git apply --index failed after a successful check for "@ + path@)
        }),
{
    if success {
        return Ok(());
    }
    let mut message = "git apply --index failed after a successful check for ".to_owned();
    message.append(path);
    Err(message)
}

pub open spec fn conflicted(s: SessionView, index: nat) -> SessionView {
    SessionView {
        stage: RepairStage::Applying {
            next_index: index as usize,
            conflicted_index: Some(index as usize),
        },
        ..s
    }
}

/// The patch at `index` does not apply. `rejects` are the reject files from before it was
/// tried.
pub fn patch_conflicted(
    session: &mut RepairSession,
    index: usize,
    rejects: &Vec<String>,
) -> (r: Result<(), String>)
    ensures
        if rejects@.len() > 0 {
            &&& r matches Err(e) && e@ == "repair worktree already contains rejects"@
            &&& final(session)@ == old(session)@
        } else {
            r is Ok && final(session)@ == conflicted(old(session)@, index as nat)
        },
{
    if rejects.len() > 0 {
        return Err("repair worktree already contains rejects".to_owned());
    }
    session.stage = RepairStage::Applying { next_index: index, conflicted_index: Some(index) };
    Ok(())
}

/// Every patch is applied: a stack that failed only there is rebuilt, any other needs a
/// repair of the build first.
pub open spec fn all_committed(s: SessionView) -> SessionView {
    SessionView {
        stage: if s.diagnostic_phase == "patch"@ {
            RepairStage::ReadyToBuild
        } else {
            RepairStage::BuildRepair
        },
        ..s
    }
}

pub fn finish_applying(session: &mut RepairSession)
    ensures
        final(session)@ == all_committed(old(session)@),
{
    session.stage = if same(session.diagnostic_phase.as_str(), "patch") {
        RepairStage::ReadyToBuild
    } else {
        RepairStage::BuildRepair
    };
}

/// What keeps a repaired conflict from being committed.
pub open spec fn conflict_problem(
    s: SessionView,
    index: nat,
    count: nat,
    head: Seq<char>,
    rejects: Seq<Seq<char>>,
    unmerged: Seq<char>,
) -> Option<Seq<char>> {
    if head_problem(s, head) is Some {
        head_problem(s, head)
    } else if unfinished(rejects, unmerged) is Some {
        unfinished(rejects, unmerged)
    } else if index >= count {
        Some("repair conflict index is outside the patch stack"@)
    } else {
        None
    }
}

/// Whether the maintenance run has resolved the conflict of the patch at `index`.
pub fn finish_conflicted_patch(
    session: &mut RepairSession,
    index: usize,
    count: usize,
    head: &str,
    rejects: &Vec<String>,
    unmerged: &str,
) -> (r: Result<(), String>)
    ensures
        final(session)@ == unvalidated(old(session)@),
        result_unit(r) == as_result(
            conflict_problem(
                old(session)@,
                index as nat,
                count as nat,
                head@,
                texts(rejects@),
                unmerged@,
            ),
        ),
{
    session.validated_generation = None;
    match check_expected_head(session, head) {
        Ok(()) => {},
        Err(message) => return Err(message),
    }
    match check_no_rejects_or_unmerged(rejects, unmerged) {
        Ok(()) => {},
        Err(message) => return Err(message),
    }
    if index >= count {
        return Err("repair conflict index is outside the patch stack".to_owned());
    }
    Ok(())
}

/// How the repair of a build is committed.
#[derive(Debug)]
pub enum BuildRepair {
    /// As a change of the build repair that stands last.
    Amend,
    /// As a new last patch.
    Add { name: String },
}

pub enum BuildRepairView {
    Amend,
    Add { name: Seq<char> },
}

impl View for BuildRepair {
    type V = BuildRepairView;

    open spec fn view(&self) -> BuildRepairView {
        match self {
            BuildRepair::Amend => BuildRepairView::Amend,
            BuildRepair::Add { name } => BuildRepairView::Add { name: name@ },
        }
    }
}

pub open spec fn build_repair_result(r: Result<BuildRepair, String>) -> Result<
    BuildRepairView,
    Seq<char>,
> {
    match r {
        Ok(step) => Ok(step@),
        Err(message) => Err(message@),
    }
}

pub open spec fn build_repair(
    platform: Platform,
    s: SessionView,
    names: Seq<Seq<char>>,
    head: Seq<char>,
    rejects: Seq<Seq<char>>,
    unmerged: Seq<char>,
    status: Seq<char>,
) -> Result<BuildRepairView, Seq<char>> {
    if head_problem(s, head) is Some {
        Err(head_problem(s, head)->0)
    } else if unfinished(rejects, unmerged) is Some {
        Err(unfinished(rejects, unmerged)->0)
    } else if trim(status).len() == 0 {
        Err(
            "maintenance Codex left no tracked or untracked repair changes in "@ + s.worktree
                + "; the repair session is preserved"@,
        )
    } else {
        match s.final_patch_name {
            Some(name) => if s.commits.len() > 0 && parts(
                platform,
                s.commits.last().name,
            ) == parts(platform, name) {
                Ok(BuildRepairView::Amend)
            } else {
                Err("repair session final-patch metadata is inconsistent"@)
            },
            None => match free_repair_name(names, 0) {
                Some(name) => Ok(BuildRepairView::Add { name }),
                None => Err("could not choose a unique build-repair patch filename"@),
            },
        }
    }
}

/// How what the maintenance run left of a build repair is committed. `names` are the
/// patches of the stack.
pub fn finish_build_repair(
    platform: Platform,
    session: &mut RepairSession,
    names: &Vec<String>,
    head: &str,
    rejects: &Vec<String>,
    unmerged: &str,
    status: &str,
) -> (r: Result<BuildRepair, String>)
    ensures
        final(session)@ == unvalidated(old(session)@),
        build_repair_result(r) == build_repair(
            platform,
            old(session)@,
            texts(names@),
            head@,
            texts(rejects@),
            unmerged@,
            status@,
        ),
{
    session.validated_generation = None;
    match check_expected_head(session, head) {
        Ok(()) => {},
        Err(message) => return Err(message),
    }
    match check_no_rejects_or_unmerged(rejects, unmerged) {
        Ok(()) => {},
        Err(message) => return Err(message),
    }
    if chars_of(trimmed(status).as_str()).len() == 0 {
        let mut message =
            "maintenance Codex left no tracked or untracked repair changes in ".to_owned();
        message.append(session.worktree.as_str());
        message.append("; the repair session is preserved");
        return Err(message);
    }
    match &session.final_patch_name {
        Some(name) => {
            let n: usize = session.commits.len();
            proof {
                assert(session@.commits.len() == n);
                if n > 0 {
                    assert(session@.commits.last() == session.commits@[n - 1]@);
                }
            }
            if n > 0 && same_path(platform, session.commits[n - 1].name.as_str(), name.as_str()) {
                Ok(BuildRepair::Amend)
            } else {
                Err("repair session final-patch metadata is inconsistent".to_owned())
            }
        },
        None => match choose_build_repair_name(names) {
            Ok(name) => Ok(BuildRepair::Add { name }),
            Err(message) => Err(message),
        },
    }
}

pub open spec fn amended(s: SessionView, commit: Seq<char>) -> SessionView {
    SessionView {
        commits: s.commits.drop_last().push(
            CommitView { commit: trim(commit), ..s.commits.last() },
        ),
        stage: RepairStage::ReadyToBuild,
        ..s
    }
}

pub fn build_repair_amended(session: &mut RepairSession, commit: &str)
    requires
        old(session).commits@.len() > 0,
    ensures
        final(session)@ == amended(old(session)@, commit@),
{
    let n: usize = session.commits.len();
    let last = PatchCommit {
        parent: session.commits[n - 1].parent.clone(),
        commit: trimmed(commit),
        name: session.commits[n - 1].name.clone(),
    };
    let ghost before = session.commits@;
    session.commits.set(n - 1, last);
    session.stage = RepairStage::ReadyToBuild;
    proof {
        assert(commits_view(session.commits@) =~= commits_view(before).drop_last().push(last@));
    }
}

pub open spec fn repair_added(
    s: SessionView,
    name: Seq<char>,
    parent: Seq<char>,
    commit: Seq<char>,
) -> SessionView {
    SessionView {
        commits: s.commits.push(CommitView { parent: trim(parent), commit: trim(commit), name }),
        final_patch_name: Some(name),
        stage: RepairStage::ReadyToBuild,
        ..s
    }
}

pub fn build_repair_added(session: &mut RepairSession, name: &str, parent: &str, commit: &str)
    ensures
        final(session)@ == repair_added(old(session)@, name@, parent@, commit@),
{
    push_commit(session, name, parent, commit);
    session.final_patch_name = Some(name.to_owned());
    session.stage = RepairStage::ReadyToBuild;
}

/// What a repair session does next.
#[derive(Debug, Clone, Copy, PartialEq, Eq, Structural)]
pub enum SessionStep {
    /// Run the last-good Codex on the conflict of this patch.
    ResolveConflict(usize),
    /// Run the last-good Codex on the build.
    RepairBuild,
    /// Apply the patches that are left.
    Apply,
    /// Export the stack and rebuild it.
    Build,
}

pub open spec fn session_step(stage: RepairStage) -> SessionStep {
    match stage {
        RepairStage::Applying { next_index, conflicted_index: Some(index) } =>
            SessionStep::ResolveConflict(index),
        RepairStage::Applying { next_index, conflicted_index: None } => SessionStep::Apply,
        RepairStage::BuildRepair => SessionStep::RepairBuild,
        RepairStage::ReadyToBuild => SessionStep::Build,
    }
}

pub fn next_session_step(session: &RepairSession) -> (r: SessionStep)
    ensures
        r == session_step(session.stage),
{
    match session.stage {
        RepairStage::Applying { next_index: _, conflicted_index: Some(index) } =>
            SessionStep::ResolveConflict(index),
        RepairStage::Applying { next_index: _, conflicted_index: None } => SessionStep::Apply,
        RepairStage::BuildRepair => SessionStep::RepairBuild,
        RepairStage::ReadyToBuild => SessionStep::Build,
    }
}

/// What the maintenance run is told of a session: of the patch in conflict, or else of the
/// patch that the failure names.
pub fn maintenance_context(
    session: &RepairSession,
    failure: &FailureRecord,
    conflict: Option<usize>,
    names: &Vec<String>,
    patch_dir: &str,
) -> (r: RepairPromptContext)
    ensures
        r.failure_id@ == session.failure_id@,
        r.desired_version@ == session.desired.source.version@,
        r.upstream_ref@ == session.desired.source.ref_name@,
        opt_text(r.failed_patch) == (match conflict {
            Some(i) => if i < names@.len() {
                Some(names@[i as int]@)
            } else {
                opt_text(failure.failed_patch)
            },
            None => opt_text(failure.failed_patch),
        }),
        r.phase@ == session.diagnostic_phase@,
        r.summary@ == session.diagnostic_summary@,
        r.log_path@ == session.diagnostic_log@,
        r.patch_dir@ == patch_dir@,
{
    let failed_patch = match conflict {
        Some(i) => if i < names.len() {
            Some(names[i].clone())
        } else {
            copy_opt(&failure.failed_patch)
        },
        None => copy_opt(&failure.failed_patch),
    };
    RepairPromptContext {
        failure_id: session.failure_id.clone(),
        desired_version: session.desired.source.version.clone(),
        upstream_ref: session.desired.source.ref_name.clone(),
        failed_patch,
        phase: session.diagnostic_phase.clone(),
        summary: session.diagnostic_summary.clone(),
        log_path: session.diagnostic_log.clone(),
        patch_dir: patch_dir.to_owned(),
    }
}

/// The build of the repaired stack: the failed one's source and target, with the
/// candidate's patches.
pub open spec fn repaired_build(s: SessionView, fingerprint: Seq<char>) -> DesiredView {
    DesiredView {
        source: s.desired.source,
        patch_fingerprint: fingerprint,
        target: s.desired.target,
        source_key: source_key_of(s.desired.source, fingerprint, s.desired.target),
    }
}

pub fn repaired_desired(session: &RepairSession, candidate: &PatchSet) -> (r: DesiredBuild)
    ensures
        r@ == repaired_build(session@, candidate.fingerprint@),
{
    DesiredBuild {
        source: session.desired.source.clone(),
        patch_fingerprint: candidate.fingerprint.clone(),
        target: session.desired.target.clone(),
        source_key: candidate.source_key(&session.desired.source, session.desired.target.as_str()),
    }
}

/// The repaired stack does not build either.
pub open spec fn still_failing(s: SessionView, f: BuildFailureView) -> SessionView {
    SessionView {
        stage: RepairStage::BuildRepair,
        validated_generation: None,
        diagnostic_phase: f.phase,
        diagnostic_summary: f.summary,
        diagnostic_log: f.log_path,
        ..s
    }
}

pub open spec fn still_failing_message(
    platform: Platform,
    s: SessionView,
    f: BuildFailureView,
    home: Option<&str>,
) -> Seq<char> {
    "repaired candidate still fails validation; rerun `codex-patcher repair "@ + s.failure_id
        + "` to continue in "@ + s.worktree + ": "@ + failure_text(platform, f, home)
}

/// Keeps what the next maintenance run needs to know, and says so.
pub fn record_build_failure(
    platform: Platform,
    session: &mut RepairSession,
    failure: &BuildFailure,
    home: Option<&str>,
) -> (r: String)
    ensures
        final(session)@ == still_failing(old(session)@, failure@),
        r@ == still_failing_message(platform, old(session)@, failure@, home),
{
    let mut message =
        "repaired candidate still fails validation; rerun `codex-patcher repair ".to_owned();
    message.append(session.failure_id.as_str());
    message.append("` to continue in ");
    message.append(session.worktree.as_str());
    message.append(": ");
    message.append(failure.message(platform, home).as_str());
    session.stage = RepairStage::BuildRepair;
    session.validated_generation = None;
    session.diagnostic_phase = failure.phase.clone();
    session.diagnostic_summary = failure.summary.clone();
    session.diagnostic_log = failure.log_path.clone();
    message
}

/// The repaired stack was built: it waits for its confirmation.
pub fn record_validated_generation(session: &mut RepairSession, generation: &GenerationRef)
    ensures
        final(session)@ == (SessionView {
            validated_generation: Some(generation@),
            ..old(session)@
        }),
{
    session.validated_generation = Some(generation.clone());
}

/// What has changed under a running repair. `live` is the fingerprint of the live patches,
/// `config` the live configuration.
pub open spec fn drift(
    platform: Platform,
    s: SessionView,
    state: StateView,
    live: Result<Seq<char>, Seq<char>>,
    config: Result<Seq<u8>, Seq<char>>,
) -> Option<Seq<char>> {
    match state.failure {
        None => Some("recorded failure disappeared during repair"@),
        Some(failure) => if !is_failure(failure, s.failure_id, s.desired) {
            Some("recorded failure changed during repair"@)
        } else if state.active is None || !same_generation(platform, state.active->0, s.last_good) {
            Some("active generation changed during repair"@)
        } else {
            match live {
                Err(message) => Some(message),
                Ok(fingerprint) => if fingerprint != s.desired.patch_fingerprint {
                    Some("live patch stack changed during repair"@)
                } else {
                    match config {
                        Err(message) => Some(message),
                        Ok(bytes) => if hex_text(sha256(bytes)) != s.config_sha256 {
                            Some("codex-patcher.toml changed during repair"@)
                        } else {
                            None
                        },
                    }
                },
            }
        },
    }
}

pub open spec fn bytes_result(r: Result<Vec<u8>, String>) -> Result<Seq<u8>, Seq<char>> {
    match r {
        Ok(bytes) => Ok(bytes@),
        Err(message) => Err(message@),
    }
}

/// Whether the session's failure, generation, patches and configuration are still the live
/// ones.
pub fn check_session_still_current(
    platform: Platform,
    session: &RepairSession,
    state: &InstallState,
    live: &Result<String, String>,
    config: &Result<Vec<u8>, String>,
) -> (r: Result<(), String>)
    ensures
        result_unit(r) == as_result(
            drift(
                platform,
                session@,
                state@,
                crate::text::result_text(*live),
                bytes_result(*config),
            ),
        ),
{
    match &state.failure {
        None => return Err("recorded failure disappeared during repair".to_owned()),
        Some(failure) => {
            if !(same(failure.id.as_str(), session.failure_id.as_str()) && failure.desired.same_as(
                &session.desired,
            )) {
                return Err("recorded failure changed during repair".to_owned());
            }
        },
    }
    let unchanged = match &state.active {
        None => false,
        Some(active) => active.agrees_with(platform, &session.last_good),
    };
    if !unchanged {
        return Err("active generation changed during repair".to_owned());
    }
    match live {
        Err(message) => return Err(message.clone()),
        Ok(fingerprint) => {
            if !same(fingerprint.as_str(), session.desired.patch_fingerprint.as_str()) {
                return Err("live patch stack changed during repair".to_owned());
            }
        },
    }
    match config {
        Err(message) => Err(message.clone()),
        Ok(bytes) => {
            if !same(sha256_hex(bytes.as_slice()).as_str(), session.config_sha256.as_str()) {
                return Err("codex-patcher.toml changed during repair".to_owned());
            }
            Ok(())
        },
    }
}

/// What keeps a repaired generation from being activated.
pub open spec fn activation_problem(
    state: StateView,
    s: SessionView,
    g: GenerationView,
    desired: DesiredView,
    installed: Seq<char>,
    live: Result<Seq<char>, Seq<char>>,
) -> Option<Seq<char>> {
    match state.failure {
        None => Some("recorded failure disappeared before repair activation"@),
        Some(failure) => if !is_failure(failure, s.failure_id, s.desired) {
            Some("recorded failure changed before repair activation"@)
        } else if state.active is None || state.active->0.id != s.last_good.id {
            Some("active generation changed before repair activation"@)
        } else {
            match live {
                Err(message) => Some(message),
                Ok(fingerprint) => if fingerprint != installed || g.patch_fingerprint != installed
                    || desired.patch_fingerprint != installed {
                    Some("installed repaired patch stack does not match validated candidate"@)
                } else {
                    None
                },
            }
        },
    }
}

pub open spec fn repair_activated(
    state: StateView,
    g: GenerationView,
    desired: DesiredView,
    now: Timestamp,
) -> StateView {
    StateView {
        probe: settled_probe(ProbeKind::Current, desired, None, now),
        ..activated(state, g, now)
    }
}

/// Makes the repaired generation the active one.
pub fn activate_repaired_generation(
    state: &mut InstallState,
    session: &RepairSession,
    generation: &GenerationRef,
    desired: &DesiredBuild,
    installed: &str,
    live: &Result<String, String>,
    now: Timestamp,
) -> (r: Result<(), String>)
    ensures
        match activation_problem(
            old(state)@,
            session@,
            generation@,
            desired@,
            installed@,
            crate::text::result_text(*live),
        ) {
            Some(message) => (r matches Err(e) && e@ == message) && final(state)@ == old(state)@,
            None => r is Ok && final(state)@ == repair_activated(
                old(state)@,
                generation@,
                desired@,
                now,
            ),
        },
{
    match &state.failure {
        None => return Err("recorded failure disappeared before repair activation".to_owned()),
        Some(failure) => {
            if !(same(failure.id.as_str(), session.failure_id.as_str()) && failure.desired.same_as(
                &session.desired,
            )) {
                return Err("recorded failure changed before repair activation".to_owned());
            }
        },
    }
    let unchanged = match &state.active {
        None => false,
        Some(active) => same(active.id.as_str(), session.last_good.id.as_str()),
    };
    if !unchanged {
        return Err("active generation changed before repair activation".to_owned());
    }
    match live {
        Err(message) => return Err(message.clone()),
        Ok(fingerprint) => {
            if !same(fingerprint.as_str(), installed) || !same(
                generation.patch_fingerprint.as_str(),
                installed,
            ) || !same(desired.patch_fingerprint.as_str(), installed) {
                return Err(
                    "installed repaired patch stack does not match validated candidate".to_owned(),
                );
            }
        },
    }
    state.activate(generation.clone(), now);
    state.probe = ProbeState {
        kind: ProbeKind::Current,
        checked_at: Some(now),
        next_check_at: None,
        desired: Some(desired.clone()),
        message: None,
    };
    Ok(())
}

/// Whether the generation that a session remembers is the one that is wanted, and the one
/// that its manifest describes. `manifest` is the generation of the validated manifest.
pub fn revalidate_persisted_generation(
    platform: Platform,
    generation: &GenerationRef,
    desired: &DesiredBuild,
    manifest: &Result<GenerationRef, String>,
) -> (r: Result<GenerationRef, String>)
    ensures
        generation_result(r) == (if desired_of(generation@) != desired@ {
            Err("persisted repair generation does not match its desired build"@)
        } else if crate::paths::parent(platform, generation.package_dir@) is None {
            Err("persisted repair package has no generation directory"@)
        } else {
            match generation_result(*manifest) {
                Err(message) => Err(
                    "revalidating repaired generation after transaction restart: "@ + message,
                ),
                Ok(found) => if same_generation(platform, found, generation@) {
                    Ok(found)
                } else {
                    Err("persisted repair session and immutable generation manifest disagree"@)
                },
            }
        }),
{
    if !generation.desired().same_as(desired) {
        return Err("persisted repair generation does not match its desired build".to_owned());
    }
    if crate::paths::parent_of(platform, generation.package_dir.as_str()).is_none() {
        return Err("persisted repair package has no generation directory".to_owned());
    }
    match manifest {
        Err(message) => {
            let mut text =
                "revalidating repaired generation after transaction restart: ".to_owned();
            text.append(message.as_str());
            Err(text)
        },
        Ok(found) => {
            if !found.agrees_with(platform, generation) {
                return Err(
                    "persisted repair session and immutable generation manifest disagree".to_owned(),
                );
            }
            Ok(found.clone())
        },
    }
}

/// The session's commits are the patches of the stack in their order, as far as it has
/// come, and at most one build repair after them.
pub open spec fn keeps_order(s: SessionView, names: Seq<Seq<char>>) -> bool {
    match s.stage {
        RepairStage::Applying { next_index, conflicted_index } => {
            &&& next_index <= names.len()
            &&& commit_names(s.commits) == names.take(next_index as int)
            &&& s.final_patch_name is None
            &&& conflicted_index is Some ==> conflicted_index == Some(next_index) && next_index
                < names.len()
        },
        _ => match s.final_patch_name {
            None => commit_names(s.commits) == names,
            Some(name) => commit_names(s.commits) == names.push(name) && !name_folds(
                names,
            ).contains(fold(name)),
        },
    }
}

/// Whatever happens to a repair session, its commits stay the patches of the stack in their
/// order: when it starts, when a patch is committed as it is or after its conflict was
/// resolved, when a patch is in conflict, when all are applied, when a build repair is added
/// or amended, and when the build fails once more.
pub proof fn repairs_preserve_patch_order(
    platform: Platform,
    s: SessionView,
    names: Seq<Seq<char>>,
    worktrees: Seq<char>,
    failure: FailureView,
    config: Seq<u8>,
    last_good: GenerationView,
    parent: Seq<char>,
    commit: Seq<char>,
    problem: BuildFailureView,
)
    requires
        names.len() <= usize::MAX,
        keeps_order(s, names),
    ensures
        keeps_order(first_session(platform, worktrees, failure, config, last_good), names),
        keeps_order(unvalidated(s), names),
        (s.stage is Applying && s.stage->next_index < names.len()) ==> ({
            let i = s.stage->next_index as nat;
            &&& keeps_order(committed(s, i, names[i as int], parent, commit), names)
            &&& keeps_order(conflicted(s, i), names)
        }),
        (s.stage is Applying && s.stage->next_index == names.len()) ==> keeps_order(
            all_committed(s),
            names,
        ),
        (!(s.stage is Applying) && s.final_patch_name is Some) ==> keeps_order(
            amended(s, commit),
            names,
        ),
        (!(s.stage is Applying) && s.final_patch_name is None && free_repair_name(names, 0)
            is Some) ==> keeps_order(
            repair_added(s, free_repair_name(names, 0)->0, parent, commit),
            names,
        ),
        !(s.stage is Applying) ==> keeps_order(still_failing(s, problem), names),
{
    assert(commit_names(first_session(platform, worktrees, failure, config, last_good).commits)
        =~= names.take(0));
    match s.stage {
        RepairStage::Applying { next_index, conflicted_index } => {
            if next_index < names.len() {
                let t = committed(s, next_index as nat, names[next_index as int], parent, commit);
                assert(commit_names(t.commits) =~= commit_names(s.commits).push(
                    names[next_index as int],
                ));
                assert(names.take(next_index as int + 1) =~= names.take(next_index as int).push(
                    names[next_index as int],
                ));
            } else {
                assert(names.take(next_index as int) =~= names);
            }
        },
        _ => {
            if s.final_patch_name is Some {
                let name = s.final_patch_name->0;
                assert(commit_names(s.commits).len() == s.commits.len());
                assert(commit_names(s.commits).last() == s.commits.last().name);
                assert(commit_names(amended(s, commit).commits) =~= commit_names(s.commits));
            } else if free_repair_name(names, 0) is Some {
                let name = free_repair_name(names, 0)->0;
                crate::repair::build_repairs_get_a_new_name(names, 0);
                assert(commit_names(repair_added(s, name, parent, commit).commits)
                    =~= commit_names(s.commits).push(name));
            }
        },
    }
}

/// A repair is activated only for the failure it was started for, on the generation it
/// pinned, and when the live patches are those of the generation.
pub proof fn only_validated_repairs_are_activated(
    state: StateView,
    s: SessionView,
    g: GenerationView,
    desired: DesiredView,
    installed: Seq<char>,
    live: Result<Seq<char>, Seq<char>>,
    now: Timestamp,
)
    requires
        activation_problem(state, s, g, desired, installed, live) is None,
    ensures
        state.failure is Some && state.failure->0.id == s.failure_id,
        state.active is Some && state.active->0.id == s.last_good.id,
        live == Ok::<Seq<char>, Seq<char>>(g.patch_fingerprint),
        ({
            let after = repair_activated(state, g, desired, now);
            &&& after.active == Some(g)
            &&& after.failure is None
            &&& g.id != s.last_good.id ==> after.previous == state.active
            &&& after.surfaces == state.surfaces
            &&& after.patch_dir == state.patch_dir
        }),
{
}

/// A session that was just started belongs to its failure, whatever its files hold.
pub proof fn new_sessions_are_recognized(
    platform: Platform,
    worktrees: Seq<char>,
    failure: FailureView,
    config: Seq<u8>,
    last_good: GenerationView,
    facts: SessionFacts,
)
    ensures
        ({
            let s = first_session(platform, worktrees, failure, config, last_good);
            identity_problem(
                platform,
                worktrees,
                s,
                failure,
                config,
                facts,
            ) == session_file_problem(s, facts)
        }),
{
}

/// What a repair finds before it opens its session.
#[derive(Debug)]
pub struct RepairInputs {
    /// The last-good Codex is there.
    pub binary_is_file: bool,
    /// How undoing an earlier replacement of patches went.
    pub recovered: Result<(), String>,
    /// The fingerprint of the live patches.
    pub live: Result<String, String>,
    /// The live configuration, as bytes and as it reads.
    pub config_bytes: Result<Vec<u8>, String>,
    pub config: Result<Config, String>,
}

/// How a repair opens.
#[derive(Debug)]
pub enum RepairEntry {
    /// The live patches are those of a validated repair: only its activation is left.
    Activate(GenerationRef),
    /// Prepare a session that pins this generation.
    Prepare(GenerationRef),
    /// Go on with the persisted session.
    Resume(GenerationRef),
}

pub enum RepairEntryView {
    Activate(GenerationView),
    Prepare(GenerationView),
    Resume(GenerationView),
}

impl View for RepairEntry {
    type V = RepairEntryView;

    open spec fn view(&self) -> RepairEntryView {
        match self {
            RepairEntry::Activate(g) => RepairEntryView::Activate(g@),
            RepairEntry::Prepare(g) => RepairEntryView::Prepare(g@),
            RepairEntry::Resume(g) => RepairEntryView::Resume(g@),
        }
    }
}

pub open spec fn entry_result(r: Result<RepairEntry, String>) -> Result<
    RepairEntryView,
    Seq<char>,
> {
    match r {
        Ok(entry) => Ok(entry@),
        Err(message) => Err(message@),
    }
}

pub open spec fn unsafe_id_message(id: Seq<char>) -> Seq<char> {
    "unsafe failure id "@ + quoted(id)
}

/// A repair whose live patches have changed: it goes on only when they are those that it
/// has validated.
pub open spec fn changed_entry(
    platform: Platform,
    worktrees: Seq<char>,
    failure: FailureView,
    live: Seq<char>,
    config: Seq<u8>,
    last_good: GenerationView,
    session: Option<SessionView>,
    facts: SessionFacts,
) -> Result<RepairEntryView, Seq<char>> {
    match session {
        None => Err(changed_message(failure.id)),
        Some(s) => match identity_problem(platform, worktrees, s, failure, config, facts) {
            Some(message) => Err(message),
            None => if !same_generation(platform, s.last_good, last_good) {
                Err("pinned last-good generation changed during repair"@)
            } else if s.validated_generation is Some
                && s.validated_generation->0.patch_fingerprint == live {
                Ok(RepairEntryView::Activate(s.validated_generation->0))
            } else {
                Err(changed_message(failure.id))
            },
        },
    }
}

pub open spec fn opt_session(o: Option<RepairSession>) -> Option<SessionView> {
    match o {
        Some(s) => Some(s@),
        None => None,
    }
}

/// How a repair opens, or why it does not.
pub open spec fn opened(
    platform: Platform,
    state: StateView,
    failure: FailureView,
    inputs: RepairInputs,
    session: Result<Option<RepairSession>, String>,
    facts: SessionFacts,
    worktrees: Seq<char>,
    os: Seq<char>,
    arch: Seq<char>,
) -> Result<RepairEntryView, Seq<char>> {
    match pinned(state, failure, inputs.binary_is_file) {
        Err(message) => Err(message),
        Ok(last_good) => match (inputs.recovered, inputs.live, inputs.config_bytes, inputs.config) {
            (Err(message), _, _, _) => Err(message@),
            (Ok(_), Err(message), _, _) => Err(message@),
            (Ok(_), Ok(_), Err(message), _) => Err(message@),
            (Ok(_), Ok(_), Ok(_), Err(message)) => Err(message@),
            (Ok(_), Ok(live), Ok(bytes), Ok(config)) => if config_problem(
                config,
                failure.desired,
                os,
                arch,
            ) is Some {
                Err(config_problem(config, failure.desired, os, arch)->0)
            } else if !safe_failure_id(failure.id) {
                Err(unsafe_id_message(failure.id))
            } else {
                match session {
                    Err(message) => Err(message@),
                    Ok(session) => if live@ != failure.desired.patch_fingerprint {
                        changed_entry(
                            platform,
                            worktrees,
                            failure,
                            live@,
                            bytes@,
                            last_good,
                            opt_session(session),
                            facts,
                        )
                    } else if session is Some {
                        Ok(RepairEntryView::Resume(last_good))
                    } else {
                        Ok(RepairEntryView::Prepare(last_good))
                    },
                }
            },
        },
    }
}

/// How a repair of the failure opens. `session` is the persisted session, if there is one,
/// and `facts` are what is found of its files.
pub fn open_repair(
    platform: Platform,
    state: &InstallState,
    failure: &FailureRecord,
    inputs: &RepairInputs,
    session: &Result<Option<RepairSession>, String>,
    facts: &SessionFacts,
    worktrees: &str,
    os: &str,
    arch: &str,
) -> (r: Result<RepairEntry, String>)
    ensures
        entry_result(r) == opened(
            platform,
            state@,
            failure@,
            *inputs,
            *session,
            *facts,
            worktrees@,
            os@,
            arch@,
        ),
{
    let last_good = match start_repair(state, failure, inputs.binary_is_file) {
        Ok(last_good) => last_good,
        Err(message) => return Err(message),
    };
    match &inputs.recovered {
        Ok(()) => {},
        Err(message) => return Err(message.clone()),
    }
    let live = match &inputs.live {
        Ok(live) => live,
        Err(message) => return Err(message.clone()),
    };
    let bytes = match &inputs.config_bytes {
        Ok(bytes) => bytes,
        Err(message) => return Err(message.clone()),
    };
    let config = match &inputs.config {
        Ok(config) => config,
        Err(message) => return Err(message.clone()),
    };
    match validate_failure_config(config, failure, os, arch) {
        Ok(()) => {},
        Err(message) => return Err(message),
    }
    match validate_failure_id(failure.id.as_str()) {
        Ok(()) => {},
        Err(message) => return Err(message),
    }
    let session = match session {
        Ok(session) => session,
        Err(message) => return Err(message.clone()),
    };
    if same(live.as_str(), failure.desired.patch_fingerprint.as_str()) {
        return match session {
            Some(_) => Ok(RepairEntry::Resume(last_good)),
            None => Ok(RepairEntry::Prepare(last_good)),
        };
    }
    let open = match session {
        Some(s) => Some(s),
        None => None,
    };
    let identity = match session {
        Some(s) => validate_session_identity(
            platform,
            worktrees,
            s,
            failure,
            bytes.as_slice(),
            facts,
        ),
        None => Ok(()),
    };
    match resume_changed_session(platform, failure, live.as_str(), &last_good, open, &identity) {
        Ok(generation) => Ok(RepairEntry::Activate(generation)),
        Err(message) => Err(message),
    }
}

/// Whether an open session may go on: it is the one for this failure, and neither the live
/// patches nor the last-good generation have changed.
pub fn check_open_session(
    platform: Platform,
    worktrees: &str,
    session: &RepairSession,
    failure: &FailureRecord,
    config: &[u8],
    facts: &SessionFacts,
    live_fingerprint: &str,
    last_good: &GenerationRef,
) -> (r: Result<(), String>)
    ensures
        result_unit(r) == (match identity_problem(
            platform,
            worktrees@,
            session@,
            failure@,
            config@,
            *facts,
        ) {
            Some(message) => Err(message),
            None => if live_fingerprint@ != session.desired.patch_fingerprint@ {
                Err(
                    "live patch stack changed during repair; discard the old repair and retry the new desired state"@,
                )
            } else if !same_generation(platform, session.last_good@, last_good@) {
                Err("pinned last-good generation changed during repair"@)
            } else {
                Ok(())
            },
        }),
{
    match validate_session_identity(platform, worktrees, session, failure, config, facts) {
        Ok(()) => {},
        Err(message) => return Err(message),
    }
    check_resumed_session(platform, session, live_fingerprint, last_good)
}

/// Whether the validated patches have replaced the live ones.
pub fn check_replaced(replaced: &Result<bool, String>) -> (r: Result<(), String>)
    ensures
        result_unit(r) == (match replaced {
            Err(message) => Err(message@),
            Ok(true) => Ok(()),
            Ok(false) => Err(
                "repair patch replacement was declined; validated generation remains staged"@,
            ),
        }),
{
    match replaced {
        Err(message) => Err(message.clone()),
        Ok(yes) => {
            if *yes {
                return Ok(());
            }
            Err(
                "repair patch replacement was declined; validated generation remains staged".to_owned(),
            )
        },
    }
}

/// A repair goes straight to its activation only when the live patches are the ones that it
/// has built and validated for this very failure.
pub proof fn only_validated_patches_skip_the_build(
    platform: Platform,
    state: StateView,
    failure: FailureView,
    inputs: RepairInputs,
    session: Result<Option<RepairSession>, String>,
    facts: SessionFacts,
    worktrees: Seq<char>,
    os: Seq<char>,
    arch: Seq<char>,
)
    requires
        opened(
            platform,
            state,
            failure,
            inputs,
            session,
            facts,
            worktrees,
            os,
            arch,
        ) matches Ok(entry)
            && entry is Activate,
    ensures
        session matches Ok(Some(s)) && s@.failure_id == failure.id && s@.desired == failure.desired
            && s@.validated_generation is Some && inputs.live->Ok_0@
            == s@.validated_generation->0.patch_fingerprint && same_generation(
            platform,
            s@.last_good,
            state.active->0,
        ),
{
}

} // verus!
