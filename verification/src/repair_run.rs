//! The course of a repair: from opening its session to the activation of what was
//! repaired.

use vstd::prelude::*;

use crate::repair_session::{
    check_applied, check_commit, check_replaced, commit_problem, session_step, RepairStage,
    SessionStep,
};
use crate::paths::Platform;

verus! {

/// How a repair was opened.
#[derive(Debug, Clone, Copy, PartialEq, Eq, Structural)]
pub enum Opening {
    /// The live patches are those of a validated repair: only its activation is left.
    Activate,
    Prepare,
    Resume,
}

/// How a repair went, as far as it has come.
#[derive(Debug)]
pub struct RunFacts {
    pub opened: Option<Result<Opening, String>>,
    /// The session was prepared, or the worktree of the persisted one is on record.
    pub entered: Option<Result<(), String>>,
    /// Whether the session is the one for this failure, and nothing has changed since.
    pub checked: Option<Result<(), String>>,
    /// Why a stage of the session could not be worked on.
    pub stuck: Option<String>,
    /// The commits were exported as patches.
    pub exported: Option<Result<(), String>>,
    /// The exported stack was written down as a candidate.
    pub written: Option<Result<(), String>>,
    /// Whether the inputs are still those of the session.
    pub current: Option<Result<(), String>>,
    /// The candidate was built and validated; a failure is on record for the next run.
    pub built: Option<Result<(), String>>,
    /// The validated generation is on record.
    pub recorded: Option<Result<(), String>>,
    /// Whether the candidate has replaced the live patches.
    pub replaced: Option<Result<bool, String>>,
    /// Whether the generation is still what was validated.
    pub revalidated: Option<Result<(), String>>,
    pub activated: Option<Result<(), String>>,
}

impl RunFacts {
    /// Nothing is known yet.
    pub fn new() -> (r: Self)
        ensures
            r.opened is None,
            r.entered is None,
            r.checked is None,
            r.stuck is None,
            r.exported is None,
            r.written is None,
            r.current is None,
            r.built is None,
            r.recorded is None,
            r.replaced is None,
            r.revalidated is None,
            r.activated is None,
    {
        RunFacts {
            opened: None,
            entered: None,
            checked: None,
            stuck: None,
            exported: None,
            written: None,
            current: None,
            built: None,
            recorded: None,
            replaced: None,
            revalidated: None,
            activated: None,
        }
    }
}

/// What a repair does next.
#[derive(Debug)]
pub enum RunStep {
    Open,
    PrepareSession,
    RememberWorktree,
    CheckSession,
    Work(SessionStep),
    Export,
    WriteCandidate,
    CheckCurrent,
    Build,
    RecordValidated,
    Replace,
    Revalidate,
    Activate,
    Done,
    Fail { message: String },
}

pub enum RunStepView {
    Open,
    PrepareSession,
    RememberWorktree,
    CheckSession,
    Work(SessionStep),
    Export,
    WriteCandidate,
    CheckCurrent,
    Build,
    RecordValidated,
    Replace,
    Revalidate,
    Activate,
    Done,
    Fail { message: Seq<char> },
}

impl View for RunStep {
    type V = RunStepView;

    open spec fn view(&self) -> RunStepView {
        match self {
            RunStep::Open => RunStepView::Open,
            RunStep::PrepareSession => RunStepView::PrepareSession,
            RunStep::RememberWorktree => RunStepView::RememberWorktree,
            RunStep::CheckSession => RunStepView::CheckSession,
            RunStep::Work(step) => RunStepView::Work(*step),
            RunStep::Export => RunStepView::Export,
            RunStep::WriteCandidate => RunStepView::WriteCandidate,
            RunStep::CheckCurrent => RunStepView::CheckCurrent,
            RunStep::Build => RunStepView::Build,
            RunStep::RecordValidated => RunStepView::RecordValidated,
            RunStep::Replace => RunStepView::Replace,
            RunStep::Revalidate => RunStepView::Revalidate,
            RunStep::Activate => RunStepView::Activate,
            RunStep::Done => RunStepView::Done,
            RunStep::Fail { message } => RunStepView::Fail { message: message@ },
        }
    }
}

/// What comes after a step: the step itself while nothing is known of it.
pub open spec fn then_run(
    fact: Option<Result<(), String>>,
    step: RunStepView,
    next: RunStepView,
) -> RunStepView {
    match fact {
        None => step,
        Some(Err(message)) => RunStepView::Fail { message: message@ },
        Some(Ok(_)) => next,
    }
}

pub open spec fn declined_message() -> Seq<char> {
    "repair patch replacement was declined; validated generation remains staged"@
}

/// The end of every repair.
pub open spec fn run_end(f: RunFacts) -> RunStepView {
    then_run(
        f.revalidated,
        RunStepView::Revalidate,
        then_run(f.activated, RunStepView::Activate, RunStepView::Done),
    )
}

/// Once every stage of the session is done: the stack is exported, built and validated, and
/// only then are the live patches replaced.
pub open spec fn run_build(f: RunFacts) -> RunStepView {
    then_run(
        f.exported,
        RunStepView::Export,
        then_run(
            f.written,
            RunStepView::WriteCandidate,
            then_run(
                f.current,
                RunStepView::CheckCurrent,
                then_run(
                    f.built,
                    RunStepView::Build,
                    then_run(
                        f.recorded,
                        RunStepView::RecordValidated,
                        match f.replaced {
                            None => RunStepView::Replace,
                            Some(Err(message)) => RunStepView::Fail { message: message@ },
                            Some(Ok(false)) => RunStepView::Fail { message: declined_message() },
                            Some(Ok(true)) => run_end(f),
                        },
                    ),
                ),
            ),
        ),
    )
}

/// Once the session is open: its stages are worked on until it can be built.
pub open spec fn run_session(stage: RepairStage, f: RunFacts) -> RunStepView {
    then_run(
        f.checked,
        RunStepView::CheckSession,
        if f.stuck is Some {
            RunStepView::Fail { message: f.stuck->0@ }
        } else if session_step(stage) == SessionStep::Build {
            run_build(f)
        } else {
            RunStepView::Work(session_step(stage))
        },
    )
}

pub open spec fn next_run(stage: RepairStage, f: RunFacts) -> RunStepView {
    match f.opened {
        None => RunStepView::Open,
        Some(Err(message)) => RunStepView::Fail { message: message@ },
        Some(Ok(Opening::Activate)) => run_end(f),
        Some(Ok(Opening::Prepare)) => then_run(
            f.entered,
            RunStepView::PrepareSession,
            run_session(stage, f),
        ),
        Some(Ok(Opening::Resume)) => then_run(
            f.entered,
            RunStepView::RememberWorktree,
            run_session(stage, f),
        ),
    }
}

fn next_run_end(facts: &RunFacts) -> (r: RunStep)
    ensures
        r@ == run_end(*facts),
{
    match &facts.revalidated {
        None => return RunStep::Revalidate,
        Some(Err(message)) => return RunStep::Fail { message: message.clone() },
        Some(Ok(())) => {},
    }
    match &facts.activated {
        None => RunStep::Activate,
        Some(Err(message)) => RunStep::Fail { message: message.clone() },
        Some(Ok(())) => RunStep::Done,
    }
}

fn next_run_build(facts: &RunFacts) -> (r: RunStep)
    ensures
        r@ == run_build(*facts),
{
    match &facts.exported {
        None => return RunStep::Export,
        Some(Err(message)) => return RunStep::Fail { message: message.clone() },
        Some(Ok(())) => {},
    }
    match &facts.written {
        None => return RunStep::WriteCandidate,
        Some(Err(message)) => return RunStep::Fail { message: message.clone() },
        Some(Ok(())) => {},
    }
    match &facts.current {
        None => return RunStep::CheckCurrent,
        Some(Err(message)) => return RunStep::Fail { message: message.clone() },
        Some(Ok(())) => {},
    }
    match &facts.built {
        None => return RunStep::Build,
        Some(Err(message)) => return RunStep::Fail { message: message.clone() },
        Some(Ok(())) => {},
    }
    match &facts.recorded {
        None => return RunStep::RecordValidated,
        Some(Err(message)) => return RunStep::Fail { message: message.clone() },
        Some(Ok(())) => {},
    }
    match &facts.replaced {
        None => RunStep::Replace,
        Some(replaced) => match check_replaced(replaced) {
            Err(message) => RunStep::Fail { message },
            Ok(()) => next_run_end(facts),
        },
    }
}

fn next_run_session(stage: RepairStage, facts: &RunFacts) -> (r: RunStep)
    ensures
        r@ == run_session(stage, *facts),
{
    match &facts.checked {
        None => return RunStep::CheckSession,
        Some(Err(message)) => return RunStep::Fail { message: message.clone() },
        Some(Ok(())) => {},
    }
    match &facts.stuck {
        Some(message) => return RunStep::Fail { message: message.clone() },
        None => {},
    }
    match stage {
        RepairStage::Applying { next_index: _, conflicted_index: Some(index) } => RunStep::Work(
            SessionStep::ResolveConflict(index),
        ),
        RepairStage::Applying { next_index: _, conflicted_index: None } => RunStep::Work(
            SessionStep::Apply,
        ),
        RepairStage::BuildRepair => RunStep::Work(SessionStep::RepairBuild),
        RepairStage::ReadyToBuild => next_run_build(facts),
    }
}

/// What a repair does next. `stage` is the stage of its session.
pub fn next_run_step(stage: RepairStage, facts: &RunFacts) -> (r: RunStep)
    ensures
        r@ == next_run(stage, *facts),
{
    let opening = match &facts.opened {
        None => return RunStep::Open,
        Some(Err(message)) => return RunStep::Fail { message: message.clone() },
        Some(Ok(opening)) => *opening,
    };
    if opening == Opening::Activate {
        return next_run_end(facts);
    }
    match &facts.entered {
        None => if opening == Opening::Prepare {
            RunStep::PrepareSession
        } else {
            RunStep::RememberWorktree
        },
        Some(Err(message)) => RunStep::Fail { message: message.clone() },
        Some(Ok(())) => next_run_session(stage, facts),
    }
}

/// The live patches are replaced only by a stack that was built and validated while the
/// inputs were those of the session, and that generation is on record by then.
pub proof fn only_validated_stacks_replace_the_patches(stage: RepairStage, f: RunFacts)
    requires
        next_run(stage, f) is Replace,
    ensures
        f.checked matches Some(Ok(_)),
        f.current matches Some(Ok(_)),
        f.built matches Some(Ok(_)),
        f.recorded matches Some(Ok(_)),
        stage is ReadyToBuild,
{
}

/// A repaired generation is activated only once it has been validated again, and its patches
/// are the live ones: the user has let them be replaced, or they were found in place.
pub proof fn activation_follows_the_replacement(stage: RepairStage, f: RunFacts)
    requires
        next_run(stage, f) is Activate,
    ensures
        f.revalidated matches Some(Ok(_)),
        f.opened == Some(Ok::<Opening, String>(Opening::Activate)) || f.replaced == Some(
            Ok::<bool, String>(true),
        ),
{
}

/// How a patch of the session went, as far as it has come.
#[derive(Debug)]
pub struct PatchFacts {
    /// Whether the patch applies as it is.
    pub checked: Option<Result<bool, String>>,
    /// Whether it was applied to the index.
    pub applied: Option<Result<bool, String>>,
    /// How the comparison of the index with the last commit ended.
    pub compared: Option<Result<(Option<i32>, String), String>>,
    pub committed: Option<Result<(), String>>,
    /// The reject files from before the patch is tried in part.
    pub rejects: Option<Result<Vec<String>, String>>,
    /// What applies of it was applied, and the rest left as reject files.
    pub rejected: Option<Result<(), String>>,
    /// The reject files that it left.
    pub left: Option<Result<Vec<String>, String>>,
    /// The whole patch was left as a reject file.
    pub kept: Option<Result<(), String>>,
}

impl PatchFacts {
    /// Nothing is known yet.
    pub fn new() -> (r: Self)
        ensures
            r.checked is None,
            r.applied is None,
            r.compared is None,
            r.committed is None,
            r.rejects is None,
            r.rejected is None,
            r.left is None,
            r.kept is None,
    {
        PatchFacts {
            checked: None,
            applied: None,
            compared: None,
            committed: None,
            rejects: None,
            rejected: None,
            left: None,
            kept: None,
        }
    }
}

/// What is done next about a patch.
#[derive(Debug)]
pub enum PatchStep {
    Check,
    Apply,
    Compare,
    Commit,
    /// The patch is committed.
    Committed,
    ListRejects,
    Reject,
    ListLeft,
    KeepPatch,
    /// The patch is in conflict.
    Conflicted,
    Fail { message: String },
}

pub enum PatchStepView {
    Check,
    Apply,
    Compare,
    Commit,
    Committed,
    ListRejects,
    Reject,
    ListLeft,
    KeepPatch,
    Conflicted,
    Fail { message: Seq<char> },
}

impl View for PatchStep {
    type V = PatchStepView;

    open spec fn view(&self) -> PatchStepView {
        match self {
            PatchStep::Check => PatchStepView::Check,
            PatchStep::Apply => PatchStepView::Apply,
            PatchStep::Compare => PatchStepView::Compare,
            PatchStep::Commit => PatchStepView::Commit,
            PatchStep::Committed => PatchStepView::Committed,
            PatchStep::ListRejects => PatchStepView::ListRejects,
            PatchStep::Reject => PatchStepView::Reject,
            PatchStep::ListLeft => PatchStepView::ListLeft,
            PatchStep::KeepPatch => PatchStepView::KeepPatch,
            PatchStep::Conflicted => PatchStepView::Conflicted,
            PatchStep::Fail { message } => PatchStepView::Fail { message: message@ },
        }
    }
}

/// A patch that applies is applied to the index and committed.
pub open spec fn patch_applies(
    platform: Platform,
    path: Seq<char>,
    f: PatchFacts,
) -> PatchStepView {
    match f.applied {
        None => PatchStepView::Apply,
        Some(Err(message)) => PatchStepView::Fail { message: message@ },
        Some(Ok(false)) => PatchStepView::Fail {
            message: "git apply --index failed after a successful check for "@ + path,
        },
        Some(Ok(true)) => match f.compared {
            None => PatchStepView::Compare,
            Some(Err(message)) => PatchStepView::Fail { message: message@ },
            Some(Ok((code, status))) => match commit_problem(platform, path, code, status@) {
                Some(message) => PatchStepView::Fail { message },
                None => match f.committed {
                    None => PatchStepView::Commit,
                    Some(Err(message)) => PatchStepView::Fail { message: message@ },
                    Some(Ok(_)) => PatchStepView::Committed,
                },
            },
        },
    }
}

/// A patch that does not apply leaves reject files, or itself as one.
pub open spec fn patch_conflicts(f: PatchFacts) -> PatchStepView {
    match f.rejects {
        None => PatchStepView::ListRejects,
        Some(Err(message)) => PatchStepView::Fail { message: message@ },
        Some(Ok(rejects)) => if rejects@.len() > 0 {
            PatchStepView::Fail { message: "repair worktree already contains rejects"@ }
        } else {
            match f.rejected {
                None => PatchStepView::Reject,
                Some(Err(message)) => PatchStepView::Fail { message: message@ },
                Some(Ok(_)) => match f.left {
                    None => PatchStepView::ListLeft,
                    Some(Err(message)) => PatchStepView::Fail { message: message@ },
                    Some(Ok(left)) => if left@.len() > 0 {
                        PatchStepView::Conflicted
                    } else {
                        match f.kept {
                            None => PatchStepView::KeepPatch,
                            Some(Err(message)) => PatchStepView::Fail { message: message@ },
                            Some(Ok(_)) => PatchStepView::Conflicted,
                        }
                    },
                },
            }
        },
    }
}

pub open spec fn next_patch_of(
    platform: Platform,
    path: Seq<char>,
    f: PatchFacts,
) -> PatchStepView {
    match f.checked {
        None => PatchStepView::Check,
        Some(Err(message)) => PatchStepView::Fail { message: message@ },
        Some(Ok(true)) => patch_applies(platform, path, f),
        Some(Ok(false)) => patch_conflicts(f),
    }
}

fn next_of_applying(platform: Platform, path: &str, facts: &PatchFacts) -> (r: PatchStep)
    ensures
        r@ == patch_applies(platform, path@, *facts),
{
    match &facts.applied {
        None => return PatchStep::Apply,
        Some(Err(message)) => return PatchStep::Fail { message: message.clone() },
        Some(Ok(success)) => match check_applied(*success, path) {
            Err(message) => return PatchStep::Fail { message },
            Ok(()) => {},
        },
    }
    match &facts.compared {
        None => return PatchStep::Compare,
        Some(Err(message)) => return PatchStep::Fail { message: message.clone() },
        Some(Ok((code, status))) => match check_commit(platform, path, *code, status.as_str()) {
            Err(message) => return PatchStep::Fail { message },
            Ok(()) => {},
        },
    }
    match &facts.committed {
        None => PatchStep::Commit,
        Some(Err(message)) => PatchStep::Fail { message: message.clone() },
        Some(Ok(())) => PatchStep::Committed,
    }
}

fn next_of_conflict(facts: &PatchFacts) -> (r: PatchStep)
    ensures
        r@ == patch_conflicts(*facts),
{
    match &facts.rejects {
        None => return PatchStep::ListRejects,
        Some(Err(message)) => return PatchStep::Fail { message: message.clone() },
        Some(Ok(rejects)) => {
            if rejects.len() > 0 {
                return PatchStep::Fail {
                    message: "repair worktree already contains rejects".to_owned(),
                };
            }
        },
    }
    match &facts.rejected {
        None => return PatchStep::Reject,
        Some(Err(message)) => return PatchStep::Fail { message: message.clone() },
        Some(Ok(())) => {},
    }
    match &facts.left {
        None => return PatchStep::ListLeft,
        Some(Err(message)) => return PatchStep::Fail { message: message.clone() },
        Some(Ok(left)) => {
            if left.len() > 0 {
                return PatchStep::Conflicted;
            }
        },
    }
    match &facts.kept {
        None => PatchStep::KeepPatch,
        Some(Err(message)) => PatchStep::Fail { message: message.clone() },
        Some(Ok(())) => PatchStep::Conflicted,
    }
}

/// What is done next about the patch at `path`.
pub fn next_patch_step(platform: Platform, path: &str, facts: &PatchFacts) -> (r: PatchStep)
    ensures
        r@ == next_patch_of(platform, path@, *facts),
{
    match &facts.checked {
        None => PatchStep::Check,
        Some(Err(message)) => PatchStep::Fail { message: message.clone() },
        Some(Ok(applies)) => {
            if *applies {
                next_of_applying(platform, path, facts)
            } else {
                next_of_conflict(facts)
            }
        },
    }
}

/// A patch is committed only as it is: it has passed its check and was applied to the index,
/// with nothing fuzzy in between.
pub proof fn patches_are_committed_strictly(platform: Platform, path: Seq<char>, f: PatchFacts)
    requires
        next_patch_of(platform, path, f) is Commit || next_patch_of(platform, path, f) is Committed,
    ensures
        f.checked == Some(Ok::<bool, String>(true)),
        f.applied == Some(Ok::<bool, String>(true)),
{
}

/// A conflict always leaves something to resolve.
pub proof fn conflicts_leave_rejects(platform: Platform, path: Seq<char>, f: PatchFacts)
    requires
        next_patch_of(platform, path, f) is Conflicted,
    ensures
        (f.left matches Some(Ok(left)) && left@.len() > 0) || f.kept matches Some(Ok(_)),
{
}

} // verus!
