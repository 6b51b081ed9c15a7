//! How launchers are taken over, given back and repaired, and how a failed build is repaired,
//! step by step, in terms of what is known of each.

use vstd::prelude::*;

use crate::journal::{RepairDisposition, RepairOutcome, RestoreDisposition};
use crate::paths::Platform;
use crate::repair_run::{
    next_patch_of, next_run, Opening, PatchFacts, PatchStepView, RunFacts, RunStepView,
};
use crate::replacement::path_problem;
use crate::repair_session::{RepairStage, SessionStep};
use crate::transactions::{
    next_repair, next_restore, next_takeover, RepairFacts, RepairStepView, RestoreFacts,
    RestoreStepView, TakeoverFacts, TakeoverStepView,
};

verus! {

/// The step is known to have gone well.
pub open spec fn went_well(fact: Option<Result<(), String>>) -> bool {
    fact is Some && fact->0 is Ok
}

/// A takeover goes through its stages in one order. Each is done once all before it went well,
/// the first that fails ends it with its reason, and it is done when all went well.
pub proof fn takeovers_go_through_their_stages(f: TakeoverFacts)
    ensures
        ({
            let step = next_takeover(f);
            let valid = went_well(f.valid);
            let captured = valid && went_well(f.captured);
            let intended = captured && went_well(f.intended);
            let swapped = intended && went_well(f.swapped);
            let inspected = swapped && went_well(f.inspected);
            let completed = inspected && went_well(f.completed);
            &&& step is Validate <==> f.valid is None
            &&& f.valid matches Some(Err(why)) ==> step == (TakeoverStepView::Fail {
                message: why@,
            })
            &&& step is Capture <==> valid && f.captured is None
            &&& valid ==> (f.captured matches Some(Err(why)) ==> step == (
            TakeoverStepView::Fail { message: why@ }))
            &&& step is WriteIntent <==> captured && f.intended is None
            &&& captured ==> (f.intended matches Some(Err(why)) ==> step == (
            TakeoverStepView::Fail { message: why@ }))
            &&& step is Swap <==> intended && f.swapped is None
            &&& intended ==> (f.swapped matches Some(Err(why)) ==> step == (
            TakeoverStepView::Fail { message: why@ }))
            &&& step is Inspect <==> swapped && f.inspected is None
            &&& swapped ==> (f.inspected matches Some(Err(why)) ==> step == (
            TakeoverStepView::Fail { message: why@ }))
            &&& step is WriteCompletion <==> inspected && f.completed is None
            &&& inspected ==> (f.completed matches Some(Err(why)) ==> step == (
            TakeoverStepView::Fail { message: why@ }))
            &&& step is Done <==> completed
        }),
{
}

/// A restoration may look at the launcher: its journal was found, or was written after the
/// launcher was found to be the recorded shim.
pub open spec fn restoration_is_journaled(f: RestoreFacts) -> bool {
    f.resumed == Some(Ok::<bool, String>(true)) || (f.resumed == Some(Ok::<bool, String>(false))
        && went_well(f.prepared) && went_well(f.intended))
}

/// The launcher is the baseline, as far as is known: it was found so, or was swapped back.
pub open spec fn baseline_is_back(f: RestoreFacts) -> bool {
    went_well(f.recovered) && (f.disposition == Some(
        Ok::<RestoreDisposition, String>(RestoreDisposition::BaselinePresent),
    ) || (f.disposition == Some(
        Ok::<RestoreDisposition, String>(RestoreDisposition::RetryInstalledShim),
    ) && went_well(f.swapped)))
}

/// A restoration goes on from its journal, or prepares one. It swaps the launcher back where the
/// recorded shim stands there and leaves it where the baseline does, and is done once the
/// baseline was verified and the journal completed. What fails ends it with its reason.
pub proof fn restorations_go_through_their_stages(f: RestoreFacts)
    ensures
        ({
            let step = next_restore(f);
            let fresh = f.resumed == Some(Ok::<bool, String>(false));
            let journaled = restoration_is_journaled(f);
            let shim = f.disposition == Some(
                Ok::<RestoreDisposition, String>(RestoreDisposition::RetryInstalledShim),
            );
            let back = journaled && baseline_is_back(f);
            &&& step is FindJournal <==> f.resumed is None
            &&& f.resumed matches Some(Err(why))
                ==> step == (RestoreStepView::Fail { message: why@ })
            &&& step is Prepare <==> fresh && f.prepared is None
            &&& fresh ==> (f.prepared matches Some(Err(why))
                ==> step == (RestoreStepView::Fail { message: why@ }))
            &&& step is WriteIntent <==> fresh && went_well(f.prepared) && f.intended is None
            &&& fresh && went_well(f.prepared) ==> (f.intended matches Some(Err(why))
                ==> step == (RestoreStepView::Fail { message: why@ }))
            &&& step is Recover <==> journaled && f.recovered is None
            &&& journaled ==> (f.recovered matches Some(Err(why))
                ==> step == (RestoreStepView::Fail { message: why@ }))
            &&& step is Classify <==> journaled && went_well(f.recovered) && f.disposition is None
            &&& journaled && went_well(f.recovered) ==> (f.disposition matches Some(Err(why))
                ==> step == (RestoreStepView::Fail { message: why@ }))
            &&& step is SwapBack
                <==> journaled && went_well(f.recovered) && shim && f.swapped is None
            &&& journaled && went_well(f.recovered) && shim ==> (f.swapped matches Some(Err(why))
                ==> step == (RestoreStepView::Fail { message: why@ }))
            &&& step is Verify <==> back && f.verified is None
            &&& back ==> (f.verified matches Some(Err(why))
                ==> step == (RestoreStepView::Fail { message: why@ }))
            &&& step is WriteCompletion <==> back && went_well(f.verified) && f.completed is None
            &&& back && went_well(f.verified) ==> (f.completed matches Some(Err(why))
                ==> step == (RestoreStepView::Fail { message: why@ }))
            &&& step is Done <==> back && went_well(f.verified) && went_well(f.completed)
        }),
{
}

/// A repair may look at the launcher: its journal was found, or was written after the launcher
/// was found to need a repair.
pub open spec fn repair_is_journaled(f: RepairFacts) -> bool {
    f.resumed == Some(Ok::<bool, String>(true)) || (f.resumed == Some(Ok::<bool, String>(false))
        && needs_repair(f) && went_well(f.prepared) && went_well(f.intended))
}

/// The launcher was found to need a repair.
pub open spec fn needs_repair(f: RepairFacts) -> bool {
    f.chosen == Some(Ok::<RepairOutcome, String>(RepairOutcome::ReinstalledOwned)) || f.chosen
        == Some(Ok::<RepairOutcome, String>(RepairOutcome::ReinstalledBaseline)) || f.chosen
        == Some(Ok::<RepairOutcome, String>(RepairOutcome::AdoptedAndReinstalled))
}

/// The shim stands at the launcher, as far as is known: it was found there, or was swapped in.
pub open spec fn shim_is_there(f: RepairFacts) -> bool {
    went_well(f.recovered) && (f.disposition == Some(
        Ok::<RepairDisposition, String>(RepairDisposition::ManagerPresent),
    ) || (f.disposition == Some(
        Ok::<RepairDisposition, String>(RepairDisposition::RetryObserved),
    ) && went_well(f.swapped)))
}

/// The repair of a launcher goes on from its journal, or chooses and prepares one. A launcher
/// that needs none is left unchanged. It swaps the shim in where what was observed still stands
/// there, and is done once the shim was verified and the journal completed. What fails ends it
/// with its reason.
pub proof fn repairs_go_through_their_stages(f: RepairFacts)
    ensures
        ({
            let step = next_repair(f);
            let fresh = f.resumed == Some(Ok::<bool, String>(false));
            let needed = fresh && needs_repair(f);
            let journaled = repair_is_journaled(f);
            let observed = f.disposition == Some(
                Ok::<RepairDisposition, String>(RepairDisposition::RetryObserved),
            );
            let there = journaled && shim_is_there(f);
            &&& step is FindJournal <==> f.resumed is None
            &&& f.resumed matches Some(Err(why))
                ==> step == (RepairStepView::Fail { message: why@ })
            &&& step is Choose <==> fresh && f.chosen is None
            &&& fresh ==> (f.chosen matches Some(Err(why))
                ==> step == (RepairStepView::Fail { message: why@ }))
            &&& step is Unchanged <==> fresh && f.chosen == Some(
                Ok::<RepairOutcome, String>(RepairOutcome::Unchanged),
            )
            &&& step is Prepare <==> needed && f.prepared is None
            &&& needed ==> (f.prepared matches Some(Err(why))
                ==> step == (RepairStepView::Fail { message: why@ }))
            &&& step is WriteIntent <==> needed && went_well(f.prepared) && f.intended is None
            &&& needed && went_well(f.prepared) ==> (f.intended matches Some(Err(why))
                ==> step == (RepairStepView::Fail { message: why@ }))
            &&& step is Recover <==> journaled && f.recovered is None
            &&& journaled ==> (f.recovered matches Some(Err(why))
                ==> step == (RepairStepView::Fail { message: why@ }))
            &&& step is Classify <==> journaled && went_well(f.recovered) && f.disposition is None
            &&& journaled && went_well(f.recovered) ==> (f.disposition matches Some(Err(why))
                ==> step == (RepairStepView::Fail { message: why@ }))
            &&& step is UseRecord <==> journaled && went_well(f.recovered) && f.disposition == Some(
                Ok::<RepairDisposition, String>(RepairDisposition::CompletedRecordOnly),
            )
            &&& step is Swap
                <==> journaled && went_well(f.recovered) && observed && f.swapped is None
            &&& journaled && went_well(f.recovered) && observed
                ==> (f.swapped matches Some(Err(why))
                ==> step == (RepairStepView::Fail { message: why@ }))
            &&& step is Verify <==> there && f.verified is None
            &&& there ==> (f.verified matches Some(Err(why))
                ==> step == (RepairStepView::Fail { message: why@ }))
            &&& step is WriteCompletion <==> there && went_well(f.verified) && f.completed is None
            &&& there && went_well(f.verified) ==> (f.completed matches Some(Err(why))
                ==> step == (RepairStepView::Fail { message: why@ }))
            &&& step is Done <==> there && went_well(f.verified) && went_well(f.completed)
        }),
{
}

/// The stages of the session can be worked on: it was prepared or found again, and checked, and
/// none of them is stuck.
pub open spec fn session_is_open(f: RunFacts) -> bool {
    (f.opened == Some(Ok::<Opening, String>(Opening::Prepare)) || f.opened == Some(
        Ok::<Opening, String>(Opening::Resume),
    )) && went_well(f.entered) && went_well(f.checked) && f.stuck is None
}

/// Every patch of the session is committed.
pub open spec fn all_is_committed(stage: RepairStage) -> bool {
    stage is ReadyToBuild
}

/// The repaired stack was built, validated and recorded.
pub open spec fn stack_is_validated(stage: RepairStage, f: RunFacts) -> bool {
    session_is_open(f) && all_is_committed(stage) && went_well(f.exported) && went_well(f.written)
        && went_well(f.current) && went_well(f.built) && went_well(f.recorded)
}

/// The repaired patches are the live ones.
pub open spec fn patches_are_live(stage: RepairStage, f: RunFacts) -> bool {
    f.opened == Some(Ok::<Opening, String>(Opening::Activate)) || (stack_is_validated(stage, f)
        && f.replaced == Some(Ok::<bool, String>(true)))
}

/// The repair of a build opens its session, works on its stages until all is committed, exports,
/// builds, validates and records the stack, replaces the live patches where the user agrees, and
/// activates what it validated. What fails ends it with its reason.
pub proof fn build_repairs_go_through_their_stages(stage: RepairStage, f: RunFacts)
    ensures
        ({
            let step = next_run(stage, f);
            let new = f.opened == Some(Ok::<Opening, String>(Opening::Prepare));
            let old_one = f.opened == Some(Ok::<Opening, String>(Opening::Resume));
            let ready = session_is_open(f) && stage is ReadyToBuild;
            let exported = ready && went_well(f.exported);
            let written = exported && went_well(f.written);
            let current = written && went_well(f.current);
            let built = current && went_well(f.built);
            let validated = stack_is_validated(stage, f);
            let live = patches_are_live(stage, f);
            &&& step is Open <==> f.opened is None
            &&& f.opened matches Some(Err(why)) ==> step == (RunStepView::Fail { message: why@ })
            &&& step is PrepareSession <==> new && f.entered is None
            &&& step is RememberWorktree <==> old_one && f.entered is None
            &&& new || old_one ==> (f.entered matches Some(Err(why))
                ==> step == (RunStepView::Fail { message: why@ }))
            &&& step is CheckSession
                <==> (new || old_one) && went_well(f.entered) && f.checked is None
            &&& (new || old_one) && went_well(f.entered) ==> (f.checked matches Some(Err(why))
                ==> step == (RunStepView::Fail { message: why@ }))
            &&& (new || old_one) && went_well(f.entered) && went_well(f.checked)
                ==> (f.stuck matches Some(why)
                ==> step == (RunStepView::Fail { message: why@ }))
            &&& step is Work <==> session_is_open(f) && !(stage is ReadyToBuild)
            &&& step matches RunStepView::Work(work) ==> {
                &&& stage is BuildRepair <==> work is RepairBuild
                &&& stage matches RepairStage::Applying { next_index, conflicted_index } ==> {
                    &&& conflicted_index is None <==> work is Apply
                    &&& conflicted_index matches Some(index) ==> work
                        == SessionStep::ResolveConflict(index)
                }
            }
            &&& step is Export <==> ready && f.exported is None
            &&& ready ==> (f.exported matches Some(Err(why)) ==> step == (
            RunStepView::Fail { message: why@ }))
            &&& step is WriteCandidate <==> exported && f.written is None
            &&& exported ==> (f.written matches Some(Err(why)) ==> step == (
            RunStepView::Fail { message: why@ }))
            &&& step is CheckCurrent <==> written && f.current is None
            &&& written ==> (f.current matches Some(Err(why)) ==> step == (
            RunStepView::Fail { message: why@ }))
            &&& step is Build <==> current && f.built is None
            &&& current ==> (f.built matches Some(Err(why)) ==> step == (
            RunStepView::Fail { message: why@ }))
            &&& step is RecordValidated <==> built && f.recorded is None
            &&& built ==> (f.recorded matches Some(Err(why)) ==> step == (
            RunStepView::Fail { message: why@ }))
            &&& step is Replace <==> validated && f.replaced is None
            &&& validated ==> (f.replaced matches Some(Err(why))
                ==> step == (RunStepView::Fail { message: why@ }))
            &&& validated ==> (f.replaced matches Some(Ok(agreed)) ==> (!agreed
                ==> step == (RunStepView::Fail {
                message:
                    "repair patch replacement was declined; validated generation remains staged"@,
            })))
            &&& step is Revalidate <==> live && f.revalidated is None
            &&& live ==> (f.revalidated matches Some(Err(why))
                ==> step == (RunStepView::Fail { message: why@ }))
            &&& step is Activate <==> live && went_well(f.revalidated) && f.activated is None
            &&& live && went_well(f.revalidated) ==> (f.activated matches Some(Err(why))
                ==> step == (RunStepView::Fail { message: why@ }))
            &&& step is Done <==> live && went_well(f.revalidated) && went_well(f.activated)
        }),
{
}

/// What may be committed: the index differs from the last commit, by a path of the worktree.
pub open spec fn may_commit(platform: Platform, path: Seq<char>, f: PatchFacts) -> bool {
    f.compared matches Some(Ok((code, _))) && code == Some(1i32)
        && path_problem(platform, path) is None
}

/// A patch that applies as it is is applied to the index, compared and committed. Any other is
/// applied in part and leaves reject files, or stays as one itself; the worktree must hold none
/// before. What fails ends it with its reason.
pub proof fn patches_are_committed_or_left(platform: Platform, path: Seq<char>, f: PatchFacts)
    ensures
        ({
            let step = next_patch_of(platform, path, f);
            let applies = f.checked == Some(Ok::<bool, String>(true));
            let conflicts = f.checked == Some(Ok::<bool, String>(false));
            let applied = applies && f.applied == Some(Ok::<bool, String>(true));
            let clean = conflicts && (f.rejects matches Some(Ok(before)) && before@.len() == 0);
            let tried = clean && went_well(f.rejected);
            let nothing_left = tried && (f.left matches Some(Ok(left)) && left@.len() == 0);
            &&& step is Check <==> f.checked is None
            &&& f.checked matches Some(Err(why)) ==> step == (PatchStepView::Fail { message: why@ })
            &&& step is Apply <==> applies && f.applied is None
            &&& applies ==> (f.applied matches Some(Err(why))
                ==> step == (PatchStepView::Fail { message: why@ }))
            &&& applies && f.applied == Some(Ok::<bool, String>(false)) ==> step is Fail
            &&& step is Compare <==> applied && f.compared is None
            &&& applied ==> (f.compared matches Some(Err(why))
                ==> step == (PatchStepView::Fail { message: why@ }))
            &&& applied && (f.compared matches Some(Ok(_))) && !may_commit(platform, path, f)
                ==> step is Fail
            &&& step is Commit <==> applied && may_commit(platform, path, f) && f.committed is None
            &&& applied && may_commit(platform, path, f) ==> (f.committed matches Some(Err(why))
                ==> step == (PatchStepView::Fail { message: why@ }))
            &&& step is Committed <==> applied && may_commit(platform, path, f) && went_well(
                f.committed,
            )
            &&& step is ListRejects <==> conflicts && f.rejects is None
            &&& conflicts ==> (f.rejects matches Some(Err(why))
                ==> step == (PatchStepView::Fail { message: why@ }))
            &&& conflicts ==> (f.rejects matches Some(Ok(before)) ==> (before@.len() > 0 ==> step
                == (PatchStepView::Fail { message: "repair worktree already contains rejects"@ })))
            &&& step is Reject <==> clean && f.rejected is None
            &&& clean ==> (f.rejected matches Some(Err(why))
                ==> step == (PatchStepView::Fail { message: why@ }))
            &&& step is ListLeft <==> tried && f.left is None
            &&& tried ==> (f.left matches Some(Err(why))
                ==> step == (PatchStepView::Fail { message: why@ }))
            &&& step is KeepPatch <==> nothing_left && f.kept is None
            &&& nothing_left ==> (f.kept matches Some(Err(why))
                ==> step == (PatchStepView::Fail { message: why@ }))
            &&& step is Conflicted <==> (nothing_left && went_well(f.kept)) || (tried && (
            f.left matches Some(Ok(left)) && left@.len() > 0))
        }),
{
}

} // verus!
