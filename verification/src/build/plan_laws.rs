//! What a build does, stage by stage, in terms of what is known of it.

use vstd::prelude::*;

use crate::build::plan::{next_step, BuildFacts, BuildPhase, BuildPlan, BuildStepView, Existing};

verus! {

/// The generation has to be built: none stands there, a rebuild is forced, or the corrupt one
/// that stands there is built again.
pub open spec fn must_build(plan: BuildPlan, facts: BuildFacts) -> bool {
    match facts.existing {
        None => false,
        Some(Existing::Absent) => true,
        Some(Existing::Valid) => plan.force_rebuild,
        Some(Existing::Corrupt(_)) => plan.retry || plan.force_rebuild,
    }
}

/// What was fetched is the object and the commit that were resolved.
pub open spec fn fetched_as_resolved(plan: BuildPlan, facts: BuildFacts) -> bool {
    facts.fetched matches Some(Ok(fetched)) && fetched.0@ == plan.desired.source.ref_object_oid@
        && fetched.1@ == plan.desired.source.commit_oid@
}

/// A nightly takes the place of another nightly.
pub open spec fn moves_nightly(plan: BuildPlan) -> bool {
    plan.desired.source.channel@ == "nightly"@ && (plan.previous matches Some(previous)
        && previous.source.channel@ == "nightly"@ && previous.source.commit_oid@
        != plan.desired.source.commit_oid@)
}

/// The source may be built: it is the resolved one, and a nightly descends from the one that
/// runs, or the user accepts that it does not.
pub open spec fn source_ready(plan: BuildPlan, facts: BuildFacts) -> bool {
    must_build(plan, facts) && fetched_as_resolved(plan, facts) && (moves_nightly(plan) ==> (
    facts.descends matches Some(Ok(descends)) && (descends || plan.allow_force_push)))
}

/// The worktree holds the source with every patch.
pub open spec fn worktree_ready(plan: BuildPlan, facts: BuildFacts) -> bool {
    source_ready(plan, facts) && (facts.checkout matches Some(Ok(_))) && (
    facts.version_before matches Some(Ok(_))) && facts.applied >= plan.patch_count
}

/// The package may be built: the patched source has the right version, and the patch stack is
/// still the one that was asked for.
pub open spec fn builder_ready(plan: BuildPlan, facts: BuildFacts) -> bool {
    worktree_ready(plan, facts) && (facts.version_after matches Some(Ok(_))) && (
    facts.live_before matches Some(Ok(live)) && live@ == plan.patch_fingerprint@)
}

/// The package is built and valid, and the patch stack still is the one that was asked for.
pub open spec fn package_ready(plan: BuildPlan, facts: BuildFacts) -> bool {
    builder_ready(plan, facts) && (facts.builder matches Some(Ok(_))) && (
    facts.package matches Some(Ok(_))) && (facts.live_after matches Some(Ok(live)) && live@
        == plan.patch_fingerprint@)
}

/// What stands in the place is looked at first. A valid generation is used as it is unless a
/// rebuild is forced, and a corrupt one fails the build unless it is built again.
pub proof fn builds_look_before_they_start(plan: BuildPlan, facts: BuildFacts, root: Seq<char>)
    ensures
        next_step(plan, facts, root) is LookForExisting <==> facts.existing is None,
        next_step(plan, facts, root) is Reuse <==> (facts.existing matches Some(Existing::Valid))
            && !plan.force_rebuild,
        !plan.retry && !plan.force_rebuild ==> (facts.existing matches Some(Existing::Corrupt(why))
            ==> next_step(plan, facts, root) == (BuildStepView::Fail {
            phase: BuildPhase::Validate,
            message: why@,
            patch: None,
        })),
        next_step(plan, facts, root) is Fetch <==> must_build(plan, facts) && facts.fetched
            is None,
{
}

/// A source that could not be fetched, that is another one than was resolved, or that does not
/// descend from the nightly that runs, fails the build; otherwise the checkout follows.
pub proof fn sources_are_held_to_what_was_resolved(
    plan: BuildPlan,
    facts: BuildFacts,
    root: Seq<char>,
)
    requires
        must_build(plan, facts),
    ensures
        facts.fetched matches Some(Err(why)) ==> next_step(plan, facts, root) == (
        BuildStepView::Fail { phase: BuildPhase::Resolve, message: why@, patch: None }),
        facts.fetched is Some && !fetched_as_resolved(plan, facts) ==> (next_step(
            plan,
            facts,
            root,
        ) matches BuildStepView::Fail { phase, .. } && phase == BuildPhase::Resolve),
        fetched_as_resolved(plan, facts) && moves_nightly(plan) && facts.descends is None
            <==> next_step(plan, facts, root) is CompareHistory,
        fetched_as_resolved(plan, facts) && moves_nightly(plan) && (facts.descends matches Some(
            Ok(false),
        )) && !plan.allow_force_push ==> (next_step(
            plan,
            facts,
            root,
        ) matches BuildStepView::Fail { phase, .. } && phase == BuildPhase::Resolve),
        fetched_as_resolved(plan, facts) && moves_nightly(plan) && (facts.descends matches Some(
            Err(_),
        )) ==> (next_step(plan, facts, root) matches BuildStepView::Fail { phase, .. } && phase
            == BuildPhase::Resolve),
        source_ready(plan, facts) && facts.checkout is None <==> next_step(plan, facts, root)
            is Checkout,
{
}

/// Patches are checked and applied one after the other, each by its number; the first that does
/// not apply is blamed. The package builder runs only on the stack that was asked for.
pub proof fn patches_are_taken_in_order(plan: BuildPlan, facts: BuildFacts, root: Seq<char>)
    requires
        source_ready(plan, facts),
    ensures
        facts.checkout matches Some(Err(why)) ==> next_step(plan, facts, root) == (
        BuildStepView::Fail { phase: BuildPhase::Checkout, message: why@, patch: None }),
        (facts.checkout matches Some(Ok(_))) && facts.version_before is None <==> next_step(
            plan,
            facts,
            root,
        ) is CheckVersion,
        (facts.checkout matches Some(Ok(_))) && (facts.version_before matches Some(Err(_)))
            ==> next_step(plan, facts, root) == (BuildStepView::Fail {
            phase: BuildPhase::Patch,
            message: facts.version_before->0->Err_0@,
            patch: None,
        }),
        (facts.checkout matches Some(Ok(_))) && (facts.version_before matches Some(Ok(_)))
            && facts.applied < plan.patch_count ==> {
            let number = (facts.applied + 1) as usize;
            &&& facts.patch_error matches Some(why) ==> next_step(plan, facts, root) == (
            BuildStepView::Fail {
                phase: BuildPhase::Patch,
                message: why@,
                patch: Some(number),
            })
            &&& facts.patch_error is None && !facts.patch_checked ==> next_step(plan, facts, root)
                == BuildStepView::CheckPatch(number)
            &&& facts.patch_error is None && facts.patch_checked ==> next_step(plan, facts, root)
                == BuildStepView::ApplyPatch(number)
        },
        worktree_ready(plan, facts) && facts.version_after is None <==> next_step(
            plan,
            facts,
            root,
        ) is RecheckVersion,
        worktree_ready(plan, facts) && (facts.version_after matches Some(Err(_))) ==> next_step(
            plan,
            facts,
            root,
        ) == (BuildStepView::Fail {
            phase: BuildPhase::Patch,
            message: facts.version_after->0->Err_0@,
            patch: None,
        }),
        worktree_ready(plan, facts) && (facts.version_after matches Some(Ok(_)))
            && facts.live_before is None <==> next_step(plan, facts, root) is RecheckPatches,
        worktree_ready(plan, facts) && (facts.version_after matches Some(Ok(_)))
            && facts.live_before is Some && !builder_ready(plan, facts) ==> (next_step(
            plan,
            facts,
            root,
        ) matches BuildStepView::Fail { phase, .. } && phase == BuildPhase::Patch),
        builder_ready(plan, facts) && facts.builder is None <==> next_step(plan, facts, root)
            is RunBuilder,
{
}

/// A package that was built is validated, and the patch stack read again, before the generation
/// is moved to its place. It is moved there exactly where the place is free or what stands
/// there is to be replaced.
pub proof fn valid_packages_are_installed(plan: BuildPlan, facts: BuildFacts, root: Seq<char>)
    requires
        builder_ready(plan, facts),
    ensures
        facts.builder matches Some(Err(why)) ==> next_step(plan, facts, root) == (
        BuildStepView::Fail { phase: BuildPhase::Build, message: why@, patch: None }),
        (facts.builder matches Some(Ok(_))) && facts.package is None <==> next_step(
            plan,
            facts,
            root,
        ) is ValidatePackage,
        (facts.builder matches Some(Ok(_))) && (facts.package matches Some(Err(_))) ==> next_step(
            plan,
            facts,
            root,
        ) == (BuildStepView::Fail {
            phase: BuildPhase::Validate,
            message: facts.package->0->Err_0@,
            patch: None,
        }),
        (facts.builder matches Some(Ok(_))) && (facts.package matches Some(Ok(_)))
            && facts.live_after is None <==> next_step(plan, facts, root) is RecheckPatchesAgain,
        (facts.builder matches Some(Ok(_))) && (facts.package matches Some(Ok(_)))
            && facts.live_after is Some && !package_ready(plan, facts) ==> (next_step(
            plan,
            facts,
            root,
        ) matches BuildStepView::Fail { phase, .. } && phase == BuildPhase::Validate),
        package_ready(plan, facts) && facts.destination is None <==> next_step(plan, facts, root)
            is LookAtDestination,
        package_ready(plan, facts) && (facts.existing matches Some(Existing::Absent))
            && facts.destination == Some(false) <==> next_step(plan, facts, root) == (
        BuildStepView::Install { replacing: false }),
        package_ready(plan, facts) && !(facts.existing matches Some(Existing::Absent))
            && facts.destination is Some <==> next_step(plan, facts, root) == (
        BuildStepView::Install { replacing: true }),
        package_ready(plan, facts) && (facts.existing matches Some(Existing::Absent))
            && facts.destination == Some(true) ==> next_step(plan, facts, root) == (
        BuildStepView::Fail {
            phase: BuildPhase::Activate,
            message: "immutable generation destination appeared during build: "@ + root,
            patch: None,
        }),
{
}

/// No later stage begins before the ones in front of it have come to a good end.
pub proof fn stages_follow_one_another(plan: BuildPlan, facts: BuildFacts, root: Seq<char>)
    ensures
        next_step(plan, facts, root) is CompareHistory || next_step(plan, facts, root) is Checkout
            ==> must_build(plan, facts) && fetched_as_resolved(plan, facts),
        next_step(plan, facts, root) is CheckVersion || next_step(plan, facts, root) is CheckPatch
            || next_step(plan, facts, root) is ApplyPatch || next_step(plan, facts, root)
            is RecheckVersion || next_step(plan, facts, root) is RecheckPatches ==> source_ready(
            plan,
            facts,
        ) && (facts.checkout matches Some(Ok(_))),
        next_step(plan, facts, root) is RunBuilder || next_step(plan, facts, root)
            is ValidatePackage || next_step(plan, facts, root) is RecheckPatchesAgain
            || next_step(plan, facts, root) is LookAtDestination || next_step(plan, facts, root)
            is Install ==> builder_ready(plan, facts),
        next_step(plan, facts, root) is LookAtDestination || next_step(plan, facts, root)
            is Install ==> package_ready(plan, facts),
        next_step(plan, facts, root) is Fail ==> facts.existing is Some,
{
}

} // verus!
