//! The order of a build: what is done next, given what is known so far.

use vstd::prelude::*;

use crate::text::same;
use crate::types::{DesiredBuild, DesiredView, GenerationRef, GenerationView};

verus! {

/// What a build is asked to do.
#[derive(Debug)]
pub struct BuildPlan {
    pub desired: DesiredBuild,
    /// The generation that runs now.
    pub previous: Option<GenerationRef>,
    pub patch_count: usize,
    pub patch_fingerprint: String,
    pub allow_force_push: bool,
    pub retry: bool,
    /// Build again although a valid generation is there.
    pub force_rebuild: bool,
}

/// What stands in the place of the generation.
#[derive(Debug)]
pub enum Existing {
    Absent,
    Valid,
    Corrupt(String),
}

/// What is known of a build so far.
#[derive(Debug)]
pub struct BuildFacts {
    pub existing: Option<Existing>,
    /// The object and the commit that were fetched.
    pub fetched: Option<Result<(String, String), String>>,
    /// Whether the desired commit descends from the one that runs.
    pub descends: Option<Result<bool, String>>,
    pub checkout: Option<Result<(), String>>,
    pub version_before: Option<Result<(), String>>,
    /// How many patches have been applied.
    pub applied: usize,
    /// The next patch has passed its check.
    pub patch_checked: bool,
    /// Why the next patch does not apply.
    pub patch_error: Option<String>,
    pub version_after: Option<Result<(), String>>,
    /// The fingerprint of the live patch stack before the package builder runs.
    pub live_before: Option<Result<String, String>>,
    pub builder: Option<Result<(), String>>,
    pub package: Option<Result<Vec<String>, String>>,
    /// The fingerprint of the live patch stack after the package was validated.
    pub live_after: Option<Result<String, String>>,
    /// Whether a generation stands at the destination now.
    pub destination: Option<bool>,
}

impl BuildFacts {
    /// Nothing is known yet.
    pub fn new() -> (r: Self)
        ensures
            r.existing is None,
            r.fetched is None,
            r.descends is None,
            r.checkout is None,
            r.version_before is None,
            r.applied == 0,
            !r.patch_checked,
            r.patch_error is None,
            r.version_after is None,
            r.live_before is None,
            r.builder is None,
            r.package is None,
            r.live_after is None,
            r.destination is None,
    {
        BuildFacts {
            existing: None,
            fetched: None,
            descends: None,
            checkout: None,
            version_before: None,
            applied: 0,
            patch_checked: false,
            patch_error: None,
            version_after: None,
            live_before: None,
            builder: None,
            package: None,
            live_after: None,
            destination: None,
        }
    }
}

/// The phases of a build, by which its failures are described.
#[derive(Debug, Clone, Copy, PartialEq, Eq, Structural)]
pub enum BuildPhase {
    Prepare,
    Resolve,
    Checkout,
    Patch,
    Build,
    Validate,
    Activate,
}

pub open spec fn phase_text(p: BuildPhase) -> Seq<char> {
    match p {
        BuildPhase::Prepare => "prepare"@,
        BuildPhase::Resolve => "resolve"@,
        BuildPhase::Checkout => "checkout"@,
        BuildPhase::Patch => "patch"@,
        BuildPhase::Build => "build"@,
        BuildPhase::Validate => "validate"@,
        BuildPhase::Activate => "activate"@,
    }
}

impl BuildPhase {
    pub fn name(self) -> (r: &'static str)
        ensures
            r@ == phase_text(self),
    {
        match self {
            BuildPhase::Prepare => "prepare",
            BuildPhase::Resolve => "resolve",
            BuildPhase::Checkout => "checkout",
            BuildPhase::Patch => "patch",
            BuildPhase::Build => "build",
            BuildPhase::Validate => "validate",
            BuildPhase::Activate => "activate",
        }
    }
}

/// What is done next.
#[derive(Debug)]
pub enum BuildStep {
    LookForExisting,
    /// The valid generation that is there is used.
    Reuse,
    Fetch,
    CompareHistory,
    Checkout,
    CheckVersion,
    /// Check whether the patch of that number, counted from one, applies as it is.
    CheckPatch(usize),
    /// Apply that patch to the index.
    ApplyPatch(usize),
    RecheckVersion,
    RecheckPatches,
    RunBuilder,
    ValidatePackage,
    RecheckPatchesAgain,
    LookAtDestination,
    /// Move the staged generation to its place, after what stands there when `replacing`.
    Install { replacing: bool },
    /// The build has failed. `patch` is the number of the patch to blame.
    Fail { phase: BuildPhase, message: String, patch: Option<usize> },
}

pub enum BuildStepView {
    LookForExisting,
    Reuse,
    Fetch,
    CompareHistory,
    Checkout,
    CheckVersion,
    CheckPatch(usize),
    ApplyPatch(usize),
    RecheckVersion,
    RecheckPatches,
    RunBuilder,
    ValidatePackage,
    RecheckPatchesAgain,
    LookAtDestination,
    Install { replacing: bool },
    Fail { phase: BuildPhase, message: Seq<char>, patch: Option<usize> },
}

impl View for BuildStep {
    type V = BuildStepView;

    open spec fn view(&self) -> BuildStepView {
        match self {
            BuildStep::LookForExisting => BuildStepView::LookForExisting,
            BuildStep::Reuse => BuildStepView::Reuse,
            BuildStep::Fetch => BuildStepView::Fetch,
            BuildStep::CompareHistory => BuildStepView::CompareHistory,
            BuildStep::Checkout => BuildStepView::Checkout,
            BuildStep::CheckVersion => BuildStepView::CheckVersion,
            BuildStep::CheckPatch(n) => BuildStepView::CheckPatch(*n),
            BuildStep::ApplyPatch(n) => BuildStepView::ApplyPatch(*n),
            BuildStep::RecheckVersion => BuildStepView::RecheckVersion,
            BuildStep::RecheckPatches => BuildStepView::RecheckPatches,
            BuildStep::RunBuilder => BuildStepView::RunBuilder,
            BuildStep::ValidatePackage => BuildStepView::ValidatePackage,
            BuildStep::RecheckPatchesAgain => BuildStepView::RecheckPatchesAgain,
            BuildStep::LookAtDestination => BuildStepView::LookAtDestination,
            BuildStep::Install { replacing } => BuildStepView::Install { replacing: *replacing },
            BuildStep::Fail { phase, message, patch } => BuildStepView::Fail {
                phase: *phase,
                message: message@,
                patch: *patch,
            },
        }
    }
}

pub open spec fn failed(phase: BuildPhase, message: Seq<char>) -> BuildStepView {
    BuildStepView::Fail { phase, message, patch: None }
}

/// The generation that stands there is replaced once the new one is valid: it is corrupt
/// and the build is retried, or a rebuild is forced.
pub open spec fn replaces(plan: BuildPlan, existing: Existing) -> bool {
    match existing {
        Existing::Absent => false,
        Existing::Valid => plan.force_rebuild,
        Existing::Corrupt(_) => plan.retry || plan.force_rebuild,
    }
}

/// The history of `main` has to be compared: the nightly that runs is another commit.
pub open spec fn compares_history(d: DesiredView, previous: Option<GenerationView>) -> bool {
    d.source.channel == "nightly"@ && previous is Some && previous->0.source.channel
        == "nightly"@ && previous->0.source.commit_oid != d.source.commit_oid
}

pub open spec fn fetched_is_desired(d: DesiredView, fetched: (Seq<char>, Seq<char>)) -> bool {
    fetched.0 == d.source.ref_object_oid && fetched.1 == d.source.commit_oid
}

pub open spec fn history_message(previous: GenerationView) -> Seq<char> {
    "upstream main is no longer a descendant of "@ + previous.source.commit_oid
        + "; rerun with --accept-force-push"@
}

pub open spec fn identity_message(d: DesiredView, fetched: (Seq<char>, Seq<char>)) -> Seq<char> {
    "fetched source identity changed: expected "@ + d.source.ref_object_oid + "/"@
        + d.source.commit_oid + ", got "@ + fetched.0 + "/"@ + fetched.1
}

/// From the source to the checkout.
pub open spec fn source_step(plan: BuildPlan, facts: BuildFacts) -> Option<BuildStepView> {
    let d = plan.desired@;
    let previous = crate::types::opt_generation(plan.previous);
    match facts.fetched {
        None => Some(BuildStepView::Fetch),
        Some(Err(message)) => Some(failed(BuildPhase::Resolve, message@)),
        Some(Ok(fetched)) => if !fetched_is_desired(d, (fetched.0@, fetched.1@)) {
            Some(failed(BuildPhase::Resolve, identity_message(d, (fetched.0@, fetched.1@))))
        } else if compares_history(d, previous) {
            match facts.descends {
                None => Some(BuildStepView::CompareHistory),
                Some(Err(message)) => Some(failed(BuildPhase::Resolve, message@)),
                Some(Ok(descends)) => if !descends && !plan.allow_force_push {
                    Some(failed(BuildPhase::Resolve, history_message(previous->0)))
                } else {
                    None
                },
            }
        } else {
            None
        },
    }
}

/// From the checkout to the patched worktree.
pub open spec fn patch_step(plan: BuildPlan, facts: BuildFacts) -> Option<BuildStepView> {
    match facts.checkout {
        None => Some(BuildStepView::Checkout),
        Some(Err(message)) => Some(failed(BuildPhase::Checkout, message@)),
        Some(Ok(_)) => match facts.version_before {
            None => Some(BuildStepView::CheckVersion),
            Some(Err(message)) => Some(failed(BuildPhase::Patch, message@)),
            Some(Ok(_)) => if facts.applied < plan.patch_count {
                match facts.patch_error {
                    Some(message) => Some(
                        BuildStepView::Fail {
                            phase: BuildPhase::Patch,
                            message: message@,
                            patch: Some((facts.applied + 1) as usize),
                        },
                    ),
                    None => if facts.patch_checked {
                        Some(BuildStepView::ApplyPatch((facts.applied + 1) as usize))
                    } else {
                        Some(BuildStepView::CheckPatch((facts.applied + 1) as usize))
                    },
                }
            } else {
                match facts.version_after {
                    None => Some(BuildStepView::RecheckVersion),
                    Some(Err(message)) => Some(failed(BuildPhase::Patch, message@)),
                    Some(Ok(_)) => match facts.live_before {
                        None => Some(BuildStepView::RecheckPatches),
                        Some(Err(message)) => Some(failed(BuildPhase::Patch, message@)),
                        Some(Ok(live)) => if live@ != plan.patch_fingerprint@ {
                            Some(
                                failed(
                                    BuildPhase::Patch,
                                    "patch directory changed while preparing the build"@,
                                ),
                            )
                        } else {
                            None
                        },
                    },
                }
            },
        },
    }
}

/// From the package builder to the generation's place.
pub open spec fn package_step(
    plan: BuildPlan,
    facts: BuildFacts,
    replacing: bool,
    final_root: Seq<char>,
) -> BuildStepView {
    match facts.builder {
        None => BuildStepView::RunBuilder,
        Some(Err(message)) => failed(BuildPhase::Build, message@),
        Some(Ok(_)) => match facts.package {
            None => BuildStepView::ValidatePackage,
            Some(Err(message)) => failed(BuildPhase::Validate, message@),
            Some(Ok(_)) => match facts.live_after {
                None => BuildStepView::RecheckPatchesAgain,
                Some(Err(message)) => failed(BuildPhase::Validate, message@),
                Some(Ok(live)) => if live@ != plan.patch_fingerprint@ {
                    failed(
                        BuildPhase::Validate,
                        "patch directory changed during the build; discarded staged generation"@,
                    )
                } else {
                    match facts.destination {
                        None => BuildStepView::LookAtDestination,
                        Some(occupied) => if occupied && !replacing {
                            failed(
                                BuildPhase::Activate,
                                "immutable generation destination appeared during build: "@
                                    + final_root,
                            )
                        } else {
                            BuildStepView::Install { replacing }
                        },
                    }
                },
            },
        },
    }
}

/// The next step of a build whose generation belongs at `final_root`.
pub open spec fn next_step(
    plan: BuildPlan,
    facts: BuildFacts,
    final_root: Seq<char>,
) -> BuildStepView {
    match facts.existing {
        None => BuildStepView::LookForExisting,
        Some(existing) => if existing is Valid && !plan.force_rebuild {
            BuildStepView::Reuse
        } else if existing is Corrupt && !replaces(plan, existing) {
            failed(BuildPhase::Validate, existing->Corrupt_0@)
        } else {
            match source_step(plan, facts) {
                Some(step) => step,
                None => match patch_step(plan, facts) {
                    Some(step) => step,
                    None => package_step(plan, facts, replaces(plan, existing), final_root),
                },
            }
        },
    }
}

fn fail(phase: BuildPhase, message: &str) -> (r: BuildStep)
    ensures
        r@ == failed(phase, message@),
{
    BuildStep::Fail { phase, message: message.to_owned(), patch: None }
}

pub open spec fn opt_step(o: Option<BuildStep>) -> Option<BuildStepView> {
    match o {
        Some(step) => Some(step@),
        None => None,
    }
}

fn next_source_step(plan: &BuildPlan, facts: &BuildFacts) -> (r: Option<BuildStep>)
    ensures
        opt_step(r) == source_step(*plan, *facts),
{
    let source = &plan.desired.source;
    let fetched = match &facts.fetched {
        None => return Some(BuildStep::Fetch),
        Some(Err(message)) => return Some(fail(BuildPhase::Resolve, message.as_str())),
        Some(Ok(fetched)) => fetched,
    };
    if !same(fetched.0.as_str(), source.ref_object_oid.as_str()) || !same(
        fetched.1.as_str(),
        source.commit_oid.as_str(),
    ) {
        let mut message = "fetched source identity changed: expected ".to_owned();
        message.append(source.ref_object_oid.as_str());
        message.append("/");
        message.append(source.commit_oid.as_str());
        message.append(", got ");
        message.append(fetched.0.as_str());
        message.append("/");
        message.append(fetched.1.as_str());
        return Some(fail(BuildPhase::Resolve, message.as_str()));
    }
    let previous = match &plan.previous {
        Some(previous) => previous,
        None => return None,
    };
    if !same(source.channel.as_str(), "nightly") || !same(
        previous.source.channel.as_str(),
        "nightly",
    ) || same(previous.source.commit_oid.as_str(), source.commit_oid.as_str()) {
        return None;
    }
    match &facts.descends {
        None => Some(BuildStep::CompareHistory),
        Some(Err(message)) => Some(fail(BuildPhase::Resolve, message.as_str())),
        Some(Ok(descends)) => {
            if !*descends && !plan.allow_force_push {
                let mut message = "upstream main is no longer a descendant of ".to_owned();
                message.append(previous.source.commit_oid.as_str());
                message.append("; rerun with --accept-force-push");
                Some(fail(BuildPhase::Resolve, message.as_str()))
            } else {
                None
            }
        },
    }
}

fn next_patch_step(plan: &BuildPlan, facts: &BuildFacts) -> (r: Option<BuildStep>)
    ensures
        opt_step(r) == patch_step(*plan, *facts),
{
    match &facts.checkout {
        None => return Some(BuildStep::Checkout),
        Some(Err(message)) => return Some(fail(BuildPhase::Checkout, message.as_str())),
        Some(Ok(_)) => {},
    }
    match &facts.version_before {
        None => return Some(BuildStep::CheckVersion),
        Some(Err(message)) => return Some(fail(BuildPhase::Patch, message.as_str())),
        Some(Ok(_)) => {},
    }
    if facts.applied < plan.patch_count {
        let number: usize = facts.applied + 1;
        return match &facts.patch_error {
            Some(message) => Some(
                BuildStep::Fail {
                    phase: BuildPhase::Patch,
                    message: message.clone(),
                    patch: Some(number),
                },
            ),
            None => if facts.patch_checked {
                Some(BuildStep::ApplyPatch(number))
            } else {
                Some(BuildStep::CheckPatch(number))
            },
        };
    }
    match &facts.version_after {
        None => return Some(BuildStep::RecheckVersion),
        Some(Err(message)) => return Some(fail(BuildPhase::Patch, message.as_str())),
        Some(Ok(_)) => {},
    }
    match &facts.live_before {
        None => Some(BuildStep::RecheckPatches),
        Some(Err(message)) => Some(fail(BuildPhase::Patch, message.as_str())),
        Some(Ok(live)) => {
            if same(live.as_str(), plan.patch_fingerprint.as_str()) {
                None
            } else {
                Some(
                    fail(
                        BuildPhase::Patch,
                        "patch directory changed while preparing the build",
                    ),
                )
            }
        },
    }
}

fn next_package_step(plan: &BuildPlan, facts: &BuildFacts, replacing: bool, final_root: &str) -> (r:
    BuildStep)
    ensures
        r@ == package_step(*plan, *facts, replacing, final_root@),
{
    match &facts.builder {
        None => return BuildStep::RunBuilder,
        Some(Err(message)) => return fail(BuildPhase::Build, message.as_str()),
        Some(Ok(_)) => {},
    }
    match &facts.package {
        None => return BuildStep::ValidatePackage,
        Some(Err(message)) => return fail(BuildPhase::Validate, message.as_str()),
        Some(Ok(_)) => {},
    }
    match &facts.live_after {
        None => return BuildStep::RecheckPatchesAgain,
        Some(Err(message)) => return fail(BuildPhase::Validate, message.as_str()),
        Some(Ok(live)) => {
            if !same(live.as_str(), plan.patch_fingerprint.as_str()) {
                return fail(
                    BuildPhase::Validate,
                    "patch directory changed during the build; discarded staged generation",
                );
            }
        },
    }
    match facts.destination {
        None => BuildStep::LookAtDestination,
        Some(occupied) => {
            if occupied && !replacing {
                let mut message =
                    "immutable generation destination appeared during build: ".to_owned();
                message.append(final_root);
                fail(BuildPhase::Activate, message.as_str())
            } else {
                BuildStep::Install { replacing }
            }
        },
    }
}

/// The next step of a build.
pub fn next_build_step(plan: &BuildPlan, facts: &BuildFacts, final_root: &str) -> (r: BuildStep)
    ensures
        r@ == next_step(*plan, *facts, final_root@),
{
    let replacing = match &facts.existing {
        None => return BuildStep::LookForExisting,
        Some(Existing::Absent) => false,
        Some(Existing::Valid) => {
            if !plan.force_rebuild {
                return BuildStep::Reuse;
            }
            true
        },
        Some(Existing::Corrupt(message)) => {
            if !plan.retry && !plan.force_rebuild {
                return fail(BuildPhase::Validate, message.as_str());
            }
            true
        },
    };
    match next_source_step(plan, facts) {
        Some(step) => return step,
        None => {},
    }
    match next_patch_step(plan, facts) {
        Some(step) => return step,
        None => {},
    }
    next_package_step(plan, facts, replacing, final_root)
}

/// A generation is only put in its place when the source is the resolved one, every patch
/// has been applied, the package has been validated, and the patch stack has not changed
/// since. What stood there is only replaced when it was corrupt and the build is retried,
/// or when a rebuild was forced.
pub proof fn only_validated_builds_are_installed(
    plan: BuildPlan,
    facts: BuildFacts,
    final_root: Seq<char>,
    replacing: bool,
)
    requires
        next_step(plan, facts, final_root) == (BuildStepView::Install { replacing }),
    ensures
        facts.fetched matches Some(Ok(fetched)) && fetched_is_desired(
            plan.desired@,
            (fetched.0@, fetched.1@),
        ),
        facts.applied >= plan.patch_count,
        facts.version_before matches Some(Ok(_)),
        facts.version_after matches Some(Ok(_)),
        facts.builder matches Some(Ok(_)),
        facts.package matches Some(Ok(_)),
        facts.live_before matches Some(Ok(live)) && live@ == plan.patch_fingerprint@,
        facts.live_after matches Some(Ok(live)) && live@ == plan.patch_fingerprint@,
        replacing ==> (facts.existing matches Some(existing) && !(existing is Absent)
            && replaces(plan, existing)),
        !replacing ==> (facts.existing matches Some(Existing::Absent)) && facts.destination
            == Some(false),
{
}

/// A nightly that does not descend from the one that runs is not built without the user's
/// acceptance.
pub proof fn diverged_nightlies_are_not_built(
    plan: BuildPlan,
    facts: BuildFacts,
    final_root: Seq<char>,
    replacing: bool,
)
    requires
        compares_history(plan.desired@, crate::types::opt_generation(plan.previous)),
        !plan.allow_force_push,
        next_step(plan, facts, final_root) == (BuildStepView::Install { replacing }),
    ensures
        facts.descends matches Some(Ok(d)) && d,
{
}

/// A valid generation is used as it is, unless a rebuild is forced.
pub proof fn valid_generations_are_reused(plan: BuildPlan, facts: BuildFacts, final_root: Seq<char>)
    requires
        facts.existing matches Some(Existing::Valid),
    ensures
        next_step(plan, facts, final_root) is Reuse <==> !plan.force_rebuild,
{
}

/// A patch is applied only when it has passed its check and those in front of it are applied,
/// and the build goes on only when every patch is.
pub proof fn patches_apply_strictly(plan: BuildPlan, facts: BuildFacts, final_root: Seq<char>)
    ensures
        next_step(plan, facts, final_root) matches BuildStepView::ApplyPatch(n)
            ==> facts.patch_checked && n == facts.applied + 1 && n <= plan.patch_count,
        next_step(plan, facts, final_root) is RecheckVersion ==> facts.applied
            >= plan.patch_count,
{
}

} // verus!
