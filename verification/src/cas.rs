//! Compare-and-swap of a launcher.
//!
//! A candidate is prepared beside the launcher and put in its place in one
//! atomic step that keeps what stood there. Only then is what was displaced
//! looked at: when it is what was expected it is removed, otherwise it is put
//! back. What someone else wrote meanwhile is never overwritten.

use vstd::prelude::*;

use crate::outside::{uuid_form, uuid_text};
use crate::paths::{join_path, joined, parent, parent_of, Platform};

verus! {

/// What a swap is for. `missing` when nothing stood there before the takeover.
#[derive(Debug, Clone, Copy, PartialEq, Eq, Structural)]
pub enum Swap {
    Install { missing: bool },
    Restore { missing: bool },
}

/// What is known of a swap so far.
#[derive(Debug)]
pub struct SwapFacts {
    /// Whether the launcher may be redirected.
    pub validated: Option<Result<(), String>>,
    /// The path of an artifact that is in the way, if there is one.
    pub clear: Option<Option<String>>,
    pub created: Option<Result<(), String>>,
    pub snapshot: Option<Result<(), String>>,
    pub swapped: Option<Result<(), String>>,
    /// Whether the launcher is what the swap put there.
    pub intact: Option<bool>,
    /// Whether what was displaced is what was expected.
    pub displaced: Option<Result<bool, String>>,
    pub rolled_back: Option<Result<(), String>>,
    pub cleaned: Option<Result<(), String>>,
}

impl SwapFacts {
    /// Nothing is known yet.
    pub fn new() -> (r: Self)
        ensures
            r.validated is None,
            r.clear is None,
            r.created is None,
            r.snapshot is None,
            r.swapped is None,
            r.intact is None,
            r.displaced is None,
            r.rolled_back is None,
            r.cleaned is None,
    {
        SwapFacts {
            validated: None,
            clear: None,
            created: None,
            snapshot: None,
            swapped: None,
            intact: None,
            displaced: None,
            rolled_back: None,
            cleaned: None,
        }
    }
}

#[derive(Debug)]
pub enum SwapStep {
    Validate,
    CheckClear,
    CreateCandidate,
    SnapshotCandidate,
    /// Move the candidate to the launcher, where nothing may stand.
    MoveIn,
    /// Move the launcher away, to where nothing may stand.
    MoveOut,
    /// Exchange the candidate and the launcher.
    Exchange,
    CheckIntact,
    CheckDisplaced,
    RemoveDisplaced,
    /// Undo the move or the exchange.
    RollBack,
    RemoveCandidate,
    Done,
    /// The swap has failed. With `remove_candidate`, what was prepared is removed first.
    Fail { message: String, remove_candidate: bool },
}

pub enum SwapStepView {
    Validate,
    CheckClear,
    CreateCandidate,
    SnapshotCandidate,
    MoveIn,
    MoveOut,
    Exchange,
    CheckIntact,
    CheckDisplaced,
    RemoveDisplaced,
    RollBack,
    RemoveCandidate,
    Done,
    Fail { message: Seq<char>, remove_candidate: bool },
}

impl View for SwapStep {
    type V = SwapStepView;

    open spec fn view(&self) -> SwapStepView {
        match self {
            SwapStep::Validate => SwapStepView::Validate,
            SwapStep::CheckClear => SwapStepView::CheckClear,
            SwapStep::CreateCandidate => SwapStepView::CreateCandidate,
            SwapStep::SnapshotCandidate => SwapStepView::SnapshotCandidate,
            SwapStep::MoveIn => SwapStepView::MoveIn,
            SwapStep::MoveOut => SwapStepView::MoveOut,
            SwapStep::Exchange => SwapStepView::Exchange,
            SwapStep::CheckIntact => SwapStepView::CheckIntact,
            SwapStep::CheckDisplaced => SwapStepView::CheckDisplaced,
            SwapStep::RemoveDisplaced => SwapStepView::RemoveDisplaced,
            SwapStep::RollBack => SwapStepView::RollBack,
            SwapStep::RemoveCandidate => SwapStepView::RemoveCandidate,
            SwapStep::Done => SwapStepView::Done,
            SwapStep::Fail { message, remove_candidate } => SwapStepView::Fail {
                message: message@,
                remove_candidate: *remove_candidate,
            },
        }
    }
}

pub open spec fn swap_failed(message: Seq<char>) -> SwapStepView {
    SwapStepView::Fail { message, remove_candidate: false }
}

/// How the messages name the launcher and the operation.
pub open spec fn subject(swap: Swap, surface: Seq<char>) -> Seq<char> {
    match swap {
        Swap::Install { .. } => "launcher "@ + surface,
        Swap::Restore { .. } => surface,
    }
}

pub open spec fn operation_text(swap: Swap) -> Seq<char> {
    match swap {
        Swap::Install { .. } => "takeover"@,
        Swap::Restore { .. } => "uninstall"@,
    }
}

pub open spec fn displaced_text(swap: Swap) -> Seq<char> {
    match swap {
        Swap::Install { .. } => "displaced file "@,
        Swap::Restore { .. } => "displaced shim "@,
    }
}

pub open spec fn drifted_message(
    swap: Swap,
    surface: Seq<char>,
    displaced: Seq<char>,
) -> Seq<char> {
    subject(swap, surface) + " changed immediately after atomic "@ + operation_text(swap)
        + "; preserving both the newer drift and "@ + displaced_text(swap) + displaced
}

pub open spec fn rollback_failed_message(
    swap: Swap,
    surface: Seq<char>,
    error: Seq<char>,
) -> Seq<char> {
    subject(swap, surface) + " changed during atomic "@ + operation_text(swap)
        + " and rollback failed: "@ + error
}

pub open spec fn rolled_back_message(swap: Swap, surface: Seq<char>) -> Seq<char> {
    subject(swap, surface) + " changed during atomic "@ + operation_text(swap) + (match swap {
        Swap::Install { .. } => "; restored the displaced file without overwriting drift"@,
        Swap::Restore { .. } => "; restored the displaced file without clobbering drift"@,
    })
}

pub open spec fn unreadable_message(swap: Swap, surface: Seq<char>, error: Seq<char>) -> Seq<char> {
    match swap {
        Swap::Install { .. } => "validate displaced launcher "@ + surface
            + " during atomic takeover: "@ + error,
        Swap::Restore { .. } => "validate displaced installed shim: "@ + error,
    }
}

/// What the swap ends with once what was displaced has been put back.
pub open spec fn after_rollback(
    swap: Swap,
    surface: Seq<char>,
    displaced: Result<bool, String>,
) -> SwapStepView {
    match displaced {
        Ok(_) => swap_failed(rolled_back_message(swap, surface)),
        Err(error) => swap_failed(unreadable_message(swap, surface, error@)),
    }
}

/// Whether a candidate is prepared: not when the launcher is only moved away.
pub open spec fn has_candidate(swap: Swap) -> bool {
    swap != (Swap::Restore { missing: true })
}

/// From the swap to its end.
pub open spec fn after_swap(
    swap: Swap,
    surface: Seq<char>,
    displaced_path: Seq<char>,
    facts: SwapFacts,
) -> SwapStepView {
    match facts.intact {
        None => SwapStepView::CheckIntact,
        Some(intact) => if swap == (Swap::Install { missing: true }) {
            if intact {
                SwapStepView::Done
            } else {
                swap_failed(
                    "launcher "@ + surface
                        + " changed immediately after atomic takeover; preserving the newer drift"@,
                )
            }
        } else {
            match facts.displaced {
                None => SwapStepView::CheckDisplaced,
                Some(displaced) => if !intact {
                    swap_failed(drifted_message(swap, surface, displaced_path))
                } else if displaced matches Ok(expected) && expected {
                    match facts.cleaned {
                        None => SwapStepView::RemoveDisplaced,
                        Some(Err(error)) => swap_failed(error@),
                        Some(Ok(_)) => SwapStepView::Done,
                    }
                } else {
                    match facts.rolled_back {
                        None => SwapStepView::RollBack,
                        Some(Err(error)) => swap_failed(
                            rollback_failed_message(swap, surface, error@),
                        ),
                        Some(Ok(_)) => if has_candidate(swap) {
                            match facts.cleaned {
                                None => SwapStepView::RemoveCandidate,
                                Some(Err(error)) => swap_failed(error@),
                                Some(Ok(_)) => after_rollback(swap, surface, displaced),
                            }
                        } else {
                            after_rollback(swap, surface, displaced)
                        },
                    }
                },
            }
        },
    }
}

/// The atomic step itself.
pub open spec fn swap_itself(
    swap: Swap,
    surface: Seq<char>,
    displaced_path: Seq<char>,
    facts: SwapFacts,
) -> SwapStepView {
    match facts.swapped {
        None => match swap {
            Swap::Install { missing } => if missing {
                SwapStepView::MoveIn
            } else {
                SwapStepView::Exchange
            },
            Swap::Restore { missing } => if missing {
                SwapStepView::MoveOut
            } else {
                SwapStepView::Exchange
            },
        },
        Some(Err(error)) => match swap {
            Swap::Install { missing } => SwapStepView::Fail {
                message: if missing {
                    "launcher "@ + surface
                        + " appeared during atomic takeover; refusing to overwrite it: "@ + error@
                } else {
                    error@
                },
                remove_candidate: true,
            },
            Swap::Restore { missing } => if missing {
                swap_failed("atomically remove recorded shim "@ + surface + ": "@ + error@)
            } else {
                SwapStepView::Fail { message: error@, remove_candidate: true }
            },
        },
        Some(Ok(_)) => after_swap(swap, surface, displaced_path, facts),
    }
}

/// The candidate, where one is needed.
pub open spec fn candidate_step(swap: Swap, facts: SwapFacts) -> Option<SwapStepView> {
    if !has_candidate(swap) {
        None
    } else {
        match facts.created {
            None => Some(SwapStepView::CreateCandidate),
            Some(Err(error)) => Some(swap_failed(error@)),
            Some(Ok(_)) => match facts.snapshot {
                None => Some(SwapStepView::SnapshotCandidate),
                Some(Err(error)) => Some(swap_failed(error@)),
                Some(Ok(_)) => None,
            },
        }
    }
}

/// A takeover is validated first.
pub open spec fn validation_step(swap: Swap, facts: SwapFacts) -> Option<SwapStepView> {
    if swap is Restore {
        None
    } else {
        match facts.validated {
            None => Some(SwapStepView::Validate),
            Some(Err(error)) => Some(swap_failed(error@)),
            Some(Ok(_)) => None,
        }
    }
}

/// The next step of a swap.
pub open spec fn next_swap(
    swap: Swap,
    surface: Seq<char>,
    displaced_path: Seq<char>,
    facts: SwapFacts,
) -> SwapStepView {
    match validation_step(swap, facts) {
        Some(step) => step,
        None => match facts.clear {
            None => SwapStepView::CheckClear,
            Some(Some(path)) => swap_failed("launcher CAS artifact already exists: "@ + path@),
            Some(None) => match candidate_step(swap, facts) {
                Some(step) => step,
                None => swap_itself(swap, surface, displaced_path, facts),
            },
        },
    }
}

fn fail(message: String) -> (r: SwapStep)
    ensures
        r@ == swap_failed(message@),
{
    SwapStep::Fail { message, remove_candidate: false }
}

fn subject_of(swap: Swap, surface: &str) -> (r: String)
    ensures
        r@ == subject(swap, surface@),
{
    match swap {
        Swap::Install { .. } => {
            let mut out = "launcher ".to_owned();
            out.append(surface);
            out
        },
        Swap::Restore { .. } => surface.to_owned(),
    }
}

fn operation_of(swap: Swap) -> (r: &'static str)
    ensures
        r@ == operation_text(swap),
{
    match swap {
        Swap::Install { .. } => "takeover",
        Swap::Restore { .. } => "uninstall",
    }
}

fn finish_rollback(swap: Swap, surface: &str, displaced: &Result<bool, String>) -> (r: SwapStep)
    ensures
        r@ == after_rollback(swap, surface@, *displaced),
{
    match displaced {
        Ok(_) => {
            let mut message = subject_of(swap, surface);
            message.append(" changed during atomic ");
            message.append(operation_of(swap));
            match swap {
                Swap::Install { .. } => message.append(
                    "; restored the displaced file without overwriting drift",
                ),
                Swap::Restore { .. } => message.append(
                    "; restored the displaced file without clobbering drift",
                ),
            }
            fail(message)
        },
        Err(error) => match swap {
            Swap::Install { .. } => {
                let mut message = "validate displaced launcher ".to_owned();
                message.append(surface);
                message.append(" during atomic takeover: ");
                message.append(error.as_str());
                fail(message)
            },
            Swap::Restore { .. } => {
                let mut message = "validate displaced installed shim: ".to_owned();
                message.append(error.as_str());
                fail(message)
            },
        },
    }
}

fn next_after_swap(swap: Swap, surface: &str, displaced_path: &str, facts: &SwapFacts) -> (r:
    SwapStep)
    ensures
        r@ == after_swap(swap, surface@, displaced_path@, *facts),
{
    let intact = match facts.intact {
        None => return SwapStep::CheckIntact,
        Some(intact) => intact,
    };
    if swap == (Swap::Install { missing: true }) {
        if intact {
            return SwapStep::Done;
        }
        let mut message = "launcher ".to_owned();
        message.append(surface);
        message.append(
            " changed immediately after atomic takeover; preserving the newer drift",
        );
        return fail(message);
    }
    let displaced = match &facts.displaced {
        None => return SwapStep::CheckDisplaced,
        Some(displaced) => displaced,
    };
    if !intact {
        let mut message = subject_of(swap, surface);
        message.append(" changed immediately after atomic ");
        message.append(operation_of(swap));
        message.append("; preserving both the newer drift and ");
        match swap {
            Swap::Install { .. } => message.append("displaced file "),
            Swap::Restore { .. } => message.append("displaced shim "),
        }
        message.append(displaced_path);
        return fail(message);
    }
    let expected = match displaced {
        Ok(expected) => *expected,
        Err(_) => false,
    };
    if expected {
        return match &facts.cleaned {
            None => SwapStep::RemoveDisplaced,
            Some(Err(error)) => fail(error.clone()),
            Some(Ok(_)) => SwapStep::Done,
        };
    }
    match &facts.rolled_back {
        None => return SwapStep::RollBack,
        Some(Err(error)) => {
            let mut message = subject_of(swap, surface);
            message.append(" changed during atomic ");
            message.append(operation_of(swap));
            message.append(" and rollback failed: ");
            message.append(error.as_str());
            return fail(message);
        },
        Some(Ok(_)) => {},
    }
    if swap == (Swap::Restore { missing: true }) {
        return finish_rollback(swap, surface, displaced);
    }
    match &facts.cleaned {
        None => SwapStep::RemoveCandidate,
        Some(Err(error)) => fail(error.clone()),
        Some(Ok(_)) => finish_rollback(swap, surface, displaced),
    }
}

fn next_swap_itself(swap: Swap, surface: &str, displaced_path: &str, facts: &SwapFacts) -> (r:
    SwapStep)
    ensures
        r@ == swap_itself(swap, surface@, displaced_path@, *facts),
{
    match &facts.swapped {
        None => match swap {
            Swap::Install { missing } => {
                if missing {
                    SwapStep::MoveIn
                } else {
                    SwapStep::Exchange
                }
            },
            Swap::Restore { missing } => {
                if missing {
                    SwapStep::MoveOut
                } else {
                    SwapStep::Exchange
                }
            },
        },
        Some(Err(error)) => match swap {
            Swap::Install { missing } => {
                if missing {
                    let mut message = "launcher ".to_owned();
                    message.append(surface);
                    message.append(
                        " appeared during atomic takeover; refusing to overwrite it: ",
                    );
                    message.append(error.as_str());
                    SwapStep::Fail { message, remove_candidate: true }
                } else {
                    SwapStep::Fail { message: error.clone(), remove_candidate: true }
                }
            },
            Swap::Restore { missing } => {
                if missing {
                    let mut message = "atomically remove recorded shim ".to_owned();
                    message.append(surface);
                    message.append(": ");
                    message.append(error.as_str());
                    fail(message)
                } else {
                    SwapStep::Fail { message: error.clone(), remove_candidate: true }
                }
            },
        },
        Some(Ok(_)) => next_after_swap(swap, surface, displaced_path, facts),
    }
}

/// The next step of the swap at `surface`. `displaced_path` is where what stood there is
/// kept.
pub fn next_swap_step(swap: Swap, surface: &str, displaced_path: &str, facts: &SwapFacts) -> (r:
    SwapStep)
    ensures
        r@ == next_swap(swap, surface@, displaced_path@, *facts),
{
    let install = match swap {
        Swap::Install { .. } => true,
        Swap::Restore { .. } => false,
    };
    if install {
        match &facts.validated {
            None => return SwapStep::Validate,
            Some(Err(error)) => return fail(error.clone()),
            Some(Ok(_)) => {},
        }
    }
    match &facts.clear {
        None => return SwapStep::CheckClear,
        Some(Some(path)) => {
            let mut message = "launcher CAS artifact already exists: ".to_owned();
            message.append(path.as_str());
            return fail(message);
        },
        Some(None) => {},
    }
    if swap != (Swap::Restore { missing: true }) {
        match &facts.created {
            None => return SwapStep::CreateCandidate,
            Some(Err(error)) => return fail(error.clone()),
            Some(Ok(_)) => {},
        }
        match &facts.snapshot {
            None => return SwapStep::SnapshotCandidate,
            Some(Err(error)) => return fail(error.clone()),
            Some(Ok(_)) => {},
        }
    }
    next_swap_itself(swap, surface, displaced_path, facts)
}

/// Nothing had to be displaced.
pub open spec fn displaces_nothing(swap: Swap) -> bool {
    swap == (Swap::Install { missing: true })
}

/// What was displaced is only removed, and a swap only succeeds, when the launcher is what
/// the swap put there and what was displaced is what was expected.
pub proof fn only_expected_files_are_removed(
    swap: Swap,
    surface: Seq<char>,
    displaced_path: Seq<char>,
    facts: SwapFacts,
)
    ensures
        next_swap(swap, surface, displaced_path, facts) is RemoveDisplaced ==> facts.intact
            == Some(true) && (facts.displaced matches Some(Ok(expected)) && expected),
        next_swap(swap, surface, displaced_path, facts) is Done ==> facts.intact == Some(true) && (
        displaces_nothing(swap) || (facts.displaced matches Some(Ok(expected)) && expected)),
{
}

/// When someone else has written the launcher after the swap, nothing is moved or removed
/// any more.
pub proof fn newer_drift_is_left_alone(
    swap: Swap,
    surface: Seq<char>,
    displaced_path: Seq<char>,
    facts: SwapFacts,
)
    requires
        facts.swapped matches Some(Ok(_)),
        facts.intact == Some(false),
    ensures
        ({
            let step = next_swap(swap, surface, displaced_path, facts);
            !(step is RemoveDisplaced) && !(step is RemoveCandidate) && !(step is RollBack) && !(
            step is Done) && !(step is Exchange) && !(step is MoveIn) && !(step is MoveOut) && (
            step matches SwapStepView::Fail { message, remove_candidate } ==> !remove_candidate)
        }),
{
}

/// What was displaced without being expected is put back.
pub proof fn unexpected_files_are_put_back(
    swap: Swap,
    surface: Seq<char>,
    displaced_path: Seq<char>,
    facts: SwapFacts,
)
    requires
        !displaces_nothing(swap),
        swap is Install ==> (facts.validated matches Some(Ok(_))),
        facts.clear matches Some(None),
        has_candidate(swap) ==> (facts.created matches Some(Ok(_))) && (facts.snapshot matches Some(
            Ok(_),
        )),
        facts.swapped matches Some(Ok(_)),
        facts.intact == Some(true),
        facts.displaced is Some,
        !(facts.displaced->0 matches Ok(expected) && expected),
        facts.rolled_back is None,
    ensures
        next_swap(swap, surface, displaced_path, facts) is RollBack,
{
}

/// The names of the candidate and of what is displaced, beside the launcher. Only Windows
/// needs two.
pub open spec fn artifact_name(id: u128, operation: Seq<char>, word: Seq<char>) -> Seq<char> {
    ".codex-patcher-"@ + uuid_form(id) + "."@ + operation + word
}

fn artifact(id: u128, operation: &str, word: &str) -> (r: String)
    ensures
        r@ == artifact_name(id, operation@, word@),
{
    let mut name = ".codex-patcher-".to_owned();
    name.append(uuid_text(id).as_str());
    name.append(".");
    name.append(operation);
    name.append(word);
    name
}

pub fn cas_paths(surface: &str, id: u128, operation: &str, platform: Platform) -> (r: Result<
    (String, String),
    String,
>)
    ensures
        match parent(platform, surface@) {
            None => r matches Err(e) && e@ == "launcher has no parent directory"@,
            Some(dir) => {
                let candidate = join_path(
                    platform,
                    dir,
                    artifact_name(id, operation@, "-candidate"@),
                );
                r matches Ok(pair) && pair.0@ == candidate && pair.1@ == (match platform {
                    Platform::Posix => candidate,
                    Platform::Windows => join_path(
                        platform,
                        dir,
                        artifact_name(id, operation@, "-displaced"@),
                    ),
                })
            },
        },
{
    let dir = match parent_of(platform, surface) {
        Some(dir) => dir,
        None => return Err("launcher has no parent directory".to_owned()),
    };
    let candidate = joined(platform, dir.as_str(), artifact(id, operation, "-candidate").as_str());
    let displaced = match platform {
        Platform::Posix => candidate.clone(),
        Platform::Windows => joined(
            platform,
            dir.as_str(),
            artifact(id, operation, "-displaced").as_str(),
        ),
    };
    Ok((candidate, displaced))
}

/// What is done about the artifacts of an interrupted swap.
#[derive(Debug)]
pub enum SwapRecovery {
    Nothing,
    RemoveDisplaced,
    RemoveCandidate,
    /// Move what was displaced back, then report.
    MoveBack { message: String },
    Fail { message: String },
}

pub enum RecoveryView {
    Nothing,
    RemoveDisplaced,
    RemoveCandidate,
    MoveBack { message: Seq<char> },
    Fail { message: Seq<char> },
}

impl View for SwapRecovery {
    type V = RecoveryView;

    open spec fn view(&self) -> RecoveryView {
        match self {
            SwapRecovery::Nothing => RecoveryView::Nothing,
            SwapRecovery::RemoveDisplaced => RecoveryView::RemoveDisplaced,
            SwapRecovery::RemoveCandidate => RecoveryView::RemoveCandidate,
            SwapRecovery::MoveBack { message } => RecoveryView::MoveBack { message: message@ },
            SwapRecovery::Fail { message } => RecoveryView::Fail { message: message@ },
        }
    }
}

/// What stands at the launcher and beside it after an interrupted takeover.
#[derive(Debug, Clone, Copy, PartialEq, Eq, Structural)]
pub struct TakeoverArtifacts {
    pub candidate_exists: bool,
    pub displaced_exists: bool,
    /// The launcher links to the manager.
    pub surface_is_shim: bool,
    /// What was displaced is what the journal expects.
    pub displaced_is_expected: bool,
    /// The candidate is an unused shim.
    pub candidate_is_shim: bool,
}

pub open spec fn takeover_recovery(
    a: TakeoverArtifacts,
    surface: Seq<char>,
    displaced: Seq<char>,
) -> RecoveryView {
    if !a.candidate_exists && !a.displaced_exists {
        RecoveryView::Nothing
    } else if a.surface_is_shim && a.displaced_exists {
        if a.displaced_is_expected {
            RecoveryView::RemoveDisplaced
        } else {
            RecoveryView::Fail {
                message: "launcher "@ + surface
                    + " drifted during its interrupted atomic takeover; preserving displaced file "@
                    + displaced
                    + " because the current manager-shaped path cannot be proven to be our candidate"@,
            }
        }
    } else if a.candidate_exists && a.candidate_is_shim {
        RecoveryView::RemoveCandidate
    } else {
        RecoveryView::Fail {
            message: "unrecognized launcher CAS artifact for "@ + surface
                + "; refusing to modify it"@,
        }
    }
}

pub fn recover_shim_swap(a: TakeoverArtifacts, surface: &str, displaced: &str) -> (r: SwapRecovery)
    ensures
        r@ == takeover_recovery(a, surface@, displaced@),
{
    if !a.candidate_exists && !a.displaced_exists {
        return SwapRecovery::Nothing;
    }
    if a.surface_is_shim && a.displaced_exists {
        if a.displaced_is_expected {
            return SwapRecovery::RemoveDisplaced;
        }
        let mut message = "launcher ".to_owned();
        message.append(surface);
        message.append(
            " drifted during its interrupted atomic takeover; preserving displaced file ",
        );
        message.append(displaced);
        message.append(
            " because the current manager-shaped path cannot be proven to be our candidate",
        );
        return SwapRecovery::Fail { message };
    }
    if a.candidate_exists && a.candidate_is_shim {
        return SwapRecovery::RemoveCandidate;
    }
    let mut message = "unrecognized launcher CAS artifact for ".to_owned();
    message.append(surface);
    message.append("; refusing to modify it");
    SwapRecovery::Fail { message }
}

/// What stands at the launcher and beside it after an interrupted restoration.
#[derive(Debug, Clone, Copy, PartialEq, Eq, Structural)]
pub struct RestoreArtifacts {
    pub candidate_exists: bool,
    pub displaced_exists: bool,
    /// Nothing stood at the launcher before the takeover.
    pub baseline_missing: bool,
    pub surface_exists: bool,
    /// What was displaced is the recorded shim.
    pub displaced_is_shim: bool,
    pub surface_is_baseline: bool,
    pub candidate_is_baseline: bool,
}

pub open spec fn restore_recovery(
    a: RestoreArtifacts,
    surface: Seq<char>,
    displaced: Seq<char>,
) -> RecoveryView {
    if !a.candidate_exists && !a.displaced_exists {
        RecoveryView::Nothing
    } else if a.baseline_missing {
        if !a.surface_exists && a.displaced_exists {
            if a.displaced_is_shim {
                RecoveryView::RemoveDisplaced
            } else {
                RecoveryView::MoveBack {
                    message: "launcher "@ + surface
                        + " drifted during interrupted uninstall; the drift was restored"@,
                }
            }
        } else {
            RecoveryView::Fail {
                message: "unrecognized missing-baseline CAS artifact for "@ + surface
                    + "; refusing to modify it"@,
            }
        }
    } else if a.displaced_exists && a.surface_is_baseline {
        if a.displaced_is_shim {
            RecoveryView::RemoveDisplaced
        } else {
            RecoveryView::Fail {
                message: "launcher "@ + surface
                    + " drifted during interrupted uninstall; preserving displaced file "@
                    + displaced
                    + " because the current baseline-shaped path cannot be proven to be our candidate"@,
            }
        }
    } else if a.candidate_exists && a.candidate_is_baseline {
        RecoveryView::RemoveCandidate
    } else {
        RecoveryView::Fail {
            message: "unrecognized baseline CAS artifact for "@ + surface
                + "; refusing to modify it"@,
        }
    }
}

pub fn recover_restore_swap(
    a: RestoreArtifacts,
    surface: &str,
    displaced: &str,
) -> (r: SwapRecovery)
    ensures
        r@ == restore_recovery(a, surface@, displaced@),
{
    if !a.candidate_exists && !a.displaced_exists {
        return SwapRecovery::Nothing;
    }
    if a.baseline_missing {
        if !a.surface_exists && a.displaced_exists {
            if a.displaced_is_shim {
                return SwapRecovery::RemoveDisplaced;
            }
            let mut message = "launcher ".to_owned();
            message.append(surface);
            message.append(" drifted during interrupted uninstall; the drift was restored");
            return SwapRecovery::MoveBack { message };
        }
        let mut message = "unrecognized missing-baseline CAS artifact for ".to_owned();
        message.append(surface);
        message.append("; refusing to modify it");
        return SwapRecovery::Fail { message };
    }
    if a.displaced_exists && a.surface_is_baseline {
        if a.displaced_is_shim {
            return SwapRecovery::RemoveDisplaced;
        }
        let mut message = "launcher ".to_owned();
        message.append(surface);
        message.append(" drifted during interrupted uninstall; preserving displaced file ");
        message.append(displaced);
        message.append(
            " because the current baseline-shaped path cannot be proven to be our candidate",
        );
        return SwapRecovery::Fail { message };
    }
    if a.candidate_exists && a.candidate_is_baseline {
        return SwapRecovery::RemoveCandidate;
    }
    let mut message = "unrecognized baseline CAS artifact for ".to_owned();
    message.append(surface);
    message.append("; refusing to modify it");
    SwapRecovery::Fail { message }
}

/// Recovery removes nothing but what it recognizes: what was displaced when it is what the
/// record expects, and a candidate that is the patcher's own.
pub proof fn recovery_removes_only_what_it_knows(
    t: TakeoverArtifacts,
    s: RestoreArtifacts,
    surface: Seq<char>,
    displaced: Seq<char>,
)
    ensures
        takeover_recovery(t, surface, displaced) is RemoveDisplaced ==> t.displaced_is_expected
            && t.surface_is_shim,
        takeover_recovery(t, surface, displaced) is RemoveCandidate ==> t.candidate_is_shim,
        restore_recovery(s, surface, displaced) is RemoveDisplaced ==> s.displaced_is_shim,
        restore_recovery(s, surface, displaced) is RemoveCandidate ==> s.candidate_is_baseline,
{
}

} // verus!
