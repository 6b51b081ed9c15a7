//! How a launcher is swapped, step by step, and what is done about an interrupted swap.

use vstd::prelude::*;

use crate::cas::{
    next_swap, restore_recovery, takeover_recovery, RestoreArtifacts, Swap, SwapFacts, SwapStepView,
    TakeoverArtifacts,
};
use crate::transaction_laws::went_well;

verus! {

/// The swap may start: a takeover was validated, and nothing is in the way.
pub open spec fn may_start(swap: Swap, f: SwapFacts) -> bool {
    (swap is Install ==> went_well(f.validated)) && f.clear is Some && f.clear->0 is None
}

/// The swap only moves the launcher away, so nothing is prepared for it.
pub open spec fn moves_away(swap: Swap) -> bool {
    swap matches Swap::Restore { missing } && missing
}

/// The swap puts something where nothing stood, so nothing is displaced.
pub open spec fn moves_in(swap: Swap) -> bool {
    swap matches Swap::Install { missing } && missing
}

/// What is to stand at the launcher has been prepared.
pub open spec fn is_prepared(swap: Swap, f: SwapFacts) -> bool {
    may_start(swap, f) && (moves_away(swap) || (went_well(f.created) && went_well(f.snapshot)))
}

/// The swap has been made, and it is known whether the launcher is what it put there.
pub open spec fn is_swapped(swap: Swap, f: SwapFacts) -> bool {
    is_prepared(swap, f) && went_well(f.swapped)
}

/// What was displaced is known to be what was expected.
pub open spec fn displaced_as_expected(f: SwapFacts) -> bool {
    f.displaced == Some(Ok::<bool, String>(true))
}

/// A swap is validated, finds its way clear, prepares what it puts there and makes one atomic
/// move: in where nothing stood, out where nothing is to stand, an exchange otherwise.
pub proof fn swaps_are_prepared(
    swap: Swap,
    surface: Seq<char>,
    displaced_path: Seq<char>,
    f: SwapFacts,
)
    ensures
        ({
            let step = next_swap(swap, surface, displaced_path, f);
            let valid = swap is Install ==> went_well(f.validated);
            let starts = may_start(swap, f);
            let prepared = is_prepared(swap, f);
            &&& step is Validate <==> swap is Install && f.validated is None
            &&& swap is Install ==> (f.validated matches Some(Err(why)) ==> step == (
            SwapStepView::Fail { message: why@, remove_candidate: false }))
            &&& step is CheckClear <==> valid && f.clear is None
            &&& valid ==> (f.clear matches Some(Some(path)) ==> step == (SwapStepView::Fail {
                message: "launcher CAS artifact already exists: "@ + path@,
                remove_candidate: false,
            }))
            &&& step is CreateCandidate <==> starts && !moves_away(swap) && f.created is None
            &&& starts && !moves_away(swap) ==> (f.created matches Some(Err(why)) ==> step == (
            SwapStepView::Fail { message: why@, remove_candidate: false }))
            &&& step is SnapshotCandidate <==> starts && !moves_away(swap) && went_well(f.created)
                && f.snapshot is None
            &&& starts && !moves_away(swap) && went_well(f.created) ==> (f.snapshot
                matches Some(Err(why)) ==> step == (SwapStepView::Fail {
                message: why@,
                remove_candidate: false,
            }))
            &&& step is MoveIn <==> prepared && moves_in(swap) && f.swapped is None
            &&& step is MoveOut <==> prepared && moves_away(swap) && f.swapped is None
            &&& step is Exchange <==> prepared && !moves_in(swap) && !moves_away(swap) && f.swapped
                is None
            &&& prepared ==> (f.swapped matches Some(Err(why)) ==> (step
                matches SwapStepView::Fail { message, remove_candidate } && (remove_candidate
                <==> !moves_away(swap)) && (!moves_in(swap) && !moves_away(swap) ==> message
                == why@)))
        }),
{
}

/// A swap that was made is looked at from both sides. Where the launcher is what was put there
/// and what was displaced is what was expected, the displaced file goes and the swap is done.
/// Where something else was displaced it is put back. Where the launcher has been written since,
/// everything stays.
pub proof fn swaps_are_finished_or_undone(
    swap: Swap,
    surface: Seq<char>,
    displaced_path: Seq<char>,
    f: SwapFacts,
)
    ensures
        ({
            let step = next_swap(swap, surface, displaced_path, f);
            let swapped = is_swapped(swap, f);
            let there = swapped && f.intact == Some(true);
            let seen = swapped && f.intact is Some && !moves_in(swap) && f.displaced is Some;
            let undone = seen && f.intact == Some(true) && !displaced_as_expected(f);
            let put_back = undone && went_well(f.rolled_back);
            &&& step is CheckIntact <==> swapped && f.intact is None
            &&& step is CheckDisplaced <==> swapped && f.intact is Some && !moves_in(swap)
                && f.displaced is None
            &&& swapped && f.intact == Some(false) ==> step is CheckDisplaced || (step
                matches SwapStepView::Fail { message, remove_candidate } && !remove_candidate)
            &&& step is RemoveDisplaced <==> there && !moves_in(swap) && displaced_as_expected(f)
                && f.cleaned is None
            &&& step is Done <==> there && (moves_in(swap) || (displaced_as_expected(f)
                && went_well(f.cleaned)))
            &&& step is RollBack <==> undone && f.rolled_back is None
            &&& step is RemoveCandidate <==> put_back && !moves_away(swap) && f.cleaned is None
            &&& undone && f.rolled_back is Some ==> step is RemoveCandidate || (step
                matches SwapStepView::Fail { message, remove_candidate } && !remove_candidate)
        }),
{
}

/// After an interrupted takeover, what was displaced is removed exactly where the shim stands at
/// the launcher and the displaced file is the expected one, an unused shim is removed, and
/// everything else that is left is kept and reported.
pub proof fn interrupted_takeovers_are_cleared(
    a: TakeoverArtifacts,
    surface: Seq<char>,
    displaced: Seq<char>,
)
    ensures
        ({
            let r = takeover_recovery(a, surface, displaced);
            let both = a.surface_is_shim && a.displaced_exists;
            &&& r is Nothing <==> !a.candidate_exists && !a.displaced_exists
            &&& r is RemoveDisplaced <==> both && a.displaced_is_expected
            &&& r is RemoveCandidate <==> !both && a.candidate_exists && a.candidate_is_shim
            &&& !(r is MoveBack)
            &&& r is Fail <==> (both && !a.displaced_is_expected) || (!both && (a.candidate_exists
                || a.displaced_exists) && !(a.candidate_exists && a.candidate_is_shim))
        }),
{
}

/// After an interrupted restoration, the displaced shim is removed exactly where the launcher is
/// as it was before the takeover, an unused copy of the baseline is removed, what was displaced
/// from an empty place without being the shim is moved back, and everything else is kept.
pub proof fn interrupted_restorations_are_cleared(
    a: RestoreArtifacts,
    surface: Seq<char>,
    displaced: Seq<char>,
)
    ensures
        ({
            let r = restore_recovery(a, surface, displaced);
            let left = a.candidate_exists || a.displaced_exists;
            let as_before = a.displaced_exists && (if a.baseline_missing {
                !a.surface_exists
            } else {
                a.surface_is_baseline
            });
            &&& r is Nothing <==> !left
            &&& r is RemoveDisplaced <==> as_before && a.displaced_is_shim
            &&& r is MoveBack <==> as_before && a.baseline_missing && !a.displaced_is_shim
            &&& r is RemoveCandidate <==> !as_before && !a.baseline_missing && a.candidate_exists
                && a.candidate_is_baseline
            &&& r is Fail <==> left && ((as_before && !a.baseline_missing && !a.displaced_is_shim)
                || (!as_before && !(!a.baseline_missing && a.candidate_exists
                && a.candidate_is_baseline)))
        }),
{
}

} // verus!
