//! What an installation, an uninstallation and the collection of generations do, in terms of
//! what is known of them.

use vstd::prelude::*;

use crate::paths::Platform;
use crate::setup::{
    cleanup_of, collected, launcher_problem, migrated, next_removal, next_setup, redirect_step,
    with_updater, without_updater, Collection, GenerationDir, RedirectFacts, RemovalFacts,
    RemovalStepView, SetupFacts, SetupStepView,
};
use crate::shim::{RecordView, UpdaterView};
use crate::state::StateView;
use crate::surface::windows_form;
use crate::text::texts;

verus! {

/// Nothing forbids the installation: there is none yet, its inputs can be read, and launchers
/// are selected, each of a type that can be redirected.
pub open spec fn may_install(facts: SetupFacts, platform: Platform) -> bool {
    &&& !facts.installed
    &&& facts.patch_dir is Ok
    &&& facts.config is Ok
    &&& facts.patches is Ok
    &&& facts.updater is Ok
    &&& facts.selected matches Ok(selected) && selected@.len() > 0 && (platform is Windows
        ==> forall|i: int|
        0 <= i < selected@.len() ==> windows_form((#[trigger] selected@[i])@) is Ok)
}

/// The user agrees, beforehand or when asked.
pub open spec fn agrees(yes: bool, confirmed: Option<Result<bool, String>>) -> bool {
    yes || (confirmed matches Some(Ok(answer)) && answer)
}

/// The first generation is built, and the manager and the state are in place.
pub open spec fn is_built(facts: SetupFacts, platform: Platform) -> bool {
    &&& may_install(facts, platform)
    &&& agrees(facts.yes, facts.confirmed)
    &&& facts.manager_copied matches Some(Ok(_))
    &&& facts.state_saved matches Some(Ok(_))
    &&& facts.built matches Some(Ok(_))
}

/// Launchers may be taken over: the generation is built, and a system updater is off.
pub open spec fn may_redirect(facts: SetupFacts, platform: Platform) -> bool {
    is_built(facts, platform) && ((facts.updater matches Ok(found) && !found) || ((
    facts.updater_recorded matches Some(Ok(_))) && (facts.updater_disabled matches Some(Ok(_)))
        && (facts.updater_completed matches Some(Ok(_)))))
}

/// The launcher has been taken over for good.
pub open spec fn is_redirected(r: RedirectFacts) -> bool {
    (r.installed is Ok) && (r.recorded matches Some(Ok(_))) && (r.finalized matches Some(Ok(_)))
}

/// The first `n` launchers have been taken over for good.
pub open spec fn redirected_up_to(facts: SetupFacts, n: int) -> bool {
    n <= facts.redirects@.len() && forall|i: int|
        0 <= i < n ==> is_redirected(#[trigger] facts.redirects@[i])
}

proof fn lemma_launcher_types(selected: Seq<Seq<char>>, platform: Platform)
    ensures
        launcher_problem(selected, platform) is None <==> (platform is Windows ==> forall|i: int|
            0 <= i < selected.len() ==> windows_form(#[trigger] selected[i]) is Ok),
    decreases selected.len(),
{
    if selected.len() > 0 {
        let rest = selected.drop_first();
        lemma_launcher_types(rest, platform);
        if platform is Windows {
            if forall|i: int| 0 <= i < selected.len() ==> windows_form(#[trigger] selected[i]) is Ok {
                assert forall|i: int| 0 <= i < rest.len() implies windows_form(
                    #[trigger] rest[i],
                ) is Ok by {
                    assert(rest[i] == selected[i + 1]);
                }
            }
            if windows_form(selected[0]) is Ok && (forall|i: int|
                0 <= i < rest.len() ==> windows_form(#[trigger] rest[i]) is Ok) {
                assert forall|i: int| 0 <= i < selected.len() implies windows_form(
                    #[trigger] selected[i],
                ) is Ok by {
                    if i > 0 {
                        assert(selected[i] == rest[i - 1]);
                    }
                }
            }
        }
    }
}

proof fn lemma_types(facts: SetupFacts, platform: Platform)
    ensures
        facts.selected matches Ok(selected) ==> (launcher_problem(texts(selected@), platform)
            is None <==> (platform is Windows ==> forall|i: int|
            0 <= i < selected@.len() ==> windows_form((#[trigger] selected@[i])@) is Ok)),
{
    if let Ok(selected) = facts.selected {
        let all = texts(selected@);
        lemma_launcher_types(all, platform);
        if platform is Windows {
            if forall|i: int|
                0 <= i < selected@.len() ==> windows_form((#[trigger] selected@[i])@) is Ok {
                assert forall|i: int| 0 <= i < all.len() implies windows_form(
                    #[trigger] all[i],
                ) is Ok by {
                    assert(all[i] == selected@[i]@);
                }
            }
            if forall|i: int| 0 <= i < all.len() ==> windows_form(#[trigger] all[i]) is Ok {
                assert forall|i: int| 0 <= i < selected@.len() implies windows_form(
                    (#[trigger] selected@[i])@,
                ) is Ok by {
                    assert(all[i] == selected@[i]@);
                }
            }
        }
    }
}

/// An installation changes nothing before the user has agreed to one that is possible, and then
/// goes through its stages in order. What fails before the state is saved just stops it; what
/// fails later is rolled back.
pub proof fn installations_go_through_their_stages(
    given: Seq<char>,
    facts: SetupFacts,
    platform: Platform,
)
    ensures
        !may_install(facts, platform) ==> next_setup(given, facts, platform) is Fail,
        may_install(facts, platform) ==> {
            let step = next_setup(given, facts, platform);
            &&& !facts.yes && facts.confirmed is None <==> step is Confirm
            &&& !facts.yes && facts.confirmed is Some && !agrees(false, facts.confirmed)
                ==> step is Fail
            &&& agrees(facts.yes, facts.confirmed) ==> {
                &&& facts.manager_copied is None <==> step is CopyManager
                &&& facts.manager_copied matches Some(Err(why)) ==> step == (SetupStepView::Fail {
                    message: why@,
                })
                &&& facts.manager_copied matches Some(Ok(_)) ==> {
                    &&& facts.state_saved is None <==> step is SaveState
                    &&& facts.state_saved matches Some(Err(why)) ==> step == (SetupStepView::Fail {
                        message: why@,
                    })
                    &&& facts.state_saved matches Some(Ok(_)) ==> {
                        &&& facts.built is None <==> step is Build
                        &&& facts.built matches Some(Err(why)) ==> step == (
                        SetupStepView::RollBack {
                            message: "building the initial patched generation: "@ + why@,
                            undo: None,
                        })
                    }
                }
            }
        },
{
    lemma_types(facts, platform);
    reveal_strlit("building the initial patched generation");
    reveal_strlit(": ");
    reveal_strlit("building the initial patched generation: ");
    assert("building the initial patched generation"@ + ": "@
        =~= "building the initial patched generation: "@);
    lemma_no_early_step(texts(facts.selected->Ok_0@), facts.redirects@, 0);
}

proof fn lemma_no_early_step(selected: Seq<Seq<char>>, redirects: Seq<RedirectFacts>, i: int)
    ensures
        ({
            let step = redirect_step(selected, redirects, i);
            step is Done || step is Redirect || step is RecordRedirect || step is FinalizeRedirect
                || step is RollBack
        }),
    decreases selected.len() - i,
{
    if i < selected.len() && i < redirects.len() {
        lemma_no_early_step(selected, redirects, i + 1);
    }
}

/// A system updater is recorded, switched off and recorded again before the first launcher is
/// taken over; where there is none, the launchers follow at once.
pub proof fn updaters_are_switched_off_first(
    given: Seq<char>,
    facts: SetupFacts,
    platform: Platform,
)
    requires
        is_built(facts, platform),
        facts.updater matches Ok(found) && found,
    ensures
        ({
            let step = next_setup(given, facts, platform);
            &&& facts.updater_recorded is None <==> step is RecordUpdater
            &&& facts.updater_recorded matches Some(Err(_)) ==> step is RollBack
            &&& facts.updater_recorded matches Some(Ok(_)) ==> {
                &&& facts.updater_disabled is None <==> step is DisableUpdater
                &&& facts.updater_disabled matches Some(Err(_)) ==> step is RollBack
                &&& facts.updater_disabled matches Some(Ok(_)) ==> {
                    &&& facts.updater_completed is None <==> step is CompleteUpdater
                    &&& facts.updater_completed matches Some(Err(_)) ==> step is RollBack
                }
            }
        }),
{
    lemma_types(facts, platform);
    lemma_no_early_step(texts(facts.selected->Ok_0@), facts.redirects@, 0);
}

proof fn lemma_redirects_walk(
    selected: Seq<Seq<char>>,
    redirects: Seq<RedirectFacts>,
    i: int,
    n: int,
)
    requires
        0 <= i <= n <= selected.len(),
        n <= redirects.len(),
        forall|h: int| i <= h < n ==> is_redirected(#[trigger] redirects[h]),
    ensures
        redirect_step(selected, redirects, i) == redirect_step(selected, redirects, n),
    decreases n - i,
{
    if i < n {
        assert(is_redirected(redirects[i]));
        lemma_redirects_walk(selected, redirects, i + 1, n);
    }
}

/// The first launcher that has not been taken over for good, or their number.
proof fn lemma_first_open(redirects: Seq<RedirectFacts>, len: int, i: int) -> (n: int)
    requires
        0 <= i <= len,
        i <= redirects.len(),
    ensures
        i <= n <= len,
        n <= redirects.len(),
        forall|h: int| i <= h < n ==> is_redirected(#[trigger] redirects[h]),
        n == len || n == redirects.len() || !is_redirected(redirects[n]),
    decreases len - i,
{
    if i < len && i < redirects.len() && is_redirected(redirects[i]) {
        let n = lemma_first_open(redirects, len, i + 1);
        assert forall|h: int| i <= h < n implies is_redirected(#[trigger] redirects[h]) by {
            if h > i {
                assert(i + 1 <= h);
            }
        }
        n
    } else {
        i
    }
}

/// The selected launchers are taken over one after the other, each recorded and finalized
/// before the next. The installation is done exactly when every one of them has been; what
/// fails on the way is rolled back, with the launcher whose ownership was not recorded first.
pub proof fn every_selected_launcher_is_taken_over(
    given: Seq<char>,
    facts: SetupFacts,
    platform: Platform,
)
    requires
        may_redirect(facts, platform),
    ensures
        ({
            let step = next_setup(given, facts, platform);
            let selected = facts.selected->Ok_0@;
            let red = facts.redirects@;
            &&& step is Done <==> redirected_up_to(facts, selected.len() as int)
            &&& forall|i: int|
                step == SetupStepView::Redirect(i) <==> 0 <= i < selected.len() && i == red.len()
                    && #[trigger] redirected_up_to(facts, i)
            &&& forall|i: int|
                step == SetupStepView::RecordRedirect(i) <==> 0 <= i < selected.len() && i
                    < red.len() && #[trigger] redirected_up_to(facts, i) && red[i].installed is Ok
                    && red[i].recorded is None
            &&& forall|i: int|
                step == SetupStepView::FinalizeRedirect(i) <==> 0 <= i < selected.len() && i
                    < red.len() && #[trigger] redirected_up_to(facts, i) && red[i].installed is Ok
                    && (red[i].recorded matches Some(Ok(_))) && red[i].finalized is None
            &&& forall|i: int|
                0 <= i < selected.len() && i < red.len() && #[trigger] redirected_up_to(facts, i)
                    ==> {
                    &&& red[i].installed matches Err(why) ==> step == (SetupStepView::RollBack {
                        message: "redirecting "@ + selected[i]@ + ": "@ + why@,
                        undo: None,
                    })
                    &&& red[i].installed is Ok ==> (red[i].recorded matches Some(Err(why))
                        ==> step == (SetupStepView::RollBack {
                        message: "recording launcher takeover: "@ + why@,
                        undo: Some(i),
                    }))
                    &&& red[i].installed is Ok && (red[i].recorded matches Some(Ok(_))) ==> (
                    red[i].finalized matches Some(Err(_)) ==> (
                    step matches SetupStepView::RollBack { undo, .. } && undo is None))
                }
        }),
{
    lemma_types(facts, platform);
    let selected = facts.selected->Ok_0@;
    let all = texts(selected);
    let red = facts.redirects@;
    let step = next_setup(given, facts, platform);
    assert(step == redirect_step(all, red, 0));
    let n = lemma_first_open(red, selected.len() as int, 0);
    lemma_redirects_walk(all, red, 0, n);
    assert(redirected_up_to(facts, n));
    assert forall|i: int| #[trigger] redirected_up_to(facts, i) && 0 <= i <= selected.len() implies i
        <= n by {
        if i > n {
            assert(is_redirected(red[n]));
        }
    }
    assert forall|i: int| 0 <= i < n implies is_redirected(#[trigger] red[i]) by {}
    if n < selected.len() {
        assert(all[n] == selected[n]@);
    }
}

/// An uninstallation gives the launchers back from the last to the first, then switches the
/// updaters on, and removes files exactly when nothing is left and nothing runs.
pub proof fn uninstallations_go_through_their_stages(s: StateView, facts: RemovalFacts)
    ensures
        ({
            let step = next_removal(s, facts);
            let may = agrees(facts.yes, facts.confirmed) && (facts.yes || facts.terminal);
            &&& step is Confirm <==> !facts.yes && facts.terminal && facts.confirmed is None
            &&& !may && !(step is Confirm) ==> step is Fail
            &&& may ==> {
                &&& step is RestoreSurface <==> facts.surfaces_tried < facts.surfaces
                &&& facts.surfaces_tried < facts.surfaces ==> step
                    == RemovalStepView::RestoreSurface(
                    facts.surfaces - 1 - facts.surfaces_tried,
                )
                &&& step is RestoreUpdater <==> facts.surfaces_tried >= facts.surfaces
                    && s.surfaces.len() == 0 && facts.updaters_tried < facts.updaters
                &&& step is RestoreUpdater ==> step == RemovalStepView::RestoreUpdater(
                    facts.updaters_tried as int,
                )
                &&& step is RemoveFiles <==> facts.surfaces_tried >= facts.surfaces
                    && s.surfaces.len() == 0 && facts.updaters_tried >= facts.updaters
                    && s.updaters.len() == 0 && facts.leased is None
                &&& step is Fail <==> facts.surfaces_tried >= facts.surfaces && (s.surfaces.len()
                    > 0 || (facts.updaters_tried >= facts.updaters && (s.updaters.len() > 0
                    || facts.leased is Some)))
            }
        }),
{
}

/// What may be removed after a failed installation: the updaters are switched on when no
/// launcher is owned, and the state goes only when neither is left.
pub proof fn rollbacks_keep_what_is_owned(s: StateView, manager_copied: bool)
    ensures
        cleanup_of(s, manager_copied).restore_updaters <==> s.surfaces.len() == 0,
        cleanup_of(s, manager_copied).remove_state <==> s.surfaces.len() == 0 && s.updaters.len()
            == 0,
        cleanup_of(s, manager_copied).remove_manager <==> s.surfaces.len() == 0 && s.updaters.len()
            == 0 && manager_copied,
{
}

/// A generation is removed exactly when it is a directory that is neither active nor previous,
/// no repair may need it, and nothing runs from it; what a build left over always goes.
pub proof fn only_unused_generations_are_collected(s: StateView, dir: GenerationDir, repair: bool)
    ensures
        ({
            let staging = ".staging-"@.is_prefix_of(dir.name@);
            let needed = (s.active matches Some(g) && g.id == dir.name@) || (
            s.previous matches Some(g) && g.id == dir.name@);
            &&& collected(s, dir, repair) == Collection::Remove <==> dir.is_dir && !staging
                && !needed && !repair && !dir.in_use
            &&& collected(s, dir, repair) == Collection::RemoveStaging <==> dir.is_dir && staging
            &&& collected(s, dir, repair) == Collection::Retain <==> dir.is_dir && !staging
                && needed
            &&& collected(s, dir, repair) == Collection::RetainForRepair <==> dir.is_dir
                && !staging && !needed && repair
            &&& collected(s, dir, repair) == Collection::RetainRunning <==> dir.is_dir && !staging
                && !needed && !repair && dir.in_use
            &&& collected(s, dir, repair) == Collection::Ignore <==> !dir.is_dir
        }),
{
}

/// Recording an updater keeps every other and has it once; forgetting it leaves every other and
/// none of it.
pub proof fn updaters_are_recorded_and_forgotten(
    list: Seq<UpdaterView>,
    updater: UpdaterView,
    other: UpdaterView,
)
    ensures
        with_updater(list, updater).contains(updater),
        other != updater ==> (with_updater(list, updater).contains(other) <==> list.contains(
            other,
        )),
        list.contains(updater) ==> with_updater(list, updater) == list,
        !without_updater(list, updater).contains(updater),
        other != updater ==> (without_updater(list, updater).contains(other) <==> list.contains(
            other,
        )),
{
    if !list.contains(updater) {
        let more = list.push(updater);
        assert(more[list.len() as int] == updater);
        if list.contains(other) {
            let i = choose|i: int| 0 <= i < list.len() && list[i] == other;
            assert(more[i] == other);
        }
        if other != updater && more.contains(other) {
            let i = choose|i: int| 0 <= i < more.len() && more[i] == other;
            assert(list[i] == other);
        }
    }
    lemma_without_updater(list, updater, updater);
    lemma_without_updater(list, updater, other);
}

proof fn lemma_without_updater(list: Seq<UpdaterView>, updater: UpdaterView, other: UpdaterView)
    ensures
        without_updater(list, updater).contains(other) <==> other != updater && list.contains(
            other,
        ),
    decreases list.len(),
{
    if list.len() > 0 {
        let init = list.drop_last();
        lemma_without_updater(init, updater, other);
        let kept = without_updater(init, updater);
        let out = without_updater(list, updater);
        if list.contains(other) {
            let i = choose|i: int| 0 <= i < list.len() && list[i] == other;
            if i < init.len() {
                assert(init[i] == other);
            }
        }
        if init.contains(other) {
            let i = choose|i: int| 0 <= i < init.len() && init[i] == other;
            assert(list[i] == other);
        }
        assert(list[list.len() - 1] == list.last());
        if list.last() != updater {
            assert(out[out.len() - 1] == list.last());
            if kept.contains(other) {
                let i = choose|i: int| 0 <= i < kept.len() && kept[i] == other;
                assert(out[i] == other);
            }
            if out.contains(other) && other != list.last() {
                let i = choose|i: int| 0 <= i < out.len() && out[i] == other;
                assert(kept[i] == other);
            }
        }
    }
}

/// Updaters that were recorded with a launcher are kept with the installation, beside those
/// that were there.
pub proof fn migration_keeps_every_updater(
    updaters: Seq<UpdaterView>,
    surfaces: Seq<RecordView>,
    u: UpdaterView,
)
    ensures
        migrated(updaters, surfaces).contains(u) <==> updaters.contains(u) || exists|i: int|
            0 <= i < surfaces.len() && (#[trigger] surfaces[i]).updater == Some(u),
    decreases surfaces.len(),
{
    if surfaces.len() > 0 {
        let init = surfaces.drop_last();
        migration_keeps_every_updater(updaters, init, u);
        let before = migrated(updaters, init);
        if let Some(last) = surfaces.last().updater {
            updaters_are_recorded_and_forgotten(before, last, u);
        }
        if exists|i: int| 0 <= i < init.len() && (#[trigger] init[i]).updater == Some(u) {
            let i = choose|i: int| 0 <= i < init.len() && (#[trigger] init[i]).updater == Some(u);
            assert(surfaces[i].updater == Some(u));
        }
        if exists|i: int| 0 <= i < surfaces.len() && (#[trigger] surfaces[i]).updater == Some(u) {
            let i = choose|i: int|
                0 <= i < surfaces.len() && (#[trigger] surfaces[i]).updater == Some(u);
            if i < init.len() {
                assert(init[i].updater == Some(u));
            } else {
                assert(surfaces[i] == surfaces.last());
            }
        }
        assert(surfaces[surfaces.len() - 1] == surfaces.last());
    }
}

} // verus!
